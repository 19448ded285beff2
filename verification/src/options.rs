//! The configuration surface of the engine: one immutable record of switches
//! selected once per run, read by every pipeline stage.

use vstd::prelude::*;

verus! {

/// The run configuration as the command line hands it over: the input and
/// output paths together with every rewrite switch and its default.
#[derive(Debug)]
pub struct Cli {
    /// Path to input text file
    pub input: String,
    /// Path to output text file
    pub output: String,
    /// Convert html &quot; to ascii "
    pub quot: bool,
    /// Convert quotes to curly quote entities
    pub quotes: bool,
    /// Convert backtick quotes
    pub backticks: Backtick,
    /// Convert dashes
    pub dashes: Dash,
    /// Convert ellipses '...' to the ellipsis entity
    pub ellipses: bool,
    /// Convert numeric html entities (eg &#8221;)
    pub unsmart: Unsmart,
}

/// Dash conversion mode.
#[derive(Debug, Clone, Copy, PartialEq, Eq, Structural)]
pub enum Dash {
    Ignore,
    /// Convert '--' to em-dash entities
    Basic,
    /// Convert '--' and '---' to en-dash and em-dash entities
    Old,
    /// Convert '--' and '---' to em-dash and en-dash entities
    Invert,
}

/// Backtick conversion mode.
#[derive(Debug, Clone, Copy, PartialEq, Eq, Structural)]
pub enum Backtick {
    Ignore,
    /// Convert single backticks ` to single quotes '
    Single,
    /// Convert double backticks `` to double quotes "
    Double,
    /// Convert both single and double backticks to quotes
    All,
}

/// Final rendering mode for the numeric entity markers.
#[derive(Debug, Clone, Copy, PartialEq, Eq, Structural)]
pub enum Unsmart {
    Ignore,
    /// Convert entities to ASCII (eg ")
    ASCII,
    /// Convert entities to UTF8 (eg a curly quote character)
    UTF8,
    /// Convert entities to named html (eg &ldquo;)
    Named,
}

/// The rewrite switches alone; see `Cli` for the description of each field.
#[derive(Debug, Clone, Copy)]
pub struct Opts {
    pub quotes: bool,
    pub backticks: Backtick,
    pub dashes: Dash,
    pub ellipses: bool,
    pub quot: bool,
    pub unsmart: Unsmart,
}

impl From<&Cli> for Opts {
    fn from(c: &Cli) -> (r: Self) {
        Self {
            quotes: c.quotes,
            backticks: c.backticks,
            dashes: c.dashes,
            ellipses: c.ellipses,
            quot: c.quot,
            unsmart: c.unsmart,
        }
    }
}

impl vstd::std_specs::convert::FromSpecImpl<&Cli> for Opts {
    open spec fn obeys_from_spec() -> bool {
        true
    }

    open spec fn from_spec(c: &Cli) -> Opts {
        Opts {
            quotes: c.quotes,
            backticks: c.backticks,
            dashes: c.dashes,
            ellipses: c.ellipses,
            quot: c.quot,
            unsmart: c.unsmart,
        }
    }
}

} // verus!
