//! Conversion of plain ASCII punctuation in HTML-flavoured text into
//! typographically correct equivalents: straight quotes become directional
//! curly-quote entities, hyphen runs become en/em dashes, dot runs become
//! ellipses, and backtick quoting is normalised.  Markup tags and well-formed
//! HTML comments pass through untouched, and text inside verbatim elements
//! (`pre`, `code`, `script`, ...) is never rewritten.

pub mod classes;
pub mod engine;
pub mod laws;
pub mod options;
pub mod quotes;
pub mod render;
pub mod replace;
pub mod rewrite;
pub mod text;
pub mod tokenize;
pub mod verbatim;

pub use engine::smartypants;
pub use options::Backtick;
pub use options::Cli;
pub use options::Dash;
pub use options::Opts;
pub use options::Unsmart;
pub use render::unsmart;
pub use rewrite::unescape_text;
