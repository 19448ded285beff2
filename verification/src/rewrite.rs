//! The order-dependent rewrite stages that run over a free-text token before
//! quote disambiguation: escape unescaping, literal `&quot;` substitution,
//! dash conversion, ellipsis conversion and backtick conversion.

use crate::classes::{append_copy, em_dash, en_dash, entity_82, open_single, close_single,
    open_double, close_double, ellipsis};
use crate::options::{Backtick, Dash};
use crate::replace::{replace_all, replace_spec};
use crate::text::{chars_to_string, str_to_chars};
use vstd::prelude::*;

verus! {

/// The result of replacing each backslash-escaped literal (`\\`, `\"`, `\'`,
/// `\.`, `\-`, `` \` ``) by the numeric entity of the escaped character, so
/// that no later stage mistakes an intentionally literal character for
/// punctuation to convert.
pub open spec fn unescape_spec(s: Seq<char>) -> Seq<char> {
    let s1 = replace_spec(s, seq!['\\', '\\'], seq!['&', '#', '9', '2', ';']);
    let s2 = replace_spec(s1, seq!['\\', '"'], seq!['&', '#', '3', '4', ';']);
    let s3 = replace_spec(s2, seq!['\\', '\''], seq!['&', '#', '3', '9', ';']);
    let s4 = replace_spec(s3, seq!['\\', '.'], seq!['&', '#', '4', '6', ';']);
    let s5 = replace_spec(s4, seq!['\\', '-'], seq!['&', '#', '4', '5', ';']);
    replace_spec(s5, seq!['\\', '`'], seq!['&', '#', '9', '6', ';'])
}

/// Builds the five-character numeric entity `&#xy;`.
fn entity_2(x: char, y: char) -> (v: Vec<char>)
    ensures
        v@ == seq!['&', '#', x, y, ';'],
{
    let mut v: Vec<char> = Vec::new();
    v.push('&');
    v.push('#');
    v.push(x);
    v.push(y);
    v.push(';');
    proof {
        assert(v@ =~= seq!['&', '#', x, y, ';']);
    }
    v
}

pub(crate) fn unescape_chars(s: &Vec<char>) -> (r: Vec<char>)
    ensures
        r@ == unescape_spec(s@),
{
    let mut pat: Vec<char> = Vec::new();
    pat.push('\\');
    pat.push('\\');
    proof {
        assert(pat@ =~= seq!['\\', '\\']);
    }
    let mut r = replace_all(s, &pat, &entity_2('9', '2'));
    let _ = pat.pop();
    pat.push('"');
    proof {
        assert(pat@ =~= seq!['\\', '"']);
    }
    r = replace_all(&r, &pat, &entity_2('3', '4'));
    let _ = pat.pop();
    pat.push('\'');
    proof {
        assert(pat@ =~= seq!['\\', '\'']);
    }
    r = replace_all(&r, &pat, &entity_2('3', '9'));
    let _ = pat.pop();
    pat.push('.');
    proof {
        assert(pat@ =~= seq!['\\', '.']);
    }
    r = replace_all(&r, &pat, &entity_2('4', '6'));
    let _ = pat.pop();
    pat.push('-');
    proof {
        assert(pat@ =~= seq!['\\', '-']);
    }
    r = replace_all(&r, &pat, &entity_2('4', '5'));
    let _ = pat.pop();
    pat.push('`');
    proof {
        assert(pat@ =~= seq!['\\', '`']);
    }
    replace_all(&r, &pat, &entity_2('9', '6'))
}

/// Replaces backslash-escaped literals with the numeric entity of the escaped
/// character, so that later stages leave them alone.
pub fn unescape_text(text: &str) -> (r: String)
    ensures
        r@ == unescape_spec(text@),
{
    let chars = str_to_chars(text);
    let out = unescape_chars(&chars);
    chars_to_string(&out)
}

/// The literal entity `&quot;`.
pub open spec fn quot_entity() -> Seq<char> {
    seq!['&', 'q', 'u', 'o', 't', ';']
}

/// The result of replacing every literal `&quot;` by a plain double quote.
pub open spec fn unquot_spec(s: Seq<char>) -> Seq<char> {
    replace_spec(s, quot_entity(), seq!['"'])
}

pub fn unquot_chars(s: &Vec<char>) -> (r: Vec<char>)
    ensures
        r@ == unquot_spec(s@),
{
    let mut pat: Vec<char> = Vec::new();
    pat.push('&');
    pat.push('q');
    pat.push('u');
    pat.push('o');
    pat.push('t');
    pat.push(';');
    proof {
        assert(pat@ =~= quot_entity());
    }
    let mut rep: Vec<char> = Vec::new();
    rep.push('"');
    proof {
        assert(rep@ =~= seq!['"']);
    }
    replace_all(s, &pat, &rep)
}

/// A maximal run of exactly two hyphens begins at `i`: two hyphens neither
/// preceded nor followed by another hyphen.
pub open spec fn dash_basic_match(s: Seq<char>, i: int) -> bool {
    &&& 0 <= i
    &&& i + 2 <= s.len()
    &&& s[i] == '-'
    &&& s[i + 1] == '-'
    &&& (i == 0 || s[i - 1] != '-')
    &&& (i + 2 == s.len() || s[i + 2] != '-')
}

/// Basic dash conversion from position `i` on: each isolated double hyphen
/// becomes the em dash marker; everything else is kept.
pub open spec fn dash_basic_from(s: Seq<char>, i: int) -> Seq<char>
    decreases s.len() - i,
{
    if i < 0 || i >= s.len() {
        Seq::empty()
    } else if dash_basic_match(s, i) {
        em_dash() + dash_basic_from(s, i + 2)
    } else {
        seq![s[i]] + dash_basic_from(s, i + 1)
    }
}

/// Dash conversion: *basic* turns isolated `--` into em dashes; *old* turns
/// `---` into em and `--` into en dashes, longest run first; *invert* is
/// *old* with em and en swapped; *ignore* changes nothing.
pub open spec fn dash_spec(s: Seq<char>, mode: Dash) -> Seq<char> {
    match mode {
        Dash::Ignore => s,
        Dash::Basic => dash_basic_from(s, 0),
        Dash::Old => replace_spec(
            replace_spec(s, seq!['-', '-', '-'], em_dash()),
            seq!['-', '-'],
            en_dash(),
        ),
        Dash::Invert => replace_spec(
            replace_spec(s, seq!['-', '-', '-'], en_dash()),
            seq!['-', '-'],
            em_dash(),
        ),
    }
}

fn dash_basic_pass(s: &Vec<char>) -> (r: Vec<char>)
    ensures
        r@ == dash_basic_from(s@, 0),
{
    let mut out: Vec<char> = Vec::new();
    let n = s.len();
    let mut i: usize = 0;
    proof {
        assert(Seq::<char>::empty() + dash_basic_from(s@, 0) =~= dash_basic_from(s@, 0));
    }
    while i < n
        invariant
            i <= n,
            n == s@.len(),
            dash_basic_from(s@, 0) == out@ + dash_basic_from(s@, i as int),
        decreases n - i,
    {
        let ghost pre = out@;
        if n - i >= 2 && s[i] == '-' && s[i + 1] == '-' && (i == 0 || s[i - 1] != '-') && (n - i
            == 2 || s[i + 2] != '-') {
            let m = entity_82('1', '2');
            append_copy(&mut out, &m);
            i = i + 2;
            proof {
                assert(dash_basic_match(s@, i - 2));
                assert(pre + (em_dash() + dash_basic_from(s@, i as int)) =~= out@
                    + dash_basic_from(s@, i as int));
            }
        } else {
            proof {
                assert(!dash_basic_match(s@, i as int));
            }
            out.push(s[i]);
            i = i + 1;
            proof {
                assert(pre + (seq![s@[i - 1]] + dash_basic_from(s@, i as int)) =~= out@
                    + dash_basic_from(s@, i as int));
            }
        }
    }
    proof {
        assert(out@ + dash_basic_from(s@, n as int) =~= out@);
    }
    out
}

pub(crate) fn one_char(c: char) -> (v: Vec<char>)
    ensures
        v@ == seq![c],
{
    let mut v: Vec<char> = Vec::new();
    v.push(c);
    proof {
        assert(v@ =~= seq![c]);
    }
    v
}

pub(crate) fn two_chars(c: char, d: char) -> (v: Vec<char>)
    ensures
        v@ == seq![c, d],
{
    let mut v: Vec<char> = Vec::new();
    v.push(c);
    v.push(d);
    proof {
        assert(v@ =~= seq![c, d]);
    }
    v
}

pub(crate) fn three_chars(c: char, d: char, e: char) -> (v: Vec<char>)
    ensures
        v@ == seq![c, d, e],
{
    let mut v: Vec<char> = Vec::new();
    v.push(c);
    v.push(d);
    v.push(e);
    proof {
        assert(v@ =~= seq![c, d, e]);
    }
    v
}

/// Applies the selected dash mode.
pub fn convert_dashes(s: &Vec<char>, mode: &Dash) -> (r: Vec<char>)
    ensures
        r@ == dash_spec(s@, *mode),
{
    match mode {
        Dash::Ignore => {
            let mut out: Vec<char> = Vec::new();
            append_copy(&mut out, s);
            out
        },
        Dash::Basic => dash_basic_pass(s),
        Dash::Old => {
            let r1 = replace_all(s, &three_chars('-', '-', '-'), &entity_82('1', '2'));
            replace_all(&r1, &two_chars('-', '-'), &entity_82('1', '1'))
        },
        Dash::Invert => {
            let r1 = replace_all(s, &three_chars('-', '-', '-'), &entity_82('1', '1'));
            replace_all(&r1, &two_chars('-', '-'), &entity_82('1', '2'))
        },
    }
}

/// Ellipsis conversion: both `...` and `. . .` become the ellipsis marker.
pub open spec fn ellipses_spec(s: Seq<char>) -> Seq<char> {
    replace_spec(
        replace_spec(s, seq!['.', '.', '.'], ellipsis()),
        seq!['.', ' ', '.', ' ', '.'],
        ellipsis(),
    )
}

pub fn convert_ellipses(s: &Vec<char>) -> (r: Vec<char>)
    ensures
        r@ == ellipses_spec(s@),
{
    let mut pat1: Vec<char> = Vec::new();
    pat1.push('.');
    pat1.push('.');
    pat1.push('.');
    proof {
        assert(pat1@ =~= seq!['.', '.', '.']);
    }
    let mut pat2: Vec<char> = Vec::new();
    pat2.push('.');
    pat2.push(' ');
    pat2.push('.');
    pat2.push(' ');
    pat2.push('.');
    proof {
        assert(pat2@ =~= seq!['.', ' ', '.', ' ', '.']);
    }
    let rep = entity_82('3', '0');
    let r1 = replace_all(s, &pat1, &rep);
    replace_all(&r1, &pat2, &rep)
}

/// Backtick conversion: double-width patterns are replaced before
/// single-width ones, so a double backtick is never consumed as two single
/// conversions.
pub open spec fn backtick_spec(s: Seq<char>, mode: Backtick) -> Seq<char> {
    match mode {
        Backtick::Ignore => s,
        Backtick::All => {
            let s1 = replace_spec(s, seq!['`', '`'], open_double());
            let s2 = replace_spec(s1, seq!['\'', '\''], close_double());
            let s3 = replace_spec(s2, seq!['`'], open_single());
            replace_spec(s3, seq!['\''], close_single())
        },
        Backtick::Single => {
            let s1 = replace_spec(s, seq!['`'], open_single());
            replace_spec(s1, seq!['\''], close_single())
        },
        Backtick::Double => {
            let s1 = replace_spec(s, seq!['`', '`'], open_double());
            replace_spec(s1, seq!['\'', '\''], close_double())
        },
    }
}

/// Applies the selected backtick mode.
pub fn convert_backticks(s: &Vec<char>, mode: &Backtick) -> (r: Vec<char>)
    ensures
        r@ == backtick_spec(s@, *mode),
{
    match mode {
        Backtick::Ignore => {
            let mut out: Vec<char> = Vec::new();
            append_copy(&mut out, s);
            out
        },
        Backtick::All => {
            let r1 = replace_all(s, &two_chars('`', '`'), &entity_82('2', '0'));
            let r2 = replace_all(&r1, &two_chars('\'', '\''), &entity_82('2', '1'));
            let r3 = replace_all(&r2, &one_char('`'), &entity_82('1', '6'));
            replace_all(&r3, &one_char('\''), &entity_82('1', '7'))
        },
        Backtick::Single => {
            let r1 = replace_all(s, &one_char('`'), &entity_82('1', '6'));
            replace_all(&r1, &one_char('\''), &entity_82('1', '7'))
        },
        Backtick::Double => {
            let r1 = replace_all(s, &two_chars('`', '`'), &entity_82('2', '0'));
            replace_all(&r1, &two_chars('\'', '\''), &entity_82('2', '1'))
        },
    }
}

} // verus!
