//! Final rendering of the numeric entity markers: a pure, table-driven
//! substitution from each of the seven markers to its ASCII fallback, its
//! single Unicode character, or its named HTML entity.

use crate::classes::{close_double, close_single, ellipsis, em_dash, en_dash, entity_82,
    open_double, open_single};
use crate::options::Unsmart;
use crate::replace::{replace_all, replace_spec};
use crate::rewrite::{one_char, three_chars, two_chars};
use crate::text::{chars_to_string, str_to_chars};
use vstd::prelude::*;

verus! {

/// What the en dash marker renders to in each mode.
pub open spec fn rep_en_dash(m: Unsmart) -> Seq<char> {
    match m {
        Unsmart::Ignore => en_dash(),
        Unsmart::ASCII => seq!['-'],
        Unsmart::UTF8 => seq!['\u{2013}'],
        Unsmart::Named => seq!['&', 'n', 'd', 'a', 's', 'h', ';'],
    }
}

/// What the em dash marker renders to in each mode.
pub open spec fn rep_em_dash(m: Unsmart) -> Seq<char> {
    match m {
        Unsmart::Ignore => em_dash(),
        Unsmart::ASCII => seq!['-', '-'],
        Unsmart::UTF8 => seq!['\u{2014}'],
        Unsmart::Named => seq!['&', 'm', 'd', 'a', 's', 'h', ';'],
    }
}

/// What the opening single quote marker renders to in each mode.
pub open spec fn rep_open_single(m: Unsmart) -> Seq<char> {
    match m {
        Unsmart::Ignore => open_single(),
        Unsmart::ASCII => seq!['\''],
        Unsmart::UTF8 => seq!['\u{2018}'],
        Unsmart::Named => seq!['&', 'l', 's', 'q', 'u', 'o', ';'],
    }
}

/// What the closing single quote marker renders to in each mode.
pub open spec fn rep_close_single(m: Unsmart) -> Seq<char> {
    match m {
        Unsmart::Ignore => close_single(),
        Unsmart::ASCII => seq!['\''],
        Unsmart::UTF8 => seq!['\u{2019}'],
        Unsmart::Named => seq!['&', 'r', 's', 'q', 'u', 'o', ';'],
    }
}

/// What the opening double quote marker renders to in each mode.
pub open spec fn rep_open_double(m: Unsmart) -> Seq<char> {
    match m {
        Unsmart::Ignore => open_double(),
        Unsmart::ASCII => seq!['"'],
        Unsmart::UTF8 => seq!['\u{201c}'],
        Unsmart::Named => seq!['&', 'l', 'd', 'q', 'u', 'o', ';'],
    }
}

/// What the closing double quote marker renders to in each mode.
pub open spec fn rep_close_double(m: Unsmart) -> Seq<char> {
    match m {
        Unsmart::Ignore => close_double(),
        Unsmart::ASCII => seq!['"'],
        Unsmart::UTF8 => seq!['\u{201d}'],
        Unsmart::Named => seq!['&', 'r', 'd', 'q', 'u', 'o', ';'],
    }
}

/// What the ellipsis marker renders to in each mode.
pub open spec fn rep_ellipsis(m: Unsmart) -> Seq<char> {
    match m {
        Unsmart::Ignore => ellipsis(),
        Unsmart::ASCII => seq!['.', '.', '.'],
        Unsmart::UTF8 => seq!['\u{2026}'],
        Unsmart::Named => seq!['&', 'h', 'e', 'l', 'l', 'i', 'p', ';'],
    }
}

/// The result of rendering every numeric entity marker in `s` in mode `m`;
/// `Ignore` leaves the markers in place.  The seven markers never overlap in
/// any text, so the order of the passes cannot be observed.
pub open spec fn unsmart_spec(s: Seq<char>, m: Unsmart) -> Seq<char> {
    match m {
        Unsmart::Ignore => s,
        _ => {
            let s1 = replace_spec(s, en_dash(), rep_en_dash(m));
            let s2 = replace_spec(s1, em_dash(), rep_em_dash(m));
            let s3 = replace_spec(s2, open_single(), rep_open_single(m));
            let s4 = replace_spec(s3, close_single(), rep_close_single(m));
            let s5 = replace_spec(s4, open_double(), rep_open_double(m));
            let s6 = replace_spec(s5, close_double(), rep_close_double(m));
            replace_spec(s6, ellipsis(), rep_ellipsis(m))
        },
    }
}

fn seven_chars(a: char, b: char, c: char, d: char, e: char, f: char, g: char) -> (v: Vec<char>)
    ensures
        v@ == seq![a, b, c, d, e, f, g],
{
    let mut v: Vec<char> = Vec::new();
    v.push(a);
    v.push(b);
    v.push(c);
    v.push(d);
    v.push(e);
    v.push(f);
    v.push(g);
    proof {
        assert(v@ =~= seq![a, b, c, d, e, f, g]);
    }
    v
}

fn eight_chars(a: char, b: char, c: char, d: char, e: char, f: char, g: char, h: char) -> (v: Vec<
    char,
>)
    ensures
        v@ == seq![a, b, c, d, e, f, g, h],
{
    let mut v: Vec<char> = Vec::new();
    v.push(a);
    v.push(b);
    v.push(c);
    v.push(d);
    v.push(e);
    v.push(f);
    v.push(g);
    v.push(h);
    proof {
        assert(v@ =~= seq![a, b, c, d, e, f, g, h]);
    }
    v
}

fn rep_en_dash_vec(m: &Unsmart) -> (v: Vec<char>)
    ensures
        v@ == rep_en_dash(*m),
{
    match m {
        Unsmart::Ignore => entity_82('1', '1'),
        Unsmart::ASCII => one_char('-'),
        Unsmart::UTF8 => one_char('\u{2013}'),
        Unsmart::Named => seven_chars('&', 'n', 'd', 'a', 's', 'h', ';'),
    }
}

fn rep_em_dash_vec(m: &Unsmart) -> (v: Vec<char>)
    ensures
        v@ == rep_em_dash(*m),
{
    match m {
        Unsmart::Ignore => entity_82('1', '2'),
        Unsmart::ASCII => two_chars('-', '-'),
        Unsmart::UTF8 => one_char('\u{2014}'),
        Unsmart::Named => seven_chars('&', 'm', 'd', 'a', 's', 'h', ';'),
    }
}

fn rep_open_single_vec(m: &Unsmart) -> (v: Vec<char>)
    ensures
        v@ == rep_open_single(*m),
{
    match m {
        Unsmart::Ignore => entity_82('1', '6'),
        Unsmart::ASCII => one_char('\''),
        Unsmart::UTF8 => one_char('\u{2018}'),
        Unsmart::Named => seven_chars('&', 'l', 's', 'q', 'u', 'o', ';'),
    }
}

fn rep_close_single_vec(m: &Unsmart) -> (v: Vec<char>)
    ensures
        v@ == rep_close_single(*m),
{
    match m {
        Unsmart::Ignore => entity_82('1', '7'),
        Unsmart::ASCII => one_char('\''),
        Unsmart::UTF8 => one_char('\u{2019}'),
        Unsmart::Named => seven_chars('&', 'r', 's', 'q', 'u', 'o', ';'),
    }
}

fn rep_open_double_vec(m: &Unsmart) -> (v: Vec<char>)
    ensures
        v@ == rep_open_double(*m),
{
    match m {
        Unsmart::Ignore => entity_82('2', '0'),
        Unsmart::ASCII => one_char('"'),
        Unsmart::UTF8 => one_char('\u{201c}'),
        Unsmart::Named => seven_chars('&', 'l', 'd', 'q', 'u', 'o', ';'),
    }
}

fn rep_close_double_vec(m: &Unsmart) -> (v: Vec<char>)
    ensures
        v@ == rep_close_double(*m),
{
    match m {
        Unsmart::Ignore => entity_82('2', '1'),
        Unsmart::ASCII => one_char('"'),
        Unsmart::UTF8 => one_char('\u{201d}'),
        Unsmart::Named => seven_chars('&', 'r', 'd', 'q', 'u', 'o', ';'),
    }
}

fn rep_ellipsis_vec(m: &Unsmart) -> (v: Vec<char>)
    ensures
        v@ == rep_ellipsis(*m),
{
    match m {
        Unsmart::Ignore => entity_82('3', '0'),
        Unsmart::ASCII => three_chars('.', '.', '.'),
        Unsmart::UTF8 => one_char('\u{2026}'),
        Unsmart::Named => eight_chars('&', 'h', 'e', 'l', 'l', 'i', 'p', ';'),
    }
}

pub(crate) fn unsmart_chars(s: &Vec<char>, m: &Unsmart) -> (r: Vec<char>)
    ensures
        r@ == unsmart_spec(s@, *m),
{
    match m {
        Unsmart::Ignore => {
            let mut out: Vec<char> = Vec::new();
            crate::classes::append_copy(&mut out, s);
            out
        },
        _ => {
            let r1 = replace_all(s, &entity_82('1', '1'), &rep_en_dash_vec(m));
            let r2 = replace_all(&r1, &entity_82('1', '2'), &rep_em_dash_vec(m));
            let r3 = replace_all(&r2, &entity_82('1', '6'), &rep_open_single_vec(m));
            let r4 = replace_all(&r3, &entity_82('1', '7'), &rep_close_single_vec(m));
            let r5 = replace_all(&r4, &entity_82('2', '0'), &rep_open_double_vec(m));
            let r6 = replace_all(&r5, &entity_82('2', '1'), &rep_close_double_vec(m));
            replace_all(&r6, &entity_82('3', '0'), &rep_ellipsis_vec(m))
        },
    }
}

/// Renders every numeric entity marker in `text` in mode `m`: the ASCII
/// fallback, the single Unicode character, or the named HTML entity.  Text
/// that is no marker is passed through unchanged.
pub fn unsmart(text: &str, mode: &Unsmart) -> (r: String)
    ensures
        r@ == unsmart_spec(text@, *mode),
{
    let chars = str_to_chars(text);
    let out = unsmart_chars(&chars, mode);
    chars_to_string(&out)
}

} // verus!
