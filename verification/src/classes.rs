//! Character classes and entity markers used by the rewrite rules.
//!
//! The rules decide the direction of a quote from local lexical context:
//! whitespace, word characters, digits and punctuation.  The classes here are
//! the ASCII classes those rules read.  Converted punctuation is carried as a
//! canonical numeric HTML entity (a "marker") until final rendering.

use vstd::prelude::*;

verus! {

/// ASCII whitespace: space, tab, line feed, carriage return, vertical tab,
/// form feed.
pub open spec fn is_space_char(c: char) -> bool {
    c == ' ' || c == '\t' || c == '\n' || c == '\r' || c == '\u{b}' || c == '\u{c}'
}

pub fn is_space(c: char) -> (b: bool)
    ensures
        b == is_space_char(c),
{
    c == ' ' || c == '\t' || c == '\n' || c == '\r' || c == '\u{b}' || c == '\u{c}'
}

/// A word character: ASCII letter, digit or underscore.
pub open spec fn is_word_char(c: char) -> bool {
    ('a' <= c && c <= 'z') || ('A' <= c && c <= 'Z') || ('0' <= c && c <= '9') || c == '_'
}

pub fn is_word(c: char) -> (b: bool)
    ensures
        b == is_word_char(c),
{
    ('a' <= c && c <= 'z') || ('A' <= c && c <= 'Z') || ('0' <= c && c <= '9') || c == '_'
}

pub open spec fn is_digit_char(c: char) -> bool {
    '0' <= c && c <= '9'
}

pub fn is_digit(c: char) -> (b: bool)
    ensures
        b == is_digit_char(c),
{
    '0' <= c && c <= '9'
}

/// ASCII punctuation as the force-close rule reads it: every ASCII
/// punctuation character except `&`.
pub open spec fn is_punct_char(c: char) -> bool {
    ('!' <= c && c <= '/' && c != '&') || (':' <= c && c <= '@') || ('[' <= c && c <= '`') || ('{'
        <= c && c <= '~')
}

pub fn is_punct(c: char) -> (b: bool)
    ensures
        b == is_punct_char(c),
{
    ('!' <= c && c <= '/' && c != '&') || (':' <= c && c <= '@') || ('[' <= c && c <= '`') || ('{'
        <= c && c <= '~')
}

/// The class of characters that may stand right before a closing quote:
/// anything except space, tab, carriage return, line feed, an opening
/// bracket, brace or parenthesis, and the hyphen.
pub open spec fn is_close_class_char(c: char) -> bool {
    !(c == ' ' || c == '\t' || c == '\r' || c == '\n' || c == '[' || c == '{' || c == '(' || c
        == '-')
}

pub fn is_close_class(c: char) -> (b: bool)
    ensures
        b == is_close_class_char(c),
{
    !(c == ' ' || c == '\t' || c == '\r' || c == '\n' || c == '[' || c == '{' || c == '(' || c
        == '-')
}

/// En dash marker, `&#8211;`.
pub open spec fn en_dash() -> Seq<char> {
    seq!['&', '#', '8', '2', '1', '1', ';']
}

/// Em dash marker, `&#8212;`.
pub open spec fn em_dash() -> Seq<char> {
    seq!['&', '#', '8', '2', '1', '2', ';']
}

/// Opening single quote marker, `&#8216;`.
pub open spec fn open_single() -> Seq<char> {
    seq!['&', '#', '8', '2', '1', '6', ';']
}

/// Closing single quote marker, `&#8217;`.
pub open spec fn close_single() -> Seq<char> {
    seq!['&', '#', '8', '2', '1', '7', ';']
}

/// Opening double quote marker, `&#8220;`.
pub open spec fn open_double() -> Seq<char> {
    seq!['&', '#', '8', '2', '2', '0', ';']
}

/// Closing double quote marker, `&#8221;`.
pub open spec fn close_double() -> Seq<char> {
    seq!['&', '#', '8', '2', '2', '1', ';']
}

/// Ellipsis marker, `&#8230;`.
pub open spec fn ellipsis() -> Seq<char> {
    seq!['&', '#', '8', '2', '3', '0', ';']
}

/// Builds the numeric entity `&#82xy;` as a vector of characters.
pub fn entity_82(x: char, y: char) -> (v: Vec<char>)
    ensures
        v@ == seq!['&', '#', '8', '2', x, y, ';'],
{
    let mut v: Vec<char> = Vec::new();
    v.push('&');
    v.push('#');
    v.push('8');
    v.push('2');
    v.push(x);
    v.push(y);
    v.push(';');
    proof {
        assert(v@ =~= seq!['&', '#', '8', '2', x, y, ';']);
    }
    v
}

/// Appends a copy of every character of `src` to `out`.
pub fn append_copy(out: &mut Vec<char>, src: &Vec<char>)
    ensures
        final(out)@ == old(out)@ + src@,
{
    let mut j: usize = 0;
    while j < src.len()
        invariant
            j <= src@.len(),
            out@ == old(out)@ + src@.take(j as int),
        decreases src@.len() - j,
    {
        out.push(src[j]);
        j = j + 1;
        proof {
            assert(out@ =~= old(out)@ + src@.take(j as int));
        }
    }
    proof {
        assert(old(out)@ + src@.take(src@.len() as int) =~= old(out)@ + src@);
    }
}

/// Appends a copy of `src[from..to]` to `out`.
pub fn append_range(out: &mut Vec<char>, src: &Vec<char>, from: usize, to: usize)
    requires
        from <= to <= src@.len(),
    ensures
        final(out)@ == old(out)@ + src@.subrange(from as int, to as int),
{
    let mut j: usize = from;
    while j < to
        invariant
            from <= j <= to <= src@.len(),
            out@ == old(out)@ + src@.subrange(from as int, j as int),
        decreases to - j,
    {
        out.push(src[j]);
        j = j + 1;
        proof {
            assert(out@ =~= old(out)@ + src@.subrange(from as int, j as int));
        }
    }
}

/// True when `pat` occurs in `s` at position `i`.
pub open spec fn match_at(s: Seq<char>, i: int, pat: Seq<char>) -> bool {
    0 <= i && i + pat.len() <= s.len() && s.subrange(i, i + pat.len()) == pat
}

/// Decides `match_at` executably.
pub fn matches_at(s: &Vec<char>, i: usize, pat: &Vec<char>) -> (b: bool)
    ensures
        b == match_at(s@, i as int, pat@),
{
    if i > s.len() || pat.len() > s.len() - i {
        proof {
            assert(!match_at(s@, i as int, pat@));
        }
        return false;
    }
    let n = s.len();
    let mut j: usize = 0;
    while j < pat.len()
        invariant
            j <= pat@.len(),
            n == s@.len(),
            i + pat@.len() <= n,
            forall|k: int| 0 <= k < j ==> s@[i + k] == pat@[k],
        decreases pat@.len() - j,
    {
        if s[i + j] != pat[j] {
            proof {
                assert(s@.subrange(i as int, i + pat@.len())[j as int] == s@[i + j]);
            }
            return false;
        }
        j = j + 1;
    }
    proof {
        assert(s@.subrange(i as int, i + pat@.len()) =~= pat@);
    }
    true
}

} // verus!
