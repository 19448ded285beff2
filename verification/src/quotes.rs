//! The quote-disambiguation algorithm: an ordered cascade of
//! context-sensitive rules that decides, for every standalone apostrophe or
//! double quote in free text, whether it opens or closes a quotation.  Each
//! rule is one global left-to-right replacement pass; a later rule only ever
//! sees the quote characters the earlier rules left unresolved.

use crate::classes::{append_copy, append_range, close_double, close_single, em_dash, en_dash,
    entity_82, is_close_class, is_close_class_char, is_digit, is_digit_char, is_punct,
    is_punct_char, is_space, is_space_char, is_word, is_word_char, match_at, matches_at,
    open_double, open_single};
use crate::replace::{replace_all, replace_spec};
use crate::rewrite::{one_char, two_chars};
use vstd::prelude::*;

verus! {

/// A word character stands at position `j`.
pub open spec fn word_at(s: Seq<char>, j: int) -> bool {
    0 <= j < s.len() && is_word_char(s[j])
}

/// A whitespace character stands at position `j`.
pub open spec fn ws_at(s: Seq<char>, j: int) -> bool {
    0 <= j < s.len() && is_space_char(s[j])
}

/// A digit stands at position `j`.
pub open spec fn digit_at(s: Seq<char>, j: int) -> bool {
    0 <= j < s.len() && is_digit_char(s[j])
}

/// A lone possessive `s` begins at position `j`: the letter `s` with no word
/// character after it.
pub open spec fn lone_s_at(s: Seq<char>, j: int) -> bool {
    0 <= j < s.len() && s[j] == 's' && (j + 1 == s.len() || !is_word_char(s[j + 1]))
}

/// The length of the whitespace-or-dash context that may stand before an
/// opening quote: a whitespace character, `&nbsp;`, `--`, a named or numeric
/// dash entity; 0 when none of them stands at `i`.
pub open spec fn open_prefix_len(s: Seq<char>, i: int) -> int {
    if 0 <= i < s.len() && is_space_char(s[i]) {
        1
    } else if match_at(s, i, seq!['&', 'n', 'b', 's', 'p', ';']) {
        6
    } else if match_at(s, i, seq!['-', '-']) {
        2
    } else if match_at(s, i, seq!['&', 'n', 'd', 'a', 's', 'h', ';']) {
        7
    } else if match_at(s, i, seq!['&', 'm', 'd', 'a', 's', 'h', ';']) {
        7
    } else if match_at(s, i, en_dash()) {
        7
    } else if match_at(s, i, em_dash()) {
        7
    } else if match_at(s, i, seq!['&', '#', 'x', '2', '0', '1', '3', ';']) {
        8
    } else if match_at(s, i, seq!['&', '#', 'x', '2', '0', '1', '4', ';']) {
        8
    } else {
        0
    }
}

fn nbsp_vec() -> (v: Vec<char>)
    ensures
        v@ == seq!['&', 'n', 'b', 's', 'p', ';'],
{
    let mut v: Vec<char> = Vec::new();
    v.push('&');
    v.push('n');
    v.push('b');
    v.push('s');
    v.push('p');
    v.push(';');
    proof {
        assert(v@ =~= seq!['&', 'n', 'b', 's', 'p', ';']);
    }
    v
}

fn named_dash_vec(first: char) -> (v: Vec<char>)
    ensures
        v@ == seq!['&', first, 'd', 'a', 's', 'h', ';'],
{
    let mut v: Vec<char> = Vec::new();
    v.push('&');
    v.push(first);
    v.push('d');
    v.push('a');
    v.push('s');
    v.push('h');
    v.push(';');
    proof {
        assert(v@ =~= seq!['&', first, 'd', 'a', 's', 'h', ';']);
    }
    v
}

fn hex_dash_vec(last: char) -> (v: Vec<char>)
    ensures
        v@ == seq!['&', '#', 'x', '2', '0', '1', last, ';'],
{
    let mut v: Vec<char> = Vec::new();
    v.push('&');
    v.push('#');
    v.push('x');
    v.push('2');
    v.push('0');
    v.push('1');
    v.push(last);
    v.push(';');
    proof {
        assert(v@ =~= seq!['&', '#', 'x', '2', '0', '1', last, ';']);
    }
    v
}

/// Computes `open_prefix_len` at position `i`.
fn open_prefix_at(s: &Vec<char>, i: usize) -> (l: usize)
    requires
        i <= s@.len(),
    ensures
        l == open_prefix_len(s@, i as int),
{
    if i < s.len() && is_space(s[i]) {
        1
    } else if matches_at(s, i, &nbsp_vec()) {
        6
    } else if matches_at(s, i, &two_chars('-', '-')) {
        2
    } else if matches_at(s, i, &named_dash_vec('n')) {
        7
    } else if matches_at(s, i, &named_dash_vec('m')) {
        7
    } else if matches_at(s, i, &entity_82('1', '1')) {
        7
    } else if matches_at(s, i, &entity_82('1', '2')) {
        7
    } else if matches_at(s, i, &hex_dash_vec('3')) {
        8
    } else if matches_at(s, i, &hex_dash_vec('4')) {
        8
    } else {
        0
    }
}

/// A double quote, an apostrophe and a word character stand at `i`: the
/// nested opening of a single quotation just inside a double one.
pub open spec fn nest_double_match(s: Seq<char>, i: int) -> bool {
    &&& 0 <= i
    &&& i + 1 < s.len()
    &&& s[i] == '"'
    &&& s[i + 1] == '\''
    &&& word_at(s, i + 2)
}

/// Resolves `"'` before a word as an opening double quote followed by an
/// opening single quote.
pub open spec fn nest_double_from(s: Seq<char>, i: int) -> Seq<char>
    decreases s.len() - i,
{
    if i < 0 || i >= s.len() {
        Seq::empty()
    } else if nest_double_match(s, i) {
        open_double() + open_single() + nest_double_from(s, i + 2)
    } else {
        seq![s[i]] + nest_double_from(s, i + 1)
    }
}

fn nest_double_pass(s: &Vec<char>) -> (r: Vec<char>)
    ensures
        r@ == nest_double_from(s@, 0),
{
    let mut out: Vec<char> = Vec::new();
    let n = s.len();
    let mut i: usize = 0;
    proof {
        assert(Seq::<char>::empty() + nest_double_from(s@, 0) =~= nest_double_from(s@, 0));
    }
    while i < n
        invariant
            i <= n,
            n == s@.len(),
            nest_double_from(s@, 0) == out@ + nest_double_from(s@, i as int),
        decreases n - i,
    {
        let ghost pre = out@;
        let ghost i0 = i as int;
        let m = n - i > 2 && s[i] == '"' && s[i + 1] == '\'' && is_word(s[i + 2]);
        proof {
            assert(m == nest_double_match(s@, i0));
        }
        if m {
            let mk1 = entity_82('2', '0');
            append_copy(&mut out, &mk1);
            let mk2 = entity_82('1', '6');
            append_copy(&mut out, &mk2);
            i = i + 2;
            proof {
                assert(pre + (open_double() + open_single() + nest_double_from(s@, i as int))
                    =~= out@ + nest_double_from(s@, i as int));
            }
        } else {
            out.push(s[i]);
            i = i + 1;
            proof {
                assert(pre + (seq![s@[i0]] + nest_double_from(s@, i as int)) =~= out@
                    + nest_double_from(s@, i as int));
            }
        }
    }
    proof {
        assert(out@ + nest_double_from(s@, n as int) =~= out@);
    }
    out
}

/// An apostrophe, a double quote and a word character stand at `i`: the
/// nested opening of a double quotation just inside a single one.
pub open spec fn nest_single_match(s: Seq<char>, i: int) -> bool {
    &&& 0 <= i
    &&& i + 1 < s.len()
    &&& s[i] == '\''
    &&& s[i + 1] == '"'
    &&& word_at(s, i + 2)
}

/// Resolves `'"` before a word as an opening single quote followed by an
/// opening double quote.
pub open spec fn nest_single_from(s: Seq<char>, i: int) -> Seq<char>
    decreases s.len() - i,
{
    if i < 0 || i >= s.len() {
        Seq::empty()
    } else if nest_single_match(s, i) {
        open_single() + open_double() + nest_single_from(s, i + 2)
    } else {
        seq![s[i]] + nest_single_from(s, i + 1)
    }
}

fn nest_single_pass(s: &Vec<char>) -> (r: Vec<char>)
    ensures
        r@ == nest_single_from(s@, 0),
{
    let mut out: Vec<char> = Vec::new();
    let n = s.len();
    let mut i: usize = 0;
    proof {
        assert(Seq::<char>::empty() + nest_single_from(s@, 0) =~= nest_single_from(s@, 0));
    }
    while i < n
        invariant
            i <= n,
            n == s@.len(),
            nest_single_from(s@, 0) == out@ + nest_single_from(s@, i as int),
        decreases n - i,
    {
        let ghost pre = out@;
        let ghost i0 = i as int;
        let m = n - i > 2 && s[i] == '\'' && s[i + 1] == '"' && is_word(s[i + 2]);
        proof {
            assert(m == nest_single_match(s@, i0));
        }
        if m {
            let mk1 = entity_82('1', '6');
            append_copy(&mut out, &mk1);
            let mk2 = entity_82('2', '0');
            append_copy(&mut out, &mk2);
            i = i + 2;
            proof {
                assert(pre + (open_single() + open_double() + nest_single_from(s@, i as int))
                    =~= out@ + nest_single_from(s@, i as int));
            }
        } else {
            out.push(s[i]);
            i = i + 1;
            proof {
                assert(pre + (seq![s@[i0]] + nest_single_from(s@, i as int)) =~= out@
                    + nest_single_from(s@, i as int));
            }
        }
    }
    proof {
        assert(out@ + nest_single_from(s@, n as int) =~= out@);
    }
    out
}

/// An apostrophe stands right after a word character and right before two
/// digits and an `s`: a decade abbreviation such as the quote in a year
/// shortened to its last two digits.
pub open spec fn decade_match(s: Seq<char>, i: int) -> bool {
    &&& 0 <= i < s.len()
    &&& s[i] == '\''
    &&& i >= 1
    &&& is_word_char(s[i - 1])
    &&& digit_at(s, i + 1)
    &&& digit_at(s, i + 2)
    &&& i + 3 < s.len()
    &&& s[i + 3] == 's'
}

/// Resolves a decade abbreviation's apostrophe as a closing single quote.
pub open spec fn decade_from(s: Seq<char>, i: int) -> Seq<char>
    decreases s.len() - i,
{
    if i < 0 || i >= s.len() {
        Seq::empty()
    } else if decade_match(s, i) {
        close_single() + decade_from(s, i + 1)
    } else {
        seq![s[i]] + decade_from(s, i + 1)
    }
}

fn decade_pass(s: &Vec<char>) -> (r: Vec<char>)
    ensures
        r@ == decade_from(s@, 0),
{
    let mut out: Vec<char> = Vec::new();
    let n = s.len();
    let mut i: usize = 0;
    proof {
        assert(Seq::<char>::empty() + decade_from(s@, 0) =~= decade_from(s@, 0));
    }
    while i < n
        invariant
            i <= n,
            n == s@.len(),
            decade_from(s@, 0) == out@ + decade_from(s@, i as int),
        decreases n - i,
    {
        let ghost pre = out@;
        let ghost i0 = i as int;
        let m = s[i] == '\'' && i >= 1 && is_word(s[i - 1]) && n - i > 1 && is_digit(s[i + 1]) && n
            - i > 2 && is_digit(s[i + 2]) && n - i > 3 && s[i + 3] == 's';
        proof {
            assert(m == decade_match(s@, i0));
        }
        if m {
            let mk = entity_82('1', '7');
            append_copy(&mut out, &mk);
            i = i + 1;
            proof {
                assert(pre + (close_single() + decade_from(s@, i as int)) =~= out@ + decade_from(
                    s@,
                    i as int,
                ));
            }
        } else {
            out.push(s[i]);
            i = i + 1;
            proof {
                assert(pre + (seq![s@[i0]] + decade_from(s@, i as int)) =~= out@ + decade_from(
                    s@,
                    i as int,
                ));
            }
        }
    }
    proof {
        assert(out@ + decade_from(s@, n as int) =~= out@);
    }
    out
}

/// A whitespace-or-dash context, an apostrophe and a word character stand at
/// `i`: an opening single quote in context.
pub open spec fn open_single_match(s: Seq<char>, i: int) -> bool {
    let l = open_prefix_len(s, i);
    &&& l > 0
    &&& i + l < s.len()
    &&& s[i + l] == '\''
    &&& word_at(s, i + l + 1)
}

/// Resolves an apostrophe after whitespace or a dash and before a word as an
/// opening single quote; the context is kept in front of the marker.
pub open spec fn open_single_from(s: Seq<char>, i: int) -> Seq<char>
    decreases s.len() - i,
{
    if i < 0 || i >= s.len() {
        Seq::empty()
    } else if open_single_match(s, i) {
        s.subrange(i, i + open_prefix_len(s, i)) + open_single() + open_single_from(
            s,
            i + open_prefix_len(s, i) + 1,
        )
    } else {
        seq![s[i]] + open_single_from(s, i + 1)
    }
}

fn open_single_pass(s: &Vec<char>) -> (r: Vec<char>)
    ensures
        r@ == open_single_from(s@, 0),
{
    let mut out: Vec<char> = Vec::new();
    let n = s.len();
    let mut i: usize = 0;
    proof {
        assert(Seq::<char>::empty() + open_single_from(s@, 0) =~= open_single_from(s@, 0));
    }
    while i < n
        invariant
            i <= n,
            n == s@.len(),
            open_single_from(s@, 0) == out@ + open_single_from(s@, i as int),
        decreases n - i,
    {
        let ghost pre = out@;
        let ghost i0 = i as int;
        let l = open_prefix_at(s, i);
        let m = l > 0 && n - i > l && s[i + l] == '\'' && n - i > l + 1 && is_word(s[i + l + 1]);
        proof {
            assert(m == open_single_match(s@, i0));
        }
        if m {
            append_range(&mut out, s, i, i + l);
            let mk = entity_82('1', '6');
            append_copy(&mut out, &mk);
            i = i + l + 1;
            proof {
                assert(pre + (s@.subrange(i0, i0 + l) + open_single() + open_single_from(
                    s@,
                    i as int,
                )) =~= out@ + open_single_from(s@, i as int));
            }
        } else {
            out.push(s[i]);
            i = i + 1;
            proof {
                assert(pre + (seq![s@[i0]] + open_single_from(s@, i as int)) =~= out@
                    + open_single_from(s@, i as int));
            }
        }
    }
    proof {
        assert(out@ + open_single_from(s@, n as int) =~= out@);
    }
    out
}

/// A closing-class character and an apostrophe stand at `i`, and what
/// follows is neither whitespace, nor a lone possessive `s`, nor a digit: a
/// closing single quote.
pub open spec fn close_single_match(s: Seq<char>, i: int) -> bool {
    &&& 0 <= i
    &&& i + 1 < s.len()
    &&& is_close_class_char(s[i])
    &&& s[i + 1] == '\''
    &&& !ws_at(s, i + 2)
    &&& !lone_s_at(s, i + 2)
    &&& !digit_at(s, i + 2)
}

/// Resolves such an apostrophe as a closing single quote; the preceding
/// character is kept.
pub open spec fn close_single_from(s: Seq<char>, i: int) -> Seq<char>
    decreases s.len() - i,
{
    if i < 0 || i >= s.len() {
        Seq::empty()
    } else if close_single_match(s, i) {
        seq![s[i]] + close_single() + close_single_from(s, i + 2)
    } else {
        seq![s[i]] + close_single_from(s, i + 1)
    }
}

fn close_single_pass(s: &Vec<char>) -> (r: Vec<char>)
    ensures
        r@ == close_single_from(s@, 0),
{
    let mut out: Vec<char> = Vec::new();
    let n = s.len();
    let mut i: usize = 0;
    proof {
        assert(Seq::<char>::empty() + close_single_from(s@, 0) =~= close_single_from(s@, 0));
    }
    while i < n
        invariant
            i <= n,
            n == s@.len(),
            close_single_from(s@, 0) == out@ + close_single_from(s@, i as int),
        decreases n - i,
    {
        let ghost pre = out@;
        let ghost i0 = i as int;
        let m = n - i >= 2 && is_close_class(s[i]) && s[i + 1] == '\'' && !(n - i > 2 && is_space(
            s[i + 2],
        )) && !(n - i > 2 && s[i + 2] == 's' && (n - i == 3 || !is_word(s[i + 3]))) && !(n - i > 2
            && is_digit(s[i + 2]));
        proof {
            assert(m == close_single_match(s@, i0));
        }
        if m {
            out.push(s[i]);
            let mk = entity_82('1', '7');
            append_copy(&mut out, &mk);
            i = i + 2;
            proof {
                assert(pre + (seq![s@[i0]] + close_single() + close_single_from(s@, i as int))
                    =~= out@ + close_single_from(s@, i as int));
            }
        } else {
            out.push(s[i]);
            i = i + 1;
            proof {
                assert(pre + (seq![s@[i0]] + close_single_from(s@, i as int)) =~= out@
                    + close_single_from(s@, i as int));
            }
        }
    }
    proof {
        assert(out@ + close_single_from(s@, n as int) =~= out@);
    }
    out
}

/// A closing-class character and an apostrophe stand at `i`, followed by
/// whitespace or a lone possessive `s`: a closing single quote whose
/// following character is preserved.
pub open spec fn close_single_keep_match(s: Seq<char>, i: int) -> bool {
    &&& 0 <= i
    &&& i + 1 < s.len()
    &&& is_close_class_char(s[i])
    &&& s[i + 1] == '\''
    &&& (ws_at(s, i + 2) || lone_s_at(s, i + 2))
}

/// Resolves such an apostrophe as a closing single quote, keeping both the
/// preceding and the following character.
pub open spec fn close_single_keep_from(s: Seq<char>, i: int) -> Seq<char>
    decreases s.len() - i,
{
    if i < 0 || i >= s.len() {
        Seq::empty()
    } else if close_single_keep_match(s, i) {
        seq![s[i]] + close_single() + seq![s[i + 2]] + close_single_keep_from(s, i + 3)
    } else {
        seq![s[i]] + close_single_keep_from(s, i + 1)
    }
}

fn close_single_keep_pass(s: &Vec<char>) -> (r: Vec<char>)
    ensures
        r@ == close_single_keep_from(s@, 0),
{
    let mut out: Vec<char> = Vec::new();
    let n = s.len();
    let mut i: usize = 0;
    proof {
        assert(Seq::<char>::empty() + close_single_keep_from(s@, 0) =~= close_single_keep_from(
            s@,
            0,
        ));
    }
    while i < n
        invariant
            i <= n,
            n == s@.len(),
            close_single_keep_from(s@, 0) == out@ + close_single_keep_from(s@, i as int),
        decreases n - i,
    {
        let ghost pre = out@;
        let ghost i0 = i as int;
        let m = n - i >= 2 && is_close_class(s[i]) && s[i + 1] == '\'' && ((n - i > 2 && is_space(
            s[i + 2],
        )) || (n - i > 2 && s[i + 2] == 's' && (n - i == 3 || !is_word(s[i + 3]))));
        proof {
            assert(m == close_single_keep_match(s@, i0));
        }
        if m {
            out.push(s[i]);
            let mk = entity_82('1', '7');
            append_copy(&mut out, &mk);
            out.push(s[i + 2]);
            i = i + 3;
            proof {
                assert(pre + (seq![s@[i0]] + close_single() + seq![s@[i0 + 2]]
                    + close_single_keep_from(s@, i as int)) =~= out@ + close_single_keep_from(
                    s@,
                    i as int,
                ));
            }
        } else {
            out.push(s[i]);
            i = i + 1;
            proof {
                assert(pre + (seq![s@[i0]] + close_single_keep_from(s@, i as int)) =~= out@
                    + close_single_keep_from(s@, i as int));
            }
        }
    }
    proof {
        assert(out@ + close_single_keep_from(s@, n as int) =~= out@);
    }
    out
}

/// A whitespace-or-dash context, a double quote and a word character stand
/// at `i`: an opening double quote in context.
pub open spec fn open_double_match(s: Seq<char>, i: int) -> bool {
    let l = open_prefix_len(s, i);
    &&& l > 0
    &&& i + l < s.len()
    &&& s[i + l] == '"'
    &&& word_at(s, i + l + 1)
}

/// Resolves a double quote after whitespace or a dash and before a word as
/// an opening double quote; the context is kept in front of the marker.
pub open spec fn open_double_from(s: Seq<char>, i: int) -> Seq<char>
    decreases s.len() - i,
{
    if i < 0 || i >= s.len() {
        Seq::empty()
    } else if open_double_match(s, i) {
        s.subrange(i, i + open_prefix_len(s, i)) + open_double() + open_double_from(
            s,
            i + open_prefix_len(s, i) + 1,
        )
    } else {
        seq![s[i]] + open_double_from(s, i + 1)
    }
}

fn open_double_pass(s: &Vec<char>) -> (r: Vec<char>)
    ensures
        r@ == open_double_from(s@, 0),
{
    let mut out: Vec<char> = Vec::new();
    let n = s.len();
    let mut i: usize = 0;
    proof {
        assert(Seq::<char>::empty() + open_double_from(s@, 0) =~= open_double_from(s@, 0));
    }
    while i < n
        invariant
            i <= n,
            n == s@.len(),
            open_double_from(s@, 0) == out@ + open_double_from(s@, i as int),
        decreases n - i,
    {
        let ghost pre = out@;
        let ghost i0 = i as int;
        let l = open_prefix_at(s, i);
        let m = l > 0 && n - i > l && s[i + l] == '"' && n - i > l + 1 && is_word(s[i + l + 1]);
        proof {
            assert(m == open_double_match(s@, i0));
        }
        if m {
            append_range(&mut out, s, i, i + l);
            let mk = entity_82('2', '0');
            append_copy(&mut out, &mk);
            i = i + l + 1;
            proof {
                assert(pre + (s@.subrange(i0, i0 + l) + open_double() + open_double_from(
                    s@,
                    i as int,
                )) =~= out@ + open_double_from(s@, i as int));
            }
        } else {
            out.push(s[i]);
            i = i + 1;
            proof {
                assert(pre + (seq![s@[i0]] + open_double_from(s@, i as int)) =~= out@
                    + open_double_from(s@, i as int));
            }
        }
    }
    proof {
        assert(out@ + open_double_from(s@, n as int) =~= out@);
    }
    out
}

/// A double quote followed by whitespace, with a closing-class character
/// before it: a closing double quote that keeps its preceding character.
pub open spec fn close_double_ws_full_match(s: Seq<char>, i: int) -> bool {
    &&& 0 <= i
    &&& i + 1 < s.len()
    &&& is_close_class_char(s[i])
    &&& s[i + 1] == '"'
    &&& ws_at(s, i + 2)
}

/// A double quote followed by whitespace with nothing usable before it: it
/// still closes.
pub open spec fn close_double_ws_bare_match(s: Seq<char>, i: int) -> bool {
    &&& 0 <= i < s.len()
    &&& s[i] == '"'
    &&& ws_at(s, i + 1)
}

/// Resolves a double quote before whitespace as a closing double quote; a
/// preceding closing-class character, when there is one, is kept.
pub open spec fn close_double_ws_from(s: Seq<char>, i: int) -> Seq<char>
    decreases s.len() - i,
{
    if i < 0 || i >= s.len() {
        Seq::empty()
    } else if close_double_ws_full_match(s, i) {
        seq![s[i]] + close_double() + close_double_ws_from(s, i + 2)
    } else if close_double_ws_bare_match(s, i) {
        close_double() + close_double_ws_from(s, i + 1)
    } else {
        seq![s[i]] + close_double_ws_from(s, i + 1)
    }
}

fn close_double_ws_pass(s: &Vec<char>) -> (r: Vec<char>)
    ensures
        r@ == close_double_ws_from(s@, 0),
{
    let mut out: Vec<char> = Vec::new();
    let n = s.len();
    let mut i: usize = 0;
    proof {
        assert(Seq::<char>::empty() + close_double_ws_from(s@, 0) =~= close_double_ws_from(s@, 0));
    }
    while i < n
        invariant
            i <= n,
            n == s@.len(),
            close_double_ws_from(s@, 0) == out@ + close_double_ws_from(s@, i as int),
        decreases n - i,
    {
        let ghost pre = out@;
        let ghost i0 = i as int;
        let m_full = n - i >= 2 && is_close_class(s[i]) && s[i + 1] == '"' && n - i > 2 && is_space(
            s[i + 2],
        );
        let m_bare = s[i] == '"' && n - i > 1 && is_space(s[i + 1]);
        proof {
            assert(m_full == close_double_ws_full_match(s@, i0));
            assert(m_bare == close_double_ws_bare_match(s@, i0));
        }
        if m_full {
            out.push(s[i]);
            let mk = entity_82('2', '1');
            append_copy(&mut out, &mk);
            i = i + 2;
            proof {
                assert(pre + (seq![s@[i0]] + close_double() + close_double_ws_from(s@, i as int))
                    =~= out@ + close_double_ws_from(s@, i as int));
            }
        } else if m_bare {
            let mk = entity_82('2', '1');
            append_copy(&mut out, &mk);
            i = i + 1;
            proof {
                assert(pre + (close_double() + close_double_ws_from(s@, i as int)) =~= out@
                    + close_double_ws_from(s@, i as int));
            }
        } else {
            out.push(s[i]);
            i = i + 1;
            proof {
                assert(pre + (seq![s@[i0]] + close_double_ws_from(s@, i as int)) =~= out@
                    + close_double_ws_from(s@, i as int));
            }
        }
    }
    proof {
        assert(out@ + close_double_ws_from(s@, n as int) =~= out@);
    }
    out
}

/// A closing-class character and a double quote stand at `i`: a closing
/// double quote that keeps its preceding character.
pub open spec fn close_double_match(s: Seq<char>, i: int) -> bool {
    &&& 0 <= i
    &&& i + 1 < s.len()
    &&& is_close_class_char(s[i])
    &&& s[i + 1] == '"'
}

/// Resolves a double quote after a closing-class character as a closing
/// double quote.
pub open spec fn close_double_from(s: Seq<char>, i: int) -> Seq<char>
    decreases s.len() - i,
{
    if i < 0 || i >= s.len() {
        Seq::empty()
    } else if close_double_match(s, i) {
        seq![s[i]] + close_double() + close_double_from(s, i + 2)
    } else {
        seq![s[i]] + close_double_from(s, i + 1)
    }
}

fn close_double_pass(s: &Vec<char>) -> (r: Vec<char>)
    ensures
        r@ == close_double_from(s@, 0),
{
    let mut out: Vec<char> = Vec::new();
    let n = s.len();
    let mut i: usize = 0;
    proof {
        assert(Seq::<char>::empty() + close_double_from(s@, 0) =~= close_double_from(s@, 0));
    }
    while i < n
        invariant
            i <= n,
            n == s@.len(),
            close_double_from(s@, 0) == out@ + close_double_from(s@, i as int),
        decreases n - i,
    {
        let ghost pre = out@;
        let ghost i0 = i as int;
        let m = n - i >= 2 && is_close_class(s[i]) && s[i + 1] == '"';
        proof {
            assert(m == close_double_match(s@, i0));
        }
        if m {
            out.push(s[i]);
            let mk = entity_82('2', '1');
            append_copy(&mut out, &mk);
            i = i + 2;
            proof {
                assert(pre + (seq![s@[i0]] + close_double() + close_double_from(s@, i as int))
                    =~= out@ + close_double_from(s@, i as int));
            }
        } else {
            out.push(s[i]);
            i = i + 1;
            proof {
                assert(pre + (seq![s@[i0]] + close_double_from(s@, i as int)) =~= out@
                    + close_double_from(s@, i as int));
            }
        }
    }
    proof {
        assert(out@ + close_double_from(s@, n as int) =~= out@);
    }
    out
}

/// A quote character at the very start of a token, followed by punctuation
/// that does not run into a word: the token begins with the tail of a
/// quotation, so the quote force-closes.
pub open spec fn force_close_applies(s: Seq<char>, q: char) -> bool {
    &&& s.len() >= 2
    &&& s[0] == q
    &&& is_punct_char(s[1])
    &&& (s.len() == 2 || !is_word_char(s[2]))
}

/// Replaces a force-closing leading quote by `marker`.
pub open spec fn force_close_spec(s: Seq<char>, q: char, marker: Seq<char>) -> Seq<char> {
    if force_close_applies(s, q) {
        marker + s.skip(1)
    } else {
        s
    }
}

fn force_close_pass(s: &Vec<char>, q: char, x: char, y: char) -> (r: Vec<char>)
    ensures
        r@ == force_close_spec(s@, q, seq!['&', '#', '8', '2', x, y, ';']),
{
    let n = s.len();
    let m = n >= 2 && s[0] == q && is_punct(s[1]) && (n == 2 || !is_word(s[2]));
    proof {
        assert(m == force_close_applies(s@, q));
    }
    if m {
        let mut out = entity_82(x, y);
        append_range(&mut out, s, 1, n);
        proof {
            assert(s@.subrange(1, n as int) =~= s@.skip(1));
        }
        out
    } else {
        let mut out: Vec<char> = Vec::new();
        append_copy(&mut out, s);
        out
    }
}

/// The whole cascade, in its fixed order: force-close of a leading quote,
/// nested openings, the decade rule, opening singles in context, closing
/// singles, the opening-single default, opening doubles in context, closing
/// doubles, the opening-double default.
pub open spec fn convert_quotes_spec(s: Seq<char>) -> Seq<char> {
    let s1 = force_close_spec(s, '\'', close_single());
    let s2 = force_close_spec(s1, '"', close_double());
    let s3 = nest_double_from(s2, 0);
    let s4 = nest_single_from(s3, 0);
    let s5 = decade_from(s4, 0);
    let s6 = open_single_from(s5, 0);
    let s7 = close_single_from(s6, 0);
    let s8 = close_single_keep_from(s7, 0);
    let s9 = replace_spec(s8, seq!['\''], open_single());
    let s10 = open_double_from(s9, 0);
    let s11 = close_double_ws_from(s10, 0);
    let s12 = close_double_from(s11, 0);
    replace_spec(s12, seq!['"'], open_double())
}

/// Converts the quotes of a free-text token (one that is not a single
/// degenerate quote character) into curly quote markers.
pub fn convert_quotes(text: &Vec<char>) -> (r: Vec<char>)
    ensures
        r@ == convert_quotes_spec(text@),
{
    let s1 = force_close_pass(text, '\'', '1', '7');
    proof {
        assert(seq!['&', '#', '8', '2', '1', '7', ';'] =~= close_single());
    }
    let s2 = force_close_pass(&s1, '"', '2', '1');
    proof {
        assert(seq!['&', '#', '8', '2', '2', '1', ';'] =~= close_double());
    }
    let s3 = nest_double_pass(&s2);
    let s4 = nest_single_pass(&s3);
    let s5 = decade_pass(&s4);
    let s6 = open_single_pass(&s5);
    let s7 = close_single_pass(&s6);
    let s8 = close_single_keep_pass(&s7);
    let s9 = replace_all(&s8, &one_char('\''), &entity_82('1', '6'));
    let s10 = open_double_pass(&s9);
    let s11 = close_double_ws_pass(&s10);
    let s12 = close_double_pass(&s11);
    replace_all(&s12, &one_char('"'), &entity_82('2', '0'))
}

/// A degenerate token — exactly one quote character — opens the quotation
/// when there is no preceding text or the preceding text ends in whitespace,
/// and closes it otherwise.
pub open spec fn degenerate_opens(prev: Option<char>) -> bool {
    match prev {
        None => true,
        Some(c) => is_space_char(c),
    }
}

/// Quote disambiguation for one token: a degenerate token is resolved from
/// the carried last character of the preceding text; any other token goes
/// through the cascade.
pub open spec fn quotes_spec(s: Seq<char>, prev: Option<char>) -> Seq<char> {
    if s.len() == 1 && s[0] == '\'' {
        if degenerate_opens(prev) {
            open_single()
        } else {
            close_single()
        }
    } else if s.len() == 1 && s[0] == '"' {
        if degenerate_opens(prev) {
            open_double()
        } else {
            close_double()
        }
    } else {
        convert_quotes_spec(s)
    }
}

/// Applies quote disambiguation to one token, degenerate or not.
pub fn apply_quotes(s: &Vec<char>, prev: Option<char>) -> (r: Vec<char>)
    ensures
        r@ == quotes_spec(s@, prev),
{
    let opens = match prev {
        Option::None => true,
        Option::Some(c) => is_space(c),
    };
    proof {
        assert(opens == degenerate_opens(prev));
    }
    if s.len() == 1 && s[0] == '\'' {
        if opens {
            entity_82('1', '6')
        } else {
            entity_82('1', '7')
        }
    } else if s.len() == 1 && s[0] == '"' {
        if opens {
            entity_82('2', '0')
        } else {
            entity_82('2', '1')
        }
    } else {
        convert_quotes(s)
    }
}

} // verus!
