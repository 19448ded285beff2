//! The tokenizer: partitions a document into an ordered sequence of markup
//! and text tokens.  A tag or comment runs from a `<` to its closing `>`;
//! a comment may carry embedded hyphen runs and closes at the first `--`
//! that is followed, over whitespace, by a `>`.  A comment that still holds
//! an interior `--` after its trailer is stripped is malformed and is
//! reclassified as text, so its content becomes eligible for conversion.

use crate::classes::{append_range, is_space, is_space_char};
use vstd::prelude::*;

verus! {

/// The position of the first occurrence of `c` in `s` at or after `from`.
pub open spec fn find_char(s: Seq<char>, c: char, from: int) -> Option<int>
    decreases s.len() - from,
{
    if from < 0 || from >= s.len() {
        None
    } else if s[from] == c {
        Some(from)
    } else {
        find_char(s, c, from + 1)
    }
}

pub proof fn lemma_find_char(s: Seq<char>, c: char, from: int)
    ensures
        find_char(s, c, from) is Some ==> from <= find_char(s, c, from)->0 < s.len() && s[find_char(
            s,
            c,
            from,
        )->0] == c,
    decreases s.len() - from,
{
    if from < 0 || from >= s.len() {
    } else if s[from] == c {
    } else {
        lemma_find_char(s, c, from + 1);
    }
}

pub(crate) fn find_char_exec(s: &Vec<char>, c: char, from: usize) -> (r: Option<usize>)
    ensures
        ({
            let f = find_char(s@, c, from as int);
            match r {
                Some(p) => f == Some(p as int),
                None => f is None,
            }
        }),
{
    let n = s.len();
    if from >= n {
        return None;
    }
    let mut j = from;
    while j < n
        invariant
            from <= j <= n,
            n == s@.len(),
            find_char(s@, c, from as int) == find_char(s@, c, j as int),
        decreases n - j,
    {
        if s[j] == c {
            return Some(j);
        }
        j = j + 1;
    }
    None
}

/// The first position at or after `from` that holds no whitespace; the
/// length of `s` when only whitespace remains.
pub open spec fn skip_spaces(s: Seq<char>, from: int) -> int
    decreases s.len() - from,
{
    if from < 0 || from >= s.len() {
        s.len() as int
    } else if is_space_char(s[from]) {
        skip_spaces(s, from + 1)
    } else {
        from
    }
}

pub proof fn lemma_skip_spaces(s: Seq<char>, from: int)
    requires
        0 <= from <= s.len(),
    ensures
        from <= skip_spaces(s, from) <= s.len(),
    decreases s.len() - from,
{
    if from < s.len() && is_space_char(s[from]) {
        lemma_skip_spaces(s, from + 1);
    }
}

fn skip_spaces_exec(s: &Vec<char>, from: usize) -> (m: usize)
    requires
        from <= s@.len(),
    ensures
        m as int == skip_spaces(s@, from as int),
        from <= m <= s@.len(),
{
    let n = s.len();
    let mut m = from;
    while m < n && is_space(s[m])
        invariant
            from <= m <= n,
            n == s@.len(),
            skip_spaces(s@, from as int) == skip_spaces(s@, m as int),
        decreases n - m,
    {
        m = m + 1;
    }
    m
}

/// The position of the `>` that ends a comment trailer beginning at `k`:
/// whitespace, then `>`.
pub open spec fn gt_pos(s: Seq<char>, k: int) -> Option<int> {
    let m = skip_spaces(s, k);
    if m < s.len() && s[m] == '>' {
        Some(m)
    } else {
        None
    }
}

/// The end (exclusive) of the comment whose content begins at `j`: the
/// content may hold anything but a line feed, up to the first `--` whose
/// trailer closes with a `>`.
pub open spec fn comment_close(s: Seq<char>, j: int) -> Option<int>
    decreases s.len() - j,
{
    if j < 0 || j + 1 >= s.len() {
        None
    } else if s[j] == '-' && s[j + 1] == '-' && gt_pos(s, j + 2) is Some {
        Some(gt_pos(s, j + 2)->0 + 1)
    } else if s[j] == '\n' {
        None
    } else {
        comment_close(s, j + 1)
    }
}

pub proof fn lemma_comment_close(s: Seq<char>, j: int)
    requires
        0 <= j,
    ensures
        comment_close(s, j) is Some ==> j < comment_close(s, j)->0 <= s.len(),
    decreases s.len() - j,
{
    if j + 1 >= s.len() {
    } else if s[j] == '-' && s[j + 1] == '-' && gt_pos(s, j + 2) is Some {
        lemma_skip_spaces(s, j + 2);
    } else if s[j] == '\n' {
    } else {
        lemma_comment_close(s, j + 1);
    }
}

fn comment_close_exec(s: &Vec<char>, j: usize) -> (r: Option<usize>)
    requires
        j <= s@.len(),
    ensures
        ({
            let f = comment_close(s@, j as int);
            match r {
                Some(e) => f == Some(e as int),
                None => f is None,
            }
        }),
{
    let n = s.len();
    let mut k = j;
    while n - k >= 2
        invariant
            j <= k <= n,
            n == s@.len(),
            comment_close(s@, j as int) == comment_close(s@, k as int),
        decreases n - k,
    {
        if s[k] == '-' && s[k + 1] == '-' {
            let m = skip_spaces_exec(s, k + 2);
            if m < n && s[m] == '>' {
                proof {
                    assert(gt_pos(s@, k + 2) == Some(m as int));
                }
                return Some(m + 1);
            }
            proof {
                assert(gt_pos(s@, k + 2) is None);
                assert(comment_close(s@, k as int) == comment_close(s@, k + 1));
            }
            k = k + 1;
        } else if s[k] == '\n' {
            proof {
                assert(comment_close(s@, k as int) is None);
            }
            return None;
        } else {
            k = k + 1;
        }
    }
    proof {
        assert(comment_close(s@, k as int) is None);
    }
    None
}

/// A comment opener `<!--` stands at `p`.
pub open spec fn starts_comment(s: Seq<char>, p: int) -> bool {
    &&& 0 <= p
    &&& p + 3 < s.len()
    &&& s[p] == '<'
    &&& s[p + 1] == '!'
    &&& s[p + 2] == '-'
    &&& s[p + 3] == '-'
}

/// The end (exclusive) of the tag-or-comment token that begins at the `<`
/// at `p`: the comment reading when `p` opens a comment that closes, and
/// otherwise everything up to the first following `>`.
pub open spec fn group2_end(s: Seq<char>, p: int) -> int {
    if starts_comment(s, p) && comment_close(s, p + 4) is Some {
        comment_close(s, p + 4)->0
    } else {
        match find_char(s, '>', p + 1) {
            Some(q) => q + 1,
            None => s.len() as int,
        }
    }
}

pub proof fn lemma_group2_end(s: Seq<char>, p: int)
    requires
        0 <= p < s.len(),
        find_char(s, '>', p + 1) is Some,
    ensures
        p < group2_end(s, p) <= s.len(),
{
    if starts_comment(s, p) && comment_close(s, p + 4) is Some {
        lemma_comment_close(s, p + 4);
    } else {
        lemma_find_char(s, '>', p + 1);
    }
}

fn group2_end_exec(s: &Vec<char>, p: usize) -> (r: usize)
    requires
        p < s@.len(),
        find_char(s@, '>', p + 1 as int) is Some,
    ensures
        r as int == group2_end(s@, p as int),
        p < r <= s@.len(),
{
    proof {
        lemma_group2_end(s@, p as int);
    }
    let n = s.len();
    let sc = n - p > 3 && s[p] == '<' && s[p + 1] == '!' && s[p + 2] == '-' && s[p + 3] == '-';
    proof {
        assert(sc == starts_comment(s@, p as int));
    }
    if sc {
        match comment_close_exec(s, p + 4) {
            Some(e) => {
                return e;
            },
            None => {},
        }
    }
    match find_char_exec(s, '>', p + 1) {
        Some(q) => q + 1,
        None => {
            proof {
                assert(false);
            }
            0
        },
    }
}

/// Removes every trailing occurrence of `c`.
pub open spec fn trim_end_matching(s: Seq<char>, c: char) -> Seq<char>
    decreases s.len(),
{
    if s.len() > 0 && s.last() == c {
        trim_end_matching(s.drop_last(), c)
    } else {
        s
    }
}

/// Removes all trailing whitespace.
pub open spec fn trim_end_spaces(s: Seq<char>) -> Seq<char>
    decreases s.len(),
{
    if s.len() > 0 && is_space_char(s.last()) {
        trim_end_spaces(s.drop_last())
    } else {
        s
    }
}

/// A `--` occurs somewhere in `s`.
pub open spec fn has_double_hyphen(s: Seq<char>) -> bool {
    exists|k: int| 0 <= k && k + 1 < s.len() && #[trigger] s[k] == '-' && s[k + 1] == '-'
}

/// The tag begins with the comment opener `<!--`.
pub open spec fn tag_is_comment(tag: Seq<char>) -> bool {
    tag.len() >= 4 && tag[0] == '<' && tag[1] == '!' && tag[2] == '-' && tag[3] == '-'
}

/// A comment is malformed when, after its opener is dropped and its trailing
/// `>`s, whitespace and hyphens are stripped, a `--` still remains inside.
pub open spec fn comment_malformed(tag: Seq<char>) -> bool {
    has_double_hyphen(
        trim_end_matching(trim_end_spaces(trim_end_matching(tag.skip(4), '>')), '-'),
    )
}

/// A token's kind: markup (a tag or a well-formed comment, passed through
/// untouched) or free text (eligible for rewriting).
#[derive(PartialEq, Eq, Structural, Clone, Copy, Debug)]
pub enum TokenKind {
    Markup,
    Text,
}

/// One token of the document: its kind and its span of characters.
pub struct Token {
    pub kind: TokenKind,
    pub text: Vec<char>,
}

/// The mathematical image of a token.
pub struct TokenS {
    pub kind: TokenKind,
    pub text: Seq<char>,
}

impl View for Token {
    type V = TokenS;

    open spec fn view(&self) -> TokenS {
        TokenS { kind: self.kind, text: self.text@ }
    }
}

pub open spec fn toks_view(ts: Seq<Token>) -> Seq<TokenS> {
    ts.map_values(|t: Token| t@)
}

/// The classification of a matched tag span: text when it is a malformed
/// comment, markup otherwise.
pub open spec fn classify_tag(tag: Seq<char>) -> TokenS {
    if tag_is_comment(tag) && comment_malformed(tag) {
        TokenS { kind: TokenKind::Text, text: tag }
    } else {
        TokenS { kind: TokenKind::Markup, text: tag }
    }
}

/// The token sequence of `s` from `offset` on: the text before the next
/// tag-or-comment match, the match itself (classified), and the rest; when
/// no match remains, the trailing text.  A `<` with no later `>` never
/// matches, so everything from `offset` on is then one text token.
pub open spec fn tokenize_from(s: Seq<char>, offset: int) -> Seq<TokenS>
    decreases s.len() - offset,
    when 0 <= offset
    via tokenize_from_dec
{
    if offset >= s.len() {
        Seq::empty()
    } else {
        match find_char(s, '<', offset) {
            None => seq![TokenS { kind: TokenKind::Text, text: s.subrange(offset, s.len() as int) }],
            Some(p) => match find_char(s, '>', p + 1) {
                None => seq![
                    TokenS { kind: TokenKind::Text, text: s.subrange(offset, s.len() as int) },
                ],
                Some(_q) => {
                    let end = group2_end(s, p);
                    let pre: Seq<TokenS> = if p > offset {
                        seq![TokenS { kind: TokenKind::Text, text: s.subrange(offset, p) }]
                    } else {
                        Seq::empty()
                    };
                    pre + seq![classify_tag(s.subrange(p, end))] + tokenize_from(s, end)
                },
            },
        }
    }
}

#[via_fn]
proof fn tokenize_from_dec(s: Seq<char>, offset: int) {
    if 0 <= offset < s.len() {
        match find_char(s, '<', offset) {
            None => {},
            Some(p) => {
                lemma_find_char(s, '<', offset);
                match find_char(s, '>', p + 1) {
                    None => {},
                    Some(_q) => {
                        lemma_group2_end(s, p);
                    },
                }
            },
        }
    }
}

fn trim_end_char_idx(s: &Vec<char>, upto: usize, c: char) -> (k: usize)
    requires
        upto <= s@.len(),
    ensures
        k <= upto,
        trim_end_matching(s@.take(upto as int), c) == s@.take(k as int),
{
    let mut k = upto;
    while k > 0 && s[k - 1] == c
        invariant
            k <= upto <= s@.len(),
            trim_end_matching(s@.take(upto as int), c) == trim_end_matching(s@.take(k as int), c),
        decreases k,
    {
        proof {
            assert(s@.take(k as int).last() == s@[k - 1]);
            assert(s@.take(k as int).drop_last() =~= s@.take(k - 1));
        }
        k = k - 1;
    }
    proof {
        assert(trim_end_matching(s@.take(k as int), c) == s@.take(k as int));
    }
    k
}

fn trim_end_space_idx(s: &Vec<char>, upto: usize) -> (k: usize)
    requires
        upto <= s@.len(),
    ensures
        k <= upto,
        trim_end_spaces(s@.take(upto as int)) == s@.take(k as int),
{
    let mut k = upto;
    while k > 0 && is_space(s[k - 1])
        invariant
            k <= upto <= s@.len(),
            trim_end_spaces(s@.take(upto as int)) == trim_end_spaces(s@.take(k as int)),
        decreases k,
    {
        proof {
            assert(s@.take(k as int).last() == s@[k - 1]);
            assert(s@.take(k as int).drop_last() =~= s@.take(k - 1));
        }
        k = k - 1;
    }
    proof {
        assert(trim_end_spaces(s@.take(k as int)) == s@.take(k as int));
    }
    k
}

fn has_double_hyphen_exec(s: &Vec<char>, upto: usize) -> (b: bool)
    requires
        upto <= s@.len(),
    ensures
        b == has_double_hyphen(s@.take(upto as int)),
{
    let mut k: usize = 0;
    while upto - k >= 2
        invariant
            k <= upto <= s@.len(),
            forall|t: int| 0 <= t < k ==> !(#[trigger] s@[t] == '-' && t + 1 < upto && s@[t + 1]
                == '-'),
        decreases upto - k,
    {
        if s[k] == '-' && s[k + 1] == '-' {
            proof {
                assert(s@.take(upto as int)[k as int] == s@[k as int]);
                assert(s@.take(upto as int)[k + 1] == s@[k + 1]);
                assert(has_double_hyphen(s@.take(upto as int)));
            }
            return true;
        }
        k = k + 1;
    }
    proof {
        assert forall|t: int| 0 <= t && t + 1 < upto implies !(#[trigger] s@.take(upto as int)[t]
            == '-' && s@.take(upto as int)[t + 1] == '-') by {
            assert(s@.take(upto as int)[t] == s@[t]);
            assert(s@.take(upto as int)[t + 1] == s@[t + 1]);
        }
    }
    false
}

/// Classifies a matched tag span, reclassifying a malformed comment as text.
fn classify(tag: Vec<char>) -> (t: Token)
    ensures
        t@ == classify_tag(tag@),
{
    let n = tag.len();
    let is_c = n >= 4 && tag[0] == '<' && tag[1] == '!' && tag[2] == '-' && tag[3] == '-';
    proof {
        assert(is_c == tag_is_comment(tag@));
    }
    let mut kind = TokenKind::Markup;
    if is_c {
        let mut sub: Vec<char> = Vec::new();
        append_range(&mut sub, &tag, 4, n);
        proof {
            assert(sub@ =~= tag@.skip(4));
            assert(sub@.take(sub@.len() as int) =~= sub@);
        }
        let e1 = trim_end_char_idx(&sub, sub.len(), '>');
        let e2 = trim_end_space_idx(&sub, e1);
        let e3 = trim_end_char_idx(&sub, e2, '-');
        if has_double_hyphen_exec(&sub, e3) {
            kind = TokenKind::Text;
        }
        proof {
            assert(kind == classify_tag(tag@).kind);
        }
    }
    Token { kind, text: tag }
}

/// Tokenizes a document.  The tokens partition the input: their spans are
/// non-overlapping, exhaustive and in document order.
pub fn tokenize(s: &Vec<char>) -> (toks: Vec<Token>)
    ensures
        toks_view(toks@) == tokenize_from(s@, 0),
{
    let mut toks: Vec<Token> = Vec::new();
    let n = s.len();
    let mut offset: usize = 0;
    proof {
        assert(toks_view(toks@) =~= Seq::<TokenS>::empty());
        assert(Seq::<TokenS>::empty() + tokenize_from(s@, 0) =~= tokenize_from(s@, 0));
    }
    while offset < n
        invariant
            offset <= n,
            n == s@.len(),
            tokenize_from(s@, 0) == toks_view(toks@) + tokenize_from(s@, offset as int),
        decreases n - offset,
    {
        let ghost off0 = offset as int;
        let ghost pre = toks_view(toks@);
        let p_opt = find_char_exec(s, '<', offset);
        let mut tag_end: usize = 0;
        let mut have_tag = false;
        let mut p_val: usize = 0;
        match p_opt {
            None => {},
            Some(p) => {
                proof {
                    lemma_find_char(s@, '<', offset as int);
                    assert(p < n);
                }
                match find_char_exec(s, '>', p + 1) {
                    None => {},
                    Some(_q) => {
                        have_tag = true;
                        p_val = p;
                    },
                }
            },
        }
        if have_tag {
            let p = p_val;
            proof {
                lemma_find_char(s@, '<', off0);
                assert(find_char(s@, '<', off0) == Some(p as int));
                assert(off0 <= p < n);
            }
            if p > offset {
                let mut txt: Vec<char> = Vec::new();
                append_range(&mut txt, s, offset, p);
                toks.push(Token { kind: TokenKind::Text, text: txt });
            }
            let end = group2_end_exec(s, p);
            let mut tag: Vec<char> = Vec::new();
            append_range(&mut tag, s, p, end);
            let tok = classify(tag);
            toks.push(tok);
            offset = end;
            proof {
                let mid = if off0 < p {
                    seq![TokenS { kind: TokenKind::Text, text: s@.subrange(off0, p as int) }]
                } else {
                    Seq::<TokenS>::empty()
                };
                assert(tokenize_from(s@, off0) == mid + seq![classify_tag(s@.subrange(p as int, end as int))]
                    + tokenize_from(s@, end as int));
                assert(toks_view(toks@) =~= pre + mid + seq![
                    classify_tag(s@.subrange(p as int, end as int)),
                ]);
                assert(pre + (mid + seq![classify_tag(s@.subrange(p as int, end as int))]
                    + tokenize_from(s@, end as int)) =~= toks_view(toks@) + tokenize_from(
                    s@,
                    end as int,
                ));
            }
        } else {
            let mut txt: Vec<char> = Vec::new();
            append_range(&mut txt, s, offset, n);
            toks.push(Token { kind: TokenKind::Text, text: txt });
            offset = n;
            proof {
                assert(tokenize_from(s@, off0) == seq![
                    TokenS { kind: TokenKind::Text, text: s@.subrange(off0, n as int) },
                ]);
                assert(toks_view(toks@) =~= pre + seq![
                    TokenS { kind: TokenKind::Text, text: s@.subrange(off0, n as int) },
                ]);
                assert(tokenize_from(s@, n as int) =~= Seq::<TokenS>::empty());
                assert(pre + tokenize_from(s@, off0) =~= toks_view(toks@) + tokenize_from(
                    s@,
                    n as int,
                ));
            }
        }
    }
    proof {
        assert(tokenize_from(s@, n as int) =~= Seq::<TokenS>::empty());
        assert(toks_view(toks@) + Seq::<TokenS>::empty() =~= toks_view(toks@));
    }
    toks
}

} // verus!
