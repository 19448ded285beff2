//! The engine's global guarantees, stated and proved over the spec-level
//! model: tokenization is exact, markup and suppressed regions are
//! inviolable, well-formed comments pass through, deferred rendering agrees
//! with immediate rendering, and degenerate quote tokens resolve from the
//! carried character alone.

use crate::classes::{close_double, close_single, open_double, open_single};
use crate::engine::{process_from, rewrite_text_spec, step_prev, step_stack, token_out};
use crate::options::{Opts, Unsmart};
use crate::quotes::{degenerate_opens, quotes_spec};
use crate::tokenize::{classify_tag, comment_malformed, find_char, group2_end, lemma_find_char,
    lemma_group2_end, tag_is_comment, tokenize_from, TokenKind, TokenS};
use crate::verbatim::{skip_scan, step_markup};
use vstd::prelude::*;

verus! {

/// The concatenation of the spans of a token sequence.
pub open spec fn concat_texts(ts: Seq<TokenS>) -> Seq<char>
    decreases ts.len(),
{
    if ts.len() == 0 {
        Seq::empty()
    } else {
        ts[0].text + concat_texts(ts.skip(1))
    }
}

pub proof fn lemma_concat_texts_app(a: Seq<TokenS>, b: Seq<TokenS>)
    ensures
        concat_texts(a + b) == concat_texts(a) + concat_texts(b),
    decreases a.len(),
{
    if a.len() == 0 {
        assert(a + b =~= b);
        assert(concat_texts(a) + concat_texts(b) =~= concat_texts(b));
    } else {
        lemma_concat_texts_app(a.skip(1), b);
        assert((a + b).skip(1) =~= a.skip(1) + b);
        assert((a + b)[0] == a[0]);
        assert(a[0].text + (concat_texts(a.skip(1)) + concat_texts(b)) =~= (a[0].text
            + concat_texts(a.skip(1))) + concat_texts(b));
    }
}

#[verifier::rlimit(50)]
proof fn lemma_tokenize_concat_from(s: Seq<char>, offset: int)
    requires
        0 <= offset <= s.len(),
    ensures
        concat_texts(tokenize_from(s, offset)) == s.subrange(offset, s.len() as int),
    decreases s.len() - offset,
{
    if offset >= s.len() {
        assert(tokenize_from(s, offset) == Seq::<TokenS>::empty());
        assert(concat_texts(Seq::<TokenS>::empty()) == Seq::<char>::empty());
        assert(s.subrange(offset, s.len() as int) =~= Seq::<char>::empty());
    } else {
        match find_char(s, '<', offset) {
            None => {
                let t = TokenS { kind: TokenKind::Text, text: s.subrange(offset, s.len() as int) };
                assert(tokenize_from(s, offset) == seq![t]);
                assert(seq![t].skip(1) =~= Seq::<TokenS>::empty());
                assert(seq![t][0] == t);
                assert(concat_texts(seq![t]) == t.text + concat_texts(Seq::<TokenS>::empty()));
                assert(t.text + Seq::<char>::empty() =~= t.text);
            },
            Some(p) => {
                lemma_find_char(s, '<', offset);
                match find_char(s, '>', p + 1) {
                    None => {
                        let t = TokenS {
                            kind: TokenKind::Text,
                            text: s.subrange(offset, s.len() as int),
                        };
                        assert(tokenize_from(s, offset) == seq![t]);
                        assert(seq![t].skip(1) =~= Seq::<TokenS>::empty());
                        assert(seq![t][0] == t);
                        assert(concat_texts(seq![t]) == t.text + concat_texts(
                            Seq::<TokenS>::empty(),
                        ));
                        assert(t.text + Seq::<char>::empty() =~= t.text);
                    },
                    Some(_q) => {
                        lemma_group2_end(s, p);
                        let end = group2_end(s, p);
                        let tag = s.subrange(p, end);
                        let tagtok = seq![classify_tag(tag)];
                        let pre: Seq<TokenS> = if p > offset {
                            seq![TokenS { kind: TokenKind::Text, text: s.subrange(offset, p) }]
                        } else {
                            Seq::<TokenS>::empty()
                        };
                        lemma_tokenize_concat_from(s, end);
                        assert(tokenize_from(s, offset) == pre + tagtok + tokenize_from(s, end));
                        lemma_concat_texts_app(pre + tagtok, tokenize_from(s, end));
                        lemma_concat_texts_app(pre, tagtok);
                        assert(tagtok.skip(1) =~= Seq::<TokenS>::empty());
                        assert(tagtok[0] == classify_tag(tag));
                        assert(classify_tag(tag).text == tag);
                        assert(concat_texts(tagtok) == tag + concat_texts(Seq::<TokenS>::empty()));
                        assert(tag + Seq::<char>::empty() =~= tag);
                        assert(concat_texts(tagtok) == tag);
                        if p > offset {
                            let t0 = TokenS { kind: TokenKind::Text, text: s.subrange(offset, p) };
                            assert(seq![t0].skip(1) =~= Seq::<TokenS>::empty());
                            assert(concat_texts(pre) =~= s.subrange(offset, p));
                        } else {
                            assert(concat_texts(pre) =~= Seq::<char>::empty());
                        }
                        assert(concat_texts(tokenize_from(s, offset)) == concat_texts(pre)
                            + concat_texts(tagtok) + concat_texts(tokenize_from(s, end)));
                        assert(concat_texts(pre) + tag + s.subrange(end, s.len() as int)
                            =~= s.subrange(offset, s.len() as int));
                    },
                }
            },
        }
    }
}

/// Tokenization drops and duplicates nothing: concatenating the spans of
/// the emitted tokens reproduces the document exactly, for every input.
pub proof fn lemma_tokenize_exact(s: Seq<char>)
    ensures
        concat_texts(tokenize_from(s, 0)) == s,
{
    lemma_tokenize_concat_from(s, 0);
    assert(s.subrange(0, s.len() as int) =~= s);
}

/// A markup token contributes its own span, whatever the configuration, and
/// only moves the verbatim stack.
pub proof fn lemma_markup_unchanged(
    t: TokenS,
    toks: Seq<TokenS>,
    o: Opts,
    stack: Seq<usize>,
    prev: Option<char>,
)
    requires
        t.kind == TokenKind::Markup,
    ensures
        process_from(seq![t] + toks, o, stack, prev) == t.text + process_from(
            toks,
            o,
            step_markup(stack, t.text),
            prev,
        ),
{
    assert((seq![t] + toks)[0] == t);
    assert((seq![t] + toks).skip(1) =~= toks);
}

/// A well-formed comment — one with no interior `--` left after its trailer
/// is stripped — is classified as markup, so its region is enclosed in one
/// token that passes through unchanged.
pub proof fn lemma_comment_inviolable(
    tag: Seq<char>,
    toks: Seq<TokenS>,
    o: Opts,
    stack: Seq<usize>,
    prev: Option<char>,
)
    requires
        tag_is_comment(tag),
        !comment_malformed(tag),
    ensures
        classify_tag(tag).kind == TokenKind::Markup,
        classify_tag(tag).text == tag,
        process_from(seq![classify_tag(tag)] + toks, o, stack, prev) == tag + process_from(
            toks,
            o,
            step_markup(stack, tag),
            prev,
        ),
{
    lemma_markup_unchanged(classify_tag(tag), toks, o, stack, prev);
}

/// A text token processed while the verbatim stack is non-empty is emitted
/// byte for byte, whatever the configuration.
pub proof fn lemma_suppressed_text_unchanged(
    t: TokenS,
    toks: Seq<TokenS>,
    o: Opts,
    stack: Seq<usize>,
    prev: Option<char>,
)
    requires
        t.kind == TokenKind::Text,
        stack.len() > 0,
    ensures
        process_from(seq![t] + toks, o, stack, prev) == t.text + process_from(
            toks,
            o,
            stack,
            step_prev(t, prev),
        ),
{
    assert((seq![t] + toks)[0] == t);
    assert((seq![t] + toks).skip(1) =~= toks);
}

/// A markup token whose first verbatim-tag match is an opening tag pushes
/// its name: the stack is non-empty afterwards, so suppression has begun.
pub proof fn lemma_open_tag_suppresses(stack: Seq<usize>, m: Seq<char>)
    requires
        skip_scan(m, 0) is Some,
        !(skip_scan(m, 0)->0).0,
    ensures
        step_markup(stack, m) == stack.push((skip_scan(m, 0)->0).1),
        step_markup(stack, m).len() > 0,
{
}

/// The verbatim stack after a token sequence.
pub open spec fn stack_after(toks: Seq<TokenS>, stack: Seq<usize>) -> Seq<usize>
    decreases toks.len(),
{
    if toks.len() == 0 {
        stack
    } else {
        stack_after(toks.skip(1), step_stack(toks[0], stack))
    }
}

/// The carried character after a token sequence.
pub open spec fn prev_after(toks: Seq<TokenS>, prev: Option<char>) -> Option<char>
    decreases toks.len(),
{
    if toks.len() == 0 {
        prev
    } else {
        prev_after(toks.skip(1), step_prev(toks[0], prev))
    }
}

/// The verbatim stack stays non-empty at every token of the sequence.
pub open spec fn suppressed_throughout(toks: Seq<TokenS>, stack: Seq<usize>) -> bool
    decreases toks.len(),
{
    if toks.len() == 0 {
        true
    } else {
        stack.len() > 0 && suppressed_throughout(toks.skip(1), step_stack(toks[0], stack))
    }
}

/// Verbatim inviolability: a region whose tokens are all processed under a
/// non-empty verbatim stack — as a region wrapped in an open verbatim tag
/// is, same-name nesting included — is emitted byte for byte, whatever the
/// configuration.
pub proof fn lemma_verbatim_region_unchanged(
    mid: Seq<TokenS>,
    rest: Seq<TokenS>,
    o: Opts,
    stack: Seq<usize>,
    prev: Option<char>,
)
    requires
        suppressed_throughout(mid, stack),
    ensures
        process_from(mid + rest, o, stack, prev) == concat_texts(mid) + process_from(
            rest,
            o,
            stack_after(mid, stack),
            prev_after(mid, prev),
        ),
    decreases mid.len(),
{
    if mid.len() == 0 {
        assert(mid + rest =~= rest);
        assert(concat_texts(mid) + process_from(rest, o, stack, prev) =~= process_from(
            rest,
            o,
            stack,
            prev,
        ));
    } else {
        let t = mid[0];
        let stack1 = step_stack(t, stack);
        let prev1 = step_prev(t, prev);
        lemma_verbatim_region_unchanged(mid.skip(1), rest, o, stack1, prev1);
        assert((mid + rest)[0] == t);
        assert((mid + rest).skip(1) =~= mid.skip(1) + rest);
        assert(token_out(t, o, stack, prev) == t.text);
        assert(t.text + (concat_texts(mid.skip(1)) + process_from(
            rest,
            o,
            stack_after(mid.skip(1), stack1),
            prev_after(mid.skip(1), prev1),
        )) =~= (t.text + concat_texts(mid.skip(1))) + process_from(
            rest,
            o,
            stack_after(mid.skip(1), stack1),
            prev_after(mid.skip(1), prev1),
        ));
    }
}

/// Verbatim inviolability from the wrapping tag itself: a markup token that
/// opens a verbatim element pushes its name, and as long as the region
/// behind it keeps the stack non-empty — which same-name nesting does, since
/// an inner close only pops the inner push — the whole wrapped region is
/// emitted byte for byte, whatever the configuration.
pub proof fn lemma_wrapped_region_unchanged(
    open_tag: TokenS,
    mid: Seq<TokenS>,
    rest: Seq<TokenS>,
    o: Opts,
    stack: Seq<usize>,
    prev: Option<char>,
)
    requires
        open_tag.kind == TokenKind::Markup,
        skip_scan(open_tag.text, 0) is Some,
        !(skip_scan(open_tag.text, 0)->0).0,
        suppressed_throughout(mid, stack.push((skip_scan(open_tag.text, 0)->0).1)),
    ensures
        process_from(seq![open_tag] + mid + rest, o, stack, prev) == open_tag.text + concat_texts(
            mid,
        ) + process_from(
            rest,
            o,
            stack_after(mid, stack.push((skip_scan(open_tag.text, 0)->0).1)),
            prev_after(mid, prev),
        ),
{
    let name = (skip_scan(open_tag.text, 0)->0).1;
    lemma_open_tag_suppresses(stack, open_tag.text);
    lemma_markup_unchanged(open_tag, mid + rest, o, stack, prev);
    assert(seq![open_tag] + mid + rest =~= seq![open_tag] + (mid + rest));
    lemma_verbatim_region_unchanged(mid, rest, o, stack.push(name), prev);
    assert(open_tag.text + (concat_texts(mid) + process_from(
        rest,
        o,
        stack_after(mid, stack.push(name)),
        prev_after(mid, prev),
    )) =~= (open_tag.text + concat_texts(mid)) + process_from(
        rest,
        o,
        stack_after(mid, stack.push(name)),
        prev_after(mid, prev),
    ));
}

/// Round-trip rendering: on any text token, rewriting with a final
/// rendering mode selected equals rewriting with markers kept and rendering
/// the markers afterwards in that mode.
pub proof fn lemma_render_roundtrip(s: Seq<char>, o: Opts, m: Unsmart, prev: Option<char>)
    requires
        o.unsmart == Unsmart::Ignore,
    ensures
        rewrite_text_spec(s, Opts { unsmart: m, ..o }, prev) == crate::render::unsmart_spec(
            rewrite_text_spec(s, o, prev),
            m,
        ),
{
}

/// A character below code point 128.
pub open spec fn is_ascii_char(c: char) -> bool {
    (c as u32) < 128
}

proof fn lemma_concat_lacks(a: Seq<char>, b: Seq<char>, c: char)
    requires
        !a.contains(c),
        !b.contains(c),
    ensures
        !(a + b).contains(c),
{
    assert forall|k: int| 0 <= k < (a + b).len() implies (a + b)[k] != c by {
        if k < a.len() {
            assert((a + b)[k] == a[k]);
            if a[k] == c {
                assert(a.contains(c));
            }
        } else {
            assert((a + b)[k] == b[k - a.len()]);
            if b[k - a.len()] == c {
                assert(b.contains(c));
            }
        }
    }
}

proof fn lemma_single_lacks(x: char, c: char)
    requires
        x != c,
    ensures
        !seq![x].contains(c),
{
    assert forall|k: int| 0 <= k < 1 implies seq![x][k] != c by {
        assert(seq![x][0] == x);
    }
}

proof fn lemma_subrange_lacks(s: Seq<char>, i: int, j: int, c: char)
    requires
        !s.contains(c),
        0 <= i <= j <= s.len(),
    ensures
        !s.subrange(i, j).contains(c),
{
    assert forall|k: int| 0 <= k < j - i implies s.subrange(i, j)[k] != c by {
        assert(s.subrange(i, j)[k] == s[i + k]);
        if s[i + k] == c {
            assert(s.contains(c));
        }
    }
}

proof fn lemma_at_lacks(s: Seq<char>, i: int, c: char)
    requires
        !s.contains(c),
        0 <= i < s.len(),
    ensures
        s[i] != c,
        !seq![s[i]].contains(c),
{
    if s[i] == c {
        assert(s.contains(c));
    }
    lemma_single_lacks(s[i], c);
}

proof fn lemma_markers_lack(c: char)
    requires
        !is_ascii_char(c),
    ensures
        !crate::classes::en_dash().contains(c),
        !crate::classes::em_dash().contains(c),
        !open_single().contains(c),
        !close_single().contains(c),
        !open_double().contains(c),
        !close_double().contains(c),
        !crate::classes::ellipsis().contains(c),
        !seq!['&', '#', '9', '2', ';'].contains(c),
        !seq!['&', '#', '3', '4', ';'].contains(c),
        !seq!['&', '#', '3', '9', ';'].contains(c),
        !seq!['&', '#', '4', '6', ';'].contains(c),
        !seq!['&', '#', '4', '5', ';'].contains(c),
        !seq!['"'].contains(c),
        !seq!['&', '#', '9', '6', ';'].contains(c),
{
    assert(c != '&' && c != '#' && c != ';' && c != '"');
    assert(c != '0' && c != '1' && c != '2' && c != '3' && c != '4' && c != '5' && c != '6' && c
        != '7' && c != '8' && c != '9');
}

proof fn lemma_dash_basic_lacks(s: Seq<char>, i: int, c: char)
    requires
        !s.contains(c),
        !is_ascii_char(c),
    ensures
        !crate::rewrite::dash_basic_from(s, i).contains(c),
    decreases s.len() - i,
{
    lemma_markers_lack(c);
    if i < 0 || i >= s.len() {
    } else if crate::rewrite::dash_basic_match(s, i) {
        lemma_dash_basic_lacks(s, i + 2, c);
        lemma_concat_lacks(crate::classes::em_dash(), crate::rewrite::dash_basic_from(s, i + 2), c);
    } else {
        lemma_dash_basic_lacks(s, i + 1, c);
        lemma_at_lacks(s, i, c);
        lemma_concat_lacks(seq![s[i]], crate::rewrite::dash_basic_from(s, i + 1), c);
    }
}

proof fn lemma_nest_double_lacks(s: Seq<char>, i: int, c: char)
    requires
        !s.contains(c),
        !is_ascii_char(c),
    ensures
        !crate::quotes::nest_double_from(s, i).contains(c),
    decreases s.len() - i,
{
    lemma_markers_lack(c);
    if i < 0 || i >= s.len() {
    } else if crate::quotes::nest_double_match(s, i) {
        lemma_nest_double_lacks(s, i + 2, c);
        lemma_concat_lacks(open_double(), open_single(), c);
        lemma_concat_lacks(
            open_double() + open_single(),
            crate::quotes::nest_double_from(s, i + 2),
            c,
        );
    } else {
        lemma_nest_double_lacks(s, i + 1, c);
        lemma_at_lacks(s, i, c);
        lemma_concat_lacks(seq![s[i]], crate::quotes::nest_double_from(s, i + 1), c);
    }
}

proof fn lemma_nest_single_lacks(s: Seq<char>, i: int, c: char)
    requires
        !s.contains(c),
        !is_ascii_char(c),
    ensures
        !crate::quotes::nest_single_from(s, i).contains(c),
    decreases s.len() - i,
{
    lemma_markers_lack(c);
    if i < 0 || i >= s.len() {
    } else if crate::quotes::nest_single_match(s, i) {
        lemma_nest_single_lacks(s, i + 2, c);
        lemma_concat_lacks(open_single(), open_double(), c);
        lemma_concat_lacks(
            open_single() + open_double(),
            crate::quotes::nest_single_from(s, i + 2),
            c,
        );
    } else {
        lemma_nest_single_lacks(s, i + 1, c);
        lemma_at_lacks(s, i, c);
        lemma_concat_lacks(seq![s[i]], crate::quotes::nest_single_from(s, i + 1), c);
    }
}

proof fn lemma_decade_lacks(s: Seq<char>, i: int, c: char)
    requires
        !s.contains(c),
        !is_ascii_char(c),
    ensures
        !crate::quotes::decade_from(s, i).contains(c),
    decreases s.len() - i,
{
    lemma_markers_lack(c);
    if i < 0 || i >= s.len() {
    } else if crate::quotes::decade_match(s, i) {
        lemma_decade_lacks(s, i + 1, c);
        lemma_concat_lacks(close_single(), crate::quotes::decade_from(s, i + 1), c);
    } else {
        lemma_decade_lacks(s, i + 1, c);
        lemma_at_lacks(s, i, c);
        lemma_concat_lacks(seq![s[i]], crate::quotes::decade_from(s, i + 1), c);
    }
}

proof fn lemma_open_single_lacks(s: Seq<char>, i: int, c: char)
    requires
        !s.contains(c),
        !is_ascii_char(c),
    ensures
        !crate::quotes::open_single_from(s, i).contains(c),
    decreases s.len() - i,
{
    lemma_markers_lack(c);
    if i < 0 || i >= s.len() {
    } else if crate::quotes::open_single_match(s, i) {
        let l = crate::quotes::open_prefix_len(s, i);
        lemma_open_single_lacks(s, i + l + 1, c);
        lemma_subrange_lacks(s, i, i + l, c);
        lemma_concat_lacks(s.subrange(i, i + l), open_single(), c);
        lemma_concat_lacks(
            s.subrange(i, i + l) + open_single(),
            crate::quotes::open_single_from(s, i + l + 1),
            c,
        );
    } else {
        lemma_open_single_lacks(s, i + 1, c);
        lemma_at_lacks(s, i, c);
        lemma_concat_lacks(seq![s[i]], crate::quotes::open_single_from(s, i + 1), c);
    }
}

proof fn lemma_close_single_lacks(s: Seq<char>, i: int, c: char)
    requires
        !s.contains(c),
        !is_ascii_char(c),
    ensures
        !crate::quotes::close_single_from(s, i).contains(c),
    decreases s.len() - i,
{
    lemma_markers_lack(c);
    if i < 0 || i >= s.len() {
    } else if crate::quotes::close_single_match(s, i) {
        lemma_close_single_lacks(s, i + 2, c);
        lemma_at_lacks(s, i, c);
        lemma_concat_lacks(seq![s[i]], close_single(), c);
        lemma_concat_lacks(
            seq![s[i]] + close_single(),
            crate::quotes::close_single_from(s, i + 2),
            c,
        );
    } else {
        lemma_close_single_lacks(s, i + 1, c);
        lemma_at_lacks(s, i, c);
        lemma_concat_lacks(seq![s[i]], crate::quotes::close_single_from(s, i + 1), c);
    }
}

proof fn lemma_close_single_keep_lacks(s: Seq<char>, i: int, c: char)
    requires
        !s.contains(c),
        !is_ascii_char(c),
    ensures
        !crate::quotes::close_single_keep_from(s, i).contains(c),
    decreases s.len() - i,
{
    lemma_markers_lack(c);
    if i < 0 || i >= s.len() {
    } else if crate::quotes::close_single_keep_match(s, i) {
        lemma_close_single_keep_lacks(s, i + 3, c);
        lemma_at_lacks(s, i, c);
        lemma_at_lacks(s, i + 2, c);
        lemma_concat_lacks(seq![s[i]], close_single(), c);
        lemma_concat_lacks(seq![s[i]] + close_single(), seq![s[i + 2]], c);
        lemma_concat_lacks(
            seq![s[i]] + close_single() + seq![s[i + 2]],
            crate::quotes::close_single_keep_from(s, i + 3),
            c,
        );
    } else {
        lemma_close_single_keep_lacks(s, i + 1, c);
        lemma_at_lacks(s, i, c);
        lemma_concat_lacks(seq![s[i]], crate::quotes::close_single_keep_from(s, i + 1), c);
    }
}

proof fn lemma_open_double_lacks(s: Seq<char>, i: int, c: char)
    requires
        !s.contains(c),
        !is_ascii_char(c),
    ensures
        !crate::quotes::open_double_from(s, i).contains(c),
    decreases s.len() - i,
{
    lemma_markers_lack(c);
    if i < 0 || i >= s.len() {
    } else if crate::quotes::open_double_match(s, i) {
        let l = crate::quotes::open_prefix_len(s, i);
        lemma_open_double_lacks(s, i + l + 1, c);
        lemma_subrange_lacks(s, i, i + l, c);
        lemma_concat_lacks(s.subrange(i, i + l), open_double(), c);
        lemma_concat_lacks(
            s.subrange(i, i + l) + open_double(),
            crate::quotes::open_double_from(s, i + l + 1),
            c,
        );
    } else {
        lemma_open_double_lacks(s, i + 1, c);
        lemma_at_lacks(s, i, c);
        lemma_concat_lacks(seq![s[i]], crate::quotes::open_double_from(s, i + 1), c);
    }
}

proof fn lemma_close_double_ws_lacks(s: Seq<char>, i: int, c: char)
    requires
        !s.contains(c),
        !is_ascii_char(c),
    ensures
        !crate::quotes::close_double_ws_from(s, i).contains(c),
    decreases s.len() - i,
{
    lemma_markers_lack(c);
    if i < 0 || i >= s.len() {
    } else if crate::quotes::close_double_ws_full_match(s, i) {
        lemma_close_double_ws_lacks(s, i + 2, c);
        lemma_at_lacks(s, i, c);
        lemma_concat_lacks(seq![s[i]], close_double(), c);
        lemma_concat_lacks(
            seq![s[i]] + close_double(),
            crate::quotes::close_double_ws_from(s, i + 2),
            c,
        );
    } else if crate::quotes::close_double_ws_bare_match(s, i) {
        lemma_close_double_ws_lacks(s, i + 1, c);
        lemma_concat_lacks(close_double(), crate::quotes::close_double_ws_from(s, i + 1), c);
    } else {
        lemma_close_double_ws_lacks(s, i + 1, c);
        lemma_at_lacks(s, i, c);
        lemma_concat_lacks(seq![s[i]], crate::quotes::close_double_ws_from(s, i + 1), c);
    }
}

proof fn lemma_close_double_lacks(s: Seq<char>, i: int, c: char)
    requires
        !s.contains(c),
        !is_ascii_char(c),
    ensures
        !crate::quotes::close_double_from(s, i).contains(c),
    decreases s.len() - i,
{
    lemma_markers_lack(c);
    if i < 0 || i >= s.len() {
    } else if crate::quotes::close_double_match(s, i) {
        lemma_close_double_lacks(s, i + 2, c);
        lemma_at_lacks(s, i, c);
        lemma_concat_lacks(seq![s[i]], close_double(), c);
        lemma_concat_lacks(
            seq![s[i]] + close_double(),
            crate::quotes::close_double_from(s, i + 2),
            c,
        );
    } else {
        lemma_close_double_lacks(s, i + 1, c);
        lemma_at_lacks(s, i, c);
        lemma_concat_lacks(seq![s[i]], crate::quotes::close_double_from(s, i + 1), c);
    }
}

proof fn lemma_force_close_lacks(s: Seq<char>, q: char, marker: Seq<char>, c: char)
    requires
        !s.contains(c),
        !marker.contains(c),
    ensures
        !crate::quotes::force_close_spec(s, q, marker).contains(c),
{
    if crate::quotes::force_close_applies(s, q) {
        assert(s.skip(1) =~= s.subrange(1, s.len() as int));
        lemma_subrange_lacks(s, 1, s.len() as int, c);
        lemma_concat_lacks(marker, s.skip(1), c);
    }
}

proof fn lemma_convert_quotes_lacks(s: Seq<char>, c: char)
    requires
        !s.contains(c),
        !is_ascii_char(c),
    ensures
        !crate::quotes::convert_quotes_spec(s).contains(c),
{
    lemma_markers_lack(c);
    let s1 = crate::quotes::force_close_spec(s, '\'', close_single());
    lemma_force_close_lacks(s, '\'', close_single(), c);
    let s2 = crate::quotes::force_close_spec(s1, '"', close_double());
    lemma_force_close_lacks(s1, '"', close_double(), c);
    let s3 = crate::quotes::nest_double_from(s2, 0);
    lemma_nest_double_lacks(s2, 0, c);
    let s4 = crate::quotes::nest_single_from(s3, 0);
    lemma_nest_single_lacks(s3, 0, c);
    let s5 = crate::quotes::decade_from(s4, 0);
    lemma_decade_lacks(s4, 0, c);
    let s6 = crate::quotes::open_single_from(s5, 0);
    lemma_open_single_lacks(s5, 0, c);
    let s7 = crate::quotes::close_single_from(s6, 0);
    lemma_close_single_lacks(s6, 0, c);
    let s8 = crate::quotes::close_single_keep_from(s7, 0);
    lemma_close_single_keep_lacks(s7, 0, c);
    let s9 = crate::replace::replace_spec(s8, seq!['\''], open_single());
    crate::replace::lemma_replace_chars(s8, seq!['\''], open_single(), c);
    let s10 = crate::quotes::open_double_from(s9, 0);
    lemma_open_double_lacks(s9, 0, c);
    let s11 = crate::quotes::close_double_ws_from(s10, 0);
    lemma_close_double_ws_lacks(s10, 0, c);
    let s12 = crate::quotes::close_double_from(s11, 0);
    lemma_close_double_lacks(s11, 0, c);
    crate::replace::lemma_replace_chars(s12, seq!['"'], open_double(), c);
}

/// Round-trip rendering, second half: with rendering deferred, converted
/// punctuation appears only as numeric entity markers.  The rewrite
/// introduces no character above ASCII, so a raw curly quote, dash or
/// ellipsis character can never appear in the output unless the input
/// already held it.
pub proof fn lemma_no_raw_curly(s: Seq<char>, o: Opts, prev: Option<char>, c: char)
    requires
        o.unsmart == Unsmart::Ignore,
        !s.contains(c),
        !is_ascii_char(c),
    ensures
        !rewrite_text_spec(s, o, prev).contains(c),
{
    lemma_markers_lack(c);
    let t0a = crate::replace::replace_spec(s, seq!['\\', '\\'], seq!['&', '#', '9', '2', ';']);
    crate::replace::lemma_replace_chars(s, seq!['\\', '\\'], seq!['&', '#', '9', '2', ';'], c);
    let t0b = crate::replace::replace_spec(t0a, seq!['\\', '"'], seq!['&', '#', '3', '4', ';']);
    crate::replace::lemma_replace_chars(t0a, seq!['\\', '"'], seq!['&', '#', '3', '4', ';'], c);
    let t0c = crate::replace::replace_spec(t0b, seq!['\\', '\''], seq!['&', '#', '3', '9', ';']);
    crate::replace::lemma_replace_chars(t0b, seq!['\\', '\''], seq!['&', '#', '3', '9', ';'], c);
    let t0d = crate::replace::replace_spec(t0c, seq!['\\', '.'], seq!['&', '#', '4', '6', ';']);
    crate::replace::lemma_replace_chars(t0c, seq!['\\', '.'], seq!['&', '#', '4', '6', ';'], c);
    let t0e = crate::replace::replace_spec(t0d, seq!['\\', '-'], seq!['&', '#', '4', '5', ';']);
    crate::replace::lemma_replace_chars(t0d, seq!['\\', '-'], seq!['&', '#', '4', '5', ';'], c);
    let t1 = crate::rewrite::unescape_spec(s);
    crate::replace::lemma_replace_chars(t0e, seq!['\\', '`'], seq!['&', '#', '9', '6', ';'], c);
    assert(!t1.contains(c));
    let t2 = if o.quot {
        crate::rewrite::unquot_spec(t1)
    } else {
        t1
    };
    if o.quot {
        crate::replace::lemma_replace_chars(t1, crate::rewrite::quot_entity(), seq!['"'], c);
    }
    let t3 = crate::rewrite::dash_spec(t2, o.dashes);
    match o.dashes {
        crate::options::Dash::Ignore => {},
        crate::options::Dash::Basic => {
            lemma_dash_basic_lacks(t2, 0, c);
        },
        crate::options::Dash::Old => {
            crate::replace::lemma_replace_chars(t2, seq!['-', '-', '-'], crate::classes::em_dash(), c);
            crate::replace::lemma_replace_chars(
                crate::replace::replace_spec(t2, seq!['-', '-', '-'], crate::classes::em_dash()),
                seq!['-', '-'],
                crate::classes::en_dash(),
                c,
            );
        },
        crate::options::Dash::Invert => {
            crate::replace::lemma_replace_chars(t2, seq!['-', '-', '-'], crate::classes::en_dash(), c);
            crate::replace::lemma_replace_chars(
                crate::replace::replace_spec(t2, seq!['-', '-', '-'], crate::classes::en_dash()),
                seq!['-', '-'],
                crate::classes::em_dash(),
                c,
            );
        },
    }
    let t4 = if o.ellipses {
        crate::rewrite::ellipses_spec(t3)
    } else {
        t3
    };
    if o.ellipses {
        crate::replace::lemma_replace_chars(t3, seq!['.', '.', '.'], crate::classes::ellipsis(), c);
        crate::replace::lemma_replace_chars(
            crate::replace::replace_spec(t3, seq!['.', '.', '.'], crate::classes::ellipsis()),
            seq!['.', ' ', '.', ' ', '.'],
            crate::classes::ellipsis(),
            c,
        );
    }
    let t5 = crate::rewrite::backtick_spec(t4, o.backticks);
    match o.backticks {
        crate::options::Backtick::Ignore => {},
        crate::options::Backtick::All => {
            let b1 = crate::replace::replace_spec(t4, seq!['`', '`'], open_double());
            crate::replace::lemma_replace_chars(t4, seq!['`', '`'], open_double(), c);
            let b2 = crate::replace::replace_spec(b1, seq!['\'', '\''], close_double());
            crate::replace::lemma_replace_chars(b1, seq!['\'', '\''], close_double(), c);
            let b3 = crate::replace::replace_spec(b2, seq!['`'], open_single());
            crate::replace::lemma_replace_chars(b2, seq!['`'], open_single(), c);
            crate::replace::lemma_replace_chars(b3, seq!['\''], close_single(), c);
        },
        crate::options::Backtick::Single => {
            let b1 = crate::replace::replace_spec(t4, seq!['`'], open_single());
            crate::replace::lemma_replace_chars(t4, seq!['`'], open_single(), c);
            crate::replace::lemma_replace_chars(b1, seq!['\''], close_single(), c);
        },
        crate::options::Backtick::Double => {
            let b1 = crate::replace::replace_spec(t4, seq!['`', '`'], open_double());
            crate::replace::lemma_replace_chars(t4, seq!['`', '`'], open_double(), c);
            crate::replace::lemma_replace_chars(b1, seq!['\'', '\''], close_double(), c);
        },
    }
    if o.quotes {
        if t5.len() == 1 && (t5[0] == '\'' || t5[0] == '"') {
        } else {
            lemma_convert_quotes_lacks(t5, c);
        }
    }
}

/// Degenerate quote resolution: a token that is exactly one quote character
/// opens when there is no carried character or the carried character is
/// whitespace, and closes otherwise.
pub proof fn lemma_degenerate_resolution(prev: Option<char>)
    ensures
        quotes_spec(seq!['\''], prev) == if degenerate_opens(prev) {
            open_single()
        } else {
            close_single()
        },
        quotes_spec(seq!['"'], prev) == if degenerate_opens(prev) {
            open_double()
        } else {
            close_double()
        },
{
}

} // verus!
