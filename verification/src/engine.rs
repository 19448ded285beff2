//! The engine: one linear pass over the token sequence.  Markup tokens pass
//! through untouched and drive the verbatim stack; free-text tokens are
//! rewritten unless suppressed, and the last character of each text token is
//! carried across tokens to resolve degenerate quote tokens.

use crate::classes::append_copy;
use crate::options::Opts;
use crate::quotes::quotes_spec;
use crate::quotes::apply_quotes;
use crate::render::{unsmart_chars, unsmart_spec};
use crate::rewrite::{backtick_spec, convert_backticks, convert_dashes, convert_ellipses,
    dash_spec, ellipses_spec, unescape_spec, unquot_spec, unquot_chars};
use crate::text::{chars_to_string, str_to_chars};
use crate::tokenize::{tokenize, tokenize_from, toks_view, TokenKind, TokenS};
use crate::verbatim::{step_markup, update_stack};
use vstd::prelude::*;

verus! {

/// The full rewrite of one free-text token, in its fixed order: unescaping,
/// optional literal-quote unescaping, dashes, ellipses, backticks, quote
/// disambiguation, and final rendering.
pub open spec fn rewrite_text_spec(s: Seq<char>, o: Opts, prev: Option<char>) -> Seq<char> {
    let t1 = unescape_spec(s);
    let t2 = if o.quot {
        unquot_spec(t1)
    } else {
        t1
    };
    let t3 = dash_spec(t2, o.dashes);
    let t4 = if o.ellipses {
        ellipses_spec(t3)
    } else {
        t3
    };
    let t5 = backtick_spec(t4, o.backticks);
    let t6 = if o.quotes {
        quotes_spec(t5, prev)
    } else {
        t5
    };
    unsmart_spec(t6, o.unsmart)
}

/// Rewrites one free-text token.
pub fn rewrite_text(s: &Vec<char>, o: &Opts, prev: Option<char>) -> (r: Vec<char>)
    ensures
        r@ == rewrite_text_spec(s@, *o, prev),
{
    let t1 = crate::rewrite::unescape_chars(s);
    let t2 = if o.quot {
        unquot_chars(&t1)
    } else {
        t1
    };
    let t3 = convert_dashes(&t2, &o.dashes);
    let t4 = if o.ellipses {
        convert_ellipses(&t3)
    } else {
        t3
    };
    let t5 = convert_backticks(&t4, &o.backticks);
    let t6 = if o.quotes {
        apply_quotes(&t5, prev)
    } else {
        t5
    };
    unsmart_chars(&t6, &o.unsmart)
}

/// One token's contribution to the output: markup and suppressed text pass
/// through byte for byte; unsuppressed text is rewritten.
pub open spec fn token_out(t: TokenS, o: Opts, stack: Seq<usize>, prev: Option<char>) -> Seq<
    char,
> {
    if t.kind == TokenKind::Markup {
        t.text
    } else if stack.len() == 0 {
        rewrite_text_spec(t.text, o, prev)
    } else {
        t.text
    }
}

/// The verbatim stack after a token: only markup moves it.
pub open spec fn step_stack(t: TokenS, stack: Seq<usize>) -> Seq<usize> {
    if t.kind == TokenKind::Markup {
        step_markup(stack, t.text)
    } else {
        stack
    }
}

/// The carried character after a token: the original last character of a
/// text token, suppressed or not; markup leaves it alone.
pub open spec fn step_prev(t: TokenS, prev: Option<char>) -> Option<char> {
    if t.kind == TokenKind::Text && t.text.len() > 0 {
        Some(t.text.last())
    } else {
        prev
    }
}

/// The output of the engine over a token sequence, from a given verbatim
/// stack and carried character.
pub open spec fn process_from(
    toks: Seq<TokenS>,
    o: Opts,
    stack: Seq<usize>,
    prev: Option<char>,
) -> Seq<char>
    decreases toks.len(),
{
    if toks.len() == 0 {
        Seq::empty()
    } else {
        token_out(toks[0], o, stack, prev) + process_from(
            toks.skip(1),
            o,
            step_stack(toks[0], stack),
            step_prev(toks[0], prev),
        )
    }
}

/// The whole engine: tokenize, then process every token in order starting
/// from an empty verbatim stack and no carried character.
pub open spec fn smartypants_spec(s: Seq<char>, o: Opts) -> Seq<char> {
    process_from(tokenize_from(s, 0), o, Seq::empty(), None)
}

/// Converts plain ASCII punctuation in `text` into typographic entities as
/// `opts` selects, leaving markup, well-formed comments and verbatim
/// regions untouched.
pub fn smartypants(text: &str, opts: &Opts) -> (r: String)
    ensures
        r@ == smartypants_spec(text@, *opts),
{
    let chars = str_to_chars(text);
    let toks = tokenize(&chars);
    let mut out: Vec<char> = Vec::new();
    let mut stack: Vec<usize> = Vec::new();
    let mut prev: Option<char> = None;
    let nt = toks.len();
    let mut i: usize = 0;
    proof {
        assert(toks_view(toks@).skip(0) =~= toks_view(toks@));
        assert(Seq::<char>::empty() + process_from(toks_view(toks@), *opts, stack@, prev)
            =~= process_from(toks_view(toks@), *opts, stack@, prev));
    }
    while i < nt
        invariant
            i <= nt,
            nt == toks@.len(),
            toks_view(toks@) == tokenize_from(chars@, 0),
            smartypants_spec(text@, *opts) == out@ + process_from(
                toks_view(toks@).skip(i as int),
                *opts,
                stack@,
                prev,
            ),
            chars@ == text@,
        decreases nt - i,
    {
        let ghost rest = toks_view(toks@).skip(i as int);
        let ghost tv = toks_view(toks@)[i as int];
        let ghost pre = out@;
        let ghost stack0 = stack@;
        let ghost prev0 = prev;
        proof {
            assert(rest[0] == tv);
            assert(rest.skip(1) =~= toks_view(toks@).skip(i + 1));
        }
        let t = &toks[i];
        proof {
            assert(tv == t@);
        }
        let is_markup = match t.kind {
            TokenKind::Markup => true,
            TokenKind::Text => false,
        };
        if is_markup {
            append_copy(&mut out, &t.text);
            update_stack(&mut stack, &t.text);
            proof {
                assert(token_out(tv, *opts, stack0, prev0) == tv.text);
                assert(step_stack(tv, stack0) == stack@);
                assert(step_prev(tv, prev0) == prev);
                assert(process_from(rest, *opts, stack0, prev0) == tv.text + process_from(
                    rest.skip(1),
                    *opts,
                    stack@,
                    prev,
                ));
                assert(pre + (tv.text + process_from(rest.skip(1), *opts, stack@, prev)) =~= out@
                    + process_from(rest.skip(1), *opts, stack@, prev));
            }
        } else {
            let piece: Vec<char> = if stack.len() > 0 {
                let mut c: Vec<char> = Vec::new();
                append_copy(&mut c, &t.text);
                c
            } else {
                rewrite_text(&t.text, opts, prev)
            };
            append_copy(&mut out, &piece);
            if t.text.len() > 0 {
                prev = Some(t.text[t.text.len() - 1]);
                proof {
                    assert(tv.text.last() == t.text@[t.text@.len() - 1]);
                }
            }
            proof {
                assert(piece@ == token_out(tv, *opts, stack0, prev0));
                assert(step_stack(tv, stack0) == stack@);
                assert(step_prev(tv, prev0) == prev);
                assert(process_from(rest, *opts, stack0, prev0) == piece@ + process_from(
                    rest.skip(1),
                    *opts,
                    stack@,
                    prev,
                ));
                assert(pre + (piece@ + process_from(rest.skip(1), *opts, stack@, prev)) =~= out@
                    + process_from(rest.skip(1), *opts, stack@, prev));
            }
        }
        i = i + 1;
    }
    proof {
        assert(toks_view(toks@).skip(nt as int) =~= Seq::<TokenS>::empty());
        assert(out@ + Seq::<char>::empty() =~= out@);
    }
    chars_to_string(&out)
}

} // verus!
