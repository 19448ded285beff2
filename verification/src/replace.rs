//! Left-to-right, non-overlapping replacement of one literal pattern by
//! another, the way `str::replace` works: scan from the left, and wherever
//! the pattern occurs, emit the replacement and continue after the
//! occurrence.

use crate::classes::{append_copy, match_at, matches_at};
use vstd::prelude::*;

verus! {

/// The result of replacing every (leftmost, non-overlapping) occurrence of
/// `pat` in `s` by `rep`.
pub open spec fn replace_spec(s: Seq<char>, pat: Seq<char>, rep: Seq<char>) -> Seq<char>
    decreases s.len(),
{
    if s.len() == 0 {
        Seq::empty()
    } else if pat.len() > 0 && match_at(s, 0, pat) {
        rep + replace_spec(s.skip(pat.len() as int), pat, rep)
    } else {
        seq![s[0]] + replace_spec(s.skip(1), pat, rep)
    }
}

/// Replaces every occurrence of `pat` in `s` by `rep`.
pub fn replace_all(s: &Vec<char>, pat: &Vec<char>, rep: &Vec<char>) -> (r: Vec<char>)
    requires
        pat@.len() > 0,
    ensures
        r@ == replace_spec(s@, pat@, rep@),
{
    let mut out: Vec<char> = Vec::new();
    let n = s.len();
    let mut i: usize = 0;
    proof {
        assert(s@.skip(0) =~= s@);
        assert(Seq::<char>::empty() + replace_spec(s@, pat@, rep@) =~= replace_spec(
            s@,
            pat@,
            rep@,
        ));
    }
    while i < n
        invariant
            i <= n,
            n == s@.len(),
            pat@.len() > 0,
            replace_spec(s@, pat@, rep@) == out@ + replace_spec(s@.skip(i as int), pat@, rep@),
        decreases n - i,
    {
        let ghost pre = out@;
        let ghost suf = s@.skip(i as int);
        if matches_at(s, i, pat) {
            proof {
                assert(suf.subrange(0, pat@.len() as int) =~= s@.subrange(
                    i as int,
                    i + pat@.len(),
                ));
                assert(match_at(suf, 0, pat@));
            }
            append_copy(&mut out, rep);
            i = i + pat.len();
            proof {
                assert(suf.skip(pat@.len() as int) =~= s@.skip(i as int));
                assert(replace_spec(suf, pat@, rep@) == rep@ + replace_spec(
                    s@.skip(i as int),
                    pat@,
                    rep@,
                ));
                assert(pre + (rep@ + replace_spec(s@.skip(i as int), pat@, rep@)) =~= (pre + rep@)
                    + replace_spec(s@.skip(i as int), pat@, rep@));
            }
        } else {
            proof {
                if match_at(suf, 0, pat@) {
                    assert(suf.subrange(0, pat@.len() as int) =~= s@.subrange(
                        i as int,
                        i + pat@.len(),
                    ));
                    assert(match_at(s@, i as int, pat@));
                }
                assert(!match_at(suf, 0, pat@));
            }
            out.push(s[i]);
            i = i + 1;
            proof {
                assert(suf.skip(1) =~= s@.skip(i as int));
                assert(replace_spec(suf, pat@, rep@) == seq![suf[0]] + replace_spec(
                    s@.skip(i as int),
                    pat@,
                    rep@,
                ));
                assert(pre + (seq![suf[0]] + replace_spec(s@.skip(i as int), pat@, rep@)) =~= (pre
                    + seq![suf[0]]) + replace_spec(s@.skip(i as int), pat@, rep@));
                assert(out@ =~= pre + seq![suf[0]]);
            }
        }
    }
    proof {
        assert(s@.skip(n as int) =~= Seq::<char>::empty());
        assert(out@ + Seq::<char>::empty() =~= out@);
    }
    out
}

/// A replacement pass introduces no character that is in neither the input
/// nor the replacement string.
pub proof fn lemma_replace_chars(s: Seq<char>, pat: Seq<char>, rep: Seq<char>, c: char)
    requires
        !s.contains(c),
        !rep.contains(c),
    ensures
        !replace_spec(s, pat, rep).contains(c),
    decreases s.len(),
{
    if s.len() == 0 {
    } else if pat.len() > 0 && match_at(s, 0, pat) {
        assert(forall|k: int| 0 <= k < s.skip(pat.len() as int).len() ==> s.skip(
            pat.len() as int,
        )[k] == s[k + pat.len()]);
        assert(!s.skip(pat.len() as int).contains(c));
        lemma_replace_chars(s.skip(pat.len() as int), pat, rep, c);
        assert forall|k: int|
            0 <= k < replace_spec(s, pat, rep).len() implies replace_spec(s, pat, rep)[k]
            != c by {
            if k < rep.len() {
                assert(rep[k] != c);
            }
        }
    } else {
        assert(forall|k: int| 0 <= k < s.skip(1).len() ==> s.skip(1)[k] == s[k + 1]);
        assert(!s.skip(1).contains(c));
        lemma_replace_chars(s.skip(1), pat, rep, c);
        assert(s[0] != c);
        assert forall|k: int|
            0 <= k < replace_spec(s, pat, rep).len() implies replace_spec(s, pat, rep)[k]
            != c by {}
    }
}

} // verus!
