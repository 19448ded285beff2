//! The verbatim tracker: a stack of the currently open verbatim tag names.
//! An opening verbatim tag pushes its name even when a tag of that name is
//! already open (same-name nesting); a closing tag pops only when its name
//! equals the top of the stack, and is ignored otherwise.  Text is
//! suppressed exactly while the stack is non-empty.

use crate::classes::{match_at, matches_at};
use crate::tokenize::{find_char, find_char_exec, lemma_find_char};
use vstd::prelude::*;

verus! {

/// The fixed closed set of verbatim tag names.
pub open spec fn verbatim_names() -> Seq<Seq<char>> {
    seq![
        seq!['p', 'r', 'e'],
        seq!['s', 'a', 'm', 'p'],
        seq!['c', 'o', 'd', 'e'],
        seq!['t', 't'],
        seq!['k', 'b', 'd'],
        seq!['s', 'c', 'r', 'i', 'p', 't'],
        seq!['s', 't', 'y', 'l', 'e'],
        seq!['m', 'a', 't', 'h'],
    ]
}

/// The verbatim name that occurs at `q`, as an index into the table; the
/// names are prefix-free, so at most one can occur.
pub open spec fn name_at(s: Seq<char>, q: int) -> Option<usize> {
    if match_at(s, q, verbatim_names()[0]) {
        Some(0usize)
    } else if match_at(s, q, verbatim_names()[1]) {
        Some(1usize)
    } else if match_at(s, q, verbatim_names()[2]) {
        Some(2usize)
    } else if match_at(s, q, verbatim_names()[3]) {
        Some(3usize)
    } else if match_at(s, q, verbatim_names()[4]) {
        Some(4usize)
    } else if match_at(s, q, verbatim_names()[5]) {
        Some(5usize)
    } else if match_at(s, q, verbatim_names()[6]) {
        Some(6usize)
    } else if match_at(s, q, verbatim_names()[7]) {
        Some(7usize)
    } else {
        None
    }
}

/// The verbatim-tag match that begins exactly at `p`: a `<`, an optional
/// `/`, a verbatim name, then anything up to a `>`.  The result is whether
/// the tag closes, and the name.
pub open spec fn skip_match_at(s: Seq<char>, p: int) -> Option<(bool, usize)> {
    if 0 <= p < s.len() && s[p] == '<' {
        let closing = p + 1 < s.len() && s[p + 1] == '/';
        let q: int = if closing {
            p + 2
        } else {
            p + 1
        };
        match name_at(s, q) {
            None => None,
            Some(nm) => {
                if find_char(s, '>', q + verbatim_names()[nm as int].len()) is Some {
                    Some((closing, nm))
                } else {
                    None
                }
            },
        }
    } else {
        None
    }
}

/// The first verbatim-tag match in `s` at or after `p`.
pub open spec fn skip_scan(s: Seq<char>, p: int) -> Option<(bool, usize)>
    decreases s.len() - p,
{
    if p < 0 || p >= s.len() {
        None
    } else if skip_match_at(s, p) is Some {
        skip_match_at(s, p)
    } else {
        skip_scan(s, p + 1)
    }
}

/// The verbatim stack after one markup token.
pub open spec fn step_markup(stack: Seq<usize>, m: Seq<char>) -> Seq<usize> {
    match skip_scan(m, 0) {
        None => stack,
        Some((closing, nm)) => {
            if !closing {
                stack.push(nm)
            } else if stack.len() > 0 && stack.last() == nm {
                stack.drop_last()
            } else {
                stack
            }
        },
    }
}

fn name_vec(i: usize) -> (v: Vec<char>)
    requires
        i < 8,
    ensures
        v@ == verbatim_names()[i as int],
{
    let mut v: Vec<char> = Vec::new();
    if i == 0 {
        v.push('p');
        v.push('r');
        v.push('e');
    } else if i == 1 {
        v.push('s');
        v.push('a');
        v.push('m');
        v.push('p');
    } else if i == 2 {
        v.push('c');
        v.push('o');
        v.push('d');
        v.push('e');
    } else if i == 3 {
        v.push('t');
        v.push('t');
    } else if i == 4 {
        v.push('k');
        v.push('b');
        v.push('d');
    } else if i == 5 {
        v.push('s');
        v.push('c');
        v.push('r');
        v.push('i');
        v.push('p');
        v.push('t');
    } else if i == 6 {
        v.push('s');
        v.push('t');
        v.push('y');
        v.push('l');
        v.push('e');
    } else {
        v.push('m');
        v.push('a');
        v.push('t');
        v.push('h');
    }
    proof {
        assert(v@ =~= verbatim_names()[i as int]);
    }
    v
}

fn name_at_exec(s: &Vec<char>, q: usize) -> (r: Option<usize>)
    ensures
        ({
            let f = name_at(s@, q as int);
            match r {
                Some(nm) => f == Some(nm) && nm < 8,
                None => f is None,
            }
        }),
{
    let mut i: usize = 0;
    while i < 8
        invariant
            i <= 8,
            forall|t: int| 0 <= t < i ==> !match_at(s@, q as int, #[trigger] verbatim_names()[t]),
        decreases 8 - i,
    {
        if matches_at(s, q, &name_vec(i)) {
            proof {
                assert(name_at(s@, q as int) == Some(i));
            }
            return Some(i);
        }
        i = i + 1;
    }
    proof {
        assert(name_at(s@, q as int) is None);
    }
    None
}

fn name_len(i: usize) -> (l: usize)
    requires
        i < 8,
    ensures
        l == verbatim_names()[i as int].len(),
{
    if i == 0 {
        3
    } else if i == 1 {
        4
    } else if i == 2 {
        4
    } else if i == 3 {
        2
    } else if i == 4 {
        3
    } else if i == 5 {
        6
    } else if i == 6 {
        5
    } else {
        4
    }
}

/// Finds the first verbatim-tag match in a markup token.
pub fn skip_find(m: &Vec<char>) -> (r: Option<(bool, usize)>)
    ensures
        r == skip_scan(m@, 0),
        r is Some ==> (r->0).1 < 8,
{
    let n = m.len();
    let mut p: usize = 0;
    while p < n
        invariant
            p <= n,
            n == m@.len(),
            skip_scan(m@, 0) == skip_scan(m@, p as int),
        decreases n - p,
    {
        let ghost p0 = p as int;
        if m[p] == '<' {
            let closing = p + 1 < n && m[p + 1] == '/';
            let q = if closing {
                p + 2
            } else {
                p + 1
            };
            match name_at_exec(m, q) {
                Some(nm) => {
                    proof {
                        assert(match_at(m@, q as int, verbatim_names()[nm as int]));
                    }
                    match find_char_exec(m, '>', q + name_len(nm)) {
                        Some(_g) => {
                            proof {
                                assert(skip_match_at(m@, p0) == Some((closing, nm)));
                                assert(skip_scan(m@, p0) == Some((closing, nm)));
                            }
                            return Some((closing, nm));
                        },
                        None => {
                            proof {
                                assert(skip_match_at(m@, p0) is None);
                            }
                            p = p + 1;
                        },
                    }
                },
                None => {
                    proof {
                        assert(skip_match_at(m@, p0) is None);
                    }
                    p = p + 1;
                },
            }
        } else {
            proof {
                assert(skip_match_at(m@, p0) is None);
            }
            p = p + 1;
        }
    }
    proof {
        assert(skip_scan(m@, n as int) is None);
    }
    None
}

/// Applies one markup token to the verbatim stack.
pub fn update_stack(stack: &mut Vec<usize>, m: &Vec<char>)
    ensures
        final(stack)@ == step_markup(old(stack)@, m@),
{
    match skip_find(m) {
        None => {},
        Some((closing, nm)) => {
            if !closing {
                stack.push(nm);
            } else {
                if stack.len() > 0 && stack[stack.len() - 1] == nm {
                    let _ = stack.pop();
                    proof {
                        assert(stack@ =~= old(stack)@.drop_last());
                    }
                }
            }
        },
    }
}

} // verus!
