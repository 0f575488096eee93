//! How deeply a Cedar policy text may nest.
//!
//! Cedar's parser turns a policy text into a tree by recursion, one level per nested
//! expression, with no bound of its own: a text that nests deep enough overflows the
//! stack and aborts the process. A nested expression opens with `(`, `[` or `{`, or with the
//! keyword `if`; counting every such opening (and every `if` inside a longer word) bounds
//! the depth, and texts within `MAX_POLICY_NESTING` of them are the ones handed to it.
use vstd::prelude::*;

verus! {

/// The most openings of nested expressions a policy text may hold. A text at this limit
/// parses within the 2 MiB stack a spawned thread gets by default, even without
/// optimizations; twice as deep a nesting of parentheses overflows it.
pub const MAX_POLICY_NESTING: usize = 24;

/// Position `i` of `s` opens a nested expression: a `(`, `[` or `{`, or the `f` of `if`.
pub open spec fn opens_nesting(s: Seq<char>, i: int) -> bool {
    ||| s[i] == '('
    ||| s[i] == '['
    ||| s[i] == '{'
    ||| (s[i] == 'f' && i > 0 && s[i - 1] == 'i')
}

/// The number of positions of `s` that open a nested expression.
pub open spec fn nesting_openings(s: Seq<char>) -> nat
    decreases s.len(),
{
    if s.len() == 0 {
        0
    } else {
        nesting_openings(s.drop_last()) + if opens_nesting(s, s.len() - 1) {
            1nat
        } else {
            0nat
        }
    }
}

/// A text shallow enough for Cedar's parser.
pub open spec fn nesting_within_limit(s: Seq<char>) -> bool {
    nesting_openings(s) <= MAX_POLICY_NESTING
}

/// Whether `src` is shallow enough for Cedar's parser.
pub fn policy_text_within_limit(src: &str) -> (ok: bool)
    ensures
        ok == nesting_within_limit(src@),
{
    // Counts openings up to one past the limit.
    let mut count: usize = 0;
    let mut prev: char = ' ';
    let ghost mut seen: Seq<char> = Seq::empty();
    for c in it: src.chars()
        invariant
            it.seq() == src@,
            seen == src@.take(it.index() as int),
            count == if nesting_openings(seen) <= MAX_POLICY_NESTING {
                nesting_openings(seen) as int
            } else {
                MAX_POLICY_NESTING + 1
            },
            seen.len() > 0 ==> prev == seen.last(),
            seen.len() == 0 ==> prev == ' ',
    {
        let opens = c == '(' || c == '[' || c == '{' || (c == 'f' && prev == 'i');
        proof {
            let next = src@.take(it.index() + 1);
            assert(next.drop_last() =~= seen);
            assert(next.last() == c);
            if seen.len() > 0 {
                assert(next[next.len() - 2] == seen.last());
            }
            assert(opens == opens_nesting(next, next.len() - 1));
            seen = next;
        }
        if opens && count <= MAX_POLICY_NESTING {
            count = count + 1;
        }
        prev = c;
    }
    proof {
        assert(seen =~= src@);
    }
    count <= MAX_POLICY_NESTING
}

} // verus!
