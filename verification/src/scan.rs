//! Scanning a sequence of characters up to the first one of a given class.

use vstd::prelude::*;

verus! {

/// The number of characters at the front of `s` before the first one that
/// satisfies `stop`; the whole length of `s` where none does.
pub open spec fn run_len(s: Seq<char>, stop: spec_fn(char) -> bool) -> nat
    decreases s.len(),
{
    if s.len() == 0 || stop(s[0]) {
        0
    } else {
        1 + run_len(s.drop_first(), stop)
    }
}

/// `run_len` stays within `s`, passes over no stopping character, and ends on
/// one unless it reaches the end of `s`.
pub proof fn lemma_run_len(s: Seq<char>, stop: spec_fn(char) -> bool)
    ensures
        run_len(s, stop) <= s.len(),
        forall|j: int| 0 <= j < run_len(s, stop) ==> !stop(#[trigger] s[j]),
        run_len(s, stop) < s.len() ==> stop(s[run_len(s, stop) as int]),
    decreases s.len(),
{
    if s.len() != 0 && !stop(s[0]) {
        let rest = s.drop_first();
        lemma_run_len(rest, stop);
        assert forall|j: int| 0 <= j < run_len(s, stop) implies !stop(#[trigger] s[j]) by {
            if j > 0 {
                assert(s[j] == rest[j - 1]);
            }
        }
    }
}

/// A position that no stopping character precedes, and that holds one or is
/// the end of `s`, is the one that `run_len` finds.
pub proof fn lemma_run_len_is(s: Seq<char>, stop: spec_fn(char) -> bool, n: int)
    requires
        0 <= n <= s.len(),
        forall|j: int| 0 <= j < n ==> !stop(#[trigger] s[j]),
        n < s.len() ==> stop(s[n]),
    ensures
        run_len(s, stop) == n,
    decreases s.len(),
{
    if n > 0 {
        lemma_run_len_is(s.drop_first(), stop, n - 1);
    }
}

} // verus!
