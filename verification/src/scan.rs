//! Runs: how far a sequence goes on with items of one kind.

use vstd::prelude::*;

verus! {

/// How many items of `s` stand before the first that `keep` does not hold
/// of: all of them, where it holds of every item.
pub open spec fn run_len<T>(s: Seq<T>, keep: spec_fn(T) -> bool) -> nat
    decreases s.len(),
{
    if s.len() > 0 && keep(s[0]) {
        1 + run_len(s.drop_first(), keep)
    } else {
        0
    }
}

/// A run ends at the first item that is not kept or, failing one, where the
/// sequence ends.
pub proof fn lemma_run_ends<T>(s: Seq<T>, keep: spec_fn(T) -> bool, n: int)
    requires
        0 <= n <= s.len(),
        forall|j: int| 0 <= j < n ==> keep(#[trigger] s[j]),
        n == s.len() || !keep(s[n]),
    ensures
        run_len(s, keep) == n,
    decreases s.len(),
{
    if n > 0 {
        let rest = s.drop_first();
        assert forall|j: int| 0 <= j < n - 1 implies keep(#[trigger] rest[j]) by {
            assert(rest[j] == s[j + 1]);
        }
        assert(keep(s[0]));
        lemma_run_ends(rest, keep, n - 1);
    }
}

/// A run lies inside its sequence, all its items are kept, and the item
/// after it, if there is one, is not.
pub proof fn lemma_run<T>(s: Seq<T>, keep: spec_fn(T) -> bool)
    ensures
        run_len(s, keep) <= s.len(),
        forall|j: int| 0 <= j < run_len(s, keep) ==> keep(#[trigger] s[j]),
        run_len(s, keep) < s.len() ==> !keep(s[run_len(s, keep) as int]),
    decreases s.len(),
{
    if s.len() > 0 && keep(s[0]) {
        let rest = s.drop_first();
        lemma_run(rest, keep);
        assert forall|j: int| 0 <= j < run_len(s, keep) implies keep(#[trigger] s[j]) by {
            if j > 0 {
                assert(rest[j - 1] == s[j]);
            }
        }
        if run_len(s, keep) < s.len() {
            assert(rest[run_len(rest, keep) as int] == s[run_len(s, keep) as int]);
        }
    }
}

} // verus!
