//! First-match search over sequences, shared by the engine and the test
//! double for resolving entities by name, identifier or address.

use vstd::prelude::*;

verus! {

/// Index of the first element of `s` satisfying `pred`, or `-1` if none does.
pub open spec fn find_idx<T>(s: Seq<T>, pred: spec_fn(T) -> bool) -> int
    decreases s.len(),
{
    if s.len() == 0 {
        -1
    } else {
        let r = find_idx(s.drop_last(), pred);
        if r >= 0 {
            r
        } else if pred(s.last()) {
            s.len() - 1
        } else {
            -1
        }
    }
}

/// Once a prefix of `s` holds a match, the whole sequence finds the same
/// first match.
pub proof fn lemma_find_idx_extends<T>(s: Seq<T>, pred: spec_fn(T) -> bool, m: int)
    requires
        0 <= m <= s.len(),
        find_idx(s.subrange(0, m), pred) >= 0,
    ensures
        find_idx(s, pred) == find_idx(s.subrange(0, m), pred),
    decreases s.len() - m,
{
    if m == s.len() {
        assert(s.subrange(0, m) =~= s);
    } else {
        assert(s.subrange(0, m + 1).drop_last() =~= s.subrange(0, m));
        lemma_find_idx_extends(s, pred, m + 1);
    }
}

} // verus!
