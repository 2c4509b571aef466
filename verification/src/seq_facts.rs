//! Facts about sequences used by the graph searches.
use vstd::prelude::*;

verus! {

/// A sequence without repeated elements whose elements all occur in `u` is
/// no longer than `u`.
pub proof fn lemma_distinct_within(s: Seq<u128>, u: Seq<u128>)
    requires
        s.no_duplicates(),
        forall|i: int| 0 <= i < s.len() ==> u.contains(s[i]),
    ensures
        s.len() <= u.len(),
    decreases s.len(),
{
    if s.len() > 0 {
        let x = s.last();
        let j = choose|j: int| 0 <= j < u.len() && u[j] == x;
        let u2 = u.remove(j);
        let s2 = s.drop_last();
        assert forall|i: int| 0 <= i < s2.len() implies u2.contains(s2[i]) by {
            let y = s2[i];
            assert(y == s[i]);
            assert(y != x);
            let m = choose|m: int| 0 <= m < u.len() && u[m] == y;
            if m < j {
                assert(u2[m] == y);
            } else {
                assert(m > j);
                assert(u2[m - 1] == y);
            }
        }
        assert(s2.no_duplicates());
        lemma_distinct_within(s2, u2);
    }
}

} // verus!
