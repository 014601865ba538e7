//! Operations on slices that the containers are built from.

use vstd::prelude::*;

verus! {

/// The sequence `s` with the elements at `a` and `b` exchanged.
pub open spec fn swapped<T>(s: Seq<T>, a: int, b: int) -> Seq<T>
    recommends
        0 <= a < s.len(),
        0 <= b < s.len(),
{
    s.update(a, s[b]).update(b, s[a])
}

/// `swap` of std's slices: exchanges the elements at the two indices and
/// leaves the others alone. Both indices must be in bounds.
#[verifier::external_body]
pub(crate) fn swap<T>(v: &mut [T], a: usize, b: usize)
    requires
        a < old(v)@.len(),
        b < old(v)@.len(),
    ensures
        final(v)@ == swapped(old(v)@, a as int, b as int),
{
    v.swap(a, b)
}

/// Exchanging two elements keeps the length and the multiset of elements.
pub proof fn lemma_swapped<T>(s: Seq<T>, a: int, b: int)
    requires
        0 <= a < s.len(),
        0 <= b < s.len(),
    ensures
        swapped(s, a, b).len() == s.len(),
        swapped(s, a, b).to_multiset() == s.to_multiset(),
{
    broadcast use vstd::seq_lib::to_multiset_update;
    let t = s.update(a, s[b]);
    assert(t.to_multiset() =~= s.to_multiset().insert(s[b]).remove(s[a]));
    assert(swapped(s, a, b).to_multiset() =~= t.to_multiset().insert(s[a]).remove(t[b]));
    s.to_multiset_ensures();
    assert(s.to_multiset().count(s[a]) > 0);
    assert(s.to_multiset().count(s[b]) > 0);
    assert(swapped(s, a, b).to_multiset() =~= s.to_multiset());
}

} // verus!
