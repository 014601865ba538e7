//! A priority queue kept as a binary max-heap in a growable array.

use crate::heap::Heap;
use crate::mem::Allocator;
use crate::order::{ge, greater, gt, is_total_order, lemma_ge_refl, lemma_ge_trans, lemma_gt_implies_ge};
use crate::slice::{lemma_swapped, swap, swapped};
use crate::vec::{capacity_after_push, fits, grown, len_after_pop, len_after_push, Vec};
use vstd::prelude::*;

verus! {

/// The element at `p` is not smaller than either of its children, as far as
/// they lie below `end`. The children of `p` are at `2p + 1` and `2p + 2`.
pub open spec fn dominates<T: Ord>(s: Seq<T>, p: int, end: int) -> bool {
    &&& 2 * p + 1 < end ==> ge(s[p], s[2 * p + 1])
    &&& 2 * p + 2 < end ==> ge(s[p], s[2 * p + 2])
}

/// Every element from `start` on dominates its children below `end`.
pub open spec fn is_heap_range<T: Ord>(s: Seq<T>, start: int, end: int) -> bool {
    forall|p: int| start <= p < end ==> #[trigger] dominates(s, p, end)
}

/// The whole sequence is in max-heap order.
pub open spec fn is_max_heap<T: Ord>(s: Seq<T>) -> bool {
    is_heap_range(s, 0, s.len() as int)
}

/// No element is smaller than one before it.
pub open spec fn is_ascending<T: Ord>(s: Seq<T>) -> bool {
    forall|i: int, j: int| 0 <= i <= j < s.len() ==> ge(#[trigger] s[j], #[trigger] s[i])
}

/// `t` holds the elements of `s` with those below `end` rearranged and the
/// others in place.
spec fn permuted_below<T>(s: Seq<T>, t: Seq<T>, end: int) -> bool {
    &&& t.len() == s.len()
    &&& t.subrange(0, end).to_multiset() == s.subrange(0, end).to_multiset()
    &&& forall|i: int| end <= i < s.len() ==> t[i] == s[i]
}

/// The arrangement after the element at `pos` has moved up: it changes
/// places with its parent as long as it is strictly greater than the parent
/// and lies after `start`. An element equal to its parent stays.
pub open spec fn sifted_up<T: Ord>(s: Seq<T>, start: int, pos: int) -> Seq<T>
    decreases pos,
{
    if start < pos && 0 < pos && gt(s[pos], s[(pos - 1) / 2]) {
        sifted_up(swapped(s, (pos - 1) / 2, pos), start, (pos - 1) / 2)
    } else {
        s
    }
}

/// The child of `pos` that a descent below `end` goes to: the right one
/// where it exists and the left one is not strictly greater, else the left.
pub open spec fn greater_child<T: Ord>(s: Seq<T>, pos: int, end: int) -> int {
    if 2 * pos + 2 < end && !gt(s[2 * pos + 1], s[2 * pos + 2]) {
        2 * pos + 2
    } else {
        2 * pos + 1
    }
}

/// The arrangement after the element at `pos` has moved down to a leaf below
/// `end`, changing places with the greater child at each step, and the leaf
/// it has come to.
pub open spec fn descended<T: Ord>(s: Seq<T>, pos: int, end: int) -> (Seq<T>, int)
    decreases end - pos,
{
    if 0 <= pos && 2 * pos + 1 < end {
        let child = greater_child(s, pos, end);
        descended(swapped(s, child, pos), child, end)
    } else {
        (s, pos)
    }
}

/// The arrangement after the element at `pos` has been sifted down below
/// `end`: all the way down, then back up as far as it is strictly greater
/// than its parent, but not above `pos`.
pub open spec fn sifted_down<T: Ord>(s: Seq<T>, pos: int, end: int) -> Seq<T> {
    let d = descended(s, pos, end);
    sifted_up(d.0, pos, d.1)
}

/// The arrangement after `item` has been added to the heap `s`.
pub open spec fn pushed<T: Ord>(s: Seq<T>, item: T) -> Seq<T> {
    sifted_up(s.push(item), 0, s.len() as int)
}

/// The arrangement after the first element has been taken from the
/// non-empty heap `s`: the last element takes its place and is sifted down.
pub open spec fn popped<T: Ord>(s: Seq<T>) -> Seq<T> {
    if s.len() <= 1 {
        Seq::empty()
    } else {
        sifted_down(s.drop_last().update(0, s.last()), 0, s.len() - 1)
    }
}

/// The arrangement after the elements before `n` have been sifted down, the
/// last of them first.
pub open spec fn heapified<T: Ord>(s: Seq<T>, n: int) -> Seq<T>
    decreases n,
{
    if n <= 0 {
        s
    } else {
        heapified(sifted_down(s, n - 1, s.len() as int), n - 1)
    }
}

/// The arrangement after the heap below `end` has been sorted in place: the
/// first element changes places with the last below `end`, the rest is made
/// a heap again, and so on down to one element.
pub open spec fn heap_sorted<T: Ord>(s: Seq<T>, end: int) -> Seq<T>
    decreases end,
{
    if end <= 1 {
        s
    } else {
        heap_sorted(sifted_down(swapped(s, 0, end - 1), 0, end - 1), end - 1)
    }
}

/// Like `dominates`, but nothing is said of the child at `hole`.
spec fn dominates_except<T: Ord>(s: Seq<T>, p: int, end: int, hole: int) -> bool {
    &&& 2 * p + 1 < end && 2 * p + 1 != hole ==> ge(s[p], s[2 * p + 1])
    &&& 2 * p + 2 < end && 2 * p + 2 != hole ==> ge(s[p], s[2 * p + 2])
}

/// Heap order from `start` on, but for the link between `hole` and its parent.
spec fn heap_except<T: Ord>(s: Seq<T>, start: int, end: int, hole: int) -> bool {
    forall|p: int| start <= p < end ==> #[trigger] dominates_except(s, p, end, hole)
}

/// Heap order from `start` on, but for the links of `hole` to its parent and
/// to its children.
spec fn heap_around<T: Ord>(s: Seq<T>, start: int, end: int, hole: int) -> bool {
    forall|p: int| start <= p < end && p != hole ==> #[trigger] dominates_except(s, p, end, hole)
}

/// The parent of `hole`, where it lies at or after `start`, is not smaller
/// than the children of `hole`.
spec fn parent_covers<T: Ord>(s: Seq<T>, start: int, end: int, hole: int) -> bool {
    hole > start ==> {
        let g = (hole - 1) / 2;
        &&& 2 * hole + 1 < end ==> ge(s[g], s[2 * hole + 1])
        &&& 2 * hole + 2 < end ==> ge(s[g], s[2 * hole + 2])
    }
}

/// `pos` is `root` or lies below it in the tree.
spec fn in_subtree(root: int, pos: int) -> bool
    decreases pos,
{
    if pos <= root || pos <= 0 {
        pos == root
    } else {
        in_subtree(root, (pos - 1) / 2)
    }
}

/// Every index lies in the tree rooted at 0.
proof fn lemma_in_tree(pos: int)
    requires
        0 <= pos,
    ensures
        in_subtree(0, pos),
    decreases pos,
{
    if pos > 0 {
        lemma_in_tree((pos - 1) / 2);
    }
}

/// The parent of an index strictly below `root` in the tree lies in the tree
/// too, at or after `root`.
proof fn lemma_parent_in_subtree(root: int, pos: int)
    requires
        0 <= root < pos,
        in_subtree(root, pos),
    ensures
        in_subtree(root, (pos - 1) / 2),
        root <= (pos - 1) / 2,
{
    reveal_with_fuel(in_subtree, 3);
}

/// Heap order but for the link above `hole` is heap order, once that link
/// is in order or `hole` is where the range starts.
proof fn lemma_heap_closed<T: Ord>(s: Seq<T>, start: int, end: int, hole: int)
    requires
        0 <= start <= hole < end <= s.len(),
        heap_except(s, start, end, hole),
        hole == start || ge(s[(hole - 1) / 2], s[hole]),
    ensures
        is_heap_range(s, start, end),
{
    assert forall|p: int| start <= p < end implies #[trigger] dominates(s, p, end) by {
        assert(dominates_except(s, p, end, hole));
    }
}

/// Exchanging two elements below `end` rearranges the elements below `end`.
proof fn lemma_swap_permutes<T>(s: Seq<T>, a: int, b: int, end: int)
    requires
        0 <= a < end <= s.len(),
        0 <= b < end,
    ensures
        permuted_below(s, swapped(s, a, b), end),
{
    lemma_swapped(s.subrange(0, end), a, b);
    assert(swapped(s, a, b).subrange(0, end) =~= swapped(s.subrange(0, end), a, b));
}

/// A rearrangement below `end` keeps the multiset of all elements.
proof fn lemma_permuted_whole<T>(s: Seq<T>, t: Seq<T>, end: int)
    requires
        0 <= end <= s.len(),
        permuted_below(s, t, end),
    ensures
        t.to_multiset() == s.to_multiset(),
{
    vstd::seq_lib::lemma_multiset_commutative(s.subrange(0, end), s.subrange(end, s.len() as int));
    vstd::seq_lib::lemma_multiset_commutative(t.subrange(0, end), t.subrange(end, t.len() as int));
    assert(s =~= s.subrange(0, end) + s.subrange(end, s.len() as int));
    assert(t =~= t.subrange(0, end) + t.subrange(end, t.len() as int));
    assert(t.subrange(end, t.len() as int) =~= s.subrange(end, s.len() as int));
}

/// After a rearrangement below `end`, each element below `end` was below
/// `end` before.
proof fn lemma_permuted_source<T>(s: Seq<T>, t: Seq<T>, end: int, i: int) -> (j: int)
    requires
        0 <= i < end <= s.len(),
        permuted_below(s, t, end),
    ensures
        0 <= j < end,
        s[j] == t[i],
{
    let ts = t.subrange(0, end);
    let ss = s.subrange(0, end);
    ts.to_multiset_ensures();
    ss.to_multiset_ensures();
    assert(ts[i] == t[i]);
    assert(ts.contains(t[i]));
    assert(ss.to_multiset().count(t[i]) > 0);
    assert(ss.contains(t[i]));
    let j = choose|j: int| 0 <= j < ss.len() && ss[j] == t[i];
    assert(ss[j] == s[j]);
    j
}

/// In a max-heap no element is greater than the first.
pub proof fn lemma_root_is_max<T: Ord>(s: Seq<T>, end: int, i: int)
    requires
        is_total_order::<T>(),
        0 <= i < end <= s.len(),
        is_heap_range(s, 0, end),
    ensures
        ge(s[0], s[i]),
    decreases i,
{
    if i == 0 {
        lemma_ge_refl(s[0]);
    } else {
        let p = (i - 1) / 2;
        lemma_root_is_max(s, end, p);
        assert(dominates(s, p, end));
        lemma_ge_trans(s[0], s[p], s[i]);
    }
}

/// A priority queue: the greatest element is always at the front.
pub struct PriorityQueue<T, A: Allocator = Heap> {
    data: Vec<T, A>,
}

impl<T, A: Allocator> PriorityQueue<T, A> {
    /// The elements in their heap arrangement.
    pub closed spec fn view(&self) -> Seq<T> {
        self.data@
    }

    /// The capacity of the underlying array.
    pub closed spec fn spec_capacity(&self) -> nat {
        self.data.spec_capacity()
    }

    /// The underlying array.
    pub closed spec fn spec_data(&self) -> Vec<T, A> {
        self.data
    }

    /// The number of elements.
    pub fn len(&self) -> (r: usize)
        ensures
            r == self@.len(),
    {
        self.data.len()
    }
}

impl<T: Ord> PriorityQueue<T, Heap> {
    /// An empty queue with no storage, on the default backend.
    pub fn new() -> (r: PriorityQueue<T, Heap>)
        ensures
            r.wf(),
            r@ == Seq::<T>::empty(),
            r.spec_capacity() == 0,
    {
        PriorityQueue::with_alloc(Heap)
    }

    /// An empty queue with storage for `capacity` elements, on the default
    /// backend.
    pub fn with_capacity(capacity: usize) -> (r: PriorityQueue<T, Heap>)
        requires
            fits::<T>(capacity as nat),
        ensures
            r.wf(),
            r@ == Seq::<T>::empty(),
            r.spec_capacity() == capacity,
    {
        PriorityQueue::with_alloc_capacity(Heap, capacity)
    }
}

impl<T: Ord, A: Allocator> PriorityQueue<T, A> {
    /// The invariant: the underlying array is well formed and in max-heap
    /// order.
    pub closed spec fn wf(&self) -> bool {
        &&& self.data.wf()
        &&& is_max_heap(self.data@)
    }

    /// What the invariant says, for callers.
    pub proof fn lemma_wf(&self)
        requires
            self.wf(),
        ensures
            is_max_heap(self@),
            self.spec_data().wf(),
            self.spec_data()@ == self@,
            self.spec_data().spec_capacity() == self.spec_capacity(),
            self@.len() <= self.spec_capacity(),
    {
        self.data.lemma_wf();
    }

    /// The number of elements for which storage is reserved.
    pub fn capacity(&self) -> (r: usize)
        ensures
            r == self.spec_capacity(),
    {
        self.data.capacity()
    }

    /// Makes the capacity at least `n`, when `n` is no less than the length;
    /// otherwise nothing changes.
    pub fn reserve(&mut self, n: usize)
        requires
            old(self).wf(),
            n >= old(self)@.len() ==> fits::<T>(n as nat),
        ensures
            final(self).wf(),
            final(self)@ == old(self)@,
            final(self).spec_capacity() == if n >= old(self)@.len() && n > old(
                self,
            ).spec_capacity() {
                n as nat
            } else {
                old(self).spec_capacity()
            },
    {
        self.data.reserve(n)
    }

    /// The greatest element, or `None` when the queue is empty.
    pub fn top(&self) -> (r: Option<&T>)
        requires
            self.wf(),
        ensures
            self@.len() == 0 ==> r.is_none(),
            self@.len() > 0 ==> r == Some(&self@[0]),
            is_total_order::<T>() ==> forall|i: int|
                0 <= i < self@.len() ==> ge(self@[0], #[trigger] self@[i]),
    {
        proof {
            if is_total_order::<T>() {
                assert forall|i: int| 0 <= i < self@.len() implies ge(
                    self@[0],
                    #[trigger] self@[i],
                ) by {
                    lemma_root_is_max(self@, self@.len() as int, i);
                }
            }
        }
        if self.len() == 0 {
            None
        } else {
            Some(&self.data.as_slice()[0])
        }
    }

    /// Adds `item`: it is appended and then moved up while it is strictly
    /// greater than its parent. The capacity grows as the array's does.
    pub fn push(&mut self, item: T)
        requires
            is_total_order::<T>(),
            old(self).wf(),
            old(self)@.len() == old(self).spec_capacity() ==> grown(old(self).spec_capacity())
                <= usize::MAX && fits::<T>(grown(old(self).spec_capacity())),
        ensures
            final(self).wf(),
            is_max_heap(final(self)@),
            final(self)@ == pushed(old(self)@, item),
            final(self)@.len() == len_after_push(old(self)@.len()),
            final(self)@.to_multiset() == old(self)@.to_multiset().insert(item),
            final(self).spec_capacity() == capacity_after_push(
                old(self)@.len(),
                old(self).spec_capacity(),
            ),
            final(self).spec_capacity() >= old(self).spec_capacity(),
    {
        let ghost s = self.data@;
        self.data.push(item);
        let new_len: usize = self.len() - 1;
        proof {
            let t = self.data@;
            lemma_in_tree(new_len as int);
            assert forall|p: int| 0 <= p < t.len() implies #[trigger] dominates_except(
                t,
                p,
                t.len() as int,
                new_len as int,
            ) by {
                assert(dominates(s, p, s.len() as int));
            }
            vstd::seq_lib::to_multiset_build(s, item);
        }
        let ghost t = self.data@;
        self.siftup(0, new_len, Ghost(t.len() as int));
        proof {
            lemma_permuted_whole(t, self.data@, t.len() as int);
        }
    }

    /// Removes and returns the greatest element, or returns `None` and
    /// changes nothing when the queue is empty. The capacity stays.
    pub fn pop(&mut self) -> (r: Option<T>)
        requires
            is_total_order::<T>(),
            old(self).wf(),
        ensures
            final(self).wf(),
            is_max_heap(final(self)@),
            final(self).spec_capacity() == old(self).spec_capacity(),
            old(self)@.len() == 0 ==> r.is_none() && final(self)@ == old(self)@,
            old(self)@.len() > 0 ==> {
                &&& r == Some(old(self)@[0])
                &&& final(self)@ == popped(old(self)@)
                &&& final(self)@.len() == len_after_pop(old(self)@.len())
                &&& final(self)@.to_multiset() == old(self)@.to_multiset().remove(old(self)@[0])
                &&& forall|i: int| 0 <= i < old(self)@.len() ==> ge(old(self)@[0], old(self)@[i])
            },
    {
        let ghost s = self.data@;
        match self.data.pop() {
            None => None,
            Some(last) => {
                let mut item = last;
                let ghost s1 = self.data@;
                proof {
                    assert(s =~= s1.push(last));
                    vstd::seq_lib::to_multiset_build(s1, last);
                    assert forall|i: int| 0 <= i < s.len() implies ge(s[0], s[i]) by {
                        lemma_root_is_max(s, s.len() as int, i);
                    }
                }
                if self.len() != 0 {
                    match self.data.as_mut_slice().first_mut() {
                        Some(root) => core::mem::swap(&mut item, root),
                        None => {},
                    }
                    let ghost s2 = self.data@;
                    proof {
                        assert(s1 == s.drop_last());
                        assert(s2 == s1.update(0, last));
                        vstd::seq_lib::to_multiset_update(s1, 0, last);
                        assert(s2.to_multiset() =~= s.to_multiset().remove(s[0]));
                        assert forall|p: int| 1 <= p < s2.len() implies #[trigger] dominates(
                            s2,
                            p,
                            s2.len() as int,
                        ) by {
                            assert(dominates(s, p, s.len() as int));
                        }
                    }
                    self.siftdown(0);
                    proof {
                        lemma_permuted_whole(s2, self.data@, s2.len() as int);
                    }
                } else {
                    proof {
                        assert(s1 =~= Seq::<T>::empty());
                        assert(s1.to_multiset() =~= s.to_multiset().remove(s[0]));
                    }
                }
                Some(item)
            },
        }
    }

    /// The underlying array, in heap arrangement.
    pub fn to_vec(self) -> (r: Vec<T, A>)
        requires
            self.wf(),
        ensures
            r == self.spec_data(),
            r.wf(),
            r@ == self@,
            r.spec_capacity() == self.spec_capacity(),
            is_max_heap(r@),
    {
        self.data
    }

    /// The elements in ascending order, sorted in place: the greatest is
    /// exchanged with the last of the range still to sort, the range shrinks
    /// by one and is made a heap again, until one element is left.
    pub fn to_sorted_vec(self) -> (r: Vec<T, A>)
        requires
            is_total_order::<T>(),
            self.wf(),
        ensures
            r.wf(),
            r.spec_capacity() == self.spec_capacity(),
            r@.len() == self@.len(),
            r@.to_multiset() == self@.to_multiset(),
            is_ascending(r@),
            r@ == heap_sorted(self@, self@.len() as int),
    {
        let mut q = self;
        let mut end: usize = q.len();
        let ghost s0 = q.data@;
        while end > 1
            invariant
                is_total_order::<T>(),
                q.data.wf(),
                q.data.spec_capacity() == self.data.spec_capacity(),
                end <= q.data@.len() == s0.len(),
                q.data@.to_multiset() == s0.to_multiset(),
                is_heap_range(q.data@, 0, end as int),
                heap_sorted(q.data@, end as int) == heap_sorted(s0, s0.len() as int),
                forall|i: int, j: int|
                    0 <= i <= j < q.data@.len() && end <= j ==> ge(
                        #[trigger] q.data@[j],
                        #[trigger] q.data@[i],
                    ),
            decreases end,
        {
            let ghost s = q.data@;
            end -= 1;
            swap(q.data.as_mut_slice(), 0, end);
            let ghost t = q.data@;
            proof {
                lemma_swapped(s, 0, end as int);
                assert forall|p: int| 1 <= p < end implies #[trigger] dominates(
                    t,
                    p,
                    end as int,
                ) by {
                    assert(dominates(s, p, end + 1));
                }
                assert forall|i: int, j: int|
                    0 <= i <= j < t.len() && end <= j implies ge(
                    #[trigger] t[j],
                    #[trigger] t[i],
                ) by {
                    if j == end {
                        let k = if i == 0 {
                            end as int
                        } else if i == end {
                            0
                        } else {
                            i
                        };
                        lemma_root_is_max(s, end + 1, k);
                    } else {
                        let k = if i == 0 {
                            end as int
                        } else if i == end {
                            0
                        } else {
                            i
                        };
                        assert(ge(s[j], s[k]));
                    }
                }
            }
            q.siftdown_range(0, end);
            proof {
                let u = q.data@;
                lemma_permuted_whole(t, u, end as int);
                assert forall|i: int, j: int|
                    0 <= i <= j < u.len() && end <= j implies ge(
                    #[trigger] u[j],
                    #[trigger] u[i],
                ) by {
                    if i < end {
                        let k = lemma_permuted_source(t, u, end as int, i);
                        assert(ge(t[j], t[k]));
                    } else {
                        assert(ge(t[j], t[i]));
                    }
                }
            }
        }
        proof {
            let u = q.data@;
            assert forall|i: int, j: int| 0 <= i <= j < u.len() implies ge(
                #[trigger] u[j],
                #[trigger] u[i],
            ) by {
                if j < end {
                    lemma_ge_refl(u[0]);
                }
            }
        }
        q.data
    }

    /// An empty queue with no storage, on the given allocator.
    pub fn with_alloc(alloc: A) -> (r: PriorityQueue<T, A>)
        ensures
            r.wf(),
            r@ == Seq::<T>::empty(),
            r.spec_capacity() == 0,
    {
        PriorityQueue { data: Vec::with_alloc(alloc) }
    }

    /// An empty queue with storage for `capacity` elements, on the given
    /// allocator.
    pub fn with_alloc_capacity(alloc: A, capacity: usize) -> (r: PriorityQueue<T, A>)
        requires
            fits::<T>(capacity as nat),
        ensures
            r.wf(),
            r@ == Seq::<T>::empty(),
            r.spec_capacity() == capacity,
    {
        PriorityQueue { data: Vec::with_alloc_capacity(alloc, capacity) }
    }

    /// Takes an array in any order and makes it a heap in place: every inner
    /// element is sifted down, from the last one back to the first.
    pub fn from_vec(xs: Vec<T, A>) -> (r: PriorityQueue<T, A>)
        requires
            is_total_order::<T>(),
            xs.wf(),
        ensures
            r.wf(),
            is_max_heap(r@),
            r@ == heapified(xs@, xs@.len() as int / 2),
            r@.len() == xs@.len(),
            r@.to_multiset() == xs@.to_multiset(),
            r.spec_capacity() == xs.spec_capacity(),
    {
        let mut q = PriorityQueue { data: xs };
        let mut n: usize = q.len() / 2;
        proof {
            assert forall|p: int| n <= p < q.data@.len() implies #[trigger] dominates(
                q.data@,
                p,
                q.data@.len() as int,
            ) by {
            }
        }
        while n > 0
            invariant
                is_total_order::<T>(),
                q.data.wf(),
                q.data.spec_capacity() == xs.spec_capacity(),
                q.data@.len() == xs@.len(),
                n <= q.data@.len(),
                q.data@.to_multiset() == xs@.to_multiset(),
                is_heap_range(q.data@, n as int, q.data@.len() as int),
                heapified(q.data@, n as int) == heapified(xs@, xs@.len() as int / 2),
            decreases n,
        {
            n -= 1;
            let ghost s = q.data@;
            q.siftdown(n);
            proof {
                lemma_permuted_whole(s, q.data@, s.len() as int);
            }
        }
        q
    }

    /// Moves the element at `pos` up while it is strictly greater than its
    /// parent, but not above `start`.
    fn siftup(&mut self, start: usize, pos: usize, Ghost(end): Ghost<int>)
        requires
            is_total_order::<T>(),
            old(self).data.wf(),
            start <= pos < end <= old(self).data@.len(),
            in_subtree(start as int, pos as int),
            heap_except(old(self).data@, start as int, end, pos as int),
            parent_covers(old(self).data@, start as int, end, pos as int),
        ensures
            final(self).data.wf(),
            final(self).data.spec_capacity() == old(self).data.spec_capacity(),
            is_heap_range(final(self).data@, start as int, end),
            permuted_below(old(self).data@, final(self).data@, end),
            final(self).data@ == sifted_up(old(self).data@, start as int, pos as int),
    {
        let ghost pos0 = pos as int;
        let mut pos: usize = pos;
        let ghost s0 = self.data@;
        proof {
            if pos == start {
                lemma_heap_closed(s0, start as int, end, pos as int);
            }
        }
        while pos > start
            invariant
                is_total_order::<T>(),
                self.data.wf(),
                self.data.spec_capacity() == old(self).data.spec_capacity(),
                start <= pos < end <= self.data@.len(),
                in_subtree(start as int, pos as int),
                heap_except(self.data@, start as int, end, pos as int),
                parent_covers(self.data@, start as int, end, pos as int),
                permuted_below(s0, self.data@, end),
                pos == start ==> is_heap_range(self.data@, start as int, end),
                sifted_up(self.data@, start as int, pos as int) == sifted_up(
                    s0,
                    start as int,
                    pos0,
                ),
            ensures
                is_heap_range(self.data@, start as int, end),
                permuted_below(s0, self.data@, end),
                self.data@ == sifted_up(s0, start as int, pos0),
                self.data.wf(),
                self.data.spec_capacity() == old(self).data.spec_capacity(),
            decreases pos,
        {
            let parent: usize = (pos - 1) / 2;
            let ghost s = self.data@;
            proof {
                lemma_parent_in_subtree(start as int, pos as int);
            }
            assert(dominates_except(s, parent as int, end, pos as int));
            let up = {
                let v = self.data.as_slice();
                greater(&v[pos], &v[parent])
            };
            if up {
                swap(self.data.as_mut_slice(), parent, pos);
                proof {
                    let t = self.data@;
                    lemma_swap_permutes(s, parent as int, pos as int, end);
                    lemma_gt_implies_ge(s[pos as int], s[parent as int]);
                    let sib = if pos as int == 2 * parent + 1 {
                        2 * parent + 2
                    } else {
                        2 * parent + 1
                    };
                    if sib < end {
                        lemma_ge_trans(s[pos as int], s[parent as int], s[sib]);
                    }
                    assert forall|p: int| start <= p < end implies #[trigger] dominates_except(
                        t,
                        p,
                        end,
                        parent as int,
                    ) by {
                        assert(dominates_except(s, p, end, pos as int));
                    }
                    if parent > start {
                        let g = (parent as int - 1) / 2;
                        lemma_parent_in_subtree(start as int, parent as int);
                        assert(dominates_except(s, g, end, pos as int));
                        if sib < end {
                            lemma_ge_trans(s[g], s[parent as int], s[sib]);
                        }
                    } else {
                        lemma_heap_closed(t, start as int, end, parent as int);
                    }
                }
                pos = parent;
            } else {
                proof {
                    lemma_heap_closed(s, start as int, end, pos as int);
                }
                break ;
            }
        }
    }

    /// Moves the element at `pos` down to a leaf below `end`, along the
    /// greater child at each step, then back up to where it belongs.
    fn siftdown_range(&mut self, pos: usize, end: usize)
        requires
            is_total_order::<T>(),
            old(self).data.wf(),
            pos < end <= old(self).data@.len(),
            is_heap_range(old(self).data@, pos + 1, end as int),
        ensures
            final(self).data.wf(),
            final(self).data.spec_capacity() == old(self).data.spec_capacity(),
            is_heap_range(final(self).data@, pos as int, end as int),
            permuted_below(old(self).data@, final(self).data@, end as int),
            final(self).data@ == sifted_down(old(self).data@, pos as int, end as int),
    {
        let start: usize = pos;
        let mut pos: usize = pos;
        let ghost s0 = self.data@;
        proof {
            assert forall|p: int| start <= p < end && p != pos implies #[trigger] dominates_except(
                s0,
                p,
                end as int,
                pos as int,
            ) by {
                assert(dominates(s0, p, end as int));
            }
        }
        while pos < end / 2
            invariant
                is_total_order::<T>(),
                self.data.wf(),
                self.data.spec_capacity() == old(self).data.spec_capacity(),
                start <= pos < end <= self.data@.len(),
                in_subtree(start as int, pos as int),
                heap_around(self.data@, start as int, end as int, pos as int),
                parent_covers(self.data@, start as int, end as int, pos as int),
                permuted_below(s0, self.data@, end as int),
                descended(self.data@, pos as int, end as int) == descended(
                    s0,
                    start as int,
                    end as int,
                ),
            decreases end - pos,
        {
            let ghost s = self.data@;
            let mut child: usize = 2 * pos + 1;
            let right: usize = child + 1;
            if right < end {
                let keep_left = {
                    let v = self.data.as_slice();
                    greater(&v[child], &v[right])
                };
                if !keep_left {
                    child = right;
                } else {
                    proof {
                        lemma_gt_implies_ge(s[child as int], s[right as int]);
                    }
                }
            }
            swap(self.data.as_mut_slice(), child, pos);
            proof {
                let t = self.data@;
                lemma_swap_permutes(s, child as int, pos as int, end as int);
                assert(dominates_except(s, child as int, end as int, pos as int));
                assert forall|p: int|
                    start <= p < end && p != child implies #[trigger] dominates_except(
                    t,
                    p,
                    end as int,
                    child as int,
                ) by {
                    if p != pos {
                        assert(dominates_except(s, p, end as int, pos as int));
                    }
                }
            }
            pos = child;
        }
        proof {
            let t = self.data@;
            assert forall|p: int| start <= p < end implies #[trigger] dominates_except(
                t,
                p,
                end as int,
                pos as int,
            ) by {
            }
        }
        self.siftup(start, pos, Ghost(end as int));
    }

    /// Sifts the element at `pos` down within the whole array.
    fn siftdown(&mut self, pos: usize)
        requires
            is_total_order::<T>(),
            old(self).data.wf(),
            pos < old(self).data@.len(),
            is_heap_range(old(self).data@, pos + 1, old(self).data@.len() as int),
        ensures
            final(self).data.wf(),
            final(self).data.spec_capacity() == old(self).data.spec_capacity(),
            is_heap_range(final(self).data@, pos as int, old(self).data@.len() as int),
            permuted_below(old(self).data@, final(self).data@, old(self).data@.len() as int),
            final(self).data@ == sifted_down(
                old(self).data@,
                pos as int,
                old(self).data@.len() as int,
            ),
    {
        let len: usize = self.len();
        self.siftdown_range(pos, len);
    }
}

} // verus!
