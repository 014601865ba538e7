//! A growable array whose capacity is managed by hand: it grows by doubling,
//! shrinks only on request, and asks its allocator for every byte.

use crate::heap::Heap;
use crate::mem::{Allocator, Block, Storage};
use std::collections::VecDeque;
use vstd::layout::size_of;
use vstd::prelude::*;

verus! {

/// The byte size of `capacity` elements of `T` fits the address-size integer.
pub open spec fn fits<T>(capacity: nat) -> bool {
    capacity * size_of::<T>() <= usize::MAX
}

/// The capacity that a full array of capacity `cap` grows to: twice as much,
/// and 2 when there was none.
pub open spec fn grown(cap: nat) -> nat {
    if cap == 0 {
        2
    } else {
        2 * cap
    }
}

/// The capacity after an element has been appended to an array of `len`
/// elements and capacity `cap`: only a full array grows.
pub open spec fn capacity_after_push(len: nat, cap: nat) -> nat {
    if len == cap {
        grown(cap)
    } else {
        cap
    }
}

/// The capacity after `k` elements have been appended, one by one, to an
/// array of `len` elements and capacity `cap`.
pub open spec fn capacity_after_pushes(len: nat, cap: nat, k: nat) -> nat
    decreases k,
{
    if k == 0 {
        cap
    } else {
        capacity_after_pushes(len + 1, capacity_after_push(len, cap), (k - 1) as nat)
    }
}

/// The length after an element has been appended to `len` elements.
pub open spec fn len_after_push(len: nat) -> nat {
    len + 1
}

/// The length after the last of `len` elements has been removed, where
/// there was one.
pub open spec fn len_after_pop(len: nat) -> nat {
    if len == 0 {
        0
    } else {
        (len - 1) as nat
    }
}

/// The length of an array that was empty and then saw the calls `ops` in
/// turn: `true` stands for an append, `false` for a removal of the last
/// element.
pub open spec fn len_after(ops: Seq<bool>) -> nat
    decreases ops.len(),
{
    if ops.len() == 0 {
        0
    } else if ops.last() {
        len_after_push(len_after(ops.drop_last()))
    } else {
        len_after_pop(len_after(ops.drop_last()))
    }
}

/// How many of `ops` are equal to `op`.
pub open spec fn count_of(ops: Seq<bool>, op: bool) -> nat
    decreases ops.len(),
{
    if ops.len() == 0 {
        0
    } else if ops.last() == op {
        count_of(ops.drop_last(), op) + 1
    } else {
        count_of(ops.drop_last(), op)
    }
}

/// Appending never lowers the capacity, and where it changes a capacity
/// that was not zero, the new one is at least twice the old.
pub proof fn lemma_push_capacity_grows(len: nat, cap: nat)
    ensures
        capacity_after_push(len, cap) >= cap,
        capacity_after_push(len, cap) != cap && cap != 0 ==> capacity_after_push(len, cap) >= 2
            * cap,
        cap == 0 && len == 0 ==> capacity_after_push(len, cap) == 2,
{
}

/// Over any run of appends the capacity never goes down: after `k` appends
/// it is no less than after the first `j` of them.
pub proof fn lemma_pushes_capacity_monotone(len: nat, cap: nat, j: nat, k: nat)
    requires
        j <= k,
    ensures
        capacity_after_pushes(len, cap, j) <= capacity_after_pushes(len, cap, k),
    decreases j,
{
    if j == 0 {
        lemma_pushes_capacity_from(len, cap, k);
    } else {
        lemma_pushes_capacity_monotone(
            len + 1,
            capacity_after_push(len, cap),
            (j - 1) as nat,
            (k - 1) as nat,
        );
    }
}

/// After any number of appends the capacity is no less than before.
pub proof fn lemma_pushes_capacity_from(len: nat, cap: nat, k: nat)
    ensures
        cap <= capacity_after_pushes(len, cap, k),
    decreases k,
{
    if k > 0 {
        lemma_pushes_capacity_from(len + 1, capacity_after_push(len, cap), (k - 1) as nat);
    }
}

/// Where no removal finds the array empty, the length after a run of
/// appends and removals on an empty array is the number of appends less the
/// number of removals.
pub proof fn lemma_len_accounting(ops: Seq<bool>)
    requires
        forall|i: int|
            0 <= i <= ops.len() ==> count_of(#[trigger] ops.take(i), false) <= count_of(
                ops.take(i),
                true,
            ),
    ensures
        len_after(ops) == count_of(ops, true) - count_of(ops, false),
    decreases ops.len(),
{
    if ops.len() > 0 {
        let init = ops.drop_last();
        assert forall|i: int| 0 <= i <= init.len() implies count_of(
            #[trigger] init.take(i),
            false,
        ) <= count_of(init.take(i), true) by {
            assert(init.take(i) =~= ops.take(i));
        }
        lemma_len_accounting(init);
        assert(ops.take(ops.len() as int) =~= ops);
    }
}

/// The byte size of `capacity` elements of `T`, or `None` when it does not fit
/// the address-size integer.
pub fn byte_size<T>(capacity: usize) -> (r: Option<usize>)
    ensures
        fits::<T>(capacity as nat) ==> r == Some((capacity * size_of::<T>()) as usize),
        !fits::<T>(capacity as nat) ==> r.is_none(),
{
    capacity.checked_mul(core::mem::size_of::<T>())
}

/// A contiguous growable array of `T` that accounts for its storage through
/// the allocator `A`. When it is dropped, its live elements are destroyed in
/// index order and its storage region is given back after them.
pub struct Vec<T, A: Allocator = Heap> {
    cap: usize,
    buf: std::vec::Vec<T>,
    storage: Storage<A>,
}

impl<T, A: Allocator> Vec<T, A> {
    /// The live elements, in index order.
    pub closed spec fn view(&self) -> Seq<T> {
        self.buf@
    }

    /// The number of elements for which storage is reserved.
    pub closed spec fn spec_capacity(&self) -> nat {
        self.cap as nat
    }

    /// The storage region the array holds.
    pub closed spec fn spec_block(&self) -> Block {
        self.storage.block()
    }

    /// The allocator the array holds.
    pub closed spec fn spec_allocator(&self) -> A {
        self.storage.allocator()
    }

    /// The invariant: no more live elements than capacity, a region large
    /// enough for the capacity, and no region without capacity.
    pub closed spec fn wf(&self) -> bool {
        &&& self.buf@.len() <= self.cap
        &&& fits::<T>(self.cap as nat)
        &&& self.storage.block().size >= self.cap * size_of::<T>()
        &&& self.cap == 0 ==> self.storage.block().is_null_spec()
    }

    /// What the invariant says, for callers.
    pub proof fn lemma_wf(&self)
        requires
            self.wf(),
        ensures
            self@.len() <= self.spec_capacity(),
            self.spec_capacity() <= usize::MAX,
            fits::<T>(self.spec_capacity()),
            self.spec_block().size >= self.spec_capacity() * size_of::<T>(),
            self.spec_capacity() == 0 ==> self.spec_block().is_null_spec(),
    {
    }

    /// The number of live elements.
    pub fn len(&self) -> (r: usize)
        ensures
            r == self@.len(),
    {
        self.buf.len()
    }
}

impl<T> Vec<T, Heap> {
    /// An empty array with no storage, on the default backend.
    pub fn new() -> (r: Vec<T, Heap>)
        ensures
            r.wf(),
            r@ == Seq::<T>::empty(),
            r.spec_capacity() == 0,
    {
        Vec::with_alloc(Heap)
    }

    /// An empty array with storage for `capacity` elements, on the default
    /// backend.
    pub fn with_capacity(capacity: usize) -> (r: Vec<T, Heap>)
        requires
            fits::<T>(capacity as nat),
        ensures
            r.wf(),
            r@ == Seq::<T>::empty(),
            r.spec_capacity() == capacity,
    {
        Vec::with_alloc_capacity(Heap, capacity)
    }
}

impl<T, A: Allocator> Vec<T, A> {
    /// An empty array with no storage, on the given allocator.
    pub fn with_alloc(alloc: A) -> (r: Vec<T, A>)
        ensures
            r.wf(),
            r@ == Seq::<T>::empty(),
            r.spec_capacity() == 0,
            r.spec_block().is_null_spec(),
            r.spec_allocator() == alloc,
    {
        Vec { cap: 0, buf: std::vec::Vec::new(), storage: Storage::with_alloc(alloc) }
    }

    /// An empty array with storage for `capacity` elements, on the given
    /// allocator.
    pub fn with_alloc_capacity(alloc: A, capacity: usize) -> (r: Vec<T, A>)
        requires
            fits::<T>(capacity as nat),
        ensures
            r.wf(),
            r@ == Seq::<T>::empty(),
            r.spec_capacity() == capacity,
    {
        if capacity == 0 {
            Vec::with_alloc(alloc)
        } else {
            let size: usize = capacity * core::mem::size_of::<T>();
            let storage = Storage::with_alloc_size(alloc, size);
            Vec { cap: capacity, buf: std::vec::Vec::with_capacity(capacity), storage }
        }
    }

    /// The number of elements for which storage is reserved.
    pub fn capacity(&self) -> (r: usize)
        ensures
            r == self.spec_capacity(),
    {
        self.cap
    }

    /// Makes the capacity at least `capacity`, when `capacity` is no less
    /// than the length; otherwise nothing changes. Capacity never shrinks
    /// here.
    pub fn reserve(&mut self, capacity: usize)
        requires
            old(self).wf(),
            capacity >= old(self)@.len() ==> fits::<T>(capacity as nat),
        ensures
            final(self).wf(),
            final(self)@ == old(self)@,
            final(self).spec_capacity() == if capacity >= old(self)@.len() && capacity > old(
                self,
            ).spec_capacity() {
                capacity as nat
            } else {
                old(self).spec_capacity()
            },
    {
        let len: usize = self.buf.len();
        if capacity >= len && capacity > self.cap {
            let size: usize = capacity * core::mem::size_of::<T>();
            self.storage.resize(size);
            self.cap = capacity;
            self.buf.reserve(capacity - len);
        }
    }

    /// Gives back all storage beyond the live elements: the capacity becomes
    /// the length, and an empty array gives back its whole region.
    pub fn shrink_to_fit(&mut self)
        requires
            old(self).wf(),
        ensures
            final(self).wf(),
            final(self)@ == old(self)@,
            final(self).spec_capacity() == old(self)@.len(),
            old(self)@.len() == 0 ==> final(self).spec_block().is_null_spec(),
    {
        let len: usize = self.buf.len();
        if len == 0 {
            self.storage.release();
            self.cap = 0;
        } else {
            proof {
                lemma_fits_smaller::<T>(len as nat, self.cap as nat);
            }
            self.storage.resize(len * core::mem::size_of::<T>());
            self.cap = len;
        }
        release_spare(&mut self.buf);
    }

    /// Removes and returns the last element, or returns `None` and changes
    /// nothing when the array is empty. The capacity stays.
    pub fn pop(&mut self) -> (r: Option<T>)
        requires
            old(self).wf(),
        ensures
            final(self).wf(),
            final(self).spec_capacity() == old(self).spec_capacity(),
            final(self).spec_block() == old(self).spec_block(),
            final(self)@.len() == len_after_pop(old(self)@.len()),
            old(self)@.len() == 0 ==> r.is_none() && final(self)@ == old(self)@,
            old(self)@.len() > 0 ==> r == Some(old(self)@.last()) && final(self)@ == old(
                self,
            )@.drop_last(),
    {
        if self.buf.len() == 0 {
            None
        } else {
            self.buf.pop()
        }
    }

    /// Appends `value`. A full array first grows: to twice its capacity, or
    /// to 2 when it had none.
    pub fn push(&mut self, value: T)
        requires
            old(self).wf(),
            old(self)@.len() == old(self).spec_capacity() ==> grown(old(self).spec_capacity())
                <= usize::MAX && fits::<T>(grown(old(self).spec_capacity())),
        ensures
            final(self).wf(),
            final(self)@ == old(self)@.push(value),
            final(self)@.len() == len_after_push(old(self)@.len()),
            final(self).spec_capacity() == capacity_after_push(
                old(self)@.len(),
                old(self).spec_capacity(),
            ),
            final(self).spec_capacity() >= old(self).spec_capacity(),
    {
        if self.buf.len() == self.cap {
            let cap: usize = if self.cap == 0 {
                2
            } else {
                self.cap * 2
            };
            let size: usize = cap * core::mem::size_of::<T>();
            self.storage.resize(size);
            self.buf.reserve(cap - self.cap);
            self.cap = cap;
        }
        self.buf.push(value);
    }

    /// Drops the elements from index `len` on, in index order. Nothing
    /// changes when `len` is no less than the length. The capacity stays.
    pub fn truncate(&mut self, len: usize)
        requires
            old(self).wf(),
        ensures
            final(self).wf(),
            final(self).spec_capacity() == old(self).spec_capacity(),
            final(self).spec_block() == old(self).spec_block(),
            final(self)@ == if len < old(self)@.len() {
                old(self)@.subrange(0, len as int)
            } else {
                old(self)@
            },
    {
        if len < self.buf.len() {
            self.buf.truncate(len);
        }
    }

    /// The live elements, and nothing beyond them.
    pub fn as_slice(&self) -> (r: &[T])
        ensures
            r@ == self@,
    {
        self.buf.as_slice()
    }

    /// The live elements, and nothing beyond them, open to change in place.
    /// What the slice holds when it is given back is what the array holds;
    /// the capacity stays.
    pub fn as_mut_slice(&mut self) -> (r: &mut [T])
        requires
            old(self).wf(),
        ensures
            r@ == old(self)@,
            final(self)@ == final(r)@,
            final(r)@.len() == r@.len() ==> final(self).wf(),
            final(self).spec_capacity() == old(self).spec_capacity(),
    {
        self.buf.as_mut_slice()
    }

    /// Hands the array over to an iterator that yields its elements by value
    /// and gives the storage back when it is dropped.
    pub fn move_iter(self) -> (r: MoveItems<T, A>)
        requires
            self.wf(),
        ensures
            r@ == self@,
            r.spec_block() == self.spec_block(),
            r.spec_allocator() == self.spec_allocator(),
    {
        MoveItems { iter: into_deque(self.buf), storage: self.storage }
    }
}

impl<T: Clone> Vec<T, Heap> {
    /// An array of `length` clones of `value`, on the default backend.
    pub fn from_elem(length: usize, value: T) -> (r: Vec<T, Heap>)
        requires
            fits::<T>(length as nat),
        ensures
            r.wf(),
            r@.len() == length,
            r.spec_capacity() == length,
            forall|i: int| 0 <= i < length ==> cloned(value, #[trigger] r@[i]),
    {
        Vec::from_elem_with_alloc(length, value, Heap)
    }

    /// An array of `length` elements, the one at index `i` made by `op(i)`,
    /// on the default backend.
    pub fn from_fn<F: Fn(usize) -> T>(length: usize, op: F) -> (r: Vec<T, Heap>)
        requires
            fits::<T>(length as nat),
            forall|i: usize| i < length ==> op.requires((i,)),
        ensures
            r.wf(),
            r@.len() == length,
            r.spec_capacity() == length,
            forall|i: int| 0 <= i < length ==> op.ensures((i as usize,), #[trigger] r@[i]),
    {
        Vec::from_fn_with_alloc(length, op, Heap)
    }
}

impl<T: Clone, A: Allocator> Vec<T, A> {
    /// An array of `length` clones of `value`, on the given allocator. All
    /// storage is reserved at once, and the elements are put in place one by
    /// one.
    pub fn from_elem_with_alloc(length: usize, value: T, alloc: A) -> (r: Vec<T, A>)
        requires
            fits::<T>(length as nat),
        ensures
            r.wf(),
            r@.len() == length,
            r.spec_capacity() == length,
            forall|i: int| 0 <= i < length ==> cloned(value, #[trigger] r@[i]),
    {
        let mut xs = Vec::with_alloc_capacity(alloc, length);
        while xs.buf.len() < length
            invariant
                xs.wf(),
                xs.cap == length,
                xs.buf@.len() <= length,
                forall|i: int| 0 <= i < xs.buf@.len() ==> cloned(value, #[trigger] xs.buf@[i]),
            decreases length - xs.buf@.len(),
        {
            xs.buf.push(value.clone());
        }
        xs
    }

    /// An array of `length` elements, the one at index `i` made by `op(i)`,
    /// on the given allocator. All storage is reserved at once, and the
    /// elements are put in place one by one.
    pub fn from_fn_with_alloc<F: Fn(usize) -> T>(length: usize, op: F, alloc: A) -> (r: Vec<T, A>)
        requires
            fits::<T>(length as nat),
            forall|i: usize| i < length ==> op.requires((i,)),
        ensures
            r.wf(),
            r@.len() == length,
            r.spec_capacity() == length,
            forall|i: int| 0 <= i < length ==> op.ensures((i as usize,), #[trigger] r@[i]),
    {
        let mut xs = Vec::with_alloc_capacity(alloc, length);
        while xs.buf.len() < length
            invariant
                xs.wf(),
                xs.cap == length,
                xs.buf@.len() <= length,
                forall|i: usize| i < length ==> op.requires((i,)),
                forall|i: int|
                    0 <= i < xs.buf@.len() ==> op.ensures((i as usize,), #[trigger] xs.buf@[i]),
            decreases length - xs.buf@.len(),
        {
            let i: usize = xs.buf.len();
            xs.buf.push(op(i));
        }
        xs
    }
}

/// A smaller capacity fits where a larger one does.
pub proof fn lemma_fits_smaller<T>(small: nat, large: nat)
    requires
        small <= large,
        fits::<T>(large),
    ensures
        fits::<T>(small),
        small * size_of::<T>() <= large * size_of::<T>(),
{
    assert(small * size_of::<T>() <= large * size_of::<T>()) by (nonlinear_arith)
        requires
            small <= large,
    ;
}

/// `shrink_to_fit` of std's vector: the elements stay as they are.
#[verifier::external_body]
fn release_spare<T>(buf: &mut std::vec::Vec<T>)
    ensures
        final(buf)@ == old(buf)@,
{
    buf.shrink_to_fit()
}

/// `VecDeque::from` on a vector of std: the deque holds the vector's elements
/// in the vector's order.
#[verifier::external_body]
fn into_deque<T>(buf: std::vec::Vec<T>) -> (r: VecDeque<T>)
    ensures
        r@ == buf@,
{
    VecDeque::from(buf)
}

/// The iterator that a [`Vec`] turns into. It owns the elements not yet
/// yielded, and the array's storage region with its allocator. When it is
/// dropped, the elements left are destroyed first and the region is given
/// back after them.
pub struct MoveItems<T, A: Allocator> {
    iter: VecDeque<T>,
    storage: Storage<A>,
}

impl<T, A: Allocator> MoveItems<T, A> {
    /// The elements not yet yielded, front first.
    pub closed spec fn view(&self) -> Seq<T> {
        self.iter@
    }

    /// The storage region taken over from the array.
    pub closed spec fn spec_block(&self) -> Block {
        self.storage.block()
    }

    /// The allocator taken over from the array.
    pub closed spec fn spec_allocator(&self) -> A {
        self.storage.allocator()
    }

    /// Yields the front element, or `None` when none is left.
    pub fn next(&mut self) -> (r: Option<T>)
        ensures
            final(self).spec_block() == old(self).spec_block(),
            final(self).spec_allocator() == old(self).spec_allocator(),
            old(self)@.len() == 0 ==> r.is_none() && final(self)@ == old(self)@,
            old(self)@.len() > 0 ==> r == Some(old(self)@.first()) && final(self)@ == old(
                self,
            )@.drop_first(),
    {
        self.iter.pop_front()
    }

    /// The number of elements still to come, as a lower and an upper bound:
    /// both are exact.
    pub fn size_hint(&self) -> (r: (usize, Option<usize>))
        ensures
            r.0 == self@.len(),
            r.1 == Some(r.0),
    {
        let n: usize = self.iter.len();
        (n, Some(n))
    }

    /// Yields the back element, or `None` when none is left.
    pub fn next_back(&mut self) -> (r: Option<T>)
        ensures
            final(self).spec_block() == old(self).spec_block(),
            final(self).spec_allocator() == old(self).spec_allocator(),
            old(self)@.len() == 0 ==> r.is_none() && final(self)@ == old(self)@,
            old(self)@.len() > 0 ==> r == Some(old(self)@.last()) && final(self)@ == old(
                self,
            )@.drop_last(),
    {
        self.iter.pop_back()
    }
}

} // verus!
