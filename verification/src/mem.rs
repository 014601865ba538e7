//! Storage accounting: the handle for one region of untyped storage, and the
//! capability through which a container asks for, resizes and gives back its
//! region.

use vstd::prelude::*;

verus! {

/// One region of untyped storage, known by its size in bytes. The region of
/// size zero is the null handle: it stands for "nothing allocated".
pub struct Block {
    pub size: usize,
}

impl Block {
    /// Whether this is the null handle.
    pub open spec fn is_null_spec(&self) -> bool {
        self.size == 0
    }

    /// The null handle.
    pub fn null() -> (r: Block)
        ensures
            r.size == 0,
            r.is_null_spec(),
        opens_invariants none
        no_unwind
    {
        Block { size: 0 }
    }

    /// A handle for a region of `size` bytes.
    pub fn with_size(size: usize) -> (r: Block)
        ensures
            r.size == size,
    {
        Block { size }
    }

    /// Whether this is the null handle.
    #[verifier::when_used_as_spec(is_null_spec)]
    pub fn is_null(&self) -> (r: bool)
        ensures
            r == self.is_null_spec(),
    {
        self.size == 0
    }

    /// The size of the region in bytes.
    pub fn size(&self) -> (r: usize)
        ensures
            r == self.size,
    {
        self.size
    }
}

/// What a request for `size` bytes hands back: the region and its actual size.
/// The region is at least as large as asked for, the reported size is the
/// region's own, and a request for nothing yields the null handle.
pub open spec fn grants(size: usize, r: (Block, usize)) -> bool {
    &&& r.0.size == r.1
    &&& r.1 >= size
    &&& size == 0 ==> r.0.is_null_spec()
}

/// The capability a container holds for all of its storage requests.
///
/// A request that cannot be met does not come back: there is no error value.
pub trait Allocator {
    /// Storage for `size` bytes, contents unspecified.
    fn allocate(&mut self, size: usize) -> (r: (Block, usize))
        ensures
            grants(size, r),
    ;

    /// Storage for `size` bytes, zero-filled.
    fn zero_alloc(&mut self, size: usize) -> (r: (Block, usize))
        ensures
            grants(size, r),
    ;

    /// Resizes `block` to `size` bytes; a new size of zero releases it.
    fn realloc(&mut self, block: Block, size: usize) -> (r: (Block, usize))
        ensures
            grants(size, r),
    ;

    /// Releases `block`; releasing the null handle does nothing. A container
    /// calls this when it is destroyed, so it does not unwind. An allocator
    /// that keeps no record of its regions can leave it as it is.
    fn free(&mut self, block: Block)
        opens_invariants none
        no_unwind
    {
        let _ = block;
    }
}

/// A storage region together with the allocator it came from. It is the
/// one owner of the region: when it is dropped, the region goes back to the
/// allocator, once.
pub struct Storage<A: Allocator> {
    block: Block,
    alloc: A,
}

impl<A: Allocator> Storage<A> {
    /// The region held.
    pub closed spec fn block(&self) -> Block {
        self.block
    }

    /// The allocator held.
    pub closed spec fn allocator(&self) -> A {
        self.alloc
    }

    /// No region yet, on the given allocator.
    pub fn with_alloc(alloc: A) -> (r: Storage<A>)
        ensures
            r.block().is_null_spec(),
            r.allocator() == alloc,
    {
        Storage { block: Block::null(), alloc }
    }

    /// A region of at least `size` bytes from the given allocator; no region
    /// for no bytes.
    pub fn with_alloc_size(alloc: A, size: usize) -> (r: Storage<A>)
        ensures
            r.block().size >= size,
            size == 0 ==> r.block().is_null_spec(),
    {
        let mut alloc = alloc;
        let (block, _) = alloc.allocate(size);
        Storage { block, alloc }
    }

    /// The size of the region held, in bytes.
    pub fn size(&self) -> (r: usize)
        ensures
            r == self.block().size,
    {
        self.block.size
    }

    /// Has the allocator resize the region to at least `size` bytes; a new
    /// size of zero leaves no region.
    pub fn resize(&mut self, size: usize)
        ensures
            final(self).block().size >= size,
            size == 0 ==> final(self).block().is_null_spec(),
    {
        let mut block = Block::null();
        core::mem::swap(&mut self.block, &mut block);
        let (block, _) = self.alloc.realloc(block, size);
        self.block = block;
    }

    /// Gives the region back to the allocator and leaves none.
    pub fn release(&mut self)
        ensures
            final(self).block().is_null_spec(),
        opens_invariants none
        no_unwind
    {
        let mut block = Block::null();
        core::mem::swap(&mut self.block, &mut block);
        self.alloc.free(block);
    }
}

impl<A: Allocator> Drop for Storage<A> {
    /// Gives the region back to the allocator.
    fn drop(&mut self)
        opens_invariants none
        no_unwind
    {
        self.release();
    }
}

} // verus!
