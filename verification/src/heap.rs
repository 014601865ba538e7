//! The default storage backend.

use crate::mem::{Allocator, Block};
use vstd::prelude::*;

verus! {

/// Releases `block`. Releasing the null handle does nothing.
pub fn free(block: Block)
    opens_invariants none
    no_unwind
{
    let _ = block;
}

/// Storage for exactly `size` bytes; the null handle when `size` is zero.
pub fn allocate(size: usize) -> (r: Block)
    ensures
        r.size == size,
        r.is_null_spec() <==> size == 0,
{
    if size == 0 {
        Block::null()
    } else {
        Block::with_size(size)
    }
}

/// Zero-filled storage for exactly `size` bytes; the null handle when `size`
/// is zero.
pub fn zero_alloc(size: usize) -> (r: Block)
    ensures
        r.size == size,
        r.is_null_spec() <==> size == 0,
{
    if size == 0 {
        Block::null()
    } else {
        Block::with_size(size)
    }
}

/// Resizes `block` to exactly `size` bytes. A new size of zero releases the
/// block and hands back the null handle.
pub fn realloc(block: Block, size: usize) -> (r: Block)
    ensures
        r.size == size,
        r.is_null_spec() <==> size == 0,
{
    if size == 0 {
        free(block);
        Block::null()
    } else {
        let _ = block;
        Block::with_size(size)
    }
}

/// The default backend: stateless, and exact in what it grants.
pub struct Heap;

impl Allocator for Heap {
    fn allocate(&mut self, size: usize) -> (r: (Block, usize))
        ensures
            r.1 == size,
    {
        (allocate(size), size)
    }

    fn zero_alloc(&mut self, size: usize) -> (r: (Block, usize))
        ensures
            r.1 == size,
    {
        (zero_alloc(size), size)
    }

    fn realloc(&mut self, block: Block, size: usize) -> (r: (Block, usize))
        ensures
            r.1 == size,
    {
        (realloc(block, size), size)
    }

    fn free(&mut self, block: Block) {
        free(block)
    }
}

} // verus!
