//! Allocator-parameterised growable array and a binary-heap priority queue
//! built on it, with contracts over sequences and multisets.

pub mod heap;
pub mod i16;
pub mod kinds;
pub mod mem;
pub mod order;
pub mod priority_queue;
pub mod slice;
pub mod u8;
pub mod vec;
