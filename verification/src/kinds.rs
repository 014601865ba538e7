//! Marker traits and marker types.

use vstd::prelude::*;

pub mod marker;

verus! {

/// Types that can be handed to another thread.
pub trait Send {

}

/// Types that are immutable unless mutability is inherited.
pub trait Freeze {

}

/// Plain old data: types without move semantics.
pub trait Pod {

}

} // verus!
