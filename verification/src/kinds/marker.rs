//! Zero-sized types that a data structure embeds to state how it uses a type
//! or lifetime parameter, or which built-in properties it gives up.

use core::marker::PhantomData;
use vstd::prelude::*;

verus! {

/// States that values of `T` are stored and read: covariant in `T`.
pub struct CovariantType<T> {
    pub marker: PhantomData<T>,
}

/// States that a longer lifetime may stand for `'a`.
pub struct CovariantLifetime<'a> {
    pub marker: PhantomData<&'a ()>,
}

/// Embedded in a type whose contents may change behind a shared reference.
#[derive(Clone, Copy, PartialEq, Eq)]
pub struct NoFreeze;

/// Embedded in a type that must stay on the thread that made it.
#[derive(Clone, Copy, PartialEq, Eq)]
pub struct NoSend;

/// Embedded in a type that must not be copied implicitly.
#[derive(Clone, Copy, PartialEq, Eq)]
pub struct NoPod;

/// Embedded in a type whose storage is managed by a collector.
#[derive(Clone, Copy, PartialEq, Eq)]
pub struct Managed;

} // verus!
