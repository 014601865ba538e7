//! The comparison the priority queue is ordered by: the standard ordering of
//! the element type, with the laws of a total order spelled out.

use core::cmp::Ordering;
use vstd::prelude::*;
use vstd::std_specs::cmp::{OrdSpec, PartialEqSpec, PartialOrdSpec};

verus! {

/// The element type's comparison operators compute its specification, and
/// that specification is a total order.
pub open spec fn is_total_order<T: Ord>() -> bool {
    vstd::laws_cmp::obeys_cmp::<T>()
}

/// `a` is strictly greater than `b`.
pub open spec fn gt<T: Ord>(a: T, b: T) -> bool {
    a.partial_cmp_spec(&b) == Some(Ordering::Greater)
}

/// `a` is not smaller than `b`.
pub open spec fn ge<T: Ord>(a: T, b: T) -> bool {
    !gt(b, a)
}

/// Strictly greater implies not smaller.
pub proof fn lemma_gt_implies_ge<T: Ord>(a: T, b: T)
    requires
        is_total_order::<T>(),
        gt(a, b),
    ensures
        ge(a, b),
{
    reveal(vstd::laws_cmp::obeys_partial_cmp_spec_properties);
    reveal(vstd::laws_cmp::obeys_cmp_ord);
}

/// Every element is not smaller than itself.
pub proof fn lemma_ge_refl<T: Ord>(a: T)
    requires
        is_total_order::<T>(),
    ensures
        ge(a, a),
{
    reveal(vstd::laws_cmp::obeys_partial_cmp_spec_properties);
    reveal(vstd::laws_cmp::obeys_cmp_ord);
}

/// "Not smaller than" is transitive.
pub proof fn lemma_ge_trans<T: Ord>(a: T, b: T, c: T)
    requires
        is_total_order::<T>(),
        ge(a, b),
        ge(b, c),
    ensures
        ge(a, c),
{
    reveal(vstd::laws_cmp::obeys_partial_cmp_spec_properties);
    reveal(vstd::laws_cmp::obeys_cmp_ord);
    reveal(vstd::laws_cmp::obeys_cmp_partial_ord);
    reveal(vstd::laws_eq::obeys_eq_spec_properties);
}

/// Whether `a` is strictly greater than `b`.
pub fn greater<T: Ord>(a: &T, b: &T) -> (r: bool)
    requires
        is_total_order::<T>(),
    ensures
        r == gt(*a, *b),
{
    reveal(vstd::laws_cmp::obeys_cmp_partial_ord);
    *a > *b
}

} // verus!
