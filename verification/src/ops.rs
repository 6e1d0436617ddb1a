//! Reduction traits.
//!
//! `Sum` and `Dot` are the horizontal reduction capabilities a vector
//! type offers.  Each trait pairs its executable method with two spec
//! methods: when the receiver is ready to be reduced, and what value the
//! reduction must return.

use vstd::prelude::*;

verus! {

/// Dot product of two values of the same shape.
pub trait Dot: Sized {
    /// The scalar the dot product reduces to.
    type Output;

    /// When the two operands may be combined.
    spec fn dot_requires(&self, rhs: &Self) -> bool;

    /// The value the dot product must return.
    spec fn dot_spec(&self, rhs: &Self) -> Self::Output;

    /// The dot product of `self` and `rhs`.
    fn dot(self, rhs: Self) -> (r: Self::Output)
        requires
            self.dot_requires(&rhs),
        ensures
            r == self.dot_spec(&rhs),
    ;
}

/// Horizontal sum of a value's elements.
pub trait Sum: Sized {
    /// The scalar the sum reduces to.
    type Output;

    /// When the receiver may be reduced.
    spec fn sum_requires(&self) -> bool;

    /// The value the reduction must return.
    spec fn sum_spec(&self) -> Self::Output;

    /// The sum of the receiver's elements.
    fn sum(self) -> (r: Self::Output)
        requires
            self.sum_requires(),
        ensures
            r == self.sum_spec(),
    ;
}

} // verus!
