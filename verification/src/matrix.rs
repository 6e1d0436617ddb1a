//! Fixed-size matrix scaffolding.
//!
//! A matrix is a column-major collection of `C` fixed-dimension vectors
//! of `R` elements each.  Matrix operations are out of scope for the
//! core; the type exists as the shape on which they would be built.

use vstd::prelude::*;

use crate::vector::Vector;

verus! {

/// A fixed-size matrix of `C` columns, each a packed `R`-element vector.
pub struct Matrix<const R: usize, const C: usize> {
    #[allow(dead_code)]
    cols: Vec<Vector<R>>,
}

} // verus!
