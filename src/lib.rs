//! Gauss-Jordan elimination on augmented matrices, generic over the
//! scalar type of the coefficients.
use vstd::prelude::*;

pub mod equation_solver;
pub mod error;
pub mod matrice;
pub mod scalar;

verus! {

} // verus!
