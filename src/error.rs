use vstd::prelude::*;

verus! {

/// Failures that the linear solver reports.
#[derive(Debug, Clone, Copy, PartialEq, Eq, Structural)]
pub enum MyLinalgError {
    /// The coefficient matrix is not square (or its rows differ in length).
    NonSquareMatrix,
    /// A pivot fell below the solver's absolute tolerance.
    SingularMatrix,
}

} // verus!
