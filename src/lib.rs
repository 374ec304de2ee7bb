//! Boundary element solution of the interior Dirichlet problem for the 2-D
//! Laplace equation on a disk, generic over the number type.

pub mod bem;
pub mod curve;
pub mod elements;
pub mod error;
pub mod geometry;
pub mod integral;
pub mod kernel;
pub mod linalg;
pub mod scalar;
