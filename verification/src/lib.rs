//! Two small mathematical libraries: fixed-size matrices with their
//! linear-algebra derivations, and finite sets with Peano naturals.
//!
//! The matrices are generic over their element type, a floating-point-like
//! number described by [`matrix::Scalar`]. What is computed from a matrix
//! is specified in [`matrix::grid`] as a function of its contents, and the
//! laws that these functions obey are proved in [`matrix::laws`].

pub mod matrix;
pub mod set;
