//! The global stiffness matrix of a planar pin-jointed truss by the direct
//! stiffness method.
//!
//! Every member has a local stiffness matrix of four rows and columns, built
//! from its spring constant and its direction. The degrees of freedom of its
//! two nodes say where in the global matrix its cells belong; the global
//! matrix is the sum of what all members contribute.
//!
//! Matrices are generic in their cells: any type with the arithmetic of
//! [`scalar::Scalar`] will do. [`grid`] holds the mathematics of matrices, on
//! sequences of sequences, and the laws that hold of it.

pub mod dof;
pub mod error;
pub mod grid;
pub mod matrix;
pub mod member;
pub mod scalar;
pub mod stiffness;
pub mod structure;
pub mod text;
