//! A small dense linear-algebra library: generic vectors and matrices with
//! elementwise and scalar arithmetic, products, transpose, and determinant
//! and inverse by cofactor expansion.
//!
//! An element type implements [`Scalar`]: its operations, the operands on
//! which each is defined, and the mathematical function each computes.
//! Machine integers are elements; their operations are defined where the
//! exact result fits.
//!
//! Every operation has an explicit form that writes into a container of the
//! caller, and most have an operator form that returns a fresh container.
//! What an operation needs of the shapes of its operands, and of the
//! arithmetic of their elements, is a precondition: nothing is tested when
//! the operation runs, and nothing fails.
//!
//! The modules `laws` and `alternating` hold what is true of the operations
//! for every element type whose arithmetic is that of a commutative ring
//! ([`Ring`]); `bounds` says when the arithmetic of `isize` is defined.

pub mod algebra;
pub mod alternating;
pub mod bounds;
pub mod cofactor;
pub mod integers;
pub mod laws;
pub mod matrix;
pub mod matrix_ops;
pub mod scalar;
pub mod vector;
pub mod vector_ops;

pub use matrix::Matrix;
pub use scalar::{BinOp, Ring, Scalar};
pub use vector::Vector;
