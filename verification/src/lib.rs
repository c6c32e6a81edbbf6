//! A dense, row-major, two-dimensional matrix with verified layout and
//! arithmetic.
//!
//! The element type is a parameter. Layout operations (construction, access,
//! transposition, growth) ask only that elements can be copied; arithmetic
//! goes through the standard operator traits, and its contracts are stated
//! over the operator specifications of the element type.

pub mod algebra;
pub mod arithmetic;
pub mod constructors;
pub mod error;
pub mod grid;
pub mod layout;
pub mod laws;
pub mod matrix;
pub mod product;
pub mod reshape;

pub use error::MatrixError;
pub use grid::Grid;
pub use matrix::Matrix;
