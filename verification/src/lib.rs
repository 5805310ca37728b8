//! A dense-matrix algebra library over a generic numeric scalar type.
//!
//! The library provides construction, element access, arithmetic
//! (add / subtract / multiply / scale), reduced row echelon form,
//! determinant, matrix inverse, linear-system solving, and a
//! least-squares solver built on the normal equations.  Every
//! executable operation carries a contract that pins its result down
//! to the cell level, stated over the scalar's own specification
//! operations.

pub mod laws;
pub mod matrix;
pub mod model;
pub mod rational;
pub mod scalar;
pub mod solver;
