//! Fixed-size square-matrix core of a small vector-math toolkit.
//!
//! The library provides 2×2, 3×3 and 4×4 column-major matrices over an exact
//! rational scalar, together with the classic algorithms on them: products,
//! determinants (direct expansion, scalar triple product, Laplace cofactor
//! expansion), inversion (closed adjugate forms and Gauss-Jordan elimination
//! with partial pivoting), widening into the leading block of a larger
//! identity, tolerance and structural equality, and the Shoemake conversion
//! of a 3×3 rotation into a quaternion.

pub mod mat2;
pub mod mat3;
pub mod mat4;
pub mod quat;
pub mod rat;
pub mod vectors;
