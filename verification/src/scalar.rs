//! The capability bound that matrix entries must satisfy.

use vstd::prelude::*;

verus! {

/// A scalar usable as a matrix entry: it supplies the additive and
/// multiplicative identities, addition, subtraction, multiplication,
/// division, negation, an equality test, and an absolute-difference /
/// sign test (the latter two support tolerance comparison).
///
/// Each executable operation is pinned to a specification-level
/// counterpart, so that the matrix contracts can state cell values
/// exactly, whatever the scalar domain is.  The trait demands no
/// algebraic laws of the operations: each matrix operation promises
/// precisely the combination of scalar operations it performs.
pub trait MatrixCompatible: Sized + Copy {
    /// The additive identity, at the specification level.
    spec fn s_zero() -> Self;

    /// The multiplicative identity, at the specification level.
    spec fn s_one() -> Self;

    /// Addition, at the specification level.
    spec fn s_add(self, rhs: Self) -> Self;

    /// Subtraction, at the specification level.
    spec fn s_sub(self, rhs: Self) -> Self;

    /// Multiplication, at the specification level.
    spec fn s_mul(self, rhs: Self) -> Self;

    /// Division, at the specification level.
    spec fn s_div(self, rhs: Self) -> Self;

    /// Negation, at the specification level.
    spec fn s_neg(self) -> Self;

    /// The scalar's own equality test, at the specification level.
    spec fn s_eq(self, rhs: Self) -> bool;

    /// The absolute difference of two scalars, at the specification level.
    spec fn s_abs_diff(self, rhs: Self) -> Self;

    /// Whether the scalar is strictly positive, at the specification level.
    spec fn s_is_positive(self) -> bool;

    /// The additive identity.
    fn zero() -> (r: Self)
        ensures
            r == Self::s_zero(),
    ;

    /// The multiplicative identity.
    fn one() -> (r: Self)
        ensures
            r == Self::s_one(),
    ;

    /// Adds two scalars.
    fn add(self, rhs: Self) -> (r: Self)
        ensures
            r == self.s_add(rhs),
    ;

    /// Subtracts `rhs` from `self`.
    fn sub(self, rhs: Self) -> (r: Self)
        ensures
            r == self.s_sub(rhs),
    ;

    /// Multiplies two scalars.
    fn mul(self, rhs: Self) -> (r: Self)
        ensures
            r == self.s_mul(rhs),
    ;

    /// Divides `self` by `rhs`.
    fn div(self, rhs: Self) -> (r: Self)
        ensures
            r == self.s_div(rhs),
    ;

    /// Negates the scalar.
    fn neg(self) -> (r: Self)
        ensures
            r == self.s_neg(),
    ;

    /// Tests two scalars for equality.
    fn eq_scalar(self, rhs: Self) -> (r: bool)
        ensures
            r == self.s_eq(rhs),
    ;

    /// The absolute difference of two scalars.
    fn abs_diff(self, rhs: Self) -> (r: Self)
        ensures
            r == self.s_abs_diff(rhs),
    ;

    /// Whether the scalar is strictly positive.
    fn is_positive(self) -> (r: bool)
        ensures
            r == self.s_is_positive(),
    ;
}

} // verus!
