//! An exact scalar domain: quotients of machine integers.

use crate::scalar::MatrixCompatible;
use vstd::prelude::*;

verus! {

/// Wrapping addition on the components of a [`Rational`].
pub open spec fn wadd(a: i64, b: i64) -> i64 {
    vstd::wrapping::i64_specs::wrapping_add(a, b)
}

/// Wrapping subtraction on the components of a [`Rational`].
pub open spec fn wsub(a: i64, b: i64) -> i64 {
    vstd::wrapping::i64_specs::wrapping_sub(a, b)
}

/// Wrapping multiplication on the components of a [`Rational`].
pub open spec fn wmul(a: i64, b: i64) -> i64 {
    vstd::wrapping::i64_specs::wrapping_mul(a, b)
}

/// Wrapping subtraction agrees with true subtraction while the
/// difference stays within `i64`.
pub proof fn lemma_wsub_exact(a: i64, b: i64)
    requires
        i64::MIN <= a - b <= i64::MAX,
    ensures
        wsub(a, b) == a - b,
{
}

/// Wrapping multiplication agrees with true multiplication while the
/// product stays within `i64`.
pub proof fn lemma_wmul_exact(a: i64, b: i64)
    requires
        i64::MIN <= a * b <= i64::MAX,
    ensures
        wmul(a, b) == a * b,
{
    let p = a * b;
    let range = 0x1_0000_0000_0000_0000int;
    if p >= 0 {
        assert(p % range == p) by (nonlinear_arith)
            requires
                0 <= p < range,
        ;
    } else {
        assert(p % range == p + range) by (nonlinear_arith)
            requires
                -range < p < 0,
        ;
    }
}

/// A rational number held as a numerator / denominator pair.
///
/// The pair is not normalised: two values stand for the same rational
/// exactly when cross-multiplication agrees, which is what
/// [`MatrixCompatible::s_eq`] tests.  Component arithmetic wraps on
/// overflow, so the usual rational reading of a pair holds whenever the
/// component products stay within `i64`; the operations themselves are
/// total either way, and every one of them is pinned exactly by its
/// specification.
#[derive(Clone, Copy, Debug, PartialEq, Eq, Structural)]
pub struct Rational {
    /// The numerator.
    pub num: i64,
    /// The denominator.
    pub den: i64,
}

impl Rational {
    /// Builds the rational `num / den`.
    pub fn new(num: i64, den: i64) -> (r: Self)
        ensures
            r == (Rational { num, den }),
    {
        Rational { num, den }
    }

    /// Builds the rational `value / 1`.
    pub fn from_int(value: i64) -> (r: Self)
        ensures
            r == (Rational { num: value, den: 1i64 }),
    {
        Rational { num: value, den: 1 }
    }
}

impl MatrixCompatible for Rational {
    open spec fn s_zero() -> Self {
        Rational { num: 0, den: 1 }
    }

    open spec fn s_one() -> Self {
        Rational { num: 1, den: 1 }
    }

    open spec fn s_add(self, rhs: Self) -> Self {
        Rational {
            num: wadd(wmul(self.num, rhs.den), wmul(rhs.num, self.den)),
            den: wmul(self.den, rhs.den),
        }
    }

    open spec fn s_sub(self, rhs: Self) -> Self {
        Rational {
            num: wsub(wmul(self.num, rhs.den), wmul(rhs.num, self.den)),
            den: wmul(self.den, rhs.den),
        }
    }

    open spec fn s_mul(self, rhs: Self) -> Self {
        Rational { num: wmul(self.num, rhs.num), den: wmul(self.den, rhs.den) }
    }

    open spec fn s_div(self, rhs: Self) -> Self {
        Rational { num: wmul(self.num, rhs.den), den: wmul(self.den, rhs.num) }
    }

    open spec fn s_neg(self) -> Self {
        Rational { num: wsub(0, self.num), den: self.den }
    }

    open spec fn s_eq(self, rhs: Self) -> bool {
        wmul(self.num, rhs.den) == wmul(rhs.num, self.den)
    }

    open spec fn s_abs_diff(self, rhs: Self) -> Self {
        let d = self.s_sub(rhs);
        if d.s_is_positive() {
            d
        } else {
            d.s_neg()
        }
    }

    open spec fn s_is_positive(self) -> bool {
        wmul(self.num, self.den) > 0
    }

    fn zero() -> (r: Self) {
        Rational { num: 0, den: 1 }
    }

    fn one() -> (r: Self) {
        Rational { num: 1, den: 1 }
    }

    fn add(self, rhs: Self) -> (r: Self) {
        Rational {
            num: self.num.wrapping_mul(rhs.den).wrapping_add(rhs.num.wrapping_mul(self.den)),
            den: self.den.wrapping_mul(rhs.den),
        }
    }

    fn sub(self, rhs: Self) -> (r: Self) {
        Rational {
            num: self.num.wrapping_mul(rhs.den).wrapping_sub(rhs.num.wrapping_mul(self.den)),
            den: self.den.wrapping_mul(rhs.den),
        }
    }

    fn mul(self, rhs: Self) -> (r: Self) {
        Rational { num: self.num.wrapping_mul(rhs.num), den: self.den.wrapping_mul(rhs.den) }
    }

    fn div(self, rhs: Self) -> (r: Self) {
        Rational { num: self.num.wrapping_mul(rhs.den), den: self.den.wrapping_mul(rhs.num) }
    }

    fn neg(self) -> (r: Self) {
        Rational { num: 0i64.wrapping_sub(self.num), den: self.den }
    }

    fn eq_scalar(self, rhs: Self) -> (r: bool) {
        self.num.wrapping_mul(rhs.den) == rhs.num.wrapping_mul(self.den)
    }

    fn abs_diff(self, rhs: Self) -> (r: Self) {
        let d = self.sub(rhs);
        if d.is_positive() {
            d
        } else {
            d.neg()
        }
    }

    fn is_positive(self) -> (r: bool) {
        self.num.wrapping_mul(self.den) > 0
    }
}

} // verus!
