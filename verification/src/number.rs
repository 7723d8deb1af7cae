//! The arithmetic the interpolator is carried out in.
use vstd::prelude::*;

verus! {

/// A number type with the operations that interpolation needs.
///
/// Every operation is total and is a function of its operands: the `spec_*`
/// function of an operation names its result, and the operation returns
/// exactly that. Nothing else is promised of an implementation. In particular
/// no algebraic law is taken for granted, so that rounding arithmetic
/// qualifies; a result that rests on more says of which numbers it asks
/// what (see [`mirrors`], [`cancels`] and [`keeps_zero`]).
pub trait Number: Copy {
    /// The additive identity.
    spec fn spec_zero() -> Self;

    /// The multiplicative identity.
    spec fn spec_one() -> Self;

    /// The number that stands for a small integer.
    spec fn spec_from_u8(n: u8) -> Self;

    /// Whether the number compares equal to zero.
    spec fn spec_is_zero(self) -> bool;

    /// `self + rhs`.
    spec fn spec_plus(self, rhs: Self) -> Self;

    /// `self - rhs`.
    spec fn spec_minus(self, rhs: Self) -> Self;

    /// `self * rhs`.
    spec fn spec_times(self, rhs: Self) -> Self;

    /// `self / rhs`.
    spec fn spec_divided_by(self, rhs: Self) -> Self;

    /// The absolute value of `self`.
    spec fn spec_abs(self) -> Self;

    /// The square root of `self`.
    spec fn spec_sqrt(self) -> Self;

    /// `self` raised to the power `exponent`.
    spec fn spec_powf(self, exponent: Self) -> Self;

    fn zero() -> (r: Self)
        ensures
            r == Self::spec_zero(),
    ;

    fn one() -> (r: Self)
        ensures
            r == Self::spec_one(),
    ;

    fn from_u8(n: u8) -> (r: Self)
        ensures
            r == Self::spec_from_u8(n),
    ;

    fn is_zero(self) -> (b: bool)
        ensures
            b == self.spec_is_zero(),
    ;

    fn plus(self, rhs: Self) -> (r: Self)
        ensures
            r == self.spec_plus(rhs),
    ;

    fn minus(self, rhs: Self) -> (r: Self)
        ensures
            r == self.spec_minus(rhs),
    ;

    fn times(self, rhs: Self) -> (r: Self)
        ensures
            r == self.spec_times(rhs),
    ;

    fn divided_by(self, rhs: Self) -> (r: Self)
        ensures
            r == self.spec_divided_by(rhs),
    ;

    fn abs(self) -> (r: Self)
        ensures
            r == self.spec_abs(),
    ;

    fn sqrt(self) -> (r: Self)
        ensures
            r == self.spec_sqrt(),
    ;

    fn powf(self, exponent: Self) -> (r: Self)
        ensures
            r == self.spec_powf(exponent),
    ;
}

/// The differences `a - b` and `b - a` have the same absolute value and the
/// same square.
pub open spec fn mirrors<N: Number>(a: N, b: N) -> bool {
    &&& a.spec_minus(b).spec_abs() == b.spec_minus(a).spec_abs()
    &&& a.spec_minus(b).spec_times(a.spec_minus(b)) == b.spec_minus(a).spec_times(
        b.spec_minus(a),
    )
}

/// `a - a` is zero.
pub open spec fn cancels<N: Number>(a: N) -> bool {
    a.spec_minus(a) == N::spec_zero()
}

/// Zero compares equal to zero, and its absolute value, its square, its
/// square root and its sum with itself are zero again.
pub open spec fn keeps_zero<N: Number>() -> bool {
    &&& N::spec_zero().spec_is_zero()
    &&& N::spec_zero().spec_abs() == N::spec_zero()
    &&& N::spec_zero().spec_times(N::spec_zero()) == N::spec_zero()
    &&& N::spec_zero().spec_plus(N::spec_zero()) == N::spec_zero()
    &&& N::spec_zero().spec_sqrt() == N::spec_zero()
}

} // verus!
