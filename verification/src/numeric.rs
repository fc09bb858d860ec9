//! The scalar capability set the controller is generic over.
//!
//! A controller works on any copyable scalar that offers ordering, addition,
//! subtraction, negation, multiplication, division and a zero value. Each
//! operation is specified against a mathematical model of the scalar: an
//! unbounded integer obtained through [`Numeric::as_int`]. Division is the
//! one operation whose rounding differs between representations, so each
//! implementor names its own quotient function, [`Numeric::div_spec`].

use vstd::prelude::*;

verus! {

/// Truncating integer division (rounding toward zero), the quotient the
/// primitive signed integers compute. Written over Euclidean `/`, which on
/// non-negative operands agrees with truncation. Unused when `b == 0`, as
/// every caller divides by a non-zero scalar.
pub open spec fn div_trunc(a: int, b: int) -> int {
    if a >= 0 && b > 0 {
        a / b
    } else if a <= 0 && b < 0 {
        (-a) / (-b)
    } else if a < 0 && b > 0 {
        -((-a) / b)
    } else if a > 0 && b < 0 {
        -(a / (-b))
    } else {
        0
    }
}

/// An ordered scalar with exact ring arithmetic inside its representable
/// range and a division of its own.
///
/// `as_int` maps a value to the mathematical integer it stands for; `fits`
/// says which integers the representation can hold. Every arithmetic method
/// requires its mathematical result to fit and then promises to return
/// exactly that result, except `divide`, whose result is pinned down by the
/// implementor's `div_spec`.
pub trait Numeric: Sized + Copy {
    /// The mathematical value this scalar stands for.
    spec fn as_int(self) -> int;

    /// Whether the representation can hold the integer `x`.
    spec fn fits(x: int) -> bool;

    /// The quotient this scalar type computes for `a / b` (`b != 0`).
    spec fn div_spec(a: int, b: int) -> int;

    /// Dividing zero by anything non-zero yields zero.
    proof fn div_spec_of_zero(b: int)
        requires
            b != 0,
        ensures
            Self::div_spec(0, b) == 0,
    ;

    /// The scalar standing for zero.
    fn zero() -> (r: Self)
        ensures
            r.as_int() == 0,
    ;

    fn plus(self, rhs: Self) -> (r: Self)
        requires
            Self::fits(self.as_int() + rhs.as_int()),
        ensures
            r.as_int() == self.as_int() + rhs.as_int(),
    ;

    fn minus(self, rhs: Self) -> (r: Self)
        requires
            Self::fits(self.as_int() - rhs.as_int()),
        ensures
            r.as_int() == self.as_int() - rhs.as_int(),
    ;

    fn negate(self) -> (r: Self)
        requires
            Self::fits(-self.as_int()),
        ensures
            r.as_int() == -self.as_int(),
    ;

    fn times(self, rhs: Self) -> (r: Self)
        requires
            Self::fits(self.as_int() * rhs.as_int()),
        ensures
            r.as_int() == self.as_int() * rhs.as_int(),
    ;

    fn divide(self, rhs: Self) -> (r: Self)
        requires
            rhs.as_int() != 0,
            Self::fits(Self::div_spec(self.as_int(), rhs.as_int())),
        ensures
            r.as_int() == Self::div_spec(self.as_int(), rhs.as_int()),
    ;

    fn lt(self, rhs: Self) -> (r: bool)
        ensures
            r == (self.as_int() < rhs.as_int()),
    ;

    fn le(self, rhs: Self) -> (r: bool)
        ensures
            r == (self.as_int() <= rhs.as_int()),
    ;
}

impl Numeric for i64 {
    open spec fn as_int(self) -> int {
        self as int
    }

    open spec fn fits(x: int) -> bool {
        i64::MIN <= x <= i64::MAX
    }

    open spec fn div_spec(a: int, b: int) -> int {
        div_trunc(a, b)
    }

    proof fn div_spec_of_zero(b: int) {
    }

    fn zero() -> (r: i64) {
        0
    }

    fn plus(self, rhs: i64) -> (r: i64) {
        self + rhs
    }

    fn minus(self, rhs: i64) -> (r: i64) {
        self - rhs
    }

    fn negate(self) -> (r: i64) {
        -self
    }

    fn times(self, rhs: i64) -> (r: i64) {
        self * rhs
    }

    fn divide(self, rhs: i64) -> (r: i64) {
        self.checked_div(rhs).unwrap()
    }

    fn lt(self, rhs: i64) -> (r: bool) {
        self < rhs
    }

    fn le(self, rhs: i64) -> (r: bool) {
        self <= rhs
    }
}

impl Numeric for i32 {
    open spec fn as_int(self) -> int {
        self as int
    }

    open spec fn fits(x: int) -> bool {
        i32::MIN <= x <= i32::MAX
    }

    open spec fn div_spec(a: int, b: int) -> int {
        div_trunc(a, b)
    }

    proof fn div_spec_of_zero(b: int) {
    }

    fn zero() -> (r: i32) {
        0
    }

    fn plus(self, rhs: i32) -> (r: i32) {
        self + rhs
    }

    fn minus(self, rhs: i32) -> (r: i32) {
        self - rhs
    }

    fn negate(self) -> (r: i32) {
        -self
    }

    fn times(self, rhs: i32) -> (r: i32) {
        self * rhs
    }

    fn divide(self, rhs: i32) -> (r: i32) {
        self.checked_div(rhs).unwrap()
    }

    fn lt(self, rhs: i32) -> (r: bool) {
        self < rhs
    }

    fn le(self, rhs: i32) -> (r: bool) {
        self <= rhs
    }
}

} // verus!
