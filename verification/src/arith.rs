//! 32-bit signed arithmetic of the calculator.
//!
//! Every operator is defined by its exact result over the mathematical
//! integers, reduced to 32 bits by two's-complement wraparound. Division
//! truncates toward zero and the remainder takes the sign of the dividend;
//! neither is defined for a zero divisor.

use vstd::prelude::*;

verus! {

/// A binary operator of the calculator.
#[derive(Debug, Clone, Copy, PartialEq, Eq, Structural)]
pub enum Operator {
    /// `+`
    Plus,
    /// `-`
    Minus,
    /// `*`
    Times,
    /// `/`
    Divide,
    /// `%`
    Remainder,
}

/// The value in the `i32` range that differs from `v` by a multiple of 2^32.
pub open spec fn wrap_i32(v: int) -> i32 {
    ((v + 0x8000_0000) % 0x1_0000_0000 - 0x8000_0000) as i32
}

/// The absolute value of `v`.
pub open spec fn magnitude(v: int) -> int {
    if v < 0 {
        -v
    } else {
        v
    }
}

/// The quotient of `x` by `y`, rounded toward zero: the quotient of the
/// magnitudes, negative when exactly one operand is negative.
pub open spec fn trunc_div(x: int, y: int) -> int
    recommends
        y != 0,
{
    let q = magnitude(x) / magnitude(y);
    if (x < 0) != (y < 0) {
        -q
    } else {
        q
    }
}

/// The remainder that goes with `trunc_div`: the remainder of the
/// magnitudes, with the sign of the dividend `x`.
pub open spec fn trunc_rem(x: int, y: int) -> int
    recommends
        y != 0,
{
    let r = magnitude(x) % magnitude(y);
    if x < 0 {
        -r
    } else {
        r
    }
}

/// Quotient and remainder of the magnitudes stay within the magnitudes.
proof fn lemma_magnitude_division(a: int, b: int)
    by (nonlinear_arith)
    requires
        0 <= a,
        0 < b,
    ensures
        0 <= a / b <= a,
        0 <= a % b < b,
        a == b * (a / b) + a % b,
{
}

/// `trunc_div` and `trunc_rem` are the quotient and remainder of division
/// rounded toward zero: they recompose the dividend, the remainder is
/// smaller in magnitude than the divisor, and it is zero or has the sign of
/// the dividend.
pub proof fn lemma_truncating_division(x: int, y: int)
    requires
        y != 0,
    ensures
        x == y * trunc_div(x, y) + trunc_rem(x, y),
        magnitude(trunc_rem(x, y)) < magnitude(y),
        trunc_rem(x, y) != 0 ==> (trunc_rem(x, y) < 0 <==> x < 0),
        magnitude(trunc_div(x, y)) <= magnitude(x),
{
    let a = magnitude(x);
    let b = magnitude(y);
    let q = a / b;
    lemma_magnitude_division(a, b);
    assert(y * q == if y < 0 {
        -(b * q)
    } else {
        b * q
    }) by (nonlinear_arith)
        requires
            b == magnitude(y),
    ;
    assert(y * (-q) == -(y * q)) by (nonlinear_arith);
}

impl Operator {
    /// The result of the operator over the mathematical integers.
    pub open spec fn exact(self, x: int, y: int) -> int {
        match self {
            Operator::Plus => x + y,
            Operator::Minus => x - y,
            Operator::Times => x * y,
            Operator::Divide => trunc_div(x, y),
            Operator::Remainder => trunc_rem(x, y),
        }
    }

    /// Whether the operator has a result for the right operand `y`: all but
    /// division and remainder by zero.
    pub open spec fn defined_for(self, y: int) -> bool {
        y != 0 || !(self is Divide || self is Remainder)
    }

    /// What `apply` returns: the exact result wrapped to 32 bits, where it is
    /// defined.
    pub open spec fn apply_spec(self, x: i32, y: i32) -> Option<i32> {
        if self.defined_for(y as int) {
            Some(wrap_i32(self.exact(x as int, y as int)))
        } else {
            None
        }
    }

    /// Applies the operator to the left operand `x` and the right operand
    /// `y`. Overflow wraps around; division or remainder by zero gives
    /// `None`.
    pub fn apply(self, x: i32, y: i32) -> (r: Option<i32>)
        ensures
            r == self.apply_spec(x, y),
    {
        match self {
            Operator::Plus => Some(x.wrapping_add(y)),
            Operator::Minus => Some(x.wrapping_sub(y)),
            Operator::Times => Some(x.wrapping_mul(y)),
            Operator::Divide => {
                if y == 0 {
                    None
                } else {
                    proof {
                        lemma_magnitude_division(magnitude(x as int), magnitude(y as int));
                    }
                    match x.checked_div(y) {
                        Some(q) => Some(q),
                        None => Some(i32::MIN),
                    }
                }
            },
            Operator::Remainder => {
                if y == 0 {
                    None
                } else {
                    proof {
                        lemma_magnitude_division(magnitude(x as int), magnitude(y as int));
                    }
                    match x.checked_rem(y) {
                        Some(r) => Some(r),
                        None => Some(0),
                    }
                }
            },
        }
    }
}

} // verus!
