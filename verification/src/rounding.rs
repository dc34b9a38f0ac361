//! Rounding arithmetic shared by every stage of the engine.
//!
//! The engine's rounding policy is "round half away from zero", applied when
//! a fixed-point value is reduced to a coarser scale (nanos to cents, scaled
//! rates to hundredths of a percent).

use vstd::prelude::*;

verus! {

/// Largest magnitude a dividend may have so that the rounding formula
/// `(2*a + b) / (2*b)` stays inside `i128`.
pub const DIVIDEND_LIMIT: i128 = 40_000_000_000_000_000_000_000_000_000_000_000_000;

/// Largest divisor accepted by [`div_round`].
pub const DIVISOR_LIMIT: i128 = 10_000_000_000_000_000_000_000_000_000_000_000_000;

/// `a / b` rounded to the nearest integer, halves away from zero.
/// Meaningful for `b > 0`.
pub open spec fn rdiv(a: int, b: int) -> int {
    if a >= 0 {
        (2 * a + b) / (2 * b)
    } else {
        -((2 * (-a) + b) / (2 * b))
    }
}

/// Rounding a value that is an exact multiple of the divisor returns the
/// multiplier unchanged.
pub proof fn lemma_rdiv_exact(k: int, b: int)
    requires
        b > 0,
    ensures
        rdiv(k * b, b) == k,
{
    if k >= 0 {
        assert(k * b >= 0) by (nonlinear_arith)
            requires
                k >= 0,
                b > 0,
        ;
        assert((2 * (k * b) + b) / (2 * b) == k) by (nonlinear_arith)
            requires
                k >= 0,
                b > 0,
        ;
    } else {
        assert(k * b < 0) by (nonlinear_arith)
            requires
                k < 0,
                b > 0,
        ;
        assert((2 * (-(k * b)) + b) / (2 * b) == -k) by (nonlinear_arith)
            requires
                k < 0,
                b > 0,
        ;
    }
}

/// Rounding division never grows a value's magnitude (for divisors of at
/// least one) and never flips its sign.
pub proof fn lemma_rdiv_magnitude(a: int, b: int)
    requires
        b >= 1,
    ensures
        a >= 0 ==> 0 <= rdiv(a, b) <= a,
        a < 0 ==> a <= rdiv(a, b) <= 0,
{
    if a >= 0 {
        assert(0 <= (2 * a + b) / (2 * b) <= a) by (nonlinear_arith)
            requires
                a >= 0,
                b >= 1,
        ;
    } else {
        assert(0 <= (2 * (-a) + b) / (2 * b) <= -a) by (nonlinear_arith)
            requires
                a < 0,
                b >= 1,
        ;
    }
}

/// Executable rounding division, exact counterpart of [`rdiv`].
pub fn div_round(a: i128, b: i128) -> (r: i128)
    requires
        0 < b <= DIVISOR_LIMIT,
        -DIVIDEND_LIMIT <= a <= DIVIDEND_LIMIT,
    ensures
        r == rdiv(a as int, b as int),
{
    if a >= 0 {
        (2 * a + b) / (2 * b)
    } else {
        let na = -a;
        -((2 * na + b) / (2 * b))
    }
}

} // verus!
