//! Signed 64-bit fixed-point arithmetic with 32 fractional bits.
//!
//! A raw `i64` value `v` stands for the real number `v / FX_ONE`. All
//! operations truncate toward zero and saturate at `FX_MAX` / `FX_MIN`, so
//! they are total: a diverging orbit saturates instead of wrapping, and the
//! escape test still sees a value at or above its threshold.

use vstd::prelude::*;

verus! {

/// The fixed-point representation of 1.0: two to the thirty-second power.
pub const FX_ONE: i64 = 4294967296;

/// Largest representable raw value.
pub const FX_MAX: i64 = i64::MAX;

/// Smallest representable raw value; the negation of `FX_MAX`, so that the
/// range is symmetric and every value has a representable negation.
pub const FX_MIN: i64 = -9223372036854775807;

/// Clamp a mathematical integer into the representable raw range.
pub open spec fn fx_sat(v: int) -> int {
    if v > FX_MAX as int {
        FX_MAX as int
    } else if v < FX_MIN as int {
        FX_MIN as int
    } else {
        v
    }
}

/// Division truncated toward zero, for a positive divisor `d`.
pub open spec fn fx_trunc_div(p: int, d: int) -> int {
    if p >= 0 {
        p / d
    } else {
        -((-p) / d)
    }
}

/// The product of two raw values: `(a * b) / FX_ONE`, truncated and saturated.
pub open spec fn fx_mul_spec(a: int, b: int) -> int {
    fx_sat(fx_trunc_div(a * b, FX_ONE as int))
}

/// The quotient of two raw values: `(a * FX_ONE) / b`, truncated and saturated.
pub open spec fn fx_div_spec(a: int, b: int) -> int {
    fx_sat(fx_trunc_div(a * (FX_ONE as int), b))
}

/// The sum of two raw values, saturated.
pub open spec fn fx_add_spec(a: int, b: int) -> int {
    fx_sat(a + b)
}

/// The difference of two raw values, saturated.
pub open spec fn fx_sub_spec(a: int, b: int) -> int {
    fx_sat(a - b)
}

/// Magnitude of a raw value, widened so that even `i64::MIN` has one.
fn fx_abs(a: i64) -> (r: u64)
    ensures
        r as int == if a >= 0 { a as int } else { -(a as int) },
{
    if a >= 0 {
        a as u64
    } else {
        (-(a as i128)) as u64
    }
}

/// Saturating fixed-point addition.
pub fn fx_add(a: i64, b: i64) -> (r: i64)
    ensures
        r as int == fx_add_spec(a as int, b as int),
{
    let s: i128 = a as i128 + b as i128;
    if s > FX_MAX as i128 {
        FX_MAX
    } else if s < FX_MIN as i128 {
        FX_MIN
    } else {
        s as i64
    }
}

/// Saturating fixed-point subtraction.
pub fn fx_sub(a: i64, b: i64) -> (r: i64)
    ensures
        r as int == fx_sub_spec(a as int, b as int),
{
    let s: i128 = a as i128 - b as i128;
    if s > FX_MAX as i128 {
        FX_MAX
    } else if s < FX_MIN as i128 {
        FX_MIN
    } else {
        s as i64
    }
}

/// The magnitudes of two factors multiply to the magnitude of their product,
/// and a product is negative exactly when the signs of its factors differ.
proof fn lemma_abs_mul(a: int, b: int) by (nonlinear_arith)
    ensures
        (if a >= 0 { a } else { -a }) * (if b >= 0 { b } else { -b }) == (if a * b >= 0 { a * b } else { -(a * b) }),
        a * b < 0 <==> ((a < 0) != (b < 0)) && a * b != 0,
{
}

/// Saturating, truncating fixed-point multiplication.
pub fn fx_mul(a: i64, b: i64) -> (r: i64)
    ensures
        r as int == fx_mul_spec(a as int, b as int),
{
    let neg: bool = (a < 0) != (b < 0);
    let ma: u64 = fx_abs(a);
    let mb: u64 = fx_abs(b);
    proof {
        lemma_abs_mul(a as int, b as int);
        assert((ma as int) * (mb as int) <= (u64::MAX as int) * (u64::MAX as int)) by (nonlinear_arith)
            requires
                0 <= ma as int <= u64::MAX as int,
                0 <= mb as int <= u64::MAX as int,
        ;
    }
    let p: u128 = (ma as u128) * (mb as u128);
    let q: u128 = p / (FX_ONE as u128);
    let qc: i64 = if q > (FX_MAX as u128) {
        FX_MAX
    } else {
        q as i64
    };
    if neg {
        -qc
    } else {
        qc
    }
}

/// Saturating, truncating fixed-point division by a positive divisor.
pub fn fx_div(a: i64, b: i64) -> (r: i64)
    requires
        1 <= b,
    ensures
        r as int == fx_div_spec(a as int, b as int),
{
    let ma: u64 = fx_abs(a);
    proof {
        lemma_abs_mul(a as int, FX_ONE as int);
        assert((ma as int) * (FX_ONE as int) <= (u64::MAX as int) * (FX_ONE as int)) by (nonlinear_arith)
            requires
                0 <= ma as int <= u64::MAX as int,
        ;
    }
    let p: u128 = (ma as u128) * (FX_ONE as u128);
    let q: u128 = p / (b as u128);
    let qc: i64 = if q > (FX_MAX as u128) {
        FX_MAX
    } else {
        q as i64
    };
    if a < 0 {
        -qc
    } else {
        qc
    }
}

/// The raw fixed-point value of the fraction `numerator / denominator`,
/// truncated toward zero: the way tests and callers spell plane constants.
pub fn from_ratio(numerator: i64, denominator: i64) -> (r: i64)
    requires
        1 <= denominator,
    ensures
        r as int == fx_sat(fx_trunc_div(numerator * (FX_ONE as int), denominator as int)),
{
    fx_div(numerator, denominator)
}

} // verus!
