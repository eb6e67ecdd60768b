//! Saturating fixed-point arithmetic on `i64` scalars.
//!
//! A scalar counts millionths: the value 1.0 is [`SCALE`]. Products and
//! quotients are truncated toward zero, and every result is clamped to
//! the `i64` range, so each operation is a total function of its
//! arguments with an exact specification.

use vstd::prelude::*;

verus! {

/// Number of fixed-point units in 1.0.
pub const SCALE: i64 = 1_000_000;

/// Clamps a mathematical integer to the `i64` range.
pub open spec fn clip(v: int) -> int {
    if v > i64::MAX as int {
        i64::MAX as int
    } else if v < i64::MIN as int {
        i64::MIN as int
    } else {
        v
    }
}

/// Absolute value of a mathematical integer.
pub open spec fn iabs(v: int) -> int {
    if v < 0 {
        -v
    } else {
        v
    }
}

/// Quotient of `a / b` rounded toward zero, as Rust's integer division
/// rounds. Unspecified (zero) when `b == 0`.
pub open spec fn tdiv(a: int, b: int) -> int {
    if b == 0 {
        0
    } else if (a < 0) != (b < 0) {
        -(iabs(a) / iabs(b))
    } else {
        iabs(a) / iabs(b)
    }
}

/// Saturating sum.
pub open spec fn spec_add_sat(a: int, b: int) -> int {
    clip(a + b)
}

/// Saturating difference.
pub open spec fn spec_sub_sat(a: int, b: int) -> int {
    clip(a - b)
}

/// Saturating negation.
pub open spec fn spec_neg_sat(a: int) -> int {
    clip(-a)
}

/// Saturating plain product (no fixed-point rescaling).
pub open spec fn spec_mul_sat(a: int, b: int) -> int {
    clip(a * b)
}

/// Saturating fixed-point product: `a * b` rescaled back by [`SCALE`].
pub open spec fn spec_fix_mul(a: int, b: int) -> int {
    clip(tdiv(a * b, SCALE as int))
}

/// Saturating fixed-point quotient: `a / b` kept at [`SCALE`] precision.
/// Unspecified (zero) when `b == 0`.
pub open spec fn spec_fix_div(a: int, b: int) -> int {
    if b == 0 {
        0
    } else {
        clip(tdiv(a * SCALE, b))
    }
}

/// Saturating absolute difference `|a - b|`.
pub open spec fn spec_abs_diff(a: int, b: int) -> int {
    clip(iabs(a - b))
}

/// Clamps an `i128` intermediate to the `i64` range.
fn clip_i128(v: i128) -> (r: i64)
    ensures
        r as int == clip(v as int),
{
    if v > i64::MAX as i128 {
        i64::MAX
    } else if v < i64::MIN as i128 {
        i64::MIN
    } else {
        v as i64
    }
}

/// Saturating sum of two scalars.
pub fn add_sat(a: i64, b: i64) -> (r: i64)
    ensures
        r as int == spec_add_sat(a as int, b as int),
{
    clip_i128(a as i128 + b as i128)
}

/// Saturating difference of two scalars.
pub fn sub_sat(a: i64, b: i64) -> (r: i64)
    ensures
        r as int == spec_sub_sat(a as int, b as int),
{
    clip_i128(a as i128 - b as i128)
}

/// Saturating negation of a scalar.
pub fn neg_sat(a: i64) -> (r: i64)
    ensures
        r as int == spec_neg_sat(a as int),
{
    if a == i64::MIN {
        i64::MAX
    } else {
        -a
    }
}

/// Saturating plain product of two scalars.
pub fn mul_sat(a: i64, b: i64) -> (r: i64)
    ensures
        r as int == spec_mul_sat(a as int, b as int),
{
    proof {
        lemma_i64_product_bounds(a as int, b as int);
    }
    clip_i128(a as i128 * b as i128)
}

/// Saturating absolute difference of two scalars.
pub fn abs_diff_sat(a: i64, b: i64) -> (r: i64)
    ensures
        r as int == spec_abs_diff(a as int, b as int),
{
    let d: i128 = a as i128 - b as i128;
    if d < 0 {
        clip_i128(-d)
    } else {
        clip_i128(d)
    }
}

/// Splits an `i128` into its magnitude; the minimum `i128` has no
/// negation and is excluded.
fn magnitude_i128(v: i128) -> (m: u128)
    requires
        v != i128::MIN,
    ensures
        m as int == iabs(v as int),
{
    if v < 0 {
        (-v) as u128
    } else {
        v as u128
    }
}

/// Clamps a nonnegative magnitude with a sign to the `i64` range.
fn signed_clip(neg: bool, m: u128) -> (r: i64)
    ensures
        r as int == (if neg {
            clip(-(m as int))
        } else {
            clip(m as int)
        }),
{
    if neg {
        if m >= 9_223_372_036_854_775_808u128 {
            i64::MIN
        } else {
            -(m as i64)
        }
    } else {
        if m > i64::MAX as u128 {
            i64::MAX
        } else {
            m as i64
        }
    }
}

/// The product of two values of `i64` range stays well inside `i128`.
proof fn lemma_i64_product_bounds(a: int, b: int)
    requires
        i64::MIN as int <= a <= i64::MAX as int,
        i64::MIN as int <= b <= i64::MAX as int,
    ensures
        iabs(a * b) <= 0x4000_0000_0000_0000_0000_0000_0000_0000,
{
    assert(iabs(a * b) <= 0x4000_0000_0000_0000_0000_0000_0000_0000) by (nonlinear_arith)
        requires
            i64::MIN as int <= a <= i64::MAX as int,
            i64::MIN as int <= b <= i64::MAX as int,
    ;
}

/// Saturating fixed-point product of two scalars.
pub fn fix_mul(a: i64, b: i64) -> (r: i64)
    ensures
        r as int == spec_fix_mul(a as int, b as int),
{
    proof {
        lemma_i64_product_bounds(a as int, b as int);
    }
    let p: i128 = a as i128 * b as i128;
    let neg: bool = p < 0;
    let m: u128 = magnitude_i128(p);
    let q: u128 = m / (SCALE as u128);
    signed_clip(neg, q)
}

/// Saturating fixed-point quotient of two scalars; `b` must not be zero.
pub fn fix_div(a: i64, b: i64) -> (r: i64)
    requires
        b != 0,
    ensures
        r as int == spec_fix_div(a as int, b as int),
{
    proof {
        lemma_i64_product_bounds(a as int, SCALE as int);
    }
    let num: i128 = a as i128 * SCALE as i128;
    let nm: u128 = magnitude_i128(num);
    let bm: u128 = magnitude_i128(b as i128);
    let q: u128 = nm / bm;
    signed_clip((num < 0) != (b < 0), q)
}

/// A fixed-point product of nonnegative factors is nonnegative.
pub proof fn lemma_fix_mul_nonneg(a: int, b: int)
    requires
        a >= 0,
        b >= 0,
    ensures
        spec_fix_mul(a, b) >= 0,
{
    assert(a * b >= 0) by (nonlinear_arith)
        requires
            a >= 0,
            b >= 0,
    ;
    vstd::arithmetic::div_mod::lemma_div_pos_is_pos(a * b, SCALE as int);
}

/// A fixed-point product with a zero factor is zero.
pub proof fn lemma_fix_mul_zero(a: int)
    ensures
        spec_fix_mul(a, 0) == 0,
        spec_fix_mul(0, a) == 0,
{
    vstd::arithmetic::div_mod::lemma_div_of0(SCALE as int);
}

} // verus!
