//! 2D vector math on fixed-point scalars.
//!
//! Holds the blade's little vector toolbox: construction of a vector
//! from magnitude and angle, saturating vector addition, Euclidean
//! distance (by exact integer square root), linear interpolation and
//! the unclamped linear remap `normalize`. Out-of-range remap inputs
//! extrapolate; callers that want clamping must clamp first.

use crate::fixed::{
    add_sat, clip, fix_div, fix_mul, iabs, spec_add_sat, spec_fix_div, spec_fix_mul, spec_sub_sat,
    sub_sat,
};
use crate::trig::{cos_fix, sin_fix, spec_cos, spec_sin};
use vstd::prelude::*;

verus! {

/// A point or displacement in the plane, in millionth units.
#[derive(Clone, Copy, PartialEq, Eq, Structural, Debug)]
pub struct Vec2 {
    pub x: i64,
    pub y: i64,
}

/// Floor of the square root of a nonnegative integer (zero on negative
/// input).
pub open spec fn sqrt_floor(n: int) -> int
    decreases n,
{
    if n <= 0 {
        0
    } else {
        let s = sqrt_floor(n - 1);
        if (s + 1) * (s + 1) <= n {
            s + 1
        } else {
            s
        }
    }
}

/// The floor square root is the unique value whose square brackets its
/// argument.
pub proof fn lemma_sqrt_floor_bounds(n: int)
    ensures
        0 <= sqrt_floor(n),
        n >= 0 ==> sqrt_floor(n) * sqrt_floor(n) <= n < (sqrt_floor(n) + 1) * (sqrt_floor(n) + 1),
    decreases n,
{
    if n > 0 {
        lemma_sqrt_floor_bounds(n - 1);
        let s = sqrt_floor(n - 1);
        if (s + 1) * (s + 1) <= n {
            assert(n < ((s + 1) + 1) * ((s + 1) + 1)) by (nonlinear_arith)
                requires
                    n - 1 < (s + 1) * (s + 1),
                    s >= 0,
            ;
        }
    }
}

/// Two integers whose squares both bracket `n` are equal.
pub proof fn lemma_sqrt_unique(n: int, r1: int, r2: int)
    requires
        0 <= r1,
        0 <= r2,
        r1 * r1 <= n < (r1 + 1) * (r1 + 1),
        r2 * r2 <= n < (r2 + 1) * (r2 + 1),
    ensures
        r1 == r2,
{
    assert(r1 == r2) by (nonlinear_arith)
        requires
            0 <= r1,
            0 <= r2,
            r1 * r1 <= n < (r1 + 1) * (r1 + 1),
            r2 * r2 <= n < (r2 + 1) * (r2 + 1),
    ;
}

/// Exact integer square root by bisection.
fn isqrt_u128(n: u128) -> (r: u128)
    ensures
        r as int == sqrt_floor(n as int),
        (r as int) * (r as int) <= n as int,
        (n as int) < (r as int + 1) * (r as int + 1),
{
    let mut lo: u128 = 0;
    let mut hi: u128 = 18_446_744_073_709_551_616u128;
    proof {
        assert((hi as int) * (hi as int) > n as int) by (nonlinear_arith)
            requires
                hi == 18_446_744_073_709_551_616u128,
                (n as int) < 340_282_366_920_938_463_463_374_607_431_768_211_456int,
        ;
    }
    while lo + 1 < hi
        invariant
            lo < hi <= 18_446_744_073_709_551_616u128,
            (lo as int) * (lo as int) <= n as int,
            (n as int) < (hi as int) * (hi as int),
        decreases hi - lo,
    {
        let mid: u128 = lo + (hi - lo) / 2;
        proof {
            assert((mid as int) * (mid as int) < 340_282_366_920_938_463_463_374_607_431_768_211_456int)
                by (nonlinear_arith)
                requires
                    mid < 18_446_744_073_709_551_616u128,
            ;
        }
        if mid * mid <= n {
            lo = mid;
        } else {
            hi = mid;
        }
    }
    proof {
        lemma_sqrt_floor_bounds(n as int);
        lemma_sqrt_unique(n as int, lo as int, sqrt_floor(n as int));
    }
    lo
}

/// Squared length of an integer, as an exact `u128` magnitude square.
fn square_of_i128(v: i128) -> (sq: u128)
    requires
        iabs(v as int) < 18_446_744_073_709_551_616,
    ensures
        sq as int == (v as int) * (v as int),
{
    let m: u128 = if v < 0 {
        (-v) as u128
    } else {
        v as u128
    };
    proof {
        assert((m as int) * (m as int) == (v as int) * (v as int)
            && (m as int) * (m as int) < 340_282_366_920_938_463_463_374_607_431_768_211_456int)
            by (nonlinear_arith)
            requires
                m as int == iabs(v as int),
                iabs(v as int) < 18_446_744_073_709_551_616,
        ;
    }
    m * m
}

impl Vec2 {
    /// A vector from its two coordinates.
    pub fn new(x: i64, y: i64) -> (v: Vec2)
        ensures
            v.x == x,
            v.y == y,
    {
        Vec2 { x, y }
    }

    /// Componentwise saturating sum.
    pub open spec fn spec_add_vec(self, other: Vec2) -> Vec2 {
        Vec2 {
            x: spec_add_sat(self.x as int, other.x as int) as i64,
            y: spec_add_sat(self.y as int, other.y as int) as i64,
        }
    }

    /// Componentwise saturating vector addition.
    pub fn add_vec(self, other: Vec2) -> (v: Vec2)
        ensures
            v == self.spec_add_vec(other),
    {
        Vec2 { x: add_sat(self.x, other.x), y: add_sat(self.y, other.y) }
    }
}

/// Euclidean distance between two points, saturating at the scalar
/// range.
pub open spec fn spec_distance(a: Vec2, b: Vec2) -> int {
    clip(
        sqrt_floor(
            (a.x - b.x) * (a.x - b.x) + (a.y - b.y) * (a.y - b.y),
        ),
    )
}

/// Euclidean distance between two points.
pub fn distance(a: Vec2, b: Vec2) -> (r: i64)
    ensures
        r as int == spec_distance(a, b),
{
    let dx: i128 = a.x as i128 - b.x as i128;
    let dy: i128 = a.y as i128 - b.y as i128;
    let sqx: u128 = square_of_i128(dx);
    let sqy: u128 = square_of_i128(dy);
    if sqx > u128::MAX - sqy {
        proof {
            let d2 = sqx as int + sqy as int;
            lemma_sqrt_floor_bounds(d2);
            let s = sqrt_floor(d2);
            assert(s >= 18_446_744_073_709_551_616) by (nonlinear_arith)
                requires
                    s >= 0,
                    d2 < (s + 1) * (s + 1),
                    d2 >= 340_282_366_920_938_463_463_374_607_431_768_211_456int,
            ;
        }
        i64::MAX
    } else {
        let s: u128 = isqrt_u128(sqx + sqy);
        if s > i64::MAX as u128 {
            i64::MAX
        } else {
            s as i64
        }
    }
}

/// A vector of the given magnitude pointing at the given angle, with
/// both components at fixed-point precision.
pub open spec fn spec_vec2_with_angle(len: int, angle: int) -> Vec2 {
    Vec2 {
        x: spec_fix_mul(len, spec_cos(angle)) as i64,
        y: spec_fix_mul(len, spec_sin(angle)) as i64,
    }
}

/// A vector of the given magnitude pointing at the given angle
/// (radians in millionths, zero along the positive x axis).
pub fn new_vec2_with_angle(len: i64, angle: i64) -> (v: Vec2)
    ensures
        v == spec_vec2_with_angle(len as int, angle as int),
{
    Vec2 { x: fix_mul(len, cos_fix(angle)), y: fix_mul(len, sin_fix(angle)) }
}

/// Unclamped linear remap of `value` from `[in_min, in_max]` to
/// `[out_min, out_max]`.
pub open spec fn spec_normalize(
    value: int,
    in_min: int,
    in_max: int,
    out_min: int,
    out_max: int,
) -> int {
    let ratio = spec_fix_div(spec_sub_sat(value, in_min), spec_sub_sat(in_max, in_min));
    spec_add_sat(out_min, spec_fix_mul(ratio, spec_sub_sat(out_max, out_min)))
}

/// Unclamped linear remap: maps `in_min` to `out_min`, `in_max` to
/// `out_max`, and extrapolates outside the input range.
pub fn normalize(value: i64, in_min: i64, in_max: i64, out_min: i64, out_max: i64) -> (r: i64)
    requires
        in_min != in_max,
    ensures
        r as int == spec_normalize(
            value as int,
            in_min as int,
            in_max as int,
            out_min as int,
            out_max as int,
        ),
{
    let span: i64 = sub_sat(in_max, in_min);
    let ratio: i64 = fix_div(sub_sat(value, in_min), span);
    add_sat(out_min, fix_mul(ratio, sub_sat(out_max, out_min)))
}

/// Linear interpolation from `a` to `b` by the fixed-point fraction
/// `t`.
pub open spec fn spec_lerp(a: int, b: int, t: int) -> int {
    spec_add_sat(a, spec_fix_mul(t, spec_sub_sat(b, a)))
}

/// Linear interpolation: `a` at `t == 0`, `b` at `t == SCALE`.
pub fn lerp(a: i64, b: i64, t: i64) -> (r: i64)
    ensures
        r as int == spec_lerp(a as int, b as int, t as int),
{
    add_sat(a, fix_mul(t, sub_sat(b, a)))
}

} // verus!
