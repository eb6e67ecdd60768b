//! Fixed-point sine and cosine.
//!
//! Angles are radians in millionths, with [`PI_FIX`] as this crate's
//! canonical half-turn. On `[0, PI_FIX]` the sine is the rational
//! approximation `16 y (PI - y) / (5 PI^2 - 4 y (PI - y))`, which is
//! exact at `0`, `PI_FIX / 2` and `PI_FIX`; outside that interval the
//! angle is reduced by periodicity. Every result is an exact integer
//! function of the argument and lies in `[-SCALE, SCALE]`.

use crate::fixed::SCALE;
use vstd::arithmetic::div_mod::{
    lemma_div_is_ordered, lemma_div_multiples_vanish, lemma_fundamental_div_mod,
    lemma_fundamental_div_mod_converse_mod, lemma_mod_multiples_basic, lemma_small_mod,
};
use vstd::prelude::*;

verus! {

/// Half turn: the mathematical constant pi in millionth radians.
pub const PI_FIX: i64 = 3_141_592;

/// Quarter turn: half of [`PI_FIX`].
pub const HALF_PI_FIX: i64 = 1_570_796;

/// Full turn: twice [`PI_FIX`].
pub const TWO_PI_FIX: i64 = 6_283_184;

/// Sine on the reduced interval `[0, PI_FIX]`.
pub open spec fn spec_half_sine(y: int) -> int {
    let p = y * (PI_FIX as int - y);
    (16 * p * (SCALE as int)) / (5 * (PI_FIX as int) * (PI_FIX as int) - 4 * p)
}

/// Sine of any angle, by Euclidean reduction modulo a full turn.
pub open spec fn spec_sin(x: int) -> int {
    let r = x % (TWO_PI_FIX as int);
    if r < PI_FIX as int {
        spec_half_sine(r)
    } else {
        -spec_half_sine(r - PI_FIX as int)
    }
}

/// Cosine of any angle: the sine a quarter turn ahead.
pub open spec fn spec_cos(x: int) -> int {
    spec_sin(x + HALF_PI_FIX as int)
}

/// Euclidean remainder of an angle modulo a full turn.
fn reduce_two_pi(x: i64) -> (r: i64)
    ensures
        r as int == (x as int) % (TWO_PI_FIX as int),
        0 <= r < TWO_PI_FIX,
{
    if x >= 0 {
        let r: u64 = (x as u64) % (TWO_PI_FIX as u64);
        r as i64
    } else {
        let t: u64 = (-(x as i128)) as u64;
        let m: u64 = t % (TWO_PI_FIX as u64);
        proof {
            let xi = x as int;
            let n = TWO_PI_FIX as int;
            let ti = t as int;
            let q = ti / n;
            lemma_fundamental_div_mod(ti, n);
            if m == 0 {
                assert(xi == (-q) * n) by (nonlinear_arith)
                    requires
                        xi == -ti,
                        ti == q * n + m,
                        m == 0,
                ;
                lemma_mod_multiples_basic(-q, n);
            } else {
                assert(xi == (-q - 1) * n + (n - m)) by (nonlinear_arith)
                    requires
                        xi == -ti,
                        ti == q * n + m,
                ;
                lemma_fundamental_div_mod_converse_mod(xi, n, -q - 1, n - m as int);
            }
        }
        if m == 0 {
            0
        } else {
            TWO_PI_FIX - m as i64
        }
    }
}

/// Sine on the reduced interval, exact at its ends and its middle.
fn half_sine(y: i64) -> (r: i64)
    requires
        0 <= y <= PI_FIX,
    ensures
        r as int == spec_half_sine(y as int),
        0 <= r <= SCALE,
{
    proof {
        let yi = y as int;
        let pi = PI_FIX as int;
        assert(0 <= yi * (pi - yi) && 4 * (yi * (pi - yi)) <= pi * pi) by (nonlinear_arith)
            requires
                0 <= yi <= pi,
                pi == 2 * (HALF_PI_FIX as int),
        ;
    }
    let p: u128 = (y as u128) * ((PI_FIX - y) as u128);
    proof {
        assert(p as int == (y as int) * (PI_FIX as int - y as int));
        assert(p as int <= 2_467_400_073_616) by (nonlinear_arith)
            requires
                4 * (p as int) <= (PI_FIX as int) * (PI_FIX as int),
                PI_FIX == 3_141_592,
        ;
    }
    let num: u128 = 16_000_000u128 * p;
    let den: u128 = 5 * (PI_FIX as u128) * (PI_FIX as u128) - 4 * p;
    proof {
        assert(num as int == 16 * (p as int) * (SCALE as int)) by (nonlinear_arith)
            requires
                num as int == 16_000_000 * (p as int),
                SCALE == 1_000_000,
        ;
    }
    let q: u128 = num / den;
    proof {
        let pi = PI_FIX as int;
        let s = SCALE as int;
        let pp = p as int;
        let d = 5 * pi * pi - 4 * pp;
        assert(num as int == 16 * pp * s && den as int == d && d > 0);
        assert(16 * pp * s <= s * d) by (nonlinear_arith)
            requires
                4 * pp <= pi * pi,
                pp >= 0,
                s > 0,
                d == 5 * pi * pi - 4 * pp,
        ;
        lemma_div_is_ordered(16 * pp * s, s * d, d);
        lemma_div_multiples_vanish(s, d);
        assert(s * d == d * s) by (nonlinear_arith);
        assert(q as int <= s);
    }
    q as i64
}

/// Sine of an angle in millionth radians; the result is a fixed-point
/// value in `[-SCALE, SCALE]`.
pub fn sin_fix(x: i64) -> (r: i64)
    ensures
        r as int == spec_sin(x as int),
        -SCALE <= r <= SCALE,
{
    let red: i64 = reduce_two_pi(x);
    if red < PI_FIX {
        half_sine(red)
    } else {
        -half_sine(red - PI_FIX)
    }
}

/// Cosine of an angle in millionth radians; the result is a fixed-point
/// value in `[-SCALE, SCALE]`.
pub fn cos_fix(x: i64) -> (r: i64)
    ensures
        r as int == spec_cos(x as int),
        -SCALE <= r <= SCALE,
{
    let red: i64 = reduce_two_pi(x);
    let shifted: i64 = if red + HALF_PI_FIX >= TWO_PI_FIX {
        red + HALF_PI_FIX - TWO_PI_FIX
    } else {
        red + HALF_PI_FIX
    };
    proof {
        let xi = x as int;
        let h = HALF_PI_FIX as int;
        let n = TWO_PI_FIX as int;
        lemma_mod_shift_small(xi, h, n);
        assert(shifted as int == (xi + h) % n) by {
            let r0 = xi % n;
            if r0 + h >= n {
                lemma_fundamental_div_mod_converse_mod(r0 + h, n, 1, r0 + h - n);
            } else {
                lemma_small_mod((r0 + h) as nat, n as nat);
            }
        }
    }
    if shifted < PI_FIX {
        half_sine(shifted)
    } else {
        -half_sine(shifted - PI_FIX)
    }
}

/// Adding less than one turn commutes with reduction: the sum's
/// remainder is the remainder's sum, reduced once more.
proof fn lemma_mod_shift_small(x: int, h: int, n: int)
    requires
        0 < n,
        0 <= h < n,
    ensures
        (x + h) % n == ((x % n) + h) % n,
{
    vstd::arithmetic::div_mod::lemma_add_mod_noop(x, h, n);
    lemma_small_mod(h as nat, n as nat);
}

} // verus!
