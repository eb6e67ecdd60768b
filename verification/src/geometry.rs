//! Geometric tapering of segment lengths and thicknesses.
//!
//! Each segment of a chain of `n` gets a weight `decay_ratio^(p + 1)`,
//! where `p` counts from the tip backward, and the total length is
//! split in proportion to the weights. The split is by cumulative
//! flooring, so the produced lengths sum to the total *exactly*.
//! Thicknesses shrink from the base by dividing out one more power of
//! the ratio per segment; the one convention kept throughout is that
//! lengths weight by powers of the ratio while thicknesses divide by
//! them.

use crate::fixed::{
    fix_div, fix_mul, lemma_fix_mul_nonneg, spec_fix_div, spec_fix_mul, SCALE,
};
use vstd::arithmetic::div_mod::{
    lemma_div_by_self, lemma_div_is_ordered, lemma_div_multiples_vanish, lemma_div_pos_is_pos,
    lemma_fundamental_div_mod,
};
use vstd::prelude::*;

verus! {

/// Largest total length the geometry accepts, one million length
/// units in millionths.
pub const MAX_TOTAL_LENGTH: i64 = 1_000_000_000_000;

/// Largest segment count the geometry accepts.
pub const MAX_SEGMENT_COUNT: usize = 1_000;

/// The `k`-th fixed-point power of the decay ratio (`SCALE` at zero).
pub open spec fn spec_pow(ratio: int, k: nat) -> int
    decreases k,
{
    if k == 0 {
        SCALE as int
    } else {
        spec_fix_mul(spec_pow(ratio, (k - 1) as nat), ratio)
    }
}

/// Weight of segment `i` of `n` (base-to-tip order): the power of the
/// ratio counted from the tip, so the tip segment weighs `ratio^1`.
pub open spec fn spec_weight(ratio: int, n: int, i: int) -> int {
    spec_pow(ratio, (n - i) as nat)
}

/// Sum of the weights of the first `i` segments of `n`.
pub open spec fn spec_weight_prefix(ratio: int, n: int, i: int) -> int
    decreases i,
{
    if i <= 0 {
        0
    } else {
        spec_weight_prefix(ratio, n, i - 1) + spec_weight(ratio, n, i - 1)
    }
}

/// Length of segment `i` of `n`: the cumulative share of the total up
/// to and including `i`, minus the share up to `i`.
pub open spec fn spec_segment_length(total: int, ratio: int, n: int, i: int) -> int {
    let s = spec_weight_prefix(ratio, n, n);
    (total * spec_weight_prefix(ratio, n, i + 1)) / s - (total * spec_weight_prefix(ratio, n, i))
        / s
}

/// Thickness of segment `i`: the base thickness divided by one more
/// power of the ratio per segment from the base; zero where the power
/// has truncated to nothing.
pub open spec fn spec_segment_thickness(base: int, ratio: int, i: int) -> int {
    let p = spec_pow(ratio, (i + 1) as nat);
    if p == 0 {
        0
    } else {
        spec_fix_div(base, p)
    }
}

/// Sum of a sequence of scalars, as a mathematical integer.
pub open spec fn seq_sum(s: Seq<i64>) -> int
    decreases s.len(),
{
    if s.len() == 0 {
        0
    } else {
        seq_sum(s.drop_last()) + s.last()
    }
}

/// Powers of a nonnegative ratio are nonnegative.
pub proof fn lemma_pow_nonneg(ratio: int, k: nat)
    requires
        ratio >= 0,
    ensures
        spec_pow(ratio, k) >= 0,
    decreases k,
{
    if k > 0 {
        lemma_pow_nonneg(ratio, (k - 1) as nat);
        lemma_fix_mul_nonneg(spec_pow(ratio, (k - 1) as nat), ratio);
    }
}

/// Weight prefix sums of a nonnegative ratio grow with the index.
proof fn lemma_prefix_monotone(ratio: int, n: int, i: int, j: int)
    requires
        ratio >= 0,
        0 <= i <= j,
    ensures
        spec_weight_prefix(ratio, n, i) <= spec_weight_prefix(ratio, n, j),
    decreases j - i,
{
    if i < j {
        lemma_prefix_monotone(ratio, n, i, j - 1);
        lemma_pow_nonneg(ratio, (n - (j - 1)) as nat);
    }
}

/// The first power is the ratio itself.
pub proof fn lemma_pow_one(ratio: int)
    requires
        0 <= ratio <= i64::MAX as int,
    ensures
        spec_pow(ratio, 1) == ratio,
{
    lemma_div_multiples_vanish(ratio, SCALE as int);
    assert(SCALE as int * ratio >= 0) by (nonlinear_arith)
        requires
            ratio >= 0,
    ;
    assert(spec_pow(ratio, 0) == SCALE as int);
    assert(spec_pow(ratio, 1) == spec_fix_mul(SCALE as int, ratio));
}

/// Floor division is superadditive: splitting a sum before dividing
/// can only lose remainder.
proof fn lemma_floor_superadditive(x: int, y: int, d: int)
    requires
        0 <= x,
        0 <= y,
        0 < d,
    ensures
        (x + y) / d >= x / d + y / d,
{
    lemma_fundamental_div_mod(x, d);
    lemma_fundamental_div_mod(y, d);
    let qx = x / d;
    let qy = y / d;
    assert(d * (qx + qy) <= x + y) by (nonlinear_arith)
        requires
            x == d * qx + x % d,
            y == d * qy + y % d,
            x % d >= 0,
            y % d >= 0,
    ;
    lemma_div_is_ordered(d * (qx + qy), x + y, d);
    lemma_div_multiples_vanish(qx + qy, d);
}

/// The fixed-point powers of the decay ratio, exponents `1` to `n`.
fn compute_powers(decay_ratio: i64, n: usize) -> (powers: Vec<i64>)
    requires
        decay_ratio >= 0,
    ensures
        powers@.len() == n,
        forall|k: int| 0 <= k < n ==> powers@[k] == spec_pow(decay_ratio as int, (k + 1) as nat),
        forall|k: int| 0 <= k < n ==> powers@[k] >= 0,
{
    let mut powers: Vec<i64> = Vec::new();
    let mut last: i64 = SCALE;
    let mut k: usize = 0;
    while k < n
        invariant
            decay_ratio >= 0,
            powers@.len() == k,
            k <= n,
            last as int == spec_pow(decay_ratio as int, k as nat),
            last >= 0,
            forall|j: int| 0 <= j < k ==> powers@[j] == spec_pow(decay_ratio as int, (j + 1) as nat),
            forall|j: int| 0 <= j < k ==> powers@[j] >= 0,
        decreases n - k,
    {
        proof {
            lemma_fix_mul_nonneg(last as int, decay_ratio as int);
        }
        last = fix_mul(last, decay_ratio);
        powers.push(last);
        k = k + 1;
    }
    powers
}

/// Splits `total_length` into `segment_count` segment lengths that
/// taper geometrically by `decay_ratio` from the tip (see
/// [`spec_weight`]) and sum to `total_length` exactly.
pub fn compute_lengths(total_length: i64, segment_count: usize, decay_ratio: i64) -> (r: Vec<i64>)
    requires
        0 < total_length <= MAX_TOTAL_LENGTH,
        1 <= segment_count <= MAX_SEGMENT_COUNT,
        decay_ratio >= 1,
    ensures
        r@.len() == segment_count,
        forall|i: int|
            0 <= i < segment_count ==> r@[i] == spec_segment_length(
                total_length as int,
                decay_ratio as int,
                segment_count as int,
                i,
            ),
        forall|i: int| 0 <= i < segment_count ==> r@[i] >= 0,
        forall|i: int|
            0 <= i < segment_count && (total_length as int) * spec_weight(
                decay_ratio as int,
                segment_count as int,
                i,
            ) >= spec_weight_prefix(
                decay_ratio as int,
                segment_count as int,
                segment_count as int,
            ) ==> r@[i] >= 1,
        seq_sum(r@) == total_length,
        segment_count == 1 ==> r@ == seq![total_length],
{
    let n: usize = segment_count;
    let ghost ratio = decay_ratio as int;
    let ghost total = total_length as int;
    let powers: Vec<i64> = compute_powers(decay_ratio, n);

    // Total weight: the full prefix sum, accumulated base-to-tip.
    let mut wsum: u128 = 0;
    let mut j: usize = 0;
    while j < n
        invariant
            n == segment_count,
            powers@.len() == n,
            1 <= n <= MAX_SEGMENT_COUNT,
            j <= n,
            forall|k: int| 0 <= k < n ==> powers@[k] == spec_pow(ratio, (k + 1) as nat),
            forall|k: int| 0 <= k < n ==> powers@[k] >= 0,
            wsum as int == spec_weight_prefix(ratio, n as int, j as int),
            wsum as int <= (j as int) * 9_223_372_036_854_775_807,
        decreases n - j,
    {
        let w: i64 = powers[n - 1 - j];
        proof {
            assert(powers@[n as int - 1 - j as int] == spec_weight(ratio, n as int, j as int));
        }
        wsum = wsum + w as u128;
        j = j + 1;
    }

    let s_total: u128 = wsum;
    proof {
        // The tip weight is the ratio itself, so the total weight is
        // positive.
        lemma_pow_one(ratio);
        lemma_prefix_monotone(ratio, n as int, n as int - 1, n as int);
        lemma_prefix_monotone(ratio, n as int, 0, n as int - 1);
        assert(spec_weight(ratio, n as int, n as int - 1) == spec_pow(ratio, 1));
        assert(s_total as int >= ratio);
    }

    let mut r: Vec<i64> = Vec::new();
    let mut cum: u128 = 0;
    let mut prev_cut: u128 = 0;
    let mut i: usize = 0;
    while i < n
        invariant
            n == segment_count,
            powers@.len() == n,
            1 <= n <= MAX_SEGMENT_COUNT,
            0 < total <= MAX_TOTAL_LENGTH as int,
            total == total_length as int,
            ratio == decay_ratio as int,
            ratio >= 1,
            i <= n,
            r@.len() == i,
            forall|k: int| 0 <= k < n ==> powers@[k] == spec_pow(ratio, (k + 1) as nat),
            forall|k: int| 0 <= k < n ==> powers@[k] >= 0,
            s_total as int == spec_weight_prefix(ratio, n as int, n as int),
            s_total as int >= 1,
            s_total as int <= 1_000 * 9_223_372_036_854_775_807,
            cum as int == spec_weight_prefix(ratio, n as int, i as int),
            cum <= s_total,
            prev_cut as int == (total * cum as int) / (s_total as int),
            prev_cut <= total as u128,
            seq_sum(r@) == prev_cut,
            forall|k: int|
                0 <= k < i ==> r@[k] == spec_segment_length(total, ratio, n as int, k),
            forall|k: int| 0 <= k < i ==> r@[k] >= 0,
            forall|k: int|
                0 <= k < i && total * spec_weight(ratio, n as int, k) >= s_total as int
                    ==> r@[k] >= 1,
        decreases n - i,
    {
        let w: i64 = powers[n - 1 - i];
        proof {
            assert(powers@[n as int - 1 - i as int] == spec_weight(ratio, n as int, i as int));
            lemma_prefix_monotone(ratio, n as int, i as int + 1, n as int);
        }
        let new_cum: u128 = cum + w as u128;
        proof {
            assert(new_cum as int == spec_weight_prefix(ratio, n as int, i as int + 1));
            assert((total * new_cum as int)
                <= 340_282_366_920_938_463_463_374_607_431_768_211_455int) by (nonlinear_arith)
                requires
                    0 < total <= 1_000_000_000_000,
                    0 <= new_cum as int <= 1_000 * 9_223_372_036_854_775_807,
            ;
            assert((total * cum as int) <= (total * new_cum as int)) by (nonlinear_arith)
                requires
                    total > 0,
                    cum as int <= new_cum as int,
            ;
        }
        let num: u128 = (total_length as u128) * new_cum;
        let cut: u128 = num / s_total;
        proof {
            let st = s_total as int;
            lemma_div_is_ordered(total * cum as int, total * new_cum as int, st);
            assert((total * new_cum as int) <= (total * st)) by (nonlinear_arith)
                requires
                    total > 0,
                    new_cum as int <= st,
            ;
            lemma_div_is_ordered(total * new_cum as int, total * st, st);
            lemma_div_multiples_vanish(total, st);
            assert(total * st == st * total) by (nonlinear_arith);
            assert(cut <= total as u128);
            // A share whose weight covers the whole weight sum keeps
            // at least one unit through the flooring.
            let w_i = spec_weight(ratio, n as int, i as int);
            assert(total * new_cum as int == total * cum as int + total * w_i) by (nonlinear_arith)
                requires
                    new_cum as int == cum as int + w_i,
            ;
            assert(total * cum as int >= 0 && total * w_i >= 0) by (nonlinear_arith)
                requires
                    total > 0,
                    cum as int >= 0,
                    w_i >= 0,
            ;
            lemma_floor_superadditive(total * cum as int, total * w_i, st);
            if total * w_i >= st {
                lemma_div_is_ordered(st, total * w_i, st);
                lemma_div_by_self(st);
            }
        }
        let len_i: i64 = (cut - prev_cut) as i64;
        let ghost r_before = r@;
        r.push(len_i);
        proof {
            assert(r@.drop_last() =~= r_before);
        }
        cum = new_cum;
        prev_cut = cut;
        i = i + 1;
    }
    proof {
        lemma_div_multiples_vanish(total, s_total as int);
        assert(total * s_total as int == s_total as int * total) by (nonlinear_arith);
        if segment_count == 1 {
            assert(r@.drop_last().len() == 0);
            assert(seq_sum(r@.drop_last()) == 0);
            assert(r@[0] == total_length);
            assert(r@ =~= seq![total_length]);
        }
    }
    r
}

/// Thicknesses of `segment_count` segments: the base thickness divided
/// by one more fixed-point power of `decay_ratio` per segment from the
/// base.
pub fn compute_thicknesses(base_thickness: i64, segment_count: usize, decay_ratio: i64) -> (r: Vec<
    i64,
>)
    requires
        decay_ratio >= 0,
        segment_count <= MAX_SEGMENT_COUNT,
    ensures
        r@.len() == segment_count,
        forall|i: int|
            0 <= i < segment_count ==> r@[i] == spec_segment_thickness(
                base_thickness as int,
                decay_ratio as int,
                i,
            ),
{
    let n: usize = segment_count;
    let powers: Vec<i64> = compute_powers(decay_ratio, n);
    let mut r: Vec<i64> = Vec::new();
    let mut i: usize = 0;
    while i < n
        invariant
            n == segment_count,
            powers@.len() == n,
            i <= n,
            r@.len() == i,
            forall|k: int| 0 <= k < n ==> powers@[k] == spec_pow(decay_ratio as int, (k + 1) as nat),
            forall|k: int|
                0 <= k < i ==> r@[k] == spec_segment_thickness(
                    base_thickness as int,
                    decay_ratio as int,
                    k,
                ),
        decreases n - i,
    {
        let p: i64 = powers[i];
        let t: i64 = if p == 0 {
            0
        } else {
            fix_div(base_thickness, p)
        };
        r.push(t);
        i = i + 1;
    }
    r
}

} // verus!
