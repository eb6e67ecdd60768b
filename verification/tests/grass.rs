use grass::blade::{Blade, ReactionConfig, WindSample};
use grass::controller::{Controller, KD_DEFAULT, KI_DEFAULT, KP_DEFAULT};
use grass::fixed::{add_sat, fix_div, fix_mul, mul_sat, neg_sat, sub_sat, SCALE};
use grass::geometry::{compute_lengths, compute_thicknesses};
use grass::trig::{cos_fix, sin_fix, HALF_PI_FIX, PI_FIX};
use grass::vector::{distance, lerp, new_vec2_with_angle, normalize, Vec2};

fn reference_blade(total_length: i64, segment_count: usize, decay_ratio: i64) -> Blade {
    let mut blade = Blade::new(
        total_length,
        segment_count,
        decay_ratio,
        Vec2::new(0, 0),
        3_000_000,
        Controller::with_reference_gains(),
    );
    blade.init();
    blade
}

fn wide_open_config() -> ReactionConfig {
    ReactionConfig {
        react_horizontal_min: 0,
        react_horizontal_max: 10_000_000,
        react_vertical_min: 0,
        react_vertical_max: 10_000_000,
        integral_min: 0,
        integral_max: 2_000_000,
        bend_min: 0,
        bend_max: 1_000_000,
    }
}

#[test]
fn lengths_sum_to_total_exactly() {
    // Decaying, growing and equal ratios; sums are exact, not merely
    // within a tolerance.
    for &(total, count, ratio) in &[
        (100_000_000i64, 4usize, 500_000i64),
        (30_000_000, 3, 500_000),
        (123_456_789, 7, 777_000),
        (999_999_937, 10, 1_300_000),
        (1_000_000_000_000, 1_000, 995_000),
        (42, 5, 2_000_000),
    ] {
        let lens = compute_lengths(total, count, ratio);
        assert_eq!(lens.len(), count);
        let sum: i64 = lens.iter().sum();
        assert_eq!(sum, total);
    }
}

#[test]
fn lengths_single_segment_is_total() {
    let lens = compute_lengths(123_456_789, 1, 777_000);
    assert_eq!(lens, vec![123_456_789]);
}

#[test]
fn lengths_reference_fixture() {
    // total 100, four segments, ratio 0.5: tip-backward weights
    // 0.5, 0.25, 0.125, 0.0625, so the base holds the smallest share.
    let lens = compute_lengths(100_000_000, 4, 500_000);
    assert_eq!(lens, vec![6_666_666, 13_333_334, 26_666_666, 53_333_334]);
}

#[test]
fn lengths_floor_can_zero_a_vanishing_share() {
    // The smallest representable ratio: its square truncates to
    // nothing, so the base segment's share floors to zero while the
    // sum stays exact.
    let lens = compute_lengths(1_000, 2, 1);
    assert_eq!(lens, vec![0, 1_000]);
}

#[test]
fn lengths_equal_when_ratio_is_one() {
    let lens = compute_lengths(100_000_000, 4, SCALE);
    assert_eq!(lens, vec![25_000_000, 25_000_000, 25_000_000, 25_000_000]);
}

#[test]
fn thicknesses_divide_out_the_ratio() {
    // Ratio below one thickens toward the tip, above one thins.
    assert_eq!(
        compute_thicknesses(3_000_000, 3, 500_000),
        vec![6_000_000, 12_000_000, 24_000_000]
    );
    assert_eq!(
        compute_thicknesses(3_000_000, 3, 2_000_000),
        vec![1_500_000, 750_000, 375_000]
    );
}

#[test]
fn controller_step_is_deterministic() {
    let inputs = [
        (100_000i64, 16_000i64),
        (200_000, 16_000),
        (-150_000, 32_000),
        (50_000, 16_000),
    ];
    let expected_angles = [97_000i64, 193_377, -147_364, 48_529];
    let mut a = Controller::new(KP_DEFAULT, KI_DEFAULT, KD_DEFAULT);
    let mut b = Controller::with_reference_gains();
    for (k, &(target, dt)) in inputs.iter().enumerate() {
        let out_a = a.step(target, dt);
        let out_b = b.step(target, dt);
        assert_eq!(out_a, out_b);
        assert_eq!(a, b);
        assert_eq!(out_a, expected_angles[k]);
    }
    assert_eq!(a.integral, -707);
    assert_eq!(a.derivative, -1_471);
}

#[test]
fn controller_zero_target_integral_monotone() {
    // A positive integral decays monotonically toward zero over 1000
    // frames at the reference gains: no oscillation divergence.
    let mut c = Controller::with_reference_gains();
    c.integral = 1_000_000;
    let mut previous = c.integral;
    let mut peak = c.integral;
    for _ in 0..1_000 {
        let corrected = c.step(0, 16_000);
        // The integral moves opposite the sign of the new error.
        if corrected > 0 {
            assert!(c.integral <= previous);
        } else if corrected < 0 {
            assert!(c.integral >= previous);
        } else {
            assert_eq!(c.integral, previous);
        }
        previous = c.integral;
        peak = peak.max(c.integral.abs());
    }
    assert_eq!(peak, 1_000_000);
    assert_eq!(c.integral, 1_699);
}

#[test]
fn controller_zero_state_stays_zero() {
    let mut c = Controller::with_reference_gains();
    for _ in 0..100 {
        assert_eq!(c.step(0, 16_000), 0);
    }
    assert_eq!(c.integral, 0);
    assert_eq!(c.derivative, 0);
}

#[test]
fn wind_outside_rectangle_is_a_no_op() {
    let mut blade = reference_blade(30_000_000, 3, 500_000);
    blade.update(16_000);
    let before = blade.clone();
    let wind = WindSample {
        position: Vec2::new(20_000_000, 0),
        speed: 1_000_000,
        direction: 500_000,
    };
    blade.update_wind(16_000, wind, wide_open_config());
    assert_eq!(blade, before);
    // Too far vertically is equally ignored.
    let wind_high = WindSample {
        position: Vec2::new(0, 10_000_001),
        speed: 1_000_000,
        direction: 500_000,
    };
    blade.update_wind(16_000, wind_high, wide_open_config());
    assert_eq!(blade, before);
}

#[test]
fn wind_reacting_fixture() {
    let mut blade = reference_blade(30_000_000, 3, 500_000);
    let wind = WindSample {
        position: Vec2::new(5_000_000, 4_000_000),
        speed: 1_000_000,
        direction: 500_000,
    };
    blade.update_wind(16_000, wind, wide_open_config());
    // influence = remap(5.0 of [0,10] into [0,2]) * dt * speed = 0.016,
    // scaled by the segment index: the base is untouched.
    assert_eq!(blade.segments[0].controller.integral, 0);
    assert_eq!(blade.segments[1].controller.integral, 16_000);
    assert_eq!(blade.segments[2].controller.integral, 32_000);
    // bend = remap(|root - wind| of [0, 30] into [0, 1]) + dir * speed.
    assert_eq!(blade.bend_bias, 713_437);
    // Nothing else moved.
    assert_eq!(blade.segments[0].angle, 0);
    assert_eq!(blade.segments[1].start_position, Vec2::new(0, 0));
}

#[test]
fn update_chains_segments_after_any_sequence() {
    let mut blade = reference_blade(100_000_000, 4, 500_000);
    let wind = WindSample {
        position: Vec2::new(3_000_000, 2_000_000),
        speed: 2_000_000,
        direction: -250_000,
    };
    for frame in 0..5 {
        blade.update(16_000);
        assert_eq!(blade.segments[0].start_position, Vec2::new(0, 0));
        for i in 1..blade.segments.len() {
            assert_eq!(
                blade.segments[i].start_position,
                blade.segments[i - 1].end_position
            );
        }
        if frame % 2 == 0 {
            blade.update_wind(16_000, wind, wide_open_config());
        }
    }
    // The wind bent the blade: the tip is no longer on the root's
    // vertical.
    assert_ne!(blade.segments[3].end_position.x, 0);
}

#[test]
fn blade_stands_straight_without_error() {
    // Three segments, total 30, ratio 0.5, root at the origin; all
    // angles start at zero, so one update leaves a straight vertical
    // polyline of exactly the total length.
    let mut blade = reference_blade(30_000_000, 3, 500_000);
    blade.update(16_000);
    let mut expected_y: i64 = 0;
    for (i, &len) in [4_285_714i64, 8_571_428, 17_142_858].iter().enumerate() {
        assert_eq!(blade.segments[i].angle, 0);
        assert_eq!(blade.segments[i].length, len);
        assert_eq!(blade.segments[i].start_position, Vec2::new(0, expected_y));
        expected_y += len;
        assert_eq!(blade.segments[i].end_position, Vec2::new(0, expected_y));
    }
    assert_eq!(blade.segments[2].end_position, Vec2::new(0, 30_000_000));
}

#[test]
fn init_parks_the_chain_at_the_root() {
    let blade = reference_blade(30_000_000, 3, 500_000);
    assert_eq!(blade.segments.len(), 3);
    for seg in &blade.segments {
        assert_eq!(seg.angle, 0);
        assert_eq!(seg.start_position, Vec2::new(0, 0));
        assert_eq!(seg.end_position, Vec2::new(0, 0));
        assert_eq!(seg.controller, Controller::with_reference_gains());
    }
    assert_eq!(blade.segment_lengths, vec![4_285_714, 8_571_428, 17_142_858]);
    assert_eq!(blade.bend_bias, 0);
}

#[test]
fn render_segments_reports_the_polyline() {
    let mut blade = reference_blade(30_000_000, 3, 500_000);
    blade.update(16_000);
    let drawn = blade.render_segments();
    assert_eq!(drawn.len(), 3);
    for (i, &(start, end, thickness)) in drawn.iter().enumerate() {
        assert_eq!(start, blade.segments[i].start_position);
        assert_eq!(end, blade.segments[i].end_position);
        assert_eq!(thickness, blade.segments[i].thickness);
    }
    assert_eq!(drawn[2].1, Vec2::new(0, 30_000_000));
}

#[test]
fn trig_is_exact_at_the_quarter_points() {
    assert_eq!(sin_fix(0), 0);
    assert_eq!(sin_fix(HALF_PI_FIX), SCALE);
    assert_eq!(sin_fix(PI_FIX), 0);
    assert_eq!(sin_fix(-HALF_PI_FIX), -SCALE);
    assert_eq!(cos_fix(0), SCALE);
    assert_eq!(cos_fix(HALF_PI_FIX), 0);
    assert_eq!(cos_fix(PI_FIX), -SCALE);
    // The rational approximation is even exact at pi/6 and pi/3.
    assert_eq!(sin_fix(523_599), 500_000);
    assert_eq!(cos_fix(1_047_197), 500_000);
    // Periodicity: one full turn away, the same values.
    assert_eq!(sin_fix(HALF_PI_FIX + 2 * PI_FIX), SCALE);
    assert_eq!(sin_fix(HALF_PI_FIX - 2 * PI_FIX), SCALE);
}

#[test]
fn vector_from_magnitude_and_angle() {
    assert_eq!(new_vec2_with_angle(2_000_000, 0), Vec2::new(2_000_000, 0));
    assert_eq!(
        new_vec2_with_angle(2_000_000, HALF_PI_FIX),
        Vec2::new(0, 2_000_000)
    );
    assert_eq!(
        new_vec2_with_angle(2_000_000, PI_FIX),
        Vec2::new(-2_000_000, 0)
    );
}

#[test]
fn distance_is_euclidean() {
    let a = Vec2::new(0, 0);
    let b = Vec2::new(3_000_000, 4_000_000);
    assert_eq!(distance(a, b), 5_000_000);
    assert_eq!(distance(b, a), 5_000_000);
    assert_eq!(distance(a, a), 0);
    assert_eq!(
        distance(Vec2::new(-3_000_000, 0), Vec2::new(0, -4_000_000)),
        5_000_000
    );
}

#[test]
fn normalize_remaps_and_extrapolates() {
    // Inside the range, at an end, and extrapolating on both sides:
    // the remap is deliberately unclamped.
    assert_eq!(
        normalize(5_000_000, 0, 10_000_000, 0, 100_000_000),
        50_000_000
    );
    assert_eq!(
        normalize(10_000_000, 0, 10_000_000, 0, 100_000_000),
        100_000_000
    );
    assert_eq!(
        normalize(15_000_000, 0, 10_000_000, 0, 100_000_000),
        150_000_000
    );
    assert_eq!(
        normalize(-5_000_000, 0, 10_000_000, 0, 100_000_000),
        -50_000_000
    );
}

#[test]
fn lerp_interpolates() {
    assert_eq!(lerp(10_000_000, 20_000_000, 0), 10_000_000);
    assert_eq!(lerp(10_000_000, 20_000_000, SCALE), 20_000_000);
    assert_eq!(lerp(10_000_000, 20_000_000, 250_000), 12_500_000);
}

#[test]
fn fixed_point_arithmetic_saturates() {
    assert_eq!(add_sat(i64::MAX, 1), i64::MAX);
    assert_eq!(add_sat(i64::MIN, -1), i64::MIN);
    assert_eq!(sub_sat(i64::MIN, 1), i64::MIN);
    assert_eq!(neg_sat(i64::MIN), i64::MAX);
    assert_eq!(mul_sat(i64::MAX, 2), i64::MAX);
    assert_eq!(mul_sat(i64::MAX, -2), i64::MIN);
    assert_eq!(fix_mul(i64::MAX, 2_000_000), i64::MAX);
}

#[test]
fn fixed_point_products_truncate_toward_zero() {
    assert_eq!(fix_mul(3, 500_000), 1);
    assert_eq!(fix_mul(-3, 500_000), -1);
    assert_eq!(fix_div(1_000_000, 3_000_000), 333_333);
    assert_eq!(fix_div(-1_000_000, 3_000_000), -333_333);
    assert_eq!(fix_mul(2_000_000, 3_000_000), 6_000_000);
}
