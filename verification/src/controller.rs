//! The per-segment feedback controller.
//!
//! A controller smooths a target angle into a corrected angle from its
//! accumulated error history. One step seeds the error and the
//! previous error from the target, blends the proportional, integral
//! and derivative terms of the *previous* frame into the corrected
//! error, then refreshes the derivative against the just-seeded
//! previous error and accumulates `-error * dt` into the integral.
//! That exact sequencing (the derivative and integral always lag one
//! frame) is deliberate and is pinned by [`Controller::spec_step`].
//! The integral accumulates without clamping beyond the scalar range
//! itself.

use crate::fixed::{
    add_sat, fix_mul, neg_sat, spec_add_sat, spec_fix_mul, spec_neg_sat, spec_sub_sat, sub_sat,
};
use vstd::arithmetic::div_mod::lemma_div_pos_is_pos;
use vstd::prelude::*;

verus! {

/// Reference proportional gain, 0.97 in millionths.
pub const KP_DEFAULT: i64 = 970_000;

/// Reference integral gain, 0.4 in millionths.
pub const KI_DEFAULT: i64 = 400_000;

/// Reference derivative gain, 0.001 in millionths.
pub const KD_DEFAULT: i64 = 1_000;

/// A feedback-control unit: error history plus fixed gains.
#[derive(Clone, Copy, PartialEq, Eq, Structural, Debug)]
pub struct Controller {
    pub error: i64,
    pub previous_error: i64,
    pub derivative: i64,
    pub integral: i64,
    pub kp: i64,
    pub ki: i64,
    pub kd: i64,
}

impl Controller {
    /// A controller with zeroed history and the given gains.
    pub fn new(kp: i64, ki: i64, kd: i64) -> (c: Controller)
        ensures
            c == (Controller { error: 0, previous_error: 0, derivative: 0, integral: 0, kp, ki, kd }),
    {
        Controller { error: 0, previous_error: 0, derivative: 0, integral: 0, kp, ki, kd }
    }

    /// A controller with zeroed history and the reference tuning.
    pub fn with_reference_gains() -> (c: Controller)
        ensures
            c == (Controller {
                error: 0,
                previous_error: 0,
                derivative: 0,
                integral: 0,
                kp: KP_DEFAULT,
                ki: KI_DEFAULT,
                kd: KD_DEFAULT,
            }),
    {
        Controller::new(KP_DEFAULT, KI_DEFAULT, KD_DEFAULT)
    }

    /// The corrected error of one step: the proportional share of the
    /// target blended with the previous frame's integral and
    /// derivative.
    pub open spec fn spec_corrected_error(self, target: i64) -> int {
        spec_add_sat(
            spec_add_sat(
                spec_fix_mul(self.kp as int, target as int),
                spec_fix_mul(self.ki as int, self.integral as int),
            ),
            spec_fix_mul(self.kd as int, self.derivative as int),
        )
    }

    /// The whole state after one step with the given target and
    /// elapsed time.
    pub open spec fn spec_step(self, target: i64, dt: i64) -> Controller {
        let e = self.spec_corrected_error(target);
        Controller {
            error: e as i64,
            previous_error: target,
            derivative: spec_sub_sat(e, target as int) as i64,
            integral: spec_add_sat(
                self.integral as int,
                spec_fix_mul(spec_neg_sat(e), dt as int),
            ) as i64,
            kp: self.kp,
            ki: self.ki,
            kd: self.kd,
        }
    }

    /// One feedback update; returns the corrected angle.
    pub fn step(&mut self, target: i64, dt: i64) -> (corrected: i64)
        ensures
            *final(self) == (*old(self)).spec_step(target, dt),
            corrected == final(self).error,
    {
        self.error = target;
        self.previous_error = target;
        self.error = add_sat(
            add_sat(fix_mul(self.kp, self.error), fix_mul(self.ki, self.integral)),
            fix_mul(self.kd, self.derivative),
        );
        self.derivative = sub_sat(self.error, self.previous_error);
        self.integral = add_sat(self.integral, fix_mul(neg_sat(self.error), dt));
        self.error
    }
}

/// The state a controller reaches after a whole sequence of
/// `(target, dt)` inputs.
pub open spec fn spec_run(c: Controller, inputs: Seq<(i64, i64)>) -> Controller
    decreases inputs.len(),
{
    if inputs.len() == 0 {
        c
    } else {
        spec_run(c.spec_step(inputs[0].0, inputs[0].1), inputs.drop_first())
    }
}

/// The corrected angles a controller emits over a whole sequence of
/// `(target, dt)` inputs.
pub open spec fn spec_angles(c: Controller, inputs: Seq<(i64, i64)>) -> Seq<i64>
    decreases inputs.len(),
{
    if inputs.len() == 0 {
        Seq::empty()
    } else {
        seq![c.spec_step(inputs[0].0, inputs[0].1).error] + spec_angles(
            c.spec_step(inputs[0].0, inputs[0].1),
            inputs.drop_first(),
        )
    }
}

/// Law: stepping is deterministic. The outcome of a step, and of any
/// sequence of steps, is a function of the starting state and the
/// inputs alone: two controllers in equal states fed equal inputs
/// stay equal throughout and emit identical angle sequences.
pub proof fn lemma_step_deterministic(c1: Controller, c2: Controller, inputs: Seq<(i64, i64)>)
    requires
        c1 == c2,
    ensures
        spec_run(c1, inputs) == spec_run(c2, inputs),
        spec_angles(c1, inputs) == spec_angles(c2, inputs),
        forall|target: i64, dt: i64|
            #[trigger] c1.spec_step(target, dt) == c2.spec_step(target, dt),
{
}

/// Law: with a zero target and positive elapsed time, one step moves
/// the integral in the direction of `-error * dt`: down when the new
/// error is positive, up when it is negative, not at all when it is
/// zero.
pub proof fn lemma_zero_target_integral_direction(c: Controller, dt: i64)
    requires
        dt > 0,
    ensures
        c.spec_step(0, dt).error > 0 ==> c.spec_step(0, dt).integral <= c.integral,
        c.spec_step(0, dt).error < 0 ==> c.spec_step(0, dt).integral >= c.integral,
        c.spec_step(0, dt).error == 0 ==> c.spec_step(0, dt).integral == c.integral,
{
    let e = c.spec_corrected_error(0);
    let ne = spec_neg_sat(e);
    let term = spec_fix_mul(ne, dt as int);
    if e > 0 {
        assert(ne * (dt as int) < 0) by (nonlinear_arith)
            requires
                ne < 0,
                dt > 0,
        ;
        lemma_div_pos_is_pos(-(ne * (dt as int)), crate::fixed::SCALE as int);
    } else if e < 0 {
        assert(ne * (dt as int) > 0) by (nonlinear_arith)
            requires
                ne > 0,
                dt > 0,
        ;
        lemma_div_pos_is_pos(ne * (dt as int), crate::fixed::SCALE as int);
    } else {
        assert(ne == 0);
        crate::fixed::lemma_fix_mul_zero(dt as int);
        assert(term == 0);
    }
}

/// Law: a controller whose history is all zero is a fixed point of the
/// zero-target step: the corrected angle stays zero and no history
/// field moves.
pub proof fn lemma_zero_state_stays_zero(c: Controller, dt: i64)
    requires
        c.integral == 0,
        c.derivative == 0,
    ensures
        c.spec_step(0, dt).error == 0,
        c.spec_step(0, dt).previous_error == 0,
        c.spec_step(0, dt).derivative == 0,
        c.spec_step(0, dt).integral == 0,
{
    crate::fixed::lemma_fix_mul_zero(c.kp as int);
    crate::fixed::lemma_fix_mul_zero(c.ki as int);
    crate::fixed::lemma_fix_mul_zero(c.kd as int);
    crate::fixed::lemma_fix_mul_zero(dt as int);
    assert(c.spec_corrected_error(0) == 0);
}

} // verus!
