//! The blade: an ordered chain of segments, each with its own
//! controller.
//!
//! [`Blade::init`] derives the length and thickness tables and builds
//! the chain; [`Blade::update`] re-chains the segments base to tip,
//! each segment stepping its controller with its own current angle as
//! the target and starting where its predecessor ends;
//! [`Blade::update_wind`] perturbs the controllers' integral terms and
//! overwrites the bend bias, or does nothing at all when the sample
//! lies outside the configured reaction rectangle.

use crate::controller::Controller;
use crate::fixed::{
    abs_diff_sat, add_sat, fix_mul, mul_sat, spec_abs_diff, spec_add_sat, spec_fix_mul,
    spec_mul_sat, spec_sub_sat, sub_sat,
};
use crate::geometry::{
    compute_lengths, compute_thicknesses, seq_sum, spec_segment_length, spec_segment_thickness,
    MAX_SEGMENT_COUNT, MAX_TOTAL_LENGTH,
};
use crate::trig::HALF_PI_FIX;
use crate::vector::{
    distance, new_vec2_with_angle, normalize, spec_distance, spec_normalize, spec_vec2_with_angle,
    Vec2,
};
use vstd::prelude::*;

verus! {

/// One rigid piece of the chain.
#[derive(Clone, Copy, PartialEq, Eq, Structural, Debug)]
pub struct Segment {
    pub angle: i64,
    pub length: i64,
    pub thickness: i64,
    pub start_position: Vec2,
    pub end_position: Vec2,
    pub controller: Controller,
}

/// The single data point consumed from the outside wind field.
#[derive(Clone, Copy, PartialEq, Eq, Structural, Debug)]
pub struct WindSample {
    pub position: Vec2,
    pub speed: i64,
    pub direction: i64,
}

/// Reaction ranges and remap bounds queried from the external
/// settings collaborator: the `react_horizontal` / `react_vertical`
/// gating rectangle, the `integral` remap range and the `bend` remap
/// range.
#[derive(Clone, Copy, PartialEq, Eq, Structural, Debug)]
pub struct ReactionConfig {
    pub react_horizontal_min: i64,
    pub react_horizontal_max: i64,
    pub react_vertical_min: i64,
    pub react_vertical_max: i64,
    pub integral_min: i64,
    pub integral_max: i64,
    pub bend_min: i64,
    pub bend_max: i64,
}

impl ReactionConfig {
    /// The horizontal reaction range must have extent, since it is the
    /// input range of the integral remap.
    pub open spec fn wf(self) -> bool {
        self.react_horizontal_min != self.react_horizontal_max
    }
}

/// A single blade of grass.
#[derive(Clone, PartialEq, Debug)]
pub struct Blade {
    pub total_length: i64,
    pub segment_count: usize,
    pub decay_ratio: i64,
    pub root_position: Vec2,
    pub base_radius: i64,
    pub controller_template: Controller,
    pub segments: Vec<Segment>,
    pub segment_lengths: Vec<i64>,
    pub segment_thicknesses: Vec<i64>,
    pub bend_bias: i64,
}

impl Blade {
    /// Well-formedness: a valid configuration and one table entry and
    /// one segment per counted segment.
    pub open spec fn wf(self) -> bool {
        &&& 0 < self.total_length <= MAX_TOTAL_LENGTH
        &&& 1 <= self.segment_count <= MAX_SEGMENT_COUNT
        &&& self.decay_ratio >= 1
        &&& self.segments@.len() == self.segment_count
        &&& self.segment_lengths@.len() == self.segment_count
        &&& self.segment_thicknesses@.len() == self.segment_count
    }

    /// The configuration fields of `self` equal those of `other`.
    pub open spec fn same_config(self, other: Blade) -> bool {
        &&& self.total_length == other.total_length
        &&& self.segment_count == other.segment_count
        &&& self.decay_ratio == other.decay_ratio
        &&& self.root_position == other.root_position
        &&& self.base_radius == other.base_radius
        &&& self.controller_template == other.controller_template
    }

    /// A blade holding its configuration, with an empty chain until
    /// [`Blade::init`] builds it.
    pub fn new(
        total_length: i64,
        segment_count: usize,
        decay_ratio: i64,
        root_position: Vec2,
        base_radius: i64,
        controller_template: Controller,
    ) -> (b: Blade)
        requires
            0 < total_length <= MAX_TOTAL_LENGTH,
            1 <= segment_count <= MAX_SEGMENT_COUNT,
            decay_ratio >= 1,
        ensures
            b.total_length == total_length,
            b.segment_count == segment_count,
            b.decay_ratio == decay_ratio,
            b.root_position == root_position,
            b.base_radius == base_radius,
            b.controller_template == controller_template,
            b.segments@.len() == 0,
            b.segment_lengths@.len() == 0,
            b.segment_thicknesses@.len() == 0,
            b.bend_bias == 0,
    {
        Blade {
            total_length,
            segment_count,
            decay_ratio,
            root_position,
            base_radius,
            controller_template,
            segments: Vec::new(),
            segment_lengths: Vec::new(),
            segment_thicknesses: Vec::new(),
            bend_bias: 0,
        }
    }

    /// Derives the geometry tables and builds the chain: every segment
    /// starts as a copy of the controller template, parked at the root
    /// with a zero angle, carrying its tabled length and thickness.
    pub fn init(&mut self)
        requires
            0 < old(self).total_length <= MAX_TOTAL_LENGTH,
            1 <= old(self).segment_count <= MAX_SEGMENT_COUNT,
            old(self).decay_ratio >= 1,
        ensures
            final(self).wf(),
            final(self).same_config(*old(self)),
            final(self).bend_bias == old(self).bend_bias,
            forall|i: int|
                0 <= i < old(self).segment_count ==> final(self).segment_lengths@[i]
                    == spec_segment_length(
                    old(self).total_length as int,
                    old(self).decay_ratio as int,
                    old(self).segment_count as int,
                    i,
                ),
            seq_sum(final(self).segment_lengths@) == old(self).total_length,
            forall|i: int|
                0 <= i < old(self).segment_count ==> final(self).segment_thicknesses@[i]
                    == spec_segment_thickness(
                    old(self).base_radius as int,
                    old(self).decay_ratio as int,
                    i,
                ),
            forall|i: int|
                0 <= i < old(self).segment_count ==> final(self).segments@[i] == (Segment {
                    angle: 0,
                    length: final(self).segment_lengths@[i],
                    thickness: final(self).segment_thicknesses@[i],
                    start_position: old(self).root_position,
                    end_position: old(self).root_position,
                    controller: old(self).controller_template,
                }),
    {
        self.segment_lengths = compute_lengths(
            self.total_length,
            self.segment_count,
            self.decay_ratio,
        );
        self.segment_thicknesses = compute_thicknesses(
            self.base_radius,
            self.segment_count,
            self.decay_ratio,
        );
        let n: usize = self.segment_count;
        let mut segs: Vec<Segment> = Vec::new();
        let mut i: usize = 0;
        while i < n
            invariant
                n == self.segment_count,
                self.segment_lengths@.len() == n,
                self.segment_thicknesses@.len() == n,
                i <= n,
                segs@.len() == i,
                forall|k: int|
                    0 <= k < i ==> segs@[k] == (Segment {
                        angle: 0,
                        length: self.segment_lengths@[k],
                        thickness: self.segment_thicknesses@[k],
                        start_position: self.root_position,
                        end_position: self.root_position,
                        controller: self.controller_template,
                    }),
            decreases n - i,
        {
            let seg = Segment {
                angle: 0,
                length: self.segment_lengths[i],
                thickness: self.segment_thicknesses[i],
                start_position: self.root_position,
                end_position: self.root_position,
                controller: self.controller_template,
            };
            segs.push(seg);
            i = i + 1;
        }
        self.segments = segs;
    }

    /// Where segment `i` starts: at the root for the base segment,
    /// else where its predecessor ends.
    pub open spec fn spec_start_of(self, i: int) -> Vec2 {
        if i == 0 {
            self.root_position
        } else {
            self.segments@[i - 1].end_position
        }
    }

    /// The end a segment reaches from a start point: a step of its
    /// length at a quarter turn minus its angle, so a zero angle
    /// points straight up.
    pub open spec fn spec_end_of(start: Vec2, length: i64, angle: i64) -> Vec2 {
        start.spec_add_vec(
            spec_vec2_with_angle(
                length as int,
                spec_sub_sat(HALF_PI_FIX as int, angle as int),
            ),
        )
    }

    /// Per-frame re-chaining, strictly base to tip. Every segment
    /// takes its tabled length and thickness, steps its controller
    /// with its own current angle as the target, and is placed so the
    /// chain stays one connected polyline rooted at the root position.
    pub fn update(&mut self, dt: i64)
        requires
            old(self).wf(),
        ensures
            final(self).wf(),
            final(self).same_config(*old(self)),
            final(self).segment_lengths == old(self).segment_lengths,
            final(self).segment_thicknesses == old(self).segment_thicknesses,
            final(self).bend_bias == old(self).bend_bias,
            forall|i: int|
                0 <= i < old(self).segment_count ==> {
                    let s_old = old(self).segments@[i];
                    let s_new = #[trigger] final(self).segments@[i];
                    &&& s_new.controller == s_old.controller.spec_step(s_old.angle, dt)
                    &&& s_new.angle == s_new.controller.error
                    &&& s_new.length == old(self).segment_lengths@[i]
                    &&& s_new.thickness == old(self).segment_thicknesses@[i]
                    &&& s_new.start_position == final(self).spec_start_of(i)
                    &&& s_new.end_position == Blade::spec_end_of(
                        s_new.start_position,
                        s_new.length,
                        s_new.angle,
                    )
                },
            final(self).segments@[0].start_position == old(self).root_position,
            forall|i: int|
                1 <= i < old(self).segment_count ==> #[trigger] final(self).segments@[i].start_position
                    == final(self).segments@[i - 1].end_position,
    {
        let n: usize = self.segment_count;
        let mut prev_end: Vec2 = self.root_position;
        let mut i: usize = 0;
        while i < n
            invariant
                old(self).wf(),
                self.wf(),
                n == self.segment_count,
                self.same_config(*old(self)),
                self.segment_lengths == old(self).segment_lengths,
                self.segment_thicknesses == old(self).segment_thicknesses,
                self.bend_bias == old(self).bend_bias,
                i <= n,
                forall|k: int| i <= k < n ==> self.segments@[k] == old(self).segments@[k],
                forall|k: int|
                    0 <= k < i ==> {
                        let s_old = old(self).segments@[k];
                        let s_new = #[trigger] self.segments@[k];
                        &&& s_new.controller == s_old.controller.spec_step(s_old.angle, dt)
                        &&& s_new.angle == s_new.controller.error
                        &&& s_new.length == old(self).segment_lengths@[k]
                        &&& s_new.thickness == old(self).segment_thicknesses@[k]
                        &&& s_new.start_position == self.spec_start_of(k)
                        &&& s_new.end_position == Blade::spec_end_of(
                            s_new.start_position,
                            s_new.length,
                            s_new.angle,
                        )
                    },
                prev_end == (if i == 0 {
                    self.root_position
                } else {
                    self.segments@[i - 1].end_position
                }),
            decreases n - i,
        {
            let l: i64 = self.segment_lengths[i];
            let th: i64 = self.segment_thicknesses[i];
            let s_old: Segment = self.segments[i];
            let mut c: Controller = s_old.controller;
            let ang: i64 = c.step(s_old.angle, dt);
            let start: Vec2 = prev_end;
            let end: Vec2 = start.add_vec(new_vec2_with_angle(l, sub_sat(HALF_PI_FIX, ang)));
            let seg = Segment {
                angle: ang,
                length: l,
                thickness: th,
                start_position: start,
                end_position: end,
                controller: c,
            };
            self.segments[i] = seg;
            prev_end = end;
            i = i + 1;
        }
    }

    /// The wind sample lies strictly outside the reaction rectangle
    /// around the root.
    pub open spec fn spec_outside_reaction(self, wind: WindSample, cfg: ReactionConfig) -> bool {
        ||| spec_abs_diff(wind.position.x as int, self.root_position.x as int)
            > cfg.react_horizontal_max as int
        ||| spec_abs_diff(wind.position.y as int, self.root_position.y as int)
            > cfg.react_vertical_max as int
    }

    /// The common factor added to every controller integral, before
    /// the per-segment index scaling: the horizontal distance remapped
    /// into the integral range, times elapsed time, times wind speed.
    pub open spec fn spec_wind_influence(self, dt: i64, wind: WindSample, cfg: ReactionConfig) -> int {
        spec_fix_mul(
            spec_fix_mul(
                spec_normalize(
                    spec_abs_diff(wind.position.x as int, self.root_position.x as int),
                    cfg.react_horizontal_min as int,
                    cfg.react_horizontal_max as int,
                    cfg.integral_min as int,
                    cfg.integral_max as int,
                ),
                dt as int,
            ),
            wind.speed as int,
        )
    }

    /// The bend bias a reacting wind sample leaves behind: the
    /// root-to-sample distance remapped from `[0, total_length]` into
    /// the bend range, plus direction times speed.
    pub open spec fn spec_bend_bias(self, wind: WindSample, cfg: ReactionConfig) -> int {
        spec_add_sat(
            spec_normalize(
                spec_distance(self.root_position, wind.position),
                0,
                self.total_length as int,
                cfg.bend_min as int,
                cfg.bend_max as int,
            ),
            spec_fix_mul(wind.direction as int, wind.speed as int),
        )
    }

    /// Applies one wind sample. A sample strictly outside the reaction
    /// rectangle leaves the blade untouched. A reacting sample adds
    /// `influence * i` to segment `i`'s controller integral — nothing
    /// to the base, linearly more toward the tip — and overwrites the
    /// bend bias.
    pub fn update_wind(&mut self, dt: i64, wind: WindSample, cfg: ReactionConfig)
        requires
            old(self).wf(),
            cfg.wf(),
        ensures
            final(self).wf(),
            old(self).spec_outside_reaction(wind, cfg) ==> *final(self) == *old(self),
            !old(self).spec_outside_reaction(wind, cfg) ==> {
                &&& final(self).same_config(*old(self))
                &&& final(self).segment_lengths == old(self).segment_lengths
                &&& final(self).segment_thicknesses == old(self).segment_thicknesses
                &&& forall|i: int|
                    0 <= i < old(self).segment_count ==> #[trigger] final(self).segments@[i]
                        == (Segment {
                        controller: Controller {
                            integral: spec_add_sat(
                                old(self).segments@[i].controller.integral as int,
                                spec_mul_sat(
                                    old(self).spec_wind_influence(dt, wind, cfg),
                                    i,
                                ),
                            ) as i64,
                            ..old(self).segments@[i].controller
                        },
                        ..old(self).segments@[i]
                    })
                &&& final(self).bend_bias == old(self).spec_bend_bias(wind, cfg) as i64
            },
    {
        let hd: i64 = abs_diff_sat(wind.position.x, self.root_position.x);
        let vd: i64 = abs_diff_sat(wind.position.y, self.root_position.y);
        if hd > cfg.react_horizontal_max || vd > cfg.react_vertical_max {
            return;
        }
        let influence: i64 = fix_mul(
            fix_mul(
                normalize(
                    hd,
                    cfg.react_horizontal_min,
                    cfg.react_horizontal_max,
                    cfg.integral_min,
                    cfg.integral_max,
                ),
                dt,
            ),
            wind.speed,
        );
        let n: usize = self.segment_count;
        let mut i: usize = 0;
        while i < n
            invariant
                old(self).wf(),
                self.wf(),
                n == self.segment_count,
                self.same_config(*old(self)),
                self.segment_lengths == old(self).segment_lengths,
                self.segment_thicknesses == old(self).segment_thicknesses,
                self.bend_bias == old(self).bend_bias,
                influence as int == old(self).spec_wind_influence(dt, wind, cfg),
                i <= n,
                forall|k: int| i <= k < n ==> self.segments@[k] == old(self).segments@[k],
                forall|k: int|
                    0 <= k < i ==> #[trigger] self.segments@[k] == (Segment {
                        controller: Controller {
                            integral: spec_add_sat(
                                old(self).segments@[k].controller.integral as int,
                                spec_mul_sat(influence as int, k),
                            ) as i64,
                            ..old(self).segments@[k].controller
                        },
                        ..old(self).segments@[k]
                    }),
            decreases n - i,
        {
            let mut seg: Segment = self.segments[i];
            let term: i64 = mul_sat(influence, i as i64);
            seg.controller.integral = add_sat(seg.controller.integral, term);
            self.segments[i] = seg;
            i = i + 1;
        }
        let d: i64 = distance(self.root_position, wind.position);
        self.bend_bias = add_sat(
            normalize(d, 0, self.total_length, cfg.bend_min, cfg.bend_max),
            fix_mul(wind.direction, wind.speed),
        );
    }

    /// Ordered drawing data, one `(start, end, thickness)` triple per
    /// segment, for an external renderer.
    pub fn render_segments(&self) -> (r: Vec<(Vec2, Vec2, i64)>)
        ensures
            r@.len() == self.segments@.len(),
            forall|i: int|
                0 <= i < r@.len() ==> r@[i] == (
                    self.segments@[i].start_position,
                    self.segments@[i].end_position,
                    self.segments@[i].thickness,
                ),
    {
        let n: usize = self.segments.len();
        let mut r: Vec<(Vec2, Vec2, i64)> = Vec::new();
        let mut i: usize = 0;
        while i < n
            invariant
                n == self.segments@.len(),
                i <= n,
                r@.len() == i,
                forall|k: int|
                    0 <= k < i ==> r@[k] == (
                        self.segments@[k].start_position,
                        self.segments@[k].end_position,
                        self.segments@[k].thickness,
                    ),
            decreases n - i,
        {
            let s: Segment = self.segments[i];
            r.push((s.start_position, s.end_position, s.thickness));
            i = i + 1;
        }
        r
    }
}

} // verus!
