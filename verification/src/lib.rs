//! Procedural animation of a single blade of grass.
//!
//! A blade is a chain of rigid segments. Each segment owns a feedback
//! controller that smooths the segment's target angle into a corrected
//! angle; segment lengths and thicknesses taper geometrically along the
//! chain; an external wind sample perturbs the controllers' integral
//! terms and a global bend bias.
//!
//! Every scalar in this crate is a fixed-point number: an `i64` counting
//! millionths (see [`fixed::SCALE`]). All arithmetic is exact integer
//! arithmetic, saturating at the `i64` range, so every result is fully
//! determined by the inputs and stated in the contracts.

pub mod blade;
pub mod controller;
pub mod fixed;
pub mod geometry;
pub mod trig;
pub mod vector;
