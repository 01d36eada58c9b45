//! A per-sample engine for low-frequency oscillators, in fixed-point
//! arithmetic.
//!
//! Every quantity is an integer that stands for a real number in units of
//! `2^-32` (see [`fixed`]): a phase is a `u32`, which covers one cycle
//! exactly, and amplitudes, gains and frequencies are `i64`.
//!
//! The parts, leaves first:
//!
//! - [`phasor`] advances the phase, and [`delta`] detects the start of a
//!   cycle;
//! - [`smooth`] turns stepped control values into gliding ones;
//! - [`waveform`] holds the shapes as functions of the phase;
//! - [`oscillator`] renders one sample: it keeps the enable latch and the
//!   random levels, and maps the level to the output range;
//! - [`lfo`] is an oscillator of bipolar output with smoothed [`params`];
//! - [`matrix`] couples two oscillators through the smoothed weights of
//!   [`smooth_parameters`].
//!
//! What holds of every sample is proved in [`oscillator_laws`] and
//! [`matrix_laws`], and beside the functions it concerns.

pub mod fixed;
pub mod phasor;
pub mod delta;
pub mod smooth;
pub mod shape;
pub mod random;
pub mod waveform;
pub mod oscillator;
pub mod oscillator_laws;
pub mod params;
pub mod lfo;
pub mod smooth_parameters;
pub mod matrix;
pub mod matrix_laws;

pub use crate::lfo::Lfo;
pub use crate::matrix::LfoMatrix;
pub use crate::oscillator::Oscillator;
pub use crate::params::Params;
pub use crate::random::Draws;
pub use crate::shape::{LfoOutputMode, LfoShape};
pub use crate::smooth_parameters::SmoothParameters;
