//! The random source of the stochastic shapes.

use vstd::prelude::*;

verus! {

/// The random numbers that one sample of an oscillator may consume. Each is
/// a fraction of one in units of `2^-32`, so any `u32` is a number in
/// `[0, 1)`.
#[derive(Clone, Copy, Debug)]
pub struct Draws {
    /// Decides the enable latch when a cycle starts.
    pub gate: u32,
    /// Decides, for the noise shape, whether this sample is random.
    pub noise_gate: u32,
    /// The fresh random level.
    pub value: u32,
}

/// Calls `fastrand::u32` on the full range, which takes the next number of
/// the thread's generator. Nothing is claimed of the result: every `u32` is
/// a possible outcome.
#[verifier::external_body]
pub(crate) fn random_unit() -> (draw: u32) {
    fastrand::u32(..)
}

} // verus!
