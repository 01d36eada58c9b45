//! The single oscillator with smoothed parameters and a bipolar output.

use vstd::prelude::*;
use crate::fixed::{clamp, clamp_to, multiply, scaled, ONE, QUARTER};
use crate::oscillator::{Oscillator, OscillatorState};
use crate::params::Params;
use crate::random::Draws;
use crate::shape::LfoOutputMode;

verus! {

/// The output of the mapper: the level spread over -1 to 1, scaled by
/// `depth`, moved by `offset`, limited to the range from -1 to 1 and spread
/// over -10 to 10.
pub open spec fn bipolar_output(level: int, depth: int, offset: int) -> int {
    10 * clamp(scaled(2 * level - ONE, depth) + offset, -ONE, ONE as int)
}

/// `after`, `params_after` and `sample` are what one sample of an
/// oscillator in state `before` with the parameters `params` gives with the
/// random numbers `draws`: the two smoothers advance, the oscillator runs
/// at the smoothed frequency, and the mapper applies the smoothed depth.
pub open spec fn lfo_sample_with(
    before: OscillatorState,
    after: OscillatorState,
    params: Params,
    params_after: Params,
    sample: int,
    draws: Draws,
) -> bool {
    let freq = params_after.freq.current();
    &&& params_after.freq.advanced(params.freq)
    &&& params_after.depth.advanced(params.depth)
    &&& params_after.shape == params.shape
    &&& params_after.offset == params.offset
    &&& params_after.chance == params.chance
    &&& params_after.is_initialized == params.is_initialized
    &&& after == before.step(
        freq,
        params.shape,
        params.chance as int,
        LfoOutputMode::Bipolar,
        draws,
    )
    &&& sample == bipolar_output(
        before.step_level(freq, params.shape, params.chance as int, LfoOutputMode::Bipolar, draws),
        params_after.depth.current(),
        params.offset as int,
    )
}

/// Computes [`bipolar_output`].
pub fn map_bipolar(level: i64, depth: i64, offset: i64) -> (sample: i64)
    requires
        0 <= level <= ONE,
    ensures
        sample == bipolar_output(level as int, depth as int, offset as int),
        -10 * ONE <= sample <= 10 * ONE,
{
    let moved: i128 = multiply(2 * level - ONE, depth) + offset as i128;
    10 * clamp_to(moved, -ONE, ONE)
}

/// An oscillator of bipolar output whose frequency and depth are smoothed.
pub struct Lfo {
    oscillator: Oscillator,
}

impl View for Lfo {
    type V = OscillatorState;

    closed spec fn view(&self) -> OscillatorState {
        self.oscillator@
    }
}

impl Lfo {
    /// An oscillator at phase 0 with its latch set. The levels that the
    /// random shapes hold start at three quarters, which is one half on the
    /// scale from -1 to 1 that the mapper works on.
    pub fn new(sample_rate: u32) -> (lfo: Lfo)
        requires
            sample_rate > 0,
        ensures
            lfo@ == OscillatorState::initial(sample_rate as int, 3 * QUARTER),
            lfo@.wf(),
    {
        Lfo { oscillator: Oscillator::with_level(sample_rate, 3 * QUARTER) }
    }

    /// One sample with the random numbers given.
    pub fn process_with(&mut self, params: &mut Params, draws: Draws) -> (sample: i64)
        requires
            old(self)@.wf(),
            old(params).wf(),
        ensures
            final(self)@.wf(),
            final(params).wf(),
            lfo_sample_with(
                old(self)@,
                final(self)@,
                *old(params),
                *final(params),
                sample as int,
                draws,
            ),
            -10 * ONE <= sample <= 10 * ONE,
    {
        let freq = params.freq.next();
        let depth = params.depth.next();
        let (phase, trigger) = self.oscillator.tick(freq);
        let level = self.oscillator.render(
            phase,
            trigger,
            params.shape,
            params.chance,
            LfoOutputMode::Bipolar,
            draws,
        );
        map_bipolar(level, depth, params.offset)
    }

    /// One sample, with the random numbers taken from the generator as they
    /// are needed. The result is that of `process_with` for some random
    /// numbers.
    pub fn process(&mut self, params: &mut Params) -> (sample: i64)
        requires
            old(self)@.wf(),
            old(params).wf(),
        ensures
            final(self)@.wf(),
            final(params).wf(),
            exists|draws: Draws| #[trigger]
                lfo_sample_with(
                    old(self)@,
                    final(self)@,
                    *old(params),
                    *final(params),
                    sample as int,
                    draws,
                ),
            -10 * ONE <= sample <= 10 * ONE,
    {
        let freq = params.freq.next();
        let depth = params.depth.next();
        let (phase, trigger) = self.oscillator.tick(freq);
        let draws = Oscillator::draw(trigger, params.shape, params.chance);
        let level = self.oscillator.render(
            phase,
            trigger,
            params.shape,
            params.chance,
            LfoOutputMode::Bipolar,
            draws,
        );
        let sample = map_bipolar(level, depth, params.offset);
        assert(lfo_sample_with(old(self)@, self@, *old(params), *params, sample as int, draws));
        sample
    }
}

} // verus!
