//! The control parameters of a single oscillator.

use vstd::prelude::*;
use crate::fixed::ONE;
use crate::shape::{shape_of_code, LfoShape};
use crate::smooth::{between, lemma_linear_converges, ramp_length, LinearSmooth};

verus! {

/// The time in milliseconds over which a parameter glides to a new value.
pub const RAMP_MS: u32 = 12;

/// The parameters of an [`crate::lfo::Lfo`]: frequency and depth are
/// smoothed, the others take effect at once.
pub struct Params {
    /// The frequency in hertz.
    pub freq: LinearSmooth,
    /// The gain applied to the waveform.
    pub depth: LinearSmooth,
    /// The waveform.
    pub shape: LfoShape,
    /// The level added to the scaled waveform.
    pub offset: i64,
    /// The probability with which a new cycle is enabled.
    pub chance: i64,
    /// Whether `set` has been called.
    pub is_initialized: bool,
}

impl Params {
    /// Both smoothers are well formed.
    pub open spec fn wf(&self) -> bool {
        &&& self.freq.wf()
        &&& self.depth.wf()
    }

    /// Parameters at their defaults: a sine that is always enabled, with
    /// frequency, depth and offset 0.
    pub fn new(sample_rate: u32) -> (params: Params)
        ensures
            params.wf(),
            !params.is_initialized,
            params.shape == LfoShape::Sine,
            params.offset == 0,
            params.chance == ONE,
            params.freq.current() == 0 && params.freq.target() == 0 && params.freq.remaining() == 0,
            params.depth.current() == 0 && params.depth.target() == 0 && params.depth.remaining()
                == 0,
            params.freq.ramp_samples() == ramp_length(sample_rate as int, RAMP_MS as int),
            params.depth.ramp_samples() == ramp_length(sample_rate as int, RAMP_MS as int),
    {
        Params {
            freq: LinearSmooth::new(sample_rate, RAMP_MS),
            depth: LinearSmooth::new(sample_rate, RAMP_MS),
            shape: LfoShape::Sine,
            offset: 0,
            chance: ONE,
            is_initialized: false,
        }
    }

    /// Takes new control values. Shape, chance and offset take effect at
    /// once. Frequency and depth jump to their values on the first call and
    /// glide to them on every later one.
    pub fn set(&mut self, freq: i64, shape: u8, chance: i64, depth: i64, offset: i64)
        requires
            old(self).wf(),
            1 <= shape <= 9,
        ensures
            final(self).wf(),
            final(self).is_initialized,
            Some(final(self).shape) == shape_of_code(shape as int),
            final(self).chance == chance,
            final(self).offset == offset,
            old(self).is_initialized ==> final(self).freq.aimed(old(self).freq, freq as int)
                && final(self).depth.aimed(old(self).depth, depth as int),
            !old(self).is_initialized ==> final(self).freq.jumped(old(self).freq, freq as int)
                && final(self).depth.jumped(old(self).depth, depth as int),
    {
        self.shape = Params::map_shape(shape);
        self.chance = chance;
        self.offset = offset;
        if self.is_initialized {
            self.freq.set_target(freq);
            self.depth.set_target(depth);
        } else {
            self.freq.reset(freq);
            self.depth.reset(depth);
            self.is_initialized = true;
        }
    }

    /// The shape that the control value `code` selects.
    pub fn map_shape(code: u8) -> (shape: LfoShape)
        requires
            1 <= code <= 9,
        ensures
            Some(shape) == shape_of_code(code as int),
    {
        match code {
            1 => LfoShape::Sine,
            2 => LfoShape::Triangle,
            3 => LfoShape::SawUp,
            4 => LfoShape::SawDown,
            5 => LfoShape::Rectangle,
            6 => LfoShape::SampleAndHold,
            7 => LfoShape::Random,
            8 => LfoShape::CurvedRandom,
            _ => LfoShape::Noise,
        }
    }
}

/// Both smoothers of `after` are those of `before` one sample later.
pub open spec fn params_advanced(before: Params, after: Params) -> bool {
    &&& after.freq.advanced(before.freq)
    &&& after.depth.advanced(before.depth)
}

/// What `set` starts. After a `set` that is not the first, which takes
/// `before` to state 0, frequency and depth glide: each sample lies between
/// the one before it and the new value and never passes it, from the sample
/// at which the ramp's length is reached it is the new value exactly, and a
/// new value that differs from the present one is not reached before.
pub proof fn lemma_set_glides(before: Params, freq: int, depth: int, states: Seq<Params>, n: nat)
    requires
        before.wf(),
        before.is_initialized,
        1 <= n < states.len(),
        states[0].freq.aimed(before.freq, freq),
        states[0].depth.aimed(before.depth, depth),
        forall|i: int| 1 <= i <= n ==> #[trigger] params_advanced(states[i - 1], states[i]),
    ensures
        between(before.freq.current(), states[n as int].freq.current(), freq),
        between(states[n - 1].freq.current(), states[n as int].freq.current(), freq),
        n >= before.freq.ramp_samples() ==> states[n as int].freq.current() == freq,
        freq != before.freq.target() && freq != before.freq.current() && n
            < before.freq.ramp_samples() ==> states[n as int].freq.current() != freq,
        between(before.depth.current(), states[n as int].depth.current(), depth),
        between(states[n - 1].depth.current(), states[n as int].depth.current(), depth),
        n >= before.depth.ramp_samples() ==> states[n as int].depth.current() == depth,
        depth != before.depth.target() && depth != before.depth.current() && n
            < before.depth.ramp_samples() ==> states[n as int].depth.current() != depth,
{
    let freqs = Seq::new(states.len(), |i: int| states[i].freq);
    let depths = Seq::new(states.len(), |i: int| states[i].depth);
    assert forall|i: int| 1 <= i <= n implies (#[trigger] freqs[i]).advanced(freqs[i - 1]) by {
        assert(params_advanced(states[i - 1], states[i]));
    }
    assert forall|i: int| 1 <= i <= n implies (#[trigger] depths[i]).advanced(depths[i - 1]) by {
        assert(params_advanced(states[i - 1], states[i]));
    }
    lemma_linear_converges(before.freq, freq, freqs, n);
    lemma_linear_converges(before.depth, depth, depths, n);
}

} // verus!
