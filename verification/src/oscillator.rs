//! The waveform renderer: phase, wrap detection, the enable latch, the held
//! random levels, and the output mapper that follows them.

use vstd::prelude::*;
use crate::delta::Delta;
use crate::fixed::{clamp, clamp_to, multiply, scaled, HALF, ONE, QUARTER};
use crate::phasor::{phase_advance, phase_increment, Phasor};
use crate::random::{random_unit, Draws};
use crate::shape::{LfoOutputMode, LfoShape};
use crate::waveform::{
    blend, cosine_ease, ease, interpolate, lemma_blend_between, lemma_wave_bounds, rectangle,
    rectangle_wave, reflect, reflected, shift, shifted, triangle, triangle_wave, unit_sine,
    unit_sine_wave,
};

verus! {

/// What an [`Oscillator`] holds, as plain numbers.
pub struct OscillatorState {
    /// The sample rate in hertz.
    pub sample_rate: int,
    /// The phase of the accumulator.
    pub phase: int,
    /// The phase that the edge detector saw last.
    pub previous: int,
    /// The enable latch.
    pub enabled: bool,
    /// The level that the random shapes glide from.
    pub origin: int,
    /// The level that the random shapes hold or glide to.
    pub target: int,
}

/// The level of the five shapes that are functions of the phase alone, for
/// an oscillator whose latch is set. The offsets make each shape start at
/// the rest level of its polarity.
pub open spec fn cyclic_wave(shape: LfoShape, mode: LfoOutputMode, phase: int) -> int {
    match shape {
        LfoShape::Sine => unit_sine_wave(
            shifted(
                phase,
                if mode is Bipolar {
                    0
                } else {
                    3 * QUARTER
                },
            ),
        ),
        LfoShape::Triangle => triangle_wave(
            shifted(
                phase,
                if mode is Bipolar {
                    QUARTER as int
                } else {
                    0
                },
            ),
        ),
        LfoShape::SawUp => match mode {
            LfoOutputMode::Bipolar => shifted(phase, HALF as int),
            LfoOutputMode::UnipolarPositive => phase,
            LfoOutputMode::UnipolarNegative => reflected(0, phase),
        },
        LfoShape::SawDown => match mode {
            LfoOutputMode::Bipolar => reflected(HALF as int, phase),
            LfoOutputMode::UnipolarPositive => reflected(0, phase),
            LfoOutputMode::UnipolarNegative => phase,
        },
        _ => rectangle_wave(phase),
    }
}

/// The output of the mapper: the level scaled by `depth`, moved by `offset`,
/// limited to the range from 0 to 1 and spread over -10 to 10.
pub open spec fn mapped_output(level: int, depth: int, offset: int) -> int {
    20 * clamp(scaled(level, depth) + offset, 0, ONE as int) - 10 * ONE
}

impl OscillatorState {
    /// The edge detector follows the accumulator, and the held levels lie
    /// within 0 and 1.
    pub open spec fn wf(self) -> bool {
        &&& self.sample_rate > 0
        &&& 0 <= self.phase < ONE
        &&& self.previous == self.phase
        &&& 0 <= self.origin <= ONE
        &&& 0 <= self.target <= ONE
    }

    /// The state of a new oscillator whose held levels are `level`.
    pub open spec fn initial(sample_rate: int, level: int) -> OscillatorState {
        OscillatorState {
            sample_rate,
            phase: 0,
            previous: 0,
            enabled: true,
            origin: level,
            target: level,
        }
    }

    /// The state after the phase has advanced by one sample at `freq`.
    pub open spec fn tick(self, freq: int) -> OscillatorState {
        let phase = phase_advance(self.phase, phase_increment(freq, self.sample_rate));
        OscillatorState { phase, previous: phase, ..self }
    }

    /// A sample at `freq` starts a new cycle: the phase it arrives at lies
    /// below the phase before it.
    pub open spec fn wraps(self, freq: int) -> bool {
        self.tick(freq).phase < self.previous
    }

    /// The state after the latch and the held levels have been brought up to
    /// date for one sample. They change only where `trigger` is set: the
    /// latch is drawn against `chance`, and a shape that holds a level takes
    /// a fresh one, which is random if the latch is set and the rest level
    /// if not.
    pub open spec fn render(
        self,
        trigger: bool,
        shape: LfoShape,
        chance: int,
        mode: LfoOutputMode,
        draws: Draws,
    ) -> OscillatorState {
        let enabled = if trigger {
            draws.gate < chance
        } else {
            self.enabled
        };
        let fresh = if enabled {
            draws.value as int
        } else {
            mode.neutral()
        };
        OscillatorState {
            enabled,
            origin: if trigger && (shape is Random || shape is CurvedRandom) {
                self.target
            } else {
                self.origin
            },
            target: if trigger && shape.holds_level() {
                fresh
            } else {
                self.target
            },
            ..self
        }
    }

    /// The level that an oscillator in this state puts out at `phase`.
    pub open spec fn level(
        self,
        phase: int,
        shape: LfoShape,
        chance: int,
        mode: LfoOutputMode,
        draws: Draws,
    ) -> int {
        match shape {
            LfoShape::SampleAndHold => self.target,
            LfoShape::Random => blend(self.origin, self.target, phase),
            LfoShape::CurvedRandom => blend(self.origin, self.target, cosine_ease(phase)),
            LfoShape::Noise => if draws.noise_gate < chance {
                draws.value as int
            } else {
                mode.neutral()
            },
            _ => if self.enabled {
                cyclic_wave(shape, mode, phase)
            } else {
                mode.neutral()
            },
        }
    }

    /// The state after one whole sample.
    pub open spec fn step(
        self,
        freq: int,
        shape: LfoShape,
        chance: int,
        mode: LfoOutputMode,
        draws: Draws,
    ) -> OscillatorState {
        self.tick(freq).render(self.wraps(freq), shape, chance, mode, draws)
    }

    /// The level of one whole sample, before the output mapper.
    pub open spec fn step_level(
        self,
        freq: int,
        shape: LfoShape,
        chance: int,
        mode: LfoOutputMode,
        draws: Draws,
    ) -> int {
        self.step(freq, shape, chance, mode, draws).level(
            self.tick(freq).phase,
            shape,
            chance,
            mode,
            draws,
        )
    }

    /// The oscillator rests: its latch is clear and the levels that `shape`
    /// holds are at the rest level of `mode`.
    pub open spec fn resting(self, shape: LfoShape, mode: LfoOutputMode) -> bool {
        &&& !self.enabled
        &&& shape.holds_level() ==> self.target == mode.neutral()
        &&& (shape is Random || shape is CurvedRandom) ==> self.origin == mode.neutral()
    }
}

/// A sample takes a fresh random level: the noise shape where its own gate
/// lets it, a shape that holds a level where the sample starts a cycle and
/// the latch comes out set.
pub open spec fn takes_level(trigger: bool, shape: LfoShape, chance: int, draws: Draws) -> bool {
    if shape is Noise {
        draws.noise_gate < chance
    } else {
        shape.holds_level() && trigger && draws.gate < chance
    }
}

/// `after` and `sample` are what one sample of an oscillator in state
/// `before` gives with the random numbers `draws`.
pub open spec fn sample_with(
    before: OscillatorState,
    after: OscillatorState,
    sample: int,
    freq: int,
    shape: LfoShape,
    chance: int,
    depth: int,
    offset: int,
    mode: LfoOutputMode,
    draws: Draws,
) -> bool {
    &&& after == before.step(freq, shape, chance, mode, draws)
    &&& sample == mapped_output(
        before.step_level(freq, shape, chance, mode, draws),
        depth,
        offset,
    )
}

/// One oscillator: a phase accumulator, an edge detector, the enable latch
/// and the two held levels.
pub struct Oscillator {
    phasor: Phasor,
    delta: Delta,
    is_enabled: bool,
    origin: i64,
    target: i64,
}

impl View for Oscillator {
    type V = OscillatorState;

    closed spec fn view(&self) -> OscillatorState {
        OscillatorState {
            sample_rate: self.phasor.sample_rate(),
            phase: self.phasor.phase(),
            previous: self.delta.previous(),
            enabled: self.is_enabled,
            origin: self.origin as int,
            target: self.target as int,
        }
    }
}

/// Computes [`cyclic_wave`].
pub fn cyclic(shape: LfoShape, mode: LfoOutputMode, phase: u32) -> (level: i64)
    ensures
        level == cyclic_wave(shape, mode, phase as int),
        0 <= level <= ONE,
{
    match shape {
        LfoShape::Sine => {
            let offset: u32 = match mode {
                LfoOutputMode::Bipolar => 0,
                _ => 0xc000_0000,
            };
            unit_sine(shift(phase, offset))
        },
        LfoShape::Triangle => {
            let offset: u32 = match mode {
                LfoOutputMode::Bipolar => 0x4000_0000,
                _ => 0,
            };
            triangle(shift(phase, offset))
        },
        LfoShape::SawUp => match mode {
            LfoOutputMode::Bipolar => shift(phase, 0x8000_0000) as i64,
            LfoOutputMode::UnipolarPositive => phase as i64,
            LfoOutputMode::UnipolarNegative => reflect(0, phase) as i64,
        },
        LfoShape::SawDown => match mode {
            LfoOutputMode::Bipolar => reflect(0x8000_0000, phase) as i64,
            LfoOutputMode::UnipolarPositive => reflect(0, phase) as i64,
            LfoOutputMode::UnipolarNegative => phase as i64,
        },
        _ => rectangle(phase),
    }
}

/// The output mapper, by [`mapped_output`].
pub fn map_output(level: i64, depth: i64, offset: i64) -> (sample: i64)
    ensures
        sample == mapped_output(level as int, depth as int, offset as int),
        -10 * ONE <= sample <= 10 * ONE,
{
    let moved: i128 = multiply(level, depth) + offset as i128;
    20 * clamp_to(moved, 0, ONE) - 10 * ONE
}

impl Oscillator {
    /// An oscillator at phase 0 with its latch set and its held levels at
    /// one half.
    pub fn new(sample_rate: u32) -> (oscillator: Oscillator)
        requires
            sample_rate > 0,
        ensures
            oscillator@ == OscillatorState::initial(sample_rate as int, HALF as int),
            oscillator@.wf(),
    {
        Oscillator::with_level(sample_rate, HALF)
    }

    /// An oscillator at phase 0 with its latch set and its held levels at
    /// `level`.
    pub fn with_level(sample_rate: u32, level: i64) -> (oscillator: Oscillator)
        requires
            sample_rate > 0,
            0 <= level <= ONE,
        ensures
            oscillator@ == OscillatorState::initial(sample_rate as int, level as int),
            oscillator@.wf(),
    {
        Oscillator {
            phasor: Phasor::new(sample_rate),
            delta: Delta::new(),
            is_enabled: true,
            origin: level,
            target: level,
        }
    }

    /// Sets the latch from the random number `draw`: it is set where `draw`
    /// lies below `chance`.
    pub fn initialize_with(&mut self, chance: i64, draw: u32)
        ensures
            final(self)@ == (OscillatorState { enabled: draw < chance, ..old(self)@ }),
    {
        self.is_enabled = (draw as i64) < chance;
    }

    /// Draws the latch at random with probability `chance`. A chance of 0 or
    /// less clears it, a chance of 1 or more sets it.
    pub fn initialize(&mut self, chance: i64)
        ensures
            final(self)@ == (OscillatorState { enabled: final(self)@.enabled, ..old(self)@ }),
            chance <= 0 ==> !final(self)@.enabled,
            chance >= ONE ==> final(self)@.enabled,
    {
        let draw = random_unit();
        self.initialize_with(chance, draw);
    }

    /// Advances the phase by one sample at `freq`. Returns the new phase and
    /// whether it starts a new cycle, which is so exactly where it lies below
    /// the phase before it.
    pub fn tick(&mut self, freq: i64) -> (moved: (u32, bool))
        requires
            old(self)@.wf(),
        ensures
            final(self)@ == old(self)@.tick(freq as int),
            final(self)@.wf(),
            moved.0 == final(self)@.phase,
            moved.1 == old(self)@.wraps(freq as int),
            moved.1 <==> final(self)@.phase < old(self)@.phase,
    {
        let phase = self.phasor.process(freq);
        let trigger = self.delta.process(phase) < 0;
        (phase, trigger)
    }

    /// Renders one sample at `phase`: brings the latch and the held levels
    /// up to date and returns the level, which lies within 0 and 1. With the
    /// latch clear, the shapes that are functions of the phase give the rest
    /// level of `mode`.
    pub fn render(
        &mut self,
        phase: u32,
        trigger: bool,
        shape: LfoShape,
        chance: i64,
        mode: LfoOutputMode,
        draws: Draws,
    ) -> (level: i64)
        requires
            old(self)@.wf(),
        ensures
            final(self)@ == old(self)@.render(trigger, shape, chance as int, mode, draws),
            level == final(self)@.level(phase as int, shape, chance as int, mode, draws),
            final(self)@.wf(),
            0 <= level <= ONE,
            !final(self)@.enabled && !shape.holds_level() && !(shape is Noise) ==> level
                == mode.neutral(),
    {
        if trigger {
            self.is_enabled = (draws.gate as i64) < chance;
        }
        let neutral = mode.rest_level();
        let fresh = if self.is_enabled {
            draws.value as i64
        } else {
            neutral
        };
        proof {
            lemma_wave_bounds(phase as int);
            lemma_blend_between(self.target as int, fresh as int, phase as int);
            lemma_blend_between(self.target as int, fresh as int, cosine_ease(phase as int));
            lemma_blend_between(self.origin as int, self.target as int, phase as int);
            lemma_blend_between(self.origin as int, self.target as int, cosine_ease(phase as int));
        }
        match shape {
            LfoShape::SampleAndHold => {
                if trigger {
                    self.target = fresh;
                }
                self.target
            },
            LfoShape::Random => {
                if trigger {
                    self.origin = self.target;
                    self.target = fresh;
                }
                interpolate(self.origin, self.target, phase as i64)
            },
            LfoShape::CurvedRandom => {
                if trigger {
                    self.origin = self.target;
                    self.target = fresh;
                }
                interpolate(self.origin, self.target, ease(phase))
            },
            LfoShape::Noise => {
                if (draws.noise_gate as i64) < chance {
                    draws.value as i64
                } else {
                    neutral
                }
            },
            _ => {
                if self.is_enabled {
                    cyclic(shape, mode, phase)
                } else {
                    neutral
                }
            },
        }
    }

    /// One whole sample with the random numbers given: the phase advances,
    /// the level is rendered and the output mapper is applied.
    pub fn process_with(
        &mut self,
        freq: i64,
        shape: LfoShape,
        chance: i64,
        depth: i64,
        offset: i64,
        mode: LfoOutputMode,
        draws: Draws,
    ) -> (sample: i64)
        requires
            old(self)@.wf(),
        ensures
            final(self)@.wf(),
            sample_with(
                old(self)@,
                final(self)@,
                sample as int,
                freq as int,
                shape,
                chance as int,
                depth as int,
                offset as int,
                mode,
                draws,
            ),
            -10 * ONE <= sample <= 10 * ONE,
    {
        let (phase, trigger) = self.tick(freq);
        let level = self.render(phase, trigger, shape, chance, mode, draws);
        map_output(level, depth, offset)
    }

    /// Draws the random numbers that a sample consumes, in the order in
    /// which it consumes them: one for the latch where the sample starts a
    /// cycle, one for the noise shape's own decision, and a level where the
    /// shape takes a fresh one. Those that the sample does not consume are 0.
    pub(crate) fn draw(trigger: bool, shape: LfoShape, chance: i64) -> (draws: Draws)
        ensures
            !trigger ==> draws.gate == 0,
            !(shape is Noise) ==> draws.noise_gate == 0,
            !takes_level(trigger, shape, chance as int, draws) ==> draws.value == 0,
    {
        let gate: u32 = if trigger {
            random_unit()
        } else {
            0
        };
        let noise_gate: u32 = match shape {
            LfoShape::Noise => random_unit(),
            _ => 0,
        };
        let wanted = match shape {
            LfoShape::Noise => (noise_gate as i64) < chance,
            LfoShape::SampleAndHold | LfoShape::Random | LfoShape::CurvedRandom => trigger && (
            gate as i64) < chance,
            _ => false,
        };
        let value: u32 = if wanted {
            random_unit()
        } else {
            0
        };
        Draws { gate, noise_gate, value }
    }

    /// One whole sample, with the random numbers taken from the generator as
    /// they are needed. The result is that of `process_with` for some random
    /// numbers.
    pub fn process(
        &mut self,
        freq: i64,
        shape: LfoShape,
        chance: i64,
        depth: i64,
        offset: i64,
        mode: LfoOutputMode,
    ) -> (sample: i64)
        requires
            old(self)@.wf(),
        ensures
            final(self)@.wf(),
            exists|draws: Draws| #[trigger]
                sample_with(
                    old(self)@,
                    final(self)@,
                    sample as int,
                    freq as int,
                    shape,
                    chance as int,
                    depth as int,
                    offset as int,
                    mode,
                    draws,
                ),
            -10 * ONE <= sample <= 10 * ONE,
    {
        let (phase, trigger) = self.tick(freq);
        let draws = Oscillator::draw(trigger, shape, chance);
        let level = self.render(phase, trigger, shape, chance, mode, draws);
        let sample = map_output(level, depth, offset);
        assert(sample_with(
            old(self)@,
            self@,
            sample as int,
            freq as int,
            shape,
            chance as int,
            depth as int,
            offset as int,
            mode,
            draws,
        ));
        sample
    }
}

} // verus!
