//! Two oscillators coupled through a smoothed mixing matrix. Each
//! oscillator's phase is modulated by a mix of both outputs of the sample
//! before, and two further mixes are the outputs of the engine.

use vstd::prelude::*;
use crate::fixed::{saturate, saturated, ONE, QUARTER};
use crate::oscillator::{Oscillator, OscillatorState};
use crate::random::Draws;
use crate::shape::{LfoOutputMode, LfoShape};
use crate::smooth::RampSmooth;
use crate::smooth_parameters::{
    routing, weights_at_rest, weights_followed, weights_jumped, weights_wf, SmoothParameters,
    LFO1_TO_LFO1, LFO1_TO_LFO2, LFO1_TO_OUT1, LFO1_TO_OUT2, LFO2_TO_LFO1, LFO2_TO_LFO2,
    LFO2_TO_OUT1, LFO2_TO_OUT2,
};
use crate::waveform::{shift, shifted};

verus! {

/// What an [`LfoMatrix`] holds, as plain values.
pub struct MatrixState {
    /// The first oscillator.
    pub lfo1: OscillatorState,
    /// The second oscillator.
    pub lfo2: OscillatorState,
    /// The eight smoothed routing weights.
    pub weights: Seq<RampSmooth>,
    /// The modulation that the next sample applies to each oscillator.
    pub feedback: (int, int),
}

/// The inputs of one sample of the matrix.
pub struct MatrixInput {
    /// Whether the first oscillator runs.
    pub lfo1_on: bool,
    /// The frequency of the first oscillator.
    pub lfo1_freq: int,
    /// The shape of the first oscillator.
    pub lfo1_shape: LfoShape,
    /// Whether the second oscillator runs.
    pub lfo2_on: bool,
    /// The frequency of the second oscillator.
    pub lfo2_freq: int,
    /// The shape of the second oscillator.
    pub lfo2_shape: LfoShape,
    /// The eight routing weights.
    pub targets: Seq<int>,
}

/// The inputs of one sample, put together.
pub open spec fn matrix_input(
    lfo1_on: bool,
    lfo1_freq: int,
    lfo1_shape: LfoShape,
    lfo2_on: bool,
    lfo2_freq: int,
    lfo2_shape: LfoShape,
    targets: Seq<int>,
) -> MatrixInput {
    MatrixInput { lfo1_on, lfo1_freq, lfo1_shape, lfo2_on, lfo2_freq, lfo2_shape, targets }
}

/// The fraction of a cycle by which `feedback` moves the phase.
pub open spec fn modulation(feedback: int) -> int {
    feedback % (ONE as int)
}

/// The state of an oscillator of the matrix after one sample. One that is
/// switched off stands still. One that runs is always enabled and of
/// bipolar output.
pub open spec fn voice_step(
    state: OscillatorState,
    on: bool,
    freq: int,
    shape: LfoShape,
    draws: Draws,
) -> OscillatorState {
    if on {
        state.step(freq, shape, ONE as int, LfoOutputMode::Bipolar, draws)
    } else {
        state
    }
}

/// The output of an oscillator of the matrix, from -1 to 1: its level at
/// the phase moved by `feedback`, or 0 where it is switched off.
pub open spec fn voice_level(
    state: OscillatorState,
    on: bool,
    freq: int,
    shape: LfoShape,
    feedback: int,
    draws: Draws,
) -> int {
    if on {
        2 * voice_step(state, on, freq, shape, draws).level(
            shifted(state.tick(freq).phase, modulation(feedback)),
            shape,
            ONE as int,
            LfoOutputMode::Bipolar,
            draws,
        ) - ONE
    } else {
        0
    }
}

/// The mix of the two oscillator outputs with one row of a matrix, rounded
/// down and limited to what an `i64` holds.
pub open spec fn mixed(levels: (int, int), from_lfo1: int, from_lfo2: int) -> int {
    saturated((levels.0 * from_lfo1 + levels.1 * from_lfo2) / (ONE as int))
}

impl MatrixState {
    /// Both oscillators and all eight smoothers are well formed.
    pub open spec fn wf(self) -> bool {
        &&& self.lfo1.wf()
        &&& self.lfo2.wf()
        &&& weights_wf(self.weights)
    }

    /// The outputs of the two oscillators on a sample. They are modulated
    /// by the feedback that this state holds, which the sample before has
    /// left.
    pub open spec fn levels(self, input: MatrixInput, draws1: Draws, draws2: Draws) -> (int, int) {
        (
            voice_level(
                self.lfo1,
                input.lfo1_on,
                input.lfo1_freq,
                input.lfo1_shape,
                self.feedback.0,
                draws1,
            ),
            voice_level(
                self.lfo2,
                input.lfo2_on,
                input.lfo2_freq,
                input.lfo2_shape,
                self.feedback.1,
                draws2,
            ),
        )
    }

    /// The present value of the routing weight at `place`.
    pub open spec fn weight(self, place: usize) -> int {
        self.weights[place as int].current()
    }
}

/// `after` and `outputs` are what one sample of a matrix in state `before`
/// gives on `input` with the random numbers `draws1` and `draws2`. The
/// oscillators render first, the weights advance, and the new feedback and
/// the outputs are mixes of what the oscillators rendered.
pub open spec fn matrix_sample_with(
    before: MatrixState,
    after: MatrixState,
    outputs: (int, int),
    input: MatrixInput,
    draws1: Draws,
    draws2: Draws,
) -> bool {
    let levels = before.levels(input, draws1, draws2);
    &&& after.lfo1 == voice_step(
        before.lfo1,
        input.lfo1_on,
        input.lfo1_freq,
        input.lfo1_shape,
        draws1,
    )
    &&& after.lfo2 == voice_step(
        before.lfo2,
        input.lfo2_on,
        input.lfo2_freq,
        input.lfo2_shape,
        draws2,
    )
    &&& weights_followed(before.weights, after.weights, input.targets)
    &&& after.feedback == (
        mixed(levels, after.weight(LFO1_TO_LFO1), after.weight(LFO2_TO_LFO1)),
        mixed(levels, after.weight(LFO1_TO_LFO2), after.weight(LFO2_TO_LFO2)),
    )
    &&& outputs == (
        mixed(levels, after.weight(LFO1_TO_OUT1), after.weight(LFO2_TO_OUT1)),
        mixed(levels, after.weight(LFO1_TO_OUT2), after.weight(LFO2_TO_OUT2)),
    )
}

/// Computes [`mixed`].
pub fn mix_row(levels: (i64, i64), row: [i64; 2]) -> (sum: i64)
    requires
        -ONE <= levels.0 <= ONE,
        -ONE <= levels.1 <= ONE,
    ensures
        sum == mixed((levels.0 as int, levels.1 as int), row[0] as int, row[1] as int),
{
    let from_lfo1 = row[0];
    let from_lfo2 = row[1];
    assert(-0x8000_0000_0000_0000_0000_0000 <= levels.0 * from_lfo1
        <= 0x8000_0000_0000_0000_0000_0000) by (nonlinear_arith)
        requires
            -0x1_0000_0000 <= levels.0 <= 0x1_0000_0000,
            -0x8000_0000_0000_0000 <= from_lfo1 <= 0x8000_0000_0000_0000,
    ;
    assert(-0x8000_0000_0000_0000_0000_0000 <= levels.1 * from_lfo2
        <= 0x8000_0000_0000_0000_0000_0000) by (nonlinear_arith)
        requires
            -0x1_0000_0000 <= levels.1 <= 0x1_0000_0000,
            -0x8000_0000_0000_0000 <= from_lfo2 <= 0x8000_0000_0000_0000,
    ;
    let weighted: i128 = (levels.0 as i128) * (from_lfo1 as i128) + (levels.1 as i128) * (
    from_lfo2 as i128);
    let quotient: i128 = weighted / 0x1_0000_0000;
    let remainder: i128 = weighted % 0x1_0000_0000;
    if remainder < 0 {
        saturate(quotient - 1)
    } else {
        saturate(quotient)
    }
}

/// Computes [`modulation`].
pub fn phase_offset(feedback: i64) -> (offset: u32)
    ensures
        offset == modulation(feedback as int),
{
    let remainder: i64 = feedback % ONE;
    if remainder < 0 {
        (remainder + ONE) as u32
    } else {
        remainder as u32
    }
}

/// Two oscillators, the smoothed routing weights between them, and the
/// feedback that the last sample has left for the next.
pub struct LfoMatrix {
    smooth_parameters: SmoothParameters,
    lfo1: Oscillator,
    lfo2: Oscillator,
    feedback: [i64; 2],
}

impl View for LfoMatrix {
    type V = MatrixState;

    closed spec fn view(&self) -> MatrixState {
        MatrixState {
            lfo1: self.lfo1@,
            lfo2: self.lfo2@,
            weights: self.smooth_parameters@,
            feedback: (self.feedback[0] as int, self.feedback[1] as int),
        }
    }
}

impl LfoMatrix {
    /// A matrix of two oscillators at phase 0, with all weights and the
    /// feedback at 0.
    pub fn new(sample_rate: u32) -> (matrix: LfoMatrix)
        requires
            sample_rate > 0,
        ensures
            matrix@.wf(),
            matrix@.lfo1 == OscillatorState::initial(sample_rate as int, 3 * QUARTER),
            matrix@.lfo2 == OscillatorState::initial(sample_rate as int, 3 * QUARTER),
            matrix@.feedback == (0int, 0int),
            weights_at_rest(matrix@.weights, sample_rate as int),
    {
        LfoMatrix {
            smooth_parameters: SmoothParameters::new(sample_rate),
            lfo1: Oscillator::with_level(sample_rate, 3 * QUARTER),
            lfo2: Oscillator::with_level(sample_rate, 3 * QUARTER),
            feedback: [0, 0],
        }
    }

    /// Lets every routing weight jump to its value with no glide.
    pub fn initialize_params(
        &mut self,
        lfo1_to_lfo1: i64,
        lfo1_to_lfo2: i64,
        lfo1_to_out1: i64,
        lfo1_to_out2: i64,
        lfo2_to_lfo1: i64,
        lfo2_to_lfo2: i64,
        lfo2_to_out1: i64,
        lfo2_to_out2: i64,
    )
        requires
            old(self)@.wf(),
        ensures
            final(self)@.wf(),
            final(self)@.lfo1 == old(self)@.lfo1,
            final(self)@.lfo2 == old(self)@.lfo2,
            final(self)@.feedback == old(self)@.feedback,
            weights_jumped(
                old(self)@.weights,
                final(self)@.weights,
                routing(
                    lfo1_to_lfo1 as int,
                    lfo1_to_lfo2 as int,
                    lfo1_to_out1 as int,
                    lfo1_to_out2 as int,
                    lfo2_to_lfo1 as int,
                    lfo2_to_lfo2 as int,
                    lfo2_to_out1 as int,
                    lfo2_to_out2 as int,
                ),
            ),
    {
        self.smooth_parameters.initialize(
            lfo1_to_lfo1,
            lfo1_to_lfo2,
            lfo1_to_out1,
            lfo1_to_out2,
            lfo2_to_lfo1,
            lfo2_to_lfo2,
            lfo2_to_out1,
            lfo2_to_out2,
        );
    }

    /// One sample of one oscillator with the random numbers given.
    fn voice_with(
        oscillator: &mut Oscillator,
        on: bool,
        freq: i64,
        shape: LfoShape,
        feedback: i64,
        draws: Draws,
    ) -> (level: i64)
        requires
            old(oscillator)@.wf(),
        ensures
            final(oscillator)@.wf(),
            final(oscillator)@ == voice_step(old(oscillator)@, on, freq as int, shape, draws),
            level == voice_level(old(oscillator)@, on, freq as int, shape, feedback as int, draws),
            -ONE <= level <= ONE,
    {
        if on {
            let (phase, trigger) = oscillator.tick(freq);
            let moved = shift(phase, phase_offset(feedback));
            let level = oscillator.render(
                moved,
                trigger,
                shape,
                ONE,
                LfoOutputMode::Bipolar,
                draws,
            );
            2 * level - ONE
        } else {
            0
        }
    }

    /// One sample of one oscillator, with the random numbers taken from the
    /// generator as they are needed.
    fn voice(
        oscillator: &mut Oscillator,
        on: bool,
        freq: i64,
        shape: LfoShape,
        feedback: i64,
    ) -> (out: (i64, Ghost<Draws>))
        requires
            old(oscillator)@.wf(),
        ensures
            final(oscillator)@.wf(),
            final(oscillator)@ == voice_step(old(oscillator)@, on, freq as int, shape, out.1@),
            out.0 == voice_level(
                old(oscillator)@,
                on,
                freq as int,
                shape,
                feedback as int,
                out.1@,
            ),
            -ONE <= out.0 <= ONE,
    {
        if on {
            let (phase, trigger) = oscillator.tick(freq);
            let draws = Oscillator::draw(trigger, shape, ONE);
            let moved = shift(phase, phase_offset(feedback));
            let level = oscillator.render(
                moved,
                trigger,
                shape,
                ONE,
                LfoOutputMode::Bipolar,
                draws,
            );
            (2 * level - ONE, Ghost(draws))
        } else {
            (0, Ghost(Draws { gate: 0, noise_gate: 0, value: 0 }))
        }
    }

    /// Advances the weights and mixes what the oscillators rendered into
    /// the new feedback and the outputs.
    fn route(
        &mut self,
        levels: (i64, i64),
        lfo1_to_lfo1: i64,
        lfo1_to_lfo2: i64,
        lfo1_to_out1: i64,
        lfo1_to_out2: i64,
        lfo2_to_lfo1: i64,
        lfo2_to_lfo2: i64,
        lfo2_to_out1: i64,
        lfo2_to_out2: i64,
    ) -> (outputs: (i64, i64))
        requires
            old(self)@.wf(),
            -ONE <= levels.0 <= ONE,
            -ONE <= levels.1 <= ONE,
        ensures
            final(self)@.wf(),
            final(self)@.lfo1 == old(self)@.lfo1,
            final(self)@.lfo2 == old(self)@.lfo2,
            weights_followed(
                old(self)@.weights,
                final(self)@.weights,
                routing(
                    lfo1_to_lfo1 as int,
                    lfo1_to_lfo2 as int,
                    lfo1_to_out1 as int,
                    lfo1_to_out2 as int,
                    lfo2_to_lfo1 as int,
                    lfo2_to_lfo2 as int,
                    lfo2_to_out1 as int,
                    lfo2_to_out2 as int,
                ),
            ),
            final(self)@.feedback == (
                mixed(
                    (levels.0 as int, levels.1 as int),
                    final(self)@.weight(LFO1_TO_LFO1),
                    final(self)@.weight(LFO2_TO_LFO1),
                ),
                mixed(
                    (levels.0 as int, levels.1 as int),
                    final(self)@.weight(LFO1_TO_LFO2),
                    final(self)@.weight(LFO2_TO_LFO2),
                ),
            ),
            outputs.0 == mixed(
                (levels.0 as int, levels.1 as int),
                final(self)@.weight(LFO1_TO_OUT1),
                final(self)@.weight(LFO2_TO_OUT1),
            ),
            outputs.1 == mixed(
                (levels.0 as int, levels.1 as int),
                final(self)@.weight(LFO1_TO_OUT2),
                final(self)@.weight(LFO2_TO_OUT2),
            ),
    {
        let (feedback_matrix, output_matrix) = self.smooth_parameters.process(
            lfo1_to_lfo1,
            lfo1_to_lfo2,
            lfo1_to_out1,
            lfo1_to_out2,
            lfo2_to_lfo1,
            lfo2_to_lfo2,
            lfo2_to_out1,
            lfo2_to_out2,
        );
        self.feedback = [mix_row(levels, feedback_matrix[0]), mix_row(levels, feedback_matrix[1])];
        (mix_row(levels, output_matrix[0]), mix_row(levels, output_matrix[1]))
    }

    /// One sample with the random numbers of both oscillators given.
    pub fn process_with(
        &mut self,
        lfo1_on: bool,
        lfo1_freq: i64,
        lfo1_shape: LfoShape,
        lfo1_to_lfo1: i64,
        lfo1_to_lfo2: i64,
        lfo1_to_out1: i64,
        lfo1_to_out2: i64,
        lfo2_on: bool,
        lfo2_freq: i64,
        lfo2_shape: LfoShape,
        lfo2_to_lfo1: i64,
        lfo2_to_lfo2: i64,
        lfo2_to_out1: i64,
        lfo2_to_out2: i64,
        draws1: Draws,
        draws2: Draws,
    ) -> (outputs: (i64, i64))
        requires
            old(self)@.wf(),
        ensures
            final(self)@.wf(),
            matrix_sample_with(
                old(self)@,
                final(self)@,
                (outputs.0 as int, outputs.1 as int),
                matrix_input(
                    lfo1_on,
                    lfo1_freq as int,
                    lfo1_shape,
                    lfo2_on,
                    lfo2_freq as int,
                    lfo2_shape,
                    routing(
                        lfo1_to_lfo1 as int,
                        lfo1_to_lfo2 as int,
                        lfo1_to_out1 as int,
                        lfo1_to_out2 as int,
                        lfo2_to_lfo1 as int,
                        lfo2_to_lfo2 as int,
                        lfo2_to_out1 as int,
                        lfo2_to_out2 as int,
                    ),
                ),
                draws1,
                draws2,
            ),
    {
        let lfo1 = LfoMatrix::voice_with(
            &mut self.lfo1,
            lfo1_on,
            lfo1_freq,
            lfo1_shape,
            self.feedback[0],
            draws1,
        );
        let lfo2 = LfoMatrix::voice_with(
            &mut self.lfo2,
            lfo2_on,
            lfo2_freq,
            lfo2_shape,
            self.feedback[1],
            draws2,
        );
        self.route(
            (lfo1, lfo2),
            lfo1_to_lfo1,
            lfo1_to_lfo2,
            lfo1_to_out1,
            lfo1_to_out2,
            lfo2_to_lfo1,
            lfo2_to_lfo2,
            lfo2_to_out1,
            lfo2_to_out2,
        )
    }

    /// One sample, with the random numbers taken from the generator as they
    /// are needed. The result is that of `process_with` for some random
    /// numbers.
    pub fn process(
        &mut self,
        lfo1_on: bool,
        lfo1_freq: i64,
        lfo1_shape: LfoShape,
        lfo1_to_lfo1: i64,
        lfo1_to_lfo2: i64,
        lfo1_to_out1: i64,
        lfo1_to_out2: i64,
        lfo2_on: bool,
        lfo2_freq: i64,
        lfo2_shape: LfoShape,
        lfo2_to_lfo1: i64,
        lfo2_to_lfo2: i64,
        lfo2_to_out1: i64,
        lfo2_to_out2: i64,
    ) -> (outputs: (i64, i64))
        requires
            old(self)@.wf(),
        ensures
            final(self)@.wf(),
            exists|draws1: Draws, draws2: Draws| #[trigger]
                matrix_sample_with(
                    old(self)@,
                    final(self)@,
                    (outputs.0 as int, outputs.1 as int),
                    matrix_input(
                    lfo1_on,
                    lfo1_freq as int,
                    lfo1_shape,
                    lfo2_on,
                    lfo2_freq as int,
                    lfo2_shape,
                    routing(
                        lfo1_to_lfo1 as int,
                        lfo1_to_lfo2 as int,
                        lfo1_to_out1 as int,
                        lfo1_to_out2 as int,
                        lfo2_to_lfo1 as int,
                        lfo2_to_lfo2 as int,
                        lfo2_to_out1 as int,
                        lfo2_to_out2 as int,
                    ),
                ),
                    draws1,
                    draws2,
                ),
    {
        let (lfo1, draws1) = LfoMatrix::voice(
            &mut self.lfo1,
            lfo1_on,
            lfo1_freq,
            lfo1_shape,
            self.feedback[0],
        );
        let (lfo2, draws2) = LfoMatrix::voice(
            &mut self.lfo2,
            lfo2_on,
            lfo2_freq,
            lfo2_shape,
            self.feedback[1],
        );
        let outputs = self.route(
            (lfo1, lfo2),
            lfo1_to_lfo1,
            lfo1_to_lfo2,
            lfo1_to_out1,
            lfo1_to_out2,
            lfo2_to_lfo1,
            lfo2_to_lfo2,
            lfo2_to_out1,
            lfo2_to_out2,
        );
        assert(matrix_sample_with(
            old(self)@,
            self@,
            (outputs.0 as int, outputs.1 as int),
            matrix_input(
                    lfo1_on,
                    lfo1_freq as int,
                    lfo1_shape,
                    lfo2_on,
                    lfo2_freq as int,
                    lfo2_shape,
                    routing(
                        lfo1_to_lfo1 as int,
                        lfo1_to_lfo2 as int,
                        lfo1_to_out1 as int,
                        lfo1_to_out2 as int,
                        lfo2_to_lfo1 as int,
                        lfo2_to_lfo2 as int,
                        lfo2_to_out1 as int,
                        lfo2_to_out2 as int,
                    ),
                ),
            draws1@,
            draws2@,
        ));
        outputs
    }
}

} // verus!
