//! What holds of every sample of the matrix: the feedback is one sample
//! late, and the routing weights move without steps.

use vstd::prelude::*;
use crate::matrix::{matrix_sample_with, mixed, voice_level, MatrixInput, MatrixState};
use crate::random::Draws;
use crate::smooth::{
    between, distance, increment_toward, lemma_approach_keeps_reach, lemma_ramp_glides,
    lemma_ramp_increment, RampSmooth,
};
use crate::smooth_parameters::{
    weights_followed, weights_wf, LFO1_TO_LFO1, LFO1_TO_LFO2, LFO2_TO_LFO1, LFO2_TO_LFO2,
};

verus! {

/// Two inputs ask the same of the oscillators; they may differ in their
/// routing weights.
pub open spec fn same_voices(a: MatrixInput, b: MatrixInput) -> bool {
    &&& a.lfo1_on == b.lfo1_on
    &&& a.lfo1_freq == b.lfo1_freq
    &&& a.lfo1_shape == b.lfo1_shape
    &&& a.lfo2_on == b.lfo2_on
    &&& a.lfo2_freq == b.lfo2_freq
    &&& a.lfo2_shape == b.lfo2_shape
}

/// Feedback causality, first half. What the oscillators render on a sample
/// does not depend on the routing weights of that sample, nor on the
/// smoothers, and so not on the feedback that the sample computes: two
/// samples from states that agree in oscillators and stored feedback render
/// the same and leave the oscillators the same.
pub proof fn lemma_levels_ignore_routing(
    before_a: MatrixState,
    before_b: MatrixState,
    after_a: MatrixState,
    after_b: MatrixState,
    outputs_a: (int, int),
    outputs_b: (int, int),
    input_a: MatrixInput,
    input_b: MatrixInput,
    draws1: Draws,
    draws2: Draws,
)
    requires
        before_a.lfo1 == before_b.lfo1,
        before_a.lfo2 == before_b.lfo2,
        before_a.feedback == before_b.feedback,
        same_voices(input_a, input_b),
        matrix_sample_with(before_a, after_a, outputs_a, input_a, draws1, draws2),
        matrix_sample_with(before_b, after_b, outputs_b, input_b, draws1, draws2),
    ensures
        before_a.levels(input_a, draws1, draws2) == before_b.levels(input_b, draws1, draws2),
        after_a.lfo1 == after_b.lfo1,
        after_a.lfo2 == after_b.lfo2,
{
}

/// Feedback causality, second half. The modulation that a sample applies to
/// each oscillator is the mix of what the two oscillators rendered on the
/// sample before, by the weights of that sample.
pub proof fn lemma_feedback_is_delayed(
    first: MatrixState,
    second: MatrixState,
    outputs: (int, int),
    input: MatrixInput,
    draws1: Draws,
    draws2: Draws,
    next_input: MatrixInput,
    next_draws1: Draws,
    next_draws2: Draws,
)
    requires
        matrix_sample_with(first, second, outputs, input, draws1, draws2),
    ensures
        second.levels(next_input, next_draws1, next_draws2) == (
            voice_level(
                second.lfo1,
                next_input.lfo1_on,
                next_input.lfo1_freq,
                next_input.lfo1_shape,
                mixed(
                    first.levels(input, draws1, draws2),
                    second.weight(LFO1_TO_LFO1),
                    second.weight(LFO2_TO_LFO1),
                ),
                next_draws1,
            ),
            voice_level(
                second.lfo2,
                next_input.lfo2_on,
                next_input.lfo2_freq,
                next_input.lfo2_shape,
                mixed(
                    first.levels(input, draws1, draws2),
                    second.weight(LFO1_TO_LFO2),
                    second.weight(LFO2_TO_LFO2),
                ),
                next_draws2,
            ),
        ),
{
}

/// Matrix smoothness, one sample. Each routing weight moves toward its
/// input by no more than its increment and never past it. Where the input
/// has changed, the increment is the distance to it divided by the ramp's
/// length, rounded up; where it has not, the increment is kept.
pub proof fn lemma_weight_moves_smoothly(
    before: MatrixState,
    after: MatrixState,
    outputs: (int, int),
    input: MatrixInput,
    draws1: Draws,
    draws2: Draws,
    place: int,
)
    requires
        before.wf(),
        0 <= place < 8,
        matrix_sample_with(before, after, outputs, input, draws1, draws2),
    ensures
        after.weights[place].step() == increment_toward(
            before.weights[place],
            input.targets[place],
        ),
        between(
            before.weights[place].current(),
            after.weights[place].current(),
            input.targets[place],
        ),
        distance(before.weights[place].current(), after.weights[place].current())
            <= after.weights[place].step(),
        after.weights[place].wf(),
{
    let old_weight = before.weights[place];
    let new_weight = after.weights[place];
    let target = input.targets[place];
    assert(old_weight.wf());
    assert(new_weight.followed(old_weight, target));
    if target != old_weight.target() {
        lemma_ramp_increment(distance(old_weight.current(), target), old_weight.ramp_samples());
    }
    lemma_approach_keeps_reach(
        old_weight.current(),
        target,
        new_weight.step(),
        old_weight.ramp_samples(),
    );
}

/// Matrix smoothness, over a glide. Where the input of a routing weight
/// jumps to `target` and stays there for `n` samples, the weight moves
/// toward `target` by no more than one increment per sample, never passes
/// it, and rests on it from the sample at which the ramp's length is
/// reached.
pub proof fn lemma_weight_glides(
    weights: Seq<Seq<RampSmooth>>,
    targets: Seq<Seq<int>>,
    place: int,
    target: int,
    n: nat,
)
    requires
        1 <= n < weights.len(),
        n < targets.len(),
        0 <= place < 8,
        weights_wf(weights[0]),
        forall|i: int|
            1 <= i <= n ==> #[trigger] weights_followed(weights[i - 1], weights[i], targets[i]),
        forall|i: int| 1 <= i <= n ==> (#[trigger] targets[i])[place] == target,
    ensures
        between(weights[0][place].current(), weights[n as int][place].current(), target),
        between(weights[n - 1][place].current(), weights[n as int][place].current(), target),
        distance(weights[n - 1][place].current(), weights[n as int][place].current())
            <= increment_toward(weights[0][place], target),
        n >= weights[0][place].ramp_samples() ==> weights[n as int][place].current() == target,
        distance(weights[0][place].current(), weights[n as int][place].current()) <= n
            * increment_toward(weights[0][place], target),
        distance(weights[0][place].current(), target) > n * increment_toward(
            weights[0][place],
            target,
        ) ==> weights[n as int][place].current() != target,
{
    let states = Seq::new(weights.len(), |i: int| weights[i][place]);
    assert forall|i: int| 1 <= i <= n implies (#[trigger] states[i]).followed(
        states[i - 1],
        target,
    ) by {
        assert(weights_followed(weights[i - 1], weights[i], targets[i]));
        assert(weights[i][place].followed(weights[i - 1][place], targets[i][place]));
    }
    assert(weights[0][place].wf());
    lemma_ramp_glides(states, target, n);
}

/// `after` is what some sample of a matrix in state `before` leaves on
/// `input`, whatever its random numbers and outputs were.
pub open spec fn follows_on(before: MatrixState, after: MatrixState, input: MatrixInput) -> bool {
    exists|outputs: (int, int), draws1: Draws, draws2: Draws| #[trigger]
        matrix_sample_with(before, after, outputs, input, draws1, draws2)
}

/// Matrix smoothness, over the samples of a matrix. Where each of the
/// states 1 to `n` is left by a sample on its input, and the inputs hold
/// `target` for the routing weight at `place`, that weight ramps in: after
/// `n` samples it lies between where it started and `target`, no further
/// from its start than `n` increments, and it rests on `target` from the
/// sample at which the ramp's length is reached.
pub proof fn lemma_matrix_weight_ramps(
    states: Seq<MatrixState>,
    inputs: Seq<MatrixInput>,
    place: int,
    target: int,
    n: nat,
)
    requires
        1 <= n < states.len(),
        n < inputs.len(),
        0 <= place < 8,
        states[0].wf(),
        forall|i: int| 1 <= i <= n ==> #[trigger] follows_on(states[i - 1], states[i], inputs[i]),
        forall|i: int| 1 <= i <= n ==> (#[trigger] inputs[i]).targets[place] == target,
    ensures
        between(
            states[0].weights[place].current(),
            states[n as int].weights[place].current(),
            target,
        ),
        distance(states[n - 1].weights[place].current(), states[n as int].weights[place].current())
            <= increment_toward(states[0].weights[place], target),
        distance(states[0].weights[place].current(), states[n as int].weights[place].current())
            <= n * increment_toward(states[0].weights[place], target),
        n >= states[0].weights[place].ramp_samples() ==> states[n as int].weights[place].current()
            == target,
{
    let weights = Seq::new(states.len(), |i: int| states[i].weights);
    let targets = Seq::new(inputs.len(), |i: int| inputs[i].targets);
    assert forall|i: int| 1 <= i <= n implies #[trigger] weights_followed(
        weights[i - 1],
        weights[i],
        targets[i],
    ) by {
        assert(follows_on(states[i - 1], states[i], inputs[i]));
    }
    assert forall|i: int| 1 <= i <= n implies (#[trigger] targets[i])[place] == target by {
        assert(inputs[i].targets[place] == target);
    }
    lemma_weight_glides(weights, targets, place, target, n);
}

/// A routing weight of 0 on both oscillators routes nothing: the mix is 0
/// whatever the oscillators render.
pub proof fn lemma_unrouted_is_silent(levels: (int, int))
    ensures
        mixed(levels, 0, 0) == 0,
{
    assert(levels.0 * 0 + levels.1 * 0 == 0);
}

} // verus!
