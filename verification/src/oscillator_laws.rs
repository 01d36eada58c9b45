//! What holds of every sample of an oscillator: the range of its level, the
//! detection of a new cycle, and the rest level of a gated cycle.

use vstd::prelude::*;
use vstd::arithmetic::div_mod::{
    lemma_div_by_multiple_is_strongly_ordered, lemma_div_multiples_vanish,
};
use crate::fixed::{ONE, QUARTER};
use crate::oscillator::{cyclic_wave, OscillatorState};
use crate::phasor::{lemma_increment_bounds, lemma_phase_step, phase_increment};
use crate::random::Draws;
use crate::shape::{LfoOutputMode, LfoShape};
use crate::waveform::{
    cosine_ease, lemma_blend_between, lemma_sine_shape, lemma_wave_bounds, reflected, shifted,
};

verus! {

/// The inputs of one sample.
pub struct SampleInput {
    /// The frequency in fixed-point hertz.
    pub freq: int,
    /// The probability with which a new cycle sets the latch.
    pub chance: int,
    /// The random numbers of the sample.
    pub draws: Draws,
}

/// The state of an oscillator after the first `n` of `inputs`.
pub open spec fn state_after(
    start: OscillatorState,
    shape: LfoShape,
    mode: LfoOutputMode,
    inputs: Seq<SampleInput>,
    n: nat,
) -> OscillatorState
    decreases n,
{
    if n == 0 {
        start
    } else {
        let input = inputs[n - 1];
        state_after(start, shape, mode, inputs, (n - 1) as nat).step(
            input.freq,
            shape,
            input.chance,
            mode,
            input.draws,
        )
    }
}

/// The level of sample `k` of `inputs`, counted from 0.
pub open spec fn level_at(
    start: OscillatorState,
    shape: LfoShape,
    mode: LfoOutputMode,
    inputs: Seq<SampleInput>,
    k: nat,
) -> int {
    let input = inputs[k as int];
    state_after(start, shape, mode, inputs, k).step_level(
        input.freq,
        shape,
        input.chance,
        mode,
        input.draws,
    )
}

/// The shapes that are functions of the phase stay within 0 and 1.
pub proof fn lemma_cyclic_range(shape: LfoShape, mode: LfoOutputMode, phase: int)
    requires
        0 <= phase < ONE,
    ensures
        0 <= cyclic_wave(shape, mode, phase) <= ONE,
{
    lemma_wave_bounds(phase);
    lemma_wave_bounds(shifted(phase, 0));
    lemma_wave_bounds(shifted(phase, QUARTER as int));
    lemma_wave_bounds(shifted(phase, 3 * QUARTER));
    lemma_wave_bounds(reflected(0, phase));
}

/// Sine, triangle and the two saws start their cycle at the rest level of
/// the polarity, so that a cycle which follows a gated one begins where the
/// gated one rested.
pub proof fn lemma_cyclic_starts_at_rest(shape: LfoShape, mode: LfoOutputMode)
    requires
        shape is Sine || shape is Triangle || shape is SawUp || shape is SawDown,
    ensures
        cyclic_wave(shape, mode, 0) == mode.neutral(),
{
    lemma_sine_shape(0);
}

/// Advancing the phase keeps a state well formed, whatever the frequency.
pub proof fn lemma_tick_wf(state: OscillatorState, freq: int)
    requires
        state.wf(),
    ensures
        state.tick(freq).wf(),
{
}

/// A new cycle is reported on exactly the samples whose phase lies below
/// the phase of the sample before, at any frequency. While the frequency
/// does not exceed the sample rate, these are the samples on which the
/// phase passes the end of the cycle.
pub proof fn lemma_wrap_detected(state: OscillatorState, freq: int)
    requires
        state.wf(),
    ensures
        state.wraps(freq) <==> state.tick(freq).phase < state.phase,
        freq <= state.sample_rate * ONE ==> (state.wraps(freq) ==> state.phase + phase_increment(
            freq,
            state.sample_rate,
        ) >= ONE),
        0 < freq < state.sample_rate * ONE ==> (state.wraps(freq) <== state.phase + phase_increment(
            freq,
            state.sample_rate,
        ) >= ONE),
{
    if freq <= state.sample_rate * ONE {
        lemma_increment_bounds(freq, state.sample_rate);
        lemma_phase_step(state.phase, phase_increment(freq, state.sample_rate));
    }
    if 0 < freq < state.sample_rate * ONE {
        let increment = freq / state.sample_rate;
        assert(increment < ONE) by {
            lemma_div_by_multiple_is_strongly_ordered(
                freq,
                state.sample_rate * ONE,
                ONE as int,
                state.sample_rate,
            );
            lemma_div_multiples_vanish(ONE as int, state.sample_rate);
            assert(state.sample_rate * ONE == ONE * state.sample_rate) by (nonlinear_arith);
        }
    }
}

/// For every shape, polarity and phase, the level of a sample lies within 0
/// and 1, and rendering keeps the state well formed.
pub proof fn lemma_level_in_range(
    state: OscillatorState,
    phase: int,
    trigger: bool,
    shape: LfoShape,
    chance: int,
    mode: LfoOutputMode,
    draws: Draws,
)
    requires
        state.wf(),
        0 <= phase < ONE,
    ensures
        state.render(trigger, shape, chance, mode, draws).wf(),
        0 <= state.render(trigger, shape, chance, mode, draws).level(
            phase,
            shape,
            chance,
            mode,
            draws,
        ) <= ONE,
{
    let after = state.render(trigger, shape, chance, mode, draws);
    lemma_cyclic_range(shape, mode, phase);
    lemma_wave_bounds(phase);
    lemma_blend_between(after.origin, after.target, phase);
    lemma_blend_between(after.origin, after.target, cosine_ease(phase));
}

/// A whole sample keeps the state well formed and its level within 0 and 1.
pub proof fn lemma_step_in_range(
    state: OscillatorState,
    freq: int,
    shape: LfoShape,
    chance: int,
    mode: LfoOutputMode,
    draws: Draws,
)
    requires
        state.wf(),
    ensures
        state.step(freq, shape, chance, mode, draws).wf(),
        0 <= state.step_level(freq, shape, chance, mode, draws) <= ONE,
{
    lemma_level_in_range(
        state.tick(freq),
        state.tick(freq).phase,
        state.wraps(freq),
        shape,
        chance,
        mode,
        draws,
    );
}

/// A sample that starts a cycle with the latch drawn clear puts out the rest
/// level and leaves the oscillator resting. For the two shapes that glide
/// this needs the level they held to be the rest level already: otherwise
/// the cycle is the glide down to rest.
pub proof fn lemma_rest_begins(
    state: OscillatorState,
    phase: int,
    shape: LfoShape,
    chance: int,
    mode: LfoOutputMode,
    draws: Draws,
)
    requires
        0 <= phase < ONE,
        !(shape is Noise),
        !(draws.gate < chance),
        (shape is Random || shape is CurvedRandom) ==> state.target == mode.neutral(),
    ensures
        state.render(true, shape, chance, mode, draws).resting(shape, mode),
        state.render(true, shape, chance, mode, draws).level(phase, shape, chance, mode, draws)
            == mode.neutral(),
{
    lemma_wave_bounds(phase);
    lemma_blend_between(mode.neutral(), mode.neutral(), phase);
    lemma_blend_between(mode.neutral(), mode.neutral(), cosine_ease(phase));
}

/// A sample within a cycle leaves a resting oscillator resting and puts out
/// the rest level.
pub proof fn lemma_rest_holds(
    state: OscillatorState,
    phase: int,
    shape: LfoShape,
    chance: int,
    mode: LfoOutputMode,
    draws: Draws,
)
    requires
        0 <= phase < ONE,
        !(shape is Noise),
        state.resting(shape, mode),
    ensures
        state.render(false, shape, chance, mode, draws).resting(shape, mode),
        state.render(false, shape, chance, mode, draws).level(phase, shape, chance, mode, draws)
            == mode.neutral(),
{
    lemma_wave_bounds(phase);
    lemma_blend_between(mode.neutral(), mode.neutral(), phase);
    lemma_blend_between(mode.neutral(), mode.neutral(), cosine_ease(phase));
}

/// Without chance no cycle is enabled: a sample that starts a cycle clears
/// the latch and puts the rest level into what the shape holds, a latch
/// that is clear stays clear, and noise rests on every sample. With full
/// chance every cycle is enabled.
pub proof fn lemma_certain_chance(
    state: OscillatorState,
    freq: int,
    shape: LfoShape,
    chance: int,
    mode: LfoOutputMode,
    draws: Draws,
)
    ensures
        chance <= 0 && state.wraps(freq) ==> !state.step(freq, shape, chance, mode, draws).enabled,
        chance <= 0 && state.wraps(freq) && shape.holds_level() ==> state.step(
            freq,
            shape,
            chance,
            mode,
            draws,
        ).target == mode.neutral(),
        chance <= 0 && !state.enabled ==> !state.step(freq, shape, chance, mode, draws).enabled,
        chance <= 0 && shape is Noise ==> state.step_level(freq, shape, chance, mode, draws)
            == mode.neutral(),
        chance >= ONE && state.wraps(freq) ==> state.step(freq, shape, chance, mode, draws).enabled,
        chance >= ONE && state.enabled ==> state.step(freq, shape, chance, mode, draws).enabled,
{
}

/// The states of a run are well formed.
pub proof fn lemma_run_wf(
    start: OscillatorState,
    shape: LfoShape,
    mode: LfoOutputMode,
    inputs: Seq<SampleInput>,
    n: nat,
)
    requires
        start.wf(),
    ensures
        state_after(start, shape, mode, inputs, n).wf(),
    decreases n,
{
    if n > 0 {
        lemma_run_wf(start, shape, mode, inputs, (n - 1) as nat);
        let input = inputs[n - 1];
        lemma_step_in_range(
            state_after(start, shape, mode, inputs, (n - 1) as nat),
            input.freq,
            shape,
            input.chance,
            mode,
            input.draws,
        );
    }
}

/// Gate neutrality. Where the first of a run of samples starts a cycle with
/// the latch drawn clear and no later sample of the run starts another,
/// every sample of the run puts out the rest level of the polarity. This
/// holds of every shape but noise, which draws its own gate on each sample,
/// and of the two gliding shapes once the level they held is the rest level.
pub proof fn lemma_gated_cycle_rests(
    start: OscillatorState,
    shape: LfoShape,
    mode: LfoOutputMode,
    inputs: Seq<SampleInput>,
    k: nat,
)
    requires
        start.wf(),
        k < inputs.len(),
        !(shape is Noise),
        (shape is Random || shape is CurvedRandom) ==> start.target == mode.neutral(),
        start.wraps(inputs[0].freq),
        !(inputs[0].draws.gate < inputs[0].chance),
        forall|i: nat|
            0 < i <= k ==> !(#[trigger] state_after(start, shape, mode, inputs, i)).wraps(
                inputs[i as int].freq,
            ),
    ensures
        level_at(start, shape, mode, inputs, k) == mode.neutral(),
        state_after(start, shape, mode, inputs, k + 1).resting(shape, mode),
    decreases k,
{
    let input = inputs[k as int];
    let before = state_after(start, shape, mode, inputs, k);
    lemma_run_wf(start, shape, mode, inputs, k);
    let ticked = before.tick(input.freq);
    assert(state_after(start, shape, mode, inputs, k + 1) == before.step(
        input.freq,
        shape,
        input.chance,
        mode,
        input.draws,
    ));
    if k == 0 {
        lemma_rest_begins(ticked, ticked.phase, shape, input.chance, mode, input.draws);
    } else {
        lemma_gated_cycle_rests(start, shape, mode, inputs, (k - 1) as nat);
        assert(!before.wraps(input.freq));
        lemma_rest_holds(ticked, ticked.phase, shape, input.chance, mode, input.draws);
    }
}

} // verus!
