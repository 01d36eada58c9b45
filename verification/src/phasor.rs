//! The phase accumulator.

use vstd::prelude::*;
use vstd::arithmetic::div_mod::{
    lemma_add_mod_noop, lemma_div_is_ordered, lemma_div_multiples_vanish, lemma_div_pos_is_pos,
    lemma_mod_twice, lemma_small_mod,
};
use crate::fixed::ONE;

verus! {

/// A phase in `[0, 1)` that advances by `frequency / sample_rate` per sample
/// and wraps modulo 1.
pub struct Phasor {
    phase: u32,
    sample_rate: u32,
}

/// The phase step of one sample at `freq` (fixed-point hertz) and
/// `sample_rate` (whole hertz). A frequency that is not positive holds the
/// phase still.
pub open spec fn phase_increment(freq: int, sample_rate: int) -> int {
    if freq > 0 {
        freq / sample_rate
    } else {
        0
    }
}

/// The phase that follows `phase` after one step of `increment`.
pub open spec fn phase_advance(phase: int, increment: int) -> int {
    (phase + increment) % (ONE as int)
}

/// The phase after `n` steps of `increment`, starting at `phase`.
pub open spec fn phase_after(phase: int, increment: int, n: nat) -> int
    decreases n,
{
    if n == 0 {
        phase
    } else {
        phase_advance(phase_after(phase, increment, (n - 1) as nat), increment)
    }
}

impl Phasor {
    /// The current phase.
    pub closed spec fn phase(&self) -> int {
        self.phase as int
    }

    /// The sample rate the accumulator was built for, in hertz.
    pub closed spec fn sample_rate(&self) -> int {
        self.sample_rate as int
    }

    /// The accumulator is bound to a positive sample rate.
    pub open spec fn wf(&self) -> bool {
        &&& self.sample_rate() > 0
        &&& 0 <= self.phase() < ONE
    }

    /// `self` is `before` one sample later at `freq`.
    pub open spec fn advanced(&self, before: Phasor, freq: int) -> bool {
        &&& self.sample_rate() == before.sample_rate()
        &&& self.phase() == phase_advance(
            before.phase(),
            phase_increment(freq, before.sample_rate()),
        )
    }

    /// An accumulator at phase 0.
    pub fn new(sample_rate: u32) -> (phasor: Phasor)
        requires
            sample_rate > 0,
        ensures
            phasor.wf(),
            phasor.phase() == 0,
            phasor.sample_rate() == sample_rate,
    {
        Phasor { phase: 0, sample_rate }
    }

    /// Advances by one sample at `freq` and returns the new phase.
    pub fn process(&mut self, freq: i64) -> (phase: u32)
        requires
            old(self).wf(),
        ensures
            final(self).wf(),
            final(self).advanced(*old(self), freq as int),
            phase == final(self).phase(),
    {
        let increment: u64 = if freq > 0 {
            (freq as u64) / (self.sample_rate as u64)
        } else {
            0
        };
        let sum: u64 = self.phase as u64 + increment;
        self.phase = (sum % 0x1_0000_0000) as u32;
        self.phase
    }
}

/// Between two samples the phase either rises by the increment or, at a
/// wrap, falls by one minus the increment. This holds whenever the increment
/// is at most one cycle, that is, while the frequency does not exceed the
/// sample rate.
pub proof fn lemma_phase_step(phase: int, increment: int)
    requires
        0 <= phase < ONE,
        0 <= increment <= ONE,
    ensures
        0 <= phase_advance(phase, increment) < ONE,
        phase + increment < ONE ==> phase_advance(phase, increment) == phase + increment,
        phase + increment >= ONE ==> phase_advance(phase, increment) == phase - (ONE - increment),
{
}

/// A frequency that does not exceed the sample rate gives an increment of
/// at most one cycle.
pub proof fn lemma_increment_bounds(freq: int, sample_rate: int)
    requires
        sample_rate > 0,
        freq <= sample_rate * ONE,
    ensures
        0 <= phase_increment(freq, sample_rate) <= ONE,
{
    if freq > 0 {
        lemma_div_is_ordered(freq, sample_rate * ONE, sample_rate);
        lemma_div_multiples_vanish(ONE as int, sample_rate);
        lemma_div_pos_is_pos(freq, sample_rate);
        assert(sample_rate * ONE == ONE * sample_rate) by (nonlinear_arith);
    }
}

/// At a constant frequency the phase after `n` samples is the start plus `n`
/// increments, taken modulo one cycle.
pub proof fn lemma_phase_after(phase: int, increment: int, n: nat)
    requires
        0 <= phase < ONE,
        0 <= increment,
    ensures
        phase_after(phase, increment, n) == (phase + n * increment) % (ONE as int),
    decreases n,
{
    let m = ONE as int;
    if n == 0 {
        assert(n * increment == 0);
        lemma_small_mod(phase as nat, m as nat);
    } else {
        let k = (n - 1) as nat;
        lemma_phase_after(phase, increment, k);
        let before = phase + k * increment;
        assert(n * increment == k * increment + increment) by (nonlinear_arith)
            requires
                n == k + 1,
        ;
        lemma_add_mod_noop(before, increment, m);
        lemma_add_mod_noop(before % m, increment, m);
        lemma_mod_twice(before, m);
    }
}

/// Phase monotonicity. At a constant positive frequency that does not
/// exceed the sample rate, each phase of the sequence is the one before it
/// plus the increment, or, at a wrap, the one before it minus what the
/// increment lacks to a whole cycle.
pub proof fn lemma_phase_sequence(phase: int, freq: int, sample_rate: int, n: nat)
    requires
        0 <= phase < ONE,
        sample_rate > 0,
        0 < freq <= sample_rate * ONE,
    ensures
        ({
            let increment = phase_increment(freq, sample_rate);
            let before = phase_after(phase, increment, n);
            let after = phase_after(phase, increment, n + 1);
            &&& 0 <= increment <= ONE
            &&& 0 <= before < ONE
            &&& after == before + increment || after == before - (ONE - increment)
            &&& after < before <==> before + increment >= ONE && increment < ONE
        }),
    decreases n,
{
    let increment = phase_increment(freq, sample_rate);
    lemma_increment_bounds(freq, sample_rate);
    if n > 0 {
        lemma_phase_sequence(phase, freq, sample_rate, (n - 1) as nat);
    }
    lemma_phase_step(phase_after(phase, increment, n), increment);
}

/// What the calls of an accumulator add up to. Where each of the states 1
/// to `n` is the one before it after a sample at `freq`, state `n` holds
/// the phase of the sequence that starts at the phase of state 0.
pub proof fn lemma_phasor_run(states: Seq<Phasor>, freq: int, n: nat)
    requires
        n < states.len(),
        forall|i: int| 1 <= i <= n ==> (#[trigger] states[i]).advanced(states[i - 1], freq),
    ensures
        states[n as int].sample_rate() == states[0].sample_rate(),
        states[n as int].phase() == phase_after(
            states[0].phase(),
            phase_increment(freq, states[0].sample_rate()),
            n,
        ),
    decreases n,
{
    if n > 0 {
        lemma_phasor_run(states, freq, (n - 1) as nat);
        assert(states[n as int].advanced(states[n - 1], freq));
    }
}

} // verus!
