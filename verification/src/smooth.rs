//! Parameter smoothing: a stepped control value becomes one that moves a
//! little on every sample.
//!
//! Two strategies follow the same linear law. [`LinearSmooth`] counts the
//! samples that are left and divides the remaining distance among them.
//! [`RampSmooth`] fixes one increment when its target changes and applies it
//! until the target is reached.

use vstd::prelude::*;
use vstd::arithmetic::div_mod::{
    lemma_div_basics, lemma_div_is_ordered_by_denominator, lemma_div_is_strictly_smaller,
    lemma_div_pos_is_pos, lemma_fundamental_div_mod, lemma_mod_bound,
};

verus! {

/// `x` lies between `a` and `b`, whichever of the two is larger.
pub open spec fn between(a: int, x: int, b: int) -> bool {
    (a <= x <= b) || (b <= x <= a)
}

/// The distance between two numbers.
pub open spec fn distance(a: int, b: int) -> int {
    if a <= b {
        b - a
    } else {
        a - b
    }
}

/// The number of samples that a glide of `ramp_ms` milliseconds takes at
/// `sample_rate` hertz: at least one.
pub open spec fn ramp_length(sample_rate: int, ramp_ms: int) -> int {
    let samples = (sample_rate * ramp_ms) / 1000;
    if samples < 1 {
        1
    } else {
        samples
    }
}

/// The quotient of `a` by a positive `b`, rounded toward zero.
pub open spec fn toward_zero(a: int, b: int) -> int {
    if a >= 0 {
        a / b
    } else {
        -((-a) / b)
    }
}

/// One sample of a counted glide: with `remaining` samples left, the value
/// moves by the remaining distance divided by `remaining`.
pub open spec fn glide_step(current: int, target: int, remaining: int) -> int {
    if remaining > 0 {
        current + toward_zero(target - current, remaining)
    } else {
        current
    }
}

/// The value of a counted glide after `n` samples, of which `remaining`
/// were left at its start.
pub open spec fn glide_after(current: int, target: int, remaining: nat, n: nat) -> int
    decreases n,
{
    if n == 0 {
        current
    } else {
        glide_step(
            glide_after(current, target, remaining, (n - 1) as nat),
            target,
            remaining - (n - 1),
        )
    }
}

/// The increment that covers `span` within `ramp_samples` samples: the
/// quotient rounded up.
pub open spec fn ramp_increment(span: int, ramp_samples: int) -> int {
    (span + ramp_samples - 1) / ramp_samples
}

/// One sample of a ramp: the value moves toward `target` by `step`, and
/// stops at `target` once the distance is no more than `step`.
pub open spec fn approach(current: int, target: int, step: int) -> int {
    if distance(current, target) <= step {
        target
    } else if current < target {
        current + step
    } else {
        current - step
    }
}

/// The value of a ramp after `n` samples.
pub open spec fn ramp_after(current: int, target: int, step: int, n: nat) -> int
    decreases n,
{
    if n == 0 {
        current
    } else {
        approach(ramp_after(current, target, step, (n - 1) as nat), target, step)
    }
}

/// Computes [`ramp_length`].
pub fn ramp_samples_for(sample_rate: u32, ramp_ms: u32) -> (samples: u64)
    ensures
        samples == ramp_length(sample_rate as int, ramp_ms as int),
        samples >= 1,
{
    assert(0 <= sample_rate * ramp_ms <= 0xffff_ffff * 0xffff_ffff) by (nonlinear_arith)
        requires
            0 <= sample_rate <= 0xffff_ffff,
            0 <= ramp_ms <= 0xffff_ffff,
    ;
    let samples: u64 = (sample_rate as u64) * (ramp_ms as u64) / 1000;
    if samples < 1 {
        1
    } else {
        samples
    }
}

/// A smoother that counts the samples left until its target.
pub struct LinearSmooth {
    current: i64,
    target: i64,
    remaining: u64,
    ramp_samples: u64,
}

impl LinearSmooth {
    /// The value returned by the last call of `next`.
    pub closed spec fn current(&self) -> int {
        self.current as int
    }

    /// The value the smoother is gliding to.
    pub closed spec fn target(&self) -> int {
        self.target as int
    }

    /// The number of samples until the target is reached.
    pub closed spec fn remaining(&self) -> nat {
        self.remaining as nat
    }

    /// The number of samples a full glide takes.
    pub closed spec fn ramp_samples(&self) -> nat {
        self.ramp_samples as nat
    }

    /// A glide never lasts longer than the configured length, and a finished
    /// glide rests on its target.
    pub open spec fn wf(&self) -> bool {
        &&& self.ramp_samples() >= 1
        &&& self.remaining() <= self.ramp_samples()
        &&& self.remaining() == 0 ==> self.current() == self.target()
    }

    /// `self` is `before` with a glide to `target` started.
    pub open spec fn aimed(&self, before: LinearSmooth, target: int) -> bool {
        &&& self.current() == before.current()
        &&& self.ramp_samples() == before.ramp_samples()
        &&& self.target() == target
        &&& self.remaining() == if target == before.target() {
            before.remaining()
        } else {
            before.ramp_samples()
        }
    }

    /// `self` is `before` after a jump to `value`.
    pub open spec fn jumped(&self, before: LinearSmooth, value: int) -> bool {
        &&& self.ramp_samples() == before.ramp_samples()
        &&& self.current() == value
        &&& self.target() == value
        &&& self.remaining() == 0
    }

    /// `self` is `before` one sample later.
    pub open spec fn advanced(&self, before: LinearSmooth) -> bool {
        &&& self.target() == before.target()
        &&& self.ramp_samples() == before.ramp_samples()
        &&& self.current() == glide_step(
            before.current(),
            before.target(),
            before.remaining() as int,
        )
        &&& self.remaining() == if before.remaining() > 0 {
            before.remaining() - 1
        } else {
            0
        }
    }

    /// A smoother at rest on 0 whose glides take `ramp_ms` milliseconds.
    pub fn new(sample_rate: u32, ramp_ms: u32) -> (smoother: LinearSmooth)
        ensures
            smoother.wf(),
            smoother.current() == 0,
            smoother.target() == 0,
            smoother.remaining() == 0,
            smoother.ramp_samples() == ramp_length(sample_rate as int, ramp_ms as int),
    {
        LinearSmooth {
            current: 0,
            target: 0,
            remaining: 0,
            ramp_samples: ramp_samples_for(sample_rate, ramp_ms),
        }
    }

    /// Starts a glide from the current value to `target`. A target equal to
    /// the present one leaves a glide in progress as it is.
    pub fn set_target(&mut self, target: i64)
        requires
            old(self).wf(),
        ensures
            final(self).wf(),
            final(self).aimed(*old(self), target as int),
    {
        if target != self.target {
            self.target = target;
            self.remaining = self.ramp_samples;
        }
    }

    /// Jumps to `value` with no glide.
    pub fn reset(&mut self, value: i64)
        requires
            old(self).wf(),
        ensures
            final(self).wf(),
            final(self).jumped(*old(self), value as int),
    {
        self.current = value;
        self.target = value;
        self.remaining = 0;
    }

    /// Advances by one sample and returns the new value.
    pub fn next(&mut self) -> (value: i64)
        requires
            old(self).wf(),
        ensures
            final(self).wf(),
            final(self).advanced(*old(self)),
            value == final(self).current(),
    {
        if self.remaining > 0 {
            let span: i128 = self.target as i128 - self.current as i128;
            let step: i128 = span / (self.remaining as i128);
            proof {
                lemma_glide_step(self.current as int, self.target as int, self.remaining as int);
            }
            self.current = (self.current as i128 + step) as i64;
            self.remaining = self.remaining - 1;
        }
        self.current
    }
}

/// A smoother that keeps one increment per target.
pub struct RampSmooth {
    current: i64,
    target: i64,
    step: u64,
    ramp_samples: u64,
}

impl RampSmooth {
    /// The value returned by the last call of `process`.
    pub closed spec fn current(&self) -> int {
        self.current as int
    }

    /// The target of the last call of `process`.
    pub closed spec fn target(&self) -> int {
        self.target as int
    }

    /// The size of the per-sample increment.
    pub closed spec fn step(&self) -> int {
        self.step as int
    }

    /// The number of samples within which a target is reached.
    pub closed spec fn ramp_samples(&self) -> int {
        self.ramp_samples as int
    }

    /// The increment is large enough to reach the target within the
    /// configured number of samples.
    pub open spec fn wf(&self) -> bool {
        &&& self.ramp_samples() >= 1
        &&& self.step() >= 0
        &&& self.ramp_samples() * self.step() >= distance(self.current(), self.target())
    }

    /// `self` is `before` after a jump to `value`.
    pub open spec fn jumped(&self, before: RampSmooth, value: int) -> bool {
        &&& self.ramp_samples() == before.ramp_samples()
        &&& self.current() == value
        &&& self.target() == value
        &&& self.step() == 0
    }

    /// `self` is `before` one sample later, with `target` as the value to
    /// glide to: a target that differs from the one before sets the
    /// increment anew, and the value moves by one increment.
    pub open spec fn followed(&self, before: RampSmooth, target: int) -> bool {
        &&& self.ramp_samples() == before.ramp_samples()
        &&& self.target() == target
        &&& self.step() == if target == before.target() {
            before.step()
        } else {
            ramp_increment(distance(before.current(), target), before.ramp_samples())
        }
        &&& self.current() == approach(before.current(), target, self.step())
    }

    /// A smoother at rest on 0 that reaches a new target within `ramp_ms`
    /// milliseconds.
    pub fn new(sample_rate: u32, ramp_ms: u32) -> (smoother: RampSmooth)
        ensures
            smoother.wf(),
            smoother.current() == 0,
            smoother.target() == 0,
            smoother.step() == 0,
            smoother.ramp_samples() == ramp_length(sample_rate as int, ramp_ms as int),
    {
        let ramp_samples = ramp_samples_for(sample_rate, ramp_ms);
        assert(ramp_samples * 0 == 0);
        RampSmooth { current: 0, target: 0, step: 0, ramp_samples }
    }

    /// Jumps to `value` with no glide.
    pub fn initialize(&mut self, value: i64)
        requires
            old(self).wf(),
        ensures
            final(self).wf(),
            final(self).jumped(*old(self), value as int),
    {
        self.current = value;
        self.target = value;
        self.step = 0;
        assert(self.ramp_samples * 0 == 0);
    }

    /// Takes `target` as the value to glide to, advances by one sample and
    /// returns the new value. The increment is computed anew only when
    /// `target` differs from that of the previous call.
    pub fn process(&mut self, target: i64) -> (value: i64)
        requires
            old(self).wf(),
        ensures
            final(self).wf(),
            final(self).followed(*old(self), target as int),
            value == final(self).current(),
    {
        let span: u64 = if self.current <= target {
            (target as i128 - self.current as i128) as u64
        } else {
            (self.current as i128 - target as i128) as u64
        };
        if target != self.target {
            proof {
                lemma_ramp_increment(span as int, self.ramp_samples as int);
            }
            self.target = target;
            let rounded_up: u128 = span as u128 + self.ramp_samples as u128 - 1;
            self.step = (rounded_up / (self.ramp_samples as u128)) as u64;
        }
        let ghost before = self.current as int;
        if span <= self.step {
            self.current = target;
        } else if self.current < target {
            self.current = (self.current as i128 + self.step as i128) as i64;
        } else {
            self.current = (self.current as i128 - self.step as i128) as i64;
        }
        proof {
            lemma_approach_keeps_reach(
                before,
                target as int,
                self.step as int,
                self.ramp_samples as int,
            );
        }
        self.current
    }
}

/// One sample of a counted glide moves the value toward the target, never
/// past it, and the last sample lands on it.
pub proof fn lemma_glide_step(current: int, target: int, remaining: int)
    requires
        remaining > 0,
    ensures
        between(current, glide_step(current, target, remaining), target),
        remaining == 1 ==> glide_step(current, target, remaining) == target,
        between(0, toward_zero(target - current, remaining), target - current),
{
    let span = target - current;
    if span >= 0 {
        lemma_div_pos_is_pos(span, remaining);
        lemma_div_is_ordered_by_denominator(span, 1, remaining);
        lemma_div_basics(span);
    } else {
        lemma_div_pos_is_pos(-span, remaining);
        lemma_div_is_ordered_by_denominator(-span, 1, remaining);
        lemma_div_basics(-span);
    }
}

/// A counted glide with `remaining` samples left stays between its start and
/// its target, and rests on the target from sample `remaining` on.
pub proof fn lemma_glide_converges(current: int, target: int, remaining: nat, n: nat)
    requires
        remaining > 0 || current == target,
    ensures
        between(current, glide_after(current, target, remaining, n), target),
        n >= remaining ==> glide_after(current, target, remaining, n) == target,
    decreases n,
{
    if n > 0 {
        let k = (n - 1) as nat;
        lemma_glide_converges(current, target, remaining, k);
        if remaining > k {
            lemma_glide_step(glide_after(current, target, remaining, k), target, remaining - k);
        }
    }
}

/// A counted glide is monotonic: each sample lies between the one before it
/// and the target.
pub proof fn lemma_glide_monotonic(current: int, target: int, remaining: nat, n: nat)
    ensures
        between(
            glide_after(current, target, remaining, n),
            glide_after(current, target, remaining, n + 1),
            target,
        ),
{
    if remaining > n {
        lemma_glide_step(glide_after(current, target, remaining, n), target, remaining - n);
    }
}

/// A counted glide does not arrive early: while samples are left, its value
/// differs from a target that its start differs from.
pub proof fn lemma_glide_gradual(current: int, target: int, remaining: nat, n: nat)
    requires
        current != target,
        n < remaining,
    ensures
        glide_after(current, target, remaining, n) != target,
    decreases n,
{
    if n > 0 {
        let k = (n - 1) as nat;
        lemma_glide_gradual(current, target, remaining, k);
        let span = target - glide_after(current, target, remaining, k);
        if span > 0 {
            lemma_div_is_strictly_smaller(span, remaining - k);
        } else {
            lemma_div_is_strictly_smaller(-span, remaining - k);
        }
    }
}

/// What the calls of a counted smoother add up to. Where each of the states
/// 1 to `n` is the one before it after a sample, state `n` holds the value
/// of the glide that state 0 had begun, after `n` samples.
pub proof fn lemma_linear_run(states: Seq<LinearSmooth>, n: nat)
    requires
        n < states.len(),
        forall|i: int| 1 <= i <= n ==> (#[trigger] states[i]).advanced(states[i - 1]),
    ensures
        states[n as int].current() == glide_after(
            states[0].current(),
            states[0].target(),
            states[0].remaining(),
            n,
        ),
        states[n as int].target() == states[0].target(),
        states[n as int].remaining() == if states[0].remaining() >= n {
            states[0].remaining() - n
        } else {
            0
        },
    decreases n,
{
    if n > 0 {
        lemma_linear_run(states, (n - 1) as nat);
        assert(states[n as int].advanced(states[n - 1]));
    }
}

/// Convergence of a counted smoother. After `set_target`, which takes
/// `before` to state 0, the samples never pass the target, each lies
/// between the one before it and the target, and from the sample at which
/// the glide's length is reached they return the target exactly. The glide
/// is no jump: a new target that differs from the value is not returned
/// before that sample.
pub proof fn lemma_linear_converges(
    before: LinearSmooth,
    target: int,
    states: Seq<LinearSmooth>,
    n: nat,
)
    requires
        before.wf(),
        1 <= n < states.len(),
        states[0].aimed(before, target),
        forall|i: int| 1 <= i <= n ==> (#[trigger] states[i]).advanced(states[i - 1]),
    ensures
        between(before.current(), states[n as int].current(), target),
        between(states[n - 1].current(), states[n as int].current(), target),
        n >= before.ramp_samples() ==> states[n as int].current() == target,
        target != before.target() && target != before.current() && n < before.ramp_samples()
            ==> states[n as int].current() != target,
{
    lemma_linear_run(states, n);
    lemma_linear_run(states, (n - 1) as nat);
    lemma_glide_converges(states[0].current(), target, states[0].remaining(), n);
    lemma_glide_monotonic(states[0].current(), target, states[0].remaining(), (n - 1) as nat);
    if target != before.target() && target != before.current() && n < before.ramp_samples() {
        lemma_glide_gradual(states[0].current(), target, states[0].remaining(), n);
    }
}

/// The rounded-up increment covers the span in `ramp_samples` samples and is
/// no larger than the span; it is smaller than a span of two units or more
/// that is spread over two samples or more.
pub proof fn lemma_ramp_increment(span: int, ramp_samples: int)
    requires
        span >= 0,
        ramp_samples >= 1,
    ensures
        0 <= ramp_increment(span, ramp_samples) <= span,
        ramp_samples * ramp_increment(span, ramp_samples) >= span,
        span > 0 ==> ramp_increment(span, ramp_samples) >= 1,
        span >= 2 && ramp_samples >= 2 ==> ramp_increment(span, ramp_samples) < span,
{
    let numerator = span + ramp_samples - 1;
    lemma_fundamental_div_mod(numerator, ramp_samples);
    lemma_mod_bound(numerator, ramp_samples);
    lemma_div_pos_is_pos(numerator, ramp_samples);
    let q = numerator / ramp_samples;
    if span > 0 {
        assert(q >= 1) by (nonlinear_arith)
            requires
                ramp_samples * q + numerator % ramp_samples == numerator,
                0 <= numerator % ramp_samples < ramp_samples,
                numerator >= ramp_samples,
                ramp_samples >= 1,
        ;
        assert(q <= span) by (nonlinear_arith)
            requires
                ramp_samples * q + numerator % ramp_samples == numerator,
                0 <= numerator % ramp_samples,
                numerator == span + ramp_samples - 1,
                ramp_samples >= 1,
                span >= 1,
                q >= 1,
        ;
        if span >= 2 && ramp_samples >= 2 {
            assert(q < span) by (nonlinear_arith)
                requires
                    ramp_samples * q + numerator % ramp_samples == numerator,
                    0 <= numerator % ramp_samples,
                    numerator == span + ramp_samples - 1,
                    ramp_samples >= 2,
                    span >= 2,
                    q >= 1,
            ;
        }
    } else {
        assert(q == 0) by (nonlinear_arith)
            requires
                ramp_samples * q + numerator % ramp_samples == numerator,
                0 <= numerator % ramp_samples,
                numerator == ramp_samples - 1,
                ramp_samples >= 1,
                q >= 0,
        ;
    }
}

/// A sample of a ramp changes the value by no more than the increment, never
/// passes the target, and keeps the target within reach.
pub proof fn lemma_approach_keeps_reach(current: int, target: int, step: int, ramp_samples: int)
    requires
        step >= 0,
        ramp_samples >= 1,
        ramp_samples * step >= distance(current, target),
    ensures
        between(current, approach(current, target, step), target),
        distance(current, approach(current, target, step)) <= step,
        ramp_samples * step >= distance(approach(current, target, step), target),
{
    assert(ramp_samples * step >= 0) by (nonlinear_arith)
        requires
            step >= 0,
            ramp_samples >= 1,
    ;
}

/// The value of a ramp after `n` samples: the start moved by `n` increments
/// toward the target, and the target itself once that would pass it.
pub proof fn lemma_ramp_after(current: int, target: int, step: int, n: nat)
    requires
        step >= 0,
    ensures
        ramp_after(current, target, step, n) == if distance(current, target) <= n * step {
            target
        } else if current < target {
            current + n * step
        } else {
            current - n * step
        },
    decreases n,
{
    if n == 0 {
        assert(n * step == 0);
    } else {
        let k = (n - 1) as nat;
        lemma_ramp_after(current, target, step, k);
        assert(n * step == k * step + step) by (nonlinear_arith)
            requires
                n == k + 1,
        ;
        assert(k * step >= 0) by (nonlinear_arith)
            requires
                k >= 0,
                step >= 0,
        ;
    }
}

/// A ramp whose increment was computed for `ramp_samples` samples stays
/// between its start and its target and rests on the target from sample
/// `ramp_samples` on.
pub proof fn lemma_ramp_converges(current: int, target: int, step: int, ramp_samples: int, n: nat)
    requires
        step >= 0,
        ramp_samples >= 1,
        ramp_samples * step >= distance(current, target),
    ensures
        between(current, ramp_after(current, target, step, n), target),
        n >= ramp_samples ==> ramp_after(current, target, step, n) == target,
{
    lemma_ramp_after(current, target, step, n);
    assert(n * step >= 0) by (nonlinear_arith)
        requires
            n >= 0,
            step >= 0,
    ;
    if n >= ramp_samples {
        assert(n * step >= ramp_samples * step) by (nonlinear_arith)
            requires
                n >= ramp_samples,
                step >= 0,
        ;
    }
}

/// A ramp is monotonic and smooth: each sample lies between the one before
/// it and the target, and differs from it by no more than the increment.
pub proof fn lemma_ramp_smooth(current: int, target: int, step: int, n: nat)
    requires
        step >= 0,
    ensures
        between(
            ramp_after(current, target, step, n),
            ramp_after(current, target, step, n + 1),
            target,
        ),
        distance(ramp_after(current, target, step, n), ramp_after(current, target, step, n + 1))
            <= step,
{
}

/// The increment that a ramp takes up when it is given `target`: the one it
/// has where `target` is the target it has, a new one where it is not.
pub open spec fn increment_toward(smoother: RampSmooth, target: int) -> int {
    if target == smoother.target() {
        smoother.step()
    } else {
        ramp_increment(distance(smoother.current(), target), smoother.ramp_samples())
    }
}

/// What the calls of a ramp add up to. Where each of the states 1 to `n` is
/// the one before it after a sample with the same `target`, state `n` holds
/// the value of the ramp from state 0 to `target` after `n` samples.
pub proof fn lemma_ramp_run(states: Seq<RampSmooth>, target: int, n: nat)
    requires
        n < states.len(),
        forall|i: int| 1 <= i <= n ==> (#[trigger] states[i]).followed(states[i - 1], target),
    ensures
        states[n as int].current() == ramp_after(
            states[0].current(),
            target,
            increment_toward(states[0], target),
            n,
        ),
        n >= 1 ==> states[n as int].target() == target && states[n as int].step()
            == increment_toward(states[0], target),
        states[n as int].ramp_samples() == states[0].ramp_samples(),
    decreases n,
{
    if n > 0 {
        lemma_ramp_run(states, target, (n - 1) as nat);
        assert(states[n as int].followed(states[n - 1], target));
    }
}

/// Convergence and smoothness of a ramp. Where `target` is given to a ramp
/// in state 0 for `n` samples, the samples move toward `target` by no more
/// than one increment each and never pass it; if `target` is new to the
/// ramp, the increment is the distance to it divided by the ramp's length,
/// rounded up; and from the sample at which the ramp's length is reached
/// the samples return `target` exactly. After `n` samples the value has
/// moved by `n` increments, or by the whole distance where that is less, so
/// that it does not arrive while `n` increments fall short of the distance.
pub proof fn lemma_ramp_glides(states: Seq<RampSmooth>, target: int, n: nat)
    requires
        1 <= n < states.len(),
        states[0].wf(),
        forall|i: int| 1 <= i <= n ==> (#[trigger] states[i]).followed(states[i - 1], target),
    ensures
        between(states[0].current(), states[n as int].current(), target),
        between(states[n - 1].current(), states[n as int].current(), target),
        distance(states[n - 1].current(), states[n as int].current()) <= increment_toward(
            states[0],
            target,
        ),
        target != states[0].target() ==> increment_toward(states[0], target) == ramp_increment(
            distance(states[0].current(), target),
            states[0].ramp_samples(),
        ),
        n >= states[0].ramp_samples() ==> states[n as int].current() == target,
        distance(states[0].current(), states[n as int].current()) == if distance(
            states[0].current(),
            target,
        ) <= n * increment_toward(states[0], target) {
            distance(states[0].current(), target)
        } else {
            n * increment_toward(states[0], target)
        },
        distance(states[0].current(), target) > n * increment_toward(states[0], target)
            ==> states[n as int].current() != target,
{
    let start = states[0];
    let step = increment_toward(start, target);
    if target != start.target() {
        lemma_ramp_increment(distance(start.current(), target), start.ramp_samples());
    }
    lemma_ramp_run(states, target, n);
    lemma_ramp_run(states, target, (n - 1) as nat);
    lemma_ramp_converges(start.current(), target, step, start.ramp_samples(), n);
    lemma_ramp_smooth(start.current(), target, step, (n - 1) as nat);
    lemma_ramp_after(start.current(), target, step, n);
    assert(n * step >= 0) by (nonlinear_arith)
        requires
            n >= 0,
            step >= 0,
    ;
}

/// A ramp is no jump. After a change of target by two units or more, a ramp
/// of two samples or more does not return the new target on its first
/// sample.
pub proof fn lemma_ramp_gradual(before: RampSmooth, after: RampSmooth, target: int)
    requires
        before.wf(),
        before.ramp_samples() >= 2,
        target != before.target(),
        distance(before.current(), target) >= 2,
        after.followed(before, target),
    ensures
        after.current() != target,
        between(before.current(), after.current(), target),
{
    lemma_ramp_increment(distance(before.current(), target), before.ramp_samples());
}

/// After `reset`, the next sample of a counted smoother is the value it
/// was reset to.
pub proof fn lemma_reset_holds(
    before: LinearSmooth,
    reset: LinearSmooth,
    next: LinearSmooth,
    value: int,
)
    requires
        reset.jumped(before, value),
        next.advanced(reset),
    ensures
        next.current() == value,
{
}

/// After `initialize`, the next sample of a ramp that is given the same
/// value as its target is that value.
pub proof fn lemma_initialize_holds(
    before: RampSmooth,
    initialized: RampSmooth,
    next: RampSmooth,
    value: int,
)
    requires
        initialized.jumped(before, value),
        next.followed(initialized, value),
    ensures
        next.current() == value,
{
}

} // verus!
