//! The waveforms as functions of the phase.
//!
//! All of them map a phase in `[0, 1)` to a level in `[0, 1]`, except
//! [`sine`], which gives the signed sine in `[-1, 1]`.

use vstd::prelude::*;
use vstd::arithmetic::div_mod::{
    lemma_div_is_ordered, lemma_div_is_ordered_by_denominator, lemma_div_multiples_vanish,
    lemma_div_pos_is_pos, lemma_fundamental_div_mod, lemma_mod_bound,
};
use crate::fixed::{ONE, HALF, QUARTER};
use crate::smooth::between;

verus! {

/// `phase` moved forward by `offset`, modulo one cycle.
pub open spec fn shifted(phase: int, offset: int) -> int {
    (phase + offset) % (ONE as int)
}

/// `offset` minus `phase`, modulo one cycle: the phase of a wave that runs
/// backwards from `offset`.
pub open spec fn reflected(offset: int, phase: int) -> int {
    (offset - phase) % (ONE as int)
}

/// The sine of half a cycle, for `x` from 0 to 1/2: the rational
/// approximation `16 p / (5 - 4 p)` with `p = 2x (1 - 2x)`, known as
/// Bhaskara's formula, rounded down.
pub open spec fn half_sine_wave(x: int) -> int {
    let p = x * (HALF - x);
    (4 * p * ONE) / (0x5000_0000_0000_0000 - p)
}

/// The signed sine of a cycle: positive in its first half, negative in its
/// second.
pub open spec fn sine_wave(phase: int) -> int {
    if phase < HALF {
        half_sine_wave(phase)
    } else {
        -half_sine_wave(phase - HALF)
    }
}

/// The sine moved into the range from 0 to 1.
pub open spec fn unit_sine_wave(phase: int) -> int {
    (sine_wave(phase) + ONE) / 2
}

/// A triangle that rises from 0 to 1 over the first half of the cycle and
/// falls back over the second.
pub open spec fn triangle_wave(phase: int) -> int {
    if phase > HALF {
        2 * ONE - 2 * phase
    } else {
        2 * phase
    }
}

/// A step from 0 to 1 past the middle of the cycle.
pub open spec fn rectangle_wave(phase: int) -> int {
    if phase > HALF {
        ONE as int
    } else {
        0
    }
}

/// The S-shaped mix fraction `(1 - cos(pi * phase)) / 2`, taken from
/// [`sine_wave`] a quarter cycle ahead.
pub open spec fn cosine_ease(phase: int) -> int {
    (ONE - sine_wave(phase / 2 + QUARTER)) / 2
}

/// The mix of `origin` and `target` that is `origin` at `mix` 0 and `target`
/// at `mix` 1, rounded down.
pub open spec fn blend(origin: int, target: int, mix: int) -> int {
    (origin * (ONE - mix) + target * mix) / (ONE as int)
}

/// Computes [`shifted`].
pub fn shift(phase: u32, offset: u32) -> (moved: u32)
    ensures
        moved == shifted(phase as int, offset as int),
{
    phase.wrapping_add(offset)
}

/// Computes [`reflected`].
pub fn reflect(offset: u32, phase: u32) -> (moved: u32)
    ensures
        moved == reflected(offset as int, phase as int),
{
    offset.wrapping_sub(phase)
}

/// Computes [`half_sine_wave`].
fn half_sine(x: u32) -> (level: i64)
    requires
        x <= HALF,
    ensures
        level == half_sine_wave(x as int),
        0 <= level <= ONE,
{
    proof {
        lemma_half_sine_bounds(x as int);
    }
    let x: u128 = x as u128;
    let p: u128 = x * (0x8000_0000 - x);
    let numerator: u128 = 4 * p * 0x1_0000_0000;
    let denominator: u128 = 0x5000_0000_0000_0000 - p;
    (numerator / denominator) as i64
}

/// The signed sine at `phase`, by [`sine_wave`].
pub fn sine(phase: u32) -> (level: i64)
    ensures
        level == sine_wave(phase as int),
        -ONE <= level <= ONE,
{
    if phase < 0x8000_0000 {
        half_sine(phase)
    } else {
        -half_sine(phase - 0x8000_0000)
    }
}

/// The sine at `phase` in the range from 0 to 1, by [`unit_sine_wave`].
pub fn unit_sine(phase: u32) -> (level: i64)
    ensures
        level == unit_sine_wave(phase as int),
        0 <= level <= ONE,
{
    (sine(phase) + ONE) / 2
}

/// The triangle at `phase`, by [`triangle_wave`].
pub fn triangle(phase: u32) -> (level: i64)
    ensures
        level == triangle_wave(phase as int),
        0 <= level <= ONE,
{
    if phase > 0x8000_0000 {
        2 * ONE - 2 * (phase as i64)
    } else {
        2 * (phase as i64)
    }
}

/// The rectangle at `phase`, by [`rectangle_wave`].
pub fn rectangle(phase: u32) -> (level: i64)
    ensures
        level == rectangle_wave(phase as int),
        level == 0 || level == ONE,
{
    if phase > 0x8000_0000 {
        ONE
    } else {
        0
    }
}

/// The S-shaped mix fraction at `phase`, by [`cosine_ease`].
pub fn ease(phase: u32) -> (mix: i64)
    ensures
        mix == cosine_ease(phase as int),
        0 <= mix <= ONE,
{
    (ONE - sine(phase / 2 + 0x4000_0000)) / 2
}

/// Mixes `origin` and `target` by [`blend`]. The result lies between the
/// two.
pub fn interpolate(origin: i64, target: i64, mix: i64) -> (level: i64)
    requires
        0 <= mix <= ONE,
    ensures
        level == blend(origin as int, target as int, mix as int),
        between(origin as int, level as int, target as int),
{
    proof {
        lemma_blend_between(origin as int, target as int, mix as int);
    }
    assert(-0x8000_0000_0000_0000_0000_0000 <= origin * (ONE - mix)
        <= 0x8000_0000_0000_0000_0000_0000) by (nonlinear_arith)
        requires
            -0x8000_0000_0000_0000 <= origin <= 0x8000_0000_0000_0000,
            0 <= ONE - mix <= 0x1_0000_0000,
    ;
    assert(-0x8000_0000_0000_0000_0000_0000 <= target * mix <= 0x8000_0000_0000_0000_0000_0000)
        by (nonlinear_arith)
        requires
            -0x8000_0000_0000_0000 <= target <= 0x8000_0000_0000_0000,
            0 <= mix <= 0x1_0000_0000,
    ;
    let from_origin: i128 = (origin as i128) * ((ONE - mix) as i128);
    let from_target: i128 = (target as i128) * (mix as i128);
    let weighted: i128 = from_origin + from_target;
    let quotient: i128 = weighted / 0x1_0000_0000;
    let remainder: i128 = weighted % 0x1_0000_0000;
    if remainder < 0 {
        (quotient - 1) as i64
    } else {
        quotient as i64
    }
}

/// The approximation of the half sine stays within 0 and 1.
pub proof fn lemma_half_sine_bounds(x: int)
    requires
        0 <= x <= HALF,
    ensures
        0 <= x * (HALF - x) <= 0x1000_0000_0000_0000,
        0 <= half_sine_wave(x) <= ONE,
{
    let p = x * (HALF - x);
    assert(0 <= p <= 0x1000_0000_0000_0000) by (nonlinear_arith)
        requires
            p == x * (0x8000_0000 - x),
            0 <= x <= 0x8000_0000,
    {
        assert((0x8000_0000 - 2 * x) * (0x8000_0000 - 2 * x) >= 0);
        assert((0x8000_0000 - 2 * x) * (0x8000_0000 - 2 * x) == 0x4000_0000_0000_0000 - 4 * (x * (
        0x8000_0000 - x)));
    }
    let numerator = 4 * p * ONE;
    let denominator = 0x5000_0000_0000_0000 - p;
    assert(0 <= numerator <= denominator * ONE) by (nonlinear_arith)
        requires
            numerator == 4 * p * ONE,
            denominator == 0x5000_0000_0000_0000 - p,
            0 <= p <= 0x1000_0000_0000_0000,
            ONE == 0x1_0000_0000,
    ;
    lemma_div_pos_is_pos(numerator, denominator);
    lemma_div_is_ordered(numerator, denominator * ONE, denominator);
    lemma_div_multiples_vanish(ONE as int, denominator);
    assert(denominator * ONE == ONE * denominator) by (nonlinear_arith);
}

/// Every waveform stays within its range: the signed sine within -1 and 1,
/// the others within 0 and 1.
pub proof fn lemma_wave_bounds(phase: int)
    requires
        0 <= phase < ONE,
    ensures
        -ONE <= sine_wave(phase) <= ONE,
        0 <= unit_sine_wave(phase) <= ONE,
        0 <= triangle_wave(phase) <= ONE,
        0 <= rectangle_wave(phase) <= ONE,
        0 <= cosine_ease(phase) <= ONE,
{
    if phase < HALF {
        lemma_half_sine_bounds(phase);
    } else {
        lemma_half_sine_bounds(phase - HALF);
    }
    let ahead = phase / 2 + QUARTER;
    if ahead < HALF {
        lemma_half_sine_bounds(ahead);
    } else {
        lemma_half_sine_bounds(ahead - HALF);
    }
}

/// The sine is 0 at the start and the middle of the cycle, 1 at the first
/// quarter and -1 at the third; its second half mirrors the first with the
/// sign changed, and each half is symmetric about its own middle.
pub proof fn lemma_sine_shape(phase: int)
    requires
        0 <= phase < HALF,
    ensures
        sine_wave(0) == 0,
        sine_wave(QUARTER as int) == ONE,
        sine_wave(HALF as int) == 0,
        sine_wave(3 * QUARTER) == -ONE,
        sine_wave(phase + HALF) == -sine_wave(phase),
        half_sine_wave(HALF - phase) == half_sine_wave(phase),
{
    assert(half_sine_wave(0) == 0) by {
        assert(0 * (HALF - 0) == 0);
        assert(4 * 0 * ONE == 0);
    }
    assert(half_sine_wave(QUARTER as int) == ONE) by {
        assert(QUARTER * (HALF - QUARTER) == 0x1000_0000_0000_0000) by (nonlinear_arith)
            requires
                QUARTER == 0x4000_0000,
                HALF == 0x8000_0000,
        ;
        assert(4 * 0x1000_0000_0000_0000 * ONE == 0x4000_0000_0000_0000_0000_0000int);
    }
    assert((HALF - phase) * (HALF - (HALF - phase)) == phase * (HALF - phase))
        by (nonlinear_arith);
}

/// The S-shaped mix fraction starts at 0 and passes one half in the middle
/// of the cycle.
pub proof fn lemma_ease_shape()
    ensures
        cosine_ease(0) == 0,
        cosine_ease(HALF as int) == HALF,
{
    lemma_sine_shape(0);
}

/// The sine rises over the first quarter of the cycle.
pub proof fn lemma_sine_rises(a: int, b: int)
    requires
        0 <= a <= b <= QUARTER,
    ensures
        sine_wave(a) <= sine_wave(b),
{
    let pa = a * (HALF - a);
    let pb = b * (HALF - b);
    lemma_half_sine_bounds(a);
    lemma_half_sine_bounds(b);
    assert(pa <= pb) by (nonlinear_arith)
        requires
            pa == a * (0x8000_0000 - a),
            pb == b * (0x8000_0000 - b),
            0 <= a <= b <= 0x4000_0000,
    {
        assert(pb - pa == (b - a) * (0x8000_0000 - a - b));
    }
    assert(4 * pa * ONE <= 4 * pb * ONE);
    lemma_div_is_ordered(4 * pa * ONE, 4 * pb * ONE, 0x5000_0000_0000_0000 - pa);
    lemma_div_is_ordered_by_denominator(
        4 * pb * ONE,
        0x5000_0000_0000_0000 - pb,
        0x5000_0000_0000_0000 - pa,
    );
}

/// A mix lies between its two ends and equals them at mix 0 and mix 1.
pub proof fn lemma_blend_between(origin: int, target: int, mix: int)
    requires
        0 <= mix <= ONE,
    ensures
        between(origin, blend(origin, target, mix), target),
        blend(origin, target, 0) == origin,
        blend(origin, target, ONE as int) == target,
        origin == target ==> blend(origin, target, mix) == origin,
{
    let one = ONE as int;
    let weighted = origin * (one - mix) + target * mix;
    lemma_fundamental_div_mod(weighted, one);
    lemma_mod_bound(weighted, one);
    if origin <= target {
        assert(origin * one <= weighted <= target * one) by (nonlinear_arith)
            requires
                weighted == origin * (one - mix) + target * mix,
                0 <= mix <= one,
                origin <= target,
        ;
    } else {
        assert(target * one <= weighted <= origin * one) by (nonlinear_arith)
            requires
                weighted == origin * (one - mix) + target * mix,
                0 <= mix <= one,
                target <= origin,
        ;
    }
    assert(origin * (one - 0) + target * 0 == origin * one) by (nonlinear_arith);
    assert(origin * (one - one) + target * one == target * one) by (nonlinear_arith);
    lemma_div_multiples_vanish(origin, one);
    lemma_div_multiples_vanish(target, one);
    assert(origin * one == one * origin) by (nonlinear_arith);
    assert(target * one == one * target) by (nonlinear_arith);
    if origin == target {
        assert(weighted == origin * one) by (nonlinear_arith)
            requires
                weighted == origin * (one - mix) + target * mix,
                origin == target,
        ;
    }
}

} // verus!
