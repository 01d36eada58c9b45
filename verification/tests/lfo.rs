use lfo::fixed::{HALF, ONE, QUARTER};
use lfo::lfo::{map_bipolar, Lfo};
use lfo::params::{Params, RAMP_MS};
use lfo::random::Draws;
use lfo::shape::LfoShape;

const NONE: Draws = Draws { gate: 0, noise_gate: 0, value: 0 };

#[test]
fn ramp_time_is_twelve_milliseconds() {
    assert_eq!(RAMP_MS, 12);
}

#[test]
fn map_bipolar_spreads_zero_to_one_over_minus_ten_to_ten() {
    assert_eq!(map_bipolar(0, ONE, 0), -10 * ONE);
    assert_eq!(map_bipolar(QUARTER, ONE, 0), -5 * ONE);
    assert_eq!(map_bipolar(HALF, ONE, 0), 0);
    assert_eq!(map_bipolar(3 * QUARTER, ONE, 0), 5 * ONE);
    assert_eq!(map_bipolar(ONE, ONE, 0), 10 * ONE);
}

#[test]
fn map_bipolar_scales_then_offsets_then_clamps() {
    assert_eq!(map_bipolar(ONE, HALF, QUARTER), 15 * HALF);
    assert_eq!(map_bipolar(0, HALF, QUARTER), -5 * HALF);
    assert_eq!(map_bipolar(ONE, 2 * ONE, 0), 10 * ONE);
    assert_eq!(map_bipolar(QUARTER, -ONE, 0), 5 * ONE);
    assert_eq!(map_bipolar(ONE, 2 * ONE, -ONE), 10 * ONE);
    assert_eq!(map_bipolar(ONE, 2 * ONE, -2 * ONE), 0);
    assert_eq!(map_bipolar(ONE / 3, ONE / 3, ONE / 7), 1363481670);
    assert_eq!(map_bipolar(ONE, i64::MAX, i64::MIN), -10);
    assert_eq!(map_bipolar(0, i64::MAX, i64::MAX), 0);
}

#[test]
fn params_start_at_their_defaults() {
    let mut params = Params::new(1000);
    assert_eq!(params.shape, LfoShape::Sine);
    assert_eq!(params.offset, 0);
    assert_eq!(params.chance, ONE);
    assert!(!params.is_initialized);
    assert_eq!(params.freq.next(), 0);
    assert_eq!(params.depth.next(), 0);
}

#[test]
fn params_first_set_jumps() {
    let mut params = Params::new(1000);
    params.set(250 * ONE, 3, HALF, ONE, QUARTER);
    assert_eq!(params.shape, LfoShape::SawUp);
    assert_eq!(params.chance, HALF);
    assert_eq!(params.offset, QUARTER);
    assert!(params.is_initialized);
    assert_eq!(params.freq.next(), 250 * ONE);
    assert_eq!(params.depth.next(), ONE);
}

#[test]
fn params_later_set_glides_frequency_and_depth() {
    let mut params = Params::new(1000);
    params.set(250 * ONE, 3, ONE, ONE, 0);
    params.set(500 * ONE, 9, QUARTER, HALF, -HALF);
    assert_eq!(params.shape, LfoShape::Noise);
    assert_eq!(params.chance, QUARTER);
    assert_eq!(params.offset, -HALF);
    assert_eq!(params.freq.next(), 1163220309333);
    assert_eq!(params.depth.next(), 4116010326);
    for _ in 0..10 {
        params.freq.next();
        params.depth.next();
    }
    assert_eq!(params.freq.next(), 500 * ONE);
    assert_eq!(params.depth.next(), HALF);
}

#[test]
fn params_set_with_the_same_values_keeps_the_glide() {
    let mut params = Params::new(1000);
    params.set(0, 1, ONE, 0, 0);
    params.set(12 * ONE, 1, ONE, 24 * ONE, 0);
    for n in 1..=12 {
        params.set(12 * ONE, 1, ONE, 24 * ONE, 0);
        assert_eq!(params.freq.next(), n * ONE);
        assert_eq!(params.depth.next(), 2 * n * ONE);
    }
}

#[test]
fn lfo_with_default_params_rests_at_zero() {
    let mut lfo = Lfo::new(1000);
    let mut params = Params::new(1000);
    for _ in 0..3 {
        assert_eq!(lfo.process_with(&mut params, NONE), 0);
    }
}

#[test]
fn lfo_renders_a_bipolar_saw() {
    let mut lfo = Lfo::new(1000);
    let mut params = Params::new(1000);
    params.set(250 * ONE, 3, ONE, ONE, 0);
    assert_eq!(lfo.process_with(&mut params, NONE), 5 * ONE);
    assert_eq!(lfo.process_with(&mut params, NONE), -10 * ONE);
    assert_eq!(lfo.process_with(&mut params, NONE), -5 * ONE);
    assert_eq!(lfo.process_with(&mut params, NONE), 0);
    assert_eq!(lfo.process_with(&mut params, NONE), 5 * ONE);
}

#[test]
fn lfo_follows_gliding_frequency_and_depth() {
    let mut lfo = Lfo::new(1000);
    let mut params = Params::new(1000);
    params.set(250 * ONE, 3, ONE, ONE, 0);
    for _ in 0..4 {
        lfo.process_with(&mut params, NONE);
    }
    params.set(500 * ONE, 3, ONE, HALF, QUARTER);
    let expected: [i64; 14] = [
        33032474160,
        -23711798650,
        1342177230,
        25650499100,
        -19014178210,
        6710886330,
        31019208190,
        -3579139490,
        20803747760,
        -7009148100,
        16553519710,
        -5368709190,
        16106127290,
        -5368709190,
    ];
    for sample in expected {
        assert_eq!(lfo.process_with(&mut params, NONE), sample);
    }
}

#[test]
fn lfo_sine_one_hertz_at_48000_first_sample_quarter_and_half_cycle() {
    let mut lfo = Lfo::new(48000);
    let mut params = Params::new(48000);
    params.set(ONE, 1, ONE, ONE, 0);
    let mut samples = Vec::new();
    for _ in 0..=24000 {
        samples.push(lfo.process(&mut params));
    }
    assert_eq!(samples[0], 5726540);
    assert_eq!(samples[12000], 42949672620);
    assert_eq!(samples[23999], 745460);
    assert_eq!(samples[24000], -4981080);
    let scale = ONE as f64;
    let step = 2.0 * std::f64::consts::PI * 89478.0 / scale;
    for n in [0usize, 12000, 23999, 24000] {
        let exact = 10.0 * (step * (n as f64 + 1.0)).sin();
        assert!((samples[n] as f64 / scale - exact).abs() < 0.017);
    }
    assert!((samples[0] as f64 / scale).abs() < 0.05);
    assert!((samples[12000] as f64 / scale - 10.0).abs() < 0.05);
    assert!((samples[24000] as f64 / scale).abs() < 0.05);
}

#[test]
fn lfo_rectangle_starts_at_minus_ten() {
    let mut lfo = Lfo::new(1000);
    let mut params = Params::new(1000);
    params.set(ONE, 5, ONE, ONE, 0);
    assert_eq!(lfo.process(&mut params), -10 * ONE);
    let mut still = Lfo::new(1000);
    params.set(0, 5, ONE, ONE, 0);
    for _ in 0..20 {
        assert_eq!(still.process(&mut params), -10 * ONE);
    }
}

#[test]
fn lfo_random_shapes_start_from_one_half() {
    let mut lfo = Lfo::new(1000);
    let mut params = Params::new(1000);
    params.set(250 * ONE, 7, ONE, ONE, 0);
    for _ in 0..4 {
        assert_eq!(lfo.process_with(&mut params, NONE), 5 * ONE);
    }
    assert_eq!(lfo.process_with(&mut params, NONE), 5 * QUARTER);
}

#[test]
fn lfo_random_glides_from_the_old_level_at_the_scale_of_ten() {
    let mut lfo = Lfo::new(2);
    let mut params = Params::new(2);
    params.set(ONE, 7, ONE, ONE, 0);
    assert_eq!(lfo.process_with(&mut params, NONE), 5 * ONE);
    assert_eq!(lfo.process_with(&mut params, NONE), 5 * ONE);
    assert_eq!(lfo.process_with(&mut params, NONE), -5 * HALF);
}

#[test]
fn lfo_gated_cycle_rests_at_the_offset() {
    let mut lfo = Lfo::new(1000);
    let mut params = Params::new(1000);
    let fail = Draws { gate: 0x8000_0000, noise_gate: 0, value: 0 };
    params.set(250 * ONE, 5, HALF, ONE, QUARTER);
    for _ in 0..3 {
        lfo.process_with(&mut params, fail);
    }
    for _ in 0..4 {
        assert_eq!(lfo.process_with(&mut params, fail), 5 * HALF);
    }
}

#[test]
fn lfo_sample_and_hold_without_chance_rests_after_the_first_wrap() {
    let mut lfo = Lfo::new(1000);
    let mut params = Params::new(1000);
    params.set(250 * ONE, 6, 0, ONE, 0);
    for n in 0..40 {
        let sample = lfo.process(&mut params);
        if n < 3 {
            assert_eq!(sample, 5 * ONE);
        } else {
            assert_eq!(sample, 0);
        }
    }
}

#[test]
fn lfo_samples_stay_within_minus_ten_and_ten() {
    let mut lfo = Lfo::new(100);
    let mut params = Params::new(100);
    for n in 0..900i64 {
        let code = (n % 9 + 1) as u8;
        params.set((n % 50) * ONE, code, HALF, (n - 450) * QUARTER, (n % 5 - 2) * HALF);
        let sample = lfo.process(&mut params);
        assert!(-10 * ONE <= sample && sample <= 10 * ONE);
    }
}
