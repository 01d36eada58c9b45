use lfo::fixed::{HALF, ONE, QUARTER};
use lfo::oscillator::{cyclic, map_output, Oscillator};
use lfo::random::Draws;
use lfo::shape::{LfoOutputMode, LfoShape};

const Q1: u32 = 0x4000_0000;
const Q2: u32 = 0x8000_0000;
const Q3: u32 = 0xc000_0000;
const NONE: Draws = Draws { gate: 0, noise_gate: 0, value: 0 };
const SHAPES: [LfoShape; 9] = [
    LfoShape::Sine,
    LfoShape::Triangle,
    LfoShape::SawUp,
    LfoShape::SawDown,
    LfoShape::Rectangle,
    LfoShape::SampleAndHold,
    LfoShape::Random,
    LfoShape::CurvedRandom,
    LfoShape::Noise,
];
const MODES: [LfoOutputMode; 3] =
    [LfoOutputMode::Bipolar, LfoOutputMode::UnipolarPositive, LfoOutputMode::UnipolarNegative];

fn quarters(shape: LfoShape, mode: LfoOutputMode) -> [i64; 4] {
    [
        cyclic(shape, mode, 0),
        cyclic(shape, mode, Q1),
        cyclic(shape, mode, Q2),
        cyclic(shape, mode, Q3),
    ]
}

fn mapped(level: i64) -> i64 {
    20 * level - 10 * ONE
}

#[test]
fn sine_starts_at_the_rest_level_of_its_polarity() {
    assert_eq!(quarters(LfoShape::Sine, LfoOutputMode::Bipolar), [HALF, ONE, HALF, 0]);
    assert_eq!(quarters(LfoShape::Sine, LfoOutputMode::UnipolarPositive), [0, HALF, ONE, HALF]);
    assert_eq!(quarters(LfoShape::Sine, LfoOutputMode::UnipolarNegative), [0, HALF, ONE, HALF]);
    assert_eq!(cyclic(LfoShape::Sine, LfoOutputMode::Bipolar, 0x2000_0000), 3663354458);
    assert_eq!(cyclic(LfoShape::Sine, LfoOutputMode::UnipolarPositive, 0x2000_0000), 631612838);
}

#[test]
fn triangle_starts_at_the_rest_level_of_its_polarity() {
    assert_eq!(quarters(LfoShape::Triangle, LfoOutputMode::Bipolar), [HALF, ONE, HALF, 0]);
    assert_eq!(quarters(LfoShape::Triangle, LfoOutputMode::UnipolarPositive), [0, HALF, ONE, HALF]);
    assert_eq!(quarters(LfoShape::Triangle, LfoOutputMode::UnipolarNegative), [0, HALF, ONE, HALF]);
    assert_eq!(cyclic(LfoShape::Triangle, LfoOutputMode::Bipolar, 0x2000_0000), 3 * QUARTER);
    assert_eq!(cyclic(LfoShape::Triangle, LfoOutputMode::UnipolarPositive, 0x2000_0000), QUARTER);
}

#[test]
fn saw_up_ramps_from_the_rest_level() {
    assert_eq!(quarters(LfoShape::SawUp, LfoOutputMode::Bipolar), [HALF, 3 * QUARTER, 0, QUARTER]);
    assert_eq!(
        quarters(LfoShape::SawUp, LfoOutputMode::UnipolarPositive),
        [0, QUARTER, HALF, 3 * QUARTER]
    );
    assert_eq!(
        quarters(LfoShape::SawUp, LfoOutputMode::UnipolarNegative),
        [0, 3 * QUARTER, HALF, QUARTER]
    );
    assert_eq!(cyclic(LfoShape::SawUp, LfoOutputMode::Bipolar, Q2 - 1), ONE - 1);
    assert_eq!(cyclic(LfoShape::SawUp, LfoOutputMode::UnipolarNegative, 1), ONE - 1);
}

#[test]
fn saw_down_ramps_from_the_rest_level() {
    assert_eq!(
        quarters(LfoShape::SawDown, LfoOutputMode::Bipolar),
        [HALF, QUARTER, 0, 3 * QUARTER]
    );
    assert_eq!(
        quarters(LfoShape::SawDown, LfoOutputMode::UnipolarPositive),
        [0, 3 * QUARTER, HALF, QUARTER]
    );
    assert_eq!(
        quarters(LfoShape::SawDown, LfoOutputMode::UnipolarNegative),
        [0, QUARTER, HALF, 3 * QUARTER]
    );
    assert_eq!(cyclic(LfoShape::SawDown, LfoOutputMode::Bipolar, Q2 + 1), ONE - 1);
    assert_eq!(cyclic(LfoShape::SawDown, LfoOutputMode::UnipolarPositive, 1), ONE - 1);
}

#[test]
fn rectangle_is_the_same_in_every_polarity() {
    for mode in MODES {
        assert_eq!(quarters(LfoShape::Rectangle, mode), [0, 0, 0, ONE]);
        assert_eq!(cyclic(LfoShape::Rectangle, mode, Q2 + 1), ONE);
    }
}

#[test]
fn map_output_spreads_zero_to_one_over_minus_ten_to_ten() {
    assert_eq!(map_output(0, ONE, 0), -10 * ONE);
    assert_eq!(map_output(HALF, ONE, 0), 0);
    assert_eq!(map_output(ONE, ONE, 0), 10 * ONE);
    assert_eq!(map_output(QUARTER, ONE, 0), -5 * ONE);
}

#[test]
fn map_output_scales_then_offsets_then_clamps() {
    assert_eq!(map_output(ONE, HALF, QUARTER), 5 * ONE);
    assert_eq!(map_output(ONE, 2 * ONE, 0), 10 * ONE);
    assert_eq!(map_output(ONE, -ONE, 0), -10 * ONE);
    assert_eq!(map_output(QUARTER, ONE, -HALF), -10 * ONE);
    assert_eq!(map_output(ONE, 2 * ONE, -ONE), 10 * ONE);
    assert_eq!(map_output(ONE, 2 * ONE, -3 * HALF), 0);
    assert_eq!(map_output(3, HALF, 0), -42949672940);
    assert_eq!(map_output(ONE / 3, ONE / 3, ONE / 7), -21133966080);
}

#[test]
fn map_output_takes_extreme_depth_and_offset() {
    assert_eq!(map_output(ONE, i64::MAX, i64::MAX), 10 * ONE);
    assert_eq!(map_output(ONE, i64::MIN, i64::MIN), -10 * ONE);
    assert_eq!(map_output(ONE, i64::MAX, i64::MIN), -10 * ONE);
    assert_eq!(map_output(0, i64::MAX, HALF), 0);
}

#[test]
fn tick_reports_the_phase_and_the_wrap() {
    let mut oscillator = Oscillator::new(4);
    assert_eq!(oscillator.tick(ONE), (Q1, false));
    assert_eq!(oscillator.tick(ONE), (Q2, false));
    assert_eq!(oscillator.tick(ONE), (Q3, false));
    assert_eq!(oscillator.tick(ONE), (0, true));
    assert_eq!(oscillator.tick(0), (0, false));
    assert_eq!(oscillator.tick(3 * ONE), (Q3, false));
    assert_eq!(oscillator.tick(2 * ONE), (Q1, true));
}

#[test]
fn process_with_renders_each_cyclic_shape() {
    for mode in MODES {
        for shape in [
            LfoShape::Sine,
            LfoShape::Triangle,
            LfoShape::SawUp,
            LfoShape::SawDown,
            LfoShape::Rectangle,
        ] {
            let mut oscillator = Oscillator::new(4);
            let levels = quarters(shape, mode);
            for n in 1..=8 {
                let sample = oscillator.process_with(ONE, shape, ONE, ONE, 0, mode, NONE);
                assert_eq!(sample, mapped(levels[n % 4]));
            }
        }
    }
}

#[test]
fn process_with_applies_depth_and_offset() {
    let mut oscillator = Oscillator::new(4);
    let sample = oscillator.process_with(
        ONE,
        LfoShape::SawUp,
        ONE,
        HALF,
        QUARTER,
        LfoOutputMode::UnipolarPositive,
        NONE,
    );
    assert_eq!(sample, mapped(QUARTER / 2 + QUARTER));
}

#[test]
fn sine_one_hertz_at_48000_first_sample_and_half_cycle() {
    let mut oscillator = Oscillator::new(48000);
    let first =
        oscillator.process_with(ONE, LfoShape::Sine, ONE, ONE, 0, LfoOutputMode::Bipolar, NONE);
    assert_eq!(first, 5726540);
    let mut last = first;
    for _ in 1..24000 {
        last =
            oscillator.process_with(ONE, LfoShape::Sine, ONE, ONE, 0, LfoOutputMode::Bipolar, NONE);
    }
    assert_eq!(last, 745460);
    let scale = ONE as f64;
    let exact_first = 10.0 * (2.0 * std::f64::consts::PI / 48000.0).sin();
    let exact_last = 10.0 * (std::f64::consts::PI * 24000.0 * 89478.0 / (HALF as f64)).sin();
    assert!((first as f64 / scale - exact_first).abs() < 0.017);
    assert!((last as f64 / scale - exact_last).abs() < 0.017);
}

#[test]
fn unipolar_sine_one_hertz_at_48000_first_sample_and_half_cycle() {
    let mut oscillator = Oscillator::new(48000);
    let mode = LfoOutputMode::UnipolarPositive;
    let first = oscillator.process_with(ONE, LfoShape::Sine, ONE, ONE, 0, mode, NONE);
    assert_eq!(first, -42949672580);
    let mut last = first;
    for _ in 1..24000 {
        last = oscillator.process_with(ONE, LfoShape::Sine, ONE, ONE, 0, mode, NONE);
    }
    assert_eq!(last, 42949672940);
}

#[test]
fn levels_stay_within_zero_and_one_for_every_shape() {
    for shape in SHAPES {
        for mode in MODES {
            let mut oscillator = Oscillator::new(7);
            for n in 0..2000u32 {
                let phase = n.wrapping_mul(0x9e37_79b9);
                let draws = Draws {
                    gate: n.wrapping_mul(0x85eb_ca6b),
                    noise_gate: n.wrapping_mul(0xc2b2_ae35),
                    value: n.wrapping_mul(0x27d4_eb2f) ^ 0xffff_ffff,
                };
                let level = oscillator.render(phase, n % 5 == 0, shape, HALF, mode, draws);
                assert!(0 <= level && level <= ONE);
            }
        }
    }
}

#[test]
fn samples_stay_within_minus_ten_and_ten() {
    for shape in SHAPES {
        let mut oscillator = Oscillator::new(100);
        for n in 0..500i64 {
            let value = (n as u32).wrapping_mul(0x9e37_79b9);
            let draws = Draws { gate: 0, noise_gate: 0, value };
            let sample = oscillator.process_with(
                13 * ONE,
                shape,
                ONE,
                (n - 250) * HALF,
                (n % 7 - 3) * QUARTER,
                LfoOutputMode::Bipolar,
                draws,
            );
            assert!(-10 * ONE <= sample && sample <= 10 * ONE);
        }
    }
}

#[test]
fn latch_is_drawn_only_when_a_cycle_starts() {
    let mode = LfoOutputMode::UnipolarPositive;
    let fail = Draws { gate: 0x8000_0000, noise_gate: 0, value: 0 };
    let pass = Draws { gate: 0x7fff_ffff, noise_gate: 0, value: 0 };
    let mut oscillator = Oscillator::new(4);
    let mut samples = Vec::new();
    for draws in [fail, fail, fail, fail, pass, pass, pass, pass, fail] {
        samples.push(oscillator.process_with(ONE, LfoShape::SawUp, HALF, ONE, 0, mode, draws));
    }
    let rest = mapped(0);
    assert_eq!(
        samples,
        vec![
            mapped(QUARTER),
            mapped(HALF),
            mapped(3 * QUARTER),
            rest,
            rest,
            rest,
            rest,
            rest,
            mapped(QUARTER)
        ]
    );
}

#[test]
fn a_gated_cycle_rests_at_the_neutral_level() {
    let fail = Draws { gate: 0xffff_ffff, noise_gate: 0, value: 0x1234_5678 };
    for mode in MODES {
        for shape in [
            LfoShape::Sine,
            LfoShape::Triangle,
            LfoShape::SawUp,
            LfoShape::SawDown,
            LfoShape::Rectangle,
            LfoShape::SampleAndHold,
        ] {
            let mut oscillator = Oscillator::new(16);
            for _ in 0..15 {
                oscillator.process_with(ONE, shape, HALF, ONE, 0, mode, fail);
            }
            for _ in 0..16 {
                let sample = oscillator.process_with(ONE, shape, HALF, ONE, 0, mode, fail);
                assert_eq!(sample, mapped(mode.rest_level()));
            }
        }
    }
}

#[test]
fn a_gated_glide_rests_from_its_second_cycle_on() {
    let fail = Draws { gate: 0xffff_ffff, noise_gate: 0, value: 0x1234_5678 };
    for shape in [LfoShape::Random, LfoShape::CurvedRandom] {
        let mode = LfoOutputMode::UnipolarPositive;
        let mut oscillator = Oscillator::new(4);
        for _ in 0..3 {
            oscillator.process_with(ONE, shape, HALF, ONE, 0, mode, fail);
        }
        assert_eq!(oscillator.process_with(ONE, shape, HALF, ONE, 0, mode, fail), mapped(HALF));
        let gliding = oscillator.process_with(ONE, shape, HALF, ONE, 0, mode, fail);
        assert!(mapped(0) < gliding && gliding < mapped(HALF));
        oscillator.process_with(ONE, shape, HALF, ONE, 0, mode, fail);
        oscillator.process_with(ONE, shape, HALF, ONE, 0, mode, fail);
        for _ in 0..8 {
            assert_eq!(oscillator.process_with(ONE, shape, HALF, ONE, 0, mode, fail), mapped(0));
        }
    }
}

#[test]
fn sample_and_hold_takes_a_level_at_each_wrap() {
    let mode = LfoOutputMode::Bipolar;
    let mut oscillator = Oscillator::new(4);
    let mut samples = Vec::new();
    for n in 0..12u32 {
        let draws = Draws { gate: 0, noise_gate: 0, value: 0x1000_0000 * (n + 1) };
        let shape = LfoShape::SampleAndHold;
        samples.push(oscillator.process_with(ONE, shape, ONE, ONE, 0, mode, draws));
    }
    let first = mapped(HALF);
    let second = mapped(0x4000_0000);
    let third = mapped(0x8000_0000);
    assert_eq!(
        samples,
        vec![
            first,
            first,
            first,
            second,
            second,
            second,
            second,
            third,
            third,
            third,
            third,
            mapped(0xc000_0000)
        ]
    );
}

#[test]
fn sample_and_hold_without_chance_rests_after_the_first_wrap() {
    let mode = LfoOutputMode::UnipolarPositive;
    let mut oscillator = Oscillator::new(4);
    for n in 0..40 {
        let sample = oscillator.process(ONE, LfoShape::SampleAndHold, 0, ONE, 0, mode);
        if n < 3 {
            assert_eq!(sample, mapped(HALF));
        } else {
            assert_eq!(sample, mapped(0));
        }
    }
}

#[test]
fn random_glides_linearly_from_level_to_level() {
    let mode = LfoOutputMode::Bipolar;
    let values = [0x1000_0000u32, 0xf000_0000, 0x2000_0000];
    let mut oscillator = Oscillator::new(4);
    let mut wraps = 0;
    let mut levels = Vec::new();
    for _ in 0..12 {
        let (phase, trigger) = oscillator.tick(ONE);
        let draws = Draws { gate: 0, noise_gate: 0, value: values[wraps] };
        levels.push(oscillator.render(phase, trigger, LfoShape::Random, ONE, mode, draws));
        if trigger {
            wraps += 1;
        }
    }
    assert_eq!(
        levels,
        vec![
            2147483648, 2147483648, 2147483648, 2147483648, 1677721600, 1207959552, 738197504,
            268435456, 1207959552, 2147483648, 3087007744, 4026531840
        ]
    );
}

#[test]
fn curved_random_glides_along_the_cosine_ease() {
    let mode = LfoOutputMode::Bipolar;
    let values = [0x1000_0000u32, 0xf000_0000, 0x2000_0000];
    let mut oscillator = Oscillator::new(4);
    let mut wraps = 0;
    let mut levels = Vec::new();
    for _ in 0..12 {
        let (phase, trigger) = oscillator.tick(ONE);
        let draws = Draws { gate: 0, noise_gate: 0, value: values[wraps] };
        levels.push(oscillator.render(phase, trigger, LfoShape::CurvedRandom, ONE, mode, draws));
        if trigger {
            wraps += 1;
        }
    }
    assert_eq!(
        levels,
        vec![
            2147483648, 2147483648, 2147483648, 2147483648, 1871153031, 1207959552, 544766072,
            268435456, 821096689, 2147483648, 3473870606, 4026531840
        ]
    );
}

#[test]
fn noise_draws_its_own_gate_on_every_sample() {
    let mut oscillator = Oscillator::new(1000);
    for mode in MODES {
        let open = Draws { gate: 0xffff_ffff, noise_gate: 0x3fff_ffff, value: 0xabcd_ef01 };
        let shut = Draws { gate: 0, noise_gate: 0x4000_0000, value: 0xabcd_ef01 };
        assert_eq!(
            oscillator.process_with(ONE, LfoShape::Noise, QUARTER, ONE, 0, mode, open),
            mapped(0xabcd_ef01)
        );
        assert_eq!(
            oscillator.process_with(ONE, LfoShape::Noise, QUARTER, ONE, 0, mode, shut),
            mapped(mode.rest_level())
        );
    }
}

#[test]
fn initialize_with_sets_the_latch_below_chance() {
    let mode = LfoOutputMode::UnipolarPositive;
    let mut oscillator = Oscillator::new(4);
    oscillator.initialize_with(HALF, 0x8000_0000);
    assert_eq!(oscillator.process_with(ONE, LfoShape::SawUp, ONE, ONE, 0, mode, NONE), mapped(0));
    oscillator.initialize_with(HALF, 0x7fff_ffff);
    assert_eq!(
        oscillator.process_with(ONE, LfoShape::SawUp, ONE, ONE, 0, mode, NONE),
        mapped(HALF)
    );
}

#[test]
fn initialize_is_certain_at_chance_zero_and_one() {
    let mode = LfoOutputMode::UnipolarPositive;
    for _ in 0..50 {
        let mut oscillator = Oscillator::new(4);
        oscillator.initialize(0);
        assert_eq!(
            oscillator.process(ONE, LfoShape::SawUp, 0, ONE, 0, mode),
            mapped(0)
        );
        oscillator.initialize(ONE);
        assert_eq!(
            oscillator.process(ONE, LfoShape::SawUp, ONE, ONE, 0, mode),
            mapped(HALF)
        );
    }
}

#[test]
fn with_level_sets_the_held_levels() {
    let mut oscillator = Oscillator::with_level(4, 3 * QUARTER);
    let sample =
        oscillator.process_with(ONE, LfoShape::Random, ONE, ONE, 0, LfoOutputMode::Bipolar, NONE);
    assert_eq!(sample, mapped(3 * QUARTER));
    let mut held = Oscillator::with_level(4, 0);
    let sample =
        held.process_with(ONE, LfoShape::SampleAndHold, ONE, ONE, 0, LfoOutputMode::Bipolar, NONE);
    assert_eq!(sample, mapped(0));
}

#[test]
fn cyclic_shapes_but_the_rectangle_start_at_rest() {
    for mode in MODES {
        for shape in [LfoShape::Sine, LfoShape::Triangle, LfoShape::SawUp, LfoShape::SawDown] {
            assert_eq!(cyclic(shape, mode, 0), mode.rest_level());
        }
    }
}

#[test]
fn full_chance_enables_every_cycle() {
    let mode = LfoOutputMode::UnipolarPositive;
    let mut oscillator = Oscillator::new(4);
    oscillator.initialize_with(0, 0);
    for n in 1..=12 {
        let draws = Draws { gate: 0xffff_ffff, noise_gate: 0, value: 0 };
        let sample = oscillator.process_with(ONE, LfoShape::Triangle, ONE, ONE, 0, mode, draws);
        if n < 4 {
            assert_eq!(sample, mapped(0));
        } else {
            assert_eq!(sample, mapped([0, HALF, ONE, HALF][n % 4]));
        }
    }
}
