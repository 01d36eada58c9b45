use lfo::delta::Delta;
use lfo::fixed::ONE;
use lfo::phasor::Phasor;

#[test]
fn phasor_advances_by_frequency_over_sample_rate() {
    let mut phasor = Phasor::new(4);
    assert_eq!(phasor.process(ONE), 0x4000_0000);
    assert_eq!(phasor.process(ONE), 0x8000_0000);
    assert_eq!(phasor.process(ONE), 0xc000_0000);
    assert_eq!(phasor.process(ONE), 0);
}

#[test]
fn phasor_increment_rounds_down() {
    let mut phasor = Phasor::new(48000);
    assert_eq!(phasor.process(ONE), 89478);
    assert_eq!(phasor.process(ONE), 2 * 89478);
    let mut third = Phasor::new(3);
    assert_eq!(third.process(ONE), 0x5555_5555);
    assert_eq!(third.process(ONE), 0xaaaa_aaaa);
    assert_eq!(third.process(ONE), 0xffff_ffff);
    assert_eq!(third.process(ONE), 0x5555_5554);
}

#[test]
fn phasor_is_non_decreasing_except_at_wraps() {
    let mut phasor = Phasor::new(1000);
    let freq = 37 * ONE;
    let increment = (freq / 1000) as u32;
    let mut previous: u32 = 0;
    let mut wraps = 0;
    for _ in 0..1000 {
        let phase = phasor.process(freq);
        if phase < previous {
            assert_eq!((previous - phase) as i64, ONE - increment as i64);
            wraps += 1;
        } else {
            assert_eq!(phase - previous, increment);
        }
        previous = phase;
    }
    assert_eq!(wraps, 36);
}

#[test]
fn phasor_holds_on_zero_and_negative_frequency() {
    let mut phasor = Phasor::new(10);
    assert_eq!(phasor.process(ONE), 429496729);
    assert_eq!(phasor.process(0), 429496729);
    assert_eq!(phasor.process(-5 * ONE), 429496729);
    assert_eq!(phasor.process(i64::MIN), 429496729);
}

#[test]
fn phasor_at_the_sample_rate_stands_still() {
    let mut phasor = Phasor::new(8);
    assert_eq!(phasor.process(ONE), 0x2000_0000);
    assert_eq!(phasor.process(8 * ONE), 0x2000_0000);
}

#[test]
fn phasor_above_the_sample_rate_wraps_modulo_one() {
    let mut phasor = Phasor::new(4);
    assert_eq!(phasor.process(5 * ONE), 0x4000_0000);
    assert_eq!(phasor.process(10 * ONE), 0xc000_0000);
    assert_eq!(phasor.process(i64::MAX), 0xbfff_ffff);
}

#[test]
fn phasor_follows_a_changing_frequency() {
    let mut phasor = Phasor::new(16);
    assert_eq!(phasor.process(ONE), 0x1000_0000);
    assert_eq!(phasor.process(4 * ONE), 0x5000_0000);
    assert_eq!(phasor.process(2 * ONE), 0x7000_0000);
    assert_eq!(phasor.process(12 * ONE), 0x3000_0000);
}

#[test]
fn delta_first_call_measures_from_zero() {
    let mut delta = Delta::new();
    assert_eq!(delta.process(0x4000_0000), 0x4000_0000);
}

#[test]
fn delta_is_the_difference_to_the_previous_phase() {
    let mut delta = Delta::new();
    assert_eq!(delta.process(100), 100);
    assert_eq!(delta.process(250), 150);
    assert_eq!(delta.process(250), 0);
    assert_eq!(delta.process(50), -200);
    assert_eq!(delta.process(0xffff_ffff), 0xffff_ffff - 50);
    assert_eq!(delta.process(0), -0xffff_ffff);
}

#[test]
fn delta_is_negative_exactly_where_the_phase_falls() {
    let mut phasor = Phasor::new(100);
    let mut delta = Delta::new();
    let freqs = [7 * ONE, 31 * ONE, 3 * ONE, 99 * ONE, 50 * ONE, ONE / 2, 64 * ONE];
    let mut previous: u32 = 0;
    let mut triggers = 0;
    for n in 0..700 {
        let phase = phasor.process(freqs[n % freqs.len()]);
        let trigger = delta.process(phase) < 0;
        assert_eq!(trigger, phase < previous);
        if trigger {
            triggers += 1;
        }
        previous = phase;
    }
    assert!(triggers > 100);
}
