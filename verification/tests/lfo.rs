use maeror_chorus::fixed::ONE;
use maeror_chorus::lfo::Lfo;
use maeror_chorus::sine::sinusoid_at;

#[test]
fn oscillator_needs_a_sample_rate() {
    assert!(Lfo::new(0, 500_000).is_none());
    assert!(Lfo::new_random_phase(0, 500_000, 17).is_none());
}

#[test]
fn new_oscillator_starts_at_phase_zero() {
    let lfo = Lfo::new(44_100, 250_000).unwrap();
    assert_eq!(lfo.phase(), 0);
    assert_eq!(lfo.period(), 44_100_000_000);
    assert_eq!(lfo.rate(), 250_000);
    assert_eq!(lfo.sample_rate(), 44_100);
    assert_eq!(lfo.current_value(), 0);
}

#[test]
fn seeded_oscillator_starts_at_the_seed_wrapped_into_one_cycle() {
    let lfo = Lfo::new_random_phase(100, 0, 25_000_000).unwrap();
    assert_eq!(lfo.phase(), 25_000_000);
    let lfo = Lfo::new_random_phase(100, 0, 100_000_000).unwrap();
    assert_eq!(lfo.phase(), 0);
    let lfo = Lfo::new_random_phase(100, 0, u64::MAX).unwrap();
    assert_eq!(lfo.phase(), u64::MAX % 100_000_000);
    assert!(lfo.phase() < lfo.period());
}

#[test]
fn sinusoid_at_the_quarter_points() {
    let period: u64 = 48_000 * 1_000_000;
    let at = |phase: u64| Lfo::new_random_phase(48_000, 0, phase).unwrap().current_value();
    assert_eq!(at(0), 0);
    assert_eq!(at(period / 4), ONE as i32);
    assert_eq!(at(period / 2), 0);
    assert_eq!(at(3 * period / 4), -(ONE as i32));
}

#[test]
fn sinusoid_at_a_twelfth_of_a_cycle_is_one_half() {
    let period: u64 = 48_000 * 1_000_000;
    let at = |phase: u64| Lfo::new_random_phase(48_000, 0, phase).unwrap().current_value();
    assert_eq!(at(period / 12), 500_000);
    assert_eq!(at(5 * period / 12), 500_000);
    assert_eq!(at(7 * period / 12), -500_000);
    assert_eq!(at(11 * period / 12), -500_000);
}

#[test]
fn sinusoid_value_is_rounded_to_the_nearest_millionth() {
    // One eighth of a cycle: the sine of 45 degrees, 0.70710678.
    let period: u64 = 1_000 * 1_000_000;
    let at = |phase: u64| Lfo::new_random_phase(1_000, 0, phase).unwrap().current_value();
    assert_eq!(at(period / 8), 707_107);
    assert_eq!(at(3 * period / 8), 707_107);
    assert_eq!(at(5 * period / 8), -707_107);
    assert_eq!(at(7 * period / 8), -707_107);
    // One twentieth of a cycle: the sine of 18 degrees, 0.30901699.
    assert_eq!(at(period / 20), 309_017);
    // One thousandth of a cycle: 0.00628314.
    assert_eq!(at(period / 1_000), 6_283);
}

#[test]
fn sinusoid_is_within_a_millionth_of_the_sine() {
    for sample_rate in [1u32, 7, 1_000, 44_100, 192_000, u32::MAX] {
        let period: u64 = sample_rate as u64 * 1_000_000;
        let steps: u64 = 20_011;
        for n in 0..steps {
            let phase = ((period as u128 * n as u128) / steps as u128) as u64;
            let lfo = Lfo::new_random_phase(sample_rate, 0, phase).unwrap();
            let value = lfo.current_value();
            assert!(-(ONE as i32) <= value && value <= ONE as i32);
            let exact = (2.0 * std::f64::consts::PI * phase as f64 / period as f64).sin();
            let got = value as f64 / ONE as f64;
            assert!(
                (got - exact).abs() < 0.000_000_6,
                "phase {} of {}: {} against {}",
                phase,
                period,
                got,
                exact
            );
        }
    }
}

#[test]
fn sinusoid_is_odd_and_mirrored() {
    let period: u64 = 44_100 * 1_000_000;
    let at = |phase: u64| Lfo::new_random_phase(44_100, 0, phase).unwrap().current_value();
    for n in 1..500u64 {
        let a = n * 22_050_001 % (period / 4);
        assert_eq!(at(period / 2 - a), at(a));
        assert_eq!(at(period / 2 + a), -at(a));
        assert_eq!(at(period - a), -at(a));
    }
}

#[test]
fn sinusoid_works_at_the_largest_sample_rate() {
    let period: u64 = u32::MAX as u64 * 1_000_000;
    let at = |phase: u64| Lfo::new_random_phase(u32::MAX, 0, phase).unwrap().current_value();
    assert_eq!(at(0), 0);
    assert_eq!(at(period - 1), 0);
    let peak = at(period / 4);
    assert!(ONE as i32 - 1 <= peak && peak <= ONE as i32);
}

#[test]
fn current_value_leaves_the_phase_alone() {
    let lfo = Lfo::new_random_phase(100, 3_000_000, 12_345_678).unwrap();
    let first = lfo.current_value();
    assert_eq!(lfo.current_value(), first);
    assert_eq!(lfo.phase(), 12_345_678);
}

#[test]
fn advance_adds_the_rate_and_wraps() {
    let mut lfo = Lfo::new(100, 7_000_000).unwrap();
    lfo.advance();
    assert_eq!(lfo.phase(), 7_000_000);
    for _ in 0..13 {
        lfo.advance();
    }
    assert_eq!(lfo.phase(), 98_000_000);
    lfo.advance();
    assert_eq!(lfo.phase(), 5_000_000);
}

#[test]
fn advance_with_a_rate_above_the_sample_rate_still_wraps() {
    let mut lfo = Lfo::new(2, u32::MAX).unwrap();
    lfo.advance();
    assert_eq!(lfo.phase(), u32::MAX as u64 % 2_000_000);
    assert!(lfo.phase() < lfo.period());
}

#[test]
fn set_rate_keeps_the_phase() {
    let mut lfo = Lfo::new(100, 7_000_000).unwrap();
    lfo.advance();
    lfo.set_rate(1_000_000);
    assert_eq!(lfo.rate(), 1_000_000);
    assert_eq!(lfo.phase(), 7_000_000);
    lfo.advance();
    assert_eq!(lfo.phase(), 8_000_000);
}

#[test]
fn phase_returns_after_one_period_when_the_rate_divides_the_sample_rate() {
    // 48000 Hz, 0.5 Hz: one period is 96000 samples.
    let mut lfo = Lfo::new_random_phase(48_000, 500_000, 123_456_789).unwrap();
    let start = lfo.phase();
    for _ in 0..96_000 {
        lfo.advance();
    }
    assert_eq!(lfo.phase(), start);
}

#[test]
fn phase_returns_to_within_half_an_advance_after_the_nearest_number_of_samples() {
    // 100 Hz, 7 Hz: 100 / 7 = 14.29, so 14 advances; 14 * 7 = 98, which is
    // 2 steps of one hundredth of a cycle short of one cycle.
    let mut lfo = Lfo::new_random_phase(100, 7_000_000, 5_000_000).unwrap();
    for _ in 0..14 {
        lfo.advance();
    }
    assert_eq!(lfo.phase(), 3_000_000);
    // 100 Hz, 8 Hz: 12.5 rounds to 13; 13 * 8 = 104, 4 steps beyond.
    let mut lfo = Lfo::new_random_phase(100, 8_000_000, 5_000_000).unwrap();
    for _ in 0..13 {
        lfo.advance();
    }
    assert_eq!(lfo.phase(), 9_000_000);
}

#[test]
fn sinusoid_of_a_cycle_of_four_steps() {
    assert_eq!(sinusoid_at(0, 4), 0);
    assert_eq!(sinusoid_at(1, 4), 1_000_000);
    assert_eq!(sinusoid_at(2, 4), 0);
    assert_eq!(sinusoid_at(3, 4), -1_000_000);
    // Eight steps: the sine of 45 degrees in between.
    assert_eq!(sinusoid_at(1, 8), 707_107);
    assert_eq!(sinusoid_at(3, 8), 707_107);
    assert_eq!(sinusoid_at(5, 8), -707_107);
}
