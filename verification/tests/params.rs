use maeror_chorus::fixed::ONE;
use maeror_chorus::params::{ChorusError, ChorusParams, MAX_FEEDBACK, SAMPLE_ONE};

fn values(sample_rate: u32, delay_ms: u32, depth_ms: u32) -> ChorusParams {
    ChorusParams::new(sample_rate, delay_ms, 0, depth_ms, 500_000, ONE, 0).unwrap()
}

#[test]
fn valid_values_are_taken_as_they_are() {
    let p = ChorusParams::new(44_100, 15_000_000, 250_000, 5_000_000, 500_000, 300_000, 700_000)
        .unwrap();
    assert_eq!(
        p,
        ChorusParams {
            sample_rate: 44_100,
            delay_ms: 15_000_000,
            feedback: 250_000,
            depth_ms: 5_000_000,
            rate_hz: 500_000,
            wet: 300_000,
            dry: 700_000,
        }
    );
    assert_eq!(p.validate(), Ok(()));
}

#[test]
fn all_zero_control_values_are_valid() {
    assert!(ChorusParams::new(44_100, 0, 0, 0, 0, 0, 0).is_ok());
}

#[test]
fn limits_of_the_ranges_are_valid() {
    assert!(ChorusParams::new(1, u32::MAX, MAX_FEEDBACK, u32::MAX, u32::MAX, ONE, ONE).is_ok());
}

#[test]
fn zero_sample_rate_is_refused() {
    assert_eq!(ChorusParams::new(0, 0, 0, 0, 0, 0, 0), Err(ChorusError::ZeroSampleRate));
}

#[test]
fn feedback_above_the_limit_is_refused() {
    assert_eq!(
        ChorusParams::new(44_100, 0, MAX_FEEDBACK + 1, 0, 0, 0, 0),
        Err(ChorusError::FeedbackOutOfRange)
    );
    assert_eq!(
        ChorusParams::new(44_100, 0, ONE, 0, 0, 0, 0),
        Err(ChorusError::FeedbackOutOfRange)
    );
}

#[test]
fn wet_above_one_is_refused() {
    assert_eq!(ChorusParams::new(44_100, 0, 0, 0, 0, ONE + 1, 0), Err(ChorusError::WetOutOfRange));
}

#[test]
fn dry_above_one_is_refused() {
    assert_eq!(ChorusParams::new(44_100, 0, 0, 0, 0, 0, ONE + 1), Err(ChorusError::DryOutOfRange));
}

#[test]
fn the_first_broken_rule_is_reported() {
    assert_eq!(
        ChorusParams::new(0, 0, ONE, 0, 0, ONE + 1, ONE + 1),
        Err(ChorusError::ZeroSampleRate)
    );
    assert_eq!(
        ChorusParams::new(1, 0, ONE, 0, 0, ONE + 1, ONE + 1),
        Err(ChorusError::FeedbackOutOfRange)
    );
    assert_eq!(
        ChorusParams::new(1, 0, 0, 0, 0, ONE + 1, ONE + 1),
        Err(ChorusError::WetOutOfRange)
    );
}

#[test]
fn validate_reports_what_new_reports() {
    let p = ChorusParams {
        sample_rate: 48_000,
        delay_ms: 0,
        feedback: 0,
        depth_ms: 0,
        rate_hz: 0,
        wet: 0,
        dry: 2 * ONE,
    };
    assert_eq!(p.validate(), Err(ChorusError::DryOutOfRange));
}

#[test]
fn delay_samples_rounds_to_the_nearest_sample() {
    // 15 ms at 44100 Hz is 661.5 samples.
    assert_eq!(values(44_100, 15_000_000, 0).delay_samples(), 662);
    // 0.1 ms at 48000 Hz is 4.8 samples.
    assert_eq!(values(48_000, 100_000, 0).delay_samples(), 5);
    // 0.03 ms at 48000 Hz is 1.44 samples.
    assert_eq!(values(48_000, 30_000, 0).delay_samples(), 1);
    assert_eq!(values(48_000, 50_000_000, 0).delay_samples(), 2_400);
    assert_eq!(values(44_100, 0, 0).delay_samples(), 0);
}

#[test]
fn delay_samples_rounds_halves_upward() {
    assert_eq!(values(1, 499_999_999, 0).delay_samples(), 0);
    assert_eq!(values(1, 500_000_000, 0).delay_samples(), 1);
    assert_eq!(values(1_000, 2_500_000, 0).delay_samples(), 3);
}

#[test]
fn delay_samples_at_the_largest_values() {
    assert_eq!(values(u32::MAX, u32::MAX, 0).delay_samples(), 18_446_744_065);
}

#[test]
fn depth_below_half_the_delay_is_kept() {
    // 5 ms at 44100 Hz is 220.5 samples; half the delay is 331 samples.
    assert_eq!(values(44_100, 15_000_000, 5_000_000).calculated_depth(), 220_500_000_000);
    assert_eq!(values(44_100, 15_000_000, 0).calculated_depth(), 0);
}

#[test]
fn depth_is_clamped_to_half_the_delay() {
    let p = values(44_100, 15_000_000, 25_000_000);
    assert_eq!(p.calculated_depth(), 331_000_000_000);
    assert_eq!(2 * p.calculated_depth(), p.delay_samples() * SAMPLE_ONE);
    // An odd base delay: half of 3 samples is 1.5 samples.
    assert_eq!(values(1_000, 3_000_000, 25_000_000).calculated_depth(), 1_500_000_000);
}

#[test]
fn depth_never_exceeds_half_the_delay() {
    for sample_rate in [1u32, 7, 1_000, 44_100, 192_000, u32::MAX] {
        for delay_ms in [0u32, 1, 99_999, 15_000_000, 50_000_000, u32::MAX] {
            for depth_ms in [0u32, 1, 5_000_000, 25_000_000, u32::MAX] {
                let p = values(sample_rate, delay_ms, depth_ms);
                let depth = p.calculated_depth() as u128;
                assert!(2 * depth <= p.delay_samples() as u128 * SAMPLE_ONE as u128);
            }
        }
    }
}

#[test]
fn tap_offset_is_the_value_times_half_the_depth() {
    // Depth 220.5 samples: a full swing moves the tap by 110.25 samples.
    let p = values(44_100, 15_000_000, 5_000_000);
    assert_eq!(p.tap_offset(ONE as i32), 110);
    assert_eq!(p.tap_offset(-(ONE as i32)), -110);
    assert_eq!(p.tap_offset(500_000), 55);
    assert_eq!(p.tap_offset(-500_000), -55);
    assert_eq!(p.tap_offset(0), 0);
}

#[test]
fn tap_offset_rounds_halves_away_from_zero() {
    // Depth 1 sample: a full swing is half a sample.
    let p = values(1_000, 2_000_000, 1_000_000);
    assert_eq!(p.calculated_depth(), SAMPLE_ONE);
    assert_eq!(p.tap_offset(ONE as i32), 1);
    assert_eq!(p.tap_offset(-(ONE as i32)), -1);
    assert_eq!(p.tap_offset(999_999), 0);
    assert_eq!(p.tap_offset(-999_999), 0);
}

#[test]
fn tap_offset_without_depth_is_zero() {
    let p = values(44_100, 15_000_000, 0);
    assert_eq!(p.tap_offset(ONE as i32), 0);
    assert_eq!(p.tap_offset(i32::MIN), 0);
    assert_eq!(p.tap_offset(i32::MAX), 0);
}

#[test]
fn longest_tap_is_the_delay_plus_the_largest_offset() {
    let p = values(44_100, 15_000_000, 5_000_000);
    assert_eq!(p.max_tap_delay(), 772);
    assert!(!p.fits(772));
    assert!(p.fits(773));
    assert!(p.fits(44_100));
    assert!(!p.fits(0));
}

#[test]
fn a_delay_under_half_a_second_fits_one_second_at_any_sample_rate() {
    for sample_rate in [1u32, 2, 3, 4, 5, 7, 10, 1_000, 44_100, 192_000, u32::MAX] {
        for delay_ms in [0u32, 100_000, 15_000_000, 50_000_000, 499_999_999] {
            for depth_ms in [0u32, 25_000_000, u32::MAX] {
                let p = values(sample_rate, delay_ms, depth_ms);
                assert!(p.delay_samples() <= sample_rate as u64 - 1);
                assert!(p.fits(sample_rate as usize));
            }
        }
    }
}

#[test]
fn a_delay_of_half_a_second_does_not_fit_at_one_hertz() {
    let p = values(1, 500_000_000, 0);
    assert_eq!(p.delay_samples(), 1);
    assert!(!p.fits(1));
}
