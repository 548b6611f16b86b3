use maeror_chorus::engine::{ChannelChorusEngine, SAMPLE_LIMIT};
use maeror_chorus::fixed::ONE;
use maeror_chorus::params::{ChorusError, ChorusParams, MAX_FEEDBACK};

const QUARTER: u64 = 250_000_000;

fn values(
    delay_ms: u32,
    feedback: u32,
    depth_ms: u32,
    rate_hz: u32,
    wet: u32,
    dry: u32,
) -> ChorusParams {
    ChorusParams::new(1_000, delay_ms, feedback, depth_ms, rate_hz, wet, dry).unwrap()
}

fn engine(p: ChorusParams) -> ChannelChorusEngine {
    ChannelChorusEngine::new(p, [0, 0, 0]).unwrap()
}

fn run(engine: &mut ChannelChorusEngine, input: &[i32]) -> Vec<i64> {
    input.iter().map(|&x| engine.process(x)).collect()
}

#[test]
fn new_engine_holds_one_second() {
    let p = values(15_000_000, 0, 5_000_000, 500_000, ONE, 0);
    let e = engine(p);
    assert_eq!(e.capacity(), 1_000);
    assert_eq!(e.params(), p);
}

#[test]
fn new_engine_refuses_invalid_values() {
    let p = ChorusParams {
        sample_rate: 0,
        delay_ms: 0,
        feedback: 0,
        depth_ms: 0,
        rate_hz: 0,
        wet: 0,
        dry: 0,
    };
    assert_eq!(ChannelChorusEngine::new(p, [0, 0, 0]).err(), Some(ChorusError::ZeroSampleRate));
    let p = ChorusParams { sample_rate: 1_000, wet: ONE + 1, ..p };
    assert_eq!(ChannelChorusEngine::new(p, [0, 0, 0]).err(), Some(ChorusError::WetOutOfRange));
}

#[test]
fn new_engine_refuses_a_tap_beyond_one_second() {
    // Base delay 900 samples, depth clamped to 450: the longest tap is 1125.
    let p = values(900_000_000, 0, 900_000_000, 0, ONE, 0);
    assert_eq!(p.max_tap_delay(), 1_125);
    assert_eq!(
        ChannelChorusEngine::new(p, [0, 0, 0]).err(),
        Some(ChorusError::DelayExceedsCapacity)
    );
    // Without modulation the longest tap is 900.
    let p = values(900_000_000, 0, 0, 0, ONE, 0);
    assert!(ChannelChorusEngine::new(p, [0, 0, 0]).is_ok());
    // One second itself is one sample too long.
    let p = values(1_000_000_000, 0, 0, 0, ONE, 0);
    assert_eq!(
        ChannelChorusEngine::new(p, [0, 0, 0]).err(),
        Some(ChorusError::DelayExceedsCapacity)
    );
}

#[test]
fn passthrough_returns_the_input() {
    let mut e = engine(values(15_000_000, 0, 5_000_000, 2_000_000, 0, ONE));
    let input = [0, 1, -1, 1_000, -1_000, 8_388_608, -8_388_608, i32::MAX, i32::MIN, 42];
    let output = run(&mut e, &input);
    let expected: Vec<i64> = input.iter().map(|&x| x as i64).collect();
    assert_eq!(output, expected);
}

#[test]
fn passthrough_holds_whatever_the_feedback() {
    let mut e = engine(values(15_000_000, MAX_FEEDBACK, 5_000_000, 2_000_000, 0, ONE));
    for n in 0..5_000i32 {
        let x = (n * 7_919) % 100_003 - 50_000;
        assert_eq!(e.process(x), x as i64);
    }
}

#[test]
fn static_delay_returns_the_input_delayed_by_the_base_delay() {
    // 5 ms at 1000 Hz: 5 samples.
    let mut e = engine(values(5_000_000, 0, 0, 3_000_000, ONE, 0));
    let input: Vec<i32> = (1..=40).map(|n| n * 13 - 200).collect();
    let output = run(&mut e, &input);
    for n in 0..5 {
        assert_eq!(output[n], 0);
    }
    for n in 5..40 {
        assert_eq!(output[n], input[n - 5] as i64);
    }
}

#[test]
fn static_delay_of_zero_samples_returns_the_input() {
    let mut e = engine(values(0, 0, 0, 3_000_000, ONE, 0));
    let input = [5, -7, i32::MAX, i32::MIN, 0];
    let output = run(&mut e, &input);
    assert_eq!(output, vec![5, -7, i32::MAX as i64, i32::MIN as i64, 0]);
}

#[test]
fn static_delay_does_not_depend_on_the_phases() {
    let p = values(5_000_000, 0, 0, 3_000_000, ONE, 0);
    let mut a = ChannelChorusEngine::new(p, [0, 0, 0]).unwrap();
    let mut b = ChannelChorusEngine::new(p, [QUARTER, 3 * QUARTER, 123_456_789]).unwrap();
    for n in 0..200 {
        assert_eq!(a.process(n * n), b.process(n * n));
    }
}

#[test]
fn headroom_divides_by_the_sum_of_the_levels() {
    // Base delay 2 samples, wet 0.8, dry 0.8.
    let mut e = engine(values(2_000_000, 0, 0, 0, 800_000, 800_000));
    let output = run(&mut e, &[1_000, 2_000, 3_000, -4_000]);
    // (0.8 * 0 + 0.8 * 1000) / 1.6
    assert_eq!(output[0], 500);
    assert_eq!(output[1], 1_000);
    // (0.8 * 1000 + 0.8 * 3000) / 1.6 = 3200 / 1.6
    assert_eq!(output[2], 2_000);
    // (0.8 * 2000 - 0.8 * 4000) / 1.6
    assert_eq!(output[3], -1_000);
}

#[test]
fn levels_that_add_up_to_one_or_less_are_not_scaled() {
    let mut e = engine(values(2_000_000, 0, 0, 0, 400_000, 400_000));
    let output = run(&mut e, &[1_000, 2_000, 3_000, -4_000]);
    assert_eq!(output, vec![400, 800, 1_600, -800]);
    let mut e = engine(values(2_000_000, 0, 0, 0, 250_000, 750_000));
    let output = run(&mut e, &[1_000, 2_000, 3_000]);
    assert_eq!(output, vec![750, 1_500, 2_500]);
}

#[test]
fn the_mix_is_rounded_toward_zero() {
    let mut e = engine(values(2_000_000, 0, 0, 0, 800_000, 800_000));
    // 0.8 * x / 1.6 = x / 2
    assert_eq!(e.process(1), 0);
    assert_eq!(e.process(-1), 0);
    let mut e = engine(values(5_000_000, 0, 0, 0, 800_000, 800_000));
    assert_eq!(e.process(3), 1);
    assert_eq!(e.process(-3), -1);
    assert_eq!(e.process(5), 2);
    assert_eq!(e.process(-5), -2);
}

#[test]
fn feedback_repeats_an_impulse_at_half_the_level() {
    // Base delay 2 samples; the output comes back three samples after it
    // left, so the echoes are five samples apart.
    let mut e = engine(values(2_000_000, 500_000, 0, 0, ONE, 0));
    let mut input = vec![0i32; 20];
    input[0] = 1_000;
    let output = run(&mut e, &input);
    let mut expected = vec![0i64; 20];
    expected[2] = 1_000;
    expected[7] = 500;
    expected[12] = 250;
    expected[17] = 125;
    assert_eq!(output, expected);
}

#[test]
fn feedback_is_scaled_by_the_wet_level() {
    // wet 0.5, feedback 0.5, dry 1.0, base delay 0: x = in + 0.25 * y[-1],
    // y = (0.5 * x + x) / 1.5 = x.
    let mut e = engine(values(0, 500_000, 0, 0, 500_000, ONE));
    let output = run(&mut e, &[1_600, 0, 0, 0]);
    assert_eq!(output, vec![1_600, 400, 100, 25]);
}

#[test]
fn feedback_is_rounded_toward_zero() {
    let mut e = engine(values(0, 500_000, 0, 0, ONE, 0));
    assert_eq!(run(&mut e, &[3, 0, 0]), vec![3, 1, 0]);
    let mut e = engine(values(0, 500_000, 0, 0, ONE, 0));
    assert_eq!(run(&mut e, &[-3, 0, 0]), vec![-3, -1, 0]);
}

#[test]
fn output_stays_bounded_under_the_strongest_feedback() {
    let mut e = engine(values(0, MAX_FEEDBACK, 0, 0, ONE, ONE));
    let mut last = 0;
    for _ in 0..50_000 {
        last = e.process(1_000);
        assert!(0 <= last && last <= 1_000_000);
    }
    assert!(last > 990_000);
    let mut e = engine(values(0, MAX_FEEDBACK, 0, 0, ONE, ONE));
    for _ in 0..50_000 {
        let y = e.process(-1_000);
        assert!(-1_000_000 <= y && y <= 0);
    }
}

#[test]
fn output_stays_below_the_sample_limit_for_the_loudest_input() {
    let mut e = engine(values(3_000_000, MAX_FEEDBACK, 1_000_000, 250_000_000, ONE, ONE));
    for n in 0..100_000 {
        let x = if n % 2_000 < 1_500 { i32::MIN } else { i32::MAX };
        let y = e.process(x);
        assert!(-SAMPLE_LIMIT <= y && y <= SAMPLE_LIMIT);
    }
}

#[test]
fn taps_follow_the_oscillators() {
    // Base delay 100 samples, depth 50 samples, oscillators standing still
    // at their peak, their trough and their zero: taps at 125, 75 and 100.
    let p = values(100_000_000, 0, 50_000_000, 0, ONE, 0);
    let mut e = ChannelChorusEngine::new(p, [QUARTER, 3 * QUARTER, 0]).unwrap();
    let input: Vec<i32> = (1..=300).collect();
    let output = run(&mut e, &input);
    for n in 0..75 {
        assert_eq!(output[n], 0);
    }
    // Only the shortest tap has reached the input: (n - 74) / 3.
    assert_eq!(output[75], 0);
    assert_eq!(output[77], 1);
    assert_eq!(output[99], 8);
    for n in 125..300 {
        assert_eq!(output[n], n as i64 - 99);
    }
}

#[test]
fn taps_move_as_the_oscillators_advance() {
    // A quarter of a cycle per sample: the oscillators go through 0, 1, 0,
    // -1, and the taps through 100, 125, 100, 75.
    let p = values(100_000_000, 0, 50_000_000, 250_000_000, ONE, 0);
    let mut e = engine(p);
    let input: Vec<i32> = (1..=300).collect();
    let output = run(&mut e, &input);
    assert_eq!(output[200], 101);
    assert_eq!(output[201], 77);
    assert_eq!(output[202], 103);
    assert_eq!(output[203], 129);
    assert_eq!(output[204], 105);
}

#[test]
fn set_params_takes_effect_at_the_next_sample_and_keeps_the_history() {
    let mut e = engine(values(2_000_000, 0, 0, 0, ONE, 0));
    assert_eq!(run(&mut e, &[10, 20, 30]), vec![0, 0, 10]);
    let p = values(1_000_000, 0, 0, 0, ONE, 0);
    assert!(e.accepts(&p));
    e.set_params(p);
    assert_eq!(e.params(), p);
    assert_eq!(run(&mut e, &[40, 50]), vec![30, 40]);
    let p = values(0, 0, 0, 0, 0, ONE);
    e.set_params(p);
    assert_eq!(run(&mut e, &[60]), vec![60]);
}

#[test]
fn accepts_looks_at_the_size_of_the_buffers() {
    let e = engine(values(0, 0, 0, 0, 0, 0));
    // 15 ms at 48000 Hz: 720 samples, which one thousand samples hold.
    let p = ChorusParams::new(48_000, 15_000_000, 0, 0, 0, ONE, 0).unwrap();
    assert!(e.accepts(&p));
    // 30 ms at 48000 Hz: 1440 samples.
    let p = ChorusParams::new(48_000, 30_000_000, 0, 0, 0, ONE, 0).unwrap();
    assert!(!e.accepts(&p));
    let p = ChorusParams { feedback: ONE, ..values(0, 0, 0, 0, 0, 0) };
    assert!(!e.accepts(&p));
}

#[test]
fn resize_reallocates_and_clears() {
    let mut e = engine(values(2_000_000, 0, 0, 0, ONE, 0));
    assert_eq!(run(&mut e, &[10, 20, 30]), vec![0, 0, 10]);
    assert_eq!(e.resize(2_000, [1, 2, 3]), Ok(()));
    assert_eq!(e.capacity(), 2_000);
    assert_eq!(e.params().sample_rate, 2_000);
    assert_eq!(e.params().delay_ms, 2_000_000);
    // 2 ms at 2000 Hz: 4 samples, and nothing left of the old history.
    assert_eq!(run(&mut e, &[1, 2, 3, 4, 5, 6]), vec![0, 0, 0, 0, 1, 2]);
}

#[test]
fn resize_is_refused_where_the_values_do_not_fit() {
    // 700 ms: 700 samples at 1000 Hz, but 1 sample at 1 Hz.
    let p = values(700_000_000, 0, 0, 0, ONE, 0);
    let mut e = engine(p);
    e.process(5);
    assert_eq!(e.resize(1, [0, 0, 0]), Err(ChorusError::DelayExceedsCapacity));
    assert_eq!(e.resize(0, [0, 0, 0]), Err(ChorusError::ZeroSampleRate));
    assert_eq!(e.capacity(), 1_000);
    assert_eq!(e.params(), p);
    let output = run(&mut e, &vec![0; 700]);
    assert_eq!(output[699], 5);
}

#[test]
fn reset_clears_the_history_and_keeps_the_values() {
    let p = values(2_000_000, 500_000, 0, 0, ONE, 0);
    let mut e = engine(p);
    assert_eq!(run(&mut e, &[1_000, 0, 0]), vec![0, 0, 1_000]);
    e.reset();
    assert_eq!(e.capacity(), 1_000);
    assert_eq!(e.params(), p);
    // Neither the delayed impulse nor its echo comes out any more.
    assert_eq!(run(&mut e, &[0; 12]), vec![0; 12]);
    assert_eq!(run(&mut e, &[8, 0, 0]), vec![0, 0, 8]);
}

#[test]
fn reset_keeps_the_phases_of_the_oscillators() {
    // A quarter of a cycle per sample, taps through 100, 125, 100, 75.
    let p = values(100_000_000, 0, 50_000_000, 250_000_000, ONE, 0);
    let mut e = engine(p);
    e.process(0);
    e.reset();
    let input: Vec<i32> = (1..=300).collect();
    let output = run(&mut e, &input);
    // One sample further in the cycle than an engine that starts afresh.
    assert_eq!(output[200], 76);
    assert_eq!(output[201], 102);
    assert_eq!(output[202], 128);
    assert_eq!(output[203], 104);
}

#[test]
fn new_engine_has_its_cursors_at_zero_and_its_oscillators_at_a_quarter_hertz() {
    let p = values(15_000_000, 0, 5_000_000, 2_000_000, ONE, 0);
    let e = ChannelChorusEngine::new(p, [QUARTER, 3 * QUARTER, 2_000_000_007]).unwrap();
    assert_eq!(e.write_cursors(), [0, 0, 0]);
    let phases = [QUARTER, 3 * QUARTER, 7];
    for k in 0..3 {
        let lfo = e.oscillator(k).unwrap();
        assert_eq!(lfo.rate(), 250_000);
        assert_eq!(lfo.sample_rate(), 1_000);
        assert_eq!(lfo.phase(), phases[k]);
    }
    assert!(e.oscillator(3).is_none());
}

#[test]
fn process_moves_the_cursors_on_and_hands_the_rate_to_the_oscillators() {
    let p = ChorusParams::new(3, 0, 0, 0, 2_000_000, ONE, 0).unwrap();
    let mut e = ChannelChorusEngine::new(p, [0, 0, 0]).unwrap();
    e.process(1);
    assert_eq!(e.write_cursors(), [1, 1, 1]);
    for k in 0..3 {
        let lfo = e.oscillator(k).unwrap();
        assert_eq!(lfo.rate(), 2_000_000);
        assert_eq!(lfo.phase(), 2_000_000);
    }
    e.process(2);
    assert_eq!(e.write_cursors(), [2, 2, 2]);
    e.process(3);
    assert_eq!(e.write_cursors(), [0, 0, 0]);
}

#[test]
fn set_params_leaves_the_cursors_and_the_oscillators_alone() {
    let mut e = engine(values(2_000_000, 0, 0, 3_000_000, ONE, 0));
    e.process(1);
    e.process(2);
    e.set_params(values(1_000_000, 0, 0, 7_000_000, ONE, 0));
    assert_eq!(e.write_cursors(), [2, 2, 2]);
    for k in 0..3 {
        let lfo = e.oscillator(k).unwrap();
        assert_eq!(lfo.rate(), 3_000_000);
        assert_eq!(lfo.phase(), 6_000_000);
    }
}

#[test]
fn reset_puts_the_cursors_back_to_zero() {
    let mut e = engine(values(2_000_000, 0, 0, 3_000_000, ONE, 0));
    e.process(1);
    e.reset();
    assert_eq!(e.write_cursors(), [0, 0, 0]);
    assert_eq!(e.oscillator(0).unwrap().phase(), 3_000_000);
}

#[test]
fn resize_depends_on_the_sample_rate_and_the_seeds_alone() {
    let mut a = engine(values(2_000_000, 0, 0, 3_000_000, ONE, 0));
    let mut b = ChannelChorusEngine::new(values(2_000_000, 0, 0, 9_000_000, ONE, 0), [5, 6, 7])
        .unwrap();
    for n in 0..10 {
        a.process(n);
        b.process(100 - n);
    }
    b.process(1);
    assert_eq!(a.resize(2_000, [11, 12, 2_000_000_013]), Ok(()));
    assert_eq!(b.resize(2_000, [11, 12, 2_000_000_013]), Ok(()));
    for e in [&a, &b] {
        assert_eq!(e.capacity(), 2_000);
        assert_eq!(e.write_cursors(), [0, 0, 0]);
        let phases = [11, 12, 13];
        for k in 0..3 {
            let lfo = e.oscillator(k).unwrap();
            assert_eq!(lfo.rate(), 250_000);
            assert_eq!(lfo.sample_rate(), 2_000);
            assert_eq!(lfo.phase(), phases[k]);
        }
    }
    // A second call with the same sample rate and seeds changes nothing.
    assert_eq!(a.resize(2_000, [11, 12, 2_000_000_013]), Ok(()));
    assert_eq!(a.write_cursors(), [0, 0, 0]);
    assert_eq!(a.oscillator(2).unwrap().phase(), 13);
    assert_eq!(run(&mut a, &[1, 2, 3, 4, 5]), vec![0, 0, 0, 0, 1]);
}

#[test]
fn a_refused_resize_leaves_the_cursors_where_they_are() {
    let mut e = engine(values(700_000_000, 0, 0, 0, ONE, 0));
    e.process(5);
    assert_eq!(e.resize(1, [0, 0, 0]), Err(ChorusError::DelayExceedsCapacity));
    assert_eq!(e.write_cursors(), [1, 1, 1]);
}
