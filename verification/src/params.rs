//! The control values of the chorus and the lengths, in samples, that follow
//! from them.
//!
//! Times are given in milliseconds, the rate in hertz, the gains as plain
//! ratios; all six are fixed-point numbers in which `ONE` stands for 1.0.

use vstd::prelude::*;

use crate::fixed::{
    lemma_product_bound, lemma_round_div_is_ordered, lemma_round_div_signed_magnitude,
    lemma_round_div_zero, magnitude, round_div, round_div_signed, ONE,
};

verus! {

/// The largest feedback gain, 0.999: anything from 1.0 on would let the
/// feedback path grow without bound.
pub const MAX_FEEDBACK: u32 = 999_000;

/// The largest factor by which feedback can raise the peak of the signal:
/// `ONE / (ONE - MAX_FEEDBACK)`.
pub const MAX_GAIN: i64 = 1000;

/// The unit of the modulation depth: a depth of `SAMPLE_ONE` stands for one
/// sample.
pub const SAMPLE_ONE: u64 = 1_000_000_000;

/// Why a set of control values is refused.
#[derive(Clone, Copy, Debug, PartialEq, Eq, Structural)]
pub enum ChorusError {
    /// The sample rate is 0.
    ZeroSampleRate,
    /// The feedback gain is above `MAX_FEEDBACK`.
    FeedbackOutOfRange,
    /// The wet level is above `ONE`.
    WetOutOfRange,
    /// The dry level is above `ONE`.
    DryOutOfRange,
    /// The longest tap that the values ask for does not fit into the buffers.
    DelayExceedsCapacity,
}

/// One snapshot of the control values.
#[derive(Clone, Copy, Debug, PartialEq, Eq, Structural)]
pub struct ChorusParams {
    /// Samples per second.
    pub sample_rate: u32,
    /// The base delay, in millionths of a millisecond.
    pub delay_ms: u32,
    /// The feedback gain, in millionths.
    pub feedback: u32,
    /// The modulation depth, in millionths of a millisecond.
    pub depth_ms: u32,
    /// The rate of the oscillators, in millionths of a hertz.
    pub rate_hz: u32,
    /// The level of the delayed signal, in millionths.
    pub wet: u32,
    /// The level of the direct signal, in millionths.
    pub dry: u32,
}

impl ChorusParams {
    /// The first rule that the values break, if any. The size of the buffers
    /// is not looked at here.
    pub open spec fn violation(self) -> Option<ChorusError> {
        if self.sample_rate == 0 {
            Some(ChorusError::ZeroSampleRate)
        } else if self.feedback > MAX_FEEDBACK {
            Some(ChorusError::FeedbackOutOfRange)
        } else if self.wet > ONE {
            Some(ChorusError::WetOutOfRange)
        } else if self.dry > ONE {
            Some(ChorusError::DryOutOfRange)
        } else {
            None
        }
    }

    /// The sample rate is positive, the feedback gain at most `MAX_FEEDBACK`,
    /// and the wet and dry levels at most `ONE`.
    pub open spec fn valid(self) -> bool {
        &&& self.sample_rate > 0
        &&& self.feedback <= MAX_FEEDBACK
        &&& self.wet <= ONE
        &&& self.dry <= ONE
    }
}

/// The base delay in samples: `delay_ms / 1000 * sample_rate`, rounded to the
/// nearest sample.
pub open spec fn delay_samples(p: ChorusParams) -> int {
    round_div(p.delay_ms * p.sample_rate, SAMPLE_ONE as int)
}

/// The modulation depth in billionths of a sample:
/// `depth_ms / 1000 * sample_rate`, but no more than half the base delay.
pub open spec fn calculated_depth(p: ChorusParams) -> int {
    let asked = p.depth_ms * p.sample_rate;
    let limit = delay_samples(p) * (SAMPLE_ONE / 2);
    if asked <= limit {
        asked
    } else {
        limit
    }
}

/// How far an oscillator at `value` moves a tap away from the base delay, in
/// samples: `value * depth / 2`, rounded to the nearest sample, halves away
/// from zero. `value` is in millionths, `depth` in billionths of a sample.
pub open spec fn tap_offset(value: int, depth: int) -> int {
    round_div_signed(value * depth, 2 * ONE * SAMPLE_ONE)
}

/// The largest distance of a tap from the base delay, reached where an
/// oscillator is at its peak.
pub open spec fn max_offset(p: ChorusParams) -> int {
    tap_offset(ONE as int, calculated_depth(p))
}

/// The longest delay that any tap can have.
pub open spec fn max_tap_delay(p: ChorusParams) -> int {
    delay_samples(p) + max_offset(p)
}

/// Every tap stays inside a buffer of `capacity` samples.
pub open spec fn fits(p: ChorusParams, capacity: int) -> bool {
    max_tap_delay(p) < capacity
}

/// The clamped depth is never more than half the base delay.
pub proof fn lemma_depth_at_most_half_delay(p: ChorusParams)
    ensures
        0 <= calculated_depth(p),
        2 * calculated_depth(p) <= delay_samples(p) * SAMPLE_ONE,
{
    lemma_delay_samples_bounds(p);
    assert(SAMPLE_ONE / 2 == 500_000_000);
    assert(delay_samples(p) * (SAMPLE_ONE / 2) == delay_samples(p) * 500_000_000);
}

/// The base delay and the depth, in samples, fit a machine word.
pub proof fn lemma_delay_samples_bounds(p: ChorusParams)
    ensures
        0 <= p.delay_ms * p.sample_rate <= 0xffff_ffff * 0xffff_ffff,
        0 <= p.depth_ms * p.sample_rate <= 0xffff_ffff * 0xffff_ffff,
        0 <= delay_samples(p) <= 18_446_744_065,
        0 <= delay_samples(p) * (SAMPLE_ONE / 2) <= 18_446_744_065 * 500_000_000,
{
    lemma_product_bound(p.delay_ms as int, p.sample_rate as int, 0xffff_ffff, 0xffff_ffff);
    lemma_product_bound(p.depth_ms as int, p.sample_rate as int, 0xffff_ffff, 0xffff_ffff);
    assert(0xffff_ffff * 0xffff_ffff == 18_446_744_065_119_617_025);
    assert(SAMPLE_ONE == 1_000_000_000);
    assert(0 <= delay_samples(p) <= 18_446_744_065);
    lemma_product_bound(delay_samples(p), (SAMPLE_ONE / 2) as int, 18_446_744_065, 500_000_000);
}

/// An oscillator value between `-ONE` and `ONE` moves a tap by no more than
/// `max_offset`, and `max_offset` is no more than a quarter of the base
/// delay, rounded: no tap reaches before the newest sample.
pub proof fn lemma_tap_offset_bounds(p: ChorusParams, value: int)
    requires
        -ONE <= value <= ONE,
    ensures
        magnitude(tap_offset(value, calculated_depth(p))) <= max_offset(p),
        0 <= max_offset(p) <= (delay_samples(p) + 2) / 4,
        max_offset(p) <= delay_samples(p),
        0 <= delay_samples(p) + tap_offset(value, calculated_depth(p)) <= max_tap_delay(p),
{
    lemma_depth_at_most_half_delay(p);
    lemma_delay_samples_bounds(p);
    let depth = calculated_depth(p);
    let base = delay_samples(p);
    let d = 2 * ONE * SAMPLE_ONE;
    assert(d == 2_000_000_000_000_000);
    let m = magnitude(value);
    assert(magnitude(value * depth) == m * depth && 0 <= m * depth <= ONE * depth)
        by (nonlinear_arith)
        requires
            m == magnitude(value),
            0 <= m <= ONE,
            0 <= depth,
    {
    }
    lemma_round_div_signed_magnitude(value * depth, d);
    lemma_round_div_signed_magnitude(ONE * depth, d);
    lemma_round_div_is_ordered(m * depth, ONE * depth, d);
    assert(max_offset(p) == round_div(ONE * depth, d));
    assert(ONE * depth <= base * 500_000_000_000_000);
    lemma_round_div_is_ordered(ONE * depth, base * 500_000_000_000_000, d);
    assert(round_div(base * 500_000_000_000_000, d) == (base * 1_000_000_000_000_000
        + 2_000_000_000_000_000) / 4_000_000_000_000_000);
    assert((base * 1_000_000_000_000_000 + 2_000_000_000_000_000) / 4_000_000_000_000_000 == (base
        + 2) / 4);
}

/// Without depth no oscillator moves a tap.
pub proof fn lemma_tap_offset_without_depth(value: int)
    ensures
        tap_offset(value, 0) == 0,
{
    let d = 2 * ONE * SAMPLE_ONE;
    assert(d == 2_000_000_000_000_000);
    assert(value * 0 == 0);
    lemma_round_div_zero(d);
}

/// Whatever the sample rate, a base delay under half a second stays inside
/// one second of audio, and so does every tap around it.
pub proof fn lemma_delay_fits_one_second(p: ChorusParams)
    requires
        p.sample_rate > 0,
        p.delay_ms < 500 * ONE,
    ensures
        0 <= delay_samples(p) <= p.sample_rate - 1,
        fits(p, p.sample_rate as int),
{
    let n = p.delay_ms * p.sample_rate;
    assert(0 <= n <= 499_999_999 * p.sample_rate) by (nonlinear_arith)
        requires
            n == p.delay_ms * p.sample_rate,
            0 <= p.delay_ms <= 499_999_999,
            p.sample_rate > 0,
    {
    }
    assert(SAMPLE_ONE == 1_000_000_000);
    assert(delay_samples(p) == (2 * n + 1_000_000_000) / 2_000_000_000);
    lemma_tap_offset_bounds(p, ONE as int);
}

impl ChorusParams {
    /// Checks the values against the rules of `valid` and reports the first
    /// one that is broken.
    pub fn validate(&self) -> (checked: Result<(), ChorusError>)
        ensures
            checked.is_ok() <==> self.valid(),
            checked matches Err(e) ==> self.violation() == Some(e),
    {
        if self.sample_rate == 0 {
            Err(ChorusError::ZeroSampleRate)
        } else if self.feedback > MAX_FEEDBACK {
            Err(ChorusError::FeedbackOutOfRange)
        } else if self.wet > ONE {
            Err(ChorusError::WetOutOfRange)
        } else if self.dry > ONE {
            Err(ChorusError::DryOutOfRange)
        } else {
            Ok(())
        }
    }

    /// A snapshot of the seven values, if they are valid; else the first rule
    /// that they break.
    pub fn new(
        sample_rate: u32,
        delay_ms: u32,
        feedback: u32,
        depth_ms: u32,
        rate_hz: u32,
        wet: u32,
        dry: u32,
    ) -> (made: Result<ChorusParams, ChorusError>)
        ensures
            ({
                let p = ChorusParams {
                    sample_rate,
                    delay_ms,
                    feedback,
                    depth_ms,
                    rate_hz,
                    wet,
                    dry,
                };
                &&& made.is_ok() <==> p.valid()
                &&& made matches Ok(q) ==> q == p
                &&& made matches Err(e) ==> p.violation() == Some(e)
            }),
    {
        let p = ChorusParams { sample_rate, delay_ms, feedback, depth_ms, rate_hz, wet, dry };
        match p.validate() {
            Ok(()) => Ok(p),
            Err(e) => Err(e),
        }
    }

    /// The base delay in samples.
    pub fn delay_samples(&self) -> (n: u64)
        ensures
            n == delay_samples(*self),
    {
        proof {
            lemma_delay_samples_bounds(*self);
        }
        let product: u64 = self.delay_ms as u64 * self.sample_rate as u64;
        let unit: u128 = SAMPLE_ONE as u128;
        let rounded: u128 = (2 * (product as u128) + unit) / (2 * unit);
        rounded as u64
    }

    /// The modulation depth in billionths of a sample, clamped to half the
    /// base delay.
    pub fn calculated_depth(&self) -> (depth: u64)
        ensures
            depth == calculated_depth(*self),
            2 * depth <= delay_samples(*self) * SAMPLE_ONE,
    {
        proof {
            lemma_delay_samples_bounds(*self);
            lemma_depth_at_most_half_delay(*self);
        }
        let asked: u64 = self.depth_ms as u64 * self.sample_rate as u64;
        let limit: u64 = self.delay_samples() * (SAMPLE_ONE / 2);
        if asked <= limit {
            asked
        } else {
            limit
        }
    }

    /// How far an oscillator at `value` moves a tap away from the base delay,
    /// in samples.
    pub fn tap_offset(&self, value: i32) -> (offset: i64)
        ensures
            offset == tap_offset(value as int, calculated_depth(*self)),
    {
        let depth = self.calculated_depth();
        proof {
            lemma_delay_samples_bounds(*self);
        }
        let negative = value < 0;
        let m: u128 = if negative {
            -(value as i64) as u128
        } else {
            value as u128
        };
        let ghost product: int = value * depth;
        assert(m == magnitude(value as int));
        assert(0 <= m * depth <= 0x8000_0000 * 0xffff_ffff_ffff_ffff) by (nonlinear_arith)
            requires
                0 <= m <= 0x8000_0000,
                0 <= depth <= 0xffff_ffff_ffff_ffff,
        {
        }
        assert(magnitude(product) == m * depth && (product < 0 ==> negative) && (negative
            ==> product <= 0)) by (nonlinear_arith)
            requires
                product == value * depth,
                m == magnitude(value as int),
                negative == (value < 0),
                0 <= depth,
        {
        }
        let n: u128 = m * (depth as u128);
        let d: u128 = 2 * (ONE as u128) * (SAMPLE_ONE as u128);
        assert(d == 2_000_000_000_000_000 && d == 2 * ONE * SAMPLE_ONE);
        let rounded: u128 = (2 * n + d) / (2 * d);
        assert(rounded == round_div(magnitude(product), 2 * ONE * SAMPLE_ONE));
        assert(rounded <= 0x8000_0000 * 0xffff_ffff_ffff_ffff);
        let rounded: i64 = rounded as i64;
        if negative {
            -rounded
        } else {
            rounded
        }
    }

    /// The longest delay that any tap can have, in samples.
    pub fn max_tap_delay(&self) -> (n: u64)
        ensures
            n == max_tap_delay(*self),
    {
        proof {
            lemma_tap_offset_bounds(*self, ONE as int);
            lemma_delay_samples_bounds(*self);
        }
        let offset = self.tap_offset(ONE as i32);
        self.delay_samples() + offset as u64
    }

    /// Whether every tap stays inside a buffer of `capacity` samples.
    pub fn fits(&self, capacity: usize) -> (inside: bool)
        ensures
            inside == fits(*self, capacity as int),
    {
        self.max_tap_delay() < capacity as u64
    }
}

} // verus!
