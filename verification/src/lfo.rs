//! A low-frequency oscillator: a phase accumulator with a sinusoidal output.
//!
//! The phase is kept exactly. One cycle is divided into `sample_rate * ONE`
//! steps, and each advance moves the phase on by the rate, which is a
//! fixed-point number of hertz, so that no rounding error builds up.

use vstd::arithmetic::div_mod::{
    lemma_add_mod_noop, lemma_fundamental_div_mod, lemma_mod_add_multiples_vanish,
    lemma_mod_pos_bound, lemma_mod_twice, lemma_small_mod,
};
use vstd::prelude::*;

use crate::fixed::{round_div, ONE};
use crate::sine::{lemma_sinusoid_range, sinusoid, sinusoid_at};

verus! {

/// The rate of the oscillators of a new engine, a quarter of a hertz. It
/// lasts until the first sample is processed, which brings the rate of the
/// control values.
pub const INITIAL_RATE_HZ: u32 = 250_000;

/// The state of an oscillator as plain numbers.
pub struct LfoState {
    /// Samples per second.
    pub sample_rate: int,
    /// Cycles per second, in millionths of a hertz.
    pub rate: int,
    /// Position in the cycle, counted in steps of `1 / period()` of a cycle.
    pub phase: int,
}

impl LfoState {
    /// The number of phase steps in one cycle.
    pub open spec fn period(self) -> int {
        self.sample_rate * ONE
    }

    /// The sample rate is positive, both rates fit their machine type, and the
    /// phase lies inside one cycle.
    pub open spec fn valid(self) -> bool {
        &&& 0 < self.sample_rate <= u32::MAX
        &&& 0 <= self.rate <= u32::MAX
        &&& 0 <= self.phase < self.period()
    }

    /// The output at the current phase, between `-ONE` and `ONE`.
    pub open spec fn value(self) -> int {
        sinusoid(self.phase, self.period())
    }

    /// The same oscillator running at another rate; the phase is kept.
    pub open spec fn with_rate(self, rate: int) -> LfoState {
        LfoState { rate, ..self }
    }

    /// The oscillator one sample later: the phase has moved on by
    /// `rate / sample_rate` of a cycle and wrapped at the end of the cycle.
    pub open spec fn advanced(self) -> LfoState {
        LfoState { phase: (self.phase + self.rate) % self.period(), ..self }
    }

    /// The oscillator `n` samples later.
    pub open spec fn advanced_by(self, n: nat) -> LfoState
        decreases n,
    {
        if n == 0 {
            self
        } else {
            self.advanced_by((n - 1) as nat).advanced()
        }
    }
}

/// A cycle has a whole number of steps in each of its quarters, and no more
/// steps than fit the machine type of the phase.
pub proof fn lemma_period(sample_rate: int)
    requires
        0 <= sample_rate <= u32::MAX,
    ensures
        0 <= sample_rate * ONE <= 0xffff_ffff * 1_000_000,
        (sample_rate * ONE) % 4 == 0,
        sample_rate > 0 ==> sample_rate * ONE > 0,
{
    assert(sample_rate * ONE == 4 * (sample_rate * 250_000));
}

/// A valid oscillator stays valid when its rate changes and when it
/// advances.
pub proof fn lemma_advanced_valid(s: LfoState, rate: int)
    requires
        s.valid(),
        0 <= rate <= u32::MAX,
    ensures
        s.with_rate(rate).valid(),
        s.advanced().valid(),
        s.with_rate(rate).advanced().valid(),
        -ONE <= s.value() <= ONE,
        s.with_rate(rate).value() == s.value(),
{
    let p = s.period();
    lemma_period(s.sample_rate);
    lemma_mod_pos_bound(s.phase + s.rate, p);
    lemma_mod_pos_bound(s.phase + rate, p);
    lemma_sinusoid_range(s.phase, p);
}

/// Advancing changes neither the rate nor the sample rate.
pub proof fn lemma_advanced_by_keeps_rates(s: LfoState, n: nat)
    ensures
        s.advanced_by(n).rate == s.rate,
        s.advanced_by(n).sample_rate == s.sample_rate,
    decreases n,
{
    if n > 0 {
        lemma_advanced_by_keeps_rates(s, (n - 1) as nat);
    }
}

/// After `n` advances the phase is the start phase plus `n` times the rate,
/// wrapped; nothing else has changed.
pub proof fn lemma_advanced_by(s: LfoState, n: nat)
    requires
        s.valid(),
    ensures
        s.advanced_by(n).valid(),
        s.advanced_by(n).sample_rate == s.sample_rate,
        s.advanced_by(n).rate == s.rate,
        s.advanced_by(n).phase == (s.phase + n * s.rate) % s.period(),
    decreases n,
{
    let p = s.period();
    if n == 0 {
        lemma_small_mod(s.phase as nat, p as nat);
    } else {
        let m = (n - 1) as nat;
        lemma_advanced_by(s, m);
        let before = s.advanced_by(m);
        let a = s.phase + m * s.rate;
        assert(before.phase == a % p);
        assert(a + s.rate == s.phase + n * s.rate) by (nonlinear_arith)
            requires
                a == s.phase + m * s.rate,
                m == n - 1,
        {
        }
        lemma_add_mod_noop(a, s.rate, p);
        lemma_add_mod_noop(a % p, s.rate, p);
        lemma_mod_twice(a, p);
    }
}

/// An oscillator that runs at a positive rate comes back to where it
/// started, to within half an advance, after the number of samples nearest to
/// one period, `round(sample_rate / rate)`.
pub proof fn lemma_phase_returns_after_one_period(s: LfoState)
    requires
        s.valid(),
        s.rate > 0,
    ensures
        ({
            let n = round_div(s.period(), s.rate);
            let drift = n * s.rate - s.period();
            &&& n >= 0
            &&& -s.rate < 2 * drift <= s.rate
            &&& s.advanced_by(n as nat).phase == (s.phase + drift) % s.period()
            &&& s.advanced_by(n as nat).rate == s.rate
            &&& s.advanced_by(n as nat).sample_rate == s.sample_rate
        }),
{
    let p = s.period();
    let r = s.rate;
    let n = round_div(p, r);
    lemma_fundamental_div_mod(2 * p + r, 2 * r);
    let rem = (2 * p + r) % (2 * r);
    assert(0 <= rem < 2 * r);
    assert(2 * r * n == 2 * (n * r)) by (nonlinear_arith);
    assert(n >= 0) by (nonlinear_arith)
        requires
            2 * r * n + rem == 2 * p + r,
            0 <= rem < 2 * r,
            r > 0,
            p > 0,
    {
    }
    let drift = n * r - p;
    lemma_advanced_by(s, n as nat);
    lemma_mod_add_multiples_vanish(s.phase + drift, p);
}

/// The number of phase steps in one cycle at `sample_rate`.
fn steps_per_cycle(sample_rate: u32) -> (period: u64)
    ensures
        period == sample_rate * ONE,
        period <= 0xffff_ffff * 1_000_000,
        period % 4 == 0,
        sample_rate > 0 ==> period > 0,
{
    proof {
        lemma_period(sample_rate as int);
    }
    sample_rate as u64 * ONE as u64
}

/// A low-frequency oscillator.
pub struct Lfo {
    sample_rate: u32,
    rate: u32,
    phase: u64,
}

impl View for Lfo {
    type V = LfoState;

    closed spec fn view(&self) -> LfoState {
        LfoState {
            sample_rate: self.sample_rate as int,
            rate: self.rate as int,
            phase: self.phase as int,
        }
    }
}

impl Lfo {
    /// The invariant of the oscillator: its state is valid.
    pub closed spec fn wf(&self) -> bool {
        self@.valid()
    }

    /// What the invariant means for the state.
    pub proof fn lemma_wf(&self)
        requires
            self.wf(),
        ensures
            self@.valid(),
    {
    }

    /// An oscillator at the start of its cycle. There is none for a sample
    /// rate of 0. The rate is in millionths of a hertz.
    pub fn new(sample_rate: u32, rate: u32) -> (lfo: Option<Lfo>)
        ensures
            lfo.is_none() <==> sample_rate == 0,
            lfo matches Some(l) ==> l.wf() && l@ == (LfoState {
                sample_rate: sample_rate as int,
                rate: rate as int,
                phase: 0,
            }),
    {
        if sample_rate == 0 {
            return None;
        }
        Some(Lfo { sample_rate, rate, phase: 0 })
    }

    /// An oscillator that starts somewhere in its cycle: at the phase step
    /// `seed` modulo the period. With seeds drawn at random, oscillators made
    /// this way do not run in lockstep. There is none for a sample rate of 0.
    pub fn new_random_phase(sample_rate: u32, rate: u32, seed: u64) -> (lfo: Option<Lfo>)
        ensures
            lfo.is_none() <==> sample_rate == 0,
            lfo matches Some(l) ==> l.wf() && l@ == (LfoState {
                sample_rate: sample_rate as int,
                rate: rate as int,
                phase: (seed as int) % (sample_rate * ONE),
            }),
    {
        if sample_rate == 0 {
            return None;
        }
        Some(Lfo { sample_rate, rate, phase: seed % steps_per_cycle(sample_rate) })
    }

    /// The rate, in millionths of a hertz.
    pub fn rate(&self) -> (rate: u32)
        ensures
            rate == self@.rate,
    {
        self.rate
    }

    /// The sample rate, in hertz.
    pub fn sample_rate(&self) -> (sample_rate: u32)
        ensures
            sample_rate == self@.sample_rate,
    {
        self.sample_rate
    }

    /// The number of phase steps in one cycle, `sample_rate * ONE`.
    pub fn period(&self) -> (period: u64)
        ensures
            period == self@.period(),
            period <= 0xffff_ffff * 1_000_000,
            period % 4 == 0,
    {
        steps_per_cycle(self.sample_rate)
    }

    /// The position in the cycle, in steps of `1 / period()` of a cycle.
    pub fn phase(&self) -> (phase: u64)
        ensures
            phase == self@.phase,
    {
        self.phase
    }

    /// Changes the rate and leaves the phase where it is, so that the
    /// frequency glides instead of jumping.
    pub fn set_rate(&mut self, rate: u32)
        requires
            old(self).wf(),
        ensures
            final(self).wf(),
            final(self)@ == old(self)@.with_rate(rate as int),
    {
        self.rate = rate;
    }

    /// The output at the current phase. The state is left as it is.
    pub fn current_value(&self) -> (value: i32)
        requires
            self.wf(),
        ensures
            value == self@.value(),
            -ONE <= value <= ONE,
    {
        sinusoid_at(self.phase, self.period())
    }

    /// Moves the phase on by one sample, `rate / sample_rate` of a cycle, and
    /// wraps it at the end of the cycle.
    pub fn advance(&mut self)
        requires
            old(self).wf(),
        ensures
            final(self).wf(),
            final(self)@ == old(self)@.advanced(),
    {
        self.phase = (self.phase + self.rate as u64) % self.period();
    }
}

} // verus!
