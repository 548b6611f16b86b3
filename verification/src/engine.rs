//! The chorus of one channel: three modulated taps on three delay lines,
//! feedback from the output, and the mix of the delayed with the direct
//! signal.

use vstd::prelude::*;

use crate::delay_line::DelayLine;
use crate::feedback::FeedbackBuffer;
use crate::fixed::{lemma_product_bound, magnitude, ONE};
use crate::lfo::{Lfo, INITIAL_RATE_HZ};
use crate::model::{
    feedback_input, initial_state, lemma_step_valid, mix, moved_on, step, ChorusState, TAPS,
};
use crate::params::{
    fits, lemma_delay_samples_bounds, lemma_tap_offset_bounds, ChorusError, ChorusParams,
};
use crate::theorems::{
    lemma_feedback_gain, lemma_feedback_input_bound, lemma_mix_bound, lemma_step_bounded,
};

verus! {

/// The largest magnitude that a sample inside the engine can reach: that of
/// the largest input, 2^31, times `MAX_GAIN`.
pub const SAMPLE_LIMIT: i64 = 2_147_483_648_000;

/// The control values `p` at another sample rate.
pub open spec fn at_sample_rate(p: ChorusParams, sample_rate: u32) -> ChorusParams {
    ChorusParams { sample_rate, ..p }
}

/// Why `params` cannot be used with buffers of `capacity` samples, if they
/// cannot: the first rule that the values break, or that a tap would not fit.
pub open spec fn refusal(params: ChorusParams, capacity: int) -> Option<ChorusError> {
    if params.violation().is_some() {
        params.violation()
    } else if !fits(params, capacity) {
        Some(ChorusError::DelayExceedsCapacity)
    } else {
        None
    }
}

/// The input of the delay lines for one input sample and the fed-back
/// output.
fn feed(p: &ChorusParams, input: i32, fed_back: i64) -> (x: i64)
    requires
        p.valid(),
        magnitude(fed_back as int) <= SAMPLE_LIMIT,
    ensures
        x == feedback_input(*p, input as int, fed_back as int),
        magnitude(x as int) <= SAMPLE_LIMIT,
{
    proof {
        lemma_feedback_gain(*p);
        lemma_feedback_input_bound(*p, input as int, fed_back as int, SAMPLE_LIMIT as int);
        lemma_product_bound(
            p.wet * p.feedback,
            fed_back as int,
            999_000_000_000,
            SAMPLE_LIMIT as int,
        );
    }
    let gain: i128 = (p.wet as i128) * (p.feedback as i128);
    let unit: i128 = (ONE as i128) * (ONE as i128);
    let scaled: i128 = (gain * (fed_back as i128)) / unit;
    (input as i128 + scaled) as i64
}

/// The output sample for the sum of the taps and the input of the delay
/// lines.
fn blend(p: &ChorusParams, tap_sum: i64, x: i64) -> (y: i64)
    requires
        magnitude(tap_sum as int) <= TAPS * SAMPLE_LIMIT,
        magnitude(x as int) <= SAMPLE_LIMIT,
    ensures
        y == mix(*p, tap_sum as int, x as int),
        magnitude(y as int) <= SAMPLE_LIMIT,
{
    proof {
        lemma_mix_bound(*p, tap_sum as int, x as int, SAMPLE_LIMIT as int);
        lemma_product_bound(p.wet as int, tap_sum as int, 0xffff_ffff, 3 * SAMPLE_LIMIT);
        lemma_product_bound(p.dry as int, x as int, 0xffff_ffff, SAMPLE_LIMIT as int);
    }
    let level: i128 = p.wet as i128 + p.dry as i128;
    let room: i128 = if level > ONE as i128 {
        level
    } else {
        ONE as i128
    };
    let wet_part: i128 = (p.wet as i128) * (tap_sum as i128);
    let dry_part: i128 = (p.dry as i128) * (x as i128);
    let total: i128 = wet_part + (TAPS as i128) * dry_part;
    assert(total == p.wet * tap_sum + TAPS * p.dry * x) by (nonlinear_arith)
        requires
            total == wet_part + TAPS * dry_part,
            wet_part == p.wet * tap_sum,
            dry_part == p.dry * x,
    {
    }
    let y: i128 = total / ((TAPS as i128) * room);
    y as i64
}

/// The chorus of one channel.
pub struct ChannelChorusEngine {
    params: ChorusParams,
    line1: DelayLine,
    line2: DelayLine,
    line3: DelayLine,
    feedback: FeedbackBuffer,
    lfo1: Lfo,
    lfo2: Lfo,
    lfo3: Lfo,
}

impl View for ChannelChorusEngine {
    type V = ChorusState;

    closed spec fn view(&self) -> ChorusState {
        ChorusState {
            params: self.params,
            line1: self.line1@,
            line2: self.line2@,
            line3: self.line3@,
            feedback: self.feedback@,
            lfo1: self.lfo1@,
            lfo2: self.lfo2@,
            lfo3: self.lfo3@,
        }
    }
}

impl ChannelChorusEngine {
    /// The invariant of the engine: its parts are well formed, its state is
    /// valid, and no sample in its buffers is above `SAMPLE_LIMIT`.
    pub closed spec fn wf(&self) -> bool {
        &&& self.line1.wf()
        &&& self.line2.wf()
        &&& self.line3.wf()
        &&& self.feedback.wf()
        &&& self.lfo1.wf()
        &&& self.lfo2.wf()
        &&& self.lfo3.wf()
        &&& self@.valid()
        &&& self@.bounded_by(SAMPLE_LIMIT as int)
    }

    /// The slots that the next write goes to in the three delay lines.
    pub closed spec fn cursors(&self) -> Seq<nat> {
        seq![self.line1.cursor(), self.line2.cursor(), self.line3.cursor()]
    }

    /// What the invariant means for the state: it is valid and within the
    /// limit, and each of the three write cursors lies inside its line.
    pub proof fn lemma_wf(&self)
        requires
            self.wf(),
        ensures
            self@.valid(),
            self@.bounded_by(SAMPLE_LIMIT as int),
            0 < self@.capacity() <= usize::MAX,
            self.cursors().len() == TAPS,
            forall|k: int| 0 <= k < TAPS ==> #[trigger] self.cursors()[k] < self@.capacity(),
    {
        self.feedback.lemma_wf();
        self.line1.lemma_wf();
        self.line2.lemma_wf();
        self.line3.lemma_wf();
    }

    /// An engine for `params`, with one second of silence in each buffer, the
    /// write cursors at 0, and three oscillators at `INITIAL_RATE_HZ` whose
    /// phases are taken from the three seeds. Values that are not valid, or
    /// whose longest tap does not fit into one second, are refused.
    pub fn new(params: ChorusParams, seeds: [u64; 3]) -> (made: Result<
        ChannelChorusEngine,
        ChorusError,
    >)
        ensures
            made.is_ok() <==> params.valid() && fits(params, params.sample_rate as int),
            made matches Ok(engine) ==> engine.wf() && engine@ == initial_state(
                params,
                seeds[0] as int,
                seeds[1] as int,
                seeds[2] as int,
            ) && engine.cursors() == seq![0nat, 0nat, 0nat],
            made matches Err(e) ==> refusal(params, params.sample_rate as int) == Some(e),
    {
        if let Err(e) = params.validate() {
            return Err(e);
        }
        let capacity = params.sample_rate as usize;
        if !params.fits(capacity) {
            return Err(ChorusError::DelayExceedsCapacity);
        }
        let line1 = DelayLine::new(capacity, 0, 0);
        let line2 = DelayLine::new(capacity, 0, 0);
        let line3 = DelayLine::new(capacity, 0, 0);
        let feedback = FeedbackBuffer::new(capacity);
        let lfo1 = Lfo::new_random_phase(params.sample_rate, INITIAL_RATE_HZ, seeds[0]);
        let lfo2 = Lfo::new_random_phase(params.sample_rate, INITIAL_RATE_HZ, seeds[1]);
        let lfo3 = Lfo::new_random_phase(params.sample_rate, INITIAL_RATE_HZ, seeds[2]);
        let engine = ChannelChorusEngine {
            params,
            line1: line1.unwrap(),
            line2: line2.unwrap(),
            line3: line3.unwrap(),
            feedback: feedback.unwrap(),
            lfo1: lfo1.unwrap(),
            lfo2: lfo2.unwrap(),
            lfo3: lfo3.unwrap(),
        };
        Ok(engine)
    }

    /// The control values in force.
    pub fn params(&self) -> (params: ChorusParams)
        ensures
            params == self@.params,
    {
        self.params
    }

    /// The number of samples that each buffer holds.
    pub fn capacity(&self) -> (n: usize)
        requires
            self.wf(),
        ensures
            n == self@.capacity(),
            n > 0,
    {
        self.feedback.capacity()
    }

    /// The slots that the next write goes to in the three delay lines.
    pub fn write_cursors(&self) -> (at: [usize; 3])
        ensures
            at@.len() == self.cursors().len(),
            forall|k: int| 0 <= k < TAPS ==> #[trigger] at@[k] == self.cursors()[k],
    {
        [self.line1.write_cursor(), self.line2.write_cursor(), self.line3.write_cursor()]
    }

    /// One of the three oscillators, counted from 0; there is none from 3 on.
    pub fn oscillator(&self, index: usize) -> (lfo: Option<&Lfo>)
        requires
            self.wf(),
        ensures
            lfo.is_some() <==> index < TAPS,
            lfo matches Some(l) ==> l.wf() && l@ == (if index == 0 {
                self@.lfo1
            } else if index == 1 {
                self@.lfo2
            } else {
                self@.lfo3
            }),
    {
        if index == 0 {
            Some(&self.lfo1)
        } else if index == 1 {
            Some(&self.lfo2)
        } else if index == 2 {
            Some(&self.lfo3)
        } else {
            None
        }
    }

    /// Whether `set_params` can take `params`: they are valid, and every tap
    /// that they can ask for lies inside the buffers.
    pub fn accepts(&self, params: &ChorusParams) -> (accepted: bool)
        requires
            self.wf(),
        ensures
            accepted <==> params.valid() && fits(*params, self@.capacity()),
    {
        params.validate().is_ok() && params.fits(self.capacity())
    }

    /// Sets the engine up anew for another sample rate: the buffers are
    /// reallocated to one second of silence with the write cursors at 0, the
    /// oscillators start at `INITIAL_RATE_HZ` from the phases that the seeds
    /// give, and the control values stay, but for the sample rate. Nothing of
    /// the earlier buffers and oscillators is left. Where the control values
    /// cannot be used at that sample rate, nothing changes.
    pub fn resize(&mut self, sample_rate: u32, seeds: [u64; 3]) -> (done: Result<(), ChorusError>)
        requires
            old(self).wf(),
        ensures
            final(self).wf(),
            done.is_ok() <==> refusal(
                at_sample_rate(old(self)@.params, sample_rate),
                sample_rate as int,
            ).is_none(),
            done.is_ok() ==> final(self)@ == initial_state(
                at_sample_rate(old(self)@.params, sample_rate),
                seeds[0] as int,
                seeds[1] as int,
                seeds[2] as int,
            ) && final(self).cursors() == seq![0nat, 0nat, 0nat],
            done matches Err(e) ==> final(self)@ == old(self)@ && final(self).cursors() == old(
                self,
            ).cursors() && refusal(
                at_sample_rate(old(self)@.params, sample_rate),
                sample_rate as int,
            ) == Some(e),
    {
        let p = self.params;
        let params = ChorusParams {
            sample_rate,
            delay_ms: p.delay_ms,
            feedback: p.feedback,
            depth_ms: p.depth_ms,
            rate_hz: p.rate_hz,
            wet: p.wet,
            dry: p.dry,
        };
        match ChannelChorusEngine::new(params, seeds) {
            Ok(engine) => {
                *self = engine;
                Ok(())
            },
            Err(e) => Err(e),
        }
    }

    /// Clears the history: all buffers are overwritten with silence, in
    /// place, and the write cursors go back to 0. The control values and the
    /// oscillators are kept.
    pub fn reset(&mut self)
        requires
            old(self).wf(),
        ensures
            final(self).wf(),
            final(self)@ == old(self)@.silenced(),
            final(self).cursors() == seq![0nat, 0nat, 0nat],
    {
        self.line1.reset();
        self.line2.reset();
        self.line3.reset();
        self.feedback.reset();
    }

    /// Takes over a new snapshot of the control values. The buffers and the
    /// phases of the oscillators are left as they are. The values have to be
    /// ones that `accepts` accepts.
    pub fn set_params(&mut self, params: ChorusParams)
        requires
            old(self).wf(),
            params.valid(),
            fits(params, old(self)@.capacity()),
        ensures
            final(self).wf(),
            final(self)@ == old(self)@.with_params(params),
            final(self).cursors() == old(self).cursors(),
    {
        self.params = params;
    }

    /// Processes one sample: the state moves on by one `step`, whose output
    /// is returned. Nothing is allocated.
    pub fn process(&mut self, input: i32) -> (output: i64)
        requires
            old(self).wf(),
        ensures
            final(self).wf(),
            final(self)@ == step(old(self)@, input as int).0,
            final(self).cursors() == moved_on(
                old(self).cursors(),
                old(self)@.capacity() as nat,
            ),
            output == step(old(self)@, input as int).1,
            magnitude(output as int) <= SAMPLE_LIMIT,
    {
        let p = self.params;
        let ghost before = self@;
        proof {
            self.feedback.lemma_wf();
            lemma_step_valid(before, input as int);
            lemma_step_bounded(before, input as int, SAMPLE_LIMIT as int);
        }
        // The oscillators follow the rate, and each moves its tap.
        self.lfo1.set_rate(p.rate_hz);
        self.lfo2.set_rate(p.rate_hz);
        self.lfo3.set_rate(p.rate_hz);
        let base: u64 = p.delay_samples();
        let offset1: i64 = p.tap_offset(self.lfo1.current_value());
        let offset2: i64 = p.tap_offset(self.lfo2.current_value());
        let offset3: i64 = p.tap_offset(self.lfo3.current_value());
        proof {
            lemma_delay_samples_bounds(p);
            lemma_tap_offset_bounds(p, self.lfo1@.value());
            lemma_tap_offset_bounds(p, self.lfo2@.value());
            lemma_tap_offset_bounds(p, self.lfo3@.value());
        }
        // The output from one base delay ago comes back into the lines.
        let fed_back: i64 = self.feedback.read(base as usize);
        let x: i64 = feed(&p, input, fed_back);
        let tap1: i64 = self.line1.process(x, (base as i64 + offset1) as usize);
        let tap2: i64 = self.line2.process(x, (base as i64 + offset2) as usize);
        let tap3: i64 = self.line3.process(x, (base as i64 + offset3) as usize);
        let output: i64 = blend(&p, tap1 + tap2 + tap3, x);
        // The oscillators move on, and the output joins the history.
        self.lfo1.advance();
        self.lfo2.advance();
        self.lfo3.advance();
        self.feedback.push(output);
        output
    }
}

} // verus!
