//! The chorus of one channel as mathematics: its state as sequences and
//! integers, and one sample of processing as a function on that state.

use vstd::arithmetic::div_mod::lemma_mod_bound;
use vstd::prelude::*;

use crate::delay_line::shift_in;
use crate::fixed::{magnitude, trunc_div, ONE};
use crate::lfo::{lemma_advanced_valid, LfoState, INITIAL_RATE_HZ};
use crate::params::{
    calculated_depth, delay_samples, fits, lemma_tap_offset_bounds, tap_offset, ChorusParams,
};

verus! {

/// The number of delay taps that are averaged into the wet signal.
pub const TAPS: u32 = 3;

/// The input of the delay lines: the input sample plus the output from one
/// base delay ago, scaled by `wet * feedback` and rounded toward zero.
pub open spec fn feedback_input(p: ChorusParams, input: int, fed_back: int) -> int {
    input + trunc_div(p.wet * p.feedback * fed_back, ONE * ONE)
}

/// What the sum of the wet and dry levels is divided by: it leaves levels
/// that add up to `ONE` or less alone and scales louder ones back to `ONE`.
pub open spec fn headroom(p: ChorusParams) -> int {
    if p.wet + p.dry > ONE {
        p.wet + p.dry
    } else {
        ONE as int
    }
}

/// The output sample: `wet` times the mean of the taps plus `dry` times the
/// input of the delay lines, divided by the headroom, rounded toward zero
/// once at the end.
pub open spec fn mix(p: ChorusParams, tap_sum: int, x: int) -> int {
    trunc_div(p.wet * tap_sum + TAPS * p.dry * x, TAPS * headroom(p))
}

/// Everything that one channel remembers from sample to sample.
pub struct ChorusState {
    /// The control values in force.
    pub params: ChorusParams,
    /// The histories of the three delay lines, newest sample first.
    pub line1: Seq<int>,
    pub line2: Seq<int>,
    pub line3: Seq<int>,
    /// The history of the output, newest sample first.
    pub feedback: Seq<int>,
    /// The three oscillators.
    pub lfo1: LfoState,
    pub lfo2: LfoState,
    pub lfo3: LfoState,
}

impl ChorusState {
    /// The number of samples that each buffer holds.
    pub open spec fn capacity(self) -> int {
        self.feedback.len() as int
    }

    /// The control values are valid and every tap that they can ask for lies
    /// inside the buffers; the four buffers are of one size; the three delay
    /// lines, which are fed the same samples, hold the same history; the
    /// oscillators are valid.
    pub open spec fn valid(self) -> bool {
        &&& self.params.valid()
        &&& fits(self.params, self.capacity())
        &&& self.line1.len() == self.feedback.len()
        &&& self.line2 == self.line1
        &&& self.line3 == self.line1
        &&& self.lfo1.valid()
        &&& self.lfo2.valid()
        &&& self.lfo3.valid()
    }

    /// No sample in any buffer has a magnitude above `bound`.
    pub open spec fn bounded_by(self, bound: int) -> bool {
        &&& forall|k: int|
            0 <= k < self.line1.len() ==> magnitude(#[trigger] self.line1[k]) <= bound
        &&& forall|k: int|
            0 <= k < self.line2.len() ==> magnitude(#[trigger] self.line2[k]) <= bound
        &&& forall|k: int|
            0 <= k < self.line3.len() ==> magnitude(#[trigger] self.line3[k]) <= bound
        &&& forall|k: int|
            0 <= k < self.feedback.len() ==> magnitude(#[trigger] self.feedback[k]) <= bound
    }

    /// The same state with silence in all buffers: the control values and
    /// the oscillators are kept.
    pub open spec fn silenced(self) -> ChorusState {
        let silence = Seq::new(self.feedback.len(), |k: int| 0int);
        ChorusState { line1: silence, line2: silence, line3: silence, feedback: silence, ..self }
    }

    /// The same state under other control values.
    pub open spec fn with_params(self, params: ChorusParams) -> ChorusState {
        ChorusState { params, ..self }
    }
}

/// The state of a channel that has just been set up for `params`: silence in
/// all buffers of one second each, and three oscillators at the sample rate
/// of `params` and the rate `INITIAL_RATE_HZ`, which start at the phase steps
/// given by the three seeds, wrapped into one cycle.
pub open spec fn initial_state(
    params: ChorusParams,
    seed1: int,
    seed2: int,
    seed3: int,
) -> ChorusState {
    let silence = Seq::new(params.sample_rate as nat, |k: int| 0int);
    let period = params.sample_rate * ONE;
    ChorusState {
        params,
        line1: silence,
        line2: silence,
        line3: silence,
        feedback: silence,
        lfo1: LfoState {
            sample_rate: params.sample_rate as int,
            rate: INITIAL_RATE_HZ as int,
            phase: seed1 % period,
        },
        lfo2: LfoState {
            sample_rate: params.sample_rate as int,
            rate: INITIAL_RATE_HZ as int,
            phase: seed2 % period,
        },
        lfo3: LfoState {
            sample_rate: params.sample_rate as int,
            rate: INITIAL_RATE_HZ as int,
            phase: seed3 % period,
        },
    }
}

/// Where the write cursors of the delay lines stand after one more sample:
/// each has moved on by one slot, back to 0 after the last.
pub open spec fn moved_on(cursors: Seq<nat>, capacity: nat) -> Seq<nat> {
    Seq::new(cursors.len(), |k: int| (cursors[k] + 1) % capacity)
}

/// The delay of the tap that the oscillator `lfo` selects: the base delay
/// moved by the oscillator's value times half the clamped depth.
pub open spec fn tap_delay(p: ChorusParams, lfo: LfoState) -> int {
    delay_samples(p) + tap_offset(lfo.value(), calculated_depth(p))
}

/// One sample of processing: the state after it, and the output sample.
///
/// The oscillators take over the current rate. The input of the delay lines
/// is the input sample plus the fed-back output. Each line takes that sample
/// in and is read at its own tap. The taps are mixed with the input of the
/// lines into the output, the oscillators advance, and the output enters the
/// feedback history.
pub open spec fn step(s: ChorusState, input: int) -> (ChorusState, int) {
    let p = s.params;
    let lfo1 = s.lfo1.with_rate(p.rate_hz as int);
    let lfo2 = s.lfo2.with_rate(p.rate_hz as int);
    let lfo3 = s.lfo3.with_rate(p.rate_hz as int);
    let x = feedback_input(p, input, s.feedback[delay_samples(p)]);
    let line1 = shift_in(s.line1, x);
    let line2 = shift_in(s.line2, x);
    let line3 = shift_in(s.line3, x);
    let tap_sum = line1[tap_delay(p, lfo1)] + line2[tap_delay(p, lfo2)] + line3[tap_delay(
        p,
        lfo3,
    )];
    let y = mix(p, tap_sum, x);
    (
        ChorusState {
            params: p,
            line1,
            line2,
            line3,
            feedback: shift_in(s.feedback, y),
            lfo1: lfo1.advanced(),
            lfo2: lfo2.advanced(),
            lfo3: lfo3.advanced(),
        },
        y,
    )
}

/// The state after a run of input samples.
pub open spec fn state_after(s: ChorusState, inputs: Seq<int>) -> ChorusState
    decreases inputs.len(),
{
    if inputs.len() == 0 {
        s
    } else {
        step(state_after(s, inputs.drop_last()), inputs.last()).0
    }
}

/// The output samples of a run of input samples, one for one.
pub open spec fn outputs(s: ChorusState, inputs: Seq<int>) -> Seq<int> {
    Seq::new(inputs.len(), |n: int| step(state_after(s, inputs.take(n)), inputs[n]).1)
}


/// A channel that has just been set up is in a valid state, with buffers of
/// one second that hold nothing but silence.
pub proof fn lemma_initial_state(params: ChorusParams, seed1: int, seed2: int, seed3: int)
    requires
        params.valid(),
        fits(params, params.sample_rate as int),
    ensures
        initial_state(params, seed1, seed2, seed3).valid(),
        initial_state(params, seed1, seed2, seed3).capacity() == params.sample_rate,
        initial_state(params, seed1, seed2, seed3).bounded_by(0),
{
    let period = params.sample_rate * ONE;
    lemma_mod_bound(seed1, period);
    lemma_mod_bound(seed2, period);
    lemma_mod_bound(seed3, period);
}

/// Every tap, and the feedback tap, lies inside the buffers.
pub proof fn lemma_taps_in_range(s: ChorusState, lfo: LfoState)
    requires
        s.valid(),
        lfo.valid(),
    ensures
        0 <= delay_samples(s.params) < s.capacity(),
        0 <= tap_delay(s.params, lfo) < s.capacity(),
{
    lemma_advanced_valid(lfo, lfo.rate);
    lemma_tap_offset_bounds(s.params, lfo.value());
}

/// Processing keeps the control values and the size of the buffers, and a
/// valid state valid.
pub proof fn lemma_step_valid(s: ChorusState, input: int)
    requires
        s.valid(),
    ensures
        step(s, input).0.valid(),
        step(s, input).0.params == s.params,
        step(s, input).0.capacity() == s.capacity(),
{
    let p = s.params;
    lemma_taps_in_range(s, s.lfo1);
    lemma_advanced_valid(s.lfo1, p.rate_hz as int);
    lemma_advanced_valid(s.lfo2, p.rate_hz as int);
    lemma_advanced_valid(s.lfo3, p.rate_hz as int);
}

/// A run leaves the control values and the size of the buffers as they were,
/// and a valid state valid.
pub proof fn lemma_state_after_valid(s: ChorusState, inputs: Seq<int>)
    requires
        s.valid(),
    ensures
        state_after(s, inputs).valid(),
        state_after(s, inputs).params == s.params,
        state_after(s, inputs).capacity() == s.capacity(),
    decreases inputs.len(),
{
    if inputs.len() > 0 {
        lemma_state_after_valid(s, inputs.drop_last());
        lemma_step_valid(state_after(s, inputs.drop_last()), inputs.last());
    }
}

/// A run leaves the control values as they were.
pub proof fn lemma_state_after_params(s: ChorusState, inputs: Seq<int>)
    ensures
        state_after(s, inputs).params == s.params,
    decreases inputs.len(),
{
    if inputs.len() > 0 {
        lemma_state_after_params(s, inputs.drop_last());
    }
}

} // verus!
