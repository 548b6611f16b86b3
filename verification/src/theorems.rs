//! What holds of every run of the chorus: the peak cannot run away, a dry
//! chorus passes its input through, and a chorus without modulation is a
//! plain delay.

use vstd::prelude::*;

use crate::delay_line::{lemma_written, shift_in, written};
use crate::fixed::{
    lemma_product_bound, lemma_trunc_div_apart, lemma_trunc_div_bound, lemma_trunc_div_exact,
    lemma_trunc_div_magnitude, magnitude, ONE,
};
use crate::lfo::{lemma_advanced_by_keeps_rates, lemma_advanced_valid};
use crate::model::{
    feedback_input, headroom, initial_state, lemma_initial_state, lemma_state_after_params,
    lemma_state_after_valid, lemma_taps_in_range, mix, outputs, state_after, step, tap_delay,
    ChorusState, TAPS,
};
use crate::params::{
    calculated_depth, delay_samples, fits, lemma_tap_offset_without_depth, ChorusParams,
    MAX_GAIN, SAMPLE_ONE,
};

verus! {

/// The gain of the feedback path, `wet * feedback`, is at most 0.999 of the
/// unit that it is divided by, `ONE * ONE`.
pub proof fn lemma_feedback_gain(p: ChorusParams)
    requires
        p.valid(),
    ensures
        0 <= p.wet * p.feedback <= 999_000_000_000,
        ONE * ONE == 1_000_000_000_000,
{
    assert(0 <= p.wet * p.feedback <= 999_000_000_000) by (nonlinear_arith)
        requires
            0 <= p.wet <= 1_000_000,
            0 <= p.feedback <= 999_000,
    {
    }
    assert(ONE * ONE == 1_000_000_000_000) by (nonlinear_arith)
        requires
            ONE == 1_000_000,
    {
    }
}

/// Where the wet level or the feedback gain is zero, nothing is fed back.
pub proof fn lemma_without_feedback(p: ChorusParams, input: int, fed_back: int)
    requires
        p.wet == 0 || p.feedback == 0,
    ensures
        feedback_input(p, input, fed_back) == input,
{
    assert(p.wet * p.feedback * fed_back == 0) by (nonlinear_arith)
        requires
            p.wet == 0 || p.feedback == 0,
    {
    }
    assert(ONE * ONE > 0) by (nonlinear_arith)
        requires
            ONE == 1_000_000,
    {
    }
}

/// Feedback adds at most 0.999 of the peak to the input.
pub proof fn lemma_feedback_input_bound(p: ChorusParams, input: int, fed_back: int, bound: int)
    requires
        p.valid(),
        magnitude(fed_back) <= bound,
        MAX_GAIN * magnitude(input) <= bound,
    ensures
        magnitude(feedback_input(p, input, fed_back)) <= bound,
{
    lemma_feedback_gain(p);
    let g = p.wet * p.feedback;
    let a = g * fed_back;
    assert(magnitude(a) <= 999_000_000_000 * bound) by (nonlinear_arith)
        requires
            a == g * fed_back,
            0 <= g <= 999_000_000_000,
            magnitude(fed_back) <= bound,
    {
    }
    lemma_trunc_div_magnitude(a, 1_000_000_000_000);
}

/// The mix is never louder than the loudest of what goes into it.
pub proof fn lemma_mix_bound(p: ChorusParams, tap_sum: int, x: int, bound: int)
    requires
        magnitude(tap_sum) <= TAPS * bound,
        magnitude(x) <= bound,
    ensures
        magnitude(mix(p, tap_sum, x)) <= bound,
{
    let h = headroom(p);
    let a = p.wet * tap_sum + TAPS * p.dry * x;
    assert(magnitude(a) <= bound * (TAPS * h)) by (nonlinear_arith)
        requires
            a == p.wet * tap_sum + 3 * p.dry * x,
            TAPS == 3,
            magnitude(tap_sum) <= 3 * bound,
            magnitude(x) <= bound,
            0 <= p.wet,
            0 <= p.dry,
            p.wet + p.dry <= h,
    {
        assert(magnitude(p.wet * tap_sum) <= p.wet * (3 * bound));
        assert(magnitude(3 * p.dry * x) <= 3 * p.dry * bound);
        assert(p.wet * (3 * bound) + 3 * p.dry * bound == 3 * bound * (p.wet + p.dry));
        assert(3 * bound * (p.wet + p.dry) <= 3 * bound * h);
    }
    lemma_trunc_div_bound(a, TAPS * h, bound);
}

/// The peak cannot run away: where no sample in the buffers is above
/// `bound` and the input is at most `bound / MAX_GAIN`, the output is at most
/// `bound`, and again no sample in the buffers is above `bound`.
pub proof fn lemma_step_bounded(s: ChorusState, input: int, bound: int)
    requires
        s.valid(),
        s.bounded_by(bound),
        MAX_GAIN * magnitude(input) <= bound,
    ensures
        magnitude(step(s, input).1) <= bound,
        step(s, input).0.bounded_by(bound),
{
    let p = s.params;
    lemma_taps_in_range(s, s.lfo1.with_rate(p.rate_hz as int));
    lemma_taps_in_range(s, s.lfo2.with_rate(p.rate_hz as int));
    lemma_taps_in_range(s, s.lfo3.with_rate(p.rate_hz as int));
    lemma_advanced_valid(s.lfo1, p.rate_hz as int);
    lemma_advanced_valid(s.lfo2, p.rate_hz as int);
    lemma_advanced_valid(s.lfo3, p.rate_hz as int);
    let fed_back = s.feedback[delay_samples(p)];
    let x = feedback_input(p, input, fed_back);
    lemma_feedback_input_bound(p, input, fed_back, bound);
    let line1 = shift_in(s.line1, x);
    let line2 = shift_in(s.line2, x);
    let line3 = shift_in(s.line3, x);
    let t1 = line1[tap_delay(p, s.lfo1.with_rate(p.rate_hz as int))];
    let t2 = line2[tap_delay(p, s.lfo2.with_rate(p.rate_hz as int))];
    let t3 = line3[tap_delay(p, s.lfo3.with_rate(p.rate_hz as int))];
    lemma_shift_in_bounded(s.line1, x, bound);
    lemma_shift_in_bounded(s.line2, x, bound);
    lemma_shift_in_bounded(s.line3, x, bound);
    assert(magnitude(t1) <= bound);
    assert(magnitude(t2) <= bound);
    assert(magnitude(t3) <= bound);
    lemma_mix_bound(p, t1 + t2 + t3, x, bound);
    lemma_shift_in_bounded(s.feedback, step(s, input).1, bound);
}

/// Writing a sample that is within a bound into a history that is within it
/// gives a history that is within it.
pub proof fn lemma_shift_in_bounded(history: Seq<int>, sample: int, bound: int)
    requires
        history.len() > 0,
        magnitude(sample) <= bound,
        forall|k: int| 0 <= k < history.len() ==> magnitude(#[trigger] history[k]) <= bound,
    ensures
        shift_in(history, sample).len() == history.len(),
        forall|k: int|
            0 <= k < history.len() ==> magnitude(#[trigger] shift_in(history, sample)[k]) <= bound,
{
    assert forall|k: int| 0 <= k < history.len() implies magnitude(
        #[trigger] shift_in(history, sample)[k],
    ) <= bound by {
        if k > 0 {
            assert(shift_in(history, sample)[k] == history[k - 1]);
        }
    }
}


/// Bounded input gives bounded output, however long the run: where the
/// buffers start within `bound` and every input sample is at most
/// `bound / MAX_GAIN`, every output sample is at most `bound`, and the buffers
/// end within `bound`.
pub proof fn lemma_run_bounded(s: ChorusState, inputs: Seq<int>, bound: int)
    requires
        s.valid(),
        s.bounded_by(bound),
        forall|n: int|
            0 <= n < inputs.len() ==> MAX_GAIN * magnitude(#[trigger] inputs[n]) <= bound,
    ensures
        state_after(s, inputs).bounded_by(bound),
        outputs(s, inputs).len() == inputs.len(),
        forall|n: int|
            0 <= n < inputs.len() ==> magnitude(#[trigger] outputs(s, inputs)[n]) <= bound,
    decreases inputs.len(),
{
    if inputs.len() > 0 {
        let front = inputs.drop_last();
        lemma_run_bounded(s, front, bound);
        lemma_state_after_valid(s, front);
        lemma_step_bounded(state_after(s, front), inputs.last(), bound);
        assert forall|n: int| 0 <= n < inputs.len() implies magnitude(
            #[trigger] outputs(s, inputs)[n],
        ) <= bound by {
            if n < front.len() {
                assert(inputs.take(n) == front.take(n));
                assert(outputs(s, inputs)[n] == outputs(s, front)[n]);
            } else {
                assert(inputs.take(n) == front);
            }
        }
    }
}

/// Feedback stability: a channel that starts from silence and is fed samples
/// of at most `peak` never puts out more than `MAX_GAIN * peak`, however long
/// it runs.
pub proof fn lemma_run_from_silence_bounded(
    params: ChorusParams,
    seed1: int,
    seed2: int,
    seed3: int,
    inputs: Seq<int>,
    peak: int,
)
    requires
        params.valid(),
        fits(params, params.sample_rate as int),
        forall|n: int| 0 <= n < inputs.len() ==> magnitude(#[trigger] inputs[n]) <= peak,
    ensures
        forall|n: int|
            0 <= n < inputs.len() ==> magnitude(
                #[trigger] outputs(initial_state(params, seed1, seed2, seed3), inputs)[n],
            ) <= MAX_GAIN * peak,
{
    let s = initial_state(params, seed1, seed2, seed3);
    lemma_initial_state(params, seed1, seed2, seed3);
    if inputs.len() > 0 {
        assert(magnitude(inputs[0]) <= peak);
        lemma_run_bounded(s, inputs, MAX_GAIN * peak);
    }
}

/// With the wet level at zero and the dry level at `ONE`, a sample passes
/// through as it is, whatever the state and the other control values.
pub proof fn lemma_passthrough_step(s: ChorusState, input: int)
    requires
        s.params.wet == 0,
        s.params.dry == ONE,
    ensures
        step(s, input).1 == input,
        step(s, input).0.params == s.params,
{
    let p = s.params;
    let fed_back = s.feedback[delay_samples(p)];
    lemma_without_feedback(p, input, fed_back);
    let x = feedback_input(p, input, fed_back);
    let tap_sum = shift_in(s.line1, x)[tap_delay(p, s.lfo1.with_rate(p.rate_hz as int))] + shift_in(
        s.line2,
        x,
    )[tap_delay(p, s.lfo2.with_rate(p.rate_hz as int))] + shift_in(s.line3, x)[tap_delay(
        p,
        s.lfo3.with_rate(p.rate_hz as int),
    )];
    assert(p.wet * tap_sum + TAPS * p.dry * x == x * (TAPS * headroom(p))) by (nonlinear_arith)
        requires
            p.wet == 0,
            p.dry == ONE,
            headroom(p) == ONE,
            TAPS == 3,
    {
    }
    lemma_trunc_div_exact(x, TAPS * headroom(p));
}

/// Passthrough: with the wet level at zero and the dry level at `ONE`, the
/// output of any run equals its input, sample for sample.
pub proof fn lemma_passthrough(s: ChorusState, inputs: Seq<int>)
    requires
        s.params.wet == 0,
        s.params.dry == ONE,
    ensures
        outputs(s, inputs) == inputs,
{
    assert forall|n: int| 0 <= n < inputs.len() implies outputs(s, inputs)[n] == inputs[n] by {
        lemma_state_after_params(s, inputs.take(n));
        lemma_passthrough_step(state_after(s, inputs.take(n)), inputs[n]);
    }
    assert(outputs(s, inputs) =~= inputs);
}

/// The control values of a plain delay: no modulation, no feedback, only the
/// delayed signal in the output.
pub open spec fn static_delay(p: ChorusParams) -> bool {
    &&& p.depth_ms == 0
    &&& p.feedback == 0
    &&& p.wet == ONE
    &&& p.dry == 0
}

/// As a plain delay, the three taps read the same sample, and the output is
/// that sample: the input for a base delay of 0, else what the lines held
/// one sample short of the base delay.
pub proof fn lemma_static_delay_step(s: ChorusState, input: int)
    requires
        s.valid(),
        static_delay(s.params),
    ensures
        step(s, input).1 == shift_in(s.line1, input)[delay_samples(s.params)],
        step(s, input).0.line1 == shift_in(s.line1, input),
{
    let p = s.params;
    let base = delay_samples(p);
    lemma_taps_in_range(s, s.lfo1);
    let fed_back = s.feedback[base];
    lemma_without_feedback(p, input, fed_back);
    let x = feedback_input(p, input, fed_back);
    assert(calculated_depth(p) == 0) by (nonlinear_arith)
        requires
            calculated_depth(p) == (if p.depth_ms * p.sample_rate <= base * (SAMPLE_ONE / 2) {
                p.depth_ms * p.sample_rate
            } else {
                base * (SAMPLE_ONE / 2)
            }),
            p.depth_ms == 0,
            base >= 0,
            SAMPLE_ONE / 2 == 500_000_000,
    {
    }
    lemma_tap_offset_without_depth(s.lfo1.with_rate(p.rate_hz as int).value());
    lemma_tap_offset_without_depth(s.lfo2.with_rate(p.rate_hz as int).value());
    lemma_tap_offset_without_depth(s.lfo3.with_rate(p.rate_hz as int).value());
    let t = shift_in(s.line1, x)[base];
    assert(tap_delay(p, s.lfo1.with_rate(p.rate_hz as int)) == base);
    assert(tap_delay(p, s.lfo2.with_rate(p.rate_hz as int)) == base);
    assert(tap_delay(p, s.lfo3.with_rate(p.rate_hz as int)) == base);
    assert(p.wet * (t + t + t) + TAPS * p.dry * x == t * (TAPS * headroom(p))) by (nonlinear_arith)
        requires
            p.wet == ONE,
            p.dry == 0,
            headroom(p) == ONE,
            TAPS == 3,
    {
    }
    lemma_trunc_div_exact(t, TAPS * headroom(p));
}

/// Without feedback the lines hold the input of the run and nothing else.
pub proof fn lemma_lines_without_feedback(s: ChorusState, inputs: Seq<int>)
    requires
        s.params.wet == 0 || s.params.feedback == 0,
    ensures
        state_after(s, inputs).line1 == written(s.line1, inputs),
    decreases inputs.len(),
{
    if inputs.len() > 0 {
        let front = inputs.drop_last();
        let before = state_after(s, front);
        lemma_lines_without_feedback(s, front);
        lemma_state_after_params(s, front);
        lemma_without_feedback(
            before.params,
            inputs.last(),
            before.feedback[delay_samples(before.params)],
        );
    }
}

/// Static delay: without modulation and feedback, with the wet level at
/// `ONE` and the dry level at zero, the output is the input delayed by
/// exactly the base delay. Until the run is as long as the base delay, what
/// comes out is what the lines held before it.
pub proof fn lemma_static_delay(s: ChorusState, inputs: Seq<int>, n: int)
    requires
        s.valid(),
        static_delay(s.params),
        0 <= n < inputs.len(),
    ensures
        0 <= delay_samples(s.params) < s.line1.len(),
        outputs(s, inputs)[n] == (if n >= delay_samples(s.params) {
            inputs[n - delay_samples(s.params)]
        } else {
            s.line1[delay_samples(s.params) - 1 - n]
        }),
{
    let base = delay_samples(s.params);
    let front = inputs.take(n);
    lemma_taps_in_range(s, s.lfo1);
    lemma_state_after_valid(s, front);
    lemma_lines_without_feedback(s, front);
    lemma_static_delay_step(state_after(s, front), inputs[n]);
    let through = inputs.take(n + 1);
    assert(through.drop_last() == front);
    assert(through.last() == inputs[n]);
    assert(written(s.line1, through) == shift_in(written(s.line1, front), inputs[n]));
    lemma_written(s.line1, through, base);
}

/// The history is silent but for `impulse` in its entry `index`; where the
/// index lies outside the history, all of it is silent.
pub open spec fn lone_impulse(history: Seq<int>, index: int, impulse: int) -> bool {
    forall|k: int|
        0 <= k < history.len() ==> #[trigger] history[k] == (if k == index {
            impulse
        } else {
            0
        })
}

/// How many of the three taps of the next sample read the entry `index` of
/// the histories.
pub open spec fn taps_at(s: ChorusState, index: int) -> int {
    let p = s.params;
    (if tap_delay(p, s.lfo1) == index {
        1int
    } else {
        0int
    }) + (if tap_delay(p, s.lfo2) == index {
        1int
    } else {
        0int
    }) + (if tap_delay(p, s.lfo3) == index {
        1int
    } else {
        0int
    })
}

/// Two sums of taps that are far enough apart give different output: the
/// difference, times the wet level, has to survive the division by the three
/// taps and the headroom, and the rounding.
pub proof fn lemma_mix_tells_apart(p: ChorusParams, tap_sum1: int, tap_sum2: int, x: int)
    requires
        p.wet * magnitude(tap_sum1 - tap_sum2) >= 2 * TAPS * headroom(p),
    ensures
        mix(p, tap_sum1, x) != mix(p, tap_sum2, x),
{
    let a = p.wet * tap_sum1 + TAPS * p.dry * x;
    let b = p.wet * tap_sum2 + TAPS * p.dry * x;
    let apart = magnitude(tap_sum1 - tap_sum2);
    lemma_product_bound(p.wet as int, tap_sum1 - tap_sum2, p.wet as int, apart);
    assert(a - b == p.wet * (tap_sum1 - tap_sum2)) by (nonlinear_arith)
        requires
            a == p.wet * tap_sum1 + TAPS * p.dry * x,
            b == p.wet * tap_sum2 + TAPS * p.dry * x,
    {
    }
    assert(magnitude(p.wet as int) == p.wet);
    assert(2 * TAPS * headroom(p) == 2 * (TAPS * headroom(p))) by (nonlinear_arith);
    lemma_trunc_div_apart(a, b, TAPS * headroom(p));
}

/// Where the lines hold a lone impulse and there is no feedback, the output
/// is the mix of the impulse, once for each tap that reads it, with the
/// input.
pub proof fn lemma_step_on_lone_impulse(s: ChorusState, input: int, index: int, impulse: int)
    requires
        s.valid(),
        s.params.feedback == 0,
        lone_impulse(shift_in(s.line1, input), index, impulse),
    ensures
        step(s, input).1 == mix(s.params, impulse * taps_at(s, index), input),
{
    let p = s.params;
    let rate = p.rate_hz as int;
    lemma_without_feedback(p, input, s.feedback[delay_samples(p)]);
    lemma_advanced_valid(s.lfo1, rate);
    lemma_advanced_valid(s.lfo2, rate);
    lemma_advanced_valid(s.lfo3, rate);
    lemma_taps_in_range(s, s.lfo1);
    lemma_taps_in_range(s, s.lfo2);
    lemma_taps_in_range(s, s.lfo3);
    let history = shift_in(s.line1, input);
    let d1 = tap_delay(p, s.lfo1);
    let d2 = tap_delay(p, s.lfo2);
    let d3 = tap_delay(p, s.lfo3);
    assert(tap_delay(p, s.lfo1.with_rate(rate)) == d1);
    assert(tap_delay(p, s.lfo2.with_rate(rate)) == d2);
    assert(tap_delay(p, s.lfo3.with_rate(rate)) == d3);
    assert(history[d1] + history[d2] + history[d3] == impulse * taps_at(s, index)) by {
        assert(impulse * 0 == 0 && impulse * 1 == impulse && impulse * 2 == impulse + impulse
            && impulse * 3 == impulse + impulse + impulse);
    }
}

/// After a run the oscillators stand where as many advances at the rate of
/// the control values take them.
pub proof fn lemma_oscillators_after(s: ChorusState, inputs: Seq<int>)
    requires
        inputs.len() > 0,
    ensures
        ({
            let rate = s.params.rate_hz as int;
            let after = state_after(s, inputs);
            &&& after.lfo1 == s.lfo1.with_rate(rate).advanced_by(inputs.len())
            &&& after.lfo2 == s.lfo2.with_rate(rate).advanced_by(inputs.len())
            &&& after.lfo3 == s.lfo3.with_rate(rate).advanced_by(inputs.len())
        }),
    decreases inputs.len(),
{
    let rate = s.params.rate_hz as int;
    let front = inputs.drop_last();
    let before = state_after(s, front);
    let m = front.len();
    lemma_state_after_params(s, front);
    if m > 0 {
        lemma_oscillators_after(s, front);
        lemma_advanced_by_keeps_rates(s.lfo1.with_rate(rate), m);
        lemma_advanced_by_keeps_rates(s.lfo2.with_rate(rate), m);
        lemma_advanced_by_keeps_rates(s.lfo3.with_rate(rate), m);
        assert(before.lfo1.with_rate(rate) == before.lfo1);
        assert(before.lfo2.with_rate(rate) == before.lfo2);
        assert(before.lfo3.with_rate(rate) == before.lfo3);
    } else {
        assert(s.lfo1.with_rate(rate).advanced_by(0) == s.lfo1.with_rate(rate));
        assert(s.lfo2.with_rate(rate).advanced_by(0) == s.lfo2.with_rate(rate));
        assert(s.lfo3.with_rate(rate).advanced_by(0) == s.lfo3.with_rate(rate));
    }
    assert(inputs.len() == m + 1);
    assert(s.lfo1.with_rate(rate).advanced_by(inputs.len()) == s.lfo1.with_rate(
        rate,
    ).advanced_by(m).advanced());
    assert(s.lfo2.with_rate(rate).advanced_by(inputs.len()) == s.lfo2.with_rate(
        rate,
    ).advanced_by(m).advanced());
    assert(s.lfo3.with_rate(rate).advanced_by(inputs.len()) == s.lfo3.with_rate(
        rate,
    ).advanced_by(m).advanced());
}

/// A run that starts with an impulse and goes on in silence, through a
/// channel that starts from silence and has no feedback: at each sample the
/// output is the mix of the impulse, once for each tap that has the age of
/// the run as its delay, with the input.
pub proof fn lemma_impulse_response(s: ChorusState, inputs: Seq<int>, n: int)
    requires
        s.valid(),
        s.params.feedback == 0,
        lone_impulse(s.line1, -1, 0),
        0 <= n < inputs.len(),
        lone_impulse(inputs.take(n + 1), 0, inputs[0]),
    ensures
        outputs(s, inputs)[n] == mix(
            s.params,
            inputs[0] * taps_at(state_after(s, inputs.take(n)), n),
            inputs[n],
        ),
{
    let front = inputs.take(n);
    let through = inputs.take(n + 1);
    let before = state_after(s, front);
    lemma_state_after_valid(s, front);
    lemma_lines_without_feedback(s, front);
    assert(through.drop_last() == front);
    assert(through.last() == inputs[n]);
    assert(written(s.line1, through) == shift_in(before.line1, inputs[n]));
    assert forall|k: int| 0 <= k < s.line1.len() implies #[trigger] written(s.line1, through)[k]
        == (if k == n {
        inputs[0]
    } else {
        0
    }) by {
        lemma_written(s.line1, through, k);
        if k < through.len() {
            assert(through[n - k] == (if n - k == 0 {
                inputs[0]
            } else {
                0
            }));
        }
    }
    lemma_written(s.line1, through, 0);
    lemma_step_on_lone_impulse(before, inputs[n], n, inputs[0]);
}

} // verus!
