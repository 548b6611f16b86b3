//! Two channels of chorus that share their control values and nothing else.

use vstd::prelude::*;

use crate::engine::{at_sample_rate, refusal, ChannelChorusEngine, SAMPLE_LIMIT};
use crate::fixed::{magnitude, ONE};
use crate::model::{
    headroom, initial_state, lemma_initial_state, moved_on, outputs, state_after, step,
    ChorusState, TAPS,
};
use crate::params::{
    delay_samples, fits, lemma_delay_fits_one_second, ChorusError, ChorusParams,
};
use crate::theorems::{
    lemma_impulse_response, lemma_mix_tells_apart, lemma_passthrough, lemma_static_delay,
    lone_impulse, static_delay, taps_at,
};

verus! {

/// The sample rate that a chorus is set up for before the true one is known.
pub const DEFAULT_SAMPLE_RATE: u32 = 44_100;

/// The control values before the first snapshot arrives: no delay, no
/// modulation, both levels at zero.
pub open spec fn default_params() -> ChorusParams {
    ChorusParams {
        sample_rate: DEFAULT_SAMPLE_RATE,
        delay_ms: 0,
        feedback: 0,
        depth_ms: 0,
        rate_hz: 0,
        wet: 0,
        dry: 0,
    }
}

/// The states of the two channels.
pub struct StereoState {
    pub left: ChorusState,
    pub right: ChorusState,
}

impl StereoState {
    /// Both channels are valid, under the same control values and with
    /// buffers of the same size.
    pub open spec fn valid(self) -> bool {
        &&& self.left.valid()
        &&& self.right.valid()
        &&& self.left.params == self.right.params
        &&& self.left.capacity() == self.right.capacity()
    }
}

/// The state of a stereo chorus that has just been set up for `params`.
pub open spec fn initial_stereo_state(
    params: ChorusParams,
    left_seeds: [u64; 3],
    right_seeds: [u64; 3],
) -> StereoState {
    StereoState {
        left: initial_state(
            params,
            left_seeds[0] as int,
            left_seeds[1] as int,
            left_seeds[2] as int,
        ),
        right: initial_state(
            params,
            right_seeds[0] as int,
            right_seeds[1] as int,
            right_seeds[2] as int,
        ),
    }
}

/// Whatever the phases of their oscillators, two channels that have just
/// been set up as plain delays give the same output: silence until the base
/// delay has passed, and from then on the input, delayed by the base delay.
pub proof fn lemma_channels_agree_as_plain_delays(
    params: ChorusParams,
    left_seeds: [u64; 3],
    right_seeds: [u64; 3],
    inputs: Seq<int>,
    n: int,
)
    requires
        params.valid(),
        fits(params, params.sample_rate as int),
        static_delay(params),
        0 <= n < inputs.len(),
    ensures
        ({
            let s = initial_stereo_state(params, left_seeds, right_seeds);
            let delayed = if n >= delay_samples(params) {
                inputs[n - delay_samples(params)]
            } else {
                0
            };
            &&& s.valid()
            &&& outputs(s.left, inputs)[n] == delayed
            &&& outputs(s.right, inputs)[n] == delayed
        }),
{
    let s = initial_stereo_state(params, left_seeds, right_seeds);
    lemma_initial_state(
        params,
        left_seeds[0] as int,
        left_seeds[1] as int,
        left_seeds[2] as int,
    );
    lemma_initial_state(
        params,
        right_seeds[0] as int,
        right_seeds[1] as int,
        right_seeds[2] as int,
    );
    lemma_static_delay(s.left, inputs, n);
    lemma_static_delay(s.right, inputs, n);
}

/// Whatever the phases of their oscillators, two channels with the wet level
/// at zero and the dry level at `ONE` both give their input back.
pub proof fn lemma_channels_agree_when_dry(s: StereoState, inputs: Seq<int>)
    requires
        s.left.params == s.right.params,
        s.left.params.wet == 0,
        s.left.params.dry == ONE,
    ensures
        outputs(s.left, inputs) == inputs,
        outputs(s.right, inputs) == inputs,
{
    lemma_passthrough(s.left, inputs);
    lemma_passthrough(s.right, inputs);
}

/// Stereo decorrelation: two channels under the same control values and
/// without feedback, which start from silence and are fed the same impulse,
/// give different output at every sample at which a different number of
/// their taps reads the impulse. The impulse has to be loud enough to survive
/// the mix: `wet` times its magnitude at least twice the three taps times
/// the headroom.
pub proof fn lemma_channels_differ(s: StereoState, inputs: Seq<int>, n: int)
    requires
        s.valid(),
        s.left.params.feedback == 0,
        lone_impulse(s.left.line1, -1, 0),
        lone_impulse(s.right.line1, -1, 0),
        0 <= n < inputs.len(),
        lone_impulse(inputs.take(n + 1), 0, inputs[0]),
        s.left.params.wet * magnitude(inputs[0]) >= 2 * TAPS * headroom(s.left.params),
        taps_at(state_after(s.left, inputs.take(n)), n) != taps_at(
            state_after(s.right, inputs.take(n)),
            n,
        ),
    ensures
        outputs(s.left, inputs)[n] != outputs(s.right, inputs)[n],
{
    let p = s.left.params;
    let impulse = inputs[0];
    let hits_left = taps_at(state_after(s.left, inputs.take(n)), n);
    let hits_right = taps_at(state_after(s.right, inputs.take(n)), n);
    lemma_impulse_response(s.left, inputs, n);
    lemma_impulse_response(s.right, inputs, n);
    let apart = magnitude(impulse * hits_left - impulse * hits_right);
    assert(apart >= magnitude(impulse)) by (nonlinear_arith)
        requires
            apart == magnitude(impulse * hits_left - impulse * hits_right),
            hits_left != hits_right,
    {
        assert(impulse * hits_left - impulse * hits_right == impulse * (hits_left - hits_right));
    }
    assert(p.wet * apart >= p.wet * magnitude(impulse)) by (nonlinear_arith)
        requires
            apart >= magnitude(impulse),
            p.wet >= 0,
    {
    }
    lemma_mix_tells_apart(p, impulse * hits_left, impulse * hits_right, inputs[n]);
}

/// A left and a right chorus engine.
pub struct StereoChorus {
    left: ChannelChorusEngine,
    right: ChannelChorusEngine,
}

impl View for StereoChorus {
    type V = StereoState;

    closed spec fn view(&self) -> StereoState {
        StereoState { left: self.left@, right: self.right@ }
    }
}

impl StereoChorus {
    /// The invariant of the pair: both engines are well formed, and their
    /// states go together.
    pub closed spec fn wf(&self) -> bool {
        &&& self.left.wf()
        &&& self.right.wf()
        &&& self@.valid()
    }

    /// The slots that the next write goes to in the three delay lines of the
    /// left channel.
    pub closed spec fn left_cursors(&self) -> Seq<nat> {
        self.left.cursors()
    }

    /// The slots that the next write goes to in the three delay lines of the
    /// right channel.
    pub closed spec fn right_cursors(&self) -> Seq<nat> {
        self.right.cursors()
    }

    /// What the invariant means for the state: both channels are valid and
    /// within the limit, and each of the six write cursors lies inside its
    /// line.
    pub proof fn lemma_wf(&self)
        requires
            self.wf(),
        ensures
            self@.valid(),
            self@.left.bounded_by(SAMPLE_LIMIT as int),
            self@.right.bounded_by(SAMPLE_LIMIT as int),
            self.left_cursors().len() == TAPS,
            self.right_cursors().len() == TAPS,
            forall|k: int|
                0 <= k < TAPS ==> #[trigger] self.left_cursors()[k] < self@.left.capacity(),
            forall|k: int|
                0 <= k < TAPS ==> #[trigger] self.right_cursors()[k] < self@.right.capacity(),
    {
        self.left.lemma_wf();
        self.right.lemma_wf();
    }

    /// Two engines for `params`, each with its own three seeds for the phases
    /// of its oscillators: with different seeds the two channels do not
    /// modulate in lockstep. Refused where one engine would be.
    pub fn new(params: ChorusParams, left_seeds: [u64; 3], right_seeds: [u64; 3]) -> (made: Result<
        StereoChorus,
        ChorusError,
    >)
        ensures
            made.is_ok() <==> params.valid() && fits(params, params.sample_rate as int),
            made matches Ok(chorus) ==> {
                &&& chorus.wf()
                &&& chorus@ == initial_stereo_state(params, left_seeds, right_seeds)
                &&& chorus.left_cursors() == seq![0nat, 0nat, 0nat]
                &&& chorus.right_cursors() == seq![0nat, 0nat, 0nat]
            },
            made matches Err(e) ==> refusal(params, params.sample_rate as int) == Some(e),
    {
        let left = match ChannelChorusEngine::new(params, left_seeds) {
            Ok(engine) => engine,
            Err(e) => {
                return Err(e);
            },
        };
        let right = match ChannelChorusEngine::new(params, right_seeds) {
            Ok(engine) => engine,
            Err(e) => {
                return Err(e);
            },
        };
        Ok(StereoChorus { left, right })
    }

    /// The engine of the left channel.
    pub fn left(&self) -> (engine: &ChannelChorusEngine)
        requires
            self.wf(),
        ensures
            engine.wf(),
            engine@ == self@.left,
            engine.cursors() == self.left_cursors(),
    {
        &self.left
    }

    /// The engine of the right channel.
    pub fn right(&self) -> (engine: &ChannelChorusEngine)
        requires
            self.wf(),
        ensures
            engine.wf(),
            engine@ == self@.right,
            engine.cursors() == self.right_cursors(),
    {
        &self.right
    }

    /// The control values in force, the same for both channels.
    pub fn params(&self) -> (params: ChorusParams)
        requires
            self.wf(),
        ensures
            params == self@.left.params,
            params == self@.right.params,
    {
        self.left.params()
    }

    /// The number of samples that each buffer holds.
    pub fn capacity(&self) -> (n: usize)
        requires
            self.wf(),
        ensures
            n == self@.left.capacity(),
            n == self@.right.capacity(),
            n > 0,
    {
        self.left.capacity()
    }

    /// Whether `set_params` can take `params`.
    pub fn accepts(&self, params: &ChorusParams) -> (accepted: bool)
        requires
            self.wf(),
        ensures
            accepted <==> params.valid() && fits(*params, self@.left.capacity()),
    {
        self.left.accepts(params)
    }

    /// Sets both engines up anew for another sample rate, each with its own
    /// seeds. Where the control values cannot be used at that sample rate,
    /// nothing changes.
    pub fn resize(
        &mut self,
        sample_rate: u32,
        left_seeds: [u64; 3],
        right_seeds: [u64; 3],
    ) -> (done: Result<(), ChorusError>)
        requires
            old(self).wf(),
        ensures
            final(self).wf(),
            done.is_ok() <==> refusal(
                at_sample_rate(old(self)@.left.params, sample_rate),
                sample_rate as int,
            ).is_none(),
            done.is_ok() ==> {
                &&& final(self)@ == initial_stereo_state(
                    at_sample_rate(old(self)@.left.params, sample_rate),
                    left_seeds,
                    right_seeds,
                )
                &&& final(self).left_cursors() == seq![0nat, 0nat, 0nat]
                &&& final(self).right_cursors() == seq![0nat, 0nat, 0nat]
            },
            done matches Err(e) ==> {
                &&& final(self)@ == old(self)@
                &&& final(self).left_cursors() == old(self).left_cursors()
                &&& final(self).right_cursors() == old(self).right_cursors()
                &&& refusal(
                    at_sample_rate(old(self)@.left.params, sample_rate),
                    sample_rate as int,
                ) == Some(e)
            },
    {
        if let Err(e) = self.left.resize(sample_rate, left_seeds) {
            return Err(e);
        }
        self.right.resize(sample_rate, right_seeds)
    }

    /// Clears the history of both channels, in place.
    pub fn reset(&mut self)
        requires
            old(self).wf(),
        ensures
            final(self).wf(),
            final(self)@.left == old(self)@.left.silenced(),
            final(self)@.right == old(self)@.right.silenced(),
            final(self).left_cursors() == seq![0nat, 0nat, 0nat],
            final(self).right_cursors() == seq![0nat, 0nat, 0nat],
    {
        self.left.reset();
        self.right.reset();
    }

    /// Hands a new snapshot of the control values to both engines. The
    /// values have to be ones that `accepts` accepts.
    pub fn set_params(&mut self, params: ChorusParams)
        requires
            old(self).wf(),
            params.valid(),
            fits(params, old(self)@.left.capacity()),
        ensures
            final(self).wf(),
            final(self)@.left == old(self)@.left.with_params(params),
            final(self)@.right == old(self)@.right.with_params(params),
            final(self).left_cursors() == old(self).left_cursors(),
            final(self).right_cursors() == old(self).right_cursors(),
    {
        self.left.set_params(params);
        self.right.set_params(params);
    }

    /// Processes one sample of the left channel. The right channel is left
    /// as it is.
    pub fn process_left(&mut self, input: i32) -> (output: i64)
        requires
            old(self).wf(),
        ensures
            final(self).wf(),
            final(self)@.left == step(old(self)@.left, input as int).0,
            final(self)@.right == old(self)@.right,
            final(self).left_cursors() == moved_on(
                old(self).left_cursors(),
                old(self)@.left.capacity() as nat,
            ),
            final(self).right_cursors() == old(self).right_cursors(),
            output == step(old(self)@.left, input as int).1,
            magnitude(output as int) <= SAMPLE_LIMIT,
    {
        self.left.process(input)
    }

    /// Processes one sample of the right channel. The left channel is left
    /// as it is.
    pub fn process_right(&mut self, input: i32) -> (output: i64)
        requires
            old(self).wf(),
        ensures
            final(self).wf(),
            final(self)@.right == step(old(self)@.right, input as int).0,
            final(self)@.left == old(self)@.left,
            final(self).right_cursors() == moved_on(
                old(self).right_cursors(),
                old(self)@.right.capacity() as nat,
            ),
            final(self).left_cursors() == old(self).left_cursors(),
            output == step(old(self)@.right, input as int).1,
            magnitude(output as int) <= SAMPLE_LIMIT,
    {
        self.right.process(input)
    }

    /// Processes one sample of a frame: channel 0 goes to the left engine,
    /// any other channel to the right one.
    pub fn process_channel(&mut self, channel: usize, input: i32) -> (output: i64)
        requires
            old(self).wf(),
        ensures
            final(self).wf(),
            channel == 0 ==> {
                &&& final(self)@.left == step(old(self)@.left, input as int).0
                &&& final(self)@.right == old(self)@.right
                &&& final(self).left_cursors() == moved_on(
                    old(self).left_cursors(),
                    old(self)@.left.capacity() as nat,
                )
                &&& final(self).right_cursors() == old(self).right_cursors()
                &&& output == step(old(self)@.left, input as int).1
            },
            channel != 0 ==> {
                &&& final(self)@.right == step(old(self)@.right, input as int).0
                &&& final(self)@.left == old(self)@.left
                &&& final(self).right_cursors() == moved_on(
                    old(self).right_cursors(),
                    old(self)@.right.capacity() as nat,
                )
                &&& final(self).left_cursors() == old(self).left_cursors()
                &&& output == step(old(self)@.right, input as int).1
            },
            magnitude(output as int) <= SAMPLE_LIMIT,
    {
        if channel == 0 {
            self.process_left(input)
        } else {
            self.process_right(input)
        }
    }
}

impl Default for StereoChorus {
    /// A chorus at the default sample rate, silent until the first
    /// control values arrive, with all write cursors at 0 and all six
    /// oscillators at the start of their cycle and at `INITIAL_RATE_HZ`.
    fn default() -> (chorus: StereoChorus)
        ensures
            chorus.wf(),
            chorus@ == initial_stereo_state(default_params(), [0, 0, 0], [0, 0, 0]),
            chorus.left_cursors() == seq![0nat, 0nat, 0nat],
            chorus.right_cursors() == seq![0nat, 0nat, 0nat],
    {
        let params = ChorusParams {
            sample_rate: DEFAULT_SAMPLE_RATE,
            delay_ms: 0,
            feedback: 0,
            depth_ms: 0,
            rate_hz: 0,
            wet: 0,
            dry: 0,
        };
        proof {
            lemma_delay_fits_one_second(params);
        }
        StereoChorus::new(params, [0, 0, 0], [0, 0, 0]).unwrap()
    }
}

} // verus!
