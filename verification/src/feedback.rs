//! The history of the output, from which the feedback is taken.

use std::collections::VecDeque;
use vstd::prelude::*;

use crate::delay_line::shift_in;

verus! {

/// A ring of the most recent output samples.
///
/// Its view is the history, newest sample first: `self@[0]` is the sample
/// pushed last, `self@[k]` the one pushed `k` pushes before it.
pub struct FeedbackBuffer {
    samples: VecDeque<i64>,
}

impl View for FeedbackBuffer {
    type V = Seq<int>;

    closed spec fn view(&self) -> Seq<int> {
        Seq::new(self.samples@.len(), |k: int| self.samples@[k] as int)
    }
}

/// A deque of `capacity` samples of silence.
fn silence(capacity: usize) -> (samples: VecDeque<i64>)
    ensures
        samples@.len() == capacity,
        forall|k: int| 0 <= k < capacity ==> samples@[k] == 0,
{
    let mut samples: VecDeque<i64> = VecDeque::with_capacity(capacity);
    let mut n: usize = 0;
    while n < capacity
        invariant
            n <= capacity,
            samples@.len() == n,
            forall|k: int| 0 <= k < n ==> samples@[k] == 0,
        decreases capacity - n,
    {
        samples.push_back(0);
        n += 1;
    }
    samples
}

impl FeedbackBuffer {
    /// The invariant of the buffer: it holds at least one sample.
    pub closed spec fn wf(&self) -> bool {
        self.samples@.len() > 0
    }

    /// What the invariant means for the history.
    pub proof fn lemma_wf(&self)
        requires
            self.wf(),
        ensures
            0 < self@.len() <= usize::MAX,
    {
        assert(self.samples@.len() == self.samples.len());
    }

    /// A buffer of `capacity` samples of silence. There is none of capacity 0.
    pub fn new(capacity: usize) -> (buffer: Option<FeedbackBuffer>)
        ensures
            buffer.is_none() <==> capacity == 0,
            buffer matches Some(b) ==> b.wf() && b@ == Seq::new(capacity as nat, |k: int| 0int),
    {
        if capacity == 0 {
            return None;
        }
        let buffer = FeedbackBuffer { samples: silence(capacity) };
        assert(buffer@ =~= Seq::new(capacity as nat, |k: int| 0int));
        Some(buffer)
    }

    /// The number of samples that the buffer holds.
    pub fn capacity(&self) -> (n: usize)
        requires
            self.wf(),
        ensures
            n == self@.len(),
            n > 0,
    {
        self.samples.len()
    }

    /// Reallocates the buffer to `new_capacity` samples of silence. A request
    /// for capacity 0 is refused and leaves the buffer as it was.
    pub fn resize(&mut self, new_capacity: usize) -> (done: bool)
        requires
            old(self).wf(),
        ensures
            final(self).wf(),
            done <==> new_capacity > 0,
            done ==> final(self)@ == Seq::new(new_capacity as nat, |k: int| 0int),
            !done ==> final(self)@ == old(self)@,
    {
        if new_capacity == 0 {
            return false;
        }
        self.samples = silence(new_capacity);
        assert(self@ =~= Seq::new(new_capacity as nat, |k: int| 0int));
        true
    }

    /// Overwrites the whole buffer with silence. The capacity stays.
    pub fn reset(&mut self)
        requires
            old(self).wf(),
        ensures
            final(self).wf(),
            final(self)@ == Seq::new(old(self)@.len(), |k: int| 0int),
    {
        let capacity = self.samples.len();
        self.samples.clear();
        let mut n: usize = 0;
        while n < capacity
            invariant
                n <= capacity,
                capacity == old(self)@.len(),
                self.samples@.len() == n,
                forall|k: int| 0 <= k < n ==> self.samples@[k] == 0,
            decreases capacity - n,
        {
            self.samples.push_back(0);
            n += 1;
        }
        assert(self@ =~= Seq::new(old(self)@.len(), |k: int| 0int));
    }

    /// The output sample from `lookback` pushes before the newest one.
    pub fn read(&self, lookback: usize) -> (sample: i64)
        requires
            self.wf(),
            lookback < self@.len(),
        ensures
            sample == self@[lookback as int],
    {
        self.samples[lookback]
    }

    /// Takes the newest output sample in at the front; the oldest one, at
    /// the back, is dropped.
    pub fn push(&mut self, sample: i64)
        requires
            old(self).wf(),
        ensures
            final(self).wf(),
            final(self)@ == shift_in(old(self)@, sample as int),
    {
        let _ = self.samples.pop_back();
        self.samples.push_front(sample);
        assert(self@ =~= shift_in(old(self)@, sample as int));
    }
}

} // verus!
