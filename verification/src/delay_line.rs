//! A fixed-capacity circular buffer that is written one sample at a time and
//! read back a given number of samples behind the newest one.

use vstd::arithmetic::div_mod::{
    lemma_mod_add_multiples_vanish, lemma_mod_self_0, lemma_small_mod,
};
use vstd::prelude::*;

verus! {

/// The slot that lies `k` slots behind slot `at` in a ring of `capacity`
/// slots: `(at - k) mod capacity`.
pub open spec fn slot_behind(at: int, k: int, capacity: int) -> int {
    (at - k) % capacity
}

/// Going back in a ring wraps at most once.
pub proof fn lemma_slot_behind(at: int, k: int, capacity: int)
    requires
        -1 <= at < capacity,
        0 <= k < capacity,
    ensures
        slot_behind(at, k, capacity) == (if k <= at {
            at - k
        } else {
            at - k + capacity
        }),
        0 <= slot_behind(at, k, capacity) < capacity,
{
    if k <= at {
        lemma_small_mod((at - k) as nat, capacity as nat);
    } else {
        lemma_mod_add_multiples_vanish(at - k, capacity);
        lemma_small_mod((at - k + capacity) as nat, capacity as nat);
    }
}

/// The history that follows `history` once `sample` has been written: the new
/// sample in front, the oldest one gone.
pub open spec fn shift_in(history: Seq<int>, sample: int) -> Seq<int> {
    seq![sample] + history.drop_last()
}

/// The history that follows `history` once all of `samples` have been
/// written, the first of them first.
pub open spec fn written(history: Seq<int>, samples: Seq<int>) -> Seq<int>
    decreases samples.len(),
{
    if samples.len() == 0 {
        history
    } else {
        shift_in(written(history, samples.drop_last()), samples.last())
    }
}

/// A line delays by whole samples, exactly: after a run of writes, the entry
/// `k` of the history is the sample written `k` writes before the last one,
/// or, where the run is shorter than that, what the line held before.
pub proof fn lemma_written(history: Seq<int>, samples: Seq<int>, k: int)
    requires
        0 <= k < history.len(),
    ensures
        written(history, samples).len() == history.len(),
        written(history, samples)[k] == (if k < samples.len() {
            samples[samples.len() - 1 - k]
        } else {
            history[k - samples.len()]
        }),
    decreases samples.len(),
{
    if samples.len() > 0 {
        lemma_written(history, samples.drop_last(), k);
        if k > 0 {
            lemma_written(history, samples.drop_last(), k - 1);
        }
    }
}

/// A delay line over integer samples.
///
/// Its view is the history of the line, newest sample first: `self@[0]` is
/// the sample written last, `self@[k]` the one written `k` writes before it.
/// The history always has as many entries as the line has capacity.
pub struct DelayLine {
    buffer: Vec<i64>,
    cursor: usize,
    initial_delay: usize,
}

impl View for DelayLine {
    type V = Seq<int>;

    closed spec fn view(&self) -> Seq<int> {
        Seq::new(
            self.buffer@.len(),
            |k: int| self.storage()[slot_behind(self.cursor - 1, k, self.buffer@.len() as int)],
        )
    }
}

impl DelayLine {
    /// The invariant of the line: it holds at least one sample, and the write
    /// cursor is inside the buffer.
    pub closed spec fn wf(&self) -> bool {
        &&& self.buffer@.len() > 0
        &&& self.cursor < self.buffer@.len()
    }

    /// The samples in the order of their slots.
    pub closed spec fn storage(&self) -> Seq<int> {
        Seq::new(self.buffer@.len(), |i: int| self.buffer@[i] as int)
    }

    /// The slot that the next write goes to.
    pub closed spec fn cursor(&self) -> nat {
        self.cursor as nat
    }

    /// The delay that the line was constructed with.
    pub closed spec fn nominal_delay(&self) -> nat {
        self.initial_delay as nat
    }

    /// What the invariant means: the line is not empty, the cursor lies
    /// inside it, and the history is the storage read backward from the slot
    /// before the cursor.
    pub proof fn lemma_wf(&self)
        requires
            self.wf(),
        ensures
            0 < self@.len() <= usize::MAX,
            self.storage().len() == self@.len(),
            self.cursor() < self@.len(),
            forall|k: int|
                0 <= k < self@.len() ==> #[trigger] self@[k] == self.storage()[slot_behind(
                    self.cursor() - 1,
                    k,
                    self@.len() as int,
                )],
    {
        assert(self.buffer@.len() == self.buffer.len());
    }

    /// A line of `capacity` samples, all equal to `initial_value`, with the
    /// write cursor at 0. A line cannot be empty: there is none of capacity 0.
    pub fn new(capacity: usize, initial_delay: usize, initial_value: i64) -> (line: Option<
        DelayLine,
    >)
        ensures
            line.is_none() <==> capacity == 0,
            line matches Some(l) ==> {
                &&& l.wf()
                &&& l@ == Seq::new(capacity as nat, |k: int| initial_value as int)
                &&& l.cursor() == 0
                &&& l.nominal_delay() == initial_delay
            },
    {
        if capacity == 0 {
            return None;
        }
        let line = DelayLine { buffer: vec![initial_value; capacity], cursor: 0, initial_delay };
        proof {
            assert forall|k: int| 0 <= k < capacity implies line@[k] == initial_value by {
                lemma_slot_behind(-1, k, capacity as int);
            }
            assert(line@ =~= Seq::new(capacity as nat, |k: int| initial_value as int));
        }
        Some(line)
    }

    /// The number of samples that the line holds.
    pub fn capacity(&self) -> (n: usize)
        requires
            self.wf(),
        ensures
            n == self@.len(),
            n > 0,
    {
        self.buffer.len()
    }

    /// The slot that the next write goes to.
    pub fn write_cursor(&self) -> (at: usize)
        ensures
            at == self.cursor(),
    {
        self.cursor
    }

    /// The delay that the line was constructed with.
    pub fn initial_delay(&self) -> (d: usize)
        ensures
            d == self.nominal_delay(),
    {
        self.initial_delay
    }

    /// Reallocates the line to `new_capacity` samples of silence and puts the
    /// write cursor back to 0. Nothing of the old history is kept. A request
    /// for capacity 0 is refused and leaves the line as it was.
    pub fn resize(&mut self, new_capacity: usize) -> (done: bool)
        requires
            old(self).wf(),
        ensures
            final(self).wf(),
            done <==> new_capacity > 0,
            done ==> final(self)@ == Seq::new(new_capacity as nat, |k: int| 0int),
            done ==> final(self).cursor() == 0,
            !done ==> final(self)@ == old(self)@ && final(self).cursor() == old(self).cursor(),
            final(self).nominal_delay() == old(self).nominal_delay(),
    {
        if new_capacity == 0 {
            return false;
        }
        self.buffer = vec![0i64; new_capacity];
        self.cursor = 0;
        proof {
            assert forall|k: int| 0 <= k < new_capacity implies self@[k] == 0 by {
                lemma_slot_behind(-1, k, new_capacity as int);
            }
            assert(self@ =~= Seq::new(new_capacity as nat, |k: int| 0int));
        }
        true
    }

    /// Overwrites the whole line with silence, in place, and puts the write
    /// cursor back to 0. The capacity stays.
    pub fn reset(&mut self)
        requires
            old(self).wf(),
        ensures
            final(self).wf(),
            final(self)@ == Seq::new(old(self)@.len(), |k: int| 0int),
            final(self).cursor() == 0,
            final(self).nominal_delay() == old(self).nominal_delay(),
    {
        let n = self.buffer.len();
        let mut i: usize = 0;
        while i < n
            invariant
                i <= n,
                n == self.buffer@.len(),
                n == old(self).buffer@.len(),
                self.cursor == old(self).cursor,
                self.initial_delay == old(self).initial_delay,
                forall|j: int| 0 <= j < i ==> self.buffer@[j] == 0,
            decreases n - i,
        {
            self.buffer.set(i, 0);
            i += 1;
        }
        self.cursor = 0;
        proof {
            assert forall|k: int| 0 <= k < n implies self@[k] == 0 by {
                lemma_slot_behind(-1, k, n as int);
            }
            assert(self@ =~= Seq::new(old(self)@.len(), |k: int| 0int));
        }
    }

    /// Writes `input` at the cursor and moves the cursor on by one, back to 0
    /// after the last slot.
    pub fn write(&mut self, input: i64)
        requires
            old(self).wf(),
        ensures
            final(self).wf(),
            final(self)@ == shift_in(old(self)@, input as int),
            final(self).storage() == old(self).storage().update(
                old(self).cursor() as int,
                input as int,
            ),
            final(self).cursor() == (old(self).cursor() + 1) % old(self)@.len(),
            final(self).nominal_delay() == old(self).nominal_delay(),
    {
        let n = self.buffer.len();
        let at = self.cursor;
        self.buffer.set(at, input);
        self.cursor = if at + 1 == n {
            0
        } else {
            at + 1
        };
        proof {
            if at + 1 == n {
                lemma_mod_self_0(n as int);
            } else {
                lemma_small_mod((at + 1) as nat, n as nat);
            }
            assert(self.storage() =~= old(self).storage().update(at as int, input as int));
            assert forall|k: int| 0 <= k < n implies self@[k] == shift_in(
                old(self)@,
                input as int,
            )[k] by {
                lemma_slot_behind(self.cursor - 1, k, n as int);
                if k > 0 {
                    lemma_slot_behind(at - 1, k - 1, n as int);
                }
            }
            assert(self@ =~= shift_in(old(self)@, input as int));
        }
    }

    /// The sample written `delay` writes before the newest one. No clamping
    /// is done: the delay has to lie inside the line.
    pub fn read(&self, delay: usize) -> (sample: i64)
        requires
            self.wf(),
            delay < self@.len(),
        ensures
            sample == self@[delay as int],
    {
        let n = self.buffer.len();
        let at = if delay < self.cursor {
            self.cursor - 1 - delay
        } else {
            self.cursor + (n - 1 - delay)
        };
        proof {
            lemma_slot_behind(self.cursor - 1, delay as int, n as int);
        }
        self.buffer[at]
    }

    /// Writes `input` at the cursor, moves the cursor on by one, and returns
    /// the sample in the slot `delay` slots behind the one just written:
    /// delay 0 gives `input` back, delay `k` the sample written `k` calls
    /// earlier.
    pub fn process(&mut self, input: i64, delay: usize) -> (output: i64)
        requires
            old(self).wf(),
            delay < old(self)@.len(),
        ensures
            final(self).wf(),
            final(self)@ == shift_in(old(self)@, input as int),
            final(self).storage() == old(self).storage().update(
                old(self).cursor() as int,
                input as int,
            ),
            final(self).cursor() == (old(self).cursor() + 1) % old(self)@.len(),
            final(self).nominal_delay() == old(self).nominal_delay(),
            output == final(self).storage()[slot_behind(
                old(self).cursor() as int,
                delay as int,
                old(self)@.len() as int,
            )],
            output == final(self)@[delay as int],
            output == (if delay == 0 {
                input as int
            } else {
                old(self)@[delay - 1]
            }),
    {
        let ghost n = self.buffer@.len() as int;
        let ghost at = self.cursor as int;
        self.write(input);
        proof {
            lemma_slot_behind(self.cursor - 1, delay as int, n);
            lemma_slot_behind(at, delay as int, n);
        }
        self.read(delay)
    }
}

} // verus!
