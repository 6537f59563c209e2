//! The delay line behind the feedback delay effect.
//!
//! A fixed-capacity ring buffer with a cursor that moves one slot per sample.
//! Seen from outside it is a queue of fixed length: the sample read at the
//! cursor is the oldest one, and the sample written there becomes the newest,
//! so whatever is written comes back out exactly one buffer length later.

use vstd::prelude::*;
use crate::envelope::MS_PER_SECOND;

verus! {

/// Number of samples that a delay of `delay_ms` milliseconds spans at
/// `sample_rate` samples per second, rounded down.
pub open spec fn samples_for(sample_rate: u32, delay_ms: u32) -> int {
    (sample_rate as int * delay_ms as int) / (MS_PER_SECOND as int)
}

/// Computes the buffer length of a delay of `delay_ms` milliseconds.
pub fn delay_samples(sample_rate: u32, delay_ms: u32) -> (r: u64)
    ensures
        r == samples_for(sample_rate, delay_ms),
{
    proof {
        assert((sample_rate as int) * (delay_ms as int) <= (u32::MAX as int) * (u32::MAX as int))
            by (nonlinear_arith);
    }
    (sample_rate as u64) * (delay_ms as u64) / MS_PER_SECOND
}

/// The line's contents after each of `writes` was pushed in turn.
pub open spec fn after_pushes<T>(line: Seq<T>, writes: Seq<T>) -> Seq<T>
    decreases writes.len(),
{
    if writes.len() == 0 {
        line
    } else {
        after_pushes(line, writes.drop_last()).drop_first().push(writes.last())
    }
}

/// A fixed-length delay line holding samples of type `T`.
pub struct DelayLine<T> {
    buffer: Vec<T>,
    index: usize,
}

impl<T: Copy> View for DelayLine<T> {
    type V = Seq<T>;

    /// The samples in the line, oldest first.
    closed spec fn view(&self) -> Seq<T> {
        let len = self.buffer@.len() as int;
        Seq::new(
            self.buffer@.len(),
            |i: int|
                if self.index + i < len {
                    self.buffer@[self.index + i]
                } else {
                    self.buffer@[self.index + i - len]
                },
        )
    }
}

impl<T: Copy> DelayLine<T> {
    /// The buffer is not empty and the cursor points into it.
    pub closed spec fn wf(self) -> bool {
        &&& self.buffer@.len() > 0
        &&& self.index < self.buffer@.len()
    }

    /// A line of `len` samples, all `fill`. A zero length is raised to one
    /// sample, the shortest delay a ring buffer can hold.
    pub fn new(len: usize, fill: T) -> (r: Self)
        ensures
            r.wf(),
            r@ == Seq::new(if len == 0 { 1 } else { len as nat }, |i: int| fill),
    {
        let size: usize = if len == 0 { 1 } else { len };
        let mut buffer: Vec<T> = Vec::with_capacity(size);
        let mut i: usize = 0;
        while i < size
            invariant
                i <= size,
                buffer@.len() == i,
                forall|j: int| 0 <= j < i ==> buffer@[j] == fill,
            decreases size - i,
        {
            buffer.push(fill);
            i = i + 1;
        }
        let r = DelayLine { buffer, index: 0 };
        assert(r@ =~= Seq::new(size as nat, |i: int| fill));
        r
    }

    /// How many samples the line delays by.
    pub fn len(&self) -> (r: usize)
        requires
            self.wf(),
        ensures
            r == self@.len(),
            r > 0,
    {
        self.buffer.len()
    }

    /// The oldest sample, the one that leaves the line at the next push.
    pub fn delayed(&self) -> (r: T)
        requires
            self.wf(),
        ensures
            r == self@[0],
    {
        self.buffer[self.index]
    }

    /// Drops the oldest sample and appends `sample` as the newest.
    pub fn push(&mut self, sample: T)
        requires
            old(self).wf(),
        ensures
            final(self).wf(),
            final(self)@ == old(self)@.drop_first().push(sample),
    {
        let ghost before = self@;
        let i = self.index;
        self.buffer.set(i, sample);
        self.index = if i < self.buffer.len() - 1 {
            i + 1
        } else {
            0
        };
        assert(self@ =~= before.drop_first().push(sample));
    }
}

/// The line holds the last samples of its former contents followed by
/// everything pushed since, as many as it has room for.
pub proof fn lemma_after_pushes<T>(line: Seq<T>, writes: Seq<T>)
    requires
        line.len() > 0,
    ensures
        after_pushes(line, writes) == (line + writes).subrange(
            writes.len() as int,
            (writes.len() + line.len()) as int,
        ),
    decreases writes.len(),
{
    if writes.len() > 0 {
        let prev = writes.drop_last();
        lemma_after_pushes(line, prev);
        let n = writes.len() as int;
        let l = line.len() as int;
        let all = line + writes;
        assert(all =~= (line + prev).push(writes.last()));
        let before = (line + prev).subrange(n - 1, n - 1 + l);
        assert forall|i: int| 0 <= i < l implies #[trigger] after_pushes(line, writes)[i]
            == all[n + i] by {
            if i < l - 1 {
                assert(after_pushes(line, writes)[i] == before[i + 1]);
            }
        }
        assert(after_pushes(line, writes) =~= (line + writes).subrange(
            writes.len() as int,
            (writes.len() + line.len()) as int,
        ));
    } else {
        assert(line + writes =~= line);
        assert(line.subrange(0, line.len() as int) =~= line);
    }
}

/// What comes out of the line before the `k`-th push is what was pushed a
/// whole line length earlier, or the initial contents before that: with no
/// feedback and a fully wet mix, a delay reproduces its input shifted by the
/// line length and nothing else.
pub proof fn lemma_delay_round_trip<T>(line: Seq<T>, writes: Seq<T>, k: int)
    requires
        line.len() > 0,
        0 <= k <= writes.len(),
    ensures
        after_pushes(line, writes.take(k))[0] == if k >= line.len() {
            writes[k - line.len()]
        } else {
            line[k]
        },
{
    lemma_after_pushes(line, writes.take(k));
}

} // verus!
