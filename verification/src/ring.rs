//! Fixed-capacity sample buffer between the decoder side and the audio
//! device.
//!
//! One side writes, the other reads. A write takes as many samples as there
//! is room for and reports how many; the writer retries the rest. A read
//! never waits: it hands out what is buffered and pads the remainder of the
//! caller's buffer with silence.

use vstd::prelude::*;

verus! {

/// How many of `offered` samples a buffer of `capacity` holding `filled`
/// accepts.
pub open spec fn accepted(filled: nat, capacity: nat, offered: nat) -> nat {
    if filled >= capacity {
        0
    } else if offered <= capacity - filled {
        offered
    } else {
        (capacity - filled) as nat
    }
}

/// Contents after offering `samples` to a buffer of `capacity` that holds
/// `contents`: the samples that fit are appended in order.
pub open spec fn after_write<S>(contents: Seq<S>, capacity: nat, samples: Seq<S>) -> Seq<S> {
    contents + samples.take(accepted(contents.len(), capacity, samples.len()) as int)
}

/// How many buffered samples a read of `len` samples consumes.
pub open spec fn consumed(filled: nat, len: nat) -> nat {
    if len <= filled {
        len
    } else {
        filled
    }
}

/// What a read of `len` samples hands out of a buffer that holds `contents`:
/// the oldest samples first, then silence.
pub open spec fn delivered<S>(contents: Seq<S>, silence: S, len: nat) -> Seq<S> {
    Seq::new(
        len,
        |i: int|
            if i < contents.len() {
                contents[i]
            } else {
                silence
            },
    )
}

/// Contents after a read of `len` samples.
pub open spec fn after_read<S>(contents: Seq<S>, len: nat) -> Seq<S> {
    contents.skip(consumed(contents.len(), len) as int)
}

/// Sum of a run of read lengths.
pub open spec fn total(lens: Seq<nat>) -> nat
    decreases lens.len(),
{
    if lens.len() == 0 {
        0
    } else {
        lens[0] + total(lens.skip(1))
    }
}

/// Everything handed out by consecutive reads of the lengths `lens`, in
/// order, from a buffer that holds `contents` and is not written meanwhile.
pub open spec fn delivered_by<S>(contents: Seq<S>, silence: S, lens: Seq<nat>) -> Seq<S>
    decreases lens.len(),
{
    if lens.len() == 0 {
        Seq::empty()
    } else {
        delivered(contents, silence, lens[0]) + delivered_by(
            after_read(contents, lens[0]),
            silence,
            lens.skip(1),
        )
    }
}

/// Index of the `offset`-th slot after `start` in a circular array of
/// `capacity` slots.
pub open spec fn slot(start: int, offset: int, capacity: int) -> int {
    if start + offset < capacity {
        start + offset
    } else {
        start + offset - capacity
    }
}

/// Circular sample buffer with a read cursor, a write cursor and a count of
/// buffered samples.
pub struct AudioRingBuffer<S> {
    buf: Vec<S>,
    read: usize,
    write: usize,
    filled: usize,
    silence: S,
}

impl<S> View for AudioRingBuffer<S> {
    type V = Seq<S>;

    /// The buffered samples, oldest first.
    closed spec fn view(&self) -> Seq<S> {
        Seq::new(
            self.filled as nat,
            |i: int| self.buf@[slot(self.read as int, i, self.buf@.len() as int)],
        )
    }
}

impl<S: Copy> AudioRingBuffer<S> {
    /// Number of samples the buffer can hold.
    pub closed spec fn spec_capacity(&self) -> nat {
        self.buf@.len()
    }

    /// The sample that stands for silence.
    pub closed spec fn spec_silence(&self) -> S {
        self.silence
    }

    /// The cursors lie inside the array, the write cursor is `filled` slots
    /// after the read cursor, and `filled` does not exceed the capacity.
    pub closed spec fn wf(&self) -> bool {
        let cap = self.buf@.len() as int;
        &&& self.filled <= cap
        &&& if cap == 0 {
            self.read == 0 && self.write == 0
        } else {
            &&& self.read < cap
            &&& self.write == slot(self.read as int, self.filled as int, cap)
        }
    }

    /// A well-formed buffer never holds more than its capacity.
    pub proof fn lemma_bounded(&self)
        requires
            self.wf(),
        ensures
            self@.len() <= self.spec_capacity(),
    {
    }

    /// An empty buffer for `capacity` samples that pads reads with `silence`.
    pub fn new(capacity: usize, silence: S) -> (ring: Self)
        ensures
            ring.wf(),
            ring@ == Seq::<S>::empty(),
            ring.spec_capacity() == capacity,
            ring.spec_silence() == silence,
    {
        let mut buf: Vec<S> = Vec::new();
        let mut i: usize = 0;
        while i < capacity
            invariant
                i <= capacity,
                buf@.len() == i,
            decreases capacity - i,
        {
            buf.push(silence);
            i += 1;
        }
        let ring = AudioRingBuffer { buf, read: 0, write: 0, filled: 0, silence };
        assert(ring@ =~= Seq::<S>::empty());
        ring
    }

    /// Number of samples the buffer can hold.
    pub fn capacity(&self) -> (n: usize)
        ensures
            n == self.spec_capacity(),
    {
        self.buf.len()
    }

    /// Number of samples buffered and not yet read.
    pub fn len(&self) -> (n: usize)
        ensures
            n == self@.len(),
    {
        self.filled
    }

    /// The sample that stands for silence.
    pub fn silence(&self) -> (s: S)
        ensures
            s == self.spec_silence(),
    {
        self.silence
    }

    /// Copies into the buffer as many of `samples` as fit without touching
    /// unread data, and returns how many that was. The caller offers the rest
    /// again later.
    pub fn write(&mut self, samples: &[S]) -> (n: usize)
        requires
            old(self).wf(),
        ensures
            final(self).wf(),
            final(self).spec_capacity() == old(self).spec_capacity(),
            final(self).spec_silence() == old(self).spec_silence(),
            n == accepted(old(self)@.len(), old(self).spec_capacity(), samples@.len()),
            final(self)@ == after_write(old(self)@, old(self).spec_capacity(), samples@),
    {
        let cap: usize = self.buf.len();
        let room: usize = cap - self.filled;
        let n: usize = if samples.len() <= room {
            samples.len()
        } else {
            room
        };
        let mut i: usize = 0;
        while i < n
            invariant
                i <= n,
                n <= samples@.len(),
                cap == self.buf@.len(),
                cap == old(self).buf@.len(),
                self.filled + (n - i) <= cap,
                self.filled == old(self).filled + i,
                self.read == old(self).read,
                self.silence == old(self).silence,
                self.wf(),
                self@ == old(self)@ + samples@.take(i as int),
            decreases n - i,
        {
            let ghost before = *self;
            let at: usize = self.write;
            self.buf[at] = samples[i];
            self.write = if at + 1 == cap {
                0
            } else {
                at + 1
            };
            self.filled = self.filled + 1;
            i += 1;
            proof {
                let grown = old(self)@ + samples@.take(i as int);
                assert(self@.len() == grown.len());
                assert forall|j: int| 0 <= j < self@.len() implies self@[j] == grown[j] by {
                    if j < before.filled {
                        assert(before@[j] == (old(self)@ + samples@.take(i - 1))[j]);
                    }
                }
                assert(self@ =~= grown);
            }
        }
        proof {
            assert(samples@.take(n as int) == samples@.take(
                accepted(old(self)@.len(), old(self).spec_capacity(), samples@.len()) as int,
            ));
        }
        n
    }

    /// Fills all of `out`: first with the oldest buffered samples, then, if
    /// the buffer runs dry, with silence. Returns how many buffered samples
    /// were handed out. Never waits.
    pub fn read(&mut self, out: &mut [S]) -> (n: usize)
        requires
            old(self).wf(),
        ensures
            final(self).wf(),
            final(self).spec_capacity() == old(self).spec_capacity(),
            final(self).spec_silence() == old(self).spec_silence(),
            n == consumed(old(self)@.len(), old(out)@.len()),
            final(out)@.len() == old(out)@.len(),
            final(out)@ == delivered(old(self)@, old(self).spec_silence(), old(out)@.len()),
            final(self)@ == after_read(old(self)@, old(out)@.len()),
    {
        let cap: usize = self.buf.len();
        let len: usize = out.len();
        let mut n: usize = 0;
        let mut i: usize = 0;
        while i < len
            invariant
                i <= len,
                len == out@.len(),
                len == old(out)@.len(),
                cap == self.buf@.len(),
                cap == old(self).buf@.len(),
                self.silence == old(self).silence,
                self.wf(),
                n == consumed(old(self)@.len(), i as nat),
                self.filled == old(self).filled - n,
                self@ == old(self)@.skip(n as int),
                forall|j: int|
                    0 <= j < i ==> out@[j] == delivered(
                        old(self)@,
                        old(self).spec_silence(),
                        len as nat,
                    )[j],
            decreases len - i,
        {
            if self.filled > 0 {
                let ghost before = *self;
                let at: usize = self.read;
                assert(before@[0] == self.buf@[at as int]);
                out[i] = self.buf[at];
                self.read = if at + 1 == cap {
                    0
                } else {
                    at + 1
                };
                self.filled = self.filled - 1;
                n += 1;
                proof {
                    let rest = old(self)@.skip(n as int);
                    assert(self@.len() == rest.len());
                    assert forall|j: int| 0 <= j < self@.len() implies self@[j] == rest[j] by {
                        assert(before@[j + 1] == old(self)@.skip(n - 1)[j + 1]);
                    }
                    assert(self@ =~= rest);
                }
            } else {
                out[i] = self.silence;
            }
            i += 1;
        }
        proof {
            assert(out@ =~= delivered(old(self)@, old(self).spec_silence(), len as nat));
        }
        n
    }
}

/// Reading in pieces hands out the same samples as reading once: consecutive
/// reads of the lengths `lens` deliver, end to end, what a single read of
/// their total length delivers.
pub proof fn lemma_reads_concatenate<S>(contents: Seq<S>, silence: S, lens: Seq<nat>)
    ensures
        delivered_by(contents, silence, lens) == delivered(contents, silence, total(lens)),
    decreases lens.len(),
{
    if lens.len() == 0 {
        assert(delivered(contents, silence, 0) =~= Seq::<S>::empty());
    } else {
        let first = lens[0];
        let rest = after_read(contents, first);
        lemma_reads_concatenate(rest, silence, lens.skip(1));
        let joined = delivered(contents, silence, first) + delivered(
            rest,
            silence,
            total(lens.skip(1)),
        );
        let whole = delivered(contents, silence, total(lens));
        assert(joined.len() == whole.len());
        assert forall|i: int| 0 <= i < whole.len() implies joined[i] == whole[i] by {
            if i >= first {
                let k = i - first;
                if k < rest.len() {
                    assert(rest[k] == contents[k + consumed(contents.len(), first)]);
                }
            }
        }
        assert(joined =~= whole);
    }
}

/// Samples written without overflow come back exactly and in order: after
/// `samples` went into a buffer holding `contents` with room for all of them,
/// any run of reads that asks for at least everything buffered hands out
/// `contents`, then `samples`, then only silence.
pub proof fn lemma_write_then_read_is_fifo<S>(
    contents: Seq<S>,
    capacity: nat,
    silence: S,
    samples: Seq<S>,
    lens: Seq<nat>,
)
    requires
        contents.len() + samples.len() <= capacity,
        total(lens) >= contents.len() + samples.len(),
    ensures
        after_write(contents, capacity, samples) == contents + samples,
        delivered_by(after_write(contents, capacity, samples), silence, lens).len() == total(lens),
        delivered_by(after_write(contents, capacity, samples), silence, lens).take(
            (contents.len() + samples.len()) as int,
        ) == contents + samples,
        forall|i: int|
            contents.len() + samples.len() <= i < total(lens) ==> delivered_by(
                after_write(contents, capacity, samples),
                silence,
                lens,
            )[i] == silence,
{
    let stored = after_write(contents, capacity, samples);
    assert(samples.take(samples.len() as int) =~= samples);
    assert(stored == contents + samples);
    lemma_reads_concatenate(stored, silence, lens);
    let out = delivered(stored, silence, total(lens));
    assert(out.take(stored.len() as int) =~= stored);
}

/// A write never disturbs what was buffered before it and never stores more
/// than the capacity allows.
pub proof fn lemma_write_keeps_unread<S>(contents: Seq<S>, capacity: nat, samples: Seq<S>)
    requires
        contents.len() <= capacity,
    ensures
        contents.is_prefix_of(after_write(contents, capacity, samples)),
        after_write(contents, capacity, samples).len() <= capacity,
        after_write(contents, capacity, samples).len() == contents.len() + accepted(
            contents.len(),
            capacity,
            samples.len(),
        ),
{
    let stored = after_write(contents, capacity, samples);
    assert(stored.take(contents.len() as int) =~= contents);
}

} // verus!
