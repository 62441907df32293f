//! Moving decoded audio into the ring buffer.
//!
//! The filler holds one chunk at a time and offers what is left of it to
//! the ring buffer. When the buffer takes only part, the driver waits a
//! little and pumps again; the next chunk is loaded only when the last
//! sample of this one is in. No sample is ever dropped or reordered.

use crate::frame::AudioChunk;
use crate::ring::accepted;
use crate::ring::after_write;
use crate::ring::AudioRingBuffer;
use vstd::prelude::*;

verus! {

/// What the driver of a filler does next.
#[derive(Clone, Copy, Debug, PartialEq, Eq, Structural)]
pub enum FillerAction {
    /// Wait for the next chunk and load it.
    Receive,
    /// The ring buffer is full: wait briefly, then pump again.
    Retry,
}

/// The chunk on its way into the ring buffer.
pub struct AudioBufferFiller<S> {
    pending: Vec<S>,
    offset: usize,
}

impl<S: Copy> AudioBufferFiller<S> {
    /// The offset lies inside the chunk.
    pub closed spec fn wf(&self) -> bool {
        self.offset <= self.pending@.len()
    }

    /// Samples of the loaded chunk that are not yet in the ring buffer, in
    /// order.
    pub closed spec fn remaining(&self) -> Seq<S> {
        self.pending@.skip(self.offset as int)
    }

    /// A filler with nothing to write.
    pub fn new() -> (filler: Self)
        ensures
            filler.wf(),
            filler.remaining() == Seq::<S>::empty(),
    {
        let filler = AudioBufferFiller { pending: Vec::new(), offset: 0 };
        assert(filler.remaining() =~= Seq::<S>::empty());
        filler
    }

    /// Whether every sample loaded so far is in the ring buffer.
    pub fn is_idle(&self) -> (idle: bool)
        requires
            self.wf(),
        ensures
            idle == (self.remaining().len() == 0),
    {
        self.offset == self.pending.len()
    }

    /// Number of loaded samples not yet in the ring buffer.
    pub fn backlog(&self) -> (n: usize)
        requires
            self.wf(),
        ensures
            n == self.remaining().len(),
    {
        self.pending.len() - self.offset
    }

    /// Loads the next chunk. A filler that still holds samples keeps them
    /// and hands the chunk back untouched.
    pub fn load(&mut self, chunk: AudioChunk<S>) -> (refused: Option<AudioChunk<S>>)
        requires
            old(self).wf(),
        ensures
            final(self).wf(),
            old(self).remaining().len() == 0 ==> refused is None && final(self).remaining()
                == chunk.samples@,
            old(self).remaining().len() > 0 ==> refused == Some(chunk) && final(self).remaining()
                == old(self).remaining(),
    {
        if self.offset == self.pending.len() {
            self.pending = chunk.samples;
            self.offset = 0;
            assert(self.remaining() =~= chunk.samples@);
            None
        } else {
            Some(chunk)
        }
    }

    /// Offers what is left of the chunk to `ring`. The samples the buffer
    /// takes leave the filler; the rest stay for the next pump.
    pub fn pump(&mut self, ring: &mut AudioRingBuffer<S>) -> (action: FillerAction)
        requires
            old(self).wf(),
            old(ring).wf(),
        ensures
            final(self).wf(),
            final(ring).wf(),
            final(ring).spec_capacity() == old(ring).spec_capacity(),
            final(ring).spec_silence() == old(ring).spec_silence(),
            final(ring)@ == after_write(
                old(ring)@,
                old(ring).spec_capacity(),
                old(self).remaining(),
            ),
            final(self).remaining() == old(self).remaining().skip(
                accepted(
                    old(ring)@.len(),
                    old(ring).spec_capacity(),
                    old(self).remaining().len(),
                ) as int,
            ),
            final(ring)@ + final(self).remaining() == old(ring)@ + old(self).remaining(),
            action == FillerAction::Receive <==> final(self).remaining().len() == 0,
    {
        let len: usize = self.pending.len();
        let rest = vstd::slice::slice_subrange(self.pending.as_slice(), self.offset, len);
        assert(rest@ =~= self.remaining());
        let n: usize = ring.write(rest);
        self.offset = self.offset + n;
        proof {
            let left = old(self).remaining();
            assert(self.remaining() =~= left.skip(n as int));
            assert(ring@ + self.remaining() =~= old(ring)@ + left) by {
                assert(left.take(n as int) + left.skip(n as int) =~= left);
            }
        }
        if self.offset == len {
            FillerAction::Receive
        } else {
            FillerAction::Retry
        }
    }
}

/// Samples still to be delivered after `pumps` pumps into a buffer that is
/// emptied by `drained[i]` samples before pump `i`.
pub open spec fn ring_after<S>(
    ring: Seq<S>,
    capacity: nat,
    left: Seq<S>,
    drained: Seq<nat>,
) -> (Seq<S>, Seq<S>)
    decreases drained.len(),
{
    if drained.len() == 0 {
        (ring, left)
    } else {
        let room = ring.skip(crate::ring::consumed(ring.len(), drained[0]) as int);
        let taken = accepted(room.len(), capacity, left.len());
        ring_after(
            after_write(room, capacity, left),
            capacity,
            left.skip(taken as int),
            drained.skip(1),
        )
    }
}

/// Everything the reader took out of the buffer over the same run, in
/// order.
pub open spec fn drained_out<S>(
    ring: Seq<S>,
    capacity: nat,
    left: Seq<S>,
    drained: Seq<nat>,
) -> Seq<S>
    decreases drained.len(),
{
    if drained.len() == 0 {
        Seq::empty()
    } else {
        let n = crate::ring::consumed(ring.len(), drained[0]);
        let room = ring.skip(n as int);
        let taken = accepted(room.len(), capacity, left.len());
        ring.take(n as int) + drained_out(
            after_write(room, capacity, left),
            capacity,
            left.skip(taken as int),
            drained.skip(1),
        )
    }
}

/// Retrying loses nothing. However the reader's draining and the filler's
/// pumps interleave, what the reader has taken, followed by what the buffer
/// holds, followed by what the filler still has, is always what the buffer
/// held at first followed by the whole chunk.
pub proof fn lemma_no_sample_is_lost<S>(
    ring: Seq<S>,
    capacity: nat,
    left: Seq<S>,
    drained: Seq<nat>,
)
    requires
        ring.len() <= capacity,
    ensures
        drained_out(ring, capacity, left, drained) + ring_after(ring, capacity, left, drained).0
            + ring_after(ring, capacity, left, drained).1 == ring + left,
        ring_after(ring, capacity, left, drained).0.len() <= capacity,
    decreases drained.len(),
{
    if drained.len() == 0 {
        assert(Seq::<S>::empty() + ring + left =~= ring + left);
    } else {
        let n = crate::ring::consumed(ring.len(), drained[0]);
        let room = ring.skip(n as int);
        let taken = accepted(room.len(), capacity, left.len());
        let next_ring = after_write(room, capacity, left);
        let next_left = left.skip(taken as int);
        lemma_no_sample_is_lost(next_ring, capacity, next_left, drained.skip(1));
        let out = drained_out(next_ring, capacity, next_left, drained.skip(1));
        let end = ring_after(next_ring, capacity, next_left, drained.skip(1));
        assert(next_ring + next_left =~= room + left) by {
            assert(left.take(taken as int) + left.skip(taken as int) =~= left);
        }
        assert(ring.take(n as int) + out + end.0 + end.1 =~= ring.take(n as int) + (out + end.0
            + end.1));
        assert(ring.take(n as int) + (room + left) =~= ring + left) by {
            assert(ring.take(n as int) + ring.skip(n as int) =~= ring);
        }
    }
}

} // verus!
