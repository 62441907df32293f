//! The decode workers.
//!
//! A worker takes packets from the demuxer, feeds them to its decoder, and
//! publishes every unit the decoder gives back, stamped and packed. The
//! decoder and the channels belong to the thread that drives the worker;
//! the worker decides what that thread does next, and builds what it
//! publishes. The driver performs the action it is given and reports what
//! came of it.
//!
//! A unit that cannot be decoded or converted costs only itself: the worker
//! goes on with the next. At the end of the stream the worker has the
//! decoder flushed, and the audio worker its resampler too, and stops only
//! when they have nothing left.

use crate::frame::is_packed;
use crate::frame::is_split;
use crate::frame::plane_covers;
use crate::frame::row_bytes;
use crate::frame::split_packed_samples;
use crate::frame::video_frame_to_rgba_packed;
use crate::frame::AudioChunk;
use crate::frame::VideoFrame;
use crate::time::next_ticks;
use crate::time::stamp;
use crate::time::TimeBase;
use crate::time::Timestamp;
use vstd::prelude::*;

verus! {

/// Capacity of the queue of decoded audio chunks.
pub const AUDIO_QUEUE_SIZE: usize = 1000;

/// What a worker is waiting for.
#[derive(Clone, Copy, Debug, PartialEq, Eq, Structural)]
pub enum WorkerState {
    /// The next packet, or the end of the stream.
    Receiving,
    /// The decoder's answer to a packet.
    Feeding,
    /// The decoder's answer to the request to flush.
    Finishing,
    /// The next unit from the decoder; `last` once the stream has ended.
    Draining { last: bool },
    /// The next unit from the resampler's backlog.
    Flushing,
    /// Nothing: the worker has terminated.
    Finished,
}

/// What the driver reports.
#[derive(Clone, Copy, Debug, PartialEq, Eq, Structural)]
pub enum WorkerEvent {
    /// A packet arrived.
    Packet,
    /// The end marker arrived, or the packet channel was closed.
    EndOfStream,
    /// The decoder took what it was given.
    Fed,
    /// The decoder refused what it was given.
    Rejected,
    /// A unit was produced and sent downstream.
    Published,
    /// A unit was produced but could not be converted, and was dropped.
    Skipped,
    /// Nothing more can be produced for now.
    Exhausted,
    /// A unit could not be sent: the consumer is gone.
    Disconnected,
}

/// What the driver does next.
#[derive(Clone, Copy, Debug, PartialEq, Eq, Structural)]
pub enum WorkerAction {
    /// Wait for the next packet.
    Receive,
    /// Give the packet to the decoder.
    Feed,
    /// Tell the decoder that the stream has ended.
    Finish,
    /// Ask the decoder for its next unit, convert it and send it.
    Pull,
    /// Ask the resampler for what it still holds, and send it.
    PullResampler,
    /// Terminate.
    Stop,
}

/// A worker's transition: the state after `event` and the action it calls
/// for. `resamples` tells the audio worker, which has a resampler to flush,
/// from the video worker.
///
/// Whatever the decoder says to a packet, the worker goes on to drain it.
/// Whether a unit was sent or dropped, the worker asks for the next. When
/// the decoder runs dry the worker waits for the next packet, or, after the
/// end of the stream, turns to the resampler's backlog and stops when that
/// is empty too. A consumer that is gone stops the worker, and so does a
/// report that does not answer the action in progress.
pub open spec fn worker_step(state: WorkerState, event: WorkerEvent, resamples: bool) -> (
    WorkerState,
    WorkerAction,
) {
    match (state, event) {
        (WorkerState::Receiving, WorkerEvent::Packet) => (
            WorkerState::Feeding,
            WorkerAction::Feed,
        ),
        (WorkerState::Receiving, WorkerEvent::EndOfStream) => (
            WorkerState::Finishing,
            WorkerAction::Finish,
        ),
        (WorkerState::Feeding, WorkerEvent::Fed) | (WorkerState::Feeding, WorkerEvent::Rejected) => (
            WorkerState::Draining { last: false },
            WorkerAction::Pull,
        ),
        (WorkerState::Finishing, WorkerEvent::Fed) | (
            WorkerState::Finishing,
            WorkerEvent::Rejected,
        ) => (WorkerState::Draining { last: true }, WorkerAction::Pull),
        (WorkerState::Draining { last }, WorkerEvent::Published) | (
            WorkerState::Draining { last },
            WorkerEvent::Skipped,
        ) => (WorkerState::Draining { last }, WorkerAction::Pull),
        (WorkerState::Draining { last }, WorkerEvent::Exhausted) => if !last {
            (WorkerState::Receiving, WorkerAction::Receive)
        } else if resamples {
            (WorkerState::Flushing, WorkerAction::PullResampler)
        } else {
            (WorkerState::Finished, WorkerAction::Stop)
        },
        (WorkerState::Flushing, WorkerEvent::Published) | (
            WorkerState::Flushing,
            WorkerEvent::Skipped,
        ) => (WorkerState::Flushing, WorkerAction::PullResampler),
        _ => (WorkerState::Finished, WorkerAction::Stop),
    }
}

/// The transition of [`worker_step`], computed.
fn transition(state: WorkerState, event: WorkerEvent, resamples: bool) -> (r: (
    WorkerState,
    WorkerAction,
))
    ensures
        r == worker_step(state, event, resamples),
{
    let stop = (WorkerState::Finished, WorkerAction::Stop);
    match state {
        WorkerState::Receiving => match event {
            WorkerEvent::Packet => (WorkerState::Feeding, WorkerAction::Feed),
            WorkerEvent::EndOfStream => (WorkerState::Finishing, WorkerAction::Finish),
            _ => stop,
        },
        WorkerState::Feeding => match event {
            WorkerEvent::Fed | WorkerEvent::Rejected => (
                WorkerState::Draining { last: false },
                WorkerAction::Pull,
            ),
            _ => stop,
        },
        WorkerState::Finishing => match event {
            WorkerEvent::Fed | WorkerEvent::Rejected => (
                WorkerState::Draining { last: true },
                WorkerAction::Pull,
            ),
            _ => stop,
        },
        WorkerState::Draining { last } => match event {
            WorkerEvent::Published | WorkerEvent::Skipped => (
                WorkerState::Draining { last },
                WorkerAction::Pull,
            ),
            WorkerEvent::Exhausted => if !last {
                (WorkerState::Receiving, WorkerAction::Receive)
            } else if resamples {
                (WorkerState::Flushing, WorkerAction::PullResampler)
            } else {
                stop
            },
            _ => stop,
        },
        WorkerState::Flushing => match event {
            WorkerEvent::Published | WorkerEvent::Skipped => (
                WorkerState::Flushing,
                WorkerAction::PullResampler,
            ),
            _ => stop,
        },
        WorkerState::Finished => stop,
    }
}

/// What the driver does with what a flushed resampler handed out.
#[derive(Clone, Copy, Debug, PartialEq, Eq, Structural)]
pub enum DrainStep {
    /// Build the chunk, send it, and report what came of it.
    Publish,
    /// Nothing came out this time: report the unit as skipped and ask again.
    Skip,
    /// Nothing came out and nothing is left: report the resampler exhausted.
    Exhausted,
}

/// What [`after_drain`] decides.
pub open spec fn drain_step(failed: bool, samples: usize, more: bool) -> DrainStep {
    if failed {
        DrainStep::Exhausted
    } else if samples > 0 {
        DrainStep::Publish
    } else if more {
        DrainStep::Skip
    } else {
        DrainStep::Exhausted
    }
}

/// Decides what becomes of one answer of the flushed resampler: whether it
/// `failed`, how many `samples` per channel it handed out, and whether it
/// says that it holds `more`.
///
/// Samples that came out are published even when the resampler says that
/// nothing is left behind them, so that the tail of the stream is heard. A
/// resampler that failed has handed out nothing that can be used.
pub fn after_drain(failed: bool, samples: usize, more: bool) -> (step: DrainStep)
    ensures
        step == drain_step(failed, samples, more),
{
    if failed {
        DrainStep::Exhausted
    } else if samples > 0 {
        DrainStep::Publish
    } else if more {
        DrainStep::Skip
    } else {
        DrainStep::Exhausted
    }
}

/// Worker that turns video packets into packed, stamped pictures of one
/// fixed size.
#[derive(Debug)]
pub struct VideoDecodeWorker {
    state: WorkerState,
    time_base: TimeBase,
    width: u32,
    height: u32,
    last: Option<i64>,
}

impl VideoDecodeWorker {
    /// What the worker is waiting for.
    pub closed spec fn spec_state(&self) -> WorkerState {
        self.state
    }

    /// Time base of the video stream.
    pub closed spec fn spec_time_base(&self) -> TimeBase {
        self.time_base
    }

    /// Width of every published picture, in pixels.
    pub closed spec fn spec_width(&self) -> u32 {
        self.width
    }

    /// Height of every published picture, in pixels.
    pub closed spec fn spec_height(&self) -> u32 {
        self.height
    }

    /// Tick count of the last picture built, if one was.
    pub closed spec fn spec_last(&self) -> Option<i64> {
        self.last
    }

    /// A worker for a stream with time base `time_base` whose pictures are
    /// scaled to `width` by `height` pixels; it is about to wait for the
    /// first packet, and has built no picture yet.
    pub fn new(time_base: TimeBase, width: u32, height: u32) -> (w: Self)
        ensures
            w.spec_state() == WorkerState::Receiving,
            w.spec_time_base() == time_base,
            w.spec_width() == width,
            w.spec_height() == height,
            w.spec_last() is None,
    {
        VideoDecodeWorker { state: WorkerState::Receiving, time_base, width, height, last: None }
    }

    /// What the worker is waiting for.
    #[verifier::when_used_as_spec(spec_state)]
    pub fn state(&self) -> (s: WorkerState)
        ensures
            s == self.spec_state(),
    {
        self.state
    }

    /// Tick count of the last picture built, if one was.
    #[verifier::when_used_as_spec(spec_last)]
    pub fn last(&self) -> (t: Option<i64>)
        ensures
            t == self.spec_last(),
    {
        self.last
    }

    /// Takes the driver's report and says what to do next.
    pub fn step(&mut self, event: WorkerEvent) -> (action: WorkerAction)
        ensures
            (final(self).spec_state(), action) == worker_step(
                old(self).spec_state(),
                event,
                false,
            ),
            final(self).spec_time_base() == old(self).spec_time_base(),
            final(self).spec_width() == old(self).spec_width(),
            final(self).spec_height() == old(self).spec_height(),
            final(self).spec_last() == old(self).spec_last(),
    {
        let (next, action) = transition(self.state, event, false);
        self.state = next;
        action
    }

    /// Builds the picture to publish from a decoded, scaled image: its rows
    /// packed out of the plane `plane`, whose rows lie `stride` bytes apart,
    /// and its stamp, which is the native timestamp unless that is missing
    /// or lies before the stamp of the picture built last. The stamp is
    /// never before that of the picture built last.
    ///
    /// Returns `None`, and the picture is skipped and leaves no trace, when
    /// the plane does not hold a picture of the worker's size.
    pub fn frame(&mut self, native_pts: Option<i64>, plane: &[u8], stride: usize) -> (r: Option<
        VideoFrame,
    >)
        ensures
            r is Some <==> plane_covers(
                plane@.len(),
                stride as nat,
                old(self).spec_width() as nat,
                old(self).spec_height() as nat,
            ) && row_bytes(old(self).spec_width() as nat) * old(self).spec_height() <= usize::MAX,
            r matches Some(f) ==> f.pts == stamp(
                next_ticks(old(self).spec_last(), native_pts),
                old(self).spec_time_base(),
            ) && is_packed(
                f.video_data@,
                plane@,
                stride as nat,
                old(self).spec_width() as nat,
                old(self).spec_height() as nat,
            ),
            r matches Some(f) ==> (old(self).spec_last() matches Some(l) ==> stamp(
                l,
                old(self).spec_time_base(),
            ).seconds().le(f.pts.seconds())),
            final(self).spec_last() == if r is Some {
                Some(next_ticks(old(self).spec_last(), native_pts))
            } else {
                old(self).spec_last()
            },
            final(self).spec_state() == old(self).spec_state(),
            final(self).spec_time_base() == old(self).spec_time_base(),
            final(self).spec_width() == old(self).spec_width(),
            final(self).spec_height() == old(self).spec_height(),
    {
        match video_frame_to_rgba_packed(plane, stride, self.width, self.height) {
            Some(video_data) => {
                let pts = Timestamp::following(self.last, native_pts, self.time_base);
                self.last = Some(pts.ticks());
                Some(VideoFrame { pts, video_data })
            },
            None => None,
        }
    }
}

/// Worker that turns audio packets into stamped chunks of interleaved
/// samples in the output format.
#[derive(Debug)]
pub struct AudioDecodeWorker {
    state: WorkerState,
    time_base: TimeBase,
    channels: u16,
    last: Option<i64>,
}

impl AudioDecodeWorker {
    /// What the worker is waiting for.
    pub closed spec fn spec_state(&self) -> WorkerState {
        self.state
    }

    /// Time base of the audio stream.
    pub closed spec fn spec_time_base(&self) -> TimeBase {
        self.time_base
    }

    /// Number of output channels.
    pub closed spec fn spec_channels(&self) -> u16 {
        self.channels
    }

    /// Tick count of the last chunk built, if one was.
    pub closed spec fn spec_last(&self) -> Option<i64> {
        self.last
    }

    /// A worker for a stream with time base `time_base` that is resampled
    /// to `channels` output channels; it is about to wait for the first
    /// packet, and has built no chunk yet.
    pub fn new(time_base: TimeBase, channels: u16) -> (w: Self)
        ensures
            w.spec_state() == WorkerState::Receiving,
            w.spec_time_base() == time_base,
            w.spec_channels() == channels,
            w.spec_last() is None,
    {
        AudioDecodeWorker { state: WorkerState::Receiving, time_base, channels, last: None }
    }

    /// What the worker is waiting for.
    #[verifier::when_used_as_spec(spec_state)]
    pub fn state(&self) -> (s: WorkerState)
        ensures
            s == self.spec_state(),
    {
        self.state
    }

    /// Tick count of the last chunk built, if one was.
    #[verifier::when_used_as_spec(spec_last)]
    pub fn last(&self) -> (t: Option<i64>)
        ensures
            t == self.spec_last(),
    {
        self.last
    }

    /// Takes the driver's report and says what to do next.
    pub fn step(&mut self, event: WorkerEvent) -> (action: WorkerAction)
        ensures
            (final(self).spec_state(), action) == worker_step(old(self).spec_state(), event, true),
            final(self).spec_time_base() == old(self).spec_time_base(),
            final(self).spec_channels() == old(self).spec_channels(),
            final(self).spec_last() == old(self).spec_last(),
    {
        let (next, action) = transition(self.state, event, true);
        self.state = next;
        action
    }

    /// Builds the chunk to publish from a resampled buffer that holds
    /// `samples` samples per channel: the sample words cut out of `bytes`,
    /// and its stamp, which is the native timestamp of the decoded unit
    /// unless that is missing or lies before the stamp of the chunk built
    /// last. The stamp is never before that of the chunk built last.
    ///
    /// Returns `None`, and the chunk is skipped and leaves no trace, when
    /// `bytes` is shorter than the sample count claims.
    pub fn chunk(&mut self, native_pts: Option<i64>, bytes: &[u8], samples: usize) -> (r: Option<
        AudioChunk<[u8; 4]>,
    >)
        ensures
            r is Some <==> samples * old(self).spec_channels() * 4 <= bytes@.len(),
            r matches Some(c) ==> c.pts == stamp(
                next_ticks(old(self).spec_last(), native_pts),
                old(self).spec_time_base(),
            ) && is_split(c.samples@, bytes@, (samples * old(self).spec_channels()) as nat),
            r matches Some(c) ==> (old(self).spec_last() matches Some(l) ==> stamp(
                l,
                old(self).spec_time_base(),
            ).seconds().le(c.pts.seconds())),
            final(self).spec_last() == if r is Some {
                Some(next_ticks(old(self).spec_last(), native_pts))
            } else {
                old(self).spec_last()
            },
            final(self).spec_state() == old(self).spec_state(),
            final(self).spec_time_base() == old(self).spec_time_base(),
            final(self).spec_channels() == old(self).spec_channels(),
    {
        match split_packed_samples(bytes, samples, self.channels) {
            Some(words) => {
                let pts = Timestamp::following(self.last, native_pts, self.time_base);
                self.last = Some(pts.ticks());
                Some(AudioChunk { pts, samples: words })
            },
            None => None,
        }
    }

    /// Builds the chunk to publish from what the resampler gave up when it
    /// was flushed. Such a chunk comes from no decoded unit: it is stamped
    /// like the chunk built last, and with tick zero when there was none.
    pub fn flushed_chunk(&mut self, bytes: &[u8], samples: usize) -> (r: Option<
        AudioChunk<[u8; 4]>,
    >)
        ensures
            r is Some <==> samples * old(self).spec_channels() * 4 <= bytes@.len(),
            r matches Some(c) ==> c.pts == stamp(
                next_ticks(old(self).spec_last(), None),
                old(self).spec_time_base(),
            ) && is_split(c.samples@, bytes@, (samples * old(self).spec_channels()) as nat),
            r matches Some(c) ==> (old(self).spec_last() matches Some(l) ==> c.pts == stamp(
                l,
                old(self).spec_time_base(),
            )),
            final(self).spec_last() == if r is Some {
                Some(next_ticks(old(self).spec_last(), None))
            } else {
                old(self).spec_last()
            },
            final(self).spec_state() == old(self).spec_state(),
            final(self).spec_time_base() == old(self).spec_time_base(),
            final(self).spec_channels() == old(self).spec_channels(),
    {
        self.chunk(None, bytes, samples)
    }
}

/// State reached from `state` after the reports `events`, in order.
pub open spec fn worker_run(state: WorkerState, events: Seq<WorkerEvent>, resamples: bool) -> WorkerState
    decreases events.len(),
{
    if events.len() == 0 {
        state
    } else {
        worker_run(worker_step(state, events[0], resamples).0, events.skip(1), resamples)
    }
}

/// A worker says to stop exactly when it terminates, and a terminated
/// worker stays so.
pub proof fn lemma_worker_stops_for_good(state: WorkerState, event: WorkerEvent, resamples: bool)
    ensures
        worker_step(state, event, resamples).1 == WorkerAction::Stop <==> worker_step(
            state,
            event,
            resamples,
        ).0 == WorkerState::Finished,
        state == WorkerState::Finished ==> worker_step(state, event, resamples).0
            == WorkerState::Finished,
{
}

/// One bad unit costs only itself: a packet the decoder refuses, or a unit
/// that cannot be converted, leaves the worker running and asking for more.
pub proof fn lemma_unit_errors_are_isolated(last: bool, resamples: bool)
    ensures
        worker_step(WorkerState::Feeding, WorkerEvent::Rejected, resamples) == worker_step(
            WorkerState::Feeding,
            WorkerEvent::Fed,
            resamples,
        ),
        worker_step(WorkerState::Draining { last }, WorkerEvent::Skipped, resamples) == (
            WorkerState::Draining { last },
            WorkerAction::Pull,
        ),
        worker_step(WorkerState::Flushing, WorkerEvent::Skipped, true) == (
            WorkerState::Flushing,
            WorkerAction::PullResampler,
        ),
{
}

/// Whether `event` is a report from a driver whose consumer is still there
/// and that answers the action in progress in `state`.
pub open spec fn answers(state: WorkerState, event: WorkerEvent) -> bool {
    match state {
        WorkerState::Receiving => event == WorkerEvent::Packet || event
            == WorkerEvent::EndOfStream,
        WorkerState::Feeding | WorkerState::Finishing => event == WorkerEvent::Fed || event
            == WorkerEvent::Rejected,
        WorkerState::Draining { .. } | WorkerState::Flushing => event == WorkerEvent::Published
            || event == WorkerEvent::Skipped || event == WorkerEvent::Exhausted,
        WorkerState::Finished => false,
    }
}

/// Nothing is left behind at the end of the stream: while the consumer is
/// there and the driver answers what it is asked, the worker terminates
/// only on the report that its last source is exhausted. That source is
/// the resampler's backlog, or, for a worker without a resampler, the
/// flushed decoder.
pub proof fn lemma_flush_is_complete(state: WorkerState, event: WorkerEvent, resamples: bool)
    requires
        answers(state, event),
        worker_step(state, event, resamples).0 == WorkerState::Finished,
    ensures
        event == WorkerEvent::Exhausted,
        state == WorkerState::Flushing || (!resamples && state == (WorkerState::Draining {
            last: true,
        })),
{
}

/// The resampler is flushed only after the stream has ended and the
/// flushed decoder has run dry, the decoder is flushed only on the end of
/// the stream, and a worker without a resampler never starts to flush one.
pub proof fn lemma_flush_order(state: WorkerState, event: WorkerEvent, resamples: bool)
    ensures
        worker_step(state, event, resamples).1 == WorkerAction::PullResampler ==> state
            == WorkerState::Flushing || (resamples && state == (WorkerState::Draining {
            last: true,
        }) && event == WorkerEvent::Exhausted),
        worker_step(state, event, resamples).1 == WorkerAction::Finish ==> state
            == WorkerState::Receiving && event == WorkerEvent::EndOfStream,
        worker_step(state, event, resamples).0 == (WorkerState::Draining { last: true }) ==> state
            == WorkerState::Finishing || state == (WorkerState::Draining { last: true }),
        worker_step(state, event, resamples).0 == WorkerState::Flushing ==> state
            == WorkerState::Flushing || (resamples && state == (WorkerState::Draining {
            last: true,
        }) && event == WorkerEvent::Exhausted),
{
}

} // verus!
