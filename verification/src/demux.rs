//! Routing of container packets to the two decode workers.
//!
//! The demuxer reads packets in container order and forwards each to the
//! worker of its stream. Reading and sending are done by the thread that
//! drives it; what to do next is decided here. The driver performs the
//! action it is given and reports what came of it.

use vstd::prelude::*;

verus! {

/// Capacity of each packet queue between the demuxer and a decode worker.
pub const PACKET_QUEUE_SIZE: usize = 100;

/// Where a packet goes.
#[derive(Clone, Copy, Debug, PartialEq, Eq, Structural)]
pub enum Route {
    /// To the video decode worker.
    Video,
    /// To the audio decode worker.
    Audio,
    /// Nowhere: the packet belongs to a stream that is not played.
    Neither,
}

/// Why a session cannot start.
#[derive(Clone, Copy, Debug, PartialEq, Eq, Structural)]
pub enum StartError {
    /// The container has no video stream that can be decoded.
    NoVideoStream,
    /// The container has no audio stream that can be decoded.
    NoAudioStream,
}

/// What the demuxer is waiting for.
#[derive(Clone, Copy, Debug, PartialEq, Eq, Structural)]
pub enum DemuxState {
    /// The next packet of the container.
    Reading,
    /// The outcome of forwarding a packet.
    Forwarding,
    /// The outcome of sending the end marker to the video worker.
    MarkingVideo,
    /// The outcome of sending the end marker to the audio worker.
    MarkingAudio,
    /// Nothing: the demuxer has terminated.
    Stopped,
}

/// What the driver reports.
#[derive(Clone, Copy, Debug, PartialEq, Eq, Structural)]
pub enum DemuxEvent {
    /// A packet of stream `stream` was read.
    Packet { stream: usize },
    /// The container has no more packets.
    EndOfInput,
    /// The last send was taken by its channel.
    Delivered,
    /// The last send failed: the receiving worker is gone.
    ReceiverGone,
}

/// What the driver does next.
#[derive(Clone, Copy, Debug, PartialEq, Eq, Structural)]
pub enum DemuxAction {
    /// Read the next packet.
    Read,
    /// Send the packet just read to the worker of this route.
    Forward(Route),
    /// Send the end-of-stream marker to the worker of this route.
    Mark(Route),
    /// Terminate.
    Stop,
}

/// Route of a packet of stream `stream` when video is stream `video` and
/// audio is stream `audio`.
pub open spec fn route_of(stream: usize, video: usize, audio: usize) -> Route {
    if stream == video {
        Route::Video
    } else if stream == audio {
        Route::Audio
    } else {
        Route::Neither
    }
}

/// The demuxer's transition: the state after `event` and the action it
/// calls for.
///
/// A packet is forwarded by its route or, belonging to neither stream,
/// dropped. A failed forward stops the demuxer at once. The end of input is
/// followed by one end marker to each worker, video first, whether or not
/// the first could be delivered. A report that does not answer the action
/// in progress stops the demuxer.
pub open spec fn demux_step(state: DemuxState, event: DemuxEvent, video: usize, audio: usize) -> (
    DemuxState,
    DemuxAction,
) {
    match (state, event) {
        (DemuxState::Reading, DemuxEvent::Packet { stream }) => match route_of(
            stream,
            video,
            audio,
        ) {
            Route::Neither => (DemuxState::Reading, DemuxAction::Read),
            route => (DemuxState::Forwarding, DemuxAction::Forward(route)),
        },
        (DemuxState::Reading, DemuxEvent::EndOfInput) => (
            DemuxState::MarkingVideo,
            DemuxAction::Mark(Route::Video),
        ),
        (DemuxState::Forwarding, DemuxEvent::Delivered) => (DemuxState::Reading, DemuxAction::Read),
        (DemuxState::MarkingVideo, DemuxEvent::Delivered) | (
            DemuxState::MarkingVideo,
            DemuxEvent::ReceiverGone,
        ) => (DemuxState::MarkingAudio, DemuxAction::Mark(Route::Audio)),
        _ => (DemuxState::Stopped, DemuxAction::Stop),
    }
}

/// How far a demuxer has come: reading, then the video marker, then the
/// audio marker, then stopped.
pub open spec fn demux_rank(state: DemuxState) -> nat {
    match state {
        DemuxState::Reading | DemuxState::Forwarding => 0,
        DemuxState::MarkingVideo => 1,
        DemuxState::MarkingAudio => 2,
        DemuxState::Stopped => 3,
    }
}

/// Demuxer of one container.
#[derive(Debug)]
pub struct Demuxer {
    video_index: usize,
    audio_index: usize,
    state: DemuxState,
}

impl Demuxer {
    /// Index of the video stream.
    pub closed spec fn spec_video_index(&self) -> usize {
        self.video_index
    }

    /// Index of the audio stream.
    pub closed spec fn spec_audio_index(&self) -> usize {
        self.audio_index
    }

    /// What the demuxer is waiting for.
    pub closed spec fn spec_state(&self) -> DemuxState {
        self.state
    }

    /// A demuxer for a container whose best video and audio streams are the
    /// given ones; it is about to read the first packet. A container that
    /// lacks either stream cannot be played.
    pub fn new(video: Option<usize>, audio: Option<usize>) -> (r: Result<Demuxer, StartError>)
        ensures
            match r {
                Ok(d) => video == Some(d.spec_video_index()) && audio == Some(
                    d.spec_audio_index(),
                ) && d.spec_state() == DemuxState::Reading,
                Err(StartError::NoVideoStream) => video is None,
                Err(StartError::NoAudioStream) => video is Some && audio is None,
            },
    {
        match video {
            None => Err(StartError::NoVideoStream),
            Some(video_index) => match audio {
                None => Err(StartError::NoAudioStream),
                Some(audio_index) => Ok(
                    Demuxer { video_index, audio_index, state: DemuxState::Reading },
                ),
            },
        }
    }

    /// Index of the video stream.
    #[verifier::when_used_as_spec(spec_video_index)]
    pub fn video_index(&self) -> (i: usize)
        ensures
            i == self.spec_video_index(),
    {
        self.video_index
    }

    /// Index of the audio stream.
    #[verifier::when_used_as_spec(spec_audio_index)]
    pub fn audio_index(&self) -> (i: usize)
        ensures
            i == self.spec_audio_index(),
    {
        self.audio_index
    }

    /// What the demuxer is waiting for.
    #[verifier::when_used_as_spec(spec_state)]
    pub fn state(&self) -> (s: DemuxState)
        ensures
            s == self.spec_state(),
    {
        self.state
    }

    /// Where a packet of stream `stream` goes.
    pub fn route(&self, stream: usize) -> (r: Route)
        ensures
            r == route_of(stream, self.spec_video_index(), self.spec_audio_index()),
    {
        if stream == self.video_index {
            Route::Video
        } else if stream == self.audio_index {
            Route::Audio
        } else {
            Route::Neither
        }
    }

    /// Takes the driver's report and says what to do next.
    pub fn step(&mut self, event: DemuxEvent) -> (action: DemuxAction)
        ensures
            (final(self).spec_state(), action) == demux_step(
                old(self).spec_state(),
                event,
                old(self).spec_video_index(),
                old(self).spec_audio_index(),
            ),
            final(self).spec_video_index() == old(self).spec_video_index(),
            final(self).spec_audio_index() == old(self).spec_audio_index(),
    {
        let (next, action) = match self.state {
            DemuxState::Reading => match event {
                DemuxEvent::Packet { stream } => match self.route(stream) {
                    Route::Neither => (DemuxState::Reading, DemuxAction::Read),
                    Route::Video => (DemuxState::Forwarding, DemuxAction::Forward(Route::Video)),
                    Route::Audio => (DemuxState::Forwarding, DemuxAction::Forward(Route::Audio)),
                },
                DemuxEvent::EndOfInput => (
                    DemuxState::MarkingVideo,
                    DemuxAction::Mark(Route::Video),
                ),
                _ => (DemuxState::Stopped, DemuxAction::Stop),
            },
            DemuxState::Forwarding => match event {
                DemuxEvent::Delivered => (DemuxState::Reading, DemuxAction::Read),
                _ => (DemuxState::Stopped, DemuxAction::Stop),
            },
            DemuxState::MarkingVideo => match event {
                DemuxEvent::Delivered | DemuxEvent::ReceiverGone => (
                    DemuxState::MarkingAudio,
                    DemuxAction::Mark(Route::Audio),
                ),
                _ => (DemuxState::Stopped, DemuxAction::Stop),
            },
            DemuxState::MarkingAudio => (DemuxState::Stopped, DemuxAction::Stop),
            DemuxState::Stopped => (DemuxState::Stopped, DemuxAction::Stop),
        };
        self.state = next;
        action
    }
}

/// State reached from `state` after the reports `events`, in order.
pub open spec fn demux_run(state: DemuxState, events: Seq<DemuxEvent>, video: usize, audio: usize) -> DemuxState
    decreases events.len(),
{
    if events.len() == 0 {
        state
    } else {
        demux_run(demux_step(state, events[0], video, audio).0, events.skip(1), video, audio)
    }
}

/// Number of end markers for `route` called for while taking the reports
/// `events`, in order, from `state`.
pub open spec fn markers_sent(
    state: DemuxState,
    events: Seq<DemuxEvent>,
    video: usize,
    audio: usize,
    route: Route,
) -> nat
    decreases events.len(),
{
    if events.len() == 0 {
        0
    } else {
        let (next, action) = demux_step(state, events[0], video, audio);
        let here: nat = if action == DemuxAction::Mark(route) {
            1
        } else {
            0
        };
        here + markers_sent(next, events.skip(1), video, audio, route)
    }
}

/// A demuxer never goes back: each step leaves it where it was or further
/// on, and a stopped demuxer stays stopped and only ever says to stop.
pub proof fn lemma_demux_progress(state: DemuxState, event: DemuxEvent, video: usize, audio: usize)
    ensures
        demux_rank(demux_step(state, event, video, audio).0) >= demux_rank(state),
        state == DemuxState::Stopped ==> demux_step(state, event, video, audio) == (
            DemuxState::Stopped,
            DemuxAction::Stop,
        ),
        demux_step(state, event, video, audio).1 == DemuxAction::Stop <==> demux_step(
            state,
            event,
            video,
            audio,
        ).0 == DemuxState::Stopped,
{
}

/// A send that fails while packets are being forwarded stops the demuxer at
/// once, with no further send.
pub proof fn lemma_failed_forward_stops(video: usize, audio: usize)
    ensures
        demux_step(DemuxState::Forwarding, DemuxEvent::ReceiverGone, video, audio) == (
            DemuxState::Stopped,
            DemuxAction::Stop,
        ),
{
}

/// Each worker is sent the end marker at most once over any run, and a run
/// that has got past a marker sent exactly one: the video marker is behind
/// every demuxer that is marking audio, and both are behind every demuxer
/// that stopped after the end of input.
pub proof fn lemma_markers_once(
    state: DemuxState,
    events: Seq<DemuxEvent>,
    video: usize,
    audio: usize,
)
    ensures
        demux_rank(demux_run(state, events, video, audio)) >= demux_rank(state),
        markers_sent(state, events, video, audio, Route::Neither) == 0,
        markers_sent(state, events, video, audio, Route::Video) <= 1,
        markers_sent(state, events, video, audio, Route::Audio) <= 1,
        demux_rank(state) >= 1 ==> markers_sent(state, events, video, audio, Route::Video) == 0,
        demux_rank(state) >= 2 ==> markers_sent(state, events, video, audio, Route::Audio) == 0,
        demux_rank(state) == 0 && demux_rank(demux_run(state, events, video, audio)) == 2
            ==> markers_sent(state, events, video, audio, Route::Video) == 1,
        demux_rank(state) <= 1 && demux_rank(demux_run(state, events, video, audio)) == 2
            ==> markers_sent(state, events, video, audio, Route::Audio) == 1,
        markers_sent(state, events, video, audio, Route::Audio) == 1 ==> demux_rank(state) == 1
            || markers_sent(state, events, video, audio, Route::Video) == 1,
    decreases events.len(),
{
    if events.len() > 0 {
        let next = demux_step(state, events[0], video, audio).0;
        lemma_markers_once(next, events.skip(1), video, audio);
    }
}

} // verus!
