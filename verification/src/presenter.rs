//! Choosing the picture to show.
//!
//! The presenter keeps a short look-ahead queue of decoded frames. On every
//! tick it tops the queue up from the decoder's channel without waiting,
//! reads the playback clock, and steps through the frames that are already
//! due; the last of them becomes the picture on display. Nothing but the
//! clock moves it: when decoding falls behind, the frames that come late are
//! stepped over as soon as they arrive.

use crate::channel::try_take;
use crate::frame::VideoFrame;
use crate::time::ClockTime;
use crate::time::Timestamp;
use crossbeam_channel::Receiver;
use std::collections::VecDeque;
use vstd::prelude::*;

verus! {

/// Number of decoded frames the presenter buffers ahead by default.
pub const FRAME_BUFFER_SIZE: usize = 30;

/// Whether `frame` is due when the clock reads `now`.
pub open spec fn is_due(frame: VideoFrame, now: ClockTime) -> bool {
    frame.pts.seconds().le(now.seconds())
}

/// Number of frames at the head of `queue` that are due at `now`: the length
/// of the run that ends before the first frame that is not.
pub open spec fn due_count(queue: Seq<VideoFrame>, now: ClockTime) -> nat
    decreases queue.len(),
{
    if queue.len() == 0 || !is_due(queue[0], now) {
        0
    } else {
        1 + due_count(queue.skip(1), now)
    }
}

/// Whether the frames came in presentation order: none is due before one
/// that arrived earlier.
pub open spec fn in_order(arrivals: Seq<VideoFrame>) -> bool {
    forall|i: int, j: int|
        0 <= i <= j < arrivals.len() ==> (#[trigger] arrivals[i]).pts.seconds().le(
            (#[trigger] arrivals[j]).pts.seconds(),
        )
}

/// What a presenter has seen and shown.
pub struct PresenterView {
    /// Every frame that entered the look-ahead queue, in order of arrival.
    pub arrivals: Seq<VideoFrame>,
    /// How many of them have left the queue again.
    pub taken: nat,
    /// Look-ahead depth: the queue is topped up to this many frames.
    pub depth: nat,
    /// Picture shown before the first frame is due.
    pub placeholder: Seq<u8>,
}

impl PresenterView {
    /// Frames waiting in the look-ahead queue, oldest first.
    pub open spec fn queue(self) -> Seq<VideoFrame> {
        self.arrivals.skip(self.taken as int)
    }

    /// The frame on display, if one has been due yet.
    pub open spec fn current(self) -> Option<VideoFrame> {
        if self.taken == 0 {
            None
        } else {
            Some(self.arrivals[self.taken - 1])
        }
    }

    /// The bytes on display.
    pub open spec fn displayed(self) -> Seq<u8> {
        match self.current() {
            Some(frame) => frame.video_data@,
            None => self.placeholder,
        }
    }

    /// State after `frames` arrived.
    pub open spec fn received(self, frames: Seq<VideoFrame>) -> PresenterView {
        PresenterView { arrivals: self.arrivals + frames, ..self }
    }

    /// State after one received frame, or none, was handed over: a frame
    /// joins the queue.
    pub open spec fn accepted(self, got: Option<VideoFrame>) -> PresenterView {
        match got {
            Some(frame) => self.received(seq![frame]),
            None => self,
        }
    }

    /// State after the clock was read as `now`: every frame at the head of
    /// the queue that is due has left it.
    pub open spec fn advanced(self, now: ClockTime) -> PresenterView {
        PresenterView { taken: self.taken + due_count(self.queue(), now), ..self }
    }

    /// No frame that is due waits at the head of the queue.
    pub open spec fn settled(self, now: ClockTime) -> bool {
        self.queue().len() == 0 || !is_due(self.queue()[0], now)
    }
}

/// The run counted by [`due_count`] lies inside the queue, every frame of
/// it is due, and the frame after it, if there is one, is not.
pub proof fn lemma_due_count(queue: Seq<VideoFrame>, now: ClockTime)
    ensures
        due_count(queue, now) <= queue.len(),
        forall|i: int| 0 <= i < due_count(queue, now) ==> is_due(#[trigger] queue[i], now),
        due_count(queue, now) < queue.len() ==> !is_due(queue[due_count(queue, now) as int], now),
    decreases queue.len(),
{
    if queue.len() == 0 || !is_due(queue[0], now) {
    } else {
        let rest = queue.skip(1);
        lemma_due_count(rest, now);
        assert forall|i: int| 0 <= i < due_count(queue, now) implies is_due(
            #[trigger] queue[i],
            now,
        ) by {
            if i > 0 {
                assert(queue[i] == rest[i - 1]);
            }
        }
        if due_count(queue, now) < queue.len() {
            assert(queue[due_count(queue, now) as int] == rest[due_count(rest, now) as int]);
        }
    }
}

/// A frame that was due stays due: the clock only moves forward.
pub proof fn lemma_due_stays_due(frame: VideoFrame, earlier: ClockTime, now: ClockTime)
    requires
        frame.pts.wf(),
        earlier.wf(),
        now.wf(),
        is_due(frame, earlier),
        earlier.seconds().le(now.seconds()),
    ensures
        is_due(frame, now),
{
    frame.pts.seconds().lemma_le_transitive(earlier.seconds(), now.seconds());
}

/// The picture on display is the newest one that is due.
///
/// Take a presenter whose frames arrived in presentation order and whose
/// picture, if it shows one, is due at `now`. After it steps to `now`, the
/// frame on display is due at `now`, no frame it has ever received is both
/// due at `now` and later than the one on display, and a frame is on display
/// whenever any received frame is due.
pub proof fn lemma_shows_latest_due(before: PresenterView, now: ClockTime)
    requires
        before.taken <= before.arrivals.len(),
        forall|i: int| 0 <= i < before.arrivals.len() ==> (#[trigger] before.arrivals[i]).pts.wf(),
        now.wf(),
        in_order(before.arrivals),
        before.current() matches Some(frame) ==> is_due(frame, now),
    ensures
        before.advanced(now).taken <= before.arrivals.len(),
        before.advanced(now).settled(now),
        before.advanced(now).current() matches Some(frame) ==> is_due(frame, now) && forall|i: int|
            0 <= i < before.arrivals.len() && is_due(#[trigger] before.arrivals[i], now)
                ==> before.arrivals[i].pts.seconds().le(frame.pts.seconds()),
        (exists|i: int| 0 <= i < before.arrivals.len() && is_due(#[trigger] before.arrivals[i], now))
            ==> before.advanced(now).current() is Some,
{
    let arrivals = before.arrivals;
    let queue = before.queue();
    let after = before.advanced(now);
    lemma_due_count(queue, now);
    assert forall|i: int| after.taken <= i < arrivals.len() implies !is_due(
        #[trigger] arrivals[i],
        now,
    ) by {
        let first = arrivals[after.taken as int];
        assert(first == queue[due_count(queue, now) as int]);
        assert(first.pts.seconds().le(arrivals[i].pts.seconds()));
        now.seconds().lemma_lt_le_transitive(first.pts.seconds(), arrivals[i].pts.seconds());
    }
    if after.taken > 0 {
        let frame = arrivals[after.taken - 1];
        if after.taken > before.taken {
            assert(frame == queue[due_count(queue, now) - 1]);
        }
        assert forall|i: int|
            0 <= i < arrivals.len() && is_due(#[trigger] arrivals[i], now) implies arrivals[i].pts.seconds().le(
            frame.pts.seconds(),
        ) by {
            assert(i < after.taken);
        }
    }
}

/// Source of the picture to draw.
pub trait FrameProvider {
    /// The provider's internal bookkeeping is consistent.
    spec fn wf(&self) -> bool;

    /// The bytes it currently shows.
    spec fn displayed(&self) -> Seq<u8>;

    /// The bytes to draw when the clock reads `now`. Never waits.
    fn current_frame(&mut self, now: ClockTime) -> (bytes: &[u8])
        requires
            old(self).wf(),
        ensures
            final(self).wf(),
            bytes@ == final(self).displayed(),
    ;
}

/// A picture that never changes.
pub struct StaticImage {
    frame: Vec<u8>,
}

impl StaticImage {
    /// Shows `frame` forever.
    pub fn new(frame: Vec<u8>) -> (image: StaticImage)
        ensures
            image.displayed() == frame@,
    {
        StaticImage { frame }
    }
}

impl FrameProvider for StaticImage {
    open spec fn wf(&self) -> bool {
        true
    }

    closed spec fn displayed(&self) -> Seq<u8> {
        self.frame@
    }

    fn current_frame(&mut self, now: ClockTime) -> (bytes: &[u8])
        ensures
            final(self).displayed() == old(self).displayed(),
    {
        self.frame.as_slice()
    }
}

/// Presenter of decoded video, driven by the playback clock.
pub struct FramePresenter {
    frame_receiver: Receiver<VideoFrame>,
    frame_buffer: VecDeque<VideoFrame>,
    depth: usize,
    current_pts: Option<Timestamp>,
    current_frame: Vec<u8>,
    seen: Ghost<Seq<VideoFrame>>,
    shown: Ghost<nat>,
    placeholder: Ghost<Seq<u8>>,
}

impl View for FramePresenter {
    type V = PresenterView;

    closed spec fn view(&self) -> PresenterView {
        PresenterView {
            arrivals: self.seen@,
            taken: self.shown@,
            depth: self.depth as nat,
            placeholder: self.placeholder@,
        }
    }
}

impl FramePresenter {
    /// The queue holds exactly the arrivals not yet taken, and the picture
    /// on display is the last one taken.
    pub closed spec fn inv(&self) -> bool {
        &&& self.shown@ <= self.seen@.len()
        &&& self.frame_buffer@ == self.seen@.skip(self.shown@ as int)
        &&& self.current_pts == match self@.current() {
            Some(frame) => Some(frame.pts),
            None => None,
        }
        &&& self.current_frame@ == self@.displayed()
    }

    /// A well-formed presenter has taken no more frames than arrived.
    pub proof fn lemma_taken_bounded(&self)
        requires
            self.inv(),
        ensures
            self@.taken <= self@.arrivals.len(),
    {
    }

    /// A presenter that shows `placeholder` until the first frame from
    /// `frame_receiver` is due, and buffers up to `depth` frames ahead.
    pub fn new(frame_receiver: Receiver<VideoFrame>, depth: usize, placeholder: Vec<u8>) -> (p: Self)
        ensures
            p.inv(),
            p@ == (PresenterView {
                arrivals: Seq::empty(),
                taken: 0,
                depth: depth as nat,
                placeholder: placeholder@,
            }),
    {
        let ghost blank = placeholder@;
        let p = FramePresenter {
            frame_receiver,
            frame_buffer: VecDeque::new(),
            depth,
            current_pts: None,
            current_frame: placeholder,
            seen: Ghost(Seq::empty()),
            shown: Ghost(0),
            placeholder: Ghost(blank),
        };
        assert(p.frame_buffer@ =~= p.seen@.skip(0));
        p
    }

    /// Number of frames waiting in the look-ahead queue.
    pub fn buffered(&self) -> (n: usize)
        requires
            self.inv(),
        ensures
            n == self@.queue().len(),
    {
        self.frame_buffer.len()
    }

    /// Timestamp of the frame on display, or `None` while the placeholder is
    /// shown.
    pub fn current_pts(&self) -> (pts: Option<Timestamp>)
        requires
            self.inv(),
        ensures
            pts == match self@.current() {
                Some(frame) => Some(frame.pts),
                None => None,
            },
    {
        self.current_pts
    }

    /// Whether the look-ahead queue has room for another frame.
    pub fn wants_more(&self) -> (b: bool)
        requires
            self.inv(),
        ensures
            b == (self@.queue().len() < self@.depth),
    {
        self.frame_buffer.len() < self.depth
    }

    /// Takes the answer of one receive: a frame joins the end of the
    /// look-ahead queue. Returns whether another receive is worth trying,
    /// which it is when a frame came and the queue still has room.
    pub fn accept(&mut self, got: Option<VideoFrame>) -> (more: bool)
        requires
            old(self).inv(),
        ensures
            final(self).inv(),
            final(self)@ == old(self)@.accepted(got),
            more == (got is Some && final(self)@.queue().len() < final(self)@.depth),
    {
        match got {
            Some(frame) => {
                proof {
                    self.seen@ = self.seen@.push(frame);
                }
                self.frame_buffer.push_back(frame);
                proof {
                    assert(self.frame_buffer@ =~= self.seen@.skip(self.shown@ as int));
                    assert(self@.arrivals =~= old(self)@.arrivals + seq![frame]);
                }
                self.frame_buffer.len() < self.depth
            },
            None => false,
        }
    }

    /// Tops the look-ahead queue up from the channel, without waiting: frames
    /// are taken while the queue is short of its depth and the channel has
    /// one ready. What is on display does not change.
    pub fn refill(&mut self)
        requires
            old(self).inv(),
        ensures
            final(self).inv(),
            old(self)@.arrivals.is_prefix_of(final(self)@.arrivals),
            final(self)@.taken == old(self)@.taken,
            final(self)@.depth == old(self)@.depth,
            final(self)@.placeholder == old(self)@.placeholder,
            final(self)@.queue().len() <= old(self)@.depth || final(self)@ == old(self)@,
    {
        let mut more: bool = self.wants_more();
        while more
            invariant
                self.inv(),
                old(self)@.arrivals.is_prefix_of(self@.arrivals),
                self@.taken == old(self)@.taken,
                self@.depth == old(self)@.depth,
                self@.placeholder == old(self)@.placeholder,
                self@.queue().len() <= old(self)@.depth || self@ == old(self)@,
                more ==> self@.queue().len() < self@.depth,
                self@.depth - self@.queue().len() <= usize::MAX,
            decreases (if more { 1 + self@.depth - self@.queue().len() } else { 0 }),
        {
            let got = try_take(&self.frame_receiver);
            more = self.accept(got);
        }
    }

    /// Steps through the frames that are due at `now`: each leaves the
    /// queue, and the last of them becomes the picture on display. With none
    /// due, the picture stays.
    pub fn advance(&mut self, now: ClockTime)
        requires
            old(self).inv(),
        ensures
            final(self).inv(),
            final(self)@ == old(self)@.advanced(now),
            final(self)@.settled(now),
            final(self)@.queue().len() + due_count(old(self)@.queue(), now)
                == old(self)@.queue().len(),
    {
        proof {
            lemma_due_count(old(self)@.queue(), now);
        }
        loop
            invariant
                self.inv(),
                self@.arrivals == old(self)@.arrivals,
                self@.depth == old(self)@.depth,
                self@.placeholder == old(self)@.placeholder,
                self@.taken + due_count(self@.queue(), now) == old(self)@.taken + due_count(
                    old(self)@.queue(),
                    now,
                ),
            ensures
                self.inv(),
                self@ == old(self)@.advanced(now),
                self@.settled(now),
            decreases self@.queue().len(),
        {
            if self.frame_buffer.len() == 0 {
                break ;
            }
            let due: bool = self.frame_buffer[0].pts.is_due(now);
            if !due {
                break ;
            }
            let ghost queue = self@.queue();
            match self.frame_buffer.pop_front() {
                Some(frame) => {
                    self.current_pts = Some(frame.pts);
                    self.current_frame = frame.video_data;
                    proof {
                        self.shown@ = self.shown@ + 1;
                        assert(self.frame_buffer@ =~= self.seen@.skip(self.shown@ as int));
                        assert(self@.queue() =~= queue.skip(1));
                    }
                },
                None => {},
            }
        }
    }
}

impl FrameProvider for FramePresenter {
    open spec fn wf(&self) -> bool {
        self.inv()
    }

    open spec fn displayed(&self) -> Seq<u8> {
        self@.displayed()
    }

    /// One presentation tick: top up the queue, then show the newest frame
    /// that is due at `now`. A queue that was within the look-ahead depth
    /// stays within it.
    fn current_frame(&mut self, now: ClockTime) -> (bytes: &[u8])
        ensures
            old(self)@.arrivals.is_prefix_of(final(self)@.arrivals),
            old(self)@.queue().len() <= old(self)@.depth ==> final(self)@.queue().len()
                <= final(self)@.depth,
            final(self)@.depth == old(self)@.depth,
            final(self)@.placeholder == old(self)@.placeholder,
            final(self)@.taken == old(self)@.taken + due_count(
                final(self)@.arrivals.skip(old(self)@.taken as int),
                now,
            ),
            final(self)@.settled(now),
    {
        self.refill();
        self.advance(now);
        self.current_frame.as_slice()
    }
}

} // verus!
