//! What is settled once, when a playback session starts: the size pictures
//! are scaled to, how far each stage may run ahead of the next, and how
//! much audio is buffered in front of the device.

use crate::demux::PACKET_QUEUE_SIZE;
use crate::output::AudioOutput;
use crate::presenter::FRAME_BUFFER_SIZE;
use crate::worker::AUDIO_QUEUE_SIZE;
use vstd::prelude::*;

verus! {

/// Audio buffered in front of the device by default, in milliseconds.
pub const RING_BUFFER_MILLIS: u32 = 1000;

/// The parameters of a session. None of them changes while it runs.
#[derive(Clone, Copy, Debug, PartialEq, Eq, Structural)]
pub struct PlaybackConfig {
    /// Width every picture is scaled to, in pixels.
    pub width: u32,
    /// Height every picture is scaled to, in pixels.
    pub height: u32,
    /// Frames the presenter buffers ahead.
    pub look_ahead: usize,
    /// Capacity of each packet queue.
    pub packet_queue: usize,
    /// Capacity of the queue of decoded frames.
    pub frame_queue: usize,
    /// Capacity of the queue of decoded audio chunks.
    pub chunk_queue: usize,
    /// Audio buffered in front of the device, in milliseconds.
    pub ring_millis: u32,
}

/// Samples in `millis` milliseconds of audio at `rate` frames per second of
/// `channels` channels, rounded down.
pub open spec fn samples_in(rate: u32, channels: u16, millis: u32) -> nat {
    ((rate as nat * channels as nat * millis as nat) / 1000) as nat
}

/// Bytes of a picture of `width` by `height` pixels, four bytes each.
pub open spec fn picture_bytes(width: u32, height: u32) -> nat {
    width as nat * height as nat * 4
}

impl PlaybackConfig {
    /// The configuration for pictures of `width` by `height` pixels with
    /// the default queue depths and buffer length.
    pub fn new(width: u32, height: u32) -> (config: Self)
        ensures
            config == (PlaybackConfig {
                width,
                height,
                look_ahead: FRAME_BUFFER_SIZE,
                packet_queue: PACKET_QUEUE_SIZE,
                frame_queue: FRAME_BUFFER_SIZE,
                chunk_queue: AUDIO_QUEUE_SIZE,
                ring_millis: RING_BUFFER_MILLIS,
            }),
    {
        PlaybackConfig {
            width,
            height,
            look_ahead: FRAME_BUFFER_SIZE,
            packet_queue: PACKET_QUEUE_SIZE,
            frame_queue: FRAME_BUFFER_SIZE,
            chunk_queue: AUDIO_QUEUE_SIZE,
            ring_millis: RING_BUFFER_MILLIS,
        }
    }

    /// The all-black picture shown before the first frame is due, or `None`
    /// when a picture of the configured size does not fit in memory.
    pub fn black_frame(&self) -> (r: Option<Vec<u8>>)
        ensures
            r is Some <==> picture_bytes(self.width, self.height) <= usize::MAX,
            r matches Some(frame) ==> frame@.len() == picture_bytes(self.width, self.height)
                && forall|i: int| 0 <= i < frame@.len() ==> frame@[i] == 0,
    {
        assert(0 <= self.width * self.height <= 0xffff_ffff * 0xffff_ffff) by (nonlinear_arith)
            requires
                0 <= self.width <= 0xffff_ffff,
                0 <= self.height <= 0xffff_ffff,
        ;
        let bytes: u128 = (self.width as u128) * (self.height as u128) * 4;
        if bytes > usize::MAX as u128 {
            return None;
        }
        let len: usize = bytes as usize;
        let mut frame: Vec<u8> = Vec::with_capacity(len);
        let mut i: usize = 0;
        while i < len
            invariant
                i <= len,
                frame@.len() == i,
                forall|j: int| 0 <= j < i ==> frame@[j] == 0,
            decreases len - i,
        {
            frame.push(0);
            i += 1;
        }
        Some(frame)
    }

    /// Capacity of the ring buffer, in samples, for the configured length of
    /// audio in the format of `output`, or `None` when that many samples do
    /// not fit in memory.
    pub fn ring_capacity(&self, output: AudioOutput) -> (r: Option<usize>)
        ensures
            r is Some <==> samples_in(
                output.spec_sample_rate(),
                output.spec_channels(),
                self.ring_millis,
            ) <= usize::MAX,
            r matches Some(n) ==> n == samples_in(
                output.spec_sample_rate(),
                output.spec_channels(),
                self.ring_millis,
            ),
    {
        let rate: u32 = output.sample_rate();
        let channels: u16 = output.channels();
        assert(0 <= rate * channels <= 0xffff_ffff * 0xffff) by (nonlinear_arith)
            requires
                0 <= rate <= 0xffff_ffff,
                0 <= channels <= 0xffff,
        ;
        let per_second: u128 = (rate as u128) * (channels as u128);
        assert(0 <= per_second * self.ring_millis <= 0xffff_ffff * 0xffff * 0xffff_ffff)
            by (nonlinear_arith)
            requires
                0 <= per_second <= 0xffff_ffff * 0xffff,
                0 <= self.ring_millis <= 0xffff_ffff,
        ;
        let samples: u128 = per_second * (self.ring_millis as u128) / 1000;
        if samples > usize::MAX as u128 {
            None
        } else {
            Some(samples as usize)
        }
    }
}

} // verus!
