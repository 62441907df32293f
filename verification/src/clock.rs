//! The playback clock.
//!
//! The audio output counts the frames it has handed to the device; that
//! count, divided by the output rate, is the only time base of a session.
//! The counter is atomic: the output callback advances it while the
//! presentation thread reads it, and neither ever waits for the other.

use crate::time::ClockTime;
use std::sync::atomic::AtomicU64;
use std::sync::atomic::Ordering;
use vstd::prelude::*;

verus! {

/// Master clock of one playback session.
pub struct AudioClock {
    samples_played: AtomicU64,
    sample_rate: u32,
}

impl AudioClock {
    /// Audio frames per second of the output stream.
    pub closed spec fn spec_sample_rate(&self) -> u32 {
        self.sample_rate
    }

    /// The output rate is positive.
    #[verifier::type_invariant]
    pub open spec fn wf(&self) -> bool {
        self.spec_sample_rate() > 0
    }

    /// A clock at zero for an output stream of `sample_rate` frames per
    /// second.
    pub fn new(sample_rate: u32) -> (clock: Self)
        requires
            sample_rate > 0,
        ensures
            clock.spec_sample_rate() == sample_rate,
            clock.wf(),
    {
        Self { samples_played: AtomicU64::new(0), sample_rate }
    }

    /// Audio frames per second of the output stream.
    #[verifier::when_used_as_spec(spec_sample_rate)]
    pub fn sample_rate(&self) -> (r: u32)
        ensures
            r == self.spec_sample_rate(),
            r > 0,
    {
        proof {
            use_type_invariant(self);
        }
        self.sample_rate
    }

    /// Records that the device consumed `frames` more audio frames.
    pub fn advance(&self, frames: u64) {
        self.samples_played.fetch_add(frames, Ordering::Relaxed);
    }

    /// Audio frames consumed so far, as last published by the output side.
    pub fn samples_played(&self) -> u64 {
        self.samples_played.load(Ordering::Relaxed)
    }

    /// The current reading. Its rate is the clock's; the frame count is
    /// whatever the output side has published by now.
    pub fn time(&self) -> (now: ClockTime)
        ensures
            now.spec_rate() == self.spec_sample_rate(),
            now.wf(),
    {
        let samples: u64 = self.samples_played();
        ClockTime::new(samples, self.sample_rate())
    }
}

} // verus!
