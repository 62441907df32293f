//! The audio output side: choosing the device configuration once, at the
//! start of a session, and serving the device's callback afterwards.
//!
//! The callback runs on the device's own real-time thread. It copies what
//! the ring buffer holds, pads with silence when the buffer runs dry, and
//! advances the playback clock by the frames it handed over. It never
//! waits.

use crate::clock::AudioClock;
use crate::ring::after_read;
use crate::ring::consumed;
use crate::ring::delivered;
use crate::ring::AudioRingBuffer;
use vstd::prelude::*;

verus! {

/// Sample rate asked of the device when it offers it.
pub const PREFERRED_SAMPLE_RATE: u32 = 44_100;

/// Frames per device buffer asked of the device.
pub const OUTPUT_BUFFER_FRAMES: u32 = 1024;

/// Representation of a sample in the device's buffer.
#[derive(Clone, Copy, Debug, PartialEq, Eq, Structural)]
pub enum SampleFormat {
    /// 32-bit float in `-1.0..=1.0`.
    F32,
    /// Signed 16-bit integer.
    I16,
    /// Unsigned 16-bit integer.
    U16,
    /// Signed 32-bit integer.
    I32,
    /// Any representation the player has no encoder for.
    Other,
}

/// The encoders the player has, one per supported representation.
#[derive(Clone, Copy, Debug, PartialEq, Eq, Structural)]
pub enum SampleEncoder {
    /// Samples are handed over as they are.
    F32,
    /// Samples are clamped and scaled to the signed 16-bit range.
    I16,
    /// Samples are clamped, shifted and scaled to the unsigned 16-bit range.
    U16,
    /// Samples are clamped and scaled to the signed 32-bit range.
    I32,
}

/// Why audio output cannot start.
#[derive(Clone, Copy, Debug, PartialEq, Eq, Structural)]
pub enum AudioError {
    /// The device supports no output configuration at all.
    NoSupportedConfig,
    /// The device wants a sample representation the player cannot produce.
    UnsupportedFormat,
    /// The configuration has no channels.
    NoChannels,
    /// The configuration has a sample rate of zero.
    NoSampleRate,
}

/// One configuration family a device supports: a channel count, a sample
/// representation and a range of sample rates.
#[derive(Clone, Copy, Debug)]
pub struct SupportedConfigRange {
    channels: u16,
    min_sample_rate: u32,
    max_sample_rate: u32,
    sample_format: SampleFormat,
}

impl SupportedConfigRange {
    /// Number of channels.
    pub closed spec fn spec_channels(self) -> u16 {
        self.channels
    }

    /// Lowest supported sample rate.
    pub closed spec fn spec_min_sample_rate(self) -> u32 {
        self.min_sample_rate
    }

    /// Highest supported sample rate.
    pub closed spec fn spec_max_sample_rate(self) -> u32 {
        self.max_sample_rate
    }

    /// Sample representation.
    pub closed spec fn spec_sample_format(self) -> SampleFormat {
        self.sample_format
    }

    /// The range of sample rates is not empty.
    #[verifier::type_invariant]
    pub open spec fn wf(self) -> bool {
        self.spec_min_sample_rate() <= self.spec_max_sample_rate()
    }

    /// The family of `channels` channels in `sample_format` at any rate from
    /// `min_sample_rate` to `max_sample_rate`, or `None` when that range is
    /// empty.
    pub fn new(
        channels: u16,
        min_sample_rate: u32,
        max_sample_rate: u32,
        sample_format: SampleFormat,
    ) -> (r: Option<Self>)
        ensures
            r is Some <==> min_sample_rate <= max_sample_rate,
            r matches Some(range) ==> range.wf() && range.spec_channels() == channels
                && range.spec_min_sample_rate() == min_sample_rate && range.spec_max_sample_rate()
                == max_sample_rate && range.spec_sample_format() == sample_format,
    {
        if min_sample_rate <= max_sample_rate {
            Some(
                SupportedConfigRange { channels, min_sample_rate, max_sample_rate, sample_format },
            )
        } else {
            None
        }
    }

    /// Number of channels.
    #[verifier::when_used_as_spec(spec_channels)]
    pub fn channels(self) -> (r: u16)
        ensures
            r == self.spec_channels(),
    {
        self.channels
    }

    /// Lowest supported sample rate.
    #[verifier::when_used_as_spec(spec_min_sample_rate)]
    pub fn min_sample_rate(self) -> (r: u32)
        ensures
            r == self.spec_min_sample_rate(),
    {
        self.min_sample_rate
    }

    /// Highest supported sample rate.
    #[verifier::when_used_as_spec(spec_max_sample_rate)]
    pub fn max_sample_rate(self) -> (r: u32)
        ensures
            r == self.spec_max_sample_rate(),
            r >= self.spec_min_sample_rate(),
    {
        proof {
            use_type_invariant(&self);
        }
        self.max_sample_rate
    }

    /// Sample representation.
    #[verifier::when_used_as_spec(spec_sample_format)]
    pub fn sample_format(self) -> (r: SampleFormat)
        ensures
            r == self.spec_sample_format(),
    {
        self.sample_format
    }

    /// The configuration of this family at the supported rate nearest to
    /// [`PREFERRED_SAMPLE_RATE`], with the player's buffer size.
    pub fn configured(self) -> (config: AudioConfig)
        ensures
            config == self.spec_configured(),
    {
        let max: u32 = self.max_sample_rate();
        let sample_rate: u32 = if PREFERRED_SAMPLE_RATE < self.min_sample_rate {
            self.min_sample_rate
        } else if PREFERRED_SAMPLE_RATE > max {
            max
        } else {
            PREFERRED_SAMPLE_RATE
        };
        AudioConfig {
            channels: self.channels,
            sample_rate,
            sample_format: self.sample_format,
            buffer_frames: OUTPUT_BUFFER_FRAMES,
        }
    }

    /// The configuration that [`SupportedConfigRange::configured`] returns.
    pub open spec fn spec_configured(self) -> AudioConfig {
        AudioConfig {
            channels: self.spec_channels(),
            sample_rate: nearest_rate(
                PREFERRED_SAMPLE_RATE,
                self.spec_min_sample_rate(),
                self.spec_max_sample_rate(),
            ),
            sample_format: self.spec_sample_format(),
            buffer_frames: OUTPUT_BUFFER_FRAMES,
        }
    }
}

/// The rate in `min..=max` nearest to `target`.
pub open spec fn nearest_rate(target: u32, min: u32, max: u32) -> u32 {
    if target < min {
        min
    } else if target > max {
        max
    } else {
        target
    }
}

/// The configuration a session runs with.
#[derive(Clone, Copy, Debug, PartialEq, Eq, Structural)]
pub struct AudioConfig {
    /// Number of interleaved channels.
    pub channels: u16,
    /// Frames per second.
    pub sample_rate: u32,
    /// Sample representation of the device's buffer.
    pub sample_format: SampleFormat,
    /// Frames per device buffer.
    pub buffer_frames: u32,
}

/// Position of the first stereo family among `ranges`, if there is one.
pub open spec fn first_stereo(ranges: Seq<SupportedConfigRange>) -> Option<int>
    decreases ranges.len(),
{
    if ranges.len() == 0 {
        None
    } else if ranges[0].spec_channels() == 2 {
        Some(0)
    } else {
        match first_stereo(ranges.skip(1)) {
            Some(i) => Some(i + 1),
            None => None,
        }
    }
}

/// Position of the family the player picks: the first stereo one, or,
/// without any, the first one.
pub open spec fn preferred(ranges: Seq<SupportedConfigRange>) -> int {
    match first_stereo(ranges) {
        Some(i) => i,
        None => 0,
    }
}

/// Where [`first_stereo`] points: at a stereo family with none before it,
/// or nowhere when no family is stereo.
pub proof fn lemma_first_stereo(ranges: Seq<SupportedConfigRange>)
    ensures
        match first_stereo(ranges) {
            Some(i) => 0 <= i < ranges.len() && ranges[i].spec_channels() == 2 && forall|j: int|
                0 <= j < i ==> (#[trigger] ranges[j]).spec_channels() != 2,
            None => forall|j: int|
                0 <= j < ranges.len() ==> (#[trigger] ranges[j]).spec_channels() != 2,
        },
    decreases ranges.len(),
{
    if ranges.len() > 0 && ranges[0].spec_channels() != 2 {
        let rest = ranges.skip(1);
        lemma_first_stereo(rest);
        match first_stereo(rest) {
            Some(i) => {
                assert(ranges[i + 1] == rest[i]);
                assert forall|j: int| 0 <= j < i + 1 implies (#[trigger] ranges[j]).spec_channels()
                    != 2 by {
                    if j > 0 {
                        assert(ranges[j] == rest[j - 1]);
                    }
                }
            },
            None => {
                assert forall|j: int| 0 <= j < ranges.len() implies (
                #[trigger] ranges[j]).spec_channels() != 2 by {
                    if j > 0 {
                        assert(ranges[j] == rest[j - 1]);
                    }
                }
            },
        }
    }
}

/// A stereo family with none before it is the first stereo family.
proof fn lemma_first_stereo_at(ranges: Seq<SupportedConfigRange>, at: int)
    requires
        0 <= at < ranges.len(),
        ranges[at].spec_channels() == 2,
        forall|j: int| 0 <= j < at ==> (#[trigger] ranges[j]).spec_channels() != 2,
    ensures
        first_stereo(ranges) == Some(at),
{
    lemma_first_stereo(ranges);
}

/// Picks the output configuration from the families a device supports:
/// stereo is preferred, any layout is accepted, and the rate is the
/// supported one nearest to [`PREFERRED_SAMPLE_RATE`].
///
/// Fails only when the device supports nothing.
pub fn get_audio_config(ranges: &[SupportedConfigRange]) -> (r: Result<AudioConfig, AudioError>)
    ensures
        ranges@.len() == 0 <==> r is Err,
        r is Err ==> r == Err::<AudioConfig, AudioError>(AudioError::NoSupportedConfig),
        r matches Ok(config) ==> config == ranges@[preferred(ranges@)].spec_configured(),
{
    let len: usize = ranges.len();
    if len == 0 {
        return Err(AudioError::NoSupportedConfig);
    }
    let mut i: usize = 0;
    while i < len
        invariant
            i <= len,
            len == ranges@.len(),
            forall|j: int| 0 <= j < i ==> (#[trigger] ranges@[j]).spec_channels() != 2,
        decreases len - i,
    {
        if ranges[i].channels() == 2 {
            proof {
                lemma_first_stereo_at(ranges@, i as int);
            }
            return Ok(ranges[i].configured());
        }
        i += 1;
    }
    proof {
        lemma_first_stereo(ranges@);
    }
    Ok(ranges[0].configured())
}

/// The encoder for a sample representation, if the player has one.
pub open spec fn encoder_for(format: SampleFormat) -> Option<SampleEncoder> {
    match format {
        SampleFormat::F32 => Some(SampleEncoder::F32),
        SampleFormat::I16 => Some(SampleEncoder::I16),
        SampleFormat::U16 => Some(SampleEncoder::U16),
        SampleFormat::I32 => Some(SampleEncoder::I32),
        SampleFormat::Other => None,
    }
}

/// The output side of one session: the encoder and the channel count, both
/// fixed when the session starts.
#[derive(Clone, Copy, Debug)]
pub struct AudioOutput {
    encoder: SampleEncoder,
    channels: u16,
    sample_rate: u32,
}

impl AudioOutput {
    /// The session's encoder.
    pub closed spec fn spec_encoder(self) -> SampleEncoder {
        self.encoder
    }

    /// Number of interleaved channels.
    pub closed spec fn spec_channels(self) -> u16 {
        self.channels
    }

    /// Frames per second.
    pub closed spec fn spec_sample_rate(self) -> u32 {
        self.sample_rate
    }

    /// There is at least one channel, and the rate is positive.
    #[verifier::type_invariant]
    pub open spec fn wf(self) -> bool {
        self.spec_channels() > 0 && self.spec_sample_rate() > 0
    }

    /// Why `config` cannot be played, if it cannot: the first of a missing
    /// encoder, no channels, and a rate of zero.
    pub open spec fn rejection(config: AudioConfig) -> Option<AudioError> {
        if encoder_for(config.sample_format) is None {
            Some(AudioError::UnsupportedFormat)
        } else if config.channels == 0 {
            Some(AudioError::NoChannels)
        } else if config.sample_rate == 0 {
            Some(AudioError::NoSampleRate)
        } else {
            None
        }
    }

    /// Settles how `config` is played, before playback starts.
    pub fn new(config: &AudioConfig) -> (r: Result<AudioOutput, AudioError>)
        ensures
            match r {
                Ok(output) => Self::rejection(*config) is None && Some(output.spec_encoder())
                    == encoder_for(config.sample_format) && output.spec_channels()
                    == config.channels && output.spec_sample_rate() == config.sample_rate
                    && output.wf(),
                Err(e) => Self::rejection(*config) == Some(e),
            },
    {
        let encoder = match config.sample_format {
            SampleFormat::F32 => SampleEncoder::F32,
            SampleFormat::I16 => SampleEncoder::I16,
            SampleFormat::U16 => SampleEncoder::U16,
            SampleFormat::I32 => SampleEncoder::I32,
            SampleFormat::Other => {
                return Err(AudioError::UnsupportedFormat);
            },
        };
        if config.channels == 0 {
            return Err(AudioError::NoChannels);
        }
        if config.sample_rate == 0 {
            return Err(AudioError::NoSampleRate);
        }
        Ok(AudioOutput { encoder, channels: config.channels, sample_rate: config.sample_rate })
    }

    /// The session's encoder.
    #[verifier::when_used_as_spec(spec_encoder)]
    pub fn encoder(self) -> (r: SampleEncoder)
        ensures
            r == self.spec_encoder(),
    {
        self.encoder
    }

    /// Number of interleaved channels.
    #[verifier::when_used_as_spec(spec_channels)]
    pub fn channels(self) -> (r: u16)
        ensures
            r == self.spec_channels(),
            r > 0,
    {
        proof {
            use_type_invariant(&self);
        }
        self.channels
    }

    /// Frames per second.
    #[verifier::when_used_as_spec(spec_sample_rate)]
    pub fn sample_rate(self) -> (r: u32)
        ensures
            r == self.spec_sample_rate(),
            r > 0,
    {
        proof {
            use_type_invariant(&self);
        }
        self.sample_rate
    }

    /// The playback clock of a session with this output, at zero.
    pub fn clock(self) -> (clock: AudioClock)
        ensures
            clock.spec_sample_rate() == self.spec_sample_rate(),
    {
        AudioClock::new(self.sample_rate())
    }

    /// Number of whole frames in a device buffer of `len` samples.
    pub fn frames_in(self, len: usize) -> (frames: u64)
        ensures
            frames == len as int / self.spec_channels() as int,
    {
        (len / (self.channels() as usize)) as u64
    }

    /// Serves one device callback: fills all of `out` from `ring`, with
    /// silence for whatever the buffer cannot supply, and advances `clock`
    /// by the frames in `out`. Returns the number of samples of silence,
    /// which is zero unless the buffer ran dry.
    pub fn render<S: Copy>(self, ring: &mut AudioRingBuffer<S>, clock: &AudioClock, out: &mut [S]) -> (underrun: usize)
        requires
            old(ring).wf(),
        ensures
            final(ring).wf(),
            final(ring).spec_capacity() == old(ring).spec_capacity(),
            final(ring).spec_silence() == old(ring).spec_silence(),
            final(out)@ == delivered(old(ring)@, old(ring).spec_silence(), old(out)@.len()),
            final(ring)@ == after_read(old(ring)@, old(out)@.len()),
            underrun == old(out)@.len() - consumed(old(ring)@.len(), old(out)@.len()),
    {
        let n: usize = ring.read(out);
        let len: usize = out.len();
        clock.advance(self.frames_in(len));
        len - n
    }
}

} // verus!
