use vid_player::clock::AudioClock;
use vid_player::frame::split_packed_samples;
use vid_player::frame::video_frame_to_rgba_packed;
use vid_player::output::get_audio_config;
use vid_player::output::AudioConfig;
use vid_player::output::AudioError;
use vid_player::output::AudioOutput;
use vid_player::output::SampleEncoder;
use vid_player::output::SampleFormat;
use vid_player::output::SupportedConfigRange;
use vid_player::output::OUTPUT_BUFFER_FRAMES;
use vid_player::output::PREFERRED_SAMPLE_RATE;
use vid_player::ring::AudioRingBuffer;
use vid_player::session::PlaybackConfig;
use vid_player::time::ClockTime;
use vid_player::time::TimeBase;
use vid_player::time::Timestamp;

fn range(channels: u16, min: u32, max: u32, format: SampleFormat) -> SupportedConfigRange {
    SupportedConfigRange::new(channels, min, max, format).unwrap()
}

#[test]
fn time_base_needs_a_positive_denominator() {
    assert!(TimeBase::new(1, 90_000).is_some());
    assert!(TimeBase::new(0, 1).is_some());
    assert!(TimeBase::new(1, 0).is_none());
    assert!(TimeBase::new(1, -25).is_none());
    assert!(TimeBase::new(-1, 25).is_none());
    let base = TimeBase::new(1001, 30_000).unwrap();
    assert_eq!(base.num(), 1001);
    assert_eq!(base.den(), 30_000);
}

#[test]
fn first_stamp_is_the_native_one_or_tick_zero() {
    let base = TimeBase::new(1, 1000).unwrap();
    assert_eq!(Timestamp::following(None, Some(1234), base).ticks(), 1234);
    assert_eq!(Timestamp::following(None, Some(-7), base).ticks(), -7);
    assert_eq!(Timestamp::following(None, None, base).ticks(), 0);
    assert_eq!(Timestamp::following(None, None, base).base().den(), 1000);
}

#[test]
fn a_stamp_never_falls_back_behind_the_last() {
    let base = TimeBase::new(1, 1000).unwrap();
    assert_eq!(Timestamp::following(Some(5), Some(9), base).ticks(), 9);
    assert_eq!(Timestamp::following(Some(5), Some(5), base).ticks(), 5);
    assert_eq!(Timestamp::following(Some(5), Some(4), base).ticks(), 5);
    assert_eq!(Timestamp::following(Some(5), None, base).ticks(), 5);
    assert_eq!(Timestamp::following(Some(-3), None, base).ticks(), -3);
    assert_eq!(Timestamp::following(Some(i64::MAX), Some(i64::MIN), base).ticks(), i64::MAX);
}

#[test]
fn timestamps_compare_across_time_bases() {
    let ms = TimeBase::new(1, 1000).unwrap();
    let ntsc = TimeBase::new(1001, 30_000).unwrap();
    // 30 NTSC frames last 1.001 s.
    let a = Timestamp::new(30, ntsc);
    assert!(Timestamp::new(1001, ms).le(a));
    assert!(a.le(Timestamp::new(1001, ms)));
    assert!(Timestamp::new(1000, ms).le(a));
    assert!(!a.le(Timestamp::new(1000, ms)));
    assert!(Timestamp::new(-1, ms).le(Timestamp::new(0, ntsc)));
    assert!(!Timestamp::new(0, ntsc).le(Timestamp::new(-1, ms)));
}

#[test]
fn due_is_decided_without_rounding() {
    let base = TimeBase::new(1, 3).unwrap();
    let third = Timestamp::new(1, base);
    assert!(!third.is_due(ClockTime::new(14_699, 44_100)));
    assert!(third.is_due(ClockTime::new(14_700, 44_100)));
    let extreme = Timestamp::new(i64::MAX, TimeBase::new(i32::MAX, 1).unwrap());
    assert!(!extreme.is_due(ClockTime::new(u64::MAX, 1)));
    let early = Timestamp::new(i64::MIN, TimeBase::new(i32::MAX, 1).unwrap());
    assert!(early.is_due(ClockTime::new(0, u32::MAX)));
    assert!(Timestamp::new(5, TimeBase::new(0, 7).unwrap()).is_due(ClockTime::new(0, 1)));
}

#[test]
fn clock_readings_compare_across_rates() {
    assert!(ClockTime::new(44_100, 44_100).le(ClockTime::new(48_000, 48_000)));
    assert!(ClockTime::new(48_000, 48_000).le(ClockTime::new(44_100, 44_100)));
    assert!(!ClockTime::new(44_101, 44_100).le(ClockTime::new(48_000, 48_000)));
    assert!(ClockTime::new(u64::MAX, u32::MAX).le(ClockTime::new(u64::MAX, 1)));
    let t = ClockTime::new(12, 34);
    assert_eq!(t.samples(), 12);
    assert_eq!(t.rate(), 34);
}

#[test]
fn stamps_of_any_run_of_units_are_ordered() {
    let base = TimeBase::new(1001, 30_000).unwrap();
    let native = [None, Some(0), Some(3), None, Some(2), Some(3), Some(10), None, Some(4_000_000_000_000), Some(7)];
    let mut last: Option<i64> = None;
    let mut stamps: Vec<Timestamp> = Vec::new();
    for pts in native {
        let stamp = Timestamp::following(last, pts, base);
        last = Some(stamp.ticks());
        stamps.push(stamp);
    }
    let ticks: Vec<i64> = stamps.iter().map(|s| s.ticks()).collect();
    assert_eq!(ticks, vec![0, 0, 3, 3, 3, 3, 10, 10, 4_000_000_000_000, 4_000_000_000_000]);
    for pair in stamps.windows(2) {
        assert!(pair[0].le(pair[1]));
    }
    assert!(!stamps[6].le(stamps[5]));
}

#[test]
fn clock_counts_what_the_device_consumed() {
    let clock = AudioClock::new(48_000);
    assert_eq!(clock.sample_rate(), 48_000);
    assert_eq!(clock.samples_played(), 0);
    assert_eq!(clock.time().samples(), 0);
    clock.advance(512);
    clock.advance(512);
    assert_eq!(clock.samples_played(), 1024);
    let now = clock.time();
    assert_eq!(now.samples(), 1024);
    assert_eq!(now.rate(), 48_000);
}

#[test]
fn packing_drops_row_padding() {
    // Two rows of one pixel, rows six bytes apart.
    let plane = [1u8, 2, 3, 4, 99, 99, 5, 6, 7, 8, 99, 99];
    assert_eq!(video_frame_to_rgba_packed(&plane, 6, 1, 2), Some(vec![1, 2, 3, 4, 5, 6, 7, 8]));
    // The last row needs no padding behind it.
    assert_eq!(video_frame_to_rgba_packed(&plane[..10], 6, 1, 2), Some(vec![1, 2, 3, 4, 5, 6, 7, 8]));
}

#[test]
fn packing_of_a_tight_plane_is_a_copy() {
    let plane: Vec<u8> = (0..24).collect();
    assert_eq!(video_frame_to_rgba_packed(&plane, 8, 2, 3), Some(plane.clone()));
}

#[test]
fn packing_skips_a_plane_that_is_too_short() {
    let plane = [0u8; 9];
    assert_eq!(video_frame_to_rgba_packed(&plane, 6, 1, 2), None);
    assert_eq!(video_frame_to_rgba_packed(&[], 0, 1, 1), None);
    assert_eq!(video_frame_to_rgba_packed(&plane, usize::MAX, 1, 3), None);
    assert_eq!(video_frame_to_rgba_packed(&plane, 0, u32::MAX, u32::MAX), None);
}

#[test]
fn packing_of_an_empty_picture_is_empty() {
    assert_eq!(video_frame_to_rgba_packed(&[], 0, 0, 0), Some(vec![]));
    assert_eq!(video_frame_to_rgba_packed(&[], 16, 4, 0), Some(vec![]));
    assert_eq!(video_frame_to_rgba_packed(&[1, 2], 1, 0, 3), Some(vec![]));
    assert_eq!(video_frame_to_rgba_packed(&[1, 2], 1, 0, 4), None);
}

#[test]
fn overlapping_rows_are_read_where_the_stride_says() {
    let plane = [1u8, 2, 3, 4, 5, 6];
    assert_eq!(
        video_frame_to_rgba_packed(&plane, 1, 1, 3),
        Some(vec![1, 2, 3, 4, 2, 3, 4, 5, 3, 4, 5, 6])
    );
}

#[test]
fn samples_are_cut_into_words() {
    let bytes: Vec<u8> = (1..=20).collect();
    let words = split_packed_samples(&bytes, 2, 2).unwrap();
    assert_eq!(words, vec![[1, 2, 3, 4], [5, 6, 7, 8], [9, 10, 11, 12], [13, 14, 15, 16]]);
    let samples: Vec<f32> = [0.5f32, -0.25].iter().flat_map(|s| s.to_ne_bytes()).collect::<Vec<u8>>()
        .chunks(4).map(|_| 0.0).collect();
    assert_eq!(samples.len(), 2);
    let raw: Vec<u8> = [0.5f32, -0.25].iter().flat_map(|s| s.to_ne_bytes()).collect();
    let back: Vec<f32> = split_packed_samples(&raw, 1, 2).unwrap().into_iter().map(f32::from_ne_bytes).collect();
    assert_eq!(back, vec![0.5, -0.25]);
}

#[test]
fn short_sample_buffers_are_skipped() {
    let bytes = [0u8; 15];
    assert_eq!(split_packed_samples(&bytes, 2, 2), None);
    assert_eq!(split_packed_samples(&bytes, usize::MAX, 2), None);
    assert_eq!(split_packed_samples(&bytes, usize::MAX / 4, 1), None);
    assert_eq!(split_packed_samples(&bytes, 0, 2), Some(vec![]));
    assert_eq!(split_packed_samples(&bytes, 3, 0), Some(vec![]));
    assert_eq!(split_packed_samples(&bytes, 3, 1).unwrap().len(), 3);
}

#[test]
fn stereo_is_preferred() {
    let ranges = [
        range(1, 8_000, 96_000, SampleFormat::I16),
        range(6, 8_000, 96_000, SampleFormat::F32),
        range(2, 8_000, 96_000, SampleFormat::F32),
        range(2, 48_000, 48_000, SampleFormat::I16),
    ];
    assert_eq!(
        get_audio_config(&ranges),
        Ok(AudioConfig {
            channels: 2,
            sample_rate: 44_100,
            sample_format: SampleFormat::F32,
            buffer_frames: 1024,
        })
    );
}

#[test]
fn without_stereo_the_first_family_is_taken() {
    let ranges = [range(6, 8_000, 96_000, SampleFormat::I32), range(1, 8_000, 96_000, SampleFormat::F32)];
    let config = get_audio_config(&ranges).unwrap();
    assert_eq!(config.channels, 6);
    assert_eq!(config.sample_format, SampleFormat::I32);
}

#[test]
fn rate_is_the_nearest_supported_one() {
    assert_eq!(PREFERRED_SAMPLE_RATE, 44_100);
    assert_eq!(OUTPUT_BUFFER_FRAMES, 1024);
    assert_eq!(range(2, 48_000, 96_000, SampleFormat::F32).configured().sample_rate, 48_000);
    assert_eq!(range(2, 8_000, 22_050, SampleFormat::F32).configured().sample_rate, 22_050);
    assert_eq!(range(2, 44_100, 44_100, SampleFormat::F32).configured().sample_rate, 44_100);
    assert_eq!(range(2, 0, u32::MAX, SampleFormat::F32).configured().sample_rate, 44_100);
}

#[test]
fn a_device_without_configurations_is_an_error() {
    assert_eq!(get_audio_config(&[]), Err(AudioError::NoSupportedConfig));
}

#[test]
fn empty_rate_ranges_cannot_be_built() {
    assert!(SupportedConfigRange::new(2, 48_000, 44_100, SampleFormat::F32).is_none());
    let r = range(2, 1, 2, SampleFormat::U16);
    assert_eq!((r.channels(), r.min_sample_rate(), r.max_sample_rate()), (2, 1, 2));
    assert_eq!(r.sample_format(), SampleFormat::U16);
}

#[test]
fn output_settles_the_encoder() {
    let mut config = AudioConfig { channels: 2, sample_rate: 44_100, sample_format: SampleFormat::F32, buffer_frames: 1024 };
    for (format, encoder) in [
        (SampleFormat::F32, SampleEncoder::F32),
        (SampleFormat::I16, SampleEncoder::I16),
        (SampleFormat::U16, SampleEncoder::U16),
        (SampleFormat::I32, SampleEncoder::I32),
    ] {
        config.sample_format = format;
        let output = AudioOutput::new(&config).unwrap();
        assert_eq!(output.encoder(), encoder);
        assert_eq!(output.channels(), 2);
        assert_eq!(output.sample_rate(), 44_100);
    }
}

#[test]
fn unplayable_configurations_are_refused() {
    let good = AudioConfig { channels: 2, sample_rate: 44_100, sample_format: SampleFormat::F32, buffer_frames: 1024 };
    let refused = |c: AudioConfig| AudioOutput::new(&c).err();
    assert_eq!(refused(AudioConfig { sample_format: SampleFormat::Other, ..good }), Some(AudioError::UnsupportedFormat));
    assert_eq!(refused(AudioConfig { channels: 0, ..good }), Some(AudioError::NoChannels));
    assert_eq!(refused(AudioConfig { sample_rate: 0, ..good }), Some(AudioError::NoSampleRate));
    assert_eq!(
        refused(AudioConfig { channels: 0, sample_rate: 0, sample_format: SampleFormat::Other, ..good }),
        Some(AudioError::UnsupportedFormat)
    );
    assert_eq!(refused(AudioConfig { channels: 0, sample_rate: 0, ..good }), Some(AudioError::NoChannels));
    assert_eq!(refused(good), None);
}

#[test]
fn render_fills_the_buffer_and_advances_the_clock() {
    let good = AudioConfig { channels: 2, sample_rate: 44_100, sample_format: SampleFormat::F32, buffer_frames: 1024 };
    let output = AudioOutput::new(&good).unwrap();
    let clock = output.clock();
    assert_eq!(clock.sample_rate(), 44_100);
    let mut ring: AudioRingBuffer<f32> = AudioRingBuffer::new(64, 0.0);
    ring.write(&[0.1, 0.2, 0.3, 0.4, 0.5, 0.6]);
    let mut out = [9.0f32; 4];
    assert_eq!(output.render(&mut ring, &clock, &mut out), 0);
    assert_eq!(out, [0.1, 0.2, 0.3, 0.4]);
    assert_eq!(clock.samples_played(), 2);
    // The buffer runs dry: two samples of silence, and the clock still moves.
    let mut out = [9.0f32; 4];
    assert_eq!(output.render(&mut ring, &clock, &mut out), 2);
    assert_eq!(out, [0.5, 0.6, 0.0, 0.0]);
    assert_eq!(clock.samples_played(), 4);
    assert_eq!(output.frames_in(1025), 512);
    assert_eq!(output.frames_in(1), 0);
}

#[test]
fn session_defaults() {
    let config = PlaybackConfig::new(640, 360);
    assert_eq!(config.width, 640);
    assert_eq!(config.height, 360);
    assert_eq!(config.look_ahead, 30);
    assert_eq!(config.packet_queue, 100);
    assert_eq!(config.frame_queue, 30);
    assert_eq!(config.chunk_queue, 1000);
    assert_eq!(config.ring_millis, 1000);
}

#[test]
fn black_frame_has_four_bytes_per_pixel() {
    let frame = PlaybackConfig::new(3, 2).black_frame().unwrap();
    assert_eq!(frame, vec![0u8; 24]);
    assert_eq!(PlaybackConfig::new(0, 2).black_frame(), Some(vec![]));
    assert_eq!(PlaybackConfig::new(u32::MAX, u32::MAX).black_frame(), None);
}

#[test]
fn ring_capacity_is_the_configured_length_of_audio() {
    let stereo = AudioOutput::new(&AudioConfig {
        channels: 2,
        sample_rate: 44_100,
        sample_format: SampleFormat::F32,
        buffer_frames: 1024,
    })
    .unwrap();
    let mut config = PlaybackConfig::new(640, 360);
    assert_eq!(config.ring_capacity(stereo), Some(88_200));
    config.ring_millis = 250;
    assert_eq!(config.ring_capacity(stereo), Some(22_050));
    config.ring_millis = 1;
    assert_eq!(config.ring_capacity(stereo), Some(88));
    config.ring_millis = 0;
    assert_eq!(config.ring_capacity(stereo), Some(0));
    let wide = AudioOutput::new(&AudioConfig {
        channels: u16::MAX,
        sample_rate: u32::MAX,
        sample_format: SampleFormat::F32,
        buffer_frames: 1024,
    })
    .unwrap();
    config.ring_millis = u32::MAX;
    assert_eq!(config.ring_capacity(wide), None);
}
