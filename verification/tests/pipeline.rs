use std::collections::VecDeque;
use vid_player::demux::DemuxAction;
use vid_player::demux::DemuxEvent;
use vid_player::demux::DemuxState;
use vid_player::demux::Demuxer;
use vid_player::demux::Route;
use vid_player::demux::StartError;
use vid_player::frame::AudioChunk;
use vid_player::frame::VideoFrame;
use vid_player::time::TimeBase;
use vid_player::worker::after_drain;
use vid_player::worker::AudioDecodeWorker;
use vid_player::worker::DrainStep;
use vid_player::worker::VideoDecodeWorker;
use vid_player::worker::WorkerAction;
use vid_player::worker::WorkerEvent;
use vid_player::worker::WorkerState;

// A stand-in for a decoder: every packet it takes yields one unit with the
// packet's number as timestamp, one packet late, so that a backlog is left
// for the flush. Packets listed in `bad` are refused.
struct FakeDecoder {
    bad: Vec<i64>,
    ready: VecDeque<i64>,
    held: Option<i64>,
}

impl FakeDecoder {
    fn new(bad: Vec<i64>) -> Self {
        Self { bad, ready: VecDeque::new(), held: None }
    }

    fn feed(&mut self, packet: i64) -> bool {
        if self.bad.contains(&packet) {
            return false;
        }
        if let Some(previous) = self.held.replace(packet) {
            self.ready.push_back(previous);
        }
        true
    }

    fn flush(&mut self) {
        if let Some(previous) = self.held.take() {
            self.ready.push_back(previous);
        }
    }

    fn pull(&mut self) -> Option<i64> {
        self.ready.pop_front()
    }
}

// Drives a video worker over `packets` the way its thread does, and returns
// what it published and the actions it was given.
fn run_video(
    worker: &mut VideoDecodeWorker,
    decoder: &mut FakeDecoder,
    packets: Vec<i64>,
    consumer_leaves_after: Option<usize>,
) -> (Vec<VideoFrame>, Vec<WorkerAction>) {
    let mut input: VecDeque<i64> = packets.into();
    let mut pending: Option<i64> = None;
    let mut published: Vec<VideoFrame> = Vec::new();
    let mut actions: Vec<WorkerAction> = Vec::new();
    let mut action = WorkerAction::Receive;
    for _ in 0..10_000 {
        actions.push(action);
        let event = match action {
            WorkerAction::Receive => match input.pop_front() {
                Some(packet) => {
                    pending = Some(packet);
                    WorkerEvent::Packet
                }
                None => WorkerEvent::EndOfStream,
            },
            WorkerAction::Feed => {
                if decoder.feed(pending.take().unwrap()) {
                    WorkerEvent::Fed
                } else {
                    WorkerEvent::Rejected
                }
            }
            WorkerAction::Finish => {
                decoder.flush();
                WorkerEvent::Fed
            }
            WorkerAction::Pull => match decoder.pull() {
                None => WorkerEvent::Exhausted,
                Some(pts) => {
                    // Units with an odd hundreds digit come with a plane that is too short.
                    let plane: Vec<u8> = if (pts / 100) % 2 == 1 { vec![0; 3] } else { vec![pts as u8; 8] };
                    match worker.frame(Some(pts), &plane, 4) {
                        None => WorkerEvent::Skipped,
                        Some(frame) => {
                            if consumer_leaves_after == Some(published.len()) {
                                WorkerEvent::Disconnected
                            } else {
                                published.push(frame);
                                WorkerEvent::Published
                            }
                        }
                    }
                }
            },
            WorkerAction::PullResampler => panic!("a video worker has no resampler"),
            WorkerAction::Stop => return (published, actions),
        };
        action = worker.step(event);
    }
    panic!("the worker did not stop");
}

fn video_worker() -> VideoDecodeWorker {
    VideoDecodeWorker::new(TimeBase::new(1, 25).unwrap(), 1, 2)
}

#[test]
fn one_bad_packet_costs_only_itself() {
    let mut worker = video_worker();
    let mut decoder = FakeDecoder::new(vec![3]);
    let (published, _) = run_video(&mut worker, &mut decoder, (1..=10).collect(), None);
    let stamps: Vec<i64> = published.iter().map(|f| f.pts.ticks()).collect();
    assert_eq!(stamps, vec![1, 2, 4, 5, 6, 7, 8, 9, 10]);
    assert_eq!(worker.state(), WorkerState::Finished);
}

#[test]
fn end_of_stream_drains_the_decoder() {
    let mut worker = video_worker();
    let mut decoder = FakeDecoder::new(vec![]);
    let (published, actions) = run_video(&mut worker, &mut decoder, vec![1, 2, 3], None);
    // The decoder runs one packet behind: the last unit comes out only on the flush.
    let stamps: Vec<i64> = published.iter().map(|f| f.pts.ticks()).collect();
    assert_eq!(stamps, vec![1, 2, 3]);
    let finish = actions.iter().position(|a| *a == WorkerAction::Finish).unwrap();
    assert_eq!(
        &actions[finish..],
        &[WorkerAction::Finish, WorkerAction::Pull, WorkerAction::Pull, WorkerAction::Stop]
    );
    assert_eq!(actions.iter().filter(|a| **a == WorkerAction::Finish).count(), 1);
}

#[test]
fn a_frame_that_cannot_be_converted_is_skipped() {
    let mut worker = video_worker();
    let mut decoder = FakeDecoder::new(vec![]);
    let (published, _) = run_video(&mut worker, &mut decoder, vec![99, 100, 101, 200], None);
    let stamps: Vec<i64> = published.iter().map(|f| f.pts.ticks()).collect();
    assert_eq!(stamps, vec![99, 200]);
}

#[test]
fn a_consumer_that_left_stops_the_worker() {
    let mut worker = video_worker();
    let mut decoder = FakeDecoder::new(vec![]);
    let (published, actions) = run_video(&mut worker, &mut decoder, (1..=10).collect(), Some(2));
    assert_eq!(published.len(), 2);
    assert_eq!(actions.last(), Some(&WorkerAction::Stop));
    assert!(!actions.contains(&WorkerAction::Finish));
    assert_eq!(worker.state(), WorkerState::Finished);
    assert_eq!(worker.step(WorkerEvent::Packet), WorkerAction::Stop);
}

#[test]
fn published_frames_keep_decoding_order() {
    let mut worker = video_worker();
    let mut decoder = FakeDecoder::new(vec![5, 6]);
    let (published, _) = run_video(&mut worker, &mut decoder, (0..40).collect(), None);
    for pair in published.windows(2) {
        assert!(pair[0].pts.le(pair[1].pts));
    }
    assert_eq!(published.len(), 38);
}

#[test]
fn video_frame_is_stamped_and_packed() {
    let mut worker = VideoDecodeWorker::new(TimeBase::new(1, 25).unwrap(), 1, 2);
    let plane = [1u8, 2, 3, 4, 0, 0, 5, 6, 7, 8];
    assert_eq!(worker.last(), None);
    let frame = worker.frame(Some(50), &plane, 6).unwrap();
    assert_eq!(frame.pts.ticks(), 50);
    assert_eq!(frame.pts.base().den(), 25);
    assert_eq!(frame.video_data, vec![1, 2, 3, 4, 5, 6, 7, 8]);
    assert_eq!(worker.last(), Some(50));
    // A picture that cannot be built leaves no trace.
    assert!(worker.frame(Some(90), &plane[..9], 6).is_none());
    assert_eq!(worker.last(), Some(50));
    assert_eq!(worker.frame(Some(51), &plane, 6).unwrap().pts.ticks(), 51);
}

#[test]
fn video_stamps_never_fall_back() {
    let mut worker = VideoDecodeWorker::new(TimeBase::new(1, 25).unwrap(), 1, 1);
    let plane = [0u8; 4];
    let native = [None, Some(5), None, Some(3), Some(5), Some(8), None];
    let ticks: Vec<i64> =
        native.iter().map(|pts| worker.frame(*pts, &plane, 4).unwrap().pts.ticks()).collect();
    assert_eq!(ticks, vec![0, 5, 5, 5, 5, 8, 8]);
    assert_eq!(worker.last(), Some(8));
}

#[test]
fn worker_transitions() {
    let mut w = video_worker();
    assert_eq!(w.state(), WorkerState::Receiving);
    assert_eq!(w.step(WorkerEvent::Packet), WorkerAction::Feed);
    assert_eq!(w.state(), WorkerState::Feeding);
    assert_eq!(w.step(WorkerEvent::Rejected), WorkerAction::Pull);
    assert_eq!(w.state(), WorkerState::Draining { last: false });
    assert_eq!(w.step(WorkerEvent::Skipped), WorkerAction::Pull);
    assert_eq!(w.step(WorkerEvent::Published), WorkerAction::Pull);
    assert_eq!(w.step(WorkerEvent::Exhausted), WorkerAction::Receive);
    assert_eq!(w.step(WorkerEvent::EndOfStream), WorkerAction::Finish);
    assert_eq!(w.state(), WorkerState::Finishing);
    assert_eq!(w.step(WorkerEvent::Fed), WorkerAction::Pull);
    assert_eq!(w.state(), WorkerState::Draining { last: true });
    assert_eq!(w.step(WorkerEvent::Published), WorkerAction::Pull);
    assert_eq!(w.step(WorkerEvent::Exhausted), WorkerAction::Stop);
    assert_eq!(w.state(), WorkerState::Finished);
}

#[test]
fn a_report_out_of_turn_stops_the_worker() {
    let mut w = video_worker();
    assert_eq!(w.step(WorkerEvent::Published), WorkerAction::Stop);
    assert_eq!(w.state(), WorkerState::Finished);
    let mut a = AudioDecodeWorker::new(TimeBase::new(1, 48_000).unwrap(), 2);
    assert_eq!(a.step(WorkerEvent::Packet), WorkerAction::Feed);
    assert_eq!(a.step(WorkerEvent::Packet), WorkerAction::Stop);
    assert_eq!(a.state(), WorkerState::Finished);
}

// Drives an audio worker whose resampler keeps `resampler_backlog` chunks back
// until it is flushed.
fn run_audio(packets: Vec<i64>, resampler_backlog: usize) -> (Vec<AudioChunk<[u8; 4]>>, Vec<WorkerAction>) {
    let mut worker = AudioDecodeWorker::new(TimeBase::new(1, 48_000).unwrap(), 2);
    let mut decoder = FakeDecoder::new(vec![]);
    let mut input: VecDeque<i64> = packets.into();
    let mut pending: Option<i64> = None;
    let mut backlog = resampler_backlog;
    let mut published = Vec::new();
    let mut actions = Vec::new();
    let mut action = WorkerAction::Receive;
    for _ in 0..10_000 {
        actions.push(action);
        let event = match action {
            WorkerAction::Receive => match input.pop_front() {
                Some(packet) => {
                    pending = Some(packet);
                    WorkerEvent::Packet
                }
                None => WorkerEvent::EndOfStream,
            },
            WorkerAction::Feed => {
                decoder.feed(pending.take().unwrap());
                WorkerEvent::Fed
            }
            WorkerAction::Finish => {
                decoder.flush();
                WorkerEvent::Fed
            }
            WorkerAction::Pull => match decoder.pull() {
                None => WorkerEvent::Exhausted,
                Some(pts) => match worker.chunk(Some(pts), &[pts as u8; 16], 2) {
                    Some(chunk) => {
                        published.push(chunk);
                        WorkerEvent::Published
                    }
                    None => WorkerEvent::Skipped,
                },
            },
            WorkerAction::PullResampler => {
                // The resampler hands out one chunk per call, and says with the
                // last of them that nothing is left.
                let samples = if backlog == 0 { 0 } else { 1 };
                backlog = backlog.saturating_sub(1);
                match after_drain(false, samples, backlog > 0) {
                    DrainStep::Exhausted => WorkerEvent::Exhausted,
                    DrainStep::Skip => WorkerEvent::Skipped,
                    DrainStep::Publish => match worker.flushed_chunk(&[0xee; 8], samples) {
                        Some(chunk) => {
                            published.push(chunk);
                            WorkerEvent::Published
                        }
                        None => WorkerEvent::Skipped,
                    },
                }
            }
            WorkerAction::Stop => return (published, actions),
        };
        action = worker.step(event);
    }
    panic!("the worker did not stop");
}

#[test]
fn end_of_stream_drains_decoder_and_resampler() {
    let (published, actions) = run_audio(vec![10, 20, 30], 2);
    let stamps: Vec<i64> = published.iter().map(|c| c.pts.ticks()).collect();
    // Three decoded chunks, the last of them out of the flushed decoder, then
    // the two the resampler still held, stamped like the last chunk before them.
    assert_eq!(stamps, vec![10, 20, 30, 30, 30]);
    for pair in published.windows(2) {
        assert!(pair[0].pts.le(pair[1].pts));
    }
    assert_eq!(published[2].samples.len(), 4);
    assert_eq!(published[3].samples, vec![[0xee; 4], [0xee; 4]]);
    let finish = actions.iter().position(|a| *a == WorkerAction::Finish).unwrap();
    assert_eq!(
        &actions[finish..],
        &[
            WorkerAction::Finish,
            WorkerAction::Pull,
            WorkerAction::Pull,
            WorkerAction::PullResampler,
            WorkerAction::PullResampler,
            WorkerAction::PullResampler,
            WorkerAction::Stop
        ]
    );
}

#[test]
fn an_empty_stream_still_flushes() {
    let (published, actions) = run_audio(vec![], 1);
    assert_eq!(published.len(), 1);
    assert_eq!(
        actions,
        vec![
            WorkerAction::Receive,
            WorkerAction::Finish,
            WorkerAction::Pull,
            WorkerAction::PullResampler,
            WorkerAction::PullResampler,
            WorkerAction::Stop
        ]
    );
}

#[test]
fn audio_chunk_is_stamped_and_split() {
    let mut worker = AudioDecodeWorker::new(TimeBase::new(1, 48_000).unwrap(), 2);
    let bytes: Vec<u8> = (0..20).collect();
    let chunk = worker.chunk(Some(96_000), &bytes, 2).unwrap();
    assert_eq!(chunk.pts.ticks(), 96_000);
    assert_eq!(chunk.samples, vec![[0, 1, 2, 3], [4, 5, 6, 7], [8, 9, 10, 11], [12, 13, 14, 15]]);
    assert!(worker.chunk(Some(97_000), &bytes, 3).is_none());
    assert_eq!(worker.last(), Some(96_000));
    assert_eq!(worker.chunk(Some(95_000), &bytes, 1).unwrap().pts.ticks(), 96_000);
    assert_eq!(worker.chunk(None, &bytes, 1).unwrap().pts.ticks(), 96_000);
    assert_eq!(worker.flushed_chunk(&bytes, 1).unwrap().pts.ticks(), 96_000);
    assert!(worker.flushed_chunk(&bytes, 3).is_none());
    assert_eq!(worker.chunk(Some(96_001), &bytes, 1).unwrap().pts.ticks(), 96_001);
}

#[test]
fn flushed_chunk_of_a_silent_stream_is_at_tick_zero() {
    let mut worker = AudioDecodeWorker::new(TimeBase::new(1, 48_000).unwrap(), 1);
    assert_eq!(worker.flushed_chunk(&[0; 4], 1).unwrap().pts.ticks(), 0);
    assert_eq!(worker.last(), Some(0));
}

#[test]
fn what_the_flushed_resampler_hands_out_is_published() {
    // Samples came out: they are published, whether or not more is left.
    assert_eq!(after_drain(false, 512, true), DrainStep::Publish);
    assert_eq!(after_drain(false, 1, false), DrainStep::Publish);
    // Nothing came out, but the resampler holds more: ask again.
    assert_eq!(after_drain(false, 0, true), DrainStep::Skip);
    // Nothing came out and nothing is left.
    assert_eq!(after_drain(false, 0, false), DrainStep::Exhausted);
    // A resampler that failed is done with.
    assert_eq!(after_drain(true, 512, true), DrainStep::Exhausted);
    assert_eq!(after_drain(true, 0, false), DrainStep::Exhausted);
}

// Drives a demuxer over packets given by their stream index. Returns what was
// sent to each worker: `Some(n)` for packet number `n`, `None` for the end
// marker.
fn run_demux(
    demuxer: &mut Demuxer,
    streams: Vec<usize>,
    video_gone_after: Option<usize>,
) -> (Vec<Option<usize>>, Vec<Option<usize>>) {
    let mut video: Vec<Option<usize>> = Vec::new();
    let mut audio: Vec<Option<usize>> = Vec::new();
    let mut next = 0usize;
    let mut action = DemuxAction::Read;
    for _ in 0..10_000 {
        let event = match action {
            DemuxAction::Read => {
                if next < streams.len() {
                    next += 1;
                    DemuxEvent::Packet { stream: streams[next - 1] }
                } else {
                    DemuxEvent::EndOfInput
                }
            }
            DemuxAction::Forward(route) | DemuxAction::Mark(route) => {
                let item = if matches!(action, DemuxAction::Mark(_)) { None } else { Some(next - 1) };
                match route {
                    Route::Video => {
                        if video_gone_after.map_or(false, |n| video.len() >= n) {
                            DemuxEvent::ReceiverGone
                        } else {
                            video.push(item);
                            DemuxEvent::Delivered
                        }
                    }
                    Route::Audio => {
                        audio.push(item);
                        DemuxEvent::Delivered
                    }
                    Route::Neither => panic!("nothing is sent nowhere"),
                }
            }
            DemuxAction::Stop => return (video, audio),
        };
        action = demuxer.step(event);
    }
    panic!("the demuxer did not stop");
}

#[test]
fn demuxer_needs_both_streams() {
    assert_eq!(Demuxer::new(None, Some(1)).err(), Some(StartError::NoVideoStream));
    assert_eq!(Demuxer::new(None, None).err(), Some(StartError::NoVideoStream));
    assert_eq!(Demuxer::new(Some(0), None).err(), Some(StartError::NoAudioStream));
    let d = Demuxer::new(Some(0), Some(1)).unwrap();
    assert_eq!(d.video_index(), 0);
    assert_eq!(d.audio_index(), 1);
    assert_eq!(d.state(), DemuxState::Reading);
}

#[test]
fn packets_go_to_the_worker_of_their_stream() {
    let d = Demuxer::new(Some(2), Some(0)).unwrap();
    assert_eq!(d.route(2), Route::Video);
    assert_eq!(d.route(0), Route::Audio);
    assert_eq!(d.route(1), Route::Neither);
    let same = Demuxer::new(Some(4), Some(4)).unwrap();
    assert_eq!(same.route(4), Route::Video);
}

#[test]
fn demuxer_forwards_in_order_and_marks_the_end_once() {
    let mut d = Demuxer::new(Some(0), Some(1)).unwrap();
    let (video, audio) = run_demux(&mut d, vec![0, 1, 1, 2, 0, 7, 1], None);
    assert_eq!(video, vec![Some(0), Some(4), None]);
    assert_eq!(audio, vec![Some(1), Some(2), Some(6), None]);
    assert_eq!(d.state(), DemuxState::Stopped);
    assert_eq!(d.step(DemuxEvent::EndOfInput), DemuxAction::Stop);
    assert_eq!(d.step(DemuxEvent::Packet { stream: 0 }), DemuxAction::Stop);
}

#[test]
fn empty_container_still_marks_the_end() {
    let mut d = Demuxer::new(Some(0), Some(1)).unwrap();
    let (video, audio) = run_demux(&mut d, vec![], None);
    assert_eq!(video, vec![None]);
    assert_eq!(audio, vec![None]);
}

#[test]
fn failed_forward_stops_at_once() {
    let mut d = Demuxer::new(Some(0), Some(1)).unwrap();
    let (video, audio) = run_demux(&mut d, vec![1, 0, 0, 1, 1], Some(1));
    assert_eq!(video, vec![Some(1)]);
    assert_eq!(audio, vec![Some(0)]);
    assert_eq!(d.state(), DemuxState::Stopped);
}

#[test]
fn audio_is_marked_even_when_the_video_worker_is_gone() {
    let mut d = Demuxer::new(Some(0), Some(1)).unwrap();
    assert_eq!(d.step(DemuxEvent::EndOfInput), DemuxAction::Mark(Route::Video));
    assert_eq!(d.step(DemuxEvent::ReceiverGone), DemuxAction::Mark(Route::Audio));
    assert_eq!(d.step(DemuxEvent::ReceiverGone), DemuxAction::Stop);
    assert_eq!(d.state(), DemuxState::Stopped);
}

#[test]
fn demuxer_stops_on_a_report_out_of_turn() {
    let mut d = Demuxer::new(Some(0), Some(1)).unwrap();
    assert_eq!(d.step(DemuxEvent::Packet { stream: 0 }), DemuxAction::Forward(Route::Video));
    assert_eq!(d.state(), DemuxState::Forwarding);
    assert_eq!(d.step(DemuxEvent::Packet { stream: 1 }), DemuxAction::Stop);
    let mut e = Demuxer::new(Some(0), Some(1)).unwrap();
    assert_eq!(e.step(DemuxEvent::Delivered), DemuxAction::Stop);
}
