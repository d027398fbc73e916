use bad_browser::video::{
    clamp_seek, AudioStep, FrameBuffer, ProcessHandle, Signal, StartPlan, Teardown, VideoEngine,
    INITIAL_HEIGHT, INITIAL_WIDTH, ONE_SECOND,
};

fn seconds(value: f64) -> i64 {
    (value * 1000.0).round() as i64
}

fn as_seconds(value: i64) -> f64 {
    value as f64 / 1000.0
}

fn no_teardown() -> Teardown {
    Teardown { cancel: false, audio: None, decoder: None }
}

#[test]
fn new_engine_is_idle() {
    let engine = VideoEngine::new(Some(seconds(219.5)), 42);
    assert_eq!(engine.duration, 219_500);
    assert_eq!(engine.seek_time, 0);
    assert_eq!(engine.session_id, 0);
    assert_eq!(engine.start_instant, 42);
    assert!(!engine.running);
    assert!(!engine.is_paused);
    assert_eq!(engine.audio_process, None);
    assert_eq!(engine.ffmpeg_process, None);
    assert!(engine.buffer.bytes.is_empty());
    assert_eq!(engine.buffer.width, INITIAL_WIDTH);
    assert_eq!(engine.buffer.height, INITIAL_HEIGHT);
    assert_eq!(INITIAL_WIDTH, 100);
    assert_eq!(INITIAL_HEIGHT, 50);
}

#[test]
fn unknown_duration_is_zero() {
    let engine = VideoEngine::new(None, 0);
    assert_eq!(engine.duration, 0);
}

#[test]
fn start_sizes_the_frame_buffer() {
    let mut engine = VideoEngine::new(Some(60_000), 0);
    let plan = engine.start(80, 24, 0, 10);
    assert_eq!(engine.buffer.bytes.len(), 80 * 24);
    assert!(engine.buffer.bytes.iter().all(|b| *b == 0));
    assert_eq!(engine.buffer.width, 80);
    assert_eq!(engine.buffer.height, 24);
    assert_eq!(
        plan,
        StartPlan { teardown: no_teardown(), session_id: 1, width: 80, height: 24, seek: 0 }
    );
    assert_eq!(engine.session_id, 1);
    assert!(engine.running);
    assert_eq!(engine.start_instant, 10);
}

#[test]
fn start_with_an_empty_geometry_gives_an_empty_frame() {
    let mut engine = VideoEngine::new(None, 0);
    engine.start(0, 24, 0, 0);
    assert_eq!(engine.buffer.bytes.len(), 0);
    assert_eq!(engine.buffer.height, 24);
}

#[test]
fn start_supersedes_the_running_session() {
    let mut engine = VideoEngine::new(Some(60_000), 0);
    engine.start(4, 3, 0, 0);
    assert_eq!(engine.audio_spawned(Some(ProcessHandle { pid: 11 })), None);
    assert!(engine.decoder_spawned(Some(ProcessHandle { pid: 12 })));
    engine.toggle_pause(500);
    let plan = engine.start(2, 2, 7_000, 900);
    assert_eq!(
        plan.teardown,
        Teardown {
            cancel: true,
            audio: Some(ProcessHandle { pid: 11 }),
            decoder: Some(ProcessHandle { pid: 12 }),
        }
    );
    assert_eq!(plan.session_id, 2);
    assert_eq!(plan.seek, 7_000);
    assert_eq!(engine.session_id, 2);
    assert_eq!(engine.audio_process, None);
    assert_eq!(engine.ffmpeg_process, None);
    assert!(!engine.is_paused);
    assert_eq!(engine.seek_time, 7_000);
    assert_eq!(engine.start_instant, 900);
    assert_eq!(engine.buffer.bytes, vec![0u8; 4]);
}

#[test]
fn a_failed_decoder_starts_no_decode_thread() {
    let mut engine = VideoEngine::new(None, 0);
    engine.start(4, 3, 0, 0);
    assert!(!engine.decoder_spawned(None));
    assert_eq!(engine.ffmpeg_process, None);
    assert!(engine.running);
}

#[test]
fn seek_before_the_start_clamps_to_zero() {
    // start(80, 24, 0.0), then at once seek(-5.0, 80, 24).
    let mut engine = VideoEngine::new(Some(seconds(30.0)), 0);
    engine.start(80, 24, seconds(0.0), 1_000);
    let before = engine.session_id;
    let plan = engine.seek(seconds(-5.0), 80, 24, 1_000);
    assert_eq!(as_seconds(engine.seek_time), 0.0);
    assert_eq!(engine.session_id, before + 1);
    assert_eq!(plan.seek, 0);
    assert_eq!(plan.session_id, before + 1);
    assert_eq!(engine.buffer.bytes.len(), 80 * 24);
}

#[test]
fn seek_beyond_the_end_clamps_to_a_second_before_it() {
    let mut engine = VideoEngine::new(Some(seconds(120.0)), 0);
    engine.start(80, 24, 0, 0);
    engine.seek(seconds(200.0), 80, 24, 0);
    assert_eq!(as_seconds(engine.seek_time), 119.0);
    assert!(engine.seek_time < engine.duration);
}

#[test]
fn seek_to_the_very_end_clamps_too() {
    let mut engine = VideoEngine::new(Some(120_000), 0);
    engine.start(8, 2, 100_000, 0);
    engine.seek(20_000, 8, 2, 0);
    assert_eq!(engine.seek_time, 119_000);
}

#[test]
fn seek_within_the_video_adds_the_time_played() {
    let mut engine = VideoEngine::new(Some(120_000), 0);
    engine.start(8, 2, 10_000, 1_000);
    // 2.5 s have been played when the seek comes.
    engine.seek(5_000, 8, 2, 3_500);
    assert_eq!(engine.seek_time, 17_500);
    assert_eq!(engine.start_instant, 3_500);
    // Within the last second nothing is clamped.
    engine.seek(102_000, 8, 2, 3_500);
    assert_eq!(engine.seek_time, 119_500);
}

#[test]
fn seek_while_paused_counts_no_time_played() {
    let mut engine = VideoEngine::new(Some(120_000), 0);
    engine.start(8, 2, 10_000, 1_000);
    engine.toggle_pause(2_000);
    assert_eq!(engine.seek_time, 11_000);
    engine.seek(5_000, 8, 2, 9_000);
    assert_eq!(engine.seek_time, 16_000);
    assert!(!engine.is_paused);
}

#[test]
fn seek_without_duration_has_no_upper_limit() {
    let mut engine = VideoEngine::new(None, 0);
    engine.start(8, 2, 0, 0);
    engine.seek(1_000_000, 8, 2, 0);
    assert_eq!(engine.seek_time, 1_000_000);
    engine.seek(-2_000_000, 8, 2, 0);
    assert_eq!(engine.seek_time, 0);
}

#[test]
fn clamp_seek_values() {
    assert_eq!(ONE_SECOND, 1000);
    assert_eq!(clamp_seek(0, 5_000, 120_000), 5_000);
    assert_eq!(clamp_seek(0, -5_000, 120_000), 0);
    assert_eq!(clamp_seek(119_999, 0, 120_000), 119_999);
    assert_eq!(clamp_seek(119_999, 1, 120_000), 119_000);
    assert_eq!(clamp_seek(0, 200_000, 120_000), 119_000);
    assert_eq!(clamp_seek(0, 200_000, 0), 200_000);
    assert_eq!(clamp_seek(0, 200_000, -7), 200_000);
    assert_eq!(clamp_seek(i64::MAX, i64::MAX, 0), i64::MAX);
    assert_eq!(clamp_seek(i64::MIN, i64::MIN, 0), 0);
    assert_eq!(clamp_seek(i64::MAX, i64::MAX, i64::MAX), i64::MAX - 1000);
}

#[test]
fn clamp_seek_in_a_video_shorter_than_a_second() {
    // One second before the end would lie before the start.
    assert_eq!(clamp_seek(0, 1_000, 500), 0);
    assert_eq!(clamp_seek(0, 500, 500), 0);
    assert_eq!(clamp_seek(0, 100, 500), 100);
    assert_eq!(clamp_seek(0, 499, 500), 499);
    assert_eq!(clamp_seek(400, 5_000, 999), 0);
    assert_eq!(clamp_seek(0, 5_000, 1), 0);
    assert_eq!(clamp_seek(0, 5_000, 1_000), 0);
    assert_eq!(clamp_seek(0, 5_000, 1_001), 1);
}

#[test]
fn seek_beyond_the_end_of_a_short_video_lands_at_its_start() {
    let mut engine = VideoEngine::new(Some(500), 0);
    engine.start(8, 2, 0, 0);
    let plan = engine.seek(2_000, 8, 2, 0);
    assert_eq!(engine.seek_time, 0);
    assert_eq!(plan.seek, 0);
    assert!(engine.seek_time < engine.duration);
    engine.seek(300, 8, 2, 0);
    assert_eq!(engine.seek_time, 300);
    engine.seek(200, 8, 2, 0);
    assert_eq!(engine.seek_time, 0);
}

#[test]
fn position_counts_from_the_anchor() {
    let mut engine = VideoEngine::new(None, 0);
    engine.start(2, 2, 4_000, 10_000);
    assert_eq!(engine.position(10_000), 4_000);
    assert_eq!(engine.position(12_345), 6_345);
    // A clock reading before the anchor counts as no time.
    assert_eq!(engine.position(9_000), 4_000);
    engine.seek_time = i64::MAX - 5;
    assert_eq!(engine.position(20_000), i64::MAX);
}

#[test]
fn pause_freezes_the_position() {
    let mut engine = VideoEngine::new(None, 0);
    engine.start(2, 2, 4_000, 10_000);
    engine.audio_spawned(Some(ProcessHandle { pid: 7 }));
    let step = engine.toggle_pause(11_500);
    assert_eq!(step, AudioStep::Signal(ProcessHandle { pid: 7 }, Signal::Stop));
    assert!(engine.is_paused);
    assert_eq!(engine.seek_time, 5_500);
    assert_eq!(engine.position(99_000), 5_500);
}

#[test]
fn pause_and_resume_keep_the_session_and_the_audio_process() {
    let mut engine = VideoEngine::new(None, 0);
    engine.start(2, 2, 0, 0);
    engine.audio_spawned(Some(ProcessHandle { pid: 7 }));
    let session = engine.session_id;

    let step = engine.toggle_pause(3_000);
    assert_eq!(step, AudioStep::Signal(ProcessHandle { pid: 7 }, Signal::Stop));
    assert_eq!(engine.signal_result(Signal::Stop, true), AudioStep::Nothing);

    let step = engine.toggle_pause(8_000);
    assert_eq!(step, AudioStep::Signal(ProcessHandle { pid: 7 }, Signal::Continue));
    assert_eq!(engine.signal_result(Signal::Continue, true), AudioStep::Nothing);

    assert_eq!(engine.session_id, session);
    assert_eq!(engine.audio_process, Some(ProcessHandle { pid: 7 }));
    assert!(!engine.is_paused);
    assert_eq!(engine.seek_time, 3_000);
    assert_eq!(engine.start_instant, 8_000);
    assert_eq!(engine.position(9_000), 4_000);
}

#[test]
fn a_stop_signal_that_fails_kills_the_audio_process() {
    let mut engine = VideoEngine::new(None, 0);
    engine.start(2, 2, 0, 0);
    engine.audio_spawned(Some(ProcessHandle { pid: 7 }));
    engine.toggle_pause(3_000);
    assert_eq!(
        engine.signal_result(Signal::Stop, false),
        AudioStep::Kill(ProcessHandle { pid: 7 })
    );
    assert_eq!(engine.audio_process, None);
    // With no audio process left, to resume is to start one at the position.
    let step = engine.toggle_pause(8_000);
    assert_eq!(step, AudioStep::Spawn { terminate: None, seek: 3_000 });
    assert_eq!(engine.audio_spawned(Some(ProcessHandle { pid: 8 })), None);
    assert_eq!(engine.audio_process, Some(ProcessHandle { pid: 8 }));
    assert_eq!(engine.session_id, 1);
}

#[test]
fn a_continue_signal_that_fails_respawns_the_audio_process() {
    let mut engine = VideoEngine::new(None, 0);
    engine.start(2, 2, 1_000, 0);
    engine.audio_spawned(Some(ProcessHandle { pid: 7 }));
    engine.toggle_pause(3_000);
    engine.signal_result(Signal::Stop, true);
    engine.toggle_pause(8_000);
    assert_eq!(
        engine.signal_result(Signal::Continue, false),
        AudioStep::Spawn { terminate: Some(ProcessHandle { pid: 7 }), seek: 4_000 }
    );
    assert_eq!(engine.audio_process, None);
}

#[test]
fn pause_without_audio_asks_for_nothing() {
    let mut engine = VideoEngine::new(None, 0);
    engine.start(2, 2, 0, 0);
    engine.audio_spawned(None);
    assert_eq!(engine.toggle_pause(100), AudioStep::Nothing);
    assert_eq!(engine.signal_result(Signal::Stop, false), AudioStep::Nothing);
}

#[test]
fn audio_spawned_hands_back_what_it_displaces() {
    let mut engine = VideoEngine::new(None, 0);
    engine.start(2, 2, 0, 0);
    assert_eq!(engine.audio_spawned(Some(ProcessHandle { pid: 1 })), None);
    assert_eq!(
        engine.audio_spawned(Some(ProcessHandle { pid: 2 })),
        Some(ProcessHandle { pid: 1 })
    );
    assert_eq!(engine.audio_process, Some(ProcessHandle { pid: 2 }));
}

#[test]
fn stop_without_a_session_is_a_no_op() {
    let mut engine = VideoEngine::new(Some(5_000), 77);
    let teardown = engine.stop();
    assert_eq!(teardown, no_teardown());
    assert_eq!(engine.session_id, 0);
    assert_eq!(engine.seek_time, 0);
    assert_eq!(engine.duration, 5_000);
    assert_eq!(engine.start_instant, 77);
    assert!(!engine.running);
    assert!(!engine.is_paused);
    assert_eq!(engine.audio_process, None);
    assert_eq!(engine.ffmpeg_process, None);
    assert!(engine.buffer.bytes.is_empty());
}

#[test]
fn stop_ends_the_session_and_a_second_stop_does_nothing() {
    let mut engine = VideoEngine::new(None, 0);
    engine.start(3, 3, 2_000, 0);
    engine.audio_spawned(Some(ProcessHandle { pid: 5 }));
    engine.decoder_spawned(Some(ProcessHandle { pid: 6 }));
    engine.toggle_pause(10);
    let teardown = engine.stop();
    assert_eq!(
        teardown,
        Teardown {
            cancel: true,
            audio: Some(ProcessHandle { pid: 5 }),
            decoder: Some(ProcessHandle { pid: 6 }),
        }
    );
    assert_eq!(engine.seek_time, 0);
    assert!(!engine.is_paused);
    assert!(!engine.running);
    assert_eq!(engine.session_id, 1);
    assert_eq!(engine.buffer.bytes.len(), 9);

    assert_eq!(engine.stop(), no_teardown());
    assert_eq!(engine.session_id, 1);
    assert_eq!(engine.seek_time, 0);
}

#[test]
fn frame_buffer_takes_frames_of_its_size_only() {
    let mut buffer = FrameBuffer::new();
    assert!(buffer.snapshot().is_none());
    buffer.reset(3, 2);
    assert_eq!(buffer.bytes, vec![0u8; 6]);
    assert!(buffer.write_frame(&[1, 2, 3, 4, 5, 6]));
    assert_eq!(buffer.bytes, vec![1, 2, 3, 4, 5, 6]);
    assert!(!buffer.write_frame(&[9, 9, 9]));
    assert!(!buffer.write_frame(&[9; 7]));
    assert!(!buffer.write_frame(&[]));
    assert_eq!(buffer.bytes, vec![1, 2, 3, 4, 5, 6]);
    let copy = buffer.snapshot().unwrap();
    assert_eq!((copy.bytes, copy.width, copy.height), (vec![1, 2, 3, 4, 5, 6], 3, 2));
    buffer.reset(1, 2);
    assert_eq!(buffer.bytes, vec![0, 0]);
    assert_eq!((buffer.width, buffer.height), (1, 2));
}
