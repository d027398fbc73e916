use bad_browser::decode::{frame_read, next_step, stream_ended, DecodeStep, PAUSE_POLL};
use bad_browser::types::BgEvent;
use bad_browser::video::FrameBuffer;

#[test]
fn the_loop_reads_unless_cancelled_or_paused() {
    assert_eq!(next_step(false, false), DecodeStep::Read);
    assert_eq!(next_step(false, true), DecodeStep::Wait(100));
    assert_eq!(next_step(true, false), DecodeStep::Exit);
    assert_eq!(next_step(true, true), DecodeStep::Exit);
    assert_eq!(PAUSE_POLL, 100);
}

#[test]
fn a_frame_lands_in_a_buffer_of_its_size() {
    let mut buffer = FrameBuffer::new();
    buffer.reset(2, 2);
    assert!(frame_read(&mut buffer, &[1, 2, 3, 4], false, false));
    assert_eq!(buffer.bytes, vec![1, 2, 3, 4]);
}

#[test]
fn a_frame_read_after_cancellation_is_dropped() {
    let mut buffer = FrameBuffer::new();
    buffer.reset(2, 2);
    assert!(!frame_read(&mut buffer, &[1, 2, 3, 4], true, false));
    assert!(!frame_read(&mut buffer, &[1, 2, 3, 4], true, true));
    assert_eq!(buffer.bytes, vec![0, 0, 0, 0]);
}

#[test]
fn a_frame_read_into_a_pause_is_dropped_and_the_loop_goes_on() {
    let mut buffer = FrameBuffer::new();
    buffer.reset(2, 2);
    assert!(frame_read(&mut buffer, &[1, 2, 3, 4], false, true));
    assert_eq!(buffer.bytes, vec![0, 0, 0, 0]);
    // Even a frame of a superseded geometry does not end a paused loop.
    assert!(frame_read(&mut buffer, &[1, 2], false, true));
    assert_eq!(buffer.bytes, vec![0, 0, 0, 0]);
}

#[test]
fn a_frame_of_a_superseded_session_ends_the_loop() {
    let mut buffer = FrameBuffer::new();
    buffer.reset(2, 2);
    // The decode thread of an older session still reads frames of 3 by 3.
    assert!(!frame_read(&mut buffer, &[7; 9], false, false));
    assert_eq!(buffer.bytes, vec![0, 0, 0, 0]);
    assert_eq!((buffer.width, buffer.height), (2, 2));
}

#[test]
fn the_end_of_the_stream_is_posted_unless_cancelled() {
    assert!(matches!(stream_ended(false, 3), Some(BgEvent::VideoEnded(3))));
    assert!(matches!(stream_ended(false, 0), Some(BgEvent::VideoEnded(0))));
    assert!(stream_ended(true, 3).is_none());
}
