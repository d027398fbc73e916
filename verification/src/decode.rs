//! The decisions of the decode loop, the thread that moves the frames of one
//! session from the decoder's pipe into the frame buffer.
//!
//! The loop reads or waits until it is cancelled, the stream ends, or the
//! frame buffer turns out to belong to a later session. The thread itself
//! reads the pipe, sleeps and posts the event; what it does next is decided
//! here.

use crate::types::BgEvent;
use crate::video::FrameBuffer;
use vstd::prelude::*;

verus! {

/// How long a paused decode loop sleeps before it looks at its flags again,
/// in milliseconds.
pub const PAUSE_POLL: u64 = 100;

/// What the decode loop does at the top of a round.
#[derive(PartialEq, Eq, Structural, Clone, Copy, Debug)]
pub enum DecodeStep {
    /// Read one frame from the pipe, blocking.
    Read,
    /// Sleep for so many milliseconds, reading nothing.
    Wait(u64),
    /// Leave the loop without posting an event.
    Exit,
}

/// The step at the top of a round: a cancelled loop leaves, a paused one
/// waits, any other reads.
pub open spec fn step_of(cancelled: bool, paused: bool) -> DecodeStep {
    if cancelled {
        DecodeStep::Exit
    } else if paused {
        DecodeStep::Wait(PAUSE_POLL)
    } else {
        DecodeStep::Read
    }
}

/// The step at the top of a round.
pub fn next_step(cancelled: bool, paused: bool) -> (step: DecodeStep)
    ensures
        step == step_of(cancelled, paused),
{
    if cancelled {
        DecodeStep::Exit
    } else if paused {
        DecodeStep::Wait(PAUSE_POLL)
    } else {
        DecodeStep::Read
    }
}

/// Whether a frame that was read reaches the buffer: not after a
/// cancellation, not during a pause, and not where its size is not the
/// buffer's.
pub open spec fn frame_lands(
    cancelled: bool,
    paused: bool,
    frame_len: nat,
    buffer_len: nat,
) -> bool {
    !cancelled && !paused && frame_len == buffer_len
}

/// Whether the loop goes on after a frame was read: not after a
/// cancellation, and not where the frame would have been written but its
/// size is not the buffer's.
pub open spec fn loop_goes_on(
    cancelled: bool,
    paused: bool,
    frame_len: nat,
    buffer_len: nat,
) -> bool {
    !cancelled && (paused || frame_len == buffer_len)
}

/// Takes a frame that was read in full, with the flags as they stand after
/// the read, and says whether the loop goes on. The frame is copied into the
/// buffer where it lands; else the buffer stays as it is.
pub fn frame_read(buffer: &mut FrameBuffer, frame: &[u8], cancelled: bool, paused: bool) -> (go_on:
    bool)
    ensures
        go_on == loop_goes_on(cancelled, paused, frame@.len(), old(buffer)@.bytes.len()),
        final(buffer)@ == if frame_lands(cancelled, paused, frame@.len(), old(buffer)@.bytes.len()) {
            old(buffer)@.offered(frame@)
        } else {
            old(buffer)@
        },
        final(buffer)@.bytes.len() == old(buffer)@.bytes.len(),
        old(buffer)@.sized() ==> final(buffer)@.sized(),
{
    if cancelled {
        return false;
    }
    if paused {
        return true;
    }
    buffer.write_frame(frame)
}

/// What is posted when the pipe fails or ends: the end of the session's
/// playback, unless the session was cancelled.
pub fn stream_ended(cancelled: bool, session_id: usize) -> (event: Option<BgEvent>)
    ensures
        event == if cancelled {
            None
        } else {
            Some(BgEvent::VideoEnded(session_id))
        },
{
    if cancelled {
        None
    } else {
        Some(BgEvent::VideoEnded(session_id))
    }
}

/// A cancelled loop is silent: it reads no further frame, a frame it has
/// read does not land, and it goes on no more.
pub proof fn lemma_cancelled_loop_is_silent(paused: bool, frame_len: nat, buffer_len: nat)
    ensures
        step_of(true, paused) == DecodeStep::Exit,
        !frame_lands(true, paused, frame_len, buffer_len),
        !loop_goes_on(true, paused, frame_len, buffer_len),
{
}

/// A paused loop consumes nothing: it waits instead of reading, and a frame
/// that was read just before the pause does not land.
pub proof fn lemma_paused_loop_consumes_nothing(frame_len: nat, buffer_len: nat)
    ensures
        step_of(false, true) == DecodeStep::Wait(PAUSE_POLL),
        !frame_lands(false, true, frame_len, buffer_len),
        loop_goes_on(false, true, frame_len, buffer_len),
{
}

/// A frame never lands in a buffer of another size, and outside a pause such
/// a frame ends the loop.
pub proof fn lemma_stale_frame_never_lands(
    cancelled: bool,
    paused: bool,
    frame_len: nat,
    buffer_len: nat,
)
    requires
        frame_len != buffer_len,
    ensures
        !frame_lands(cancelled, paused, frame_len, buffer_len),
        !paused ==> !loop_goes_on(cancelled, paused, frame_len, buffer_len),
{
}

} // verus!
