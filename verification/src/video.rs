//! The playback engine: sessions, the frame buffer, and the decisions of
//! pause, resume, seek and stop.
//!
//! The engine is a state machine. It holds no process and no clock: every
//! operation takes the reading of a monotonic clock in milliseconds and hands
//! back a plan that names the processes to end and to start. Whoever runs the
//! plan reports what came of it (`audio_spawned`, `decoder_spawned`,
//! `signal_result`). Times are milliseconds.

use vstd::prelude::*;

verus! {

/// One second, in the engine's unit of time.
pub const ONE_SECOND: i64 = 1000;

/// The geometry of the frame buffer before the first session.
pub const INITIAL_WIDTH: usize = 100;

/// The geometry of the frame buffer before the first session.
pub const INITIAL_HEIGHT: usize = 50;

/// An operating-system process that the engine has had started and not yet
/// ended, known by its process id.
#[derive(PartialEq, Eq, Structural, Clone, Copy, Debug)]
pub struct ProcessHandle {
    pub pid: u32,
}

/// The signals by which audio is paused and resumed.
#[derive(PartialEq, Eq, Structural, Clone, Copy, Debug)]
pub enum Signal {
    Stop,
    Continue,
}

/// What ends a session: the flag of its decode thread is raised, and the two
/// processes are ended, each by a graceful kill, a wait and a forced kill.
#[derive(PartialEq, Eq, Structural, Clone, Copy, Debug)]
pub struct Teardown {
    pub cancel: bool,
    pub audio: Option<ProcessHandle>,
    pub decoder: Option<ProcessHandle>,
}

impl Teardown {
    /// Nothing is cancelled and no process is ended.
    pub open spec fn is_empty(self) -> bool {
        !self.cancel && self.audio is None && self.decoder is None
    }
}

/// What `start` asks for, in this order: the teardown of the session before,
/// an audio process at `seek`, a decoder process that emits frames of
/// `width` by `height` bytes from `seek` on, and, where the decoder started, a
/// decode thread bound to `session_id`.
#[derive(PartialEq, Eq, Structural, Clone, Copy, Debug)]
pub struct StartPlan {
    pub teardown: Teardown,
    pub session_id: usize,
    pub width: usize,
    pub height: usize,
    pub seek: i64,
}

/// What is to be done with the audio process.
#[derive(PartialEq, Eq, Structural, Clone, Copy, Debug)]
pub enum AudioStep {
    /// Nothing.
    Nothing,
    /// Send the signal to the process and report with `signal_result`.
    Signal(ProcessHandle, Signal),
    /// Kill the process and wait for it.
    Kill(ProcessHandle),
    /// End `terminate`, start an audio process at `seek` and report with
    /// `audio_spawned`.
    Spawn { terminate: Option<ProcessHandle>, seek: i64 },
}

/// One decoded frame of grey values, a byte for each cell.
#[derive(Clone, Debug)]
pub struct FrameBuffer {
    pub bytes: Vec<u8>,
    pub width: usize,
    pub height: usize,
}

/// The mathematical value of a `FrameBuffer`.
pub struct FrameModel {
    pub bytes: Seq<u8>,
    pub width: usize,
    pub height: usize,
}

impl FrameModel {
    /// The buffer holds one frame of its geometry.
    pub open spec fn sized(self) -> bool {
        self.bytes.len() == self.width * self.height
    }

    /// A frame of `width` by `height` cells, all of them 0.
    pub open spec fn blank(width: usize, height: usize) -> FrameModel {
        FrameModel { bytes: Seq::new((width * height) as nat, |i: int| 0u8), width, height }
    }

    /// The buffer after a frame has been offered to it: the frame where its
    /// size is the buffer's, the buffer as it was where it is not.
    pub open spec fn offered(self, frame: Seq<u8>) -> FrameModel {
        if frame.len() == self.bytes.len() {
            FrameModel { bytes: frame, ..self }
        } else {
            self
        }
    }
}

impl View for FrameBuffer {
    type V = FrameModel;

    open spec fn view(&self) -> FrameModel {
        FrameModel { bytes: self.bytes@, width: self.width, height: self.height }
    }
}

impl FrameBuffer {
    /// The buffer of an engine that has not played yet: no bytes.
    pub fn new() -> (buffer: FrameBuffer)
        ensures
            buffer@.bytes.len() == 0,
            buffer@.width == INITIAL_WIDTH,
            buffer@.height == INITIAL_HEIGHT,
    {
        FrameBuffer { bytes: Vec::new(), width: INITIAL_WIDTH, height: INITIAL_HEIGHT }
    }

    /// Gives the buffer a new geometry and fills it with zeros.
    pub fn reset(&mut self, width: usize, height: usize)
        requires
            width * height <= usize::MAX,
        ensures
            final(self)@ == FrameModel::blank(width, height),
            final(self)@.sized(),
    {
        let size = width * height;
        let mut bytes: Vec<u8> = Vec::new();
        let mut filled: usize = 0;
        while filled < size
            invariant
                filled <= size,
                bytes@.len() == filled,
                forall|i: int| 0 <= i < filled ==> bytes@[i] == 0u8,
            decreases size - filled,
        {
            bytes.push(0u8);
            filled += 1;
        }
        assert(bytes@ =~= FrameModel::blank(width, height).bytes);
        self.bytes = bytes;
        self.width = width;
        self.height = height;
    }

    /// Copies `frame` into the buffer where the frame has the buffer's size,
    /// and says whether it did. A frame of another size belongs to a session
    /// that has been superseded, and leaves the buffer as it is.
    pub fn write_frame(&mut self, frame: &[u8]) -> (written: bool)
        ensures
            written == (frame@.len() == old(self)@.bytes.len()),
            final(self)@ == old(self)@.offered(frame@),
    {
        let size = self.bytes.len();
        if frame.len() != size {
            return false;
        }
        let mut at: usize = 0;
        while at < size
            invariant
                at <= size,
                size == frame@.len(),
                self.bytes@.len() == size,
                self.width == old(self).width,
                self.height == old(self).height,
                forall|i: int| 0 <= i < at ==> self.bytes@[i] == frame@[i],
            decreases size - at,
        {
            self.bytes[at] = frame[at];
            at += 1;
        }
        assert(self.bytes@ =~= frame@);
        true
    }

    /// A copy of the buffer, for painting; `None` while the buffer holds no
    /// bytes.
    pub fn snapshot(&self) -> (copy: Option<FrameBuffer>)
        ensures
            self@.bytes.len() == 0 ==> copy is None,
            self@.bytes.len() > 0 ==> copy is Some && copy->0@ == self@,
    {
        if self.bytes.len() == 0 {
            return None;
        }
        let mut bytes: Vec<u8> = Vec::new();
        let mut at: usize = 0;
        while at < self.bytes.len()
            invariant
                at <= self.bytes@.len(),
                bytes@.len() == at,
                forall|i: int| 0 <= i < at ==> bytes@[i] == self.bytes@[i],
            decreases self.bytes@.len() - at,
        {
            bytes.push(self.bytes[at]);
            at += 1;
        }
        assert(bytes@ =~= self.bytes@);
        Some(FrameBuffer { bytes, width: self.width, height: self.height })
    }
}

/// `t` where it is an `i64`, else the `i64` nearest to it.
pub open spec fn saturate(t: int) -> i64 {
    if t > i64::MAX {
        i64::MAX
    } else if t < i64::MIN {
        i64::MIN
    } else {
        t as i64
    }
}

/// The time from `anchor` to `now` on a clock that does not run backwards.
pub open spec fn elapsed(anchor: u64, now: u64) -> int {
    if now >= anchor {
        now - anchor
    } else {
        0
    }
}

/// The place that a seek falls back to when it reaches the end of a video
/// of `duration`: one second before the end, and the start of a video that
/// is shorter than a second.
pub open spec fn last_second(duration: i64) -> i64 {
    if duration >= ONE_SECOND {
        (duration - ONE_SECOND) as i64
    } else {
        0
    }
}

/// Where a seek by `delta` from `position` lands in a video of `duration`:
/// never before the start, and, where the duration is known (above 0),
/// never at the end or beyond it; a seek that would reach the end lands at
/// `last_second` instead.
pub open spec fn seek_target(position: i64, delta: i64, duration: i64) -> i64 {
    let raised = if position + delta < 0 {
        0
    } else {
        position + delta
    };
    if duration > 0 && raised >= duration {
        last_second(duration)
    } else {
        saturate(raised)
    }
}

/// The mathematical value of a `VideoEngine`.
pub struct EngineModel {
    pub frame: FrameModel,
    pub running: bool,
    pub audio_process: Option<ProcessHandle>,
    pub ffmpeg_process: Option<ProcessHandle>,
    pub seek_time: i64,
    pub duration: i64,
    pub start_instant: u64,
    pub session_id: usize,
    pub is_paused: bool,
}

impl EngineModel {
    /// An engine that has not played yet.
    pub open spec fn initial(duration: i64, now: u64) -> EngineModel {
        EngineModel {
            frame: FrameModel { bytes: Seq::empty(), width: INITIAL_WIDTH, height: INITIAL_HEIGHT },
            running: false,
            audio_process: None,
            ffmpeg_process: None,
            seek_time: 0,
            duration,
            start_instant: now,
            session_id: 0,
            is_paused: false,
        }
    }

    /// What the operations keep: from the first session on, the frame buffer
    /// holds one frame of its geometry.
    pub open spec fn wf(self) -> bool {
        self.session_id > 0 ==> self.frame.sized()
    }

    /// No session is active: no thread to cancel, no process alive, the
    /// position at the start, and no pause.
    pub open spec fn idle(self) -> bool {
        &&& !self.running
        &&& self.audio_process is None
        &&& self.ffmpeg_process is None
        &&& self.seek_time == 0
        &&& !self.is_paused
    }

    /// The playback position at the clock reading `now`: frozen at
    /// `seek_time` during a pause, else `seek_time` and the time since the
    /// anchor.
    pub open spec fn position(self, now: u64) -> i64 {
        if self.is_paused {
            self.seek_time
        } else {
            saturate(self.seek_time + elapsed(self.start_instant, now))
        }
    }

    /// What has to end before the session can.
    pub open spec fn teardown(self) -> Teardown {
        Teardown {
            cancel: self.running,
            audio: self.audio_process,
            decoder: self.ffmpeg_process,
        }
    }

    /// The engine after `start`: a new session at `seek`, anchored at `now`,
    /// over a blank frame, with no process known yet.
    pub open spec fn started(self, width: usize, height: usize, seek: i64, now: u64) -> EngineModel {
        EngineModel {
            frame: FrameModel::blank(width, height),
            running: true,
            audio_process: None,
            ffmpeg_process: None,
            seek_time: seek,
            duration: self.duration,
            start_instant: now,
            session_id: (self.session_id + 1) as usize,
            is_paused: false,
        }
    }

    /// What `start` asks for.
    pub open spec fn start_plan(self, width: usize, height: usize, seek: i64) -> StartPlan {
        StartPlan {
            teardown: self.teardown(),
            session_id: (self.session_id + 1) as usize,
            width,
            height,
            seek,
        }
    }

    /// The engine after `stop`.
    pub open spec fn stopped(self) -> EngineModel {
        EngineModel {
            running: false,
            audio_process: None,
            ffmpeg_process: None,
            seek_time: 0,
            is_paused: false,
            ..self
        }
    }

    /// The engine after `toggle_pause`. Pausing folds the time since the
    /// anchor into `seek_time`; resuming sets the anchor to `now`.
    pub open spec fn toggled(self, now: u64) -> EngineModel {
        if self.is_paused {
            EngineModel { is_paused: false, start_instant: now, ..self }
        } else {
            EngineModel { is_paused: true, seek_time: self.position(now), ..self }
        }
    }

    /// What `toggle_pause` asks for. Of an engine that plays: a stop signal
    /// to the audio process, if there is one. Of an engine that is paused: a
    /// continue signal to it, or a new audio process at `seek_time` where
    /// there is none.
    pub open spec fn toggle_step(self) -> AudioStep {
        match self.audio_process {
            Some(handle) => if self.is_paused {
                AudioStep::Signal(handle, Signal::Continue)
            } else {
                AudioStep::Signal(handle, Signal::Stop)
            },
            None => if self.is_paused {
                AudioStep::Spawn { terminate: None, seek: self.seek_time }
            } else {
                AudioStep::Nothing
            },
        }
    }

    /// The engine after the outcome of a signal is known: a signal that was
    /// not delivered costs the engine its audio process.
    pub open spec fn signalled(self, delivered: bool) -> EngineModel {
        if delivered {
            self
        } else {
            EngineModel { audio_process: None, ..self }
        }
    }

    /// What follows a signal: nothing where it was delivered; the kill of the
    /// audio process where a stop signal was not; a new audio process at
    /// `seek_time`, after the end of the old one, where a continue signal was
    /// not.
    pub open spec fn signal_step(self, signal: Signal, delivered: bool) -> AudioStep {
        match self.audio_process {
            Some(handle) => if delivered {
                AudioStep::Nothing
            } else {
                match signal {
                    Signal::Stop => AudioStep::Kill(handle),
                    Signal::Continue => AudioStep::Spawn {
                        terminate: Some(handle),
                        seek: self.seek_time,
                    },
                }
            },
            None => AudioStep::Nothing,
        }
    }
}

/// The playback engine. `running` says that a session has been started and
/// not stopped; `start_instant` is the clock reading that `seek_time` is
/// anchored at.
#[derive(Debug)]
pub struct VideoEngine {
    pub buffer: FrameBuffer,
    pub running: bool,
    pub audio_process: Option<ProcessHandle>,
    pub ffmpeg_process: Option<ProcessHandle>,
    pub seek_time: i64,
    pub duration: i64,
    pub start_instant: u64,
    pub session_id: usize,
    pub is_paused: bool,
}

impl View for VideoEngine {
    type V = EngineModel;

    open spec fn view(&self) -> EngineModel {
        EngineModel {
            frame: self.buffer@,
            running: self.running,
            audio_process: self.audio_process,
            ffmpeg_process: self.ffmpeg_process,
            seek_time: self.seek_time,
            duration: self.duration,
            start_instant: self.start_instant,
            session_id: self.session_id,
            is_paused: self.is_paused,
        }
    }
}

/// `position + delta`, raised to 0 and held below `duration` as `seek_target`
/// says.
pub fn clamp_seek(position: i64, delta: i64, duration: i64) -> (target: i64)
    ensures
        target == seek_target(position, delta, duration),
{
    let sum: i128 = position as i128 + delta as i128;
    let raised: i128 = if sum < 0 { 0 } else { sum };
    if duration > 0 && raised >= duration as i128 {
        if duration >= ONE_SECOND {
            duration - ONE_SECOND
        } else {
            0
        }
    } else if raised > i64::MAX as i128 {
        i64::MAX
    } else {
        raised as i64
    }
}

impl VideoEngine {
    /// An engine for a video of the given duration, 0 where the duration is
    /// not known, created at the clock reading `now`.
    pub fn new(duration: Option<i64>, now: u64) -> (engine: VideoEngine)
        ensures
            engine@ == EngineModel::initial(
                match duration {
                    Some(d) => d,
                    None => 0,
                },
                now,
            ),
            engine@.idle(),
            engine@.wf(),
    {
        let duration = match duration {
            Some(d) => d,
            None => 0,
        };
        let engine = VideoEngine {
            buffer: FrameBuffer::new(),
            running: false,
            audio_process: None,
            ffmpeg_process: None,
            seek_time: 0,
            duration,
            start_instant: now,
            session_id: 0,
            is_paused: false,
        };
        assert(engine@.frame.bytes =~= Seq::<u8>::empty());
        engine
    }

    /// The playback position at the clock reading `now`.
    pub fn position(&self, now: u64) -> (at: i64)
        ensures
            at == self@.position(now),
    {
        if self.is_paused {
            return self.seek_time;
        }
        let since: u64 = if now >= self.start_instant {
            now - self.start_instant
        } else {
            0
        };
        let sum: i128 = self.seek_time as i128 + since as i128;
        if sum > i64::MAX as i128 {
            i64::MAX
        } else {
            sum as i64
        }
    }

    /// Takes down what the current session has alive, and forgets it.
    fn stop_processes(&mut self) -> (teardown: Teardown)
        ensures
            teardown == old(self)@.teardown(),
            final(self)@ == (EngineModel {
                running: false,
                audio_process: None,
                ffmpeg_process: None,
                ..old(self)@
            }),
    {
        let teardown = Teardown {
            cancel: self.running,
            audio: self.audio_process,
            decoder: self.ffmpeg_process,
        };
        self.running = false;
        self.audio_process = None;
        self.ffmpeg_process = None;
        teardown
    }

    /// Supersedes the current session by a new one that plays from
    /// `seek_seconds` on into a blank frame of `term_w` by `term_h` cells.
    pub fn start(&mut self, term_w: usize, term_h: usize, seek_seconds: i64, now: u64) -> (plan:
        StartPlan)
        requires
            term_w * term_h <= usize::MAX,
            old(self).session_id < usize::MAX,
        ensures
            plan == old(self)@.start_plan(term_w, term_h, seek_seconds),
            final(self)@ == old(self)@.started(term_w, term_h, seek_seconds, now),
            final(self)@.frame.bytes.len() == term_w * term_h,
            final(self)@.session_id == old(self)@.session_id + 1,
            final(self)@.wf(),
    {
        let teardown = self.stop_processes();
        self.session_id = self.session_id + 1;
        self.running = true;
        self.is_paused = false;
        self.seek_time = seek_seconds;
        self.start_instant = now;
        self.buffer.reset(term_w, term_h);
        StartPlan {
            teardown,
            session_id: self.session_id,
            width: term_w,
            height: term_h,
            seek: seek_seconds,
        }
    }

    /// Takes note of the audio process that was started, or of the failure to
    /// start one. A handle that the note displaces is handed back, to be
    /// ended.
    pub fn audio_spawned(&mut self, handle: Option<ProcessHandle>) -> (displaced: Option<
        ProcessHandle,
    >)
        ensures
            displaced == old(self)@.audio_process,
            final(self)@ == (EngineModel { audio_process: handle, ..old(self)@ }),
            old(self)@.wf() ==> final(self)@.wf(),
    {
        let displaced = self.audio_process;
        self.audio_process = handle;
        displaced
    }

    /// Takes note of the decoder process that was started, or of the failure
    /// to start one, and says whether the decode thread is to run: only where
    /// there is a decoder.
    pub fn decoder_spawned(&mut self, handle: Option<ProcessHandle>) -> (decode: bool)
        ensures
            decode == handle is Some,
            final(self)@ == (EngineModel { ffmpeg_process: handle, ..old(self)@ }),
            old(self)@.wf() ==> final(self)@.wf(),
    {
        self.ffmpeg_process = handle;
        handle.is_some()
    }

    /// Ends the current session. Of an engine without a session it changes
    /// nothing and asks for nothing.
    pub fn stop(&mut self) -> (teardown: Teardown)
        ensures
            teardown == old(self)@.teardown(),
            final(self)@ == old(self)@.stopped(),
            old(self)@.idle() ==> teardown.is_empty() && final(self)@ == old(self)@,
            old(self)@.wf() ==> final(self)@.wf(),
    {
        let teardown = self.stop_processes();
        self.seek_time = 0;
        self.is_paused = false;
        teardown
    }

    /// Pauses playback, or resumes it.
    pub fn toggle_pause(&mut self, now: u64) -> (step: AudioStep)
        ensures
            step == old(self)@.toggle_step(),
            final(self)@ == old(self)@.toggled(now),
            final(self)@.session_id == old(self)@.session_id,
            old(self)@.wf() ==> final(self)@.wf(),
    {
        if self.is_paused {
            self.is_paused = false;
            self.start_instant = now;
            match self.audio_process {
                Some(handle) => AudioStep::Signal(handle, Signal::Continue),
                None => AudioStep::Spawn { terminate: None, seek: self.seek_time },
            }
        } else {
            self.seek_time = self.position(now);
            self.is_paused = true;
            match self.audio_process {
                Some(handle) => AudioStep::Signal(handle, Signal::Stop),
                None => AudioStep::Nothing,
            }
        }
    }

    /// Takes note of whether the signal that `toggle_pause` asked for was
    /// delivered, and says what follows.
    pub fn signal_result(&mut self, signal: Signal, delivered: bool) -> (step: AudioStep)
        ensures
            step == old(self)@.signal_step(signal, delivered),
            final(self)@ == old(self)@.signalled(delivered),
            old(self)@.wf() ==> final(self)@.wf(),
    {
        if delivered {
            return AudioStep::Nothing;
        }
        match self.audio_process {
            Some(handle) => {
                self.audio_process = None;
                match signal {
                    Signal::Stop => AudioStep::Kill(handle),
                    Signal::Continue => AudioStep::Spawn {
                        terminate: Some(handle),
                        seek: self.seek_time,
                    },
                }
            },
            None => AudioStep::Nothing,
        }
    }

    /// Jumps by `delta` from the current position. The decoder cannot seek,
    /// so the jump is a new session at the target.
    pub fn seek(&mut self, delta: i64, term_w: usize, term_h: usize, now: u64) -> (plan: StartPlan)
        requires
            term_w * term_h <= usize::MAX,
            old(self).session_id < usize::MAX,
        ensures
            plan == old(self)@.start_plan(
                term_w,
                term_h,
                seek_target(old(self)@.position(now), delta, old(self)@.duration),
            ),
            final(self)@ == old(self)@.started(
                term_w,
                term_h,
                seek_target(old(self)@.position(now), delta, old(self)@.duration),
                now,
            ),
            final(self)@.session_id == old(self)@.session_id + 1,
            0 <= final(self)@.seek_time,
            old(self)@.duration > 0 ==> final(self)@.seek_time < old(self)@.duration,
            final(self)@.wf(),
    {
        let target = clamp_seek(self.position(now), delta, self.duration);
        self.start(term_w, term_h, target, now)
    }
}

/// A seek lands at or after the start, and before the end of a video whose
/// duration is known.
pub proof fn lemma_seek_lands_in_video(position: i64, delta: i64, duration: i64)
    ensures
        0 <= seek_target(position, delta, duration),
        duration > 0 ==> seek_target(position, delta, duration) < duration,
{
}

/// A seek that stays inside the video lands where it aims, and so does
/// every seek that does not go before the start while the duration is not
/// known, as far as the target is a time that can be told.
pub proof fn lemma_seek_lands_where_it_aims(position: i64, delta: i64, duration: i64)
    requires
        0 <= position + delta,
    ensures
        duration > 0 && position + delta < duration ==> seek_target(position, delta, duration)
            == position + delta,
        duration <= 0 ==> seek_target(position, delta, duration) == saturate(position + delta),
        duration <= 0 && position + delta <= i64::MAX ==> seek_target(position, delta, duration)
            == position + delta,
{
}

/// After a seek the playback position, read at the moment of the seek, is
/// the target of the seek: at or after the start, and before the end of a
/// video whose duration is known.
pub proof fn lemma_position_after_seek(
    engine: EngineModel,
    delta: i64,
    width: usize,
    height: usize,
    now: u64,
)
    ensures
        ({
            let target = seek_target(engine.position(now), delta, engine.duration);
            let after = engine.started(width, height, target, now);
            &&& 0 <= after.position(now)
            &&& after.duration > 0 ==> after.position(now) < after.duration
            &&& after.position(now) == target
        }),
{
}

/// After `start` the frame buffer holds exactly `width * height` bytes.
pub proof fn lemma_start_sizes_frame(
    engine: EngineModel,
    width: usize,
    height: usize,
    seek: i64,
    now: u64,
)
    ensures
        engine.started(width, height, seek, now).frame.bytes.len() == width * height,
        engine.started(width, height, seek, now).frame.sized(),
{
}

/// A pause and a resume whose signals are both delivered leave the session
/// id as it was, keep the audio process, and at no step ask for a new one.
pub proof fn lemma_pause_resume_keeps_audio(
    engine: EngineModel,
    handle: ProcessHandle,
    paused_at: u64,
    resumed_at: u64,
)
    requires
        !engine.is_paused,
        engine.audio_process == Some(handle),
    ensures
        ({
            let paused = engine.toggled(paused_at);
            let held = paused.signalled(true);
            let resumed = held.toggled(resumed_at);
            let playing = resumed.signalled(true);
            &&& engine.toggle_step() == AudioStep::Signal(handle, Signal::Stop)
            &&& paused.signal_step(Signal::Stop, true) == AudioStep::Nothing
            &&& held.toggle_step() == AudioStep::Signal(handle, Signal::Continue)
            &&& resumed.signal_step(Signal::Continue, true) == AudioStep::Nothing
            &&& playing.session_id == engine.session_id
            &&& playing.audio_process == Some(handle)
            &&& !playing.is_paused
            &&& playing.seek_time == engine.position(paused_at)
        }),
{
}

/// To toggle the pause never changes the session id, whatever becomes of the
/// signals.
pub proof fn lemma_toggle_keeps_session(engine: EngineModel, now: u64, delivered: bool)
    ensures
        engine.toggled(now).session_id == engine.session_id,
        engine.toggled(now).signalled(delivered).session_id == engine.session_id,
{
}

/// To stop an engine without a session changes nothing, cancels nothing and
/// ends no process; so a second `stop` is a no-op.
pub proof fn lemma_stop_is_idempotent(engine: EngineModel)
    ensures
        engine.stopped().idle(),
        engine.stopped().stopped() == engine.stopped(),
        engine.stopped().teardown().is_empty(),
        engine.idle() ==> engine.stopped() == engine && engine.teardown().is_empty(),
{
}

/// Session ids never fall: `start` raises the id by one, and no other
/// operation changes it.
pub proof fn lemma_session_ids_rise(
    engine: EngineModel,
    width: usize,
    height: usize,
    seek: i64,
    now: u64,
    delivered: bool,
)
    requires
        engine.session_id < usize::MAX,
    ensures
        engine.started(width, height, seek, now).session_id == engine.session_id + 1,
        engine.stopped().session_id == engine.session_id,
        engine.toggled(now).session_id == engine.session_id,
        engine.signalled(delivered).session_id == engine.session_id,
{
}

/// No process is forgotten: what `start` and `stop` drop from the engine
/// they ask to end, and the audio process that a failed signal costs the
/// engine is killed or ended before another is started.
pub proof fn lemma_no_process_is_forgotten(
    engine: EngineModel,
    width: usize,
    height: usize,
    seek: i64,
    now: u64,
    signal: Signal,
)
    ensures
        engine.start_plan(width, height, seek).teardown.audio == engine.audio_process,
        engine.start_plan(width, height, seek).teardown.decoder == engine.ffmpeg_process,
        engine.started(width, height, seek, now).audio_process is None,
        engine.started(width, height, seek, now).ffmpeg_process is None,
        engine.teardown().audio == engine.audio_process,
        engine.teardown().decoder == engine.ffmpeg_process,
        engine.stopped().audio_process is None,
        engine.stopped().ffmpeg_process is None,
        engine.signalled(true) == engine,
        engine.signalled(false).audio_process is None,
        match engine.audio_process {
            Some(handle) => engine.signal_step(signal, false) == match signal {
                Signal::Stop => AudioStep::Kill(handle),
                Signal::Continue => AudioStep::Spawn {
                    terminate: Some(handle),
                    seek: engine.seek_time,
                },
            },
            None => engine.signal_step(signal, false) == AudioStep::Nothing,
        },
{
}

/// A frame buffer that `start` has sized stays sized: a frame that is
/// offered to it changes neither its length nor its geometry.
pub proof fn lemma_frame_stays_sized(frame: FrameModel, offered: Seq<u8>)
    ensures
        frame.offered(offered).bytes.len() == frame.bytes.len(),
        frame.offered(offered).width == frame.width,
        frame.offered(offered).height == frame.height,
        frame.sized() ==> frame.offered(offered).sized(),
{
}

/// The playback position never runs back as the clock goes on, and stands
/// still during a pause.
pub proof fn lemma_position_never_runs_back(engine: EngineModel, earlier: u64, later: u64)
    requires
        earlier <= later,
    ensures
        engine.position(earlier) <= engine.position(later),
        engine.is_paused ==> engine.position(earlier) == engine.position(later),
{
}

/// A seek by nothing from a position inside the video lands at that
/// position.
pub proof fn lemma_seek_by_nothing(position: i64, duration: i64)
    requires
        0 <= position,
        duration > 0 ==> position < duration,
    ensures
        seek_target(position, 0, duration) == position,
{
}

/// The processes that are alive, by role, as whoever carries out the
/// engine's plans leaves them.
pub struct Processes {
    pub audio: Set<ProcessHandle>,
    pub decoder: Set<ProcessHandle>,
}

/// The processes that a slot of the engine holds: one or none.
pub open spec fn held(slot: Option<ProcessHandle>) -> Set<ProcessHandle> {
    match slot {
        Some(handle) => set![handle],
        None => Set::empty(),
    }
}

impl Processes {
    /// The processes after those that a teardown names have been ended.
    pub open spec fn torn_down(self, teardown: Teardown) -> Processes {
        Processes {
            audio: self.audio.difference(held(teardown.audio)),
            decoder: self.decoder.difference(held(teardown.decoder)),
        }
    }

    /// The processes after an attempt to start an audio process, which
    /// gave `spawned`.
    pub open spec fn with_audio(self, spawned: Option<ProcessHandle>) -> Processes {
        Processes { audio: self.audio.union(held(spawned)), ..self }
    }

    /// The processes after an attempt to start a decoder process, which
    /// gave `spawned`.
    pub open spec fn with_decoder(self, spawned: Option<ProcessHandle>) -> Processes {
        Processes { decoder: self.decoder.union(held(spawned)), ..self }
    }

    /// The processes after an audio process has been ended or killed.
    pub open spec fn without_audio(self, ended: Option<ProcessHandle>) -> Processes {
        Processes { audio: self.audio.difference(held(ended)), ..self }
    }

    /// The processes after a step for the audio process has been carried
    /// out; `spawned` is what an attempt to start a process gave. A signal
    /// ends and starts nothing.
    pub open spec fn after_step(self, step: AudioStep, spawned: Option<ProcessHandle>) -> Processes {
        match step {
            AudioStep::Nothing => self,
            AudioStep::Signal(_, _) => self,
            AudioStep::Kill(handle) => self.without_audio(Some(handle)),
            AudioStep::Spawn { terminate, seek } => self.without_audio(terminate).with_audio(
                spawned,
            ),
        }
    }
}

impl EngineModel {
    /// The engine knows the processes that are alive: they are what its two
    /// slots hold, so that of each role at most one is alive.
    pub open spec fn knows(self, alive: Processes) -> bool {
        &&& alive.audio == held(self.audio_process)
        &&& alive.decoder == held(self.ffmpeg_process)
    }

    /// The engine after it was told of an audio process.
    pub open spec fn with_audio(self, spawned: Option<ProcessHandle>) -> EngineModel {
        EngineModel { audio_process: spawned, ..self }
    }

    /// The engine after it was told of a decoder process.
    pub open spec fn with_decoder(self, spawned: Option<ProcessHandle>) -> EngineModel {
        EngineModel { ffmpeg_process: spawned, ..self }
    }

    /// The engine after the outcome of a step for the audio process is
    /// known: after an attempt to start a process it is told what came of
    /// it.
    pub open spec fn after_step(self, step: AudioStep, spawned: Option<ProcessHandle>) -> EngineModel {
        match step {
            AudioStep::Spawn { terminate, seek } => self.with_audio(spawned),
            _ => self,
        }
    }
}

/// Of each role at most one process is alive where the engine knows the
/// processes.
pub proof fn lemma_one_process_of_each_role(engine: EngineModel, alive: Processes)
    requires
        engine.knows(alive),
    ensures
        alive.audio.finite(),
        alive.decoder.finite(),
        alive.audio.len() <= 1,
        alive.decoder.len() <= 1,
{
    assert(held(engine.audio_process).finite() && held(engine.audio_process).len() <= 1);
    assert(held(engine.ffmpeg_process).finite() && held(engine.ffmpeg_process).len() <= 1);
}

/// `start` leaks no process: once its plan is carried out (the teardown,
/// then the two attempts to start a process, each told to the engine), the
/// engine knows the processes that are alive again, however the attempts
/// went.
pub proof fn lemma_start_leaks_nothing(
    engine: EngineModel,
    alive: Processes,
    width: usize,
    height: usize,
    seek: i64,
    now: u64,
    audio: Option<ProcessHandle>,
    decoder: Option<ProcessHandle>,
)
    requires
        engine.knows(alive),
    ensures
        engine.started(width, height, seek, now).knows(
            alive.torn_down(engine.start_plan(width, height, seek).teardown),
        ),
        engine.started(width, height, seek, now).with_audio(audio).with_decoder(decoder).knows(
            alive.torn_down(engine.start_plan(width, height, seek).teardown).with_audio(
                audio,
            ).with_decoder(decoder),
        ),
{
    let plan = engine.start_plan(width, height, seek);
    let quiet = alive.torn_down(plan.teardown);
    assert(quiet.audio =~= Set::<ProcessHandle>::empty());
    assert(quiet.decoder =~= Set::<ProcessHandle>::empty());
    assert(quiet.with_audio(audio).audio =~= held(audio));
    assert(quiet.with_audio(audio).with_decoder(decoder).decoder =~= held(decoder));
}

/// `stop` leaks no process: once its teardown is carried out, no process is
/// alive, and the engine holds none.
pub proof fn lemma_stop_leaks_nothing(engine: EngineModel, alive: Processes)
    requires
        engine.knows(alive),
    ensures
        engine.stopped().knows(alive.torn_down(engine.teardown())),
        alive.torn_down(engine.teardown()).audio == Set::<ProcessHandle>::empty(),
        alive.torn_down(engine.teardown()).decoder == Set::<ProcessHandle>::empty(),
{
    let quiet = alive.torn_down(engine.teardown());
    assert(quiet.audio =~= Set::<ProcessHandle>::empty());
    assert(quiet.decoder =~= Set::<ProcessHandle>::empty());
}

/// To toggle the pause leaks no process: once the step that `toggle_pause`
/// asks for is carried out, and after a signal the step that
/// `signal_result` asks for, the engine knows the processes that are alive
/// again, whether the signal was delivered or not and however an attempt to
/// start a process went.
pub proof fn lemma_pause_leaks_nothing(
    engine: EngineModel,
    alive: Processes,
    now: u64,
    delivered: bool,
    spawned: Option<ProcessHandle>,
)
    requires
        engine.knows(alive),
    ensures
        ({
            let step = engine.toggle_step();
            let toggled = engine.toggled(now);
            match step {
                AudioStep::Signal(handle, signal) => {
                    let next = toggled.signal_step(signal, delivered);
                    toggled.signalled(delivered).after_step(next, spawned).knows(
                        alive.after_step(next, spawned),
                    )
                },
                _ => toggled.after_step(step, spawned).knows(alive.after_step(step, spawned)),
            }
        }),
{
    let step = engine.toggle_step();
    let toggled = engine.toggled(now);
    match step {
        AudioStep::Signal(handle, signal) => {
            let next = toggled.signal_step(signal, delivered);
            let after = alive.after_step(next, spawned);
            let told = toggled.signalled(delivered).after_step(next, spawned);
            assert(after.audio =~= held(told.audio_process));
            assert(after.decoder =~= held(told.ffmpeg_process));
        },
        _ => {
            let after = alive.after_step(step, spawned);
            let told = toggled.after_step(step, spawned);
            assert(after.audio =~= held(told.audio_process));
            assert(after.decoder =~= held(told.ffmpeg_process));
        },
    }
}

} // verus!
