//! What the worker does with a command: which of its tasks it ends, what it publishes at once, and
//! what it asks of the devices.

use crate::bus;
use crate::bus::{Bus, Command, ConnState, RecordConfig, RecordStatus, Shared};
use crate::ephemeris::SolarObject;
use crate::guiding::controller::GuideParams;
use crate::guiding::detector::GuideMode;
use crate::guiding::GuideSample;
use crate::recorder;
use crate::recorder::{SerError, SerOutput, SerRecorder, Tape};
use crate::scalar::Scalar;
use crate::text;
use crate::worker::replies;
use crate::worker::replies::note;
use vstd::prelude::*;

verus! {

/// What a session has bound.
#[derive(Clone, Copy, Debug, PartialEq, Eq, Structural)]
pub struct Bound {
    pub camera: bool,
    pub mount: bool,
}

/// What the worker has running.
#[derive(Clone, Copy, Debug, PartialEq, Eq, Structural)]
pub struct Worker {
    /// The session with the devices, if there is one.
    pub session: Option<Bound>,
    /// The video pipeline.
    pub frame_task: bool,
    pub guide_loop: bool,
    pub calib_task: bool,
    pub record_task: bool,
}

/// What the caller tears down before it takes up the task.
#[derive(Clone, Copy, Debug, PartialEq, Eq, Structural)]
pub struct Stops {
    pub session: bool,
    pub frames: bool,
    pub guide_loop: bool,
    pub calibration: bool,
    pub recording: bool,
}

/// What a command asks of the devices or of the machine.
#[allow(inconsistent_fields)]
#[derive(Debug)]
pub enum Task {
    /// Nothing.
    Done,
    /// Open a session.
    Connect(String),
    /// Bind another camera.
    SelectCamera(String),
    /// Bind another mount.
    SelectMount(String),
    /// Run a calibration beside everything else.
    Calibrate(Scalar),
    /// Wait for a measurement newer than this one to lock onto; then guide.
    Lock(u64),
    /// Wait for a measurement newer than this one to lock onto again.
    Relock(u64),
    /// Run a recording beside everything else; `mjpeg` where the stream is encoded as MJPEG.
    Record { cfg: RecordConfig, mjpeg: bool },
    StartStream,
    StopStream,
    SetGain(Scalar),
    /// Set the exposure; `streaming` where the stream is to be restarted for it.
    SetExposure { seconds: Scalar, streaming: bool },
    Nudge { dir: bus::Dir, active: bool },
    SetSlewRate { idx: usize, name: String },
    SetTrackMode { idx: usize, name: String },
    SetTracking(bool),
    Goto(SolarObject),
    Abort,
    /// Save the current frame in this folder.
    Capture(String),
    SetSwitch { prop: String, elem: String },
    /// Set the readout region; `streaming` where the stream is to be restarted for it.
    SetRoi { x: u32, y: u32, w: u32, h: u32, streaming: bool },
    SetBinning(u32),
    SetNumbers { device: String, prop: String, elems: Vec<(String, Scalar)> },
    SetSwitches { device: String, prop: String, elems: Vec<(String, bool)> },
    SetTexts { device: String, prop: String, elems: Vec<(String, String)> },
}

/// What a command comes to.
#[derive(Debug)]
pub struct Plan {
    pub stops: Stops,
    pub task: Task,
}

/// A log after several more lines.
pub open spec fn log_all(lines: Seq<Seq<char>>, notes: Seq<Seq<char>>) -> Seq<Seq<char>>
    decreases notes.len(),
{
    if notes.len() == 0 {
        lines
    } else {
        bus::logged(log_all(lines, notes.drop_last()), notes.last())
    }
}

/// Logging one more line goes on from what was logged.
pub proof fn lemma_log_one_more(lines: Seq<Seq<char>>, notes: Seq<Seq<char>>, msg: Seq<char>)
    ensures
        log_all(lines, notes.push(msg)) == bus::logged(log_all(lines, notes), msg),
{
    assert(notes.push(msg).drop_last() =~= notes);
}

/// The command changes what frames look like, so a lock point and a recording do not survive it.
pub open spec fn changes_frames(cmd: Command) -> bool {
    cmd is StopStream || cmd is SetRoi || cmd is ResetRoi
}

/// The command ends guiding and calibration.
pub open spec fn ends_guiding(cmd: Command, w: Worker) -> bool {
    ||| cmd is Disconnect
    ||| cmd is SelectCamera
    ||| cmd is SelectMount
    ||| cmd is StopGuiding
    ||| changes_frames(cmd) && w.guide_loop
}

/// The command ends a recording.
pub open spec fn ends_recording(cmd: Command, w: Worker) -> bool {
    ||| cmd is Disconnect
    ||| cmd is SelectCamera
    ||| cmd is StopRecording
    ||| changes_frames(cmd) && w.record_task
}

/// What is shared once guiding has ended.
pub open spec fn guiding_ended(s: Shared) -> Shared {
    Shared { guiding: false, calibrating: false, guide_err: None, ..s }
}

/// What is shared once a recording has ended.
pub open spec fn recording_ended(s: Shared) -> Shared {
    Shared {
        recording: RecordStatus {
            active: false,
            phase: bus::RecordPhase::Idle,
            ..s.recording
        },
        ..s
    }
}

/// The line, if any, that ending a recording logs: that finalizing the open file failed.
pub open spec fn finish_notes<W: SerOutput>(
    done: Option<Result<(u32, Tape<W>), SerError>>,
) -> Seq<Seq<char>> {
    match done {
        Some(Err(e)) => seq!["finalizing SER on stop: "@ + e.words()],
        _ => Seq::empty(),
    }
}

impl Worker {
    /// A worker without a session.
    pub fn new() -> (w: Worker)
        ensures
            w == (Worker {
                session: None,
                frame_task: false,
                guide_loop: false,
                calib_task: false,
                record_task: false,
            }),
    {
        Worker {
            session: None,
            frame_task: false,
            guide_loop: false,
            calib_task: false,
            record_task: false,
        }
    }

    /// The calibration has ended, so another one can begin.
    pub fn calibration_over(&mut self)
        ensures
            *final(self) == (Worker { calib_task: false, ..*old(self) }),
    {
        self.calib_task = false;
    }
}

/// Disarm the decoder, finalize whatever file remains installed, and publish that no recording
/// runs. Hands out what finalizing came to.
fn disarm<W: SerOutput>(bus: &mut Bus<W>) -> (done: Option<Result<(u32, Tape<W>), SerError>>)
    requires
        old(bus).wf(),
    ensures
        final(bus).wf(),
        *final(bus) == (Bus {
            recorder: None,
            recording_active: false,
            shared: recording_ended(old(bus).shared),
            ..*old(bus)
        }),
        recorder::file_finished(old(bus).recorder, done),
{
    let done: Option<Result<(u32, Tape<W>), SerError>> = finalize_leftover(bus);
    bus.shared.recording.active = false;
    bus.shared.recording.phase = bus::RecordPhase::Idle;
    done
}

/// What is shared once guiding and recording have ended as far as asked.
#[verifier::opaque]
pub open spec fn quieted(s: Shared, guiding: bool, recording: bool) -> Shared {
    let s1 = if guiding {
        guiding_ended(s)
    } else {
        s
    };
    if recording {
        recording_ended(s1)
    } else {
        s1
    }
}

/// Ending guiding and then a recording is ending both.
proof fn lemma_quieted(s: Shared, guiding: bool, recording: bool)
    ensures
        quieted(quieted(s, guiding, false), false, recording) == quieted(s, guiding, recording),
        bus::detection_wanted(quieted(s, guiding, recording)) == bus::detection_wanted(
            quieted(s, guiding, false),
        ),
        quieted(s, guiding, recording).log == s.log,
{
    reveal(quieted);
}

/// Clear the guiding telemetry flags, if asked.
fn stop_guiding<W: SerOutput>(bus: &mut Bus<W>, on: bool)
    requires
        old(bus).wf(),
    ensures
        final(bus).wf(),
        *final(bus) == (Bus {
            shared: quieted(old(bus).shared, on, false),
            detect_enabled: bus::detection_wanted(quieted(old(bus).shared, on, false)),
            ..*old(bus)
        }),
{
    proof {
        reveal(quieted);
    }
    if on {
        bus.shared.guiding = false;
        bus.shared.calibrating = false;
        bus.shared.guide_err = None;
        bus.refresh_detect();
    }
}

/// Finalize any SER file that a recording left open, if asked, so that the file is not left with a
/// zero frame count. Safe when not recording. Hands out what finalizing came to.
fn stop_recording<W: SerOutput>(bus: &mut Bus<W>, on: bool) -> (done: Option<
    Result<(u32, Tape<W>), SerError>,
>)
    requires
        old(bus).wf(),
    ensures
        final(bus).wf(),
        *final(bus) == (Bus {
            recorder: if on {
                None
            } else {
                old(bus).recorder
            },
            recording_active: old(bus).recording_active && !on,
            shared: quieted(old(bus).shared, false, on),
            ..*old(bus)
        }),
        on ==> recorder::file_finished(old(bus).recorder, done),
        !on ==> done is None,
{
    proof {
        reveal(quieted);
    }
    if on {
        disarm(bus)
    } else {
        None
    }
}

/// Log what ended.
fn note_ends<W: SerOutput>(
    bus: &mut Bus<W>,
    guiding: bool,
    done: &Option<Result<(u32, Tape<W>), SerError>>,
    recording: bool,
)
    requires
        old(bus).wf(),
    ensures
        final(bus).wf(),
        replies::noted(
            *old(bus),
            *final(bus),
            line_if(guiding, "guiding stopped (frame changed)"@) + finish_notes(*done) + line_if(
                recording,
                "recording stopped (frame changed)"@,
            ),
        ),
{
    let ghost b0 = *bus;
    let ghost mut notes: Seq<Seq<char>> = Seq::empty();
    let ghost first = line_if(guiding, "guiding stopped (frame changed)"@);
    let ghost extra = finish_notes(*done);
    if guiding {
        note(bus, Ghost(b0), Ghost(notes), "guiding stopped (frame changed)".to_owned());
        proof {
            notes = notes.push("guiding stopped (frame changed)"@);
        }
    }
    assert(notes =~= first);
    if let Some(Err(e)) = done {
        let msg: String = "finalizing SER on stop: ".to_owned().concat(e.describe().as_str());
        let ghost line = msg@;
        note(bus, Ghost(b0), Ghost(notes), msg);
        proof {
            notes = notes.push(line);
        }
    }
    assert(notes =~= first + extra);
    if recording {
        note(bus, Ghost(b0), Ghost(notes), "recording stopped (frame changed)".to_owned());
        proof {
            notes = notes.push("recording stopped (frame changed)"@);
        }
    }
    assert(notes =~= first + extra + line_if(recording, "recording stopped (frame changed)"@));
}

/// Disarm the decoder and finalize whatever file remains installed. Hands out what finalizing came
/// to.
fn finalize_leftover<W: SerOutput>(bus: &mut Bus<W>) -> (done: Option<
    Result<(u32, Tape<W>), SerError>,
>)
    ensures
        *final(bus) == (Bus { recorder: None, recording_active: false, ..*old(bus) }),
        recorder::file_finished(old(bus).recorder, done),
{
    bus.recording_active = false;
    let taken: Option<SerRecorder<W>> = bus.recorder.take();
    match taken {
        Some(rec) => Some(rec.finalize()),
        None => None,
    }
}

/// Nothing to tear down.
pub open spec fn no_stops() -> Stops {
    Stops { session: false, frames: false, guide_loop: false, calibration: false, recording: false }
}

fn nothing_stopped() -> (s: Stops)
    ensures
        s == no_stops(),
{
    Stops { session: false, frames: false, guide_loop: false, calibration: false, recording: false }
}

/// The lines of a log, as a sequence of one.
pub open spec fn line_if(said: bool, msg: Seq<char>) -> Seq<Seq<char>> {
    if said {
        seq![msg]
    } else {
        Seq::empty()
    }
}

/// Guiding with calibration, and recording, have ended as far as asked; where the frames changed
/// that is logged. A recording that ends finishes its file, and a failure to do so is logged.
#[verifier::opaque]
pub open spec fn tasks_ended<W: SerOutput>(
    w0: Worker,
    b0: Bus<W>,
    w1: Worker,
    b1: Bus<W>,
    stops: Stops,
    guiding: bool,
    recording: bool,
    changed: bool,
    done: Option<Result<(u32, Tape<W>), SerError>>,
) -> bool {
    let s2 = quieted(b0.shared, guiding, recording);
    &&& w1 == (Worker {
        guide_loop: w0.guide_loop && !guiding,
        calib_task: w0.calib_task && !guiding,
        record_task: w0.record_task && !recording,
        ..w0
    })
    &&& stops == (Stops {
        session: false,
        frames: false,
        guide_loop: w0.guide_loop && guiding,
        calibration: w0.calib_task && guiding,
        recording: w0.record_task && recording,
    })
    &&& !guiding && !recording ==> b1 == b0
    &&& b1 == (Bus {
        recorder: if recording {
            None
        } else {
            b0.recorder
        },
        recording_active: b0.recording_active && !recording,
        detect_enabled: bus::detection_wanted(s2),
        shared: b1.shared,
        ..b0
    })
    &&& b1.shared == (Shared { log: b1.shared.log, ..s2 })
    &&& recording ==> recorder::file_finished(b0.recorder, done)
    &&& !recording ==> done is None
    &&& b1.shared.lines() == log_all(
        b0.shared.lines(),
        line_if(guiding && changed, "guiding stopped (frame changed)"@) + finish_notes(done)
            + line_if(recording && changed, "recording stopped (frame changed)"@),
    )
}

/// The bus with one more line logged.
pub open spec fn said<W: SerOutput>(b0: Bus<W>, b1: Bus<W>, msg: Seq<char>) -> bool {
    b1 == (Bus { shared: b1.shared, ..b0 }) && b1.shared.is_logged(b0.shared, msg)
}

/// Lines in front join lines behind.
pub proof fn lemma_log_all_joins(lines: Seq<Seq<char>>, a: Seq<Seq<char>>, b: Seq<Seq<char>>)
    ensures
        log_all(log_all(lines, a), b) == log_all(lines, a + b),
    decreases b.len(),
{
    if b.len() == 0 {
        assert(a + b =~= a);
    } else {
        lemma_log_all_joins(lines, a, b.drop_last());
        assert((a + b).drop_last() =~= a + b.drop_last());
    }
}

pub proof fn lemma_log_one(lines: Seq<Seq<char>>, msg: Seq<char>)
    ensures
        log_all(lines, seq![msg]) == bus::logged(lines, msg),
{
    lemma_log_one_more(lines, Seq::empty(), msg);
    assert(Seq::<Seq<char>>::empty().push(msg) =~= seq![msg]);
}

impl Worker {
    /// End guiding and recording as far as asked.
    fn end_tasks<W: SerOutput>(
        &mut self,
        bus: &mut Bus<W>,
        guiding: bool,
        recording: bool,
        changed: bool,
    ) -> (r: (Stops, Option<Result<(u32, Tape<W>), SerError>>))
        requires
            old(bus).wf(),
        ensures
            final(bus).wf(),
            final(bus).ref_generation == old(bus).ref_generation,
            tasks_ended(
                *old(self),
                *old(bus),
                *final(self),
                *final(bus),
                r.0,
                guiding,
                recording,
                changed,
                r.1,
            ),
    {
        let mut stops: Stops = nothing_stopped();
        if !guiding && !recording {
            proof {
                let none = Seq::<Seq<char>>::empty();
                assert(none + none + none =~= none);
                reveal(quieted);
                reveal(tasks_ended);
            }
            return (stops, None);
        }
        stops.guide_loop = self.guide_loop && guiding;
        stops.calibration = self.calib_task && guiding;
        stops.recording = self.record_task && recording;
        self.guide_loop = self.guide_loop && !guiding;
        self.calib_task = self.calib_task && !guiding;
        self.record_task = self.record_task && !recording;
        stop_guiding(bus, guiding);
        let done: Option<Result<(u32, Tape<W>), SerError>> = stop_recording(bus, recording);
        proof {
            lemma_quieted(old(bus).shared, guiding, recording);
        }
        note_ends(bus, guiding && changed, &done, recording && changed);
        proof {
            reveal(tasks_ended);
        }
        (stops, done)
    }
}

/// The command is only answered with a line in the log.
pub open spec fn answered<W: SerOutput>(
    w0: Worker,
    b0: Bus<W>,
    w1: Worker,
    b1: Bus<W>,
    plan: Plan,
    msg: Seq<char>,
) -> bool {
    &&& w1 == w0
    &&& plan.stops == no_stops()
    &&& plan.task is Done
    &&& said(b0, b1, msg)
}

/// The command asks for a task and changes nothing by itself.
pub open spec fn tasked<W: SerOutput>(
    w0: Worker,
    b0: Bus<W>,
    w1: Worker,
    b1: Bus<W>,
    plan: Plan,
    task: Task,
) -> bool {
    &&& w1 == w0
    &&& b1 == b0
    &&& plan.stops == no_stops()
    &&& plan.task == task
}

/// The command takes effect on the bus at once.
pub open spec fn settled<W: SerOutput>(
    w0: Worker,
    w1: Worker,
    b: Bus<W>,
    b1: Bus<W>,
    plan: Plan,
) -> bool {
    &&& w1 == w0
    &&& b1 == b
    &&& plan.stops == no_stops()
    &&& plan.task is Done
}

/// Why a calibration cannot begin, if it cannot.
pub open spec fn calibrate_refusal(w: Worker, s: Shared) -> Option<Seq<char>> {
    if w.calib_task {
        Some("calibration already running"@)
    } else if w.guide_loop {
        Some("stop guiding before calibrating"@)
    } else {
        match w.session {
            None => Some("not connected"@),
            Some(bound) => if !s.streaming {
                Some("start the stream before calibrating"@)
            } else if !bound.mount {
                Some("no mount selected — cannot calibrate"@)
            } else {
                None
            },
        }
    }
}

/// Why guiding cannot begin, if it cannot: it takes a running stream, a calibration and a mount.
pub open spec fn guide_refusal(w: Worker, s: Shared) -> Option<Seq<char>> {
    if w.guide_loop {
        Some("already guiding"@)
    } else {
        match w.session {
            None => Some("not connected"@),
            Some(bound) => if !s.streaming {
                Some("start the stream before guiding"@)
            } else if !s.calibrated {
                Some("calibrate before guiding"@)
            } else if !bound.mount {
                Some("no mount selected — cannot guide"@)
            } else {
                None
            },
        }
    }
}

/// Why a recording cannot begin, if it cannot.
pub open spec fn record_refusal(w: Worker, s: Shared) -> Option<Seq<char>> {
    if w.record_task {
        Some("already recording"@)
    } else {
        match w.session {
            None => Some("not connected"@),
            Some(bound) => if !s.streaming {
                Some("start the stream before recording"@)
            } else if !bound.camera {
                Some("no camera selected — cannot record"@)
            } else {
                None
            },
        }
    }
}

/// The sequence number of the newest measurement, zero where there is none.
pub open spec fn newest_seq(sample: Option<GuideSample>) -> u64 {
    match sample {
        Some(s) => s.seq,
        None => 0,
    }
}

/// The stream is encoded as MJPEG: the first encoder switch says so.
pub open spec fn mjpeg_selected(switches: Seq<bus::CameraSwitch>) -> bool
    decreases switches.len(),
{
    if switches.len() == 0 {
        false
    } else if switches[0].prop@ == "CCD_STREAM_ENCODER"@ {
        text::upper(switches[0].selected@) == text::upper("MJPEG"@)
    } else {
        mjpeg_selected(switches.subrange(1, switches.len() as int))
    }
}

fn is_mjpeg_selected(switches: &Vec<bus::CameraSwitch>) -> (b: bool)
    ensures
        b == mjpeg_selected(switches@),
{
    let mut i: usize = 0;
    assert(switches@.subrange(0, switches@.len() as int) =~= switches@);
    while i < switches.len()
        invariant
            i <= switches.len(),
            mjpeg_selected(switches@) == mjpeg_selected(
                switches@.subrange(i as int, switches@.len() as int),
            ),
        decreases switches.len() - i,
    {
        let ghost rest = switches@.subrange(i as int, switches@.len() as int);
        assert(rest.subrange(1, rest.len() as int) =~= switches@.subrange(
            i + 1,
            switches@.len() as int,
        ));
        if text::same(switches[i].prop.as_str(), "CCD_STREAM_ENCODER") {
            return text::eq_ignore_ascii_case(switches[i].selected.as_str(), "MJPEG");
        }
        i += 1;
    }
    false
}

/// The task of a command that goes to the devices as it is, or why it cannot: it needs a camera, a
/// mount, or a sensor of known size.
pub open spec fn device_task<W: SerOutput>(cmd: Command, bound: Bound, b: Bus<W>) -> Result<
    Task,
    Seq<char>,
> {
    let no_camera = Err::<Task, Seq<char>>("error: no camera selected"@);
    let no_mount = Err::<Task, Seq<char>>("error: no mount selected"@);
    let sh = b.shared;
    match cmd {
        Command::StartStream => if bound.camera {
            Ok(Task::StartStream)
        } else {
            no_camera
        },
        Command::StopStream => if bound.camera {
            Ok(Task::StopStream)
        } else {
            no_camera
        },
        Command::SetGain(v) => if bound.camera {
            Ok(Task::SetGain(v))
        } else {
            no_camera
        },
        Command::SetExposure(v) => if bound.camera {
            Ok(Task::SetExposure { seconds: v, streaming: sh.streaming })
        } else {
            no_camera
        },
        Command::SetCameraSwitch { prop, elem } => if bound.camera {
            Ok(Task::SetSwitch { prop, elem })
        } else {
            no_camera
        },
        Command::SetRoi { x, y, w, h } => if bound.camera {
            Ok(Task::SetRoi { x, y, w, h, streaming: sh.streaming })
        } else {
            no_camera
        },
        Command::ResetRoi => if sh.sensor_w == 0 || sh.sensor_h == 0 {
            Err("error: sensor size unknown; cannot reset ROI"@)
        } else if bound.camera {
            Ok(
                Task::SetRoi {
                    x: 0,
                    y: 0,
                    w: sh.sensor_w,
                    h: sh.sensor_h,
                    streaming: sh.streaming,
                },
            )
        } else {
            no_camera
        },
        Command::SetBinning { bin } => if bound.camera {
            Ok(Task::SetBinning(bin))
        } else {
            no_camera
        },
        Command::Nudge { dir, active } => if bound.mount {
            Ok(Task::Nudge { dir, active })
        } else {
            no_mount
        },
        Command::SetSlewRate(idx) => if idx >= sh.slew_rates@.len() {
            Ok(Task::Done)
        } else if bound.mount {
            Ok(Task::SetSlewRate { idx, name: sh.slew_rates@[idx as int].0 })
        } else {
            no_mount
        },
        Command::SetTrackMode(idx) => if idx >= sh.track_modes@.len() {
            Ok(Task::Done)
        } else if bound.mount {
            Ok(Task::SetTrackMode { idx, name: sh.track_modes@[idx as int].0 })
        } else {
            no_mount
        },
        Command::SetTracking(on) => if bound.mount {
            Ok(Task::SetTracking(on))
        } else {
            no_mount
        },
        Command::GotoObject(obj) => if bound.mount {
            Ok(Task::Goto(obj))
        } else {
            no_mount
        },
        Command::Abort => if bound.mount {
            Ok(Task::Abort)
        } else {
            no_mount
        },
        Command::CaptureFrame { dir } => match b.latest_frame {
            None => Err("error: no frame to capture yet"@),
            Some(f) => if f.width * f.height * 4 <= f.rgba@.len() {
                Ok(Task::Capture(dir))
            } else {
                Err("error: frame buffer size mismatch"@)
            },
        },
        Command::SetIndiNumber { device, prop, elems } => Ok(
            Task::SetNumbers { device, prop, elems },
        ),
        Command::SetIndiSwitch { device, prop, elems } => Ok(
            Task::SetSwitches { device, prop, elems },
        ),
        Command::SetIndiText { device, prop, elems } => Ok(Task::SetTexts { device, prop, elems }),
        _ => Ok(Task::Done),
    }
}

fn camera_task(bound: Bound, task: Task) -> (r: Result<Task, String>)
    ensures
        bound.camera ==> r == Ok::<Task, String>(task),
        !bound.camera ==> (r matches Err(e) && e@ == "error: no camera selected"@),
{
    if bound.camera {
        Ok(task)
    } else {
        Err("error: no camera selected".to_owned())
    }
}

fn mount_task(bound: Bound, task: Task) -> (r: Result<Task, String>)
    ensures
        bound.mount ==> r == Ok::<Task, String>(task),
        !bound.mount ==> (r matches Err(e) && e@ == "error: no mount selected"@),
{
    if bound.mount {
        Ok(task)
    } else {
        Err("error: no mount selected".to_owned())
    }
}

/// Whether a frame buffer holds all of its pixels.
fn is_whole(f: &crate::frame::Frame) -> (b: bool)
    ensures
        b == (f.width * f.height * 4 <= f.rgba@.len()),
{
    let len: usize = f.rgba.len();
    match f.width.checked_mul(f.height) {
        None => false,
        Some(px) => match px.checked_mul(4) {
            None => false,
            Some(n) => n <= len,
        },
    }
}

/// Find the task of a command that goes to the devices as it is.
fn task_for<W: SerOutput>(cmd: Command, bound: Bound, bus: &Bus<W>) -> (r: Result<Task, String>)
    ensures
        match r {
            Ok(t) => device_task(cmd, bound, *bus) == Ok::<Task, Seq<char>>(t),
            Err(e) => device_task(cmd, bound, *bus) == Err::<Task, Seq<char>>(e@),
        },
{
    match cmd {
        Command::StartStream => camera_task(bound, Task::StartStream),
        Command::StopStream => camera_task(bound, Task::StopStream),
        Command::SetGain(v) => camera_task(bound, Task::SetGain(v)),
        Command::SetExposure(v) => camera_task(
            bound,
            Task::SetExposure { seconds: v, streaming: bus.shared.streaming },
        ),
        Command::SetCameraSwitch { prop, elem } => camera_task(
            bound,
            Task::SetSwitch { prop, elem },
        ),
        Command::SetRoi { x, y, w, h } => camera_task(
            bound,
            Task::SetRoi { x, y, w, h, streaming: bus.shared.streaming },
        ),
        Command::ResetRoi => {
            let w: u32 = bus.shared.sensor_w;
            let h: u32 = bus.shared.sensor_h;
            if w == 0 || h == 0 {
                return Err("error: sensor size unknown; cannot reset ROI".to_owned());
            }
            camera_task(bound, Task::SetRoi { x: 0, y: 0, w, h, streaming: bus.shared.streaming })
        },
        Command::SetBinning { bin } => camera_task(bound, Task::SetBinning(bin)),
        Command::Nudge { dir, active } => mount_task(bound, Task::Nudge { dir, active }),
        Command::SetSlewRate(idx) => {
            if idx >= bus.shared.slew_rates.len() {
                return Ok(Task::Done);
            }
            let name: String = bus.shared.slew_rates[idx].0.clone();
            mount_task(bound, Task::SetSlewRate { idx, name })
        },
        Command::SetTrackMode(idx) => {
            if idx >= bus.shared.track_modes.len() {
                return Ok(Task::Done);
            }
            let name: String = bus.shared.track_modes[idx].0.clone();
            mount_task(bound, Task::SetTrackMode { idx, name })
        },
        Command::SetTracking(on) => mount_task(bound, Task::SetTracking(on)),
        Command::GotoObject(obj) => mount_task(bound, Task::Goto(obj)),
        Command::Abort => mount_task(bound, Task::Abort),
        Command::CaptureFrame { dir } => match &bus.latest_frame {
            None => Err("error: no frame to capture yet".to_owned()),
            Some(f) => if is_whole(f) {
                Ok(Task::Capture(dir))
            } else {
                Err("error: frame buffer size mismatch".to_owned())
            },
        },
        Command::SetIndiNumber { device, prop, elems } => Ok(
            Task::SetNumbers { device, prop, elems },
        ),
        Command::SetIndiSwitch { device, prop, elems } => Ok(
            Task::SetSwitches { device, prop, elems },
        ),
        Command::SetIndiText { device, prop, elems } => Ok(Task::SetTexts { device, prop, elems }),
        _ => Ok(Task::Done),
    }
}

/// The name of a detection mode.
pub open spec fn mode_name(mode: GuideMode) -> Seq<char> {
    match mode {
        GuideMode::Disk => "Disk"@,
        GuideMode::Surface => "Surface"@,
    }
}

/// What a command comes to once the tasks it ends have ended.
#[verifier::opaque]
pub open spec fn planned<W: SerOutput>(
    cmd: Command,
    record_done: bool,
    w0: Worker,
    b0: Bus<W>,
    w1: Worker,
    b1: Bus<W>,
    plan: Plan,
) -> bool {
    let ended = Stops { session: w0.session is Some, frames: w0.frame_task, ..no_stops() };
    match cmd {
        Command::Connect { addr } => {
            &&& w1 == (Worker { session: None, frame_task: false, ..w0 })
            &&& plan.stops == ended
            &&& plan.task == Task::Connect(addr)
            &&& said(
                Bus { shared: Shared { conn: ConnState::Connecting, ..b0.shared }, ..b0 },
                b1,
                "connecting to "@ + addr@ + "…"@,
            )
        },
        Command::Disconnect => {
            &&& w1 == (Worker { session: None, frame_task: false, ..w0 })
            &&& plan.stops == ended
            &&& plan.task is Done
            &&& said(
                Bus {
                    shared: Shared {
                        streaming: false,
                        fps: Scalar::zero(),
                        conn: ConnState::Disconnected,
                        ..b0.shared
                    },
                    ..b0
                },
                b1,
                "disconnected"@,
            )
        },
        Command::SelectCamera(name) => if w0.session is Some {
            tasked(w0, b0, w1, b1, plan, Task::SelectCamera(name))
        } else {
            answered(w0, b0, w1, b1, plan, "not connected"@)
        },
        Command::SelectMount(name) => if w0.session is Some {
            tasked(w0, b0, w1, b1, plan, Task::SelectMount(name))
        } else {
            answered(w0, b0, w1, b1, plan, "not connected"@)
        },
        Command::Calibrate { pulse_ms } => match calibrate_refusal(w0, b0.shared) {
            Some(msg) => answered(w0, b0, w1, b1, plan, msg),
            None => {
                &&& w1 == (Worker { calib_task: true, ..w0 })
                &&& b1 == (Bus { ref_generation: (b0.ref_generation + 1) as u64, ..b0 })
                &&& plan.stops == no_stops()
                &&& plan.task == Task::Calibrate(pulse_ms)
            },
        },
        Command::StartGuiding => match guide_refusal(w0, b0.shared) {
            Some(msg) => answered(w0, b0, w1, b1, plan, msg),
            None => {
                &&& w1 == w0
                &&& b1 == (Bus {
                    shared: Shared { guiding: true, ..b0.shared },
                    detect_enabled: true,
                    ref_generation: (b0.ref_generation + 1) as u64,
                    ..b0
                })
                &&& plan.stops == no_stops()
                &&& plan.task == Task::Lock(newest_seq(b0.guide_sample))
            },
        },
        Command::StopGuiding => answered(w0, b0, w1, b1, plan, "guiding stopped"@),
        Command::StartRecording(cfg) => {
            // A sequence that finished on its own does not count as running.
            let w = Worker { record_task: w0.record_task && !record_done, ..w0 };
            match record_refusal(w, b0.shared) {
                Some(msg) => answered(w, b0, w1, b1, plan, msg),
                None => {
                    &&& w1 == (Worker { record_task: true, ..w })
                    &&& b1 == b0
                    &&& plan.stops == no_stops()
                    &&& plan.task == (Task::Record {
                        cfg,
                        mjpeg: mjpeg_selected(b0.shared.stream_switches@),
                    })
                },
            }
        },
        Command::StopRecording => answered(w0, b0, w1, b1, plan, "recording stopped"@),
        _ => match w0.session {
            None => answered(w0, b0, w1, b1, plan, "not connected"@),
            Some(bound) => dispatched(cmd, bound, w0, b0, w1, b1, plan),
        },
    }
}

/// The command steers the worker itself rather than the devices of its session.
pub open spec fn steers_worker(cmd: Command) -> bool {
    ||| cmd is Connect
    ||| cmd is Disconnect
    ||| cmd is SelectCamera
    ||| cmd is SelectMount
    ||| cmd is Calibrate
    ||| cmd is StartGuiding
    ||| cmd is StopGuiding
    ||| cmd is StartRecording
    ||| cmd is StopRecording
}

/// The command of a session takes effect without the devices.
pub open spec fn takes_effect_here(cmd: Command) -> bool {
    ||| cmd is SetGuideMode
    ||| cmd is SetGuideParams
    ||| cmd is SetDetectionOverlay
    ||| cmd is ClearCalibration
    ||| cmd is Relock
}

/// What a command for a bound session comes to.
#[verifier::opaque]
pub open spec fn dispatched<W: SerOutput>(
    cmd: Command,
    bound: Bound,
    w0: Worker,
    b0: Bus<W>,
    w1: Worker,
    b1: Bus<W>,
    plan: Plan,
) -> bool {
    let sh = b0.shared;
    match cmd {
        Command::SetGuideMode(mode) => {
            &&& w1 == w0
            &&& plan.stops == no_stops()
            &&& plan.task is Done
            &&& said(
                Bus {
                    guide_mode: mode.code(),
                    ref_generation: (b0.ref_generation + 1) as u64,
                    shared: Shared { guide_mode: mode, ..sh },
                    ..b0
                },
                b1,
                "guide mode: "@ + mode_name(mode),
            )
        },
        Command::SetGuideParams(params) => settled(
            w0,
            w1,
            Bus { shared: Shared { guide_params: params, ..sh }, ..b0 },
            b1,
            plan,
        ),
        Command::SetDetectionOverlay(on) => settled(
            w0,
            w1,
            Bus {
                shared: Shared {
                    detect_overlay: on,
                    detected: if on {
                        sh.detected
                    } else {
                        None
                    },
                    ..sh
                },
                detect_enabled: on || sh.calibrating || sh.guiding,
                ..b0
            },
            b1,
            plan,
        ),
        Command::ClearCalibration => settled(
            w0,
            w1,
            Bus { shared: Shared { guide_calib: None, calibrated: false, ..sh }, ..b0 },
            b1,
            plan,
        ),
        Command::Relock => {
            &&& w1 == w0
            &&& b1 == (Bus { ref_generation: (b0.ref_generation + 1) as u64, ..b0 })
            &&& plan.stops == no_stops()
            &&& plan.task == Task::Relock(newest_seq(b0.guide_sample))
        },
        _ => match device_task(cmd, bound, b0) {
            Ok(task) => tasked(w0, b0, w1, b1, plan, task),
            Err(msg) => answered(w0, b0, w1, b1, plan, msg),
        },
    }
}

fn say<W: SerOutput>(bus: &mut Bus<W>, msg: &str) -> (plan: Plan)
    requires
        old(bus).wf(),
    ensures
        final(bus).wf(),
        said(*old(bus), *final(bus), msg@),
        plan.stops == no_stops(),
        plan.task is Done,
{
    bus.log(msg.to_owned());
    Plan { stops: nothing_stopped(), task: Task::Done }
}

fn ask(task: Task) -> (plan: Plan)
    ensures
        plan.stops == no_stops(),
        plan.task == task,
{
    Plan { stops: nothing_stopped(), task }
}

fn change_mode<W: SerOutput>(bus: &mut Bus<W>, mode: GuideMode)
    requires
        old(bus).wf(),
        old(bus).ref_generation < u64::MAX,
    ensures
        final(bus).wf(),
        said(
            Bus {
                guide_mode: mode.code(),
                ref_generation: (old(bus).ref_generation + 1) as u64,
                shared: Shared { guide_mode: mode, ..old(bus).shared },
                ..*old(bus)
            },
            *final(bus),
            "guide mode: "@ + mode_name(mode),
        ),
{
    bus.set_guide_mode(mode);
    // Surface: recapture the reference under the new mode.
    let _ = bus.bump_ref_generation();
    bus.shared.guide_mode = mode;
    let name: &'static str = match mode {
        GuideMode::Disk => "Disk",
        GuideMode::Surface => "Surface",
    };
    bus.log("guide mode: ".to_owned().concat(name));
}

fn show_detection<W: SerOutput>(bus: &mut Bus<W>, on: bool)
    ensures
        *final(bus) == (Bus {
            shared: Shared {
                detect_overlay: on,
                detected: if on {
                    old(bus).shared.detected
                } else {
                    None
                },
                ..old(bus).shared
            },
            detect_enabled: on || old(bus).shared.calibrating || old(bus).shared.guiding,
            ..*old(bus)
        }),
{
    bus.shared.detect_overlay = on;
    if !on {
        bus.shared.detected = None;
    }
    bus.refresh_detect();
}

fn newest(sample: &Option<GuideSample>) -> (seq: u64)
    ensures
        seq == newest_seq(*sample),
{
    match sample {
        Some(s) => s.seq,
        None => 0,
    }
}

impl Worker {
    fn drop_session(&mut self) -> (stops: Stops)
        ensures
            stops == (Stops {
                session: old(self).session is Some,
                frames: old(self).frame_task,
                ..no_stops()
            }),
            *final(self) == (Worker { session: None, frame_task: false, ..*old(self) }),
    {
        let mut stops: Stops = nothing_stopped();
        stops.session = self.session.is_some();
        stops.frames = self.frame_task;
        self.session = None;
        self.frame_task = false;
        stops
    }

    fn plan_connect<W: SerOutput>(&mut self, bus: &mut Bus<W>, addr: String, record_done: bool) -> (plan: Plan)
        requires
            old(bus).wf(),
        ensures
            final(bus).wf(),
            planned(
                Command::Connect { addr },
                record_done,
                *old(self),
                *old(bus),
                *final(self),
                *final(bus),
                plan,
            ),
    {
        proof {
            reveal(planned);
        }
        let stops: Stops = self.drop_session();
        bus.shared.conn = ConnState::Connecting;
        bus.log("connecting to ".to_owned().concat(addr.as_str()).concat("…"));
        Plan { stops, task: Task::Connect(addr) }
    }

    fn plan_disconnect<W: SerOutput>(&mut self, bus: &mut Bus<W>, record_done: bool) -> (plan: Plan)
        requires
            old(bus).wf(),
        ensures
            final(bus).wf(),
            planned(
                Command::Disconnect,
                record_done,
                *old(self),
                *old(bus),
                *final(self),
                *final(bus),
                plan,
            ),
    {
        proof {
            reveal(planned);
        }
        let stops: Stops = self.drop_session();
        bus.shared.streaming = false;
        bus.shared.fps = Scalar::new_zero();
        bus.shared.conn = ConnState::Disconnected;
        bus.log("disconnected".to_owned());
        Plan { stops, task: Task::Done }
    }

    fn plan_calibrate<W: SerOutput>(&mut self, bus: &mut Bus<W>, pulse_ms: Scalar, record_done: bool) -> (plan: Plan)
        requires
            old(bus).wf(),
            old(bus).ref_generation < u64::MAX,
        ensures
            final(bus).wf(),
            planned(
                Command::Calibrate { pulse_ms },
                record_done,
                *old(self),
                *old(bus),
                *final(self),
                *final(bus),
                plan,
            ),
    {
        proof {
            reveal(planned);
        }
        if self.calib_task {
            return say(bus, "calibration already running");
        }
        if self.guide_loop {
            return say(bus, "stop guiding before calibrating");
        }
        match self.session {
            None => say(bus, "not connected"),
            Some(bound) => {
                if !bus.shared.streaming {
                    return say(bus, "start the stream before calibrating");
                }
                if !bound.mount {
                    return say(bus, "no mount selected — cannot calibrate");
                }
                // A fresh Surface reference at the frame center.
                let _ = bus.bump_ref_generation();
                self.calib_task = true;
                ask(Task::Calibrate(pulse_ms))
            },
        }
    }

    /// Begin guiding: require a calibration and a running stream, turn detection on, and ask for a
    /// fresh measurement to lock onto.
    fn start_guiding<W: SerOutput>(&mut self, bus: &mut Bus<W>, record_done: bool) -> (plan: Plan)
        requires
            old(bus).wf(),
            old(bus).ref_generation < u64::MAX,
        ensures
            final(bus).wf(),
            planned(
                Command::StartGuiding,
                record_done,
                *old(self),
                *old(bus),
                *final(self),
                *final(bus),
                plan,
            ),
    {
        proof {
            reveal(planned);
        }
        if self.guide_loop {
            return say(bus, "already guiding");
        }
        match self.session {
            None => say(bus, "not connected"),
            Some(bound) => {
                if !bus.shared.streaming {
                    return say(bus, "start the stream before guiding");
                }
                if !bus.shared.calibrated {
                    return say(bus, "calibrate before guiding");
                }
                if !bound.mount {
                    return say(bus, "no mount selected — cannot guide");
                }
                bus.shared.guiding = true;
                bus.refresh_detect();
                // Surface: recapture the reference at the lock position.
                let _ = bus.bump_ref_generation();
                ask(Task::Lock(newest(&bus.guide_sample)))
            },
        }
    }

    /// Begin a recording sequence: require a running stream and a camera.
    fn start_recording<W: SerOutput>(
        &mut self,
        bus: &mut Bus<W>,
        cfg: RecordConfig,
        record_done: bool,
    ) -> (plan: Plan)
        requires
            old(bus).wf(),
        ensures
            final(bus).wf(),
            planned(
                Command::StartRecording(cfg),
                record_done,
                *old(self),
                *old(bus),
                *final(self),
                *final(bus),
                plan,
            ),
    {
        proof {
            reveal(planned);
        }
        if record_done {
            self.record_task = false;
        }
        if self.record_task {
            return say(bus, "already recording");
        }
        match self.session {
            None => say(bus, "not connected"),
            Some(bound) => {
                if !bus.shared.streaming {
                    return say(bus, "start the stream before recording");
                }
                if !bound.camera {
                    return say(bus, "no camera selected — cannot record");
                }
                self.record_task = true;
                let mjpeg: bool = is_mjpeg_selected(&bus.shared.stream_switches);
                ask(Task::Record { cfg, mjpeg })
            },
        }
    }

    /// Translate a command for a bound session into what it publishes and asks for.
    fn dispatch<W: SerOutput>(&self, bus: &mut Bus<W>, cmd: Command, bound: Bound) -> (plan:
        Plan)
        requires
            old(bus).wf(),
            old(bus).ref_generation < u64::MAX,
        ensures
            final(bus).wf(),
            dispatched(cmd, bound, *self, *old(bus), *self, *final(bus), plan),
    {
        match cmd {
            Command::SetGuideMode(mode) => self.set_guide_mode(bus, mode, bound),
            Command::SetGuideParams(params) => self.set_guide_params(bus, params, bound),
            Command::SetDetectionOverlay(on) => self.set_overlay(bus, on, bound),
            Command::ClearCalibration => self.clear_calibration(bus, bound),
            Command::Relock => self.relock(bus, bound),
            other => self.pass_on(bus, other, bound),
        }
    }

    fn set_guide_mode<W: SerOutput>(&self, bus: &mut Bus<W>, mode: GuideMode, bound: Bound) -> (
    plan: Plan)
        requires
            old(bus).wf(),
            old(bus).ref_generation < u64::MAX,
        ensures
            final(bus).wf(),
            dispatched(
                Command::SetGuideMode(mode),
                bound,
                *self,
                *old(bus),
                *self,
                *final(bus),
                plan,
            ),
    {
        change_mode(bus, mode);
        proof {
            reveal(dispatched);
        }
        ask(Task::Done)
    }

    fn set_guide_params<W: SerOutput>(&self, bus: &mut Bus<W>, params: GuideParams, bound: Bound) -> (
    plan: Plan)
        requires
            old(bus).wf(),
        ensures
            final(bus).wf(),
            dispatched(
                Command::SetGuideParams(params),
                bound,
                *self,
                *old(bus),
                *self,
                *final(bus),
                plan,
            ),
    {
        bus.shared.guide_params = params;
        proof {
            reveal(dispatched);
        }
        ask(Task::Done)
    }

    fn set_overlay<W: SerOutput>(&self, bus: &mut Bus<W>, on: bool, bound: Bound) -> (plan: Plan)
        requires
            old(bus).wf(),
        ensures
            final(bus).wf(),
            dispatched(
                Command::SetDetectionOverlay(on),
                bound,
                *self,
                *old(bus),
                *self,
                *final(bus),
                plan,
            ),
    {
        show_detection(bus, on);
        proof {
            reveal(dispatched);
        }
        ask(Task::Done)
    }

    fn clear_calibration<W: SerOutput>(&self, bus: &mut Bus<W>, bound: Bound) -> (plan: Plan)
        requires
            old(bus).wf(),
        ensures
            final(bus).wf(),
            dispatched(
                Command::ClearCalibration,
                bound,
                *self,
                *old(bus),
                *self,
                *final(bus),
                plan,
            ),
    {
        bus.shared.guide_calib = None;
        bus.shared.calibrated = false;
        proof {
            reveal(dispatched);
        }
        ask(Task::Done)
    }

    /// Re-acquire the lock point (and Surface reference) at the current target position.
    fn relock<W: SerOutput>(&self, bus: &mut Bus<W>, bound: Bound) -> (plan: Plan)
        requires
            old(bus).wf(),
            old(bus).ref_generation < u64::MAX,
        ensures
            final(bus).wf(),
            dispatched(Command::Relock, bound, *self, *old(bus), *self, *final(bus), plan),
    {
        let _ = bus.bump_ref_generation();
        proof {
            reveal(dispatched);
        }
        ask(Task::Relock(newest(&bus.guide_sample)))
    }

    /// Hand a command on to the devices, or say why it cannot be.
    fn pass_on<W: SerOutput>(&self, bus: &mut Bus<W>, cmd: Command, bound: Bound) -> (plan: Plan)
        requires
            old(bus).wf(),
            !takes_effect_here(cmd),
        ensures
            final(bus).wf(),
            dispatched(cmd, bound, *self, *old(bus), *self, *final(bus), plan),
    {
        proof {
            reveal(dispatched);
        }
        match task_for(cmd, bound, bus) {
            Ok(task) => ask(task),
            Err(msg) => say(bus, msg.as_str()),
        }
    }

    /// Bind another device, or stop something that has ended by now.
    fn plan_simple<W: SerOutput>(&self, bus: &mut Bus<W>, cmd: Command) -> (plan: Plan)
        requires
            old(bus).wf(),
            cmd is SelectCamera || cmd is SelectMount || cmd is StopGuiding || cmd is StopRecording,
        ensures
            final(bus).wf(),
            planned(cmd, false, *self, *old(bus), *self, *final(bus), plan),
            planned(cmd, true, *self, *old(bus), *self, *final(bus), plan),
    {
        proof {
            reveal(planned);
        }
        match cmd {
            Command::SelectCamera(name) => if self.session.is_some() {
                ask(Task::SelectCamera(name))
            } else {
                say(bus, "not connected")
            },
            Command::SelectMount(name) => if self.session.is_some() {
                ask(Task::SelectMount(name))
            } else {
                say(bus, "not connected")
            },
            Command::StopGuiding => say(bus, "guiding stopped"),
            _ => say(bus, "recording stopped"),
        }
    }

    /// A command that goes to the session, where there is one.
    fn plan_dispatch<W: SerOutput>(&mut self, bus: &mut Bus<W>, cmd: Command, record_done: bool) -> (
    plan: Plan)
        requires
            old(bus).wf(),
            old(bus).ref_generation < u64::MAX,
            !steers_worker(cmd),
        ensures
            final(bus).wf(),
            planned(cmd, record_done, *old(self), *old(bus), *final(self), *final(bus), plan),
    {
        proof {
            reveal(planned);
        }
        match self.session {
            None => say(bus, "not connected"),
            Some(bound) => self.dispatch(bus, cmd, bound),
        }
    }

    fn plan<W: SerOutput>(&mut self, bus: &mut Bus<W>, cmd: Command, record_done: bool) -> (plan:
        Plan)
        requires
            old(bus).wf(),
            old(bus).ref_generation < u64::MAX,
        ensures
            final(bus).wf(),
            planned(cmd, record_done, *old(self), *old(bus), *final(self), *final(bus), plan),
    {
        match cmd {
            Command::Connect { addr } => self.plan_connect(bus, addr, record_done),
            Command::Disconnect => self.plan_disconnect(bus, record_done),
            Command::Calibrate { pulse_ms } => self.plan_calibrate(bus, pulse_ms, record_done),
            Command::StartGuiding => self.start_guiding(bus, record_done),
            Command::StartRecording(cfg) => self.start_recording(bus, cfg, record_done),
            Command::SelectCamera(name) => self.plan_simple(bus, Command::SelectCamera(name)),
            Command::SelectMount(name) => self.plan_simple(bus, Command::SelectMount(name)),
            Command::StopGuiding => self.plan_simple(bus, Command::StopGuiding),
            Command::StopRecording => self.plan_simple(bus, Command::StopRecording),
            other => self.plan_dispatch(bus, other, record_done),
        }
    }

    /// Take up a command: end the tasks that do not survive it, publish what changes at once, and
    /// say what is to be torn down and what is asked of the devices. `record_done` tells that the
    /// recording task has finished on its own. Hands out what finishing the file of an ended
    /// recording came to.
    pub fn handle<W: SerOutput>(&mut self, bus: &mut Bus<W>, cmd: Command, record_done: bool) -> (
    r: (Plan, Option<Result<(u32, Tape<W>), SerError>>))
        requires
            old(bus).wf(),
            old(bus).ref_generation < u64::MAX,
        ensures
            final(bus).wf(),
            handled(cmd, record_done, *old(self), *old(bus), *final(self), *final(bus), r.0, r.1),
    {
        let ghost w0 = *self;
        let ghost b0 = *bus;
        let changed: bool = match &cmd {
            Command::StopStream => true,
            Command::SetRoi { .. } => true,
            Command::ResetRoi => true,
            _ => false,
        };
        let guiding: bool = match &cmd {
            Command::Disconnect => true,
            Command::SelectCamera(_) => true,
            Command::SelectMount(_) => true,
            Command::StopGuiding => true,
            _ => changed && self.guide_loop,
        };
        let recording: bool = match &cmd {
            Command::Disconnect => true,
            Command::SelectCamera(_) => true,
            Command::StopRecording => true,
            _ => changed && self.record_task,
        };
        let (ended, done) = self.end_tasks(bus, guiding, recording, changed);
        let ghost w = *self;
        let ghost b = *bus;
        let next: Plan = self.plan(bus, cmd, record_done);
        let plan = Plan {
            stops: Stops {
                session: next.stops.session,
                frames: next.stops.frames,
                guide_loop: ended.guide_loop,
                calibration: ended.calibration,
                recording: ended.recording,
            },
            task: next.task,
        };
        proof {
            assert(passes(cmd, record_done, w0, b0, w, b, ended, *self, *bus, next, plan, done));
        }
        (plan, done)
    }
}

/// A command ended tasks on the way from `(w0, b0)` to `(w, b)`, and came to the rest from there.
pub open spec fn passes<W: SerOutput>(
    cmd: Command,
    record_done: bool,
    w0: Worker,
    b0: Bus<W>,
    w: Worker,
    b: Bus<W>,
    ended: Stops,
    w1: Worker,
    b1: Bus<W>,
    next: Plan,
    plan: Plan,
    done: Option<Result<(u32, Tape<W>), SerError>>,
) -> bool {
    &&& tasks_ended(
        w0,
        b0,
        w,
        b,
        ended,
        ends_guiding(cmd, w0),
        ends_recording(cmd, w0),
        changes_frames(cmd),
        done,
    )
    &&& planned(cmd, record_done, w, b, w1, b1, next)
    &&& plan.task == next.task
    &&& plan.stops == (Stops {
        session: next.stops.session,
        frames: next.stops.frames,
        guide_loop: ended.guide_loop,
        calibration: ended.calibration,
        recording: ended.recording,
    })
}

/// What a command comes to.
pub open spec fn handled<W: SerOutput>(
    cmd: Command,
    record_done: bool,
    w0: Worker,
    b0: Bus<W>,
    w1: Worker,
    b1: Bus<W>,
    plan: Plan,
    done: Option<Result<(u32, Tape<W>), SerError>>,
) -> bool {
    exists|w: Worker, b: Bus<W>, ended: Stops, next: Plan| #[trigger]
        passes(cmd, record_done, w0, b0, w, b, ended, w1, b1, next, plan, done)
}

/// Calibration must succeed before guiding: a target is only locked with a calibration, a running
/// stream and a mount, and never while the guide loop already runs.
pub proof fn law_guiding_takes_a_calibration<W: SerOutput>(
    record_done: bool,
    w0: Worker,
    b0: Bus<W>,
    w1: Worker,
    b1: Bus<W>,
    plan: Plan,
    done: Option<Result<(u32, Tape<W>), SerError>>,
)
    requires
        handled(Command::StartGuiding, record_done, w0, b0, w1, b1, plan, done),
        plan.task is Lock,
    ensures
        b0.shared.calibrated,
        b0.shared.streaming,
        w0.session matches Some(bound) && bound.mount,
        !w0.guide_loop,
        b1.shared.guiding,
        b1.detect_enabled,
{
    let cmd = Command::StartGuiding;
    let (w, b, ended, next) = choose|w: Worker, b: Bus<W>, ended: Stops, next: Plan| #[trigger]
        passes(cmd, record_done, w0, b0, w, b, ended, w1, b1, next, plan, done);
    reveal(tasks_ended);
    reveal(planned);
}

/// Disconnecting leaves nothing behind: no session, no task, no open file, and nothing published as
/// running. A file that was open is finished.
pub proof fn law_disconnect_ends_everything<W: SerOutput>(
    record_done: bool,
    w0: Worker,
    b0: Bus<W>,
    w1: Worker,
    b1: Bus<W>,
    plan: Plan,
    done: Option<Result<(u32, Tape<W>), SerError>>,
)
    requires
        handled(Command::Disconnect, record_done, w0, b0, w1, b1, plan, done),
    ensures
        w1 == (Worker {
            session: None,
            frame_task: false,
            guide_loop: false,
            calib_task: false,
            record_task: false,
        }),
        plan.task is Done,
        plan.stops == (Stops {
            session: w0.session is Some,
            frames: w0.frame_task,
            guide_loop: w0.guide_loop,
            calibration: w0.calib_task,
            recording: w0.record_task,
        }),
        b1.shared.conn == ConnState::Disconnected,
        !b1.shared.streaming,
        !b1.shared.guiding,
        !b1.shared.calibrating,
        !b1.shared.recording.active,
        !b1.recording_active,
        b1.recorder is None,
        recorder::file_finished(b0.recorder, done),
{
    let cmd = Command::Disconnect;
    let (w, b, ended, next) = choose|w: Worker, b: Bus<W>, ended: Stops, next: Plan| #[trigger]
        passes(cmd, record_done, w0, b0, w, b, ended, w1, b1, next, plan, done);
    reveal(tasks_ended);
    reveal(planned);
    reveal(quieted);
}

/// Stopping the stream or changing the region invalidates the lock point and the geometry of a
/// recording, so neither the guide loop nor a recording survives it.
pub proof fn law_frame_changes_end_guiding_and_recording<W: SerOutput>(
    cmd: Command,
    record_done: bool,
    w0: Worker,
    b0: Bus<W>,
    w1: Worker,
    b1: Bus<W>,
    plan: Plan,
    done: Option<Result<(u32, Tape<W>), SerError>>,
)
    requires
        changes_frames(cmd),
        handled(cmd, record_done, w0, b0, w1, b1, plan, done),
    ensures
        !w1.guide_loop,
        !w1.record_task,
        plan.stops.guide_loop == w0.guide_loop,
        plan.stops.recording == w0.record_task,
        w0.guide_loop ==> !b1.shared.guiding,
        w0.record_task ==> b1.recorder is None && !b1.recording_active && recorder::file_finished(
            b0.recorder,
            done,
        ),
{
    let (w, b, ended, next) = choose|w: Worker, b: Bus<W>, ended: Stops, next: Plan| #[trigger]
        passes(cmd, record_done, w0, b0, w, b, ended, w1, b1, next, plan, done);
    reveal(tasks_ended);
    reveal(planned);
    reveal(dispatched);
    reveal(quieted);
}

/// A recording that is stopped leaves no file without its frame count: an open one is finished.
pub proof fn law_stopping_finishes_the_file<W: SerOutput>(
    record_done: bool,
    w0: Worker,
    b0: Bus<W>,
    w1: Worker,
    b1: Bus<W>,
    plan: Plan,
    done: Option<Result<(u32, Tape<W>), SerError>>,
)
    requires
        handled(Command::StopRecording, record_done, w0, b0, w1, b1, plan, done),
    ensures
        recorder::file_finished(b0.recorder, done),
        b1.recorder is None,
        !b1.recording_active,
        !b1.shared.recording.active,
        !w1.record_task,
        plan.stops.recording == w0.record_task,
{
    let cmd = Command::StopRecording;
    let (w, b, ended, next) = choose|w: Worker, b: Bus<W>, ended: Stops, next: Plan| #[trigger]
        passes(cmd, record_done, w0, b0, w, b, ended, w1, b1, next, plan, done);
    reveal(tasks_ended);
    reveal(planned);
    reveal(quieted);
}

/// A calibration that is over, however it ended, does not stand in the way of the next one.
pub proof fn law_calibration_can_be_repeated(w: Worker, over: Worker, s: Shared)
    requires
        over == (Worker { calib_task: false, ..w }),
        !w.guide_loop,
        w.session matches Some(bound) && bound.mount,
        s.streaming,
    ensures
        calibrate_refusal(over, s) is None,
{
}

/// Without a session no command reaches a device: only a connection can be asked for.
pub proof fn law_nothing_reaches_devices_without_a_session<W: SerOutput>(
    cmd: Command,
    record_done: bool,
    w0: Worker,
    b0: Bus<W>,
    w1: Worker,
    b1: Bus<W>,
    plan: Plan,
    done: Option<Result<(u32, Tape<W>), SerError>>,
)
    requires
        w0.session is None,
        handled(cmd, record_done, w0, b0, w1, b1, plan, done),
    ensures
        plan.task is Done || cmd is Connect && plan.task is Connect,
        w1.session is None,
{
    let (w, b, ended, next) = choose|w: Worker, b: Bus<W>, ended: Stops, next: Plan| #[trigger]
        passes(cmd, record_done, w0, b0, w, b, ended, w1, b1, next, plan, done);
    reveal(tasks_ended);
    reveal(planned);
}

} // verus!
