//! What a command comes to: which commands are carried out, which are refused and why, and what
//! reaches the devices.

use crate::bus;
use crate::bus::{Bus, Command, ConnState, RecordConfig, RecordPhase};
use crate::guiding::detector::GuideMode;
use crate::recorder;
use crate::recorder::{SerError, SerOutput, Tape};
use crate::scalar::Scalar;
use crate::text;
use crate::worker::commands;
use crate::worker::commands::{Bound, Plan, Stops, Task, Worker};
use vstd::prelude::*;

verus! {

/// A command was refused: nothing is asked of the devices, nothing is stopped, nothing but the log
/// changes, and the log says why.
pub open spec fn refused<W: SerOutput>(
    w: Worker,
    b0: Bus<W>,
    w1: Worker,
    b1: Bus<W>,
    plan: Plan,
    why: Seq<char>,
) -> bool {
    &&& plan.task is Done
    &&& !plan.stops.session && !plan.stops.frames && !plan.stops.guide_loop
    &&& !plan.stops.calibration && !plan.stops.recording
    &&& w1 == w
    &&& b1 == (Bus { shared: b1.shared, ..b0 })
    &&& b1.shared == (bus::Shared { log: b1.shared.log, ..b0.shared })
    &&& b1.shared.lines() == bus::logged(b0.shared.lines(), why)
}

/// The switch at `k` is the one that selects the stream encoder.
pub open spec fn selects_encoder(switches: Seq<bus::CameraSwitch>, k: int) -> bool {
    &&& 0 <= k < switches.len()
    &&& switches[k].prop@ == "CCD_STREAM_ENCODER"@
    &&& forall|j: int|
        0 <= j < k ==> (#[trigger] switches[j]).prop@ != "CCD_STREAM_ENCODER"@
}

/// A text is `MJPEG`, in whatever case its letters are written.
pub open spec fn spells_mjpeg(s: Seq<char>) -> bool {
    &&& s.len() == 5
    &&& s[0] == 'M' || s[0] == 'm'
    &&& s[1] == 'J' || s[1] == 'j'
    &&& s[2] == 'P' || s[2] == 'p'
    &&& s[3] == 'E' || s[3] == 'e'
    &&& s[4] == 'G' || s[4] == 'g'
}

proof fn lemma_spelling(s: Seq<char>)
    ensures
        text::upper(s) == text::upper("MJPEG"@) <==> spells_mjpeg(s),
{
    let m = "MJPEG"@;
    reveal_strlit("MJPEG");
    text::law_case_is_all_that_is_ignored(s, m);
    assert(m.len() == 5);
    assert(m[0] == 'M' && m[1] == 'J' && m[2] == 'P' && m[3] == 'E' && m[4] == 'G');
    if s.len() == 5 && forall|i: int|
        0 <= i < s.len() ==> text::same_but_case(#[trigger] s[i], m[i]) {
        assert(text::same_but_case(s[0], m[0]));
        assert(text::same_but_case(s[1], m[1]));
        assert(text::same_but_case(s[2], m[2]));
        assert(text::same_but_case(s[3], m[3]));
        assert(text::same_but_case(s[4], m[4]));
    }
    if spells_mjpeg(s) {
        assert forall|i: int| 0 <= i < s.len() implies text::same_but_case(
            #[trigger] s[i],
            m[i],
        ) by {
            assert(i == 0 || i == 1 || i == 2 || i == 3 || i == 4);
        }
    }
}

proof fn lemma_encoder(switches: Seq<bus::CameraSwitch>)
    ensures
        (forall|j: int|
            0 <= j < switches.len() ==> (#[trigger] switches[j]).prop@ != "CCD_STREAM_ENCODER"@)
            ==> !commands::mjpeg_selected(switches),
        forall|k: int| #[trigger]
            selects_encoder(switches, k) ==> (commands::mjpeg_selected(switches) <==> spells_mjpeg(
                switches[k].selected@,
            )),
    decreases switches.len(),
{
    if switches.len() > 0 {
        lemma_spelling(switches[0].selected@);
        let rest = switches.subrange(1, switches.len() as int);
        lemma_encoder(rest);
        if forall|j: int|
            0 <= j < switches.len() ==> (#[trigger] switches[j]).prop@ != "CCD_STREAM_ENCODER"@ {
            assert forall|j: int| 0 <= j < rest.len() implies (#[trigger] rest[j]).prop@
                != "CCD_STREAM_ENCODER"@ by {
                assert(rest[j] == switches[j + 1]);
            }
            assert(switches[0].prop@ != "CCD_STREAM_ENCODER"@);
        }
        assert forall|k: int| #[trigger] selects_encoder(switches, k) implies (
        commands::mjpeg_selected(switches) <==> spells_mjpeg(switches[k].selected@)) by {
            if k > 0 {
                assert(switches[0].prop@ != "CCD_STREAM_ENCODER"@);
                assert forall|j: int| 0 <= j < k - 1 implies (#[trigger] rest[j]).prop@
                    != "CCD_STREAM_ENCODER"@ by {
                    assert(rest[j] == switches[j + 1]);
                }
                assert(rest[k - 1] == switches[k]);
                assert(selects_encoder(rest, k - 1));
            }
        }
    }
}

/// A recording is planned as MJPEG exactly where the encoder switch has MJPEG selected, in whatever
/// case: with any other selection, or without such a switch, it is planned for the raw stream.
pub proof fn law_recording_is_mjpeg_only_where_selected<W: SerOutput>(
    cfg: RecordConfig,
    k: int,
    record_done: bool,
    w0: Worker,
    b0: Bus<W>,
    w1: Worker,
    b1: Bus<W>,
    plan: Plan,
    done: Option<Result<(u32, Tape<W>), SerError>>,
)
    requires
        commands::handled(Command::StartRecording(cfg), record_done, w0, b0, w1, b1, plan, done),
        plan.task is Record,
    ensures
        plan.task->cfg == cfg,
        ({
            let switches = b0.shared.stream_switches@;
            &&& selects_encoder(switches, k) ==> (plan.task->mjpeg <==> spells_mjpeg(
                switches[k].selected@,
            ))
            &&& (forall|j: int|
                0 <= j < switches.len() ==> (#[trigger] switches[j]).prop@ != "CCD_STREAM_ENCODER"@)
                ==> !plan.task->mjpeg
        }),
{
    let cmd = Command::StartRecording(cfg);
    let (w, b, ended, next) = choose|w: Worker, b: Bus<W>, ended: Stops, next: Plan| #[trigger]
        commands::passes(cmd, record_done, w0, b0, w, b, ended, w1, b1, next, plan, done);
    reveal(commands::tasks_ended);
    reveal(commands::planned);
    reveal(commands::quieted);
    lemma_encoder(b0.shared.stream_switches@);
}

/// A recording begins where nothing records, a camera is bound and its stream runs; otherwise the
/// log says which of these is missing. A recording that has run to its end does not stand in the
/// way.
pub proof fn law_recording_begins_where_it_can<W: SerOutput>(
    cfg: RecordConfig,
    record_done: bool,
    w0: Worker,
    b0: Bus<W>,
    w1: Worker,
    b1: Bus<W>,
    plan: Plan,
    done: Option<Result<(u32, Tape<W>), SerError>>,
)
    requires
        commands::handled(Command::StartRecording(cfg), record_done, w0, b0, w1, b1, plan, done),
    ensures
        ({
            let running = w0.record_task && !record_done;
            let w = Worker { record_task: running, ..w0 };
            if running {
                refused(w, b0, w1, b1, plan, "already recording"@)
            } else if w0.session is None {
                refused(w, b0, w1, b1, plan, "not connected"@)
            } else if !b0.shared.streaming {
                refused(w, b0, w1, b1, plan, "start the stream before recording"@)
            } else if !w0.session->0.camera {
                refused(w, b0, w1, b1, plan, "no camera selected — cannot record"@)
            } else {
                &&& plan.task is Record
                &&& plan.task->cfg == cfg
                &&& plan.stops == commands::no_stops()
                &&& w1 == (Worker { record_task: true, ..w0 })
                &&& b1 == b0
            }
        }),
{
    let cmd = Command::StartRecording(cfg);
    let (w, b, ended, next) = choose|w: Worker, b: Bus<W>, ended: Stops, next: Plan| #[trigger]
        commands::passes(cmd, record_done, w0, b0, w, b, ended, w1, b1, next, plan, done);
    reveal(commands::tasks_ended);
    reveal(commands::planned);
    reveal(commands::quieted);
}

/// Guiding begins where none runs, the stream runs, a calibration is there and a mount is bound;
/// otherwise the log says which of these is missing. It waits for a measurement newer than the
/// newest one, on a fresh reference.
pub proof fn law_guiding_begins_where_it_can<W: SerOutput>(
    record_done: bool,
    w0: Worker,
    b0: Bus<W>,
    w1: Worker,
    b1: Bus<W>,
    plan: Plan,
    done: Option<Result<(u32, Tape<W>), SerError>>,
)
    requires
        commands::handled(Command::StartGuiding, record_done, w0, b0, w1, b1, plan, done),
        b0.ref_generation < u64::MAX,
    ensures
        if w0.guide_loop {
            refused(w0, b0, w1, b1, plan, "already guiding"@)
        } else if w0.session is None {
            refused(w0, b0, w1, b1, plan, "not connected"@)
        } else if !b0.shared.streaming {
            refused(w0, b0, w1, b1, plan, "start the stream before guiding"@)
        } else if !b0.shared.calibrated {
            refused(w0, b0, w1, b1, plan, "calibrate before guiding"@)
        } else if !w0.session->0.mount {
            refused(w0, b0, w1, b1, plan, "no mount selected — cannot guide"@)
        } else {
            &&& plan.task == Task::Lock(
                if b0.guide_sample is Some {
                    b0.guide_sample->0.seq
                } else {
                    0
                },
            )
            &&& plan.stops == commands::no_stops()
            &&& w1 == w0
            &&& b1.shared == (bus::Shared { guiding: true, ..b0.shared })
            &&& b1.detect_enabled
            &&& b1.ref_generation == b0.ref_generation + 1
            &&& b1.recorder == b0.recorder
        },
{
    let cmd = Command::StartGuiding;
    let (w, b, ended, next) = choose|w: Worker, b: Bus<W>, ended: Stops, next: Plan| #[trigger]
        commands::passes(cmd, record_done, w0, b0, w, b, ended, w1, b1, next, plan, done);
    reveal(commands::tasks_ended);
    reveal(commands::planned);
    reveal(commands::quieted);
}

/// A calibration begins where none runs, nothing is guided, the stream runs and a mount is bound;
/// otherwise the log says which of these is missing. It pulses for the time asked for, on a fresh
/// reference.
pub proof fn law_calibration_begins_where_it_can<W: SerOutput>(
    pulse_ms: Scalar,
    record_done: bool,
    w0: Worker,
    b0: Bus<W>,
    w1: Worker,
    b1: Bus<W>,
    plan: Plan,
    done: Option<Result<(u32, Tape<W>), SerError>>,
)
    requires
        commands::handled((Command::Calibrate { pulse_ms }), record_done, w0, b0, w1, b1, plan, done),
        b0.ref_generation < u64::MAX,
    ensures
        if w0.calib_task {
            refused(w0, b0, w1, b1, plan, "calibration already running"@)
        } else if w0.guide_loop {
            refused(w0, b0, w1, b1, plan, "stop guiding before calibrating"@)
        } else if w0.session is None {
            refused(w0, b0, w1, b1, plan, "not connected"@)
        } else if !b0.shared.streaming {
            refused(w0, b0, w1, b1, plan, "start the stream before calibrating"@)
        } else if !w0.session->0.mount {
            refused(w0, b0, w1, b1, plan, "no mount selected — cannot calibrate"@)
        } else {
            &&& plan.task == Task::Calibrate(pulse_ms)
            &&& plan.stops == commands::no_stops()
            &&& w1 == (Worker { calib_task: true, ..w0 })
            &&& b1.shared == b0.shared
            &&& b1.ref_generation == b0.ref_generation + 1
            &&& b1.recorder == b0.recorder
        },
{
    let cmd = Command::Calibrate { pulse_ms };
    let (w, b, ended, next) = choose|w: Worker, b: Bus<W>, ended: Stops, next: Plan| #[trigger]
        commands::passes(cmd, record_done, w0, b0, w, b, ended, w1, b1, next, plan, done);
    reveal(commands::tasks_ended);
    reveal(commands::planned);
    reveal(commands::quieted);
}

/// Commands that only go through to a device: they end nothing and change nothing shared.
pub open spec fn goes_to_a_device(cmd: Command) -> bool {
    ||| cmd is StartStream
    ||| cmd is SetGain
    ||| cmd is SetExposure
    ||| cmd is SetCameraSwitch
    ||| cmd is SetBinning
    ||| cmd is Nudge
    ||| cmd is SetSlewRate
    ||| cmd is SetTrackMode
    ||| cmd is SetTracking
    ||| cmd is GotoObject
    ||| cmd is Abort
    ||| cmd is CaptureFrame
    ||| cmd is SetIndiNumber
    ||| cmd is SetIndiSwitch
    ||| cmd is SetIndiText
}

/// A command to a device leaves every running task running, and nothing but the log changes.
pub proof fn law_device_commands_disturb_nothing<W: SerOutput>(
    cmd: Command,
    record_done: bool,
    w0: Worker,
    b0: Bus<W>,
    w1: Worker,
    b1: Bus<W>,
    plan: Plan,
    done: Option<Result<(u32, Tape<W>), SerError>>,
)
    requires
        commands::handled(cmd, record_done, w0, b0, w1, b1, plan, done),
        goes_to_a_device(cmd),
    ensures
        w1 == w0,
        plan.stops == (Stops {
            session: false,
            frames: false,
            guide_loop: false,
            calibration: false,
            recording: false,
        }),
        b1 == (Bus { shared: b1.shared, ..b0 }),
        b1.shared == (bus::Shared { log: b1.shared.log, ..b0.shared }),
        !(plan.task is Done) ==> b1 == b0,
        done is None,
{
    let (w, b, ended, next) = choose|w: Worker, b: Bus<W>, ended: Stops, next: Plan| #[trigger]
        commands::passes(cmd, record_done, w0, b0, w, b, ended, w1, b1, next, plan, done);
    reveal(commands::tasks_ended);
    reveal(commands::planned);
    reveal(commands::quieted);
    reveal(commands::dispatched);
}

/// What is asked of the camera is what was commanded, argument for argument, and where no camera is
/// bound the log says so.
pub proof fn law_camera_commands_reach_the_camera<W: SerOutput>(
    cmd: Command,
    bound: Bound,
    record_done: bool,
    w0: Worker,
    b0: Bus<W>,
    w1: Worker,
    b1: Bus<W>,
    plan: Plan,
    done: Option<Result<(u32, Tape<W>), SerError>>,
)
    requires
        commands::handled(cmd, record_done, w0, b0, w1, b1, plan, done),
        w0.session == Some(bound),
        cmd is StartStream || cmd is SetGain || cmd is SetExposure || cmd is SetCameraSwitch || cmd
            is SetBinning,
    ensures
        !bound.camera ==> refused(w0, b0, w1, b1, plan, "error: no camera selected"@),
        bound.camera ==> match cmd {
            Command::StartStream => plan.task is StartStream,
            Command::SetGain(v) => plan.task == Task::SetGain(v),
            Command::SetExposure(v) => plan.task == (Task::SetExposure {
                seconds: v,
                streaming: b0.shared.streaming,
            }),
            Command::SetCameraSwitch { prop, elem } => plan.task == (Task::SetSwitch { prop, elem }),
            Command::SetBinning { bin } => plan.task == Task::SetBinning(bin),
            _ => true,
        },
{
    let (w, b, ended, next) = choose|w: Worker, b: Bus<W>, ended: Stops, next: Plan| #[trigger]
        commands::passes(cmd, record_done, w0, b0, w, b, ended, w1, b1, next, plan, done);
    reveal(commands::tasks_ended);
    reveal(commands::planned);
    reveal(commands::quieted);
    reveal(commands::dispatched);
}

/// A region reaches the camera with its corner and size, a reset as the whole sensor, and a stop of
/// the stream as such; the camera is told whether the stream ran.
pub proof fn law_frame_commands_reach_the_camera<W: SerOutput>(
    cmd: Command,
    bound: Bound,
    record_done: bool,
    w0: Worker,
    b0: Bus<W>,
    w1: Worker,
    b1: Bus<W>,
    plan: Plan,
    done: Option<Result<(u32, Tape<W>), SerError>>,
)
    requires
        commands::handled(cmd, record_done, w0, b0, w1, b1, plan, done),
        w0.session == Some(bound),
        bound.camera,
        cmd is StopStream || cmd is SetRoi || cmd is ResetRoi,
    ensures
        match cmd {
            Command::StopStream => plan.task is StopStream,
            Command::SetRoi { x, y, w, h } => plan.task == (Task::SetRoi {
                x,
                y,
                w,
                h,
                streaming: b0.shared.streaming,
            }),
            _ => if b0.shared.sensor_w == 0 || b0.shared.sensor_h == 0 {
                plan.task is Done
            } else {
                plan.task == (Task::SetRoi {
                    x: 0,
                    y: 0,
                    w: b0.shared.sensor_w,
                    h: b0.shared.sensor_h,
                    streaming: b0.shared.streaming,
                })
            },
        },
        w1.session == w0.session,
        w1.frame_task == w0.frame_task,
        !plan.stops.session,
        !plan.stops.frames,
{
    let (w, b, ended, next) = choose|w: Worker, b: Bus<W>, ended: Stops, next: Plan| #[trigger]
        commands::passes(cmd, record_done, w0, b0, w, b, ended, w1, b1, next, plan, done);
    reveal(commands::tasks_ended);
    reveal(commands::planned);
    reveal(commands::quieted);
    reveal(commands::dispatched);
}

/// What is asked of the mount is what was commanded, argument for argument: a direction is that
/// direction, an index names the option at that index. Where no mount is bound the log says so, and
/// an index beyond the options asks for nothing.
pub proof fn law_mount_commands_reach_the_mount<W: SerOutput>(
    cmd: Command,
    bound: Bound,
    record_done: bool,
    w0: Worker,
    b0: Bus<W>,
    w1: Worker,
    b1: Bus<W>,
    plan: Plan,
    done: Option<Result<(u32, Tape<W>), SerError>>,
)
    requires
        commands::handled(cmd, record_done, w0, b0, w1, b1, plan, done),
        w0.session == Some(bound),
        cmd is Nudge || cmd is SetSlewRate || cmd is SetTrackMode || cmd is SetTracking || cmd
            is GotoObject || cmd is Abort,
    ensures
        ({
            let beyond = match cmd {
                Command::SetSlewRate(idx) => idx >= b0.shared.slew_rates@.len(),
                Command::SetTrackMode(idx) => idx >= b0.shared.track_modes@.len(),
                _ => false,
            };
            &&& beyond ==> plan.task is Done && b1 == b0
            &&& !beyond && !bound.mount ==> refused(
                w0,
                b0,
                w1,
                b1,
                plan,
                "error: no mount selected"@,
            )
            &&& !beyond && bound.mount ==> match cmd {
                Command::Nudge { dir, active } => plan.task == (Task::Nudge { dir, active }),
                Command::SetSlewRate(idx) => plan.task == (Task::SetSlewRate {
                    idx,
                    name: b0.shared.slew_rates@[idx as int].0,
                }),
                Command::SetTrackMode(idx) => plan.task == (Task::SetTrackMode {
                    idx,
                    name: b0.shared.track_modes@[idx as int].0,
                }),
                Command::SetTracking(on) => plan.task == Task::SetTracking(on),
                Command::GotoObject(obj) => plan.task == Task::Goto(obj),
                Command::Abort => plan.task is Abort,
                _ => true,
            }
        }),
{
    let (w, b, ended, next) = choose|w: Worker, b: Bus<W>, ended: Stops, next: Plan| #[trigger]
        commands::passes(cmd, record_done, w0, b0, w, b, ended, w1, b1, next, plan, done);
    reveal(commands::tasks_ended);
    reveal(commands::planned);
    reveal(commands::quieted);
    reveal(commands::dispatched);
}

/// A capture goes to its directory where there is a whole frame, and an edit of the control panel to
/// its device and property with all of its elements.
pub proof fn law_captures_and_edits_go_through<W: SerOutput>(
    cmd: Command,
    record_done: bool,
    w0: Worker,
    b0: Bus<W>,
    w1: Worker,
    b1: Bus<W>,
    plan: Plan,
    done: Option<Result<(u32, Tape<W>), SerError>>,
)
    requires
        commands::handled(cmd, record_done, w0, b0, w1, b1, plan, done),
        w0.session is Some,
    ensures
        match cmd {
            Command::CaptureFrame { dir } => match b0.latest_frame {
                None => refused(w0, b0, w1, b1, plan, "error: no frame to capture yet"@),
                Some(f) => if f.width * f.height * 4 <= f.rgba@.len() {
                    plan.task == Task::Capture(dir)
                } else {
                    refused(w0, b0, w1, b1, plan, "error: frame buffer size mismatch"@)
                },
            },
            Command::SetIndiNumber { device, prop, elems } => plan.task == (Task::SetNumbers {
                device,
                prop,
                elems,
            }),
            Command::SetIndiSwitch { device, prop, elems } => plan.task == (Task::SetSwitches {
                device,
                prop,
                elems,
            }),
            Command::SetIndiText { device, prop, elems } => plan.task == (Task::SetTexts {
                device,
                prop,
                elems,
            }),
            _ => true,
        },
{
    let (w, b, ended, next) = choose|w: Worker, b: Bus<W>, ended: Stops, next: Plan| #[trigger]
        commands::passes(cmd, record_done, w0, b0, w, b, ended, w1, b1, next, plan, done);
    reveal(commands::tasks_ended);
    reveal(commands::planned);
    reveal(commands::quieted);
    reveal(commands::dispatched);
}

/// Guide settings take effect at once and leave what runs running: the mode is stored with a fresh
/// reference, the parameters are stored as they are, and clearing forgets the calibration alone.
pub proof fn law_guide_settings_take_effect<W: SerOutput>(
    cmd: Command,
    record_done: bool,
    w0: Worker,
    b0: Bus<W>,
    w1: Worker,
    b1: Bus<W>,
    plan: Plan,
    done: Option<Result<(u32, Tape<W>), SerError>>,
)
    requires
        commands::handled(cmd, record_done, w0, b0, w1, b1, plan, done),
        w0.session is Some,
        b0.ref_generation < u64::MAX,
    ensures
        match cmd {
            Command::SetGuideMode(mode) => {
                &&& b1.shared.guide_mode == mode
                &&& b1.guide_mode == if mode == GuideMode::Surface {
                    1u8
                } else {
                    0u8
                }
                &&& b1.ref_generation == b0.ref_generation + 1
                &&& b1.shared.lines() == bus::logged(
                    b0.shared.lines(),
                    "guide mode: "@ + if mode == GuideMode::Surface {
                        "Surface"@
                    } else {
                        "Disk"@
                    },
                )
                &&& b1.shared.guide_calib == b0.shared.guide_calib
                &&& w1 == w0 && plan.task is Done && plan.stops == commands::no_stops()
            },
            Command::SetGuideParams(params) => {
                &&& b1 == (Bus {
                    shared: bus::Shared { guide_params: params, ..b0.shared },
                    ..b0
                })
                &&& w1 == w0 && plan.task is Done && plan.stops == commands::no_stops()
            },
            Command::ClearCalibration => {
                &&& b1.shared.guide_calib is None && !b1.shared.calibrated
                &&& b1.shared.lock_point == b0.shared.lock_point
                &&& b1.shared.lines() == b0.shared.lines()
                &&& b1.recorder == b0.recorder && b1.ref_generation == b0.ref_generation
                &&& w1 == w0 && plan.task is Done && plan.stops == commands::no_stops()
            },
            Command::SetDetectionOverlay(on) => {
                &&& b1.shared.detect_overlay == on
                &&& b1.shared.detected == if on {
                    b0.shared.detected
                } else {
                    None
                }
                &&& b1.detect_enabled == (on || b0.shared.calibrating || b0.shared.guiding)
                &&& w1 == w0 && plan.task is Done && plan.stops == commands::no_stops()
            },
            Command::Relock => {
                &&& plan.task == Task::Relock(
                    if b0.guide_sample is Some {
                        b0.guide_sample->0.seq
                    } else {
                        0
                    },
                )
                &&& b1.ref_generation == b0.ref_generation + 1
                &&& b1.shared == b0.shared
                &&& w1 == w0 && plan.stops == commands::no_stops()
            },
            _ => true,
        },
{
    let (w, b, ended, next) = choose|w: Worker, b: Bus<W>, ended: Stops, next: Plan| #[trigger]
        commands::passes(cmd, record_done, w0, b0, w, b, ended, w1, b1, next, plan, done);
    reveal(commands::tasks_ended);
    reveal(commands::planned);
    reveal(commands::quieted);
    reveal(commands::dispatched);
}

/// Connecting drops the session that there is and opens the one asked for; what is shared says that
/// a connection is being made, and where to.
pub proof fn law_connecting_replaces_the_session<W: SerOutput>(
    addr: String,
    record_done: bool,
    w0: Worker,
    b0: Bus<W>,
    w1: Worker,
    b1: Bus<W>,
    plan: Plan,
    done: Option<Result<(u32, Tape<W>), SerError>>,
)
    requires
        commands::handled((Command::Connect { addr }), record_done, w0, b0, w1, b1, plan, done),
    ensures
        plan.task == Task::Connect(addr),
        w1 == (Worker { session: None, frame_task: false, ..w0 }),
        plan.stops.session == (w0.session is Some),
        plan.stops.frames == w0.frame_task,
        !plan.stops.guide_loop && !plan.stops.calibration && !plan.stops.recording,
        b1.shared.conn == ConnState::Connecting,
        b1.shared.lines() == bus::logged(b0.shared.lines(), "connecting to "@ + addr@ + "…"@),
        b1.recorder == b0.recorder,
        b1.shared.guide_calib == b0.shared.guide_calib,
{
    let cmd = Command::Connect { addr };
    let (w, b, ended, next) = choose|w: Worker, b: Bus<W>, ended: Stops, next: Plan| #[trigger]
        commands::passes(cmd, record_done, w0, b0, w, b, ended, w1, b1, next, plan, done);
    reveal(commands::tasks_ended);
    reveal(commands::planned);
    reveal(commands::quieted);
}

/// Another camera or mount is bound by its name, with the guiding ended, and for a camera the
/// recording too; without a session the log says so.
pub proof fn law_devices_are_bound_by_name<W: SerOutput>(
    cmd: Command,
    record_done: bool,
    w0: Worker,
    b0: Bus<W>,
    w1: Worker,
    b1: Bus<W>,
    plan: Plan,
    done: Option<Result<(u32, Tape<W>), SerError>>,
)
    requires
        commands::handled(cmd, record_done, w0, b0, w1, b1, plan, done),
        cmd is SelectCamera || cmd is SelectMount,
    ensures
        w0.session is Some ==> match cmd {
            Command::SelectCamera(name) => plan.task == Task::SelectCamera(name),
            Command::SelectMount(name) => plan.task == Task::SelectMount(name),
            _ => true,
        },
        w0.session is None ==> plan.task is Done,
        w1.session == w0.session,
        w1.frame_task == w0.frame_task,
        !w1.guide_loop && !w1.calib_task,
        plan.stops.guide_loop == w0.guide_loop,
        plan.stops.calibration == w0.calib_task,
        !b1.shared.guiding && !b1.shared.calibrating && b1.shared.guide_err is None,
        cmd is SelectCamera ==> {
            &&& !w1.record_task && plan.stops.recording == w0.record_task
            &&& b1.recorder is None && !b1.recording_active
            &&& !b1.shared.recording.active && b1.shared.recording.phase == RecordPhase::Idle
            &&& recorder::file_finished(b0.recorder, done)
        },
        cmd is SelectMount ==> {
            &&& w1.record_task == w0.record_task && !plan.stops.recording
            &&& b1.recorder == b0.recorder && b1.recording_active == b0.recording_active
            &&& b1.shared.recording == b0.shared.recording
        },
{
    let (w, b, ended, next) = choose|w: Worker, b: Bus<W>, ended: Stops, next: Plan| #[trigger]
        commands::passes(cmd, record_done, w0, b0, w, b, ended, w1, b1, next, plan, done);
    reveal(commands::tasks_ended);
    reveal(commands::planned);
    reveal(commands::quieted);
}

/// Stopping the guiding ends the loop and a running calibration, and leaves calibration, lock point
/// and recording as they are.
pub proof fn law_stopping_ends_the_guiding<W: SerOutput>(
    record_done: bool,
    w0: Worker,
    b0: Bus<W>,
    w1: Worker,
    b1: Bus<W>,
    plan: Plan,
    done: Option<Result<(u32, Tape<W>), SerError>>,
)
    requires
        commands::handled(Command::StopGuiding, record_done, w0, b0, w1, b1, plan, done),
    ensures
        plan.task is Done,
        w1 == (Worker { guide_loop: false, calib_task: false, ..w0 }),
        plan.stops.guide_loop == w0.guide_loop,
        plan.stops.calibration == w0.calib_task,
        !plan.stops.recording && !plan.stops.session && !plan.stops.frames,
        !b1.shared.guiding && !b1.shared.calibrating && b1.shared.guide_err is None,
        b1.shared.guide_calib == b0.shared.guide_calib,
        b1.shared.calibrated == b0.shared.calibrated,
        b1.shared.lock_point == b0.shared.lock_point,
        b1.recorder == b0.recorder,
        b1.recording_active == b0.recording_active,
        b1.detect_enabled == b0.shared.detect_overlay,
        b1.shared.lines() == bus::logged(b0.shared.lines(), "guiding stopped"@),
{
    let cmd = Command::StopGuiding;
    let (w, b, ended, next) = choose|w: Worker, b: Bus<W>, ended: Stops, next: Plan| #[trigger]
        commands::passes(cmd, record_done, w0, b0, w, b, ended, w1, b1, next, plan, done);
    reveal(commands::tasks_ended);
    reveal(commands::planned);
    reveal(commands::quieted);
    commands::lemma_log_one(b0.shared.lines(), "guiding stopped"@);
    assert(Seq::<Seq<char>>::empty() + Seq::<Seq<char>>::empty() + Seq::<Seq<char>>::empty()
        =~= Seq::<Seq<char>>::empty());
}

/// A change of the frames says in the log what it ended: the guiding, an open file that could not be
/// finished, and the recording. What was recorded so far stays counted.
pub proof fn law_frame_changes_say_what_they_end<W: SerOutput>(
    cmd: Command,
    bound: Bound,
    record_done: bool,
    w0: Worker,
    b0: Bus<W>,
    w1: Worker,
    b1: Bus<W>,
    plan: Plan,
    done: Option<Result<(u32, Tape<W>), SerError>>,
)
    requires
        commands::handled(cmd, record_done, w0, b0, w1, b1, plan, done),
        w0.session == Some(bound),
        bound.camera,
        cmd is StopStream || cmd is SetRoi,
        !(done matches Some(Err(_))),
    ensures
        ({
            let ended_guiding = if w0.guide_loop {
                bus::logged(b0.shared.lines(), "guiding stopped (frame changed)"@)
            } else {
                b0.shared.lines()
            };
            b1.shared.lines() == if w0.record_task {
                bus::logged(ended_guiding, "recording stopped (frame changed)"@)
            } else {
                ended_guiding
            }
        }),
        w0.guide_loop ==> !b1.shared.calibrating && b1.shared.guide_err is None,
        !w0.guide_loop ==> b1.shared.guiding == b0.shared.guiding,
        w0.record_task ==> {
            &&& !b1.shared.recording.active
            &&& b1.shared.recording.phase == RecordPhase::Idle
            &&& b1.shared.recording.last_file == b0.shared.recording.last_file
            &&& b1.shared.recording.frames_written == b0.shared.recording.frames_written
            &&& b1.shared.recording.dropped == b0.shared.recording.dropped
        },
        !w0.record_task ==> b1.shared.recording == b0.shared.recording && b1.recorder
            == b0.recorder && b1.recording_active == b0.recording_active,
        b1.shared.streaming == b0.shared.streaming,
        b1.shared.guide_calib == b0.shared.guide_calib,
        b1.shared.roi == b0.shared.roi,
{
    let (w, b, ended, next) = choose|w: Worker, b: Bus<W>, ended: Stops, next: Plan| #[trigger]
        commands::passes(cmd, record_done, w0, b0, w, b, ended, w1, b1, next, plan, done);
    reveal(commands::tasks_ended);
    reveal(commands::planned);
    reveal(commands::quieted);
    reveal(commands::dispatched);
    let none = Seq::<Seq<char>>::empty();
    let guiding = "guiding stopped (frame changed)"@;
    let recording = "recording stopped (frame changed)"@;
    let lines = b0.shared.lines();
    assert(commands::finish_notes(done) =~= none);
    assert(none + none + none =~= none);
    assert(seq![guiding] + none + none =~= seq![guiding]);
    assert(none + none + seq![recording] =~= seq![recording]);
    assert(seq![guiding] + none + seq![recording] =~= seq![guiding].push(recording));
    commands::lemma_log_one(lines, guiding);
    commands::lemma_log_one(lines, recording);
    commands::lemma_log_one_more(lines, seq![guiding], recording);
    assert(commands::log_all(lines, none) == lines);
}

/// A file that could not be finished is named in the log with the reason, before the line that the
/// recording stopped; one that was finished is not.
pub proof fn law_stopping_says_what_failed<W: SerOutput>(
    record_done: bool,
    w0: Worker,
    b0: Bus<W>,
    w1: Worker,
    b1: Bus<W>,
    plan: Plan,
    done: Option<Result<(u32, Tape<W>), SerError>>,
)
    requires
        commands::handled(Command::StopRecording, record_done, w0, b0, w1, b1, plan, done),
    ensures
        plan.task is Done,
        done matches Some(Err(e)) ==> b1.shared.lines() == bus::logged(
            bus::logged(b0.shared.lines(), "finalizing SER on stop: "@ + e.words()),
            "recording stopped"@,
        ),
        !(done matches Some(Err(_))) ==> b1.shared.lines() == bus::logged(
            b0.shared.lines(),
            "recording stopped"@,
        ),
        b1.shared.recording.last_file == b0.shared.recording.last_file,
        b1.shared.recording.frames_written == b0.shared.recording.frames_written,
        b1.shared.recording.phase == RecordPhase::Idle,
        b1.shared.guiding == b0.shared.guiding,
        w1.guide_loop == w0.guide_loop && w1.calib_task == w0.calib_task,
        w1.session == w0.session,
{
    let cmd = Command::StopRecording;
    let (w, b, ended, next) = choose|w: Worker, b: Bus<W>, ended: Stops, next: Plan| #[trigger]
        commands::passes(cmd, record_done, w0, b0, w, b, ended, w1, b1, next, plan, done);
    reveal(commands::tasks_ended);
    reveal(commands::planned);
    reveal(commands::quieted);
    let none = Seq::<Seq<char>>::empty();
    let lines = b0.shared.lines();
    match done {
        Some(Err(e)) => {
            let failed = "finalizing SER on stop: "@ + e.words();
            assert(none + seq![failed] + none =~= seq![failed]);
            commands::lemma_log_one(lines, failed);
        },
        _ => {
            assert(none + none + none =~= none);
        },
    }
}

/// Disconnecting is said in the log, and the frame rate is gone with the stream.
pub proof fn law_disconnecting_is_said<W: SerOutput>(
    record_done: bool,
    w0: Worker,
    b0: Bus<W>,
    w1: Worker,
    b1: Bus<W>,
    plan: Plan,
    done: Option<Result<(u32, Tape<W>), SerError>>,
)
    requires
        commands::handled(Command::Disconnect, record_done, w0, b0, w1, b1, plan, done),
        !(done matches Some(Err(_))),
    ensures
        b1.shared.lines() == bus::logged(b0.shared.lines(), "disconnected"@),
        b1.shared.fps.bits == 0,
        b1.shared.guide_calib == b0.shared.guide_calib,
        b1.shared.recording.last_file == b0.shared.recording.last_file,
{
    let cmd = Command::Disconnect;
    let (w, b, ended, next) = choose|w: Worker, b: Bus<W>, ended: Stops, next: Plan| #[trigger]
        commands::passes(cmd, record_done, w0, b0, w, b, ended, w1, b1, next, plan, done);
    reveal(commands::tasks_ended);
    reveal(commands::planned);
    reveal(commands::quieted);
    let none = Seq::<Seq<char>>::empty();
    assert(none + none + none =~= none);
    assert(commands::log_all(b0.shared.lines(), none) == b0.shared.lines());
}

/// Without a session a device command is answered with `not connected`.
pub proof fn law_commands_need_a_session<W: SerOutput>(
    cmd: Command,
    record_done: bool,
    w0: Worker,
    b0: Bus<W>,
    w1: Worker,
    b1: Bus<W>,
    plan: Plan,
    done: Option<Result<(u32, Tape<W>), SerError>>,
)
    requires
        commands::handled(cmd, record_done, w0, b0, w1, b1, plan, done),
        goes_to_a_device(cmd),
        w0.session is None,
    ensures
        refused(w0, b0, w1, b1, plan, "not connected"@),
{
    let (w, b, ended, next) = choose|w: Worker, b: Bus<W>, ended: Stops, next: Plan| #[trigger]
        commands::passes(cmd, record_done, w0, b0, w, b, ended, w1, b1, next, plan, done);
    reveal(commands::tasks_ended);
    reveal(commands::planned);
    reveal(commands::quieted);
}

} // verus!
