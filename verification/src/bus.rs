//! Message types and shared state connecting the GUI and the worker.
//!
//! The GUI sends [`Command`]s; the worker publishes frames, display images and [`Shared`] state.
//! A [`Bus`] is the single source of truth between them. Its operations take the bus exclusively,
//! so a program with several threads holds it behind a lock.

use crate::ephemeris::SolarObject;
use crate::frame::{DisplayImage, Frame};
use crate::guiding;
use crate::guiding::controller::{Calibration, GuideParams, ONE_BITS};
use crate::guiding::detector::GuideMode;
use crate::guiding::GuideSample;
use crate::recorder::{SerOutput, SerRecorder, UnixTime};
use crate::recorder;
use crate::scalar::Scalar;
use std::collections::VecDeque;
use vstd::prelude::*;

verus! {

/// Cardinal nudge directions for manual mount slewing.
#[derive(Clone, Copy, Debug, PartialEq, Eq, Structural)]
pub enum Dir {
    North,
    South,
    East,
    West,
}

/// Commands sent from the GUI to the worker.
#[allow(inconsistent_fields)]
#[derive(Clone, Debug)]
pub enum Command {
    Connect { addr: String },
    Disconnect,
    StartStream,
    StopStream,
    /// Bind the camera to a different CCD device (by INDI device name).
    SelectCamera(String),
    /// Bind the mount to a different telescope device (by INDI device name).
    SelectMount(String),
    SetGain(Scalar),
    SetExposure(Scalar),
    /// Press (`active = true`) or release (`false`) a directional nudge.
    Nudge { dir: Dir, active: bool },
    /// Slew rate as an index into the driver's `TELESCOPE_SLEW_RATE` switch (0 = slowest).
    SetSlewRate(usize),
    /// Tracking mode as an index into the driver's `TELESCOPE_TRACK_MODE` switch.
    SetTrackMode(usize),
    SetTracking(bool),
    /// Slew to a solar-system body.
    GotoObject(SolarObject),
    Abort,
    /// Save the current live frame to a timestamped PNG in `dir`.
    CaptureFrame { dir: String },
    /// Restrict the camera readout to a subframe (ROI) in sensor pixels via `CCD_FRAME`.
    SetRoi { x: u32, y: u32, w: u32, h: u32 },
    /// Reset the camera readout to the full sensor.
    ResetRoi,
    /// Symmetric binning (1 = unbinned).
    SetBinning { bin: u32 },
    /// Turn on element `elem` of the camera switch property `prop`: the driver's stream-format
    /// controls (encoder, video format, bit depth, sensor mode).
    SetCameraSwitch { prop: String, elem: String },
    /// Set number elements of any property of a device.
    SetIndiNumber { device: String, prop: String, elems: Vec<(String, Scalar)> },
    /// Set switch elements of any property of a device.
    SetIndiSwitch { device: String, prop: String, elems: Vec<(String, bool)> },
    /// Set text elements of any property of a device.
    SetIndiText { device: String, prop: String, elems: Vec<(String, String)> },
    /// Begin recording the stream to SER, a sequence of videos.
    StartRecording(RecordConfig),
    /// Stop recording (finalizing the current SER file).
    StopRecording,
    /// Run the automatic pulse-based calibration with pulses of `pulse_ms`.
    Calibrate { pulse_ms: Scalar },
    /// Discard the current calibration (forces a re-calibrate before guiding again).
    ClearCalibration,
    /// Begin auto-guiding: lock onto the current target and correct drift with pulse-guides.
    StartGuiding,
    /// Stop auto-guiding.
    StopGuiding,
    /// Re-acquire the lock point (and Surface reference patch) at the current target position.
    Relock,
    /// Choose the detection mode (Disk centroid vs. Surface cross-correlation).
    SetGuideMode(GuideMode),
    /// Update the live guiding-loop parameters.
    SetGuideParams(GuideParams),
    /// Turn per-frame target detection on/off for the on-screen overlay (independent of guiding).
    SetDetectionOverlay(bool),
}

/// One of the camera's stream-format switch properties (e.g. `CCD_STREAM_ENCODER`) surfaced to the
/// UI. Names are driver-specific and shown as they are.
#[derive(Clone, Debug)]
pub struct CameraSwitch {
    /// INDI property name (used when sending a change).
    pub prop: String,
    /// Human-friendly label for the dropdown.
    pub label: String,
    /// Element names (options), sorted.
    pub options: Vec<String>,
    /// Currently-selected element name.
    pub selected: String,
}

/// A stream-format switch with its texts as characters.
#[verifier::ext_equal]
pub struct PickerView {
    pub prop: Seq<char>,
    pub label: Seq<char>,
    pub options: Seq<String>,
    pub selected: Seq<char>,
}

impl View for CameraSwitch {
    type V = PickerView;

    open spec fn view(&self) -> PickerView {
        PickerView {
            prop: self.prop@,
            label: self.label@,
            options: self.options@,
            selected: self.selected@,
        }
    }
}

/// Stream-format switches with their texts as characters.
pub open spec fn pickers(switches: Seq<CameraSwitch>) -> Seq<PickerView> {
    switches.map_values(|s: CameraSwitch| s@)
}

impl Default for CameraSwitch {
    fn default() -> (s: Self)
        ensures
            s.prop@ == ""@,
            s.label@ == ""@,
            s.options@ == Seq::<String>::empty(),
            s.selected@ == ""@,
    {
        let s = CameraSwitch {
            prop: "".to_owned(),
            label: "".to_owned(),
            options: Vec::new(),
            selected: "".to_owned(),
        };
        s
    }
}

/// What ends each video in a recording sequence.
#[derive(Clone, Copy, Debug, PartialEq, Eq, Structural)]
pub enum RecordStop {
    /// Stop after this many frames have been written.
    Frames(u64),
    /// Stop after this many seconds of recording.
    Seconds(Scalar),
}

/// Parameters for a recording run: a sequence of `count` SER videos, each ended by `stop`, with
/// `delay_secs` of (still-streaming) pause between them.
#[derive(Clone, Debug)]
pub struct RecordConfig {
    /// Output folder for the `.ser` files.
    pub dir: String,
    /// Number of videos in the sequence (>= 1).
    pub count: usize,
    /// Per-video stop condition.
    pub stop: RecordStop,
    /// Delay between consecutive videos (seconds); ignored after the last one.
    pub delay_secs: Scalar,
}

/// Phase of the recording orchestrator, for the UI.
#[derive(Clone, Copy, Debug, PartialEq, Eq, Structural)]
pub enum RecordPhase {
    Idle,
    /// Actively writing frames to the current video.
    Recording,
    /// Between videos, waiting out the inter-video delay (stream still running).
    Waiting,
}

impl Default for RecordPhase {
    fn default() -> (p: Self)
        ensures
            p == RecordPhase::Idle,
    {
        RecordPhase::Idle
    }
}

/// Recording progress mirrored to the GUI.
#[derive(Clone, Debug)]
pub struct RecordStatus {
    /// Whether a recording sequence is currently running.
    pub active: bool,
    pub phase: RecordPhase,
    /// 1-based index of the current video and total in the sequence.
    pub current: usize,
    pub total: usize,
    /// Frames written to the current video.
    pub frames_written: u64,
    /// Frames skipped because their size didn't match the SER header (e.g. geometry changed).
    pub dropped: u64,
    /// Seconds elapsed in the current video.
    pub elapsed_secs: Scalar,
    /// Path of the most recently finalized `.ser` file.
    pub last_file: Option<String>,
}

impl RecordStatus {
    /// Nothing recorded yet.
    pub open spec fn initial() -> RecordStatus {
        RecordStatus {
            active: false,
            phase: RecordPhase::Idle,
            current: 0,
            total: 0,
            frames_written: 0,
            dropped: 0,
            elapsed_secs: Scalar::zero(),
            last_file: None,
        }
    }
}

impl Default for RecordStatus {
    fn default() -> (s: Self)
        ensures
            s == RecordStatus::initial(),
    {
        RecordStatus {
            active: false,
            phase: RecordPhase::Idle,
            current: 0,
            total: 0,
            frames_written: 0,
            dropped: 0,
            elapsed_secs: Scalar::new_zero(),
            last_file: None,
        }
    }
}

/// Coarse connection lifecycle state shown in the UI.
#[derive(Clone, Copy, Debug, PartialEq, Eq, Structural)]
pub enum ConnState {
    Disconnected,
    Connecting,
    Connected,
    Failed,
}

/// State of an INDI property or light.
#[derive(Clone, Copy, Debug, PartialEq, Eq, Structural)]
pub enum IndiState {
    Idle,
    Okay,
    Busy,
    Alert,
}

/// How many switches of a property may be on.
#[derive(Clone, Copy, Debug, PartialEq, Eq, Structural)]
pub enum IndiSwitchRule {
    OneOfMany,
    AtMostOne,
    AnyOfMany,
}

/// A number element of an INDI property.
#[derive(Clone, Debug)]
pub struct IndiNumber {
    pub name: String,
    pub label: String,
    pub value: Scalar,
    pub min: Scalar,
    pub max: Scalar,
    pub step: Scalar,
}

/// A switch element of an INDI property.
#[derive(Clone, Debug)]
pub struct IndiSwitch {
    pub name: String,
    pub label: String,
    pub on: bool,
}

/// A text element of an INDI property.
#[derive(Clone, Debug)]
pub struct IndiText {
    pub name: String,
    pub label: String,
    pub value: String,
}

/// A light element of an INDI property.
#[derive(Clone, Debug)]
pub struct IndiLight {
    pub label: String,
    pub state: IndiState,
}

/// The elements of an INDI property.
#[derive(Clone, Debug)]
pub enum IndiValue {
    Number(Vec<IndiNumber>),
    Switch { rule: IndiSwitchRule, items: Vec<IndiSwitch> },
    Text(Vec<IndiText>),
    Light(Vec<IndiLight>),
    /// The labels of the blobs.
    Blob(Vec<String>),
}

/// An INDI property as the control panel shows it.
#[derive(Clone, Debug)]
pub struct IndiProp {
    pub name: String,
    pub label: String,
    pub state: IndiState,
    pub writable: bool,
    pub value: IndiValue,
}

/// The properties of one INDI group.
#[derive(Clone, Debug)]
pub struct IndiGroup {
    pub name: String,
    pub props: Vec<IndiProp>,
}

/// A device's full property tree.
#[derive(Clone, Debug)]
pub struct IndiPanel {
    pub device: String,
    pub groups: Vec<IndiGroup>,
}

/// Cap on the rolling log.
pub const LOG_CAP: usize = 200;

/// Snapshot of worker/device state that the GUI renders.
#[derive(Debug)]
pub struct Shared {
    pub conn: ConnState,
    pub streaming: bool,
    pub fps: Scalar,
    pub frame_count: u64,
    /// Camera gain (driver units) and exposure (seconds), as last known.
    pub gain: Scalar,
    pub exposure: Scalar,
    /// All available CCD / telescope device names, and the currently-selected one of each.
    pub cameras: Vec<String>,
    pub mounts: Vec<String>,
    pub camera_sel: String,
    pub mount_sel: String,
    /// Available slew rates as (element name, label), and the selected index.
    pub slew_rates: Vec<(String, String)>,
    pub slew_rate_idx: usize,
    /// Available tracking modes as (element name, label), and the selected index.
    pub track_modes: Vec<(String, String)>,
    pub track_mode_idx: usize,
    pub tracking: bool,
    pub last_capture: Option<String>,
    /// Full sensor size in pixels (`CCD_INFO`), 0 until a camera is bound. Bounds the ROI controls.
    pub sensor_w: u32,
    pub sensor_h: u32,
    /// Currently-applied readout region `(x, y, w, h)` in sensor pixels (full sensor by default).
    pub roi: (u32, u32, u32, u32),
    /// Symmetric binning (1 = unbinned).
    pub binning: u32,
    /// The camera's stream-format switch properties that the driver exposes.
    pub stream_switches: Vec<CameraSwitch>,
    /// Live recording progress.
    pub recording: RecordStatus,
    /// Whether the guide loop is currently running.
    pub guiding: bool,
    /// Whether a calibration run is in progress.
    pub calibrating: bool,
    /// Whether a valid calibration has been obtained (required before guiding).
    pub calibrated: bool,
    /// The current pixel-to-mount calibration (present once `calibrated`).
    pub guide_calib: Option<Calibration>,
    /// The locked reference position guiding steers the target back toward.
    pub lock_point: Option<(Scalar, Scalar)>,
    /// Most recent detected target position (for the on-screen overlay).
    pub detected: Option<(Scalar, Scalar)>,
    /// Most recent guide error `(ra, dec)`, in mount-frame pixels.
    pub guide_err: Option<(Scalar, Scalar)>,
    /// RMS of the recent guide error magnitude (pixels).
    pub guide_rms: Scalar,
    /// RMS of the RA and DEC error components separately (mount-frame pixels).
    pub guide_rms_ra: Scalar,
    pub guide_rms_dec: Scalar,
    /// Largest single error magnitude in the history window (pixels).
    pub guide_peak: Scalar,
    /// Rolling guide-error history `(ra, dec)` (mount-frame pixels) for the graph, capped.
    pub guide_history: VecDeque<(Scalar, Scalar)>,
    /// Live guiding-loop parameters (edited in the UI, read by the guide loop).
    pub guide_params: GuideParams,
    /// Current detection mode (mirrors the bus's for the UI).
    pub guide_mode: GuideMode,
    /// UI toggle: run detection for the on-screen overlay even when not guiding.
    pub detect_overlay: bool,
    /// Smoothed sharpness of the current frame, its best value so far, and its history.
    pub focus_metric: Scalar,
    pub focus_peak: Scalar,
    pub focus_history: VecDeque<Scalar>,
    /// The property trees of the camera and the mount, for the generic control panel.
    pub camera_panel: Option<IndiPanel>,
    pub mount_panel: Option<IndiPanel>,
    /// Rolling log (most recent last), capped.
    pub log: VecDeque<String>,
}

/// A log after one more line: the newest [`LOG_CAP`] lines stay.
#[verifier::opaque]
pub open spec fn logged(log: Seq<Seq<char>>, msg: Seq<char>) -> Seq<Seq<char>> {
    let all = log.push(msg);
    if all.len() > LOG_CAP {
        all.subrange(all.len() - LOG_CAP, all.len() as int)
    } else {
        all
    }
}

/// The lines of a log as characters.
#[verifier::opaque]
pub open spec fn texts(log: VecDeque<String>) -> Seq<Seq<char>> {
    log@.map_values(|s: String| s@)
}

impl Shared {
    /// The lines of the log.
    pub open spec fn lines(&self) -> Seq<Seq<char>> {
        texts(self.log)
    }

    /// This is `before` with `msg` logged.
    pub open spec fn is_logged(&self, before: Shared, msg: Seq<char>) -> bool {
        &&& *self == (Shared { log: self.log, ..before })
        &&& self.lines() == logged(before.lines(), msg)
    }

    /// What is shared before anything has happened.
    pub open spec fn is_initial(&self) -> bool {
        &&& self.conn == ConnState::Disconnected
        &&& !self.streaming
        &&& self.fps == Scalar::zero()
        &&& self.frame_count == 0
        &&& self.gain == Scalar::zero()
        &&& self.exposure == Scalar::zero()
        &&& self.cameras@.len() == 0
        &&& self.mounts@.len() == 0
        &&& self.camera_sel@.len() == 0
        &&& self.mount_sel@.len() == 0
        &&& self.slew_rates@.len() == 0
        &&& self.slew_rate_idx == 0
        &&& self.track_modes@.len() == 0
        &&& self.track_mode_idx == 0
        &&& !self.tracking
        &&& self.last_capture is None
        &&& self.sensor_w == 0
        &&& self.sensor_h == 0
        &&& self.roi == (0u32, 0u32, 0u32, 0u32)
        &&& self.binning == 1
        &&& self.stream_switches@.len() == 0
        &&& self.recording == RecordStatus::initial()
        &&& !self.guiding
        &&& !self.calibrating
        &&& !self.calibrated
        &&& self.guide_calib is None
        &&& self.lock_point is None
        &&& self.detected is None
        &&& self.guide_err is None
        &&& self.guide_rms == Scalar::zero()
        &&& self.guide_rms_ra == Scalar::zero()
        &&& self.guide_rms_dec == Scalar::zero()
        &&& self.guide_peak == Scalar::zero()
        &&& self.guide_history@.len() == 0
        &&& self.guide_params == GuideParams::initial()
        &&& self.guide_mode == GuideMode::Disk
        &&& !self.detect_overlay
        &&& self.focus_metric == Scalar::zero()
        &&& self.focus_peak == Scalar::zero()
        &&& self.focus_history@.len() == 0
        &&& self.camera_panel is None
        &&& self.mount_panel is None
        &&& self.log@.len() == 0
    }

    /// Append a line to the log, dropping the oldest beyond the cap.
    pub fn log(&mut self, msg: String)
        requires
            old(self).log@.len() <= LOG_CAP,
        ensures
            final(self).is_logged(*old(self), msg@),
            final(self).log@.len() <= LOG_CAP,
            final(self).log@.last() == msg,
    {
        proof {
            reveal(texts);
            reveal(logged);
        }
        let ghost before = self.lines();
        self.log.push_back(msg);
        if self.log.len() > LOG_CAP {
            let _ = self.log.pop_front();
        }
        proof {
            assert(self.lines() =~= logged(before, msg@));
        }
    }
}

impl Default for Shared {
    fn default() -> (s: Self)
        ensures
            s.is_initial(),
    {
        let zero = Scalar::new_zero();
        proof {
            reveal_strlit("");
        }
        Shared {
            conn: ConnState::Disconnected,
            streaming: false,
            fps: zero,
            frame_count: 0,
            gain: zero,
            exposure: zero,
            cameras: Vec::new(),
            mounts: Vec::new(),
            camera_sel: "".to_owned(),
            mount_sel: "".to_owned(),
            slew_rates: Vec::new(),
            slew_rate_idx: 0,
            track_modes: Vec::new(),
            track_mode_idx: 0,
            tracking: false,
            last_capture: None,
            sensor_w: 0,
            sensor_h: 0,
            roi: (0, 0, 0, 0),
            binning: 1,
            stream_switches: Vec::new(),
            recording: RecordStatus::default(),
            guiding: false,
            calibrating: false,
            calibrated: false,
            guide_calib: None,
            lock_point: None,
            detected: None,
            guide_err: None,
            guide_rms: zero,
            guide_rms_ra: zero,
            guide_rms_dec: zero,
            guide_peak: zero,
            guide_history: VecDeque::new(),
            guide_params: GuideParams::default(),
            guide_mode: GuideMode::Disk,
            detect_overlay: false,
            focus_metric: zero,
            focus_peak: zero,
            focus_history: VecDeque::new(),
            camera_panel: None,
            mount_panel: None,
            log: VecDeque::new(),
        }
    }
}

/// State shared between the GUI and the worker. Recordings go to outputs of type `W`.
pub struct Bus<W: SerOutput> {
    pub shared: Shared,
    /// Latest raw decoded frame (kept for full-quality captures + paused re-stretch).
    pub latest_frame: Option<Frame>,
    /// Latest display-ready image, produced by the worker.
    pub display: Option<DisplayImage>,
    /// Bumped whenever `display` is replaced, so the GUI re-uploads only on a new image.
    pub display_seq: u64,
    /// Live-view stretch settings, read by the worker each frame.
    pub auto_stretch: bool,
    pub display_gain: Scalar,
    /// Newest target measurement from the detector (latest-wins, like `latest_frame`).
    pub guide_sample: Option<GuideSample>,
    /// When set, the decode thread runs target detection (guiding, calibrating, or overlay on).
    pub detect_enabled: bool,
    /// Detection mode as [`GuideMode::as_u8`], read by the decode-thread detector.
    pub guide_mode: u8,
    /// Bumped on guide start / re-lock to make the Surface detector recapture its reference patch.
    pub ref_generation: u64,
    /// Cheap gate: when false the decode thread never touches the recorder.
    pub recording_active: bool,
    /// The SER file currently being written (installed by the recording orchestrator).
    pub recorder: Option<SerRecorder<W>>,
    /// How many frames the open file takes at most; absent where frames do not end it.
    pub record_limit: Option<u64>,
    /// Current readout geometry, so the decode thread can interpret dimensionless raw frames.
    pub frame_w: u32,
    pub frame_h: u32,
    /// Full sensor size (`(0, 0)` until known): fallback geometry for drivers that stream the full
    /// sensor even after a subframe is set.
    pub sensor_w: u32,
    pub sensor_h: u32,
    /// Byte length of the most recent raw (decompressed) frame.
    pub last_raw_len: usize,
}

/// Whether detection should run: on while guiding, calibrating, or the overlay toggle is set.
pub open spec fn detection_wanted(s: Shared) -> bool {
    s.detect_overlay || s.calibrating || s.guiding
}

/// The sequence number after another one, going round after the last.
pub open spec fn seq_after(seq: u64) -> u64 {
    if seq == u64::MAX {
        0
    } else {
        (seq + 1) as u64
    }
}

/// The stretch settings on a bus.
pub open spec fn stretch_settings<W: SerOutput>(bus: Bus<W>) -> (bool, Scalar) {
    (bus.auto_stretch, bus.display_gain)
}

/// The worker reads the stretch settings that the GUI has set last.
pub proof fn law_display_settings_read_back<W: SerOutput>(
    before: Bus<W>,
    after: Bus<W>,
    auto: bool,
    gain: Scalar,
)
    requires
        after == (Bus { auto_stretch: auto, display_gain: gain, ..before }),
    ensures
        stretch_settings(after) == (auto, gain),
{
}

/// A file with as many frames as it takes.
pub open spec fn is_full<W: SerOutput>(rec: SerRecorder<W>, limit: Option<u64>) -> bool {
    limit matches Some(n) && rec.written() >= n
}

/// What becomes of one payload handed to an open recording. A file that is full stays as it is.
/// Otherwise the payload is appended with its time, or it is refused and counted as dropped; one of
/// the wrong size is always refused and leaves the file as it is, and one of the right size is
/// appended wherever the output has room.
pub open spec fn frame_recorded<W: SerOutput>(
    before: SerRecorder<W>,
    after: SerRecorder<W>,
    limit: Option<u64>,
    status_before: RecordStatus,
    status_after: RecordStatus,
    bytes: Seq<u8>,
    now: Option<UnixTime>,
) -> bool {
    if is_full(before, limit) {
        after == before && status_after == status_before
    } else {
        frame_offered(before, after, status_before, status_after, bytes, now)
    }
}

/// What becomes of one payload handed to a file that is not full.
pub open spec fn frame_offered<W: SerOutput>(
    before: SerRecorder<W>,
    after: SerRecorder<W>,
    status_before: RecordStatus,
    status_after: RecordStatus,
    bytes: Seq<u8>,
    now: Option<UnixTime>,
) -> bool {
    let took = after.written() != before.written();
    &&& after.frame_size() == before.frame_size()
    &&& bytes.len() != before.frame_size() ==> after == before
    &&& bytes.len() == before.frame_size() && before.has_room(bytes.len() as int) ==> took
    &&& took ==> after.output().reliable() == before.output().reliable()
    &&& status_after == (RecordStatus {
        dropped: (status_before.dropped + if took {
            0int
        } else {
            1int
        }) as u64,
        ..status_before
    })
    &&& took ==> {
        &&& after.written() == before.written() + 1
        &&& after.times() == before.times().push(recorder::filetime_of(now) as i64)
        &&& after.output().contents() == crate::bytes::overwrite(
            before.output().contents(),
            before.output().position(),
            bytes,
        )
        &&& after.output().position() == before.output().position() + bytes.len()
    }
    &&& !took ==> after.times() == before.times()
    &&& took ==> forall|
        w: u32,
        h: u32,
        c: recorder::SerColor,
        d: u8,
        t: int,
        frames: Seq<Seq<u8>>,
    |
        before.recording(w, h, c, d, t, frames) ==> #[trigger] after.recording(
            w,
            h,
            c,
            d,
            t,
            frames.push(bytes),
        )
}

impl<W: SerOutput> Bus<W> {
    /// The log and the guide-error history are within their caps, the open file holds no more
    /// frames than it takes, and detection runs exactly when it is wanted.
    pub open spec fn wf(&self) -> bool {
        &&& self.shared.log@.len() <= LOG_CAP
        &&& self.recorder matches Some(rec) ==> (self.record_limit matches Some(n) ==> rec.written()
            <= n)
        &&& self.shared.guide_history@.len() <= guiding::HISTORY_CAP
        &&& self.detect_enabled == detection_wanted(self.shared)
    }

    /// An open recording can count one more frame, taken or dropped, and date it.
    pub open spec fn can_count(&self, now: Option<UnixTime>) -> bool {
        self.recorder matches Some(rec) ==> {
            &&& rec.written() < u32::MAX
            &&& self.shared.recording.dropped < u64::MAX
            &&& recorder::in_filetime_range(now)
        }
    }

    /// A bus before anything has happened: automatic stretch at unit gain, nothing published.
    pub fn new() -> (b: Self)
        ensures
            b.wf(),
            b.shared.is_initial(),
            b.latest_frame is None,
            b.display is None,
            b.display_seq == 0,
            b.auto_stretch,
            b.display_gain.bits == ONE_BITS,
            b.guide_sample is None,
            !b.detect_enabled,
            b.guide_mode == GuideMode::Disk.code(),
            b.ref_generation == 0,
            !b.recording_active,
            b.recorder is None,
            b.record_limit is None,
            b.frame_w == 0,
            b.frame_h == 0,
            b.sensor_w == 0,
            b.sensor_h == 0,
            b.last_raw_len == 0,
    {
        Bus {
            shared: Shared::default(),
            latest_frame: None,
            display: None,
            display_seq: 0,
            auto_stretch: true,
            display_gain: Scalar { bits: ONE_BITS },
            guide_sample: None,
            detect_enabled: false,
            guide_mode: GuideMode::Disk.as_u8(),
            ref_generation: 0,
            recording_active: false,
            recorder: None,
            record_limit: None,
            frame_w: 0,
            frame_h: 0,
            sensor_w: 0,
            sensor_h: 0,
            last_raw_len: 0,
        }
    }

    /// Append a log line.
    pub fn log(&mut self, msg: String)
        requires
            old(self).shared.log@.len() <= LOG_CAP,
        ensures
            *final(self) == (Bus { shared: final(self).shared, ..*old(self) }),
            final(self).shared.is_logged(old(self).shared, msg@),
            final(self).shared.log@.len() <= LOG_CAP,
    {
        self.shared.log(msg);
    }

    /// GUI -> worker: update the live-view stretch settings the worker applies to new frames.
    pub fn set_display_settings(&mut self, auto: bool, gain: Scalar)
        ensures
            *final(self) == (Bus { auto_stretch: auto, display_gain: gain, ..*old(self) }),
    {
        self.auto_stretch = auto;
        self.display_gain = gain;
    }

    /// Worker: current stretch settings to apply to the next frame.
    pub fn display_settings(&self) -> (r: (bool, Scalar))
        ensures
            r == stretch_settings(*self),
    {
        (self.auto_stretch, self.display_gain)
    }

    /// Worker: publish a freshly rendered display image and signal the GUI to upload it.
    pub fn publish_display(&mut self, img: DisplayImage)
        ensures
            *final(self) == (Bus {
                display: Some(img),
                display_seq: seq_after(old(self).display_seq),
                ..*old(self)
            }),
    {
        self.display = Some(img);
        self.display_seq = if self.display_seq == u64::MAX {
            0
        } else {
            self.display_seq + 1
        };
    }

    /// Recompute whether the decode thread should run detection from the current state.
    pub fn refresh_detect(&mut self)
        ensures
            *final(self) == (Bus {
                detect_enabled: detection_wanted(old(self).shared),
                ..*old(self)
            }),
    {
        self.detect_enabled = self.shared.detect_overlay || self.shared.calibrating
            || self.shared.guiding;
    }

    /// Whether the decode thread should run detection this frame.
    pub fn detect_enabled(&self) -> (on: bool)
        ensures
            on == self.detect_enabled,
    {
        self.detect_enabled
    }

    /// Set the detection mode for the decode-thread detector.
    pub fn set_guide_mode(&mut self, mode: GuideMode)
        ensures
            *final(self) == (Bus { guide_mode: mode.code(), ..*old(self) }),
    {
        self.guide_mode = mode.as_u8();
    }

    /// Signal the Surface detector to recapture its reference patch, returning the new generation.
    pub fn bump_ref_generation(&mut self) -> (generation: u64)
        requires
            old(self).ref_generation < u64::MAX,
        ensures
            *final(self) == (Bus { ref_generation: generation, ..*old(self) }),
            generation == old(self).ref_generation + 1,
    {
        self.ref_generation = self.ref_generation + 1;
        self.ref_generation
    }

    /// Decode thread: publish the newest target measurement.
    pub fn publish_guide_sample(&mut self, sample: GuideSample)
        ensures
            *final(self) == (Bus { guide_sample: Some(sample), ..*old(self) }),
    {
        self.guide_sample = Some(sample);
    }

    /// Worker: record the current readout geometry so the decode thread can interpret raw frames.
    pub fn set_stream_geometry(&mut self, w: u32, h: u32)
        ensures
            *final(self) == (Bus { frame_w: w, frame_h: h, ..*old(self) }),
    {
        self.frame_w = w;
        self.frame_h = h;
    }

    /// Decode thread: the current readout geometry `(w, h)` (`(0, 0)` until known).
    pub fn frame_geometry(&self) -> (r: (u32, u32))
        ensures
            r == (self.frame_w, self.frame_h),
    {
        (self.frame_w, self.frame_h)
    }

    /// Worker: record the full sensor size.
    pub fn set_sensor_size(&mut self, w: u32, h: u32)
        ensures
            *final(self) == (Bus { sensor_w: w, sensor_h: h, ..*old(self) }),
    {
        self.sensor_w = w;
        self.sensor_h = h;
    }

    /// Decode thread: the full sensor size `(w, h)` (`(0, 0)` until known).
    pub fn sensor_size(&self) -> (r: (u32, u32))
        ensures
            r == (self.sensor_w, self.sensor_h),
    {
        (self.sensor_w, self.sensor_h)
    }

    /// Decode thread: remember the newest raw frame's decompressed byte length.
    pub fn set_last_raw_len(&mut self, len: usize)
        ensures
            *final(self) == (Bus { last_raw_len: len, ..*old(self) }),
    {
        self.last_raw_len = len;
    }

    /// Orchestrator: the newest raw frame's decompressed byte length (for bit-depth inference).
    pub fn last_raw_len(&self) -> (len: usize)
        ensures
            len == self.last_raw_len,
    {
        self.last_raw_len
    }

    /// Whether the decode thread should append frames to the recorder this frame.
    pub fn recording_active(&self) -> (on: bool)
        ensures
            on == self.recording_active,
    {
        self.recording_active
    }

    /// Decode thread: append one frame's native payload to the open SER file. A frame that the
    /// recorder refuses (e.g. geometry changed mid-recording) is counted as dropped rather than
    /// corrupting the file. Without an open file, or with one that is full, nothing happens.
    pub fn write_record_frame(&mut self, bytes: &[u8], now: Option<UnixTime>)
        requires
            old(self).can_count(now),
        ensures
            old(self).recorder is None ==> *final(self) == *old(self),
            old(self).recorder is Some ==> {
                &&& final(self).recorder is Some
                &&& *final(self) == (Bus {
                    recorder: final(self).recorder,
                    shared: Shared {
                        recording: final(self).shared.recording,
                        ..old(self).shared
                    },
                    ..*old(self)
                })
                &&& frame_recorded(
                    old(self).recorder->0,
                    final(self).recorder->0,
                    old(self).record_limit,
                    old(self).shared.recording,
                    final(self).shared.recording,
                    bytes@,
                    now,
                )
            },
            old(self).wf() ==> final(self).wf(),
    {
        if let (Some(rec), Some(n)) = (&self.recorder, self.record_limit) {
            if rec.frame_count() as u64 >= n {
                return;
            }
        }
        let taken: Option<SerRecorder<W>> = self.recorder.take();
        match taken {
            Some(rec) => {
                let mut rec = rec;
                let refused: bool = match rec.write_frame(bytes, now) {
                    Ok(_) => false,
                    Err(_) => true,
                };
                self.recorder = Some(rec);
                if refused {
                    self.shared.recording.dropped = self.shared.recording.dropped + 1;
                }
            },
            None => {},
        }
    }
}

/// The log keeps its newest 200 lines in their order: a new one goes to the end, and only where there
/// are already 200 does the oldest leave.
pub proof fn law_log_keeps_the_newest(log: Seq<Seq<char>>, msg: Seq<char>, i: int)
    requires
        log.len() <= 200,
    ensures
        logged(log, msg).len() > 0,
        logged(log, msg).last() == msg,
        log.len() < 200 ==> logged(log, msg) == log.push(msg),
        log.len() == 200 ==> logged(log, msg).len() == 200 && (0 <= i < 199 ==> logged(log, msg)[i]
            == log[i + 1]),
{
    reveal(logged);
    if log.len() < 200 {
        assert(logged(log, msg) =~= log.push(msg));
    }
}

/// What is stated of the log is what it holds, line by line, and logging touches nothing else.
pub proof fn law_logging_adds_a_line(before: Shared, after: Shared, msg: Seq<char>, i: int)
    requires
        after.is_logged(before, msg),
        before.log@.len() <= 200,
    ensures
        after.log@.len() > 0,
        after.log@.last()@ == msg,
        0 <= i < after.log@.len() ==> after.lines()[i] == after.log@[i]@,
        before.log@.len() < 200 ==> after.log@.len() == before.log@.len() + 1 && (0 <= i
            < before.log@.len() ==> after.log@[i]@ == before.log@[i]@),
        after.streaming == before.streaming,
        after.conn == before.conn,
        after.roi == before.roi,
        after.recording == before.recording,
        after.guiding == before.guiding,
        after.guide_calib == before.guide_calib,
        after.lock_point == before.lock_point,
        after.guide_params == before.guide_params,
{
    reveal(texts);
    reveal(logged);
    assert(after.lines().len() == after.log@.len());
    assert(before.lines().len() == before.log@.len());
    assert(after.lines().last() == msg);
    assert(after.lines()[after.log@.len() - 1] == after.log@.last()@);
    if 0 <= i < before.log@.len() && before.log@.len() < 200 {
        assert(after.lines()[i] == before.lines()[i]);
    }
}

/// Detection runs exactly while something needs it: the overlay, a calibration or the guiding.
pub proof fn law_detection_runs_while_needed(s: Shared)
    ensures
        s.detect_overlay ==> detection_wanted(s),
        s.calibrating ==> detection_wanted(s),
        s.guiding ==> detection_wanted(s),
        !s.detect_overlay && !s.calibrating && !s.guiding ==> !detection_wanted(s),
{
}

/// Each published image has another number than the one before; numbers count up, and begin again
/// at zero when they run out.
pub proof fn law_images_are_numbered(seq: u64)
    ensures
        seq_after(seq) != seq,
        seq < u64::MAX ==> seq_after(seq) == seq + 1,
        seq_after(u64::MAX) == 0,
{
}

/// A picker shows what its switch holds, in order.
pub proof fn law_pickers_show_the_switches(switches: Seq<CameraSwitch>, i: int)
    requires
        0 <= i < switches.len(),
    ensures
        pickers(switches).len() == switches.len(),
        pickers(switches)[i].prop == switches[i].prop@,
        pickers(switches)[i].label == switches[i].label@,
        pickers(switches)[i].options == switches[i].options@,
        pickers(switches)[i].selected == switches[i].selected@,
{
}

/// At the start nothing is connected, streamed, bound, recorded, guided, detected or logged, and the
/// camera is not binned.
pub proof fn law_nothing_has_happened_at_first(s: Shared)
    requires
        s.is_initial(),
    ensures
        s.conn == ConnState::Disconnected,
        !s.streaming && !s.tracking && !s.guiding && !s.calibrating && !s.calibrated,
        !s.detect_overlay && !s.recording.active && s.recording.phase == RecordPhase::Idle,
        s.cameras@.len() == 0 && s.mounts@.len() == 0,
        s.camera_sel@.len() == 0 && s.mount_sel@.len() == 0,
        s.sensor_w == 0 && s.sensor_h == 0 && s.roi == (0u32, 0u32, 0u32, 0u32),
        s.binning == 1,
        s.guide_calib is None && s.lock_point is None && s.detected is None && s.guide_err is None,
        s.guide_mode == GuideMode::Disk,
        s.frame_count == 0 && s.recording.frames_written == 0 && s.recording.dropped == 0,
        s.recording.current == 0 && s.recording.total == 0 && s.recording.last_file is None,
        s.recording.elapsed_secs.bits == 0,
        s.fps.bits == 0 && s.gain.bits == 0 && s.exposure.bits == 0,
        s.last_capture is None && s.log@.len() == 0,
        s.guide_history@.len() == 0 && s.focus_history@.len() == 0,
        s.camera_panel is None && s.mount_panel is None,
        s.slew_rates@.len() == 0 && s.track_modes@.len() == 0 && s.stream_switches@.len() == 0,
        s.slew_rate_idx == 0 && s.track_mode_idx == 0,
        s.guide_rms.bits == 0 && s.guide_rms_ra.bits == 0 && s.guide_rms_dec.bits == 0,
        s.guide_peak.bits == 0 && s.focus_metric.bits == 0 && s.focus_peak.bits == 0,
        s.guide_params == GuideParams::initial(),
{
}

/// A recording takes a payload of its frame size as its next frame, behind all that it holds, with
/// the time of that moment, and drops none; a payload of another size leaves the file as it is and is
/// counted as dropped. A full file takes nothing and counts nothing.
pub proof fn law_recording_takes_whole_frames<W: SerOutput>(
    before: SerRecorder<W>,
    after: SerRecorder<W>,
    limit: Option<u64>,
    s0: RecordStatus,
    s1: RecordStatus,
    payload: Seq<u8>,
    now: Option<UnixTime>,
)
    requires
        frame_recorded(before, after, limit, s0, s1, payload, now),
        s0.dropped < u64::MAX,
    ensures
        ({
            let full = limit is Some && before.written() >= limit->0;
            &&& full ==> after == before && s1 == s0
            &&& !full && payload.len() != before.frame_size() ==> after == before && s1.dropped
                == s0.dropped + 1
            &&& !full && payload.len() == before.frame_size() && before.output().reliable()
                && before.output().position() + payload.len() <= usize::MAX ==> {
                &&& after.written() == before.written() + 1
                &&& s1.dropped == s0.dropped
                &&& after.times().len() == before.times().len() + 1
                &&& after.times().last() == recorder::filetime_of(now) as i64
                &&& after.output().position() == before.output().position() + payload.len()
                &&& forall|i: int|
                    0 <= i < payload.len() ==> #[trigger] after.output().contents()[before.output().position()
                        + i] == payload[i]
                &&& forall|i: int|
                    0 <= i < before.output().position() && i < before.output().contents().len()
                        ==> #[trigger] after.output().contents()[i] == before.output().contents()[i]
            }
            &&& s1.current == s0.current && s1.total == s0.total && s1.active == s0.active
            &&& s1.phase == s0.phase && s1.last_file == s0.last_file
            &&& s1.frames_written == s0.frames_written
        }),
{
}

/// The bus stays sound as long as its log and error history stay within their bounds, an open file
/// within its limit, and detection runs while needed.
pub proof fn law_sound_bus<W: SerOutput>(b: Bus<W>)
    requires
        b.wf(),
    ensures
        b.shared.log@.len() <= 200,
        b.shared.guide_history@.len() <= 600,
        b.detect_enabled <==> b.shared.detect_overlay || b.shared.calibrating || b.shared.guiding,
        b.recorder is Some && b.record_limit is Some ==> b.recorder->0.written()
            <= b.record_limit->0,
{
}

} // verus!
