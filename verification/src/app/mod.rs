//! The front-end's rules: what each control does, when it is enabled, and what a repaint shows.

pub mod panel;
pub mod repaint;
pub mod roi;

use crate::bus::{Bus, Command, ConnState, RecordConfig, RecordStop, Shared};
use crate::ephemeris::SolarObject;
use crate::guiding::controller::{DecMode, GuideParams, ONE_BITS};
use crate::guiding::detector::GuideMode;
use crate::guiding::DEFAULT_CALIB_MS_BITS;
use crate::recorder::SerOutput;
use crate::scalar::Scalar;
use crate::text;
use panel::Edits;
use vstd::prelude::*;

pub use roi::{clamp_roi, drag_to_roi};

verus! {

/// Bit pattern of 215, the gain first offered (driver units).
pub const GAIN_BITS: u64 = 0x406A_E000_0000_0000;

/// Bit pattern of 0.002, the exposure first offered (seconds).
pub const EXPOSURE_BITS: u64 = 0x3F60_624D_D2F1_A9FC;

/// Bit pattern of 30, the video length first offered (seconds).
pub const TARGET_SECS_BITS: u64 = 0x403E_0000_0000_0000;

/// Frames that must have arrived before the screenshot hook fires.
pub const SCREENSHOT_FRAMES: u64 = 5;

/// Lines of the log on display.
pub const LOG_TAIL: usize = 8;

/// Samples that a graph's time axis shows at least.
pub const PLOT_WINDOW: usize = 300;

/// The live view: how it is stretched, and which image it shows.
#[derive(Clone, Copy, Debug, PartialEq, Eq, Structural)]
pub struct LiveView {
    /// Last display image seq uploaded to the texture.
    pub last_seq: u64,
    /// Display stretch (raw stream frames are very dark).
    pub auto_stretch: bool,
    pub gain: Scalar,
    /// Max preview refresh rate (fps).
    pub preview_fps: Scalar,
    /// Force a re-render when stretch settings change (even without a new frame).
    pub dirty: bool,
}

/// Cached luminance histogram of the latest frame, the frame seq it was computed from, and that
/// frame's full-scale ADU for the x-axis.
#[derive(Debug)]
pub struct Histogram {
    pub bins: [u32; 256],
    pub seq: u64,
    pub max_adu: u32,
}

/// Pending ROI numeric inputs (sensor pixels), and the sensor size that they were last seeded
/// from: `(0, 0)` until first seeded.
#[derive(Clone, Copy, Debug)]
pub struct RoiInputs {
    pub x: i64,
    pub y: i64,
    pub w: i64,
    pub h: i64,
    pub seeded_for: (u32, u32),
}

/// Settings that the worker is told of as soon as they change.
#[derive(Clone, Copy, Debug, PartialEq, Eq, Structural)]
pub struct Settings {
    /// Symmetric binning selection (1 = unbinned).
    pub bin: u32,
    pub guide_mode: GuideMode,
    pub guide_params: GuideParams,
    /// Show the detected-target / lock-point overlay on the live view.
    pub detect_overlay: bool,
}

/// The recording controls.
#[derive(Clone, Copy, Debug, PartialEq, Eq, Structural)]
pub struct RecordInputs {
    /// Stop each video by frame count (true) or by elapsed seconds (false).
    pub by_frames: bool,
    pub target_frames: u64,
    pub target_secs: Scalar,
    /// Number of videos in the sequence and the delay (s) between them.
    pub count: usize,
    pub delay_secs: Scalar,
}

/// Test and automation hooks, and what they have done.
#[derive(Clone, Copy, Debug, PartialEq, Eq, Structural)]
pub struct Hooks {
    pub autoconnect: bool,
    pub autostream: bool,
    pub did_autoconnect: bool,
    pub did_autostream: bool,
    /// Save a screenshot once frames are flowing, then close.
    pub screenshot: bool,
    pub screenshot_requested: bool,
}

/// State of the front-end: editable copies behind the controls, and what has been shown and sent.
#[derive(Debug)]
pub struct App {
    pub addr: String,
    pub capture_dir: String,
    pub view: LiveView,
    pub hist: Histogram,
    /// Per-button "currently held" state for press-and-hold nudging, by [`nudge_dirs`].
    pub nudge_down: [bool; 8],
    pub gain_input: Scalar,
    pub exposure_input: Scalar,
    /// Whether sharpness is being measured.
    pub focus_enabled: bool,
    pub roi: RoiInputs,
    pub settings: Settings,
    /// Calibration pulse duration (ms) for the next calibration run.
    pub calib_pulse_ms: Scalar,
    /// Image scale (arcsec/pixel), user-entered; display-only.
    pub pixel_scale: Scalar,
    pub record: RecordInputs,
    /// Pending edits of the INDI control panel.
    pub indi_num_edits: Edits<Scalar>,
    pub indi_txt_edits: Edits<String>,
    pub hooks: Hooks,
}

/// A button of the front-end.
#[derive(Clone, Copy, Debug, PartialEq, Eq, Structural)]
pub enum Button {
    Connect,
    Disconnect,
    StartStream,
    StopStream,
    ApplyGain,
    ApplyExposure,
    CaptureFrame,
    Record,
    StopRecording,
    ApplyRoi,
    ResetRoi,
    Goto(SolarObject),
    Abort,
    Calibrate,
    ClearCalibration,
    Guide,
    StopGuiding,
    Relock,
}

/// Something picked, toggled or edited that the worker has to know at once.
#[derive(Clone, Copy, Debug, PartialEq, Eq, Structural)]
pub enum Pick {
    /// A camera, by its place among those on offer.
    Camera(usize),
    /// A mount, by its place among those on offer.
    Mount(usize),
    SlewRate(usize),
    TrackMode(usize),
    /// The tracking toggle.
    Tracking,
    /// An option of a stream-format switch, both by place.
    StreamSwitch { switch: usize, option: usize },
    Binning(u32),
    GuideMode(GuideMode),
    DecMode(DecMode),
    GuideParams(GuideParams),
    /// The detection overlay toggle.
    Overlay,
}

/// Whether a button can be pressed. All but "Connect" need a connection.
pub open spec fn pressable(button: Button, s: Shared) -> bool {
    let connected = s.conn == ConnState::Connected;
    let busy = s.calibrating || s.guiding;
    match button {
        Button::Connect => !connected,
        Button::StartStream => connected && !s.streaming,
        Button::StopStream => connected && s.streaming,
        Button::Record => connected && s.camera_sel@.len() > 0 && !s.recording.active,
        Button::StopRecording => connected && s.recording.active,
        Button::ApplyRoi | Button::ResetRoi => connected && s.sensor_w > 0,
        Button::Calibrate => connected && !busy,
        Button::ClearCalibration => connected && s.calibrated && !busy,
        Button::Guide => connected && s.calibrated && !s.guiding,
        Button::StopGuiding | Button::Relock => connected && s.guiding,
        _ => connected,
    }
}

/// ROI inputs as a region.
pub open spec fn entered(inputs: RoiInputs) -> (int, int, int, int) {
    (inputs.x as int, inputs.y as int, inputs.w as int, inputs.h as int)
}

/// ROI inputs after a region is entered into them.
pub open spec fn with_region(inputs: RoiInputs, r: (int, int, int, int)) -> RoiInputs {
    RoiInputs { x: r.0 as i64, y: r.1 as i64, w: r.2 as i64, h: r.3 as i64, ..inputs }
}

/// The region that "Apply ROI" commands: what was entered, clamped to the sensor.
pub open spec fn applied(inputs: RoiInputs, s: Shared) -> (int, int, int, int) {
    roi::clamped(entered(inputs), (s.sensor_w as int, s.sensor_h as int))
}

/// The ROI inputs after a press of a button that can be pressed.
pub open spec fn roi_after_press(inputs: RoiInputs, button: Button, s: Shared) -> RoiInputs {
    match button {
        Button::ApplyRoi => with_region(inputs, applied(inputs, s)),
        Button::ResetRoi => with_region(inputs, (0, 0, s.sensor_w as int, s.sensor_h as int)),
        _ => inputs,
    }
}

/// The recording run that the controls describe.
pub open spec fn run_described(inputs: RecordInputs, dir: Seq<char>, cfg: RecordConfig) -> bool {
    &&& cfg.dir@ == dir
    &&& cfg.count == if inputs.count == 0 {
        1
    } else {
        inputs.count
    }
    &&& cfg.stop == if inputs.by_frames {
        RecordStop::Frames(inputs.target_frames)
    } else {
        RecordStop::Seconds(inputs.target_secs)
    }
    &&& cfg.delay_secs == inputs.delay_secs
}

/// The command that a press of a button sends, from the app as it was before.
pub open spec fn sent_by_press(app: App, button: Button, s: Shared, cmd: Command) -> bool {
    match button {
        Button::Connect => cmd matches Command::Connect { addr } && addr@ == app.addr@,
        Button::Disconnect => cmd is Disconnect,
        Button::StartStream => cmd is StartStream,
        Button::StopStream => cmd is StopStream,
        Button::ApplyGain => cmd == Command::SetGain(app.gain_input),
        Button::ApplyExposure => cmd == Command::SetExposure(app.exposure_input),
        Button::CaptureFrame => cmd matches Command::CaptureFrame { dir } && dir@
            == app.capture_dir@,
        Button::Record => cmd matches Command::StartRecording(cfg) && run_described(
            app.record,
            app.capture_dir@,
            cfg,
        ),
        Button::StopRecording => cmd is StopRecording,
        Button::ApplyRoi => {
            &&& cmd matches Command::SetRoi { x, y, w, h }
            &&& roi::region((x, y, w, h)) == applied(app.roi, s)
        },
        Button::ResetRoi => cmd is ResetRoi,
        Button::Goto(body) => cmd == Command::GotoObject(body),
        Button::Abort => cmd is Abort,
        Button::Calibrate => cmd == Command::Calibrate { pulse_ms: app.calib_pulse_ms },
        Button::ClearCalibration => cmd is ClearCalibration,
        Button::Guide => cmd is StartGuiding,
        Button::StopGuiding => cmd is StopGuiding,
        Button::Relock => cmd is Relock,
    }
}

/// A pick among the front-end's own settings, rather than among what the devices offer.
pub open spec fn is_edit(pick: Pick) -> bool {
    pick is Binning || pick is GuideMode || pick is DecMode || pick is GuideParams || pick is Overlay
}

/// Whether the devices offer what is picked; a device or an option that is selected already is not
/// picked again.
pub open spec fn offered(pick: Pick, s: Shared) -> bool {
    match pick {
        Pick::Camera(i) => i < s.cameras@.len() && s.cameras@[i as int]@ != s.camera_sel@,
        Pick::Mount(i) => i < s.mounts@.len() && s.mounts@[i as int]@ != s.mount_sel@,
        Pick::SlewRate(i) => i < s.slew_rates@.len(),
        Pick::TrackMode(i) => s.tracking && i < s.track_modes@.len(),
        Pick::StreamSwitch { switch, option } => {
            &&& switch < s.stream_switches@.len()
            &&& option < s.stream_switches@[switch as int].options@.len()
            &&& s.stream_switches@[switch as int].options@[option as int]@
                != s.stream_switches@[switch as int].selected@
        },
        _ => true,
    }
}

/// Whether a pick changes a setting.
pub open spec fn changes(settings: Settings, pick: Pick) -> bool {
    match pick {
        Pick::Binning(bin) => 1 <= bin <= 4 && bin != settings.bin,
        Pick::GuideMode(mode) => mode != settings.guide_mode,
        Pick::DecMode(mode) => mode != settings.guide_params.dec_mode,
        Pick::GuideParams(p) => p != settings.guide_params,
        _ => true,
    }
}

/// Whether a pick has to be sent: there is a connection, it is on offer or changes a setting, and
/// binning waits for the sensor to be known.
pub open spec fn counts(app: App, pick: Pick, s: Shared) -> bool {
    &&& s.conn == ConnState::Connected
    &&& if is_edit(pick) {
        changes(app.settings, pick) && (pick is Binning ==> s.sensor_w > 0)
    } else {
        offered(pick, s)
    }
}

/// The settings after a pick that counts.
pub open spec fn settings_after(settings: Settings, pick: Pick) -> Settings {
    match pick {
        Pick::Binning(bin) => Settings { bin, ..settings },
        Pick::GuideMode(mode) => Settings { guide_mode: mode, ..settings },
        Pick::DecMode(mode) => Settings {
            guide_params: GuideParams { dec_mode: mode, ..settings.guide_params },
            ..settings
        },
        Pick::GuideParams(p) => Settings { guide_params: p, ..settings },
        Pick::Overlay => Settings { detect_overlay: !settings.detect_overlay, ..settings },
        _ => settings,
    }
}

/// The command for a changed setting, from the settings after the change.
pub open spec fn edit_sent(pick: Pick, now: Settings) -> Command {
    match pick {
        Pick::Binning(_) => Command::SetBinning { bin: now.bin },
        Pick::GuideMode(_) => Command::SetGuideMode(now.guide_mode),
        Pick::DecMode(_) | Pick::GuideParams(_) => Command::SetGuideParams(now.guide_params),
        _ => Command::SetDetectionOverlay(now.detect_overlay),
    }
}

/// The command for something picked among what the devices offer.
pub open spec fn offer_sent(pick: Pick, s: Shared, cmd: Command) -> bool {
    match pick {
        Pick::Camera(i) => cmd matches Command::SelectCamera(name) && name@
            == s.cameras@[i as int]@,
        Pick::Mount(i) => cmd matches Command::SelectMount(name) && name@ == s.mounts@[i as int]@,
        Pick::SlewRate(i) => cmd == Command::SetSlewRate(i),
        Pick::TrackMode(i) => cmd == Command::SetTrackMode(i),
        Pick::StreamSwitch { switch, option } => {
            let sw = s.stream_switches@[switch as int];
            &&& cmd matches Command::SetCameraSwitch { prop, elem }
            &&& prop@ == sw.prop@
            &&& elem@ == sw.options@[option as int]@
        },
        _ => cmd == Command::SetTracking(!s.tracking),
    }
}

/// The command that a pick sends, from the app as it was before.
pub open spec fn sent_by_pick(app: App, pick: Pick, s: Shared, cmd: Command) -> bool {
    if is_edit(pick) {
        cmd == edit_sent(pick, settings_after(app.settings, pick))
    } else {
        offer_sent(pick, s, cmd)
    }
}

impl Settings {
    /// A pick among the settings.
    fn edit(&mut self, pick: Pick) -> (cmd: Option<Command>)
        requires
            is_edit(pick),
        ensures
            cmd is Some <==> changes(*old(self), pick),
            cmd is None ==> *final(self) == *old(self),
            cmd matches Some(c) ==> {
                &&& *final(self) == settings_after(*old(self), pick)
                &&& c == edit_sent(pick, *final(self))
            },
    {
        match pick {
            Pick::Binning(bin) => if 1 <= bin && bin <= 4 && bin != self.bin {
                self.bin = bin;
                Some(Command::SetBinning { bin })
            } else {
                None
            },
            Pick::GuideMode(mode) => if mode != self.guide_mode {
                self.guide_mode = mode;
                Some(Command::SetGuideMode(mode))
            } else {
                None
            },
            Pick::DecMode(mode) => if mode != self.guide_params.dec_mode {
                self.guide_params.dec_mode = mode;
                Some(Command::SetGuideParams(self.guide_params))
            } else {
                None
            },
            Pick::GuideParams(p) => if p != self.guide_params {
                self.guide_params = p;
                Some(Command::SetGuideParams(p))
            } else {
                None
            },
            _ => {
                self.detect_overlay = !self.detect_overlay;
                Some(Command::SetDetectionOverlay(self.detect_overlay))
            },
        }
    }
}

impl RecordInputs {
    /// The recording run that the controls describe, into folder `dir`.
    fn config(&self, dir: &str) -> (cfg: RecordConfig)
        ensures
            run_described(*self, dir@, cfg),
    {
        let stop = if self.by_frames {
            RecordStop::Frames(self.target_frames)
        } else {
            RecordStop::Seconds(self.target_secs)
        };
        RecordConfig {
            dir: dir.to_owned(),
            count: if self.count == 0 {
                1
            } else {
                self.count
            },
            stop,
            delay_secs: self.delay_secs,
        }
    }
}

impl RoiInputs {
    /// Enter a region.
    pub fn enter(&mut self, region: (u32, u32, u32, u32))
        ensures
            *final(self) == with_region(*old(self), roi::region(region)),
    {
        let (x, y, w, h) = region;
        self.x = x as i64;
        self.y = y as i64;
        self.w = w as i64;
        self.h = h as i64;
    }
}

impl App {
    /// A front-end before its first repaint. The worker is given the stretch settings first
    /// offered. A screenshot run implies connecting and streaming, so that there is content to
    /// show.
    pub fn new<W: SerOutput>(bus: &mut Bus<W>, autoconnect: bool, screenshot: bool) -> (app: App)
        ensures
            *final(bus) == (Bus {
                auto_stretch: true,
                display_gain: Scalar { bits: ONE_BITS },
                ..*old(bus)
            }),
            app.addr@ == "127.0.0.1:7624"@,
            app.capture_dir@ == "captures"@,
            app.view == (LiveView {
                last_seq: 0,
                auto_stretch: true,
                gain: Scalar { bits: ONE_BITS },
                preview_fps: Scalar { bits: ONE_BITS },
                dirty: false,
            }),
            forall|i: int| 0 <= i < 256 ==> #[trigger] app.hist.bins@[i] == 0,
            app.hist.seq == 0,
            app.hist.max_adu == 255,
            forall|i: int| 0 <= i < 8 ==> !#[trigger] app.nudge_down@[i],
            app.gain_input.bits == GAIN_BITS,
            app.exposure_input.bits == EXPOSURE_BITS,
            !app.focus_enabled,
            app.roi == (RoiInputs { x: 0, y: 0, w: 0, h: 0, seeded_for: (0, 0) }),
            app.settings == (Settings {
                bin: 1,
                guide_mode: GuideMode::Disk,
                guide_params: GuideParams::initial(),
                detect_overlay: false,
            }),
            app.calib_pulse_ms.bits == DEFAULT_CALIB_MS_BITS,
            app.pixel_scale == Scalar::zero(),
            app.record == (RecordInputs {
                by_frames: true,
                target_frames: 500,
                target_secs: Scalar { bits: TARGET_SECS_BITS },
                count: 1,
                delay_secs: Scalar::zero(),
            }),
            app.indi_num_edits@ == Map::<Seq<char>, Scalar>::empty(),
            app.indi_txt_edits@ == Map::<Seq<char>, String>::empty(),
            app.hooks == (Hooks {
                autoconnect: autoconnect || screenshot,
                autostream: autoconnect || screenshot,
                did_autoconnect: false,
                did_autostream: false,
                screenshot,
                screenshot_requested: false,
            }),
    {
        let one = Scalar { bits: ONE_BITS };
        bus.set_display_settings(true, one);
        App {
            addr: "127.0.0.1:7624".to_owned(),
            capture_dir: "captures".to_owned(),
            view: LiveView {
                last_seq: 0,
                auto_stretch: true,
                gain: one,
                preview_fps: one,
                dirty: false,
            },
            hist: Histogram { bins: [0; 256], seq: 0, max_adu: 255 },
            nudge_down: [false; 8],
            gain_input: Scalar { bits: GAIN_BITS },
            exposure_input: Scalar { bits: EXPOSURE_BITS },
            focus_enabled: false,
            roi: RoiInputs { x: 0, y: 0, w: 0, h: 0, seeded_for: (0, 0) },
            settings: Settings {
                bin: 1,
                guide_mode: GuideMode::Disk,
                guide_params: GuideParams::default(),
                detect_overlay: false,
            },
            calib_pulse_ms: Scalar { bits: DEFAULT_CALIB_MS_BITS },
            pixel_scale: Scalar::new_zero(),
            record: RecordInputs {
                by_frames: true,
                target_frames: 500,
                target_secs: Scalar { bits: TARGET_SECS_BITS },
                count: 1,
                delay_secs: Scalar::new_zero(),
            },
            indi_num_edits: Edits::new(),
            indi_txt_edits: Edits::new(),
            hooks: Hooks {
                autoconnect: autoconnect || screenshot,
                autostream: autoconnect || screenshot,
                did_autoconnect: false,
                did_autostream: false,
                screenshot,
                screenshot_requested: false,
            },
        }
    }

    /// Whether a button is enabled.
    pub fn enabled(button: Button, s: &Shared) -> (on: bool)
        ensures
            on == pressable(button, *s),
    {
        let connected = s.conn == ConnState::Connected;
        let busy = s.calibrating || s.guiding;
        proof {
            reveal_strlit("");
            assert(s.camera_sel@.len() == 0 <==> s.camera_sel@ =~= ""@);
        }
        match button {
            Button::Connect => !connected,
            Button::StartStream => connected && !s.streaming,
            Button::StopStream => connected && s.streaming,
            Button::Record => connected && !text::same(s.camera_sel.as_str(), "")
                && !s.recording.active,
            Button::StopRecording => connected && s.recording.active,
            Button::ApplyRoi | Button::ResetRoi => connected && s.sensor_w > 0,
            Button::Calibrate => connected && !busy,
            Button::ClearCalibration => connected && s.calibrated && !busy,
            Button::Guide => connected && s.calibrated && !s.guiding,
            Button::StopGuiding | Button::Relock => connected && s.guiding,
            _ => connected,
        }
    }

    /// The user presses a button: the command to send, where the button is enabled.
    pub fn press(&mut self, button: Button, s: &Shared) -> (cmd: Option<Command>)
        ensures
            cmd is Some <==> pressable(button, *s),
            cmd is None ==> *final(self) == *old(self),
            cmd matches Some(c) ==> {
                &&& *final(self) == (App {
                    roi: roi_after_press(old(self).roi, button, *s),
                    ..*old(self)
                })
                &&& sent_by_press(*old(self), button, *s, c)
            },
    {
        if !App::enabled(button, s) {
            return None;
        }
        let cmd = match button {
            Button::Connect => Command::Connect { addr: self.addr.clone() },
            Button::Disconnect => Command::Disconnect,
            Button::StartStream => Command::StartStream,
            Button::StopStream => Command::StopStream,
            Button::ApplyGain => Command::SetGain(self.gain_input),
            Button::ApplyExposure => Command::SetExposure(self.exposure_input),
            Button::CaptureFrame => Command::CaptureFrame { dir: self.capture_dir.clone() },
            Button::Record => Command::StartRecording(
                self.record.config(self.capture_dir.as_str()),
            ),
            Button::StopRecording => Command::StopRecording,
            Button::ApplyRoi => {
                let (x, y, w, h) = clamp_roi(
                    self.roi.x,
                    self.roi.y,
                    self.roi.w,
                    self.roi.h,
                    s.sensor_w,
                    s.sensor_h,
                );
                self.roi.enter((x, y, w, h));
                Command::SetRoi { x, y, w, h }
            },
            Button::ResetRoi => {
                self.roi.enter((0, 0, s.sensor_w, s.sensor_h));
                Command::ResetRoi
            },
            Button::Goto(body) => Command::GotoObject(body),
            Button::Abort => Command::Abort,
            Button::Calibrate => Command::Calibrate { pulse_ms: self.calib_pulse_ms },
            Button::ClearCalibration => Command::ClearCalibration,
            Button::Guide => Command::StartGuiding,
            Button::StopGuiding => Command::StopGuiding,
            Button::Relock => Command::Relock,
        };
        Some(cmd)
    }

    /// The user picks, toggles or edits something: the command to send, where it counts.
    pub fn pick(&mut self, pick: Pick, s: &Shared) -> (cmd: Option<Command>)
        ensures
            cmd is Some <==> counts(*old(self), pick, *s),
            cmd is None ==> *final(self) == *old(self),
            cmd matches Some(c) ==> {
                &&& *final(self) == (App {
                    settings: settings_after(old(self).settings, pick),
                    ..*old(self)
                })
                &&& sent_by_pick(*old(self), pick, *s, c)
            },
    {
        if s.conn != ConnState::Connected {
            return None;
        }
        match pick {
            Pick::Binning(_) => if s.sensor_w > 0 {
                self.settings.edit(pick)
            } else {
                None
            },
            Pick::GuideMode(_) | Pick::DecMode(_) | Pick::GuideParams(_) | Pick::Overlay => {
                self.settings.edit(pick)
            },
            _ => take_offer(pick, s),
        }
    }
}

/// A pick among what the devices offer.
fn take_offer(pick: Pick, s: &Shared) -> (cmd: Option<Command>)
    requires
        !is_edit(pick),
    ensures
        cmd is Some <==> offered(pick, *s),
        cmd matches Some(c) ==> offer_sent(pick, *s, c),
{
    match pick {
        Pick::Camera(i) => {
            if i < s.cameras.len() && !text::same(s.cameras[i].as_str(), s.camera_sel.as_str()) {
                Some(Command::SelectCamera(s.cameras[i].clone()))
            } else {
                None
            }
        },
        Pick::Mount(i) => {
            if i < s.mounts.len() && !text::same(s.mounts[i].as_str(), s.mount_sel.as_str()) {
                Some(Command::SelectMount(s.mounts[i].clone()))
            } else {
                None
            }
        },
        Pick::SlewRate(i) => if i < s.slew_rates.len() {
            Some(Command::SetSlewRate(i))
        } else {
            None
        },
        Pick::TrackMode(i) => if s.tracking && i < s.track_modes.len() {
            Some(Command::SetTrackMode(i))
        } else {
            None
        },
        Pick::StreamSwitch { switch, option } => pick_switch(switch, option, s),
        _ => Some(Command::SetTracking(!s.tracking)),
    }
}

/// An option of a stream-format switch is picked.
fn pick_switch(switch: usize, option: usize, s: &Shared) -> (cmd: Option<Command>)
    ensures
        cmd is Some <==> {
            &&& switch < s.stream_switches@.len()
            &&& option < s.stream_switches@[switch as int].options@.len()
            &&& s.stream_switches@[switch as int].options@[option as int]@
                != s.stream_switches@[switch as int].selected@
        },
        cmd matches Some(c) ==> {
            let sw = s.stream_switches@[switch as int];
            &&& c matches Command::SetCameraSwitch { prop, elem }
            &&& prop@ == sw.prop@
            &&& elem@ == sw.options@[option as int]@
        },
{
    if switch >= s.stream_switches.len() {
        return None;
    }
    let sw = &s.stream_switches[switch];
    if option >= sw.options.len() || text::same(
        sw.options[option].as_str(),
        sw.selected.as_str(),
    ) {
        return None;
    }
    Some(
        Command::SetCameraSwitch { prop: sw.prop.clone(), elem: sw.options[option].clone() },
    )
}

/// Without a connection nothing can be pressed but `Connect`, and with one everything that fits the
/// moment but that.
pub proof fn law_buttons_wait_for_a_connection(button: Button, s: Shared)
    ensures
        s.conn != ConnState::Connected ==> (pressable(button, s) <==> button == Button::Connect),
        s.conn == ConnState::Connected ==> !pressable(Button::Connect, s) && pressable(
            Button::Disconnect,
            s,
        ) && pressable(Button::Abort, s) && pressable(Button::ApplyGain, s) && pressable(
            Button::ApplyExposure,
            s,
        ) && pressable(Button::CaptureFrame, s),
        button matches Button::Goto(_) ==> (pressable(button, s) <==> s.conn
            == ConnState::Connected),
{
}

/// What runs can be stopped and what does not run can be started, never both; guiding takes a
/// calibration, a region takes a sensor size, and a recording a camera.
pub proof fn law_buttons_fit_the_moment(s: Shared)
    requires
        s.conn == ConnState::Connected,
    ensures
        pressable(Button::StartStream, s) <==> !s.streaming,
        pressable(Button::StopStream, s) <==> s.streaming,
        pressable(Button::Record, s) <==> !s.recording.active && s.camera_sel@.len() > 0,
        pressable(Button::StopRecording, s) <==> s.recording.active,
        pressable(Button::ApplyRoi, s) <==> s.sensor_w > 0,
        pressable(Button::ResetRoi, s) <==> s.sensor_w > 0,
        pressable(Button::Calibrate, s) <==> !s.calibrating && !s.guiding,
        pressable(Button::ClearCalibration, s) <==> s.calibrated && !s.calibrating && !s.guiding,
        pressable(Button::Guide, s) <==> s.calibrated && !s.guiding,
        pressable(Button::StopGuiding, s) <==> s.guiding,
        pressable(Button::Relock, s) <==> s.guiding,
{
}

/// Each button sends its own command with what was entered for it.
pub proof fn law_buttons_send_what_was_entered(app: App, button: Button, s: Shared, cmd: Command)
    requires
        sent_by_press(app, button, s, cmd),
    ensures
        match button {
            Button::Connect => cmd is Connect && cmd->addr@ == app.addr@,
            Button::Disconnect => cmd is Disconnect,
            Button::StartStream => cmd is StartStream,
            Button::StopStream => cmd is StopStream,
            Button::ApplyGain => cmd == Command::SetGain(app.gain_input),
            Button::ApplyExposure => cmd == Command::SetExposure(app.exposure_input),
            Button::CaptureFrame => cmd matches Command::CaptureFrame { dir } && dir@
                == app.capture_dir@,
            Button::StopRecording => cmd is StopRecording,
            Button::ResetRoi => cmd is ResetRoi,
            Button::Goto(body) => cmd == Command::GotoObject(body),
            Button::Abort => cmd is Abort,
            Button::Calibrate => cmd == (Command::Calibrate { pulse_ms: app.calib_pulse_ms }),
            Button::ClearCalibration => cmd is ClearCalibration,
            Button::Guide => cmd is StartGuiding,
            Button::StopGuiding => cmd is StopGuiding,
            Button::Relock => cmd is Relock,
            _ => true,
        },
{
}

/// A recording is sent with its directory, its budget of frames or of seconds as chosen, its number
/// of videos, at least one, and its pause.
pub proof fn law_recordings_are_sent_as_entered(app: App, s: Shared, cmd: Command)
    requires
        sent_by_press(app, Button::Record, s, cmd),
    ensures
        cmd matches Command::StartRecording(cfg) && {
            &&& cfg.dir@ == app.capture_dir@
            &&& app.record.by_frames ==> cfg.stop == RecordStop::Frames(app.record.target_frames)
            &&& !app.record.by_frames ==> cfg.stop == RecordStop::Seconds(app.record.target_secs)
            &&& app.record.count >= 1 ==> cfg.count == app.record.count
            &&& app.record.count == 0 ==> cfg.count == 1
            &&& cfg.delay_secs == app.record.delay_secs
        },
{
}

/// A region is sent as it fits the sensor, and the entry shows what was sent; a reset enters the
/// whole sensor. A region that fits is sent as it was entered. No other button touches the entry.
pub proof fn law_region_is_sent_as_it_fits(app: App, button: Button, s: Shared, cmd: Command)
    requires
        sent_by_press(app, Button::ApplyRoi, s, cmd),
    ensures
        cmd matches Command::SetRoi { x, y, w, h } && {
            let r = app.roi;
            let after = roi_after_press(r, Button::ApplyRoi, s);
            &&& x + w <= s.sensor_w || s.sensor_w == 0 || s.sensor_h == 0
            &&& y + h <= s.sensor_h || s.sensor_w == 0 || s.sensor_h == 0
            &&& 0 <= r.x && 0 <= r.y && 16 <= r.w && 16 <= r.h && r.x + r.w <= s.sensor_w && r.y + r.h
                <= s.sensor_h ==> x == r.x && y == r.y && w == r.w && h == r.h
            &&& after.x == x && after.y == y && after.w == w && after.h == h
        },
        ({
            let reset = roi_after_press(app.roi, Button::ResetRoi, s);
            &&& reset.x == 0 && reset.y == 0 && reset.w == s.sensor_w && reset.h == s.sensor_h
            &&& reset.seeded_for == app.roi.seeded_for
        }),
        button != Button::ApplyRoi && button != Button::ResetRoi ==> roi_after_press(
            app.roi,
            button,
            s,
        ) == app.roi,
{
}

/// Another device, rate, mode or option counts where it is offered and is not the one already chosen;
/// a track mode only while tracking. Nothing counts without a connection.
pub proof fn law_only_new_choices_count(app: App, s: Shared, i: usize, j: usize)
    ensures
        counts(app, Pick::Camera(i), s) <==> s.conn == ConnState::Connected && i < s.cameras@.len()
            && s.cameras@[i as int]@ != s.camera_sel@,
        counts(app, Pick::Mount(i), s) <==> s.conn == ConnState::Connected && i < s.mounts@.len()
            && s.mounts@[i as int]@ != s.mount_sel@,
        counts(app, Pick::SlewRate(i), s) <==> s.conn == ConnState::Connected && i
            < s.slew_rates@.len(),
        counts(app, Pick::TrackMode(i), s) <==> s.conn == ConnState::Connected && s.tracking && i
            < s.track_modes@.len(),
        counts(app, Pick::Tracking, s) <==> s.conn == ConnState::Connected,
        counts(app, Pick::Overlay, s) <==> s.conn == ConnState::Connected,
        counts(app, Pick::StreamSwitch { switch: i, option: j }, s) <==> {
            &&& s.conn == ConnState::Connected
            &&& i < s.stream_switches@.len()
            &&& j < s.stream_switches@[i as int].options@.len()
            &&& s.stream_switches@[i as int].options@[j as int]@
                != s.stream_switches@[i as int].selected@
        },
{
}

/// A setting counts where it differs from the one there is; binning goes from one to four and takes
/// a sensor size.
pub proof fn law_only_changed_settings_count(
    app: App,
    s: Shared,
    bin: u32,
    mode: GuideMode,
    dec: DecMode,
    params: GuideParams,
)
    requires
        s.conn == ConnState::Connected,
    ensures
        counts(app, Pick::Binning(bin), s) <==> s.sensor_w > 0 && 1 <= bin <= 4 && bin
            != app.settings.bin,
        counts(app, Pick::GuideMode(mode), s) <==> mode != app.settings.guide_mode,
        counts(app, Pick::DecMode(dec), s) <==> dec != app.settings.guide_params.dec_mode,
        counts(app, Pick::GuideParams(params), s) <==> params != app.settings.guide_params,
{
}

/// A pick sends what was picked: the name or index of what was offered, or the setting as it now is,
/// with all others as they were.
pub proof fn law_picks_send_what_was_picked(app: App, pick: Pick, s: Shared, cmd: Command)
    requires
        sent_by_pick(app, pick, s, cmd),
    ensures
        match pick {
            Pick::Camera(i) => cmd is SelectCamera && cmd->SelectCamera_0@ == s.cameras@[i as int]@,
            Pick::Mount(i) => cmd is SelectMount && cmd->SelectMount_0@ == s.mounts@[i as int]@,
            Pick::SlewRate(i) => cmd == Command::SetSlewRate(i),
            Pick::TrackMode(i) => cmd == Command::SetTrackMode(i),
            Pick::Tracking => cmd == Command::SetTracking(!s.tracking),
            Pick::StreamSwitch { switch, option } => cmd matches Command::SetCameraSwitch {
                prop,
                elem,
            } && prop@ == s.stream_switches@[switch as int].prop@ && elem@
                == s.stream_switches@[switch as int].options@[option as int]@,
            Pick::Binning(bin) => cmd == (Command::SetBinning { bin }),
            Pick::GuideMode(mode) => cmd == Command::SetGuideMode(mode),
            Pick::DecMode(mode) => cmd == Command::SetGuideParams(
                GuideParams { dec_mode: mode, ..app.settings.guide_params },
            ),
            Pick::GuideParams(p) => cmd == Command::SetGuideParams(p),
            Pick::Overlay => cmd == Command::SetDetectionOverlay(!app.settings.detect_overlay),
        },
{
}

/// A setting that was picked is kept, and no other changes.
pub proof fn law_picked_settings_are_kept(settings: Settings, pick: Pick)
    ensures
        ({
            let after = settings_after(settings, pick);
            &&& after.bin == if pick is Binning {
                pick->Binning_0
            } else {
                settings.bin
            }
            &&& after.guide_mode == if pick is GuideMode {
                pick->GuideMode_0
            } else {
                settings.guide_mode
            }
            &&& after.guide_params == match pick {
                Pick::DecMode(mode) => GuideParams { dec_mode: mode, ..settings.guide_params },
                Pick::GuideParams(p) => p,
                _ => settings.guide_params,
            }
            &&& after.detect_overlay == (settings.detect_overlay != (pick is Overlay))
        }),
{
}

/// What is entered at first: a gain of 215, an exposure of two milliseconds, and videos of 30 seconds
/// where they end by time.
pub proof fn law_first_entries()
    ensures
        GAIN_BITS == 0x406A_E000_0000_0000,
        EXPOSURE_BITS == 0x3F60_624D_D2F1_A9FC,
        TARGET_SECS_BITS == 0x403E_0000_0000_0000,
{
}

} // verus!
