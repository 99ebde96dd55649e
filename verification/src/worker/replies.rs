//! What the worker does when the devices have answered: what it publishes, and what it logs.

use crate::bus;
use crate::bus::{Bus, CameraSwitch, ConnState, PickerView, Shared};
use crate::recorder::SerOutput;
use crate::text;
use crate::worker::commands;
use crate::worker::commands::{Bound, Worker};
use vstd::prelude::*;

verus! {

/// The camera switch properties that control the streamed pixel format / bit depth, in UI order,
/// each with its label. The depth that reaches the recorder is the product of these.
pub fn stream_switch_props() -> (props: [(&'static str, &'static str); 5])
    ensures
        props@[0].0@ == "CCD_STREAM_ENCODER"@,
        props@[0].1@ == "Encoder"@,
        props@[1].0@ == "CCD_VIDEO_FORMAT"@,
        props@[1].1@ == "Video format"@,
        props@[2].0@ == "STREAM_FULL_DEPTH"@,
        props@[2].1@ == "Stream depth"@,
        props@[3].0@ == "SENSOR_MODE"@,
        props@[3].1@ == "Sensor mode"@,
        props@[4].0@ == "CCD_CAPTURE_FORMAT"@,
        props@[4].1@ == "Capture format"@,
{
    [
        ("CCD_STREAM_ENCODER", "Encoder"),
        ("CCD_VIDEO_FORMAT", "Video format"),
        ("STREAM_FULL_DEPTH", "Stream depth"),
        ("SENSOR_MODE", "Sensor mode"),
        ("CCD_CAPTURE_FORMAT", "Capture format"),
    ]
}

/// A stream-format switch as read from the camera: its options and the selected one.
#[derive(Debug)]
pub struct SwitchReading {
    pub prop: String,
    pub label: String,
    pub options: Vec<String>,
    pub selected: Option<String>,
}

/// The pickers of the switches that the driver has: those with options. A switch with nothing
/// selected shows an empty selection.
pub open spec fn exposed(readings: Seq<SwitchReading>) -> Seq<PickerView>
    decreases readings.len(),
{
    if readings.len() == 0 {
        Seq::empty()
    } else {
        let rest = exposed(readings.drop_last());
        let r = readings.last();
        if r.options@.len() == 0 {
            rest
        } else {
            rest.push(
                PickerView {
                    prop: r.prop@,
                    label: r.label@,
                    options: r.options@,
                    selected: selection(r.selected),
                },
            )
        }
    }
}

/// The characters of a selection, none where nothing is selected.
pub open spec fn selection(s: Option<String>) -> Seq<char> {
    match s {
        Some(s) => s@,
        None => ""@,
    }
}

fn selected_or_empty(s: Option<String>) -> (r: String)
    ensures
        r@ == selection(s),
{
    match s {
        Some(s) => s,
        None => "".to_owned(),
    }
}

/// Build the pickers of the stream-format switches that the driver exposes.
pub fn init_camera_formats(readings: Vec<SwitchReading>) -> (switches: Vec<CameraSwitch>)
    ensures
        bus::pickers(switches@) == exposed(readings@),
{
    let mut switches: Vec<CameraSwitch> = Vec::new();
    let mut readings = readings;
    let ghost all = readings@;
    let n: usize = readings.len();
    let mut i: usize = 0;
    proof {
        assert(all.take(0) =~= Seq::<SwitchReading>::empty());
        assert(all.subrange(0, n as int) =~= all);
        assert(bus::pickers(switches@) =~= exposed(all.take(0)));
    }
    while i < n
        invariant
            i <= n,
            n == all.len(),
            readings@ == all.subrange(i as int, n as int),
            bus::pickers(switches@) == exposed(all.take(i as int)),
        decreases n - i,
    {
        let r: SwitchReading = readings.remove(0);
        proof {
            assert(r == all[i as int]);
            assert(readings@ =~= all.subrange(i + 1, n as int));
            assert(all.take(i + 1).drop_last() =~= all.take(i as int));
            assert(all.take(i + 1).last() == r);
        }
        if r.options.len() > 0 {
            let ghost before = switches@;
            let sw = CameraSwitch {
                prop: r.prop,
                label: r.label,
                options: r.options,
                selected: selected_or_empty(r.selected),
            };
            switches.push(sw);
            proof {
                assert(bus::pickers(switches@) =~= bus::pickers(before).push(sw@));
            }
        }
        i += 1;
    }
    proof {
        assert(all.take(n as int) =~= all);
    }
    switches
}

/// What a new session found.
pub struct SessionReport {
    pub bound: Bound,
    /// Names of the bound devices; empty where none was found.
    pub camera_name: String,
    pub mount_name: String,
    pub cameras: Vec<String>,
    pub mounts: Vec<String>,
    /// The mount's slew rates, or why they could not be read; absent without a mount.
    pub rates: Option<Result<Vec<(String, String)>, String>>,
    /// What the camera reported; absent without a camera.
    pub camera: Option<CameraReport>,
}

/// What a newly bound camera reported.
pub struct CameraReport {
    /// The full sensor size, or why it could not be read.
    pub sensor: Result<(u32, u32), String>,
    pub switches: Vec<CameraSwitch>,
    /// Whether the video pipeline was started, or why not.
    pub frames: Result<(), String>,
}

/// A device name, or what stands in its place where there is none.
pub open spec fn described(name: Seq<char>, none: Seq<char>) -> Seq<char> {
    if name.len() == 0 {
        none
    } else {
        name
    }
}

fn describe(name: &String, none: &str) -> (s: String)
    ensures
        s@ == described(name@, none@),
{
    if name.as_str().unicode_len() == 0 {
        none.to_owned()
    } else {
        name.clone()
    }
}

/// The line logged for a sensor size.
pub open spec fn sensor_note(sensor: Result<(u32, u32), String>) -> Seq<char> {
    match sensor {
        Ok((w, h)) => "sensor: "@ + text::decimal(w as nat) + "×"@ + text::decimal(h as nat),
        Err(e) => "reading sensor size: "@ + e@,
    }
}

/// The lines logged for a camera's report.
pub open spec fn camera_notes(r: CameraReport) -> Seq<Seq<char>> {
    let first = seq![sensor_note(r.sensor)];
    match r.frames {
        Ok(_) => first,
        Err(e) => first.push("subscribing to CCD1 failed: "@ + e@),
    }
}

/// The shared state with a camera's report: the sensor size bounds the region, which begins as the
/// full frame. A size that cannot be read is unknown, and so is the region: both are zero, which
/// leaves the region controls disabled.
pub open spec fn showing_camera(s: Shared, r: CameraReport) -> Shared {
    let (w, h) = match r.sensor {
        Ok(size) => size,
        Err(_) => (0, 0),
    };
    Shared { stream_switches: r.switches, sensor_w: w, sensor_h: h, roi: (0, 0, w, h), ..s }
}

/// The bus with a camera's report. A size that was read is also the geometry that raw frames are
/// decoded at; one that could not be read leaves the decoding as it was.
pub open spec fn with_camera<W: SerOutput>(b: Bus<W>, r: CameraReport) -> Bus<W> {
    let shown = Bus { shared: showing_camera(b.shared, r), ..b };
    match r.sensor {
        Ok((w, h)) => Bus { frame_w: w, frame_h: h, sensor_w: w, sensor_h: h, ..shown },
        Err(_) => shown,
    }
}

/// `b1` is `b0` with these lines logged.
pub open spec fn noted<W: SerOutput>(b0: Bus<W>, b1: Bus<W>, notes: Seq<Seq<char>>) -> bool {
    &&& b1 == (Bus { shared: b1.shared, ..b0 })
    &&& b1.shared == (Shared { log: b1.shared.log, ..b0.shared })
    &&& b1.shared.lines() == commands::log_all(b0.shared.lines(), notes)
}

/// Log one more line behind those logged since `b0`.
pub(crate) fn note<W: SerOutput>(
    bus: &mut Bus<W>,
    Ghost(b0): Ghost<Bus<W>>,
    Ghost(notes): Ghost<Seq<Seq<char>>>,
    msg: String,
)
    requires
        old(bus).wf(),
        noted(b0, *old(bus), notes),
    ensures
        final(bus).wf(),
        noted(b0, *final(bus), notes.push(msg@)),
{
    proof {
        commands::lemma_log_one_more(b0.shared.lines(), notes, msg@);
    }
    bus.log(msg);
}

/// Publish a camera's report: the sensor size and the pickers. Returns the line to log for the
/// sensor size, the line to log where frames do not come, and whether they do.
fn set_camera<W: SerOutput>(bus: &mut Bus<W>, report: CameraReport) -> (r: (
    String,
    Option<String>,
    bool,
))
    requires
        old(bus).wf(),
    ensures
        final(bus).wf(),
        *final(bus) == with_camera(*old(bus), report),
        r.0@ == sensor_note(report.sensor),
        r.2 == (report.frames is Ok),
        match report.frames {
            Ok(_) => r.1 is None,
            Err(e) => r.1 matches Some(m) && m@ == "subscribing to CCD1 failed: "@ + e@,
        },
{
    bus.shared.stream_switches = report.switches;
    let (w, h): (u32, u32) = match &report.sensor {
        Ok(size) => *size,
        Err(_) => (0, 0),
    };
    bus.shared.sensor_w = w;
    bus.shared.sensor_h = h;
    bus.shared.roi = (0, 0, w, h);
    let msg: String = match report.sensor {
        Ok(_) => {
            bus.set_stream_geometry(w, h);
            bus.set_sensor_size(w, h);
            "sensor: ".to_owned().concat(text::number(w as u64).as_str()).concat("×").concat(
                text::number(h as u64).as_str(),
            )
        },
        Err(e) => "reading sensor size: ".to_owned().concat(e.as_str()),
    };
    match report.frames {
        Ok(_) => (msg, None, true),
        Err(e) => (
            msg,
            Some("subscribing to CCD1 failed: ".to_owned().concat(e.as_str())),
            false,
        ),
    }
}

/// Log the lines of a camera's report.
fn note_camera<W: SerOutput>(
    bus: &mut Bus<W>,
    Ghost(b0): Ghost<Bus<W>>,
    Ghost(notes): Ghost<Seq<Seq<char>>>,
    Ghost(report): Ghost<CameraReport>,
    sensor: String,
    frames: Option<String>,
)
    requires
        old(bus).wf(),
        noted(b0, *old(bus), notes),
        sensor@ == sensor_note(report.sensor),
        match report.frames {
            Ok(_) => frames is None,
            Err(e) => frames matches Some(m) && m@ == "subscribing to CCD1 failed: "@ + e@,
        },
    ensures
        final(bus).wf(),
        noted(b0, *final(bus), notes + camera_notes(report)),
{
    note(bus, Ghost(b0), Ghost(notes), sensor);
    let ghost first = notes.push(sensor@);
    match frames {
        Some(m) => {
            note(bus, Ghost(b0), Ghost(first), m);
            assert(first.push(m@) =~= notes + camera_notes(report));
        },
        None => {
            assert(first =~= notes + camera_notes(report));
        },
    }
}

/// Take up a camera's report: the sensor size, the pickers, and whether frames come.
pub(crate) fn take_camera<W: SerOutput>(bus: &mut Bus<W>, report: CameraReport) -> (frames: bool)
    requires
        old(bus).wf(),
    ensures
        final(bus).wf(),
        frames == (report.frames is Ok),
        noted(with_camera(*old(bus), report), *final(bus), camera_notes(report)),
{
    let ghost whole = report;
    let (sensor, missing, frames) = set_camera(bus, report);
    let ghost b = *bus;
    let ghost none = Seq::<Seq<char>>::empty();
    note_camera(bus, Ghost(b), Ghost(none), Ghost(whole), sensor, missing);
    assert(none + camera_notes(whole) =~= camera_notes(whole));
    frames
}

/// The line logged first for a new session.
pub open spec fn devices_note(r: SessionReport) -> Seq<char> {
    "camera: "@ + described(r.camera_name@, "(none — no CCD device found)"@) + " · mount: "@
        + described(r.mount_name@, "(none — no telescope device found)"@)
}

/// The lines logged for the reading of slew rates.
pub open spec fn rate_notes(rates: Option<Result<Vec<(String, String)>, String>>) -> Seq<Seq<char>> {
    match rates {
        Some(Err(e)) => seq!["reading slew rates: "@ + e@],
        _ => Seq::empty(),
    }
}

/// The lines logged for a new session.
pub open spec fn session_notes(r: SessionReport) -> Seq<Seq<char>> {
    let first = seq![devices_note(r)] + rate_notes(r.rates);
    let camera = match r.camera {
        Some(c) => camera_notes(c),
        None => Seq::empty(),
    };
    (first + camera).push("connected"@)
}

/// The bus after a new session, but for the lines logged.
pub open spec fn with_session<W: SerOutput>(b: Bus<W>, r: SessionReport) -> Bus<W> {
    let named = Bus {
        shared: Shared {
            slew_rates: match r.rates {
                Some(Ok(rates)) => rates,
                _ => b.shared.slew_rates,
            },
            cameras: r.cameras,
            mounts: r.mounts,
            camera_sel: r.camera_name,
            mount_sel: r.mount_name,
            conn: ConnState::Connected,
            ..b.shared
        },
        ..b
    };
    match r.camera {
        Some(c) => with_camera(named, c),
        None => named,
    }
}

/// Publish the devices of a new session and their names.
fn name_devices<W: SerOutput>(
    bus: &mut Bus<W>,
    rates: Option<Vec<(String, String)>>,
    cameras: Vec<String>,
    mounts: Vec<String>,
    camera_name: String,
    mount_name: String,
)
    requires
        old(bus).wf(),
    ensures
        final(bus).wf(),
        *final(bus) == (Bus {
            shared: Shared {
                slew_rates: match rates {
                    Some(v) => v,
                    None => old(bus).shared.slew_rates,
                },
                cameras,
                mounts,
                camera_sel: camera_name,
                mount_sel: mount_name,
                conn: ConnState::Connected,
                ..old(bus).shared
            },
            ..*old(bus)
        }),
{
    if let Some(v) = rates {
        bus.shared.slew_rates = v;
    }
    bus.shared.cameras = cameras;
    bus.shared.mounts = mounts;
    bus.shared.camera_sel = camera_name;
    bus.shared.mount_sel = mount_name;
    bus.shared.conn = ConnState::Connected;
}

/// The rates of a reading, and the line to log where they could not be read.
pub(crate) fn split_rates(rates: Option<Result<Vec<(String, String)>, String>>) -> (r: (
    Option<Vec<(String, String)>>,
    Option<String>,
))
    ensures
        r.0 == (match rates {
            Some(Ok(v)) => Some(v),
            _ => None,
        }),
        match rates {
            Some(Err(e)) => r.1 matches Some(m) && m@ == "reading slew rates: "@ + e@,
            _ => r.1 is None,
        },
{
    match rates {
        Some(Ok(v)) => (Some(v), None),
        Some(Err(e)) => (None, Some("reading slew rates: ".to_owned().concat(e.as_str()))),
        None => (None, None),
    }
}

/// Log the line of a reading of slew rates, where there is one.
pub(crate) fn note_rates<W: SerOutput>(
    bus: &mut Bus<W>,
    Ghost(b0): Ghost<Bus<W>>,
    Ghost(notes): Ghost<Seq<Seq<char>>>,
    Ghost(rates): Ghost<Option<Result<Vec<(String, String)>, String>>>,
    msg: Option<String>,
)
    requires
        old(bus).wf(),
        noted(b0, *old(bus), notes),
        match rates {
            Some(Err(e)) => msg matches Some(m) && m@ == "reading slew rates: "@ + e@,
            _ => msg is None,
        },
    ensures
        final(bus).wf(),
        noted(b0, *final(bus), notes + rate_notes(rates)),
{
    match msg {
        Some(m) => {
            note(bus, Ghost(b0), Ghost(notes), m);
            assert(notes.push(m@) =~= notes + rate_notes(rates));
        },
        None => {
            assert(notes =~= notes + rate_notes(rates));
        },
    }
}

impl Worker {
    /// A session was opened, or could not be: publish what it found.
    pub fn connected<W: SerOutput>(
        &mut self,
        bus: &mut Bus<W>,
        outcome: Result<SessionReport, String>,
    )
        requires
            old(bus).wf(),
        ensures
            final(bus).wf(),
            match outcome {
                Ok(r) => {
                    &&& *final(self) == (Worker {
                        session: Some(r.bound),
                        frame_task: match r.camera {
                            Some(c) => c.frames is Ok,
                            None => old(self).frame_task,
                        },
                        ..*old(self)
                    })
                    &&& noted(with_session(*old(bus), r), *final(bus), session_notes(r))
                },
                Err(e) => {
                    &&& *final(self) == *old(self)
                    &&& commands::said(
                        Bus {
                            shared: Shared { conn: ConnState::Failed, ..old(bus).shared },
                            ..*old(bus)
                        },
                        *final(bus),
                        "connect failed: "@ + e@,
                    )
                },
            },
    {
        match outcome {
            Ok(r) => {
                let ghost report = r;
                let msg: String = "camera: ".to_owned().concat(
                    describe(&r.camera_name, "(none — no CCD device found)").as_str(),
                ).concat(" · mount: ").concat(
                    describe(&r.mount_name, "(none — no telescope device found)").as_str(),
                );
                let (rates, rates_msg) = split_rates(r.rates);
                name_devices(bus, rates, r.cameras, r.mounts, r.camera_name, r.mount_name);
                self.session = Some(r.bound);
                let ghost none = Seq::<Seq<char>>::empty();
                let ghost first = seq![devices_note(report)];
                let ghost opening = first + rate_notes(report.rates);
                assert(none.push(msg@) =~= first);
                match r.camera {
                    Some(c) => {
                        let ghost camera = c;
                        let (sensor, missing, frames) = set_camera(bus, c);
                        self.frame_task = frames;
                        let ghost b = *bus;
                        note(bus, Ghost(b), Ghost(none), msg);
                        note_rates(bus, Ghost(b), Ghost(first), Ghost(report.rates), rates_msg);
                        note_camera(bus, Ghost(b), Ghost(opening), Ghost(camera), sensor, missing);
                        let ghost almost = opening + camera_notes(camera);
                        note(bus, Ghost(b), Ghost(almost), "connected".to_owned());
                    },
                    None => {
                        let ghost b = *bus;
                        note(bus, Ghost(b), Ghost(none), msg);
                        note_rates(bus, Ghost(b), Ghost(first), Ghost(report.rates), rates_msg);
                        note(bus, Ghost(b), Ghost(opening), "connected".to_owned());
                        assert(opening + Seq::<Seq<char>>::empty() =~= opening);
                    },
                }
            },
            Err(e) => {
                bus.shared.conn = ConnState::Failed;
                bus.log("connect failed: ".to_owned().concat(e.as_str()));
            },
        }
    }
}

/// A picker is offered for each property that has options, in order, with its options and the one
/// selected; a property without options is left out.
pub proof fn law_pickers_are_offered_in_order(readings: Seq<SwitchReading>, r: SwitchReading)
    ensures
        exposed(Seq::empty()).len() == 0,
        r.options@.len() == 0 ==> exposed(readings.push(r)) == exposed(readings),
        r.options@.len() > 0 ==> {
            let all = exposed(readings.push(r));
            &&& all.len() == exposed(readings).len() + 1
            &&& all.drop_last() == exposed(readings)
            &&& all.last().prop == r.prop@
            &&& all.last().label == r.label@
            &&& all.last().options == r.options@
            &&& r.selected matches Some(s) ==> all.last().selected == s@
            &&& r.selected is None ==> all.last().selected == ""@
        },
{
    assert(readings.push(r).drop_last() =~= readings);
    if r.options@.len() > 0 {
        assert(exposed(readings.push(r)).drop_last() =~= exposed(readings));
    }
}

/// A sensor size that was read bounds the region controls, makes the whole sensor the region, and is
/// the size that frames are decoded at.
pub proof fn law_read_size_becomes_the_region<W: SerOutput>(
    b: Bus<W>,
    r: CameraReport,
    w: u32,
    h: u32,
)
    requires
        r.sensor == Ok::<(u32, u32), String>((w, h)),
    ensures
        ({
            let c = with_camera(b, r);
            &&& c.shared.sensor_w == w && c.shared.sensor_h == h
            &&& c.shared.roi == (0u32, 0u32, w, h)
            &&& c.frame_w == w && c.frame_h == h
            &&& c.sensor_w == w && c.sensor_h == h
            &&& c.shared.stream_switches == r.switches
            &&& c.shared.log == b.shared.log && c.shared.streaming == b.shared.streaming
            &&& c.recorder == b.recorder && c.guide_sample == b.guide_sample
        }),
{
}

/// A sensor size that could not be read disables the region controls and leaves the decoding as it
/// was.
pub proof fn law_unread_size_disables_the_region<W: SerOutput>(b: Bus<W>, r: CameraReport)
    requires
        r.sensor is Err,
    ensures
        ({
            let c = with_camera(b, r);
            &&& c.shared.sensor_w == 0 && c.shared.sensor_h == 0
            &&& c.shared.roi == (0u32, 0u32, 0u32, 0u32)
            &&& c.frame_w == b.frame_w && c.frame_h == b.frame_h
            &&& c.sensor_w == b.sensor_w && c.sensor_h == b.sensor_h
            &&& c.shared.stream_switches == r.switches
            &&& c.shared.log == b.shared.log && c.recorder == b.recorder
        }),
{
}

/// The lines on a camera say its sensor size or why it could not be read, and behind that why frames
/// do not come, where they do not.
pub proof fn law_camera_lines(r: CameraReport)
    ensures
        r.sensor matches Ok(s) ==> camera_notes(r)[0] == "sensor: "@ + text::decimal(s.0 as nat)
            + "×"@ + text::decimal(s.1 as nat),
        r.sensor matches Err(e) ==> camera_notes(r)[0] == "reading sensor size: "@ + e@,
        r.frames is Ok ==> camera_notes(r).len() == 1,
        r.frames matches Err(e) ==> camera_notes(r).len() == 2 && camera_notes(r)[1]
            == "subscribing to CCD1 failed: "@ + e@,
{
}

/// A session names the devices found and bound, and says that it is connected; slew rates are taken
/// where they were read. Nothing else shared changes but what the camera reports.
pub proof fn law_session_names_its_devices<W: SerOutput>(b: Bus<W>, r: SessionReport)
    ensures
        ({
            let s = with_session(b, r).shared;
            &&& s.conn == ConnState::Connected
            &&& s.cameras == r.cameras && s.mounts == r.mounts
            &&& s.camera_sel == r.camera_name && s.mount_sel == r.mount_name
            &&& r.rates matches Some(Ok(rates)) ==> s.slew_rates == rates
            &&& !(r.rates matches Some(Ok(_))) ==> s.slew_rates == b.shared.slew_rates
            &&& r.camera matches Some(c) ==> s.stream_switches == c.switches
            &&& r.camera is None ==> s.stream_switches == b.shared.stream_switches && s.roi
                == b.shared.roi
            &&& s.log == b.shared.log && s.guide_calib == b.shared.guide_calib
            &&& s.recording == b.shared.recording && s.guiding == b.shared.guiding
            &&& with_session(b, r).recorder == b.recorder
        }),
{
}

/// The lines on a session begin with the devices, name what could not be read, and end with
/// `connected`.
pub proof fn law_session_lines(r: SessionReport)
    ensures
        session_notes(r).len() >= 2,
        session_notes(r)[0] == "camera: "@ + (if r.camera_name@.len() == 0 {
            "(none — no CCD device found)"@
        } else {
            r.camera_name@
        }) + " · mount: "@ + (if r.mount_name@.len() == 0 {
            "(none — no telescope device found)"@
        } else {
            r.mount_name@
        }),
        session_notes(r).last() == "connected"@,
        r.rates matches Some(Err(e)) ==> session_notes(r)[1] == "reading slew rates: "@ + e@,
        r.camera is None && !(r.rates matches Some(Err(_))) ==> session_notes(r).len() == 2,
        r.camera matches Some(c) ==> session_notes(r).len() == 2 + rate_notes(r.rates).len()
            + camera_notes(c).len(),
        r.camera matches Some(c) ==> session_notes(r)[1 + rate_notes(r.rates).len() as int]
            == camera_notes(c)[0],
{
}

/// Lines are logged one after the other, and nothing but the log changes.
pub proof fn law_lines_are_logged_in_turn<W: SerOutput>(
    b0: Bus<W>,
    b1: Bus<W>,
    notes: Seq<Seq<char>>,
    msg: Seq<char>,
)
    requires
        noted(b0, b1, notes.push(msg)),
    ensures
        b1.shared.lines() == bus::logged(commands::log_all(b0.shared.lines(), notes), msg),
        commands::log_all(b0.shared.lines(), Seq::empty()) == b0.shared.lines(),
        b1 == (Bus { shared: b1.shared, ..b0 }),
        b1.shared == (Shared { log: b1.shared.log, ..b0.shared }),
{
    commands::lemma_log_one_more(b0.shared.lines(), notes, msg);
}

} // verus!
