use solar::app::panel::{click_switch, element_path, set_numbers, set_texts, Edits};
use solar::app::repaint::{
    led_color, log_tail, nudge_dirs, plot_window, stream_depth, trend, trend_window, Trend, Upload,
};
use solar::app::roi::Drag;
use solar::app::{clamp_roi, drag_to_roi, App, Button, Pick};
use solar::bus::{
    Bus, CameraSwitch, Command, ConnState, Dir, IndiNumber, IndiProp, IndiState, IndiSwitch,
    IndiSwitchRule, IndiText, IndiValue, RecordStop,
};
use solar::ephemeris::SolarObject;
use solar::frame::{DisplayImage, Frame};
use solar::guiding::controller::{DecMode, GuideParams};
use solar::guiding::detector::GuideMode;
use solar::recorder::MemoryOutput;
use solar::scalar::Scalar;

type TestBus = Bus<MemoryOutput>;

fn sc(v: f64) -> Scalar {
    Scalar { bits: v.to_bits() }
}

/// A drag in screen coordinates, as fractions of the image times the region on display.
fn drag(image: [f32; 4], drag: [f32; 4], current: (u32, u32, u32, u32)) -> (u32, u32, u32, u32) {
    let part = |v: f32, whole: u32| (v.clamp(0.0, 1.0) * whole as f32).round() as u32;
    let d = Drag {
        x: part((drag[0] - image[0]) / image[2], current.2),
        y: part((drag[1] - image[1]) / image[3], current.3),
        w: part(drag[2] / image[2], current.2),
        h: part(drag[3] / image[3], current.3),
    };
    drag_to_roi((sc(image[2] as f64), sc(image[3] as f64)), d, current)
}

#[test]
fn drag_maps_fraction_of_full_frame() {
    let roi = drag([0.0, 0.0, 200.0, 200.0], [50.0, 50.0, 100.0, 100.0], (0, 0, 100, 100));
    assert_eq!(roi, (25, 25, 50, 50));
}

#[test]
fn drag_composes_with_current_roi_origin() {
    let roi = drag([0.0, 0.0, 80.0, 60.0], [0.0, 0.0, 40.0, 30.0], (10, 20, 80, 60));
    assert_eq!(roi, (10, 20, 40, 30));
}

#[test]
fn drag_stays_inside_current_frame() {
    let roi = drag([0.0, 0.0, 100.0, 100.0], [90.0, 90.0, 20.0, 20.0], (0, 0, 100, 100));
    assert_eq!(roi, (90, 90, 10, 10));
}

#[test]
fn drag_without_an_image_keeps_the_region() {
    let current = (1, 2, 3, 4);
    let d = Drag { x: 0, y: 0, w: 1, h: 1 };
    assert_eq!(drag_to_roi((sc(0.0), sc(5.0)), d, current), current);
    assert_eq!(drag_to_roi((sc(5.0), sc(-1.0)), d, current), current);
    assert_eq!(drag_to_roi((sc(5.0), sc(5.0)), d, (1, 2, 0, 4)), (1, 2, 0, 4));
    assert_eq!(drag_to_roi((sc(5.0), sc(5.0)), d, current), (1, 2, 1, 1));
}

#[test]
fn clamp_enforces_minimum_size() {
    assert_eq!(clamp_roi(0, 0, 3, 3, 100, 100), (0, 0, 16, 16));
}

#[test]
fn clamp_fits_within_sensor_at_edge() {
    assert_eq!(clamp_roi(90, 95, 50, 50, 100, 100), (90, 95, 10, 5));
}

#[test]
fn clamp_handles_unknown_sensors_and_wild_input() {
    assert_eq!(clamp_roi(1, 2, 3, 4, 0, 100), (0, 0, 0, 0));
    assert_eq!(clamp_roi(i64::MIN, i64::MAX, i64::MAX, i64::MIN, 50, 40), (0, 39, 50, 1));
    let (x, y, w, h) = clamp_roi(7, 8, 20, 30, 100, 100);
    assert_eq!((x, y, w, h), (7, 8, 20, 30));
    assert_eq!(
        clamp_roi(x as i64, y as i64, w as i64, h as i64, 100, 100),
        (7, 8, 20, 30)
    );
}

fn app() -> (App, TestBus) {
    let mut bus = TestBus::new();
    let app = App::new(&mut bus, false, false);
    (app, bus)
}

fn connected() -> (App, TestBus) {
    let (app, mut bus) = app();
    bus.shared.conn = ConnState::Connected;
    (app, bus)
}

#[test]
fn a_screenshot_run_connects_and_streams() {
    let mut bus = TestBus::new();
    let mut app = App::new(&mut bus, false, true);
    assert!(app.hooks.autoconnect && app.hooks.autostream && app.wants_repaint(false));
    let due = app.automate(&bus.shared);
    assert!(matches!(due.connect, Some(Command::Connect { addr }) if addr == "127.0.0.1:7624"));
    assert!(due.stream.is_none() && !due.screenshot);
    bus.shared.conn = ConnState::Connected;
    bus.shared.frame_count = 5;
    let due = app.automate(&bus.shared);
    assert!(due.connect.is_none() && due.screenshot);
    assert!(matches!(due.stream, Some(Command::StartStream)));
    let due = app.automate(&bus.shared);
    assert!(due.connect.is_none() && due.stream.is_none() && !due.screenshot);
    assert!(!app.wants_repaint(false));
}

#[test]
fn without_hooks_nothing_is_automated() {
    let (mut app, bus) = connected();
    let due = app.automate(&bus.shared);
    assert!(due.connect.is_none() && due.stream.is_none() && !due.screenshot);
    assert!(!app.wants_repaint(false) && app.wants_repaint(true));
}

#[test]
fn only_connect_works_without_a_connection() {
    let (mut app, bus) = app();
    for button in [
        Button::Disconnect,
        Button::StartStream,
        Button::ApplyGain,
        Button::Record,
        Button::Abort,
        Button::Goto(SolarObject::Sun),
    ] {
        assert!(!App::enabled(button, &bus.shared));
        assert!(app.press(button, &bus.shared).is_none());
    }
    assert!(matches!(
        app.press(Button::Connect, &bus.shared),
        Some(Command::Connect { .. })
    ));
    assert!(app.pick(Pick::Tracking, &bus.shared).is_none());
}

#[test]
fn buttons_send_their_inputs() {
    let (mut app, bus) = connected();
    assert!(app.press(Button::Connect, &bus.shared).is_none());
    assert!(matches!(app.press(Button::ApplyGain, &bus.shared), Some(Command::SetGain(g)) if g == sc(215.0)));
    assert!(matches!(
        app.press(Button::ApplyExposure, &bus.shared),
        Some(Command::SetExposure(e)) if e == sc(0.002)
    ));
    assert!(matches!(
        app.press(Button::CaptureFrame, &bus.shared),
        Some(Command::CaptureFrame { dir }) if dir == "captures"
    ));
    assert!(matches!(
        app.press(Button::Goto(SolarObject::Mars), &bus.shared),
        Some(Command::GotoObject(SolarObject::Mars))
    ));
    assert!(matches!(
        app.press(Button::Calibrate, &bus.shared),
        Some(Command::Calibrate { pulse_ms }) if pulse_ms == sc(1500.0)
    ));
}

#[test]
fn stream_and_guide_buttons_follow_the_state() {
    let (mut app, mut bus) = connected();
    assert!(matches!(app.press(Button::StartStream, &bus.shared), Some(Command::StartStream)));
    assert!(app.press(Button::StopStream, &bus.shared).is_none());
    bus.shared.streaming = true;
    assert!(app.press(Button::StartStream, &bus.shared).is_none());
    assert!(matches!(app.press(Button::StopStream, &bus.shared), Some(Command::StopStream)));
    assert!(app.press(Button::Guide, &bus.shared).is_none());
    assert!(app.press(Button::ClearCalibration, &bus.shared).is_none());
    bus.shared.calibrated = true;
    assert!(matches!(app.press(Button::Guide, &bus.shared), Some(Command::StartGuiding)));
    assert!(matches!(
        app.press(Button::ClearCalibration, &bus.shared),
        Some(Command::ClearCalibration)
    ));
    assert!(app.press(Button::Relock, &bus.shared).is_none());
    bus.shared.guiding = true;
    assert!(app.press(Button::Guide, &bus.shared).is_none());
    assert!(app.press(Button::Calibrate, &bus.shared).is_none());
    assert!(matches!(app.press(Button::Relock, &bus.shared), Some(Command::Relock)));
    assert!(matches!(app.press(Button::StopGuiding, &bus.shared), Some(Command::StopGuiding)));
}

#[test]
fn recording_needs_a_camera_and_no_recording() {
    let (mut app, mut bus) = connected();
    assert!(app.press(Button::Record, &bus.shared).is_none());
    bus.shared.camera_sel = "Cam".to_string();
    app.record.count = 0;
    match app.press(Button::Record, &bus.shared) {
        Some(Command::StartRecording(cfg)) => {
            assert_eq!((cfg.dir.as_str(), cfg.count), ("captures", 1));
            assert_eq!(cfg.stop, RecordStop::Frames(500));
            assert_eq!(cfg.delay_secs, sc(0.0));
        }
        other => panic!("{other:?}"),
    }
    app.record.by_frames = false;
    assert!(matches!(
        app.press(Button::Record, &bus.shared),
        Some(Command::StartRecording(cfg)) if cfg.stop == RecordStop::Seconds(sc(30.0))
    ));
    bus.shared.recording.active = true;
    assert!(app.press(Button::Record, &bus.shared).is_none());
    assert!(matches!(
        app.press(Button::StopRecording, &bus.shared),
        Some(Command::StopRecording)
    ));
}

#[test]
fn applying_a_region_clamps_the_inputs() {
    let (mut app, mut bus) = connected();
    assert!(app.press(Button::ApplyRoi, &bus.shared).is_none());
    bus.shared.sensor_w = 100;
    bus.shared.sensor_h = 80;
    app.roi.x = -5;
    app.roi.w = 500;
    app.roi.h = 3;
    assert!(matches!(
        app.press(Button::ApplyRoi, &bus.shared),
        Some(Command::SetRoi { x: 0, y: 0, w: 100, h: 16 })
    ));
    assert_eq!((app.roi.x, app.roi.y, app.roi.w, app.roi.h), (0, 0, 100, 16));
    assert!(matches!(app.press(Button::ResetRoi, &bus.shared), Some(Command::ResetRoi)));
    assert_eq!((app.roi.w, app.roi.h), (100, 80));
}

#[test]
fn inputs_are_seeded_once_for_each_sensor() {
    let (mut app, mut bus) = connected();
    app.seed_roi(&bus.shared);
    assert_eq!(app.roi.seeded_for, (0, 0));
    bus.shared.sensor_w = 100;
    bus.shared.sensor_h = 80;
    bus.shared.roi = (1, 2, 30, 40);
    bus.shared.binning = 0;
    app.seed_roi(&bus.shared);
    assert_eq!((app.roi.x, app.roi.y, app.roi.w, app.roi.h), (1, 2, 30, 40));
    assert_eq!((app.roi.seeded_for, app.settings.bin), ((100, 80), 1));
    app.roi.x = 9;
    app.seed_roi(&bus.shared);
    assert_eq!(app.roi.x, 9);
    bus.shared.sensor_w = 200;
    bus.shared.binning = 2;
    app.seed_roi(&bus.shared);
    assert_eq!((app.roi.x, app.settings.bin), (1, 2));
}

#[test]
fn an_accidental_click_is_no_drag() {
    let (mut app, _) = connected();
    let d = Drag { x: 5, y: 6, w: 20, h: 30 };
    let image = (sc(100.0), sc(100.0));
    app.finish_drag((sc(2.9), sc(50.0)), image, d, (0, 0, 100, 100));
    assert_eq!(app.roi.w, 0);
    app.finish_drag((sc(3.0), sc(3.0)), image, d, (0, 0, 100, 100));
    assert_eq!((app.roi.x, app.roi.y, app.roi.w, app.roi.h), (5, 6, 20, 30));
}

#[test]
fn picks_are_sent_where_they_change_something() {
    let (mut app, mut bus) = connected();
    bus.shared.cameras = vec!["A".to_string(), "B".to_string()];
    bus.shared.camera_sel = "A".to_string();
    bus.shared.mounts = vec!["M".to_string()];
    bus.shared.slew_rates = vec![("1".to_string(), "one".to_string())];
    bus.shared.track_modes = vec![("T".to_string(), "t".to_string())];
    bus.shared.stream_switches = vec![CameraSwitch {
        prop: "P".to_string(),
        label: "L".to_string(),
        options: vec!["x".to_string(), "y".to_string()],
        selected: "x".to_string(),
    }];
    let s = &mut bus.shared;
    assert!(app.pick(Pick::Camera(0), s).is_none());
    assert!(matches!(app.pick(Pick::Camera(1), s), Some(Command::SelectCamera(n)) if n == "B"));
    assert!(app.pick(Pick::Camera(2), s).is_none());
    assert!(matches!(app.pick(Pick::Mount(0), s), Some(Command::SelectMount(n)) if n == "M"));
    assert!(matches!(app.pick(Pick::SlewRate(0), s), Some(Command::SetSlewRate(0))));
    assert!(app.pick(Pick::SlewRate(1), s).is_none());
    assert!(app.pick(Pick::TrackMode(0), s).is_none());
    assert!(matches!(app.pick(Pick::Tracking, s), Some(Command::SetTracking(true))));
    s.tracking = true;
    assert!(matches!(app.pick(Pick::TrackMode(0), s), Some(Command::SetTrackMode(0))));
    assert!(matches!(app.pick(Pick::Tracking, s), Some(Command::SetTracking(false))));
    assert!(app.pick(Pick::StreamSwitch { switch: 0, option: 0 }, s).is_none());
    assert!(matches!(
        app.pick(Pick::StreamSwitch { switch: 0, option: 1 }, s),
        Some(Command::SetCameraSwitch { prop, elem }) if prop == "P" && elem == "y"
    ));
    assert!(app.pick(Pick::StreamSwitch { switch: 1, option: 0 }, s).is_none());
    assert!(app.pick(Pick::Binning(2), s).is_none());
    s.sensor_w = 10;
    assert!(matches!(app.pick(Pick::Binning(2), s), Some(Command::SetBinning { bin: 2 })));
    assert!(app.pick(Pick::Binning(2), s).is_none());
    assert!(app.pick(Pick::Binning(5), s).is_none());
}

#[test]
fn guide_settings_are_sent_when_changed() {
    let (mut app, bus) = connected();
    let s = &bus.shared;
    assert!(app.pick(Pick::GuideMode(GuideMode::Disk), s).is_none());
    assert!(matches!(
        app.pick(Pick::GuideMode(GuideMode::Surface), s),
        Some(Command::SetGuideMode(GuideMode::Surface))
    ));
    assert!(matches!(
        app.pick(Pick::DecMode(DecMode::NorthOnly), s),
        Some(Command::SetGuideParams(p)) if p.dec_mode == DecMode::NorthOnly
    ));
    let p = GuideParams { cadence_ms: 300, ..app.settings.guide_params };
    assert!(matches!(
        app.pick(Pick::GuideParams(p), s),
        Some(Command::SetGuideParams(q)) if q == p && q.dec_mode == DecMode::NorthOnly
    ));
    assert!(app.pick(Pick::GuideParams(p), s).is_none());
    assert!(matches!(app.pick(Pick::Overlay, s), Some(Command::SetDetectionOverlay(true))));
    assert!(matches!(app.pick(Pick::Overlay, s), Some(Command::SetDetectionOverlay(false))));
}

#[test]
fn corners_nudge_both_axes() {
    let (mut app, _) = connected();
    assert_eq!(nudge_dirs(0), vec![Dir::North, Dir::West]);
    assert_eq!(nudge_dirs(4), vec![Dir::East]);
    assert_eq!(nudge_dirs(7), vec![Dir::South, Dir::East]);
    assert!(app.nudge(2, false).is_empty());
    let down = app.nudge(2, true);
    assert!(matches!(down[0], Command::Nudge { dir: Dir::North, active: true }));
    assert!(matches!(down[1], Command::Nudge { dir: Dir::East, active: true }));
    assert!(app.nudge(2, true).is_empty() && app.wants_repaint(false));
    let up = app.nudge(2, false);
    assert!(matches!(up[0], Command::Nudge { dir: Dir::North, active: false }));
    assert!(matches!(up[1], Command::Nudge { dir: Dir::East, active: false }));
    assert_eq!(app.nudge(6, true).len(), 1);
}

#[test]
fn each_image_is_uploaded_once() {
    let (mut app, mut bus) = app();
    assert_eq!(app.view.refresh_texture(&bus, true), Upload::Nothing);
    bus.publish_display(DisplayImage { size: [0, 0], pixels: Vec::new() });
    assert_eq!(app.view.refresh_texture(&bus, true), Upload::Published);
    assert_eq!(app.view.refresh_texture(&bus, true), Upload::Nothing);
    bus.publish_display(DisplayImage { size: [0, 0], pixels: Vec::new() });
    assert_eq!(app.view.refresh_texture(&bus, true), Upload::Published);
}

#[test]
fn a_paused_view_is_stretched_anew() {
    let (mut app, mut bus) = app();
    app.view.auto_stretch = false;
    app.view.gain = sc(3.0);
    app.view.stretch_changed(&mut bus);
    assert_eq!(bus.display_settings(), (false, sc(3.0)));
    assert_eq!(app.view.refresh_texture(&bus, false), Upload::Nothing);
    bus.latest_frame = Some(Frame::new(0, 0, Vec::new(), 1));
    assert_eq!(app.view.refresh_texture(&bus, true), Upload::Nothing);
    assert_eq!(app.view.refresh_texture(&bus, false), Upload::Rerendered);
    assert_eq!(app.view.refresh_texture(&bus, false), Upload::Nothing);
}

#[test]
fn the_histogram_follows_new_frames() {
    let (mut app, _) = app();
    assert!(!app.hist.refresh(None));
    assert_eq!(app.hist.peak(), 1);
    let frame = Frame::from_raw_stream(&[7, 0, 9, 0, 7, 9], 3, 1, 4).unwrap();
    assert!(app.hist.refresh(Some(&frame)));
    assert_eq!((app.hist.bins[0], app.hist.bins[9]), (2, 1));
    assert_eq!((app.hist.depth(), app.hist.peak(), app.hist.max_adu), (16, 2, 65535));
    let same = Frame::from_raw_stream(&[1, 1, 1], 3, 1, 4).unwrap();
    assert!(app.hist.refresh(Some(&same)));
    assert_eq!(app.hist.bins[1], 0);
    let next = Frame::from_raw_stream(&[1, 1, 1], 3, 1, 5).unwrap();
    app.hist.refresh(Some(&next));
    assert_eq!((app.hist.bins[1], app.hist.depth()), (3, 8));
}

#[test]
fn stream_depth_is_told_by_the_payload() {
    let (_, mut bus) = app();
    assert_eq!(stream_depth(&bus), None);
    bus.set_stream_geometry(10, 10);
    assert_eq!(stream_depth(&bus), None);
    bus.set_last_raw_len(99);
    assert_eq!(stream_depth(&bus), None);
    bus.set_last_raw_len(100);
    assert_eq!(stream_depth(&bus), Some(8));
    bus.set_last_raw_len(200);
    assert_eq!(stream_depth(&bus), Some(16));
}

#[test]
fn the_log_tail_is_the_last_lines() {
    let (_, mut bus) = app();
    assert!(log_tail(&bus.shared).is_empty());
    for i in 0..10 {
        bus.log(format!("{i}"));
    }
    assert_eq!(log_tail(&bus.shared), vec!["2", "3", "4", "5", "6", "7", "8", "9"]);
}

#[test]
fn graphs_scroll() {
    assert_eq!(plot_window(0), (0, 300));
    assert_eq!(plot_window(300), (0, 300));
    assert_eq!(plot_window(600), (300, 600));
}

#[test]
fn focus_trend() {
    assert_eq!(trend_window(5), None);
    assert_eq!(trend_window(7), Some((7, 3)));
    assert_eq!(trend_window(100), Some((20, 10)));
    assert_eq!(trend(sc(10.0), sc(9.0), sc(9.5)), Trend::Rising);
    assert_eq!(trend(sc(8.0), sc(9.0), sc(9.5)), Trend::Falling);
    assert_eq!(trend(sc(9.5), sc(9.0), sc(9.5)), Trend::Steady);
}

#[test]
fn leds() {
    assert_eq!(led_color(IndiState::Okay), ((0x3c, 0xb3, 0x71), "ok"));
    assert_eq!(led_color(IndiState::Idle).1, "idle");
    assert_eq!(led_color(IndiState::Busy).1, "busy");
    assert_eq!(led_color(IndiState::Alert).0, (0xc0, 0x39, 0x2b));
}

fn prop(writable: bool, value: IndiValue) -> IndiProp {
    IndiProp {
        name: "PROP".to_string(),
        label: "Prop".to_string(),
        state: IndiState::Idle,
        writable,
        value,
    }
}

fn item(name: &str, value: f64) -> IndiNumber {
    IndiNumber {
        name: name.to_string(),
        label: name.to_string(),
        value: sc(value),
        min: sc(0.0),
        max: sc(1.0),
        step: sc(0.1),
    }
}

#[test]
fn edits_are_seeded_once_and_overwritten() {
    let mut edits: Edits<Scalar> = Edits::new();
    assert!(edits.get("a").is_none());
    edits.seed("a".to_string(), sc(1.0));
    edits.seed("a".to_string(), sc(2.0));
    edits.seed("b".to_string(), sc(3.0));
    assert_eq!(edits.get("a"), Some(&sc(1.0)));
    edits.set("a".to_string(), sc(4.0));
    edits.set("c".to_string(), sc(5.0));
    assert_eq!(
        (edits.get("a"), edits.get("b"), edits.get("c")),
        (Some(&sc(4.0)), Some(&sc(3.0)), Some(&sc(5.0)))
    );
    assert_eq!(element_path("Cam", "P", "E"), "Cam/P/E");
}

#[test]
fn set_sends_pending_numbers_with_the_rest() {
    let value = || IndiValue::Number(vec![item("X", 0.25), item("Y", 0.5)]);
    let mut edits: Edits<Scalar> = Edits::new();
    edits.set(element_path("Cam", "PROP", "Y"), sc(0.75));
    match set_numbers("Cam", &prop(true, value()), &edits) {
        Some(Command::SetIndiNumber { device, prop, elems }) => {
            assert_eq!((device.as_str(), prop.as_str()), ("Cam", "PROP"));
            assert_eq!(elems, vec![("X".to_string(), sc(0.25)), ("Y".to_string(), sc(0.75))]);
        }
        other => panic!("{other:?}"),
    }
    assert!(set_numbers("Cam", &prop(false, value()), &edits).is_none());
    assert!(set_numbers("Cam", &prop(true, IndiValue::Blob(Vec::new())), &edits).is_none());
}

#[test]
fn set_sends_pending_texts_with_the_rest() {
    let text = |name: &str| IndiText {
        name: name.to_string(),
        label: name.to_string(),
        value: "old".to_string(),
    };
    let mut edits: Edits<String> = Edits::new();
    edits.set(element_path("Cam", "PROP", "A"), "new".to_string());
    match set_texts("Cam", &prop(true, IndiValue::Text(vec![text("A"), text("B")])), &edits) {
        Some(Command::SetIndiText { elems, .. }) => {
            assert_eq!(elems[0], ("A".to_string(), "new".to_string()));
            assert_eq!(elems[1], ("B".to_string(), "old".to_string()));
        }
        other => panic!("{other:?}"),
    }
    assert!(set_texts("Cam", &prop(true, IndiValue::Light(Vec::new())), &edits).is_none());
}

#[test]
fn switch_clicks_follow_the_rule() {
    let switches = |rule: IndiSwitchRule| {
        let sw = |name: &str, on: bool| IndiSwitch {
            name: name.to_string(),
            label: name.to_string(),
            on,
        };
        IndiValue::Switch { rule, items: vec![sw("ON", true), sw("OFF", false)] }
    };
    let sent = |writable: bool, rule: IndiSwitchRule, index: usize| {
        match click_switch("Cam", &prop(writable, switches(rule)), index) {
            Some(Command::SetIndiSwitch { elems, .. }) => Some(elems[0].clone()),
            _ => None,
        }
    };
    assert_eq!(sent(true, IndiSwitchRule::AnyOfMany, 0), Some(("ON".to_string(), false)));
    assert_eq!(sent(true, IndiSwitchRule::AnyOfMany, 1), Some(("OFF".to_string(), true)));
    assert_eq!(sent(true, IndiSwitchRule::OneOfMany, 0), None);
    assert_eq!(sent(true, IndiSwitchRule::AtMostOne, 1), Some(("OFF".to_string(), true)));
    assert_eq!(sent(false, IndiSwitchRule::AnyOfMany, 0), None);
    assert_eq!(sent(true, IndiSwitchRule::AnyOfMany, 2), None);
}
