use solar::bus::{
    Bus, CameraSwitch, Command, ConnState, Dir, RecordConfig, RecordPhase, RecordStop,
};
use solar::ephemeris::SolarObject;
use solar::guiding::controller::GuideParams;
use solar::guiding::detector::GuideMode;
use solar::guiding::{finish_calibration, GuideSample};
use solar::recorder::{MemoryOutput, OutputError, SerColor, SerError, SerOutput, SerRecorder};
use solar::scalar::Scalar;
use solar::worker::commands::{Bound, Plan, Stops, Task, Worker};
use solar::worker::outcomes::{
    binning_set, captured, done, exposure_readback, exposure_set, exposure_step, gain_set,
    mount_selected, relocked, roi_applied, roi_begin, roi_set, slew_rate_set, stream_started,
    stream_stopped, switch_set, track_mode_set, tracking_set, ExposureStep, RoiOutcome, RoiStep,
};
use solar::worker::replies::{
    init_camera_formats, stream_switch_props, CameraReport, SessionReport, SwitchReading,
};

type TestBus = Bus<MemoryOutput>;

fn sc(v: f64) -> Scalar {
    Scalar { bits: v.to_bits() }
}

fn last(bus: &TestBus) -> &str {
    bus.shared.log.back().unwrap()
}

fn bound(camera: bool, mount: bool) -> Worker {
    Worker { session: Some(Bound { camera, mount }), ..Worker::new() }
}

fn recording() -> Command {
    Command::StartRecording(RecordConfig {
        dir: "out".to_string(),
        count: 1,
        stop: RecordStop::Frames(5),
        delay_secs: sc(0.0),
    })
}

fn nothing() -> Stops {
    Stops { session: false, frames: false, guide_loop: false, calibration: false, recording: false }
}

fn handle(w: &mut Worker, bus: &mut TestBus, cmd: Command) -> Plan {
    w.handle(bus, cmd, false).0
}

#[test]
fn connect_tears_down_the_old_session() {
    let mut bus = TestBus::new();
    let mut w = bound(true, true);
    w.frame_task = true;
    let plan = handle(&mut w, &mut bus, Command::Connect { addr: "host:1".to_string() });
    assert!(matches!(plan.task, Task::Connect(addr) if addr == "host:1"));
    assert!(plan.stops.session && plan.stops.frames);
    assert!(w.session.is_none() && !w.frame_task);
    assert_eq!(bus.shared.conn, ConnState::Connecting);
    assert_eq!(last(&bus), "connecting to host:1…");
}

#[test]
fn disconnect_ends_everything() {
    let mut bus = TestBus::new();
    let mut w = bound(true, true);
    w.frame_task = true;
    w.guide_loop = true;
    w.record_task = true;
    bus.shared.streaming = true;
    bus.shared.guiding = true;
    bus.refresh_detect();
    bus.recording_active = true;
    bus.recorder =
        Some(SerRecorder::create(MemoryOutput::new(), 1, 1, SerColor::Mono, 8, None).unwrap());
    let plan = handle(&mut w, &mut bus, Command::Disconnect);
    assert!(matches!(plan.task, Task::Done));
    assert!(plan.stops.session && plan.stops.guide_loop && plan.stops.recording);
    assert_eq!(w, Worker::new());
    assert!(!bus.shared.streaming && !bus.shared.guiding && !bus.detect_enabled());
    assert!(bus.recorder.is_none() && !bus.recording_active());
    assert_eq!(bus.shared.recording.phase, RecordPhase::Idle);
    assert_eq!(bus.shared.conn, ConnState::Disconnected);
    assert_eq!(last(&bus), "disconnected");
}

#[test]
fn nothing_reaches_devices_without_a_session() {
    let commands = [
        Command::StartStream,
        Command::SetGain(sc(1.0)),
        Command::Abort,
        Command::StartGuiding,
        Command::SelectMount("M".to_string()),
        Command::Calibrate { pulse_ms: sc(500.0) },
        recording(),
    ];
    for cmd in commands {
        let mut bus = TestBus::new();
        let mut w = Worker::new();
        let plan = handle(&mut w, &mut bus, cmd);
        assert!(matches!(plan.task, Task::Done));
        assert_eq!(last(&bus), "not connected");
    }
}

#[test]
fn guiding_takes_stream_mount_and_calibration() {
    let mut bus = TestBus::new();
    let mut w = bound(true, true);
    let mut refused = |bus: &mut TestBus, w: &mut Worker| {
        assert!(matches!(handle(w, bus, Command::StartGuiding).task, Task::Done));
        assert!(!bus.shared.guiding);
        last(bus).to_string()
    };
    let mut seen = vec![refused(&mut bus, &mut w)];
    bus.shared.streaming = true;
    seen.push(refused(&mut bus, &mut w));
    bus.shared.calibrated = true;
    let mut blind = bound(true, false);
    seen.push(refused(&mut bus, &mut blind));
    seen.dedup();
    assert_eq!(seen.len(), 3);
    bus.guide_sample = Some(GuideSample { x: sc(0.0), y: sc(0.0), seq: 9 });
    let plan = handle(&mut w, &mut bus, Command::StartGuiding);
    assert!(matches!(plan.task, Task::Lock(9)));
    assert!(bus.shared.guiding && bus.detect_enabled());
    assert_eq!(bus.ref_generation, 1);
}

#[test]
fn a_lock_starts_the_guide_loop() {
    let mut bus = TestBus::new();
    let mut w = bound(true, true);
    bus.shared.guiding = true;
    bus.refresh_detect();
    bus.shared.guide_history.push_back((sc(1.0), sc(1.0)));
    let sample = GuideSample { x: sc(3.0), y: sc(4.0), seq: 1 };
    assert!(w.locked(&mut bus, Some(sample)));
    assert!(w.guide_loop && bus.shared.guide_history.is_empty());
    assert_eq!(bus.shared.lock_point, Some((sc(3.0), sc(4.0))));
    assert_eq!(last(&bus), "guiding started");
    let mut w = bound(true, true);
    assert!(!w.locked(&mut bus, None));
    assert!(!w.guide_loop && !bus.shared.guiding && !bus.detect_enabled());
    assert_eq!(last(&bus), "no target detected — cannot lock");
}

#[test]
fn a_second_guide_or_recording_is_refused() {
    let mut bus = TestBus::new();
    let mut w = bound(true, true);
    w.guide_loop = true;
    w.record_task = true;
    handle(&mut w, &mut bus, Command::StartGuiding);
    assert_eq!(last(&bus), "already guiding");
    handle(&mut w, &mut bus, recording());
    assert_eq!(last(&bus), "already recording");
    handle(&mut w, &mut bus, Command::Calibrate { pulse_ms: sc(1.0) });
    assert_eq!(last(&bus), "stop guiding before calibrating");
    w.calib_task = true;
    handle(&mut w, &mut bus, Command::Calibrate { pulse_ms: sc(1.0) });
    assert_eq!(last(&bus), "calibration already running");
}

#[test]
fn a_finished_recording_makes_room_for_another() {
    let mut bus = TestBus::new();
    bus.shared.streaming = true;
    bus.shared.stream_switches.push(CameraSwitch {
        prop: "CCD_STREAM_ENCODER".to_string(),
        label: "Encoder".to_string(),
        options: vec!["MJPEG".to_string()],
        selected: "mjpeg".to_string(),
    });
    let mut w = bound(true, false);
    w.record_task = true;
    let (plan, _) = w.handle(&mut bus, recording(), true);
    assert!(matches!(plan.task, Task::Record { mjpeg: true, .. }));
    assert!(w.record_task);
    let mut idle = bound(true, false);
    bus.shared.streaming = false;
    handle(&mut idle, &mut bus, recording());
    assert_eq!(last(&bus), "start the stream before recording");
    bus.shared.streaming = true;
    let mut blind = bound(false, false);
    handle(&mut blind, &mut bus, recording());
    assert_eq!(last(&bus), "no camera selected — cannot record");
}

#[test]
fn frame_changes_end_guiding_and_recording() {
    for cmd in [
        Command::StopStream,
        Command::ResetRoi,
        Command::SetRoi { x: 0, y: 0, w: 16, h: 16 },
    ] {
        let mut bus = TestBus::new();
        let mut w = bound(true, true);
        w.guide_loop = true;
        w.record_task = true;
        bus.shared.guiding = true;
        bus.refresh_detect();
        bus.shared.sensor_w = 100;
        bus.shared.sensor_h = 50;
        let plan = handle(&mut w, &mut bus, cmd);
        assert!(plan.stops.guide_loop && plan.stops.recording);
        assert!(!w.guide_loop && !w.record_task && !bus.shared.guiding);
        let lines: Vec<&str> = bus.shared.log.iter().map(|s| s.as_str()).collect();
        assert_eq!(
            lines,
            vec!["guiding stopped (frame changed)", "recording stopped (frame changed)"]
        );
    }
}

#[test]
fn device_commands_become_tasks() {
    let mut bus = TestBus::new();
    let mut w = bound(true, true);
    bus.shared.streaming = true;
    bus.shared.sensor_w = 100;
    bus.shared.sensor_h = 50;
    bus.shared.slew_rates = vec![("1x".to_string(), "Guide".to_string())];
    bus.shared.track_modes = vec![("TRACK_SOLAR".to_string(), "Solar".to_string())];
    let mut task = |cmd: Command| {
        let plan = handle(&mut w, &mut bus, cmd);
        assert_eq!(plan.stops, nothing());
        plan.task
    };
    assert!(matches!(task(Command::StartStream), Task::StartStream));
    assert!(matches!(task(Command::SetGain(sc(2.0))), Task::SetGain(g) if g == sc(2.0)));
    assert!(matches!(
        task(Command::SetExposure(sc(0.5))),
        Task::SetExposure { seconds, streaming: true } if seconds == sc(0.5)
    ));
    assert!(matches!(
        task(Command::Nudge { dir: Dir::East, active: true }),
        Task::Nudge { dir: Dir::East, active: true }
    ));
    assert!(matches!(
        task(Command::SetSlewRate(0)),
        Task::SetSlewRate { idx: 0, name } if name == "1x"
    ));
    assert!(matches!(
        task(Command::SetTrackMode(0)),
        Task::SetTrackMode { idx: 0, name } if name == "TRACK_SOLAR"
    ));
    assert!(matches!(task(Command::SetTracking(true)), Task::SetTracking(true)));
    assert!(matches!(
        task(Command::GotoObject(SolarObject::Moon)),
        Task::Goto(SolarObject::Moon)
    ));
    assert!(matches!(task(Command::Abort), Task::Abort));
    assert!(matches!(
        task(Command::ResetRoi),
        Task::SetRoi { x: 0, y: 0, w: 100, h: 50, streaming: true }
    ));
    assert!(matches!(task(Command::SetBinning { bin: 2 }), Task::SetBinning(2)));
    assert!(matches!(
        task(Command::CaptureFrame { dir: "d".to_string() }),
        Task::Done
    ));
}

#[test]
fn settings_take_effect_at_once() {
    let mut bus = TestBus::new();
    let mut w = bound(true, true);
    handle(&mut w, &mut bus, Command::SetGuideMode(GuideMode::Surface));
    assert_eq!(bus.shared.guide_mode, GuideMode::Surface);
    assert_eq!(GuideMode::from_u8(bus.guide_mode), GuideMode::Surface);
    handle(&mut w, &mut bus, Command::SetDetectionOverlay(true));
    assert!(bus.shared.detect_overlay && bus.detect_enabled());
    let params = GuideParams { cadence_ms: 250, ..Default::default() };
    handle(&mut w, &mut bus, Command::SetGuideParams(params));
    assert_eq!(bus.shared.guide_params, params);
    bus.shared.calibrated = true;
    handle(&mut w, &mut bus, Command::ClearCalibration);
    assert!(!bus.shared.calibrated && bus.shared.guide_calib.is_none());
}

fn camera_report() -> CameraReport {
    CameraReport {
        sensor: Ok((100, 50)),
        switches: Vec::new(),
        frames: Ok(()),
    }
}

fn session_report() -> SessionReport {
    SessionReport {
        bound: Bound { camera: true, mount: false },
        camera_name: "Cam".to_string(),
        mount_name: String::new(),
        cameras: vec!["Cam".to_string()],
        mounts: Vec::new(),
        rates: None,
        camera: Some(camera_report()),
    }
}

#[test]
fn a_session_is_published() {
    let mut bus = TestBus::new();
    let mut w = Worker::new();
    w.connected(&mut bus, Ok(session_report()));
    assert_eq!(w.session, Some(Bound { camera: true, mount: false }));
    assert!(w.frame_task);
    assert_eq!(bus.shared.conn, ConnState::Connected);
    assert_eq!((bus.shared.sensor_w, bus.shared.sensor_h), (100, 50));
    assert_eq!(bus.shared.roi, (0, 0, 100, 50));
    assert_eq!(bus.sensor_size(), (100, 50));
    assert_eq!(bus.frame_geometry(), (100, 50));
    assert_eq!(bus.shared.camera_sel, "Cam");
    assert_eq!(
        bus.shared.log[0],
        "camera: Cam · mount: (none — no telescope device found)"
    );
    assert_eq!(last(&bus), "connected");
}

#[test]
fn a_failed_connection_is_published() {
    let mut bus = TestBus::new();
    let mut w = Worker::new();
    w.connected(&mut bus, Err("refused".to_string()));
    assert_eq!(bus.shared.conn, ConnState::Failed);
    assert_eq!(last(&bus), "connect failed: refused");
    assert!(w.session.is_none());
}

#[test]
fn another_camera_replaces_the_video_pipeline() {
    let mut bus = TestBus::new();
    let mut w = bound(true, true);
    w.frame_task = true;
    bus.shared.streaming = true;
    assert!(w.camera_selected(&mut bus, "New".to_string(), Ok(Some(camera_report()))));
    assert!(!bus.shared.streaming && w.frame_task);
    assert_eq!(bus.shared.camera_sel, "New");
    assert_eq!(last(&bus), "camera: New");
    assert!(!w.camera_selected(&mut bus, "Bad".to_string(), Err("gone".to_string())));
    assert_eq!(last(&bus), "select camera failed: gone");
    assert_eq!(bus.shared.camera_sel, "New");
}

#[test]
fn another_mount_starts_slow_and_still() {
    let mut bus = TestBus::new();
    bus.shared.slew_rate_idx = 3;
    bus.shared.tracking = true;
    let rates = vec![("1x".to_string(), "Guide".to_string())];
    mount_selected(&mut bus, "M".to_string(), Ok(Some(Ok(rates))));
    assert_eq!((bus.shared.slew_rate_idx, bus.shared.tracking), (0, false));
    assert_eq!(bus.shared.mount_sel, "M");
    assert_eq!(last(&bus), "mount: M");
    mount_selected(&mut bus, "N".to_string(), Err("gone".to_string()));
    assert_eq!(last(&bus), "select mount failed: gone");
    assert_eq!(bus.shared.mount_sel, "M");
}

#[test]
fn outcomes_are_published_or_logged() {
    let mut bus = TestBus::new();
    let err = || "nope".to_string();
    stream_started(&mut bus, Ok(Some("limit 10".to_string())));
    assert!(bus.shared.streaming);
    assert_eq!((bus.shared.log[0].as_str(), last(&bus)), ("video stream on", "limit 10"));
    bus.shared.fps = sc(9.0);
    stream_stopped(&mut bus, Ok(()));
    assert!(!bus.shared.streaming && bus.shared.fps == sc(0.0));
    gain_set(&mut bus, sc(5.0), Ok("gain now 5".to_string()));
    assert_eq!((bus.shared.gain, last(&bus)), (sc(5.0), "gain now 5"));
    gain_set(&mut bus, sc(6.0), Err(err()));
    assert_eq!((bus.shared.gain, last(&bus)), (sc(5.0), "error: nope"));
    exposure_set(&mut bus, sc(0.5), Some("stuck".to_string()), Ok("read".to_string()));
    assert_eq!((bus.shared.exposure, last(&bus)), (sc(0.5), "read"));
    slew_rate_set(&mut bus, 2, Ok(()));
    track_mode_set(&mut bus, 1, Ok(()));
    tracking_set(&mut bus, true, Ok(()));
    binning_set(&mut bus, 2, Ok(()));
    let s = &bus.shared;
    assert_eq!((s.slew_rate_idx, s.track_mode_idx, s.tracking, s.binning), (2, 1, true, 2));
    captured(&mut bus, Ok("a.png".to_string()));
    assert_eq!(bus.shared.last_capture.as_deref(), Some("a.png"));
    assert_eq!(last(&bus), "captured a.png");
    let lines = bus.shared.log.len();
    done(&mut bus, Ok(()));
    assert_eq!(bus.shared.log.len(), lines);
    done(&mut bus, Err(err()));
    assert_eq!(last(&bus), "error: nope");
}

#[test]
fn streaming_exposure_bounces_the_stream() {
    assert_eq!(exposure_step(true, true), ExposureStep::Bounce);
    assert_eq!(exposure_step(true, false), ExposureStep::Keep);
    assert_eq!(exposure_step(false, true), ExposureStep::Still);
    assert_eq!(exposure_readback(true).0, "STREAMING_EXPOSURE");
    assert_eq!(exposure_readback(false).1, "CCD_EXPOSURE_VALUE");
}

#[test]
fn the_applied_region_wins_over_the_asked_one() {
    let mut bus = TestBus::new();
    let asked = (10, 20, 100, 50);
    let outcome = RoiOutcome {
        stop: Ok(()),
        set: Ok(()),
        applied: Some((8, 20, 96, 50)),
        restart: None,
    };
    roi_applied(&mut bus, asked, outcome.applied);
    assert_eq!(bus.frame_geometry(), (96, 50));
    assert_eq!(bus.shared.roi, (0, 0, 0, 0));
    roi_set(&mut bus, asked, outcome);
    assert_eq!(bus.shared.roi, (8, 20, 96, 50));
    assert_eq!(bus.frame_geometry(), (96, 50));
    assert_eq!(last(&bus), "ROI requested 100×50, driver applied 96×50 at (8,20)");
    let plain = RoiOutcome { stop: Ok(()), set: Ok(()), applied: None, restart: None };
    roi_applied(&mut bus, asked, plain.applied);
    assert_eq!(bus.frame_geometry(), (100, 50));
    bus.set_stream_geometry(640, 480);
    roi_set(&mut bus, asked, plain);
    assert_eq!(bus.frame_geometry(), (640, 480));
    assert_eq!(last(&bus), "ROI set to 100×50 at (10,20)");
    let stuck = RoiOutcome {
        stop: Err("busy".to_string()),
        set: Ok(()),
        applied: None,
        restart: None,
    };
    roi_set(&mut bus, (0, 0, 1, 1), stuck);
    assert_eq!(bus.shared.roi, asked);
    assert_eq!(last(&bus), "error: busy");
}

#[test]
fn a_stream_stopped_for_a_region_is_restarted() {
    let mut step = roi_begin(true);
    let mut steps = Vec::new();
    while step != RoiStep::Report {
        steps.push(step);
        step = step.next(step != RoiStep::Apply, true);
    }
    assert_eq!(
        steps,
        vec![RoiStep::Stop, RoiStep::Apply, RoiStep::ReadBack, RoiStep::Restart]
    );
    assert_eq!(roi_begin(true).next(false, true), RoiStep::Report);
    assert_eq!(roi_begin(false), RoiStep::Apply);
    assert_eq!(RoiStep::ReadBack.next(true, false), RoiStep::Report);
}

fn reading(prop: &str, options: &[&str], selected: Option<&str>) -> SwitchReading {
    SwitchReading {
        prop: prop.to_string(),
        label: format!("{prop} label"),
        options: options.iter().map(|s| s.to_string()).collect(),
        selected: selected.map(|s| s.to_string()),
    }
}

#[test]
fn only_exposed_switches_get_pickers() {
    let switches = init_camera_formats(vec![
        reading("A", &["x", "y"], Some("y")),
        reading("B", &[], None),
        reading("C", &["z"], None),
    ]);
    let props: Vec<&str> = switches.iter().map(|s| s.prop.as_str()).collect();
    assert_eq!(props, vec!["A", "C"]);
    assert_eq!((switches[0].selected.as_str(), switches[1].selected.as_str()), ("y", ""));
    assert_eq!(stream_switch_props()[2].0, "STREAM_FULL_DEPTH");
}

#[test]
fn a_switch_change_refreshes_every_picker() {
    let mut bus = TestBus::new();
    bus.shared.stream_switches =
        init_camera_formats(vec![reading("A", &["x", "y"], Some("x")), reading("B", &["p"], None)]);
    let after = vec![reading("A", &["x", "y"], Some("y")), reading("B", &["p", "q"], Some("q"))];
    switch_set(&mut bus, "A", "y", Ok(after));
    assert_eq!(bus.shared.stream_switches[0].selected, "y");
    assert_eq!(bus.shared.stream_switches[1].selected, "q");
    assert_eq!(bus.shared.stream_switches[1].options.len(), 2);
    assert_eq!(last(&bus), "A → y");
}

#[test]
fn relocking_starts_the_telemetry_afresh() {
    let mut bus = TestBus::new();
    bus.shared.guide_rms = sc(4.0);
    bus.shared.guide_err = Some((sc(1.0), sc(1.0)));
    relocked(&mut bus, Some(GuideSample { x: sc(5.0), y: sc(6.0), seq: 1 }));
    assert_eq!(bus.shared.lock_point, Some((sc(5.0), sc(6.0))));
    assert!(bus.shared.guide_err.is_none() && bus.shared.guide_rms == sc(0.0));
    assert_eq!(last(&bus), "re-locked");
    relocked(&mut bus, None);
    assert_eq!(last(&bus), "re-lock: no target detected");
}

#[test]
fn stopping_hands_out_the_finished_file() {
    let stopping =
        [Command::StopRecording, Command::Disconnect, Command::SelectCamera("c".to_string())];
    for cmd in stopping {
        let mut bus = TestBus::new();
        let mut w = bound(true, true);
        w.record_task = true;
        bus.recording_active = true;
        let mut rec =
            SerRecorder::create(MemoryOutput::new(), 1, 1, SerColor::Mono, 8, None).unwrap();
        rec.write_frame(&[7], None).unwrap();
        bus.recorder = Some(rec);
        let (_, done) = w.handle(&mut bus, cmd, false);
        let (count, out) = done.unwrap().unwrap();
        let file = out.into_inner().into_inner();
        assert_eq!((count, file.len()), (1, 178 + 1 + 8));
        assert_eq!(&file[38..42], &[1, 0, 0, 0]);
        assert!(!bus.shared.log.iter().any(|l| l.starts_with("finalizing")));
    }
    let mut bus = TestBus::new();
    assert!(bound(true, true).handle(&mut bus, Command::StopRecording, false).1.is_none());
}

/// An output that takes what is written but cannot be flushed.
struct Stuck;

impl SerOutput for Stuck {
    fn write_all(&mut self, _data: &[u8]) -> Result<(), OutputError> {
        Ok(())
    }
    fn seek_start(&mut self, _at: usize) -> Result<(), OutputError> {
        Ok(())
    }
    fn flush(&mut self) -> Result<(), OutputError> {
        Err(OutputError { message: "gone".to_string() })
    }
}

#[test]
fn a_file_that_cannot_be_finished_on_stop_is_reported() {
    let mut bus = Bus::<Stuck>::new();
    bus.recorder = SerRecorder::create(Stuck, 1, 1, SerColor::Mono, 8, None).ok();
    let (_, done) = bound(true, true).handle(&mut bus, Command::StopRecording, false);
    assert!(matches!(done, Some(Err(SerError::Flush(_)))));
    let lines: Vec<&str> = bus.shared.log.iter().map(String::as_str).collect();
    assert_eq!(lines, vec!["finalizing SER on stop: flushing SER: gone", "recording stopped"]);
}

#[test]
fn a_calibration_can_be_repeated() {
    let mut bus = TestBus::new();
    bus.shared.streaming = true;
    let mut w = bound(true, true);
    let calibrate = || Command::Calibrate { pulse_ms: sc(500.0) };
    assert!(matches!(handle(&mut w, &mut bus, calibrate()).task, Task::Calibrate(_)));
    assert!(matches!(handle(&mut w, &mut bus, calibrate()).task, Task::Done));
    assert_eq!(last(&bus), "calibration already running");
    finish_calibration(&mut bus, None, String::new());
    w.calibration_over();
    assert!(matches!(handle(&mut w, &mut bus, calibrate()).task, Task::Calibrate(_)));
}

#[test]
fn a_camera_without_a_sensor_size_has_no_region() {
    let mut bus = TestBus::new();
    let mut w = bound(true, true);
    let report = |sensor: Result<(u32, u32), String>| CameraReport {
        sensor,
        switches: Vec::new(),
        frames: Ok(()),
    };
    w.camera_selected(&mut bus, "a".to_string(), Ok(Some(report(Ok((640, 480))))));
    assert_eq!(bus.shared.roi, (0, 0, 640, 480));
    w.camera_selected(&mut bus, "b".to_string(), Ok(Some(report(Err("none".to_string())))));
    assert_eq!((bus.shared.sensor_w, bus.shared.sensor_h), (0, 0));
    assert_eq!(bus.shared.roi, (0, 0, 0, 0));
    assert_eq!((bus.sensor_size(), bus.frame_geometry()), ((640, 480), (640, 480)));
}
