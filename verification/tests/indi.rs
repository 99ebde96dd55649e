use solar::bus::Dir;
use solar::indi::camera::Camera;
use solar::indi::discovery::{
    discover, discovery_over, driver_interface, first_fit, parse_mask, Listed, Role,
    DISCOVERY_INTERVAL_MS, DISCOVERY_TRIES,
};
use solar::indi::mount::{
    guide_target, leading_number, motion_target, options_of, sort_options, Mount, SwitchOption,
};
use solar::indi::{
    is_switch_on, Change, NumberElement, ReadError, Reading, Setting, SwitchElement, TextElement,
};
use solar::scalar::Scalar;

fn sc(v: f64) -> Scalar {
    Scalar { bits: v.to_bits() }
}

fn number(name: &str, value: f64, max: f64) -> NumberElement {
    NumberElement {
        name: name.to_string(),
        value: sc(value),
        whole: value as u32,
        min: sc(0.0),
        max: sc(max),
    }
}

fn switch(name: &str, on: bool) -> SwitchElement {
    SwitchElement { name: name.to_string(), label: None, on }
}

fn texts(elems: &[(&str, &str)]) -> Reading {
    Reading::Texts(
        elems
            .iter()
            .map(|e| TextElement { name: e.0.to_string(), value: e.1.to_string() })
            .collect(),
    )
}

fn shown(c: &Change) -> String {
    let elems: Vec<String> = c
        .elems
        .iter()
        .map(|(name, setting)| match setting {
            Setting::Switch(on) => format!("{name}={on}"),
            Setting::Number(v) => format!("{name}={}", f64::from_bits(v.bits)),
            Setting::Count(n) => format!("{name}={n}"),
            Setting::Text(s) => format!("{name}={s}"),
        })
        .collect();
    format!("{} {} {}", c.prop, elems.join(","), if c.wait { "wait" } else { "send" })
}

#[test]
fn camera_changes() {
    let cam = Camera::new(7u8);
    assert_eq!(cam.dev, 7);
    let (first, second) = cam.connect();
    assert_eq!(shown(&first), "CONNECTION CONNECT=true wait");
    assert_eq!(shown(&second), "CCD_STREAM_ENCODER MJPEG=true wait");
    assert_eq!(shown(&cam.start_stream()), "CCD_VIDEO_STREAM STREAM_ON=true send");
    assert_eq!(shown(&cam.stop_stream()), "CCD_VIDEO_STREAM STREAM_OFF=true send");
    assert_eq!(shown(&cam.set_switch("P", "E")), "P E=true wait");
    assert_eq!(shown(&cam.set_gain(sc(2.5))), "CCD_GAIN GAIN=2.5 wait");
    assert_eq!(shown(&cam.set_exposure(sc(1.5))), "CCD_EXPOSURE CCD_EXPOSURE_VALUE=1.5 wait");
    assert_eq!(
        shown(&cam.set_streaming_exposure(sc(0.5))),
        "STREAMING_EXPOSURE STREAMING_EXPOSURE_VALUE=0.5 wait"
    );
    assert_eq!(
        shown(&cam.set_frame(1, 2, 3, 4)),
        "CCD_FRAME X=1,Y=2,WIDTH=3,HEIGHT=4 wait"
    );
    assert_eq!(shown(&cam.set_binning(2)), "CCD_BINNING HOR_BIN=2,VER_BIN=2 wait");
}

#[test]
fn driver_recording_changes() {
    let cam = Camera::new(());
    assert_eq!(
        shown(&cam.set_record_frame_total(500)),
        "RECORD_OPTIONS RECORD_FRAME_TOTAL=500 wait"
    );
    assert_eq!(
        shown(&cam.set_record_duration(sc(30.0))),
        "RECORD_OPTIONS RECORD_DURATION=30 wait"
    );
    assert_eq!(
        shown(&cam.set_record_file("/d", "n")),
        "RECORD_FILE RECORD_FILE_DIR=/d,RECORD_FILE_NAME=n wait"
    );
    assert_eq!(shown(&cam.record_start_frames()), "RECORD_STREAM RECORD_FRAME_ON=true send");
    assert_eq!(shown(&cam.record_start_duration()), "RECORD_STREAM RECORD_DURATION_ON=true send");
    assert_eq!(shown(&cam.record_stop()), "RECORD_STREAM RECORD_OFF=true send");
    let running = |on: bool| Reading::Switches(vec![switch("RECORD_OFF", on)]);
    assert!(cam.record_is_running(Some(&running(false))));
    assert!(!cam.record_is_running(Some(&running(true))));
    assert!(!cam.record_is_running(None));
}

#[test]
fn camera_readings() {
    let cam = Camera::new(());
    let info = Reading::Numbers(vec![
        number("CCD_MAX_X", 1936.0, 0.0),
        number("CCD_MAX_Y", 1096.0, 0.0),
    ]);
    assert_eq!(cam.sensor_size(Some(&info)), Ok((1936, 1096)));
    assert_eq!(cam.sensor_size(None), Err(ReadError::Absent));
    assert_eq!(cam.sensor_size(Some(&Reading::Other)), Err(ReadError::WrongKind));
    assert_eq!(cam.sensor_size(Some(&Reading::Numbers(Vec::new()))), Err(ReadError::NoElement));
    assert_eq!(cam.cfa(Some(&texts(&[("CFA_TYPE", "RGGB")]))).as_deref(), Some("RGGB"));
    assert_eq!(cam.cfa(Some(&texts(&[]))), None);
    let fps = Reading::Numbers(vec![number("EST_FPS", 9.0, 0.0)]);
    assert_eq!(cam.stream_fps(Some(&fps)), Some(sc(9.0)));
    let both = Reading::Numbers(vec![number("EST_FPS", 9.0, 0.0), number("AVG_FPS", 8.0, 0.0)]);
    assert_eq!(cam.stream_fps(Some(&both)), Some(sc(8.0)));
    assert_eq!(cam.number_range(Some(&fps), "EST_FPS"), Some((sc(9.0), sc(0.0), sc(0.0))));
    assert_eq!(cam.number_range(Some(&fps), "X"), None);
}

#[test]
fn preview_cap_is_raised_to_its_maximum() {
    let cam = Camera::new(());
    let limits = Reading::Numbers(vec![number("LIMITS_PREVIEW_FPS", 10.0, 999.0)]);
    let change = cam.set_preview_fps_limit_to_max(Some(&limits)).unwrap();
    assert_eq!(shown(&change), "LIMITS LIMITS_PREVIEW_FPS=999 wait");
    assert!(matches!(cam.set_preview_fps_limit_to_max(None), Err(ReadError::Absent)));
    assert!(matches!(
        cam.set_preview_fps_limit_to_max(Some(&Reading::Other)),
        Err(ReadError::NoElement)
    ));
    assert!(matches!(
        cam.set_preview_fps_limit_to_max(Some(&Reading::Numbers(Vec::new()))),
        Err(ReadError::NoElement)
    ));
}

#[test]
fn the_streamed_size_wins_over_the_frame_size() {
    let cam = Camera::new(());
    let region = |x: f64, y: f64, w: f64, h: f64| {
        Reading::Numbers(vec![
            number("X", x, 0.0),
            number("Y", y, 0.0),
            number("WIDTH", w, 0.0),
            number("HEIGHT", h, 0.0),
        ])
    };
    let stream = region(1.0, 2.0, 30.0, 40.0);
    let frame = region(5.0, 6.0, 70.0, 80.0);
    assert_eq!(cam.read_applied_roi(Some(&stream), Some(&frame)), Some((5, 6, 30, 40)));
    assert_eq!(cam.read_applied_roi(Some(&stream), None), Some((1, 2, 30, 40)));
    assert_eq!(cam.read_applied_roi(None, Some(&frame)), Some((5, 6, 70, 80)));
    let empty = region(1.0, 2.0, 0.0, 40.0);
    assert_eq!(cam.read_applied_roi(Some(&empty), None), None);
}

#[test]
fn switch_options_are_sorted_by_name() {
    let cam = Camera::new(());
    let reading =
        Reading::Switches(vec![switch("RAW", false), switch("MJPEG", true), switch("H264", false)]);
    let (names, selected) = cam.switch_options(Some(&reading));
    assert_eq!(names, vec!["H264", "MJPEG", "RAW"]);
    assert_eq!(selected.as_deref(), Some("MJPEG"));
    assert_eq!(cam.switch_options(None), (Vec::new(), None));
}

#[test]
fn mount_changes() {
    let mount = Mount::new(());
    assert_eq!(shown(&mount.connect()), "CONNECTION CONNECT=true wait");
    assert_eq!(
        shown(&mount.nudge(Dir::North, true)),
        "TELESCOPE_MOTION_NS MOTION_NORTH=true wait"
    );
    assert_eq!(
        shown(&mount.nudge(Dir::West, false)),
        "TELESCOPE_MOTION_WE MOTION_WEST=false wait"
    );
    assert_eq!(
        shown(&mount.pulse_guide(Dir::South, sc(250.0))),
        "TELESCOPE_TIMED_GUIDE_NS TIMED_GUIDE_S=250 send"
    );
    assert_eq!(shown(&mount.set_slew_rate("2x")), "TELESCOPE_SLEW_RATE 2x=true wait");
    assert_eq!(shown(&mount.set_track_mode("T")), "TELESCOPE_TRACK_MODE T=true wait");
    assert_eq!(shown(&mount.set_tracking(true)), "TELESCOPE_TRACK_STATE TRACK_ON=true wait");
    assert_eq!(shown(&mount.set_tracking(false)), "TELESCOPE_TRACK_STATE TRACK_OFF=true wait");
    assert_eq!(shown(&mount.abort()), "TELESCOPE_ABORT_MOTION ABORT=true wait");
    assert_eq!(motion_target(Dir::East).1, "MOTION_EAST");
    assert_eq!(guide_target(Dir::East), ("TELESCOPE_TIMED_GUIDE_WE", "TIMED_GUIDE_E"));
}

#[test]
fn mount_readings() {
    let mount = Mount::new(());
    let tracking = Reading::Switches(vec![switch("TRACK_ON", true), switch("TRACK_OFF", false)]);
    assert_eq!(mount.tracking_on(Some(&tracking)), Ok(true));
    assert_eq!(mount.tracking_on(None), Err(ReadError::Absent));
    assert_eq!(mount.tracking_on(Some(&Reading::Other)), Err(ReadError::WrongKind));
    let motion = Reading::Switches(vec![switch("MOTION_NORTH", true)]);
    assert_eq!(mount.is_moving(Dir::North, Some(&motion)), Ok(true));
    assert_eq!(mount.is_moving(Dir::South, Some(&motion)), Ok(false));
    assert_eq!(is_switch_on(Some(&motion), "MOTION_NORTH"), Ok(true));
}

fn option(label: &str, on: bool) -> SwitchOption {
    SwitchOption {
        name: format!("E{label}"),
        label: label.to_string(),
        on,
        number: leading_number(label).parse::<f64>().ok().map(sc),
    }
}

#[test]
fn rates_are_ordered_from_slow_to_fast() {
    let opts: Vec<SwitchOption> = ["Max", "x10", "x2", "Guide", "x0.25", "x0.5", "x1"]
        .iter()
        .map(|l| option(l, *l == "x2"))
        .collect();
    let (pairs, selected) = Mount::new(()).slew_rates(&opts);
    let labels: Vec<&str> = pairs.iter().map(|p| p.1.as_str()).collect();
    assert_eq!(labels, vec!["x0.25", "x0.5", "x1", "x2", "x10", "Guide", "Max"]);
    assert_eq!((selected, pairs[3].0.as_str()), (3, "Ex2"));
    assert_eq!(sort_options(&opts)[0], 4);
}

#[test]
fn leading_numbers() {
    assert_eq!(leading_number("x0.25"), "0.25");
    assert_eq!(leading_number("16x fast 3"), "16");
    assert_eq!(leading_number("Max"), "");
}

#[test]
fn choices_fall_back_to_the_element_name() {
    let reading = Reading::Switches(vec![
        SwitchElement { name: "A".to_string(), label: Some("Alpha".to_string()), on: true },
        SwitchElement { name: "B".to_string(), label: None, on: false },
    ]);
    let opts = options_of(Some(&reading)).unwrap();
    assert_eq!((opts[0].label.as_str(), opts[0].on), ("Alpha", true));
    assert_eq!(opts[1].label, "B");
    assert!(matches!(options_of(None), Err(ReadError::Absent)));
    assert!(matches!(options_of(Some(&Reading::Other)), Err(ReadError::WrongKind)));
}

#[test]
fn devices_are_found_by_their_interface() {
    let listed = |name: &str, interface: Option<u32>| Listed { name: name.to_string(), interface };
    let devices = [
        listed("Telescope Simulator", Some(0b101)),
        listed("CCD Simulator", Some(0b10110)),
        listed("Focuser", Some(0b1000)),
        listed("Silent", None),
        listed("Both", Some(3)),
    ];
    assert_eq!(discover(&devices, Role::Camera), vec!["CCD Simulator", "Both"]);
    assert_eq!(discover(&devices, Role::Mount), vec!["Telescope Simulator", "Both"]);
    assert_eq!(first_fit(&devices, Role::Camera).as_deref(), Some("CCD Simulator"));
    assert_eq!(first_fit(&devices, Role::Mount).as_deref(), Some("Telescope Simulator"));
    assert_eq!(first_fit(&devices[2..4], Role::Camera), None);
}

#[test]
fn discovery_waits_for_every_interface() {
    let listed = |interface: Option<u32>| Listed { name: "d".to_string(), interface };
    assert!(!discovery_over(&[], 1));
    assert!(!discovery_over(&[listed(Some(2)), listed(None)], 9));
    assert!(discovery_over(&[listed(Some(2)), listed(Some(0))], 1));
    assert!(discovery_over(&[listed(None)], 10));
    assert!(discovery_over(&[], 10));
    assert_eq!((DISCOVERY_TRIES, DISCOVERY_INTERVAL_MS), (10, 500));
}

#[test]
fn interface_masks_are_read_from_driver_info() {
    assert_eq!(parse_mask("22"), Some(22));
    assert_eq!(parse_mask("4294967295"), Some(u32::MAX));
    assert_eq!(parse_mask("4294967296"), None);
    assert_eq!(parse_mask(""), None);
    assert_eq!(parse_mask("2a"), None);
    let info = texts(&[("DRIVER_NAME", "x"), ("DRIVER_INTERFACE", "5")]);
    assert_eq!(driver_interface(Some(&info)), Some(5));
    assert_eq!(driver_interface(Some(&texts(&[]))), None);
    assert_eq!(driver_interface(None), None);
}

#[test]
fn a_leading_point_belongs_to_the_number() {
    assert_eq!(leading_number("x.5"), ".5");
    assert_eq!(leading_number("a. b .25x"), ".25");
    assert_eq!(leading_number("..5"), ".5");
    assert_eq!(leading_number("x. fast"), "");
    assert!(option("x.5", false).is_slower(&option("x1", false)));
    assert!(!option("x1", false).is_slower(&option("x.5", false)));
}
