use solar::bus::{Bus, ConnState, RecordPhase, LOG_CAP};
use solar::frame::{DisplayImage, Pixel};
use solar::guiding::detector::GuideMode;
use solar::guiding::GuideSample;
use solar::recorder::{MemoryOutput, SerColor, SerRecorder};
use solar::scalar::Scalar;

fn sc(v: f64) -> Scalar {
    Scalar { bits: v.to_bits() }
}

const WHITE: Pixel = Pixel { r: 255, g: 255, b: 255, a: 255 };

#[test]
fn display_settings_round_trip() {
    let mut bus = Bus::<MemoryOutput>::new();
    assert_eq!(bus.display_settings(), (true, sc(1.0)));
    bus.set_display_settings(false, sc(4.5));
    assert_eq!(bus.display_settings(), (false, sc(4.5)));
}

#[test]
fn publish_display_bumps_seq_and_stores() {
    let mut bus = Bus::<MemoryOutput>::new();
    assert!(bus.display.is_none());
    let before = bus.display_seq;
    bus.publish_display(DisplayImage { size: [1, 1], pixels: vec![WHITE] });
    assert_eq!(bus.display_seq, before + 1);
    assert_eq!(bus.display.as_ref().unwrap().size, [1, 1]);
}

#[test]
fn display_seq_goes_round() {
    let mut bus = Bus::<MemoryOutput>::new();
    bus.display_seq = u64::MAX;
    bus.publish_display(DisplayImage { size: [1, 1], pixels: vec![WHITE] });
    assert_eq!(bus.display_seq, 0);
}

#[test]
fn a_new_bus_is_idle() {
    let bus = Bus::<MemoryOutput>::new();
    assert_eq!(bus.shared.conn, ConnState::Disconnected);
    assert_eq!(bus.shared.recording.phase, RecordPhase::Idle);
    assert_eq!(bus.shared.binning, 1);
    assert!(!bus.detect_enabled() && !bus.recording_active());
    assert!(bus.latest_frame.is_none() && bus.guide_sample.is_none());
    assert_eq!((bus.frame_geometry(), bus.sensor_size()), ((0, 0), (0, 0)));
}

#[test]
fn log_keeps_the_newest_lines() {
    let mut bus = Bus::<MemoryOutput>::new();
    for i in 0..LOG_CAP + 5 {
        bus.log(format!("line {i}"));
    }
    assert_eq!(bus.shared.log.len(), LOG_CAP);
    assert_eq!(bus.shared.log[0], "line 5");
    assert_eq!(bus.shared.log.back().unwrap(), "line 204");
}

#[test]
fn detection_follows_whatever_asks_for_it() {
    let mut bus = Bus::<MemoryOutput>::new();
    for which in 0..3 {
        bus.shared.detect_overlay = which == 0;
        bus.shared.calibrating = which == 1;
        bus.shared.guiding = which == 2;
        bus.refresh_detect();
        assert!(bus.detect_enabled());
    }
    bus.shared.guiding = false;
    bus.refresh_detect();
    assert!(!bus.detect_enabled());
}

#[test]
fn geometry_and_modes_are_kept() {
    let mut bus = Bus::<MemoryOutput>::new();
    bus.set_stream_geometry(640, 480);
    bus.set_sensor_size(1936, 1096);
    bus.set_last_raw_len(1234);
    bus.set_guide_mode(GuideMode::Surface);
    assert_eq!(bus.frame_geometry(), (640, 480));
    assert_eq!(bus.sensor_size(), (1936, 1096));
    assert_eq!(bus.last_raw_len(), 1234);
    assert_eq!(GuideMode::from_u8(bus.guide_mode), GuideMode::Surface);
    assert_eq!(bus.bump_ref_generation(), 1);
    assert_eq!(bus.bump_ref_generation(), 2);
    let sample = GuideSample { x: sc(1.0), y: sc(2.0), seq: 3 };
    bus.publish_guide_sample(sample);
    assert_eq!(bus.guide_sample, Some(sample));
}

#[test]
fn frames_of_the_wrong_size_are_dropped_and_counted() {
    let mut bus = Bus::<MemoryOutput>::new();
    bus.write_record_frame(&[1, 2], None);
    assert_eq!(bus.shared.recording.dropped, 0);
    bus.recorder =
        Some(SerRecorder::create(MemoryOutput::new(), 2, 1, SerColor::Mono, 8, None).unwrap());
    bus.write_record_frame(&[1, 2], None);
    bus.write_record_frame(&[1, 2, 3], None);
    assert_eq!(bus.shared.recording.dropped, 1);
    assert_eq!(bus.recorder.as_ref().unwrap().frame_count(), 1);
}
