use solar::bus::Bus;
use solar::frame::{Frame, FrameError, Stretch};
use solar::recorder::{MemoryOutput, SerColor, SerRecorder};
use solar::scalar::Scalar;
use solar::worker::decode::{
    decode_frame, fps_rule, looks_like_jpeg, looks_like_zlib, publish_frame, resolve_raw_geometry,
    DecodeError, DecodeSlot, DecodeState, FpsRule, FrameResults, RawFrame,
};

fn sc(v: f64) -> Scalar {
    Scalar { bits: v.to_bits() }
}

fn raw(n: u8) -> RawFrame {
    RawFrame { data: vec![n], format: None }
}

fn sized_bus(roi: (u32, u32)) -> Bus<MemoryOutput> {
    let mut bus = Bus::new();
    bus.set_sensor_size(3856, 2180);
    bus.set_stream_geometry(roi.0, roi.1);
    bus
}

#[test]
fn raw_geometry_prefers_the_requested_roi() {
    let mut bus = sized_bus((1500, 1278));
    assert_eq!(resolve_raw_geometry(&mut bus, 1500 * 1278), (1500, 1278));
    assert_eq!(bus.frame_geometry(), (1500, 1278));
    assert_eq!(resolve_raw_geometry(&mut bus, 1500 * 1278 * 2), (1500, 1278));
}

#[test]
fn raw_geometry_falls_back_to_full_sensor() {
    let mut bus = sized_bus((1500, 1278));
    assert_eq!(resolve_raw_geometry(&mut bus, 3856 * 2180), (3856, 2180));
    assert_eq!(bus.frame_geometry(), (3856, 2180));
}

#[test]
fn raw_geometry_keeps_roi_when_nothing_matches() {
    let mut bus = sized_bus((1500, 1278));
    assert_eq!(resolve_raw_geometry(&mut bus, 12345), (1500, 1278));
    assert_eq!(bus.frame_geometry(), (1500, 1278));
}

#[test]
fn full_sensor_fallback_is_logged_once() {
    let mut bus = sized_bus((1500, 1278));
    resolve_raw_geometry(&mut bus, 3856 * 2180);
    let lines = bus.shared.log.len();
    assert_eq!(lines, 1);
    resolve_raw_geometry(&mut bus, 3856 * 2180);
    assert_eq!(bus.shared.log.len(), lines);
}

#[test]
fn slot_keeps_only_the_newest_frame() {
    let mut slot = DecodeSlot::new();
    slot.push(raw(1));
    slot.push(raw(2));
    slot.push(raw(3));
    assert_eq!(slot.wait().unwrap().data, vec![3u8]);
}

#[test]
fn a_frame_pushed_before_stop_is_still_delivered() {
    let mut slot = DecodeSlot::new();
    slot.push(raw(7));
    slot.stop();
    assert_eq!(slot.wait().unwrap().data, vec![7u8]);
    assert!(slot.wait().is_none());
}

#[test]
fn a_slot_is_ready_with_a_frame_or_at_the_end() {
    let mut slot = DecodeSlot::new();
    assert!(!slot.ready());
    slot.push(raw(1));
    assert!(slot.ready());
    slot.wait();
    assert!(!slot.ready());
    slot.stop();
    assert!(slot.ready());
    assert!(slot.wait().is_none());
}

#[test]
fn empty_payloads_are_no_frames() {
    let mut slot = DecodeSlot::new();
    assert!(!slot.receive(RawFrame { data: Vec::new(), format: None }));
    assert!(!slot.ready());
    assert!(slot.receive(raw(4)));
    assert_eq!(slot.wait().unwrap().data, vec![4u8]);
}

#[test]
fn payloads_are_told_by_their_first_bytes() {
    assert!(looks_like_jpeg(&[0xFF, 0xD8, 0xFF, 0xE0]));
    assert!(!looks_like_jpeg(&[0xFF, 0xD8]));
    assert!(!looks_like_jpeg(&[0xFF, 0xD9, 0xFF]));
    assert!(looks_like_zlib(&[0x78, 0x9C]));
    assert!(looks_like_zlib(&[0x78, 0x01]));
    assert!(!looks_like_zlib(&[0x78, 0x9D]));
    assert!(!looks_like_zlib(&[0x79, 0x9C]));
    assert!(!looks_like_zlib(&[0x78]));
}

fn zipped(data: &[u8]) -> Vec<u8> {
    let mut encoder = flate2::write::ZlibEncoder::new(Vec::new(), flate2::Compression::default());
    std::io::Write::write_all(&mut encoder, data).unwrap();
    encoder.finish().unwrap()
}

#[test]
fn raw_payload_is_decoded() {
    let mut bus = Bus::<MemoryOutput>::new();
    bus.set_stream_geometry(2, 1);
    let raw = RawFrame { data: vec![10, 20], format: Some(".stream".to_string()) };
    let (frame, pixels) = decode_frame(&mut bus, &raw, 5).unwrap();
    assert_eq!((frame.width, frame.height, frame.seq), (2, 1, 5));
    assert_eq!(&frame.rgba[4..8], &[20, 20, 20, 255]);
    assert!(pixels.is_none());
    assert_eq!(bus.last_raw_len(), 2);
}

#[test]
fn compressed_payload_is_inflated_and_kept_for_a_recording() {
    let mut bus = Bus::<MemoryOutput>::new();
    bus.set_stream_geometry(2, 1);
    bus.recording_active = true;
    let raw = RawFrame { data: zipped(&[1, 2, 3, 4]), format: Some(".stream.z".to_string()) };
    let (frame, pixels) = decode_frame(&mut bus, &raw, 1).unwrap();
    assert_eq!(frame.raw16, Some(vec![0x0201, 0x0403]));
    assert_eq!(pixels, Some(vec![1, 2, 3, 4]));
    assert_eq!(bus.last_raw_len(), 4);
}

#[test]
fn jpeg_payload_is_recognised_without_a_label() {
    let mut img = image::RgbImage::new(8, 8);
    for px in img.pixels_mut() {
        *px = image::Rgb([50, 50, 50]);
    }
    let mut out = std::io::Cursor::new(Vec::new());
    image::DynamicImage::ImageRgb8(img).write_to(&mut out, image::ImageFormat::Jpeg).unwrap();
    let mut bus = Bus::<MemoryOutput>::new();
    bus.recording_active = true;
    let raw = RawFrame { data: out.into_inner(), format: None };
    let (frame, pixels) = decode_frame(&mut bus, &raw, 1).unwrap();
    assert_eq!((frame.width, frame.height), (8, 8));
    assert!(pixels.is_none());
}

#[test]
fn undecodable_payloads_are_errors() {
    let mut bus = Bus::<MemoryOutput>::new();
    bus.set_stream_geometry(2, 1);
    let odd = RawFrame { data: vec![1, 2, 3], format: None };
    assert!(matches!(
        decode_frame(&mut bus, &odd, 1),
        Err(DecodeError::Frame(FrameError::LengthMismatch { len: 3, width: 2, height: 1 }))
    ));
    let torn = RawFrame { data: vec![1, 2, 3], format: Some(".stream.z".to_string()) };
    assert!(matches!(decode_frame(&mut bus, &torn, 1), Err(DecodeError::Inflate(_))));
    let broken = RawFrame { data: vec![1, 2, 3], format: Some(".stream_jpg".to_string()) };
    assert!(matches!(
        decode_frame(&mut bus, &broken, 1),
        Err(DecodeError::Frame(FrameError::Jpeg { .. }))
    ));
    let cut = RawFrame { data: vec![0xFF, 0xD8, 0xFF], format: None };
    assert!(matches!(
        decode_frame(&mut bus, &cut, 1),
        Err(DecodeError::Frame(FrameError::Unsupported { .. }))
    ));
}

#[test]
fn frame_rate_rules() {
    assert_eq!(fps_rule(None, sc(5.0)), FpsRule::Keep);
    assert_eq!(fps_rule(Some(sc(0.0)), sc(5.0)), FpsRule::Keep);
    assert_eq!(fps_rule(Some(sc(0.1)), sc(0.0)), FpsRule::First);
    assert_eq!(fps_rule(Some(sc(0.1)), sc(5.0)), FpsRule::Blend);
    assert_eq!(fps_rule(Some(sc(1.0)), sc(5.0)), FpsRule::Reset);
}

fn gray(n: u8) -> Frame {
    Frame::from_raw_stream(&[n, n], 2, 1, 1).unwrap()
}

#[test]
fn display_is_rate_limited_only_while_recording() {
    let mut bus = Bus::<MemoryOutput>::new();
    let mut state = DecodeState::new();
    let ms = 1_000_000;
    let first = state.accept(&mut bus, &gray(1), 0);
    assert!(first.gap.is_none() && first.detect.is_none() && first.display);
    let second = state.accept(&mut bus, &gray(1), 10 * ms);
    assert_eq!(second.gap, Some(10 * ms));
    assert!(second.display);
    bus.recording_active = true;
    assert!(!state.accept(&mut bus, &gray(1), 100 * ms).display);
    assert!(state.accept(&mut bus, &gray(1), 210 * ms).display);
    assert_eq!((state.seq, bus.shared.frame_count), (4, 4));
}

#[test]
fn detection_runs_at_its_own_pace() {
    let mut bus = Bus::<MemoryOutput>::new();
    let mut state = DecodeState::new();
    let ms = 1_000_000;
    bus.shared.detect_overlay = true;
    bus.refresh_detect();
    assert!(state.accept(&mut bus, &gray(1), 0).detect.is_some());
    assert!(state.accept(&mut bus, &gray(1), 99 * ms).detect.is_none());
    assert!(state.accept(&mut bus, &gray(1), 100 * ms).detect.is_some());
}

#[test]
fn published_frames_reach_display_overlay_and_recording() {
    let mut bus = Bus::<MemoryOutput>::new();
    bus.recording_active = true;
    bus.recorder =
        Some(SerRecorder::create(MemoryOutput::new(), 2, 1, SerColor::Mono, 8, None).unwrap());
    let results = FrameResults {
        fps: sc(12.0),
        detected: Some(Some((sc(1.0), sc(2.0)))),
        stretch: Some(Stretch::Keep),
    };
    assert!(publish_frame(&mut bus, gray(9), &Some(vec![9, 9]), results, None));
    assert_eq!(bus.shared.fps, sc(12.0));
    assert_eq!(bus.shared.detected, Some((sc(1.0), sc(2.0))));
    assert_eq!(bus.guide_sample.unwrap().seq, 1);
    assert_eq!(bus.display.as_ref().unwrap().pixels[0].r, 9);
    assert_eq!((bus.display_seq, bus.latest_frame.as_ref().unwrap().seq), (1, 1));
    assert_eq!(bus.recorder.as_ref().unwrap().frame_count(), 1);
    let lost = FrameResults { fps: sc(12.0), detected: Some(None), stretch: None };
    assert!(!publish_frame(&mut bus, gray(8), &Some(vec![8]), lost, None));
    assert_eq!(bus.shared.detected, None);
    assert!(bus.guide_sample.is_some());
    assert_eq!((bus.display_seq, bus.shared.recording.dropped), (1, 1));
}

#[test]
fn a_disarmed_recording_counts_no_frame() {
    let mut bus = Bus::<MemoryOutput>::new();
    bus.recorder =
        Some(SerRecorder::create(MemoryOutput::new(), 2, 1, SerColor::Mono, 8, None).unwrap());
    bus.shared.recording.dropped = u64::MAX;
    let results = FrameResults { fps: sc(12.0), detected: None, stretch: None };
    assert!(!publish_frame(&mut bus, gray(9), &Some(vec![9]), results, None));
    assert_eq!(bus.shared.recording.dropped, u64::MAX);
    assert_eq!(bus.recorder.as_ref().unwrap().frame_count(), 0);
    assert_eq!(bus.latest_frame.as_ref().unwrap().seq, 1);
}

#[test]
fn a_raw_payload_without_a_known_geometry_is_no_frame() {
    let mut bus = Bus::<MemoryOutput>::new();
    let raw = RawFrame { data: vec![1, 2, 3], format: None };
    assert!(matches!(
        decode_frame(&mut bus, &raw, 1),
        Err(DecodeError::Frame(FrameError::UnknownGeometry))
    ));
}
