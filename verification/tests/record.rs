use solar::bus::{Bus, RecordConfig, RecordPhase, RecordStop};
use solar::frame::Frame;
use solar::recorder::{MemoryOutput, OutputError, SerColor, SerError, SerOutput, SerRecorder};
use solar::scalar::Scalar;
use solar::worker::record::{
    capture_name, interruptible_sleep, video_format, video_name, wait_for_geometry, GeometryLook, RecordAction,
    RecordRun, VideoFile,
};

fn sc(v: f64) -> Scalar {
    Scalar { bits: v.to_bits() }
}

fn config(count: usize, stop: RecordStop, delay: f64) -> RecordConfig {
    RecordConfig { dir: "out".to_string(), count, stop, delay_secs: sc(delay) }
}

fn frame() -> Option<Frame> {
    Some(Frame::from_raw_stream(&[1, 2], 2, 1, 1).unwrap())
}

fn create(f: &VideoFile) -> Result<SerRecorder<MemoryOutput>, String> {
    SerRecorder::create(MemoryOutput::new(), f.w, f.h, f.color, f.depth, None)
        .map_err(|e| e.describe())
}

fn last(bus: &Bus<MemoryOutput>) -> &str {
    bus.shared.log.back().unwrap()
}

#[test]
fn geometry_is_awaited() {
    let known = GeometryLook::Known { w: 2, h: 1 };
    assert_eq!(wait_for_geometry(false, &frame(), 0, 10), known);
    assert_eq!(wait_for_geometry(false, &frame(), 99, 10), known);
    assert_eq!(wait_for_geometry(true, &frame(), 0, 10), GeometryLook::GaveUp);
    assert_eq!(wait_for_geometry(false, &None, 0, 10), GeometryLook::Again);
    assert_eq!(wait_for_geometry(false, &None, 10, 10), GeometryLook::GaveUp);
    let empty = Some(Frame::new(0, 0, Vec::new(), 1));
    assert_eq!(wait_for_geometry(false, &empty, 0, 10), GeometryLook::Again);
}

#[test]
fn pauses_end_at_the_deadline_or_on_a_stop() {
    assert!(interruptible_sleep(false, 5, 10));
    assert!(!interruptible_sleep(false, 10, 10));
    assert!(!interruptible_sleep(true, 5, 10));
}

#[test]
fn video_format_keeps_the_native_depth() {
    assert_eq!(video_format(true, Some("RGGB"), 10, 10, 200), (SerColor::Rgb, 8));
    assert_eq!(video_format(false, None, 10, 10, 100), (SerColor::Mono, 8));
    assert_eq!(video_format(false, Some("RGGB"), 10, 10, 200), (SerColor::BayerRGGB, 16));
    assert_eq!(video_format(false, None, 0, 10, 200), (SerColor::Mono, 8));
    assert_eq!(video_format(false, None, 10, 10, 199), (SerColor::Mono, 8));
}

#[test]
fn video_names_count_up() {
    assert_eq!(video_name(1700, 1), "solar_1700_001.ser");
    assert_eq!(video_name(1700, 42), "solar_1700_042.ser");
    assert_eq!(video_name(0, 1000), "solar_0_1000.ser");
    assert_ne!(video_name(5, 10), video_name(5, 100));
}

#[test]
fn a_sequence_runs_to_its_end() {
    let mut bus = Bus::<MemoryOutput>::new();
    bus.set_last_raw_len(2);
    let mut run =
        RecordRun::begin(&mut bus, config(2, RecordStop::Frames(1), 1.5), false, None, 77);
    assert!(bus.shared.recording.active);
    assert_eq!((bus.shared.recording.current, bus.shared.recording.total), (0, 2));
    for video in 1..=2 {
        assert!(matches!(run.open_next(&mut bus, false), RecordAction::AwaitFrame));
        let file = match run.size_known(&mut bus, Some((2, 1))) {
            RecordAction::CreateFile(f) => f,
            other => panic!("{other:?}"),
        };
        assert_eq!(file.name, format!("solar_77_00{video}.ser"));
        assert_eq!((file.w, file.h, file.color, file.depth), (2, 1, SerColor::Mono, 8));
        let path = format!("out/{}", file.name);
        assert!(matches!(
            run.file_created(&mut bus, &file, &path, create(&file)),
            RecordAction::Tick
        ));
        assert!(bus.recording_active());
        assert_eq!(
            last(&bus),
            format!("recording {video}/2 (2×1, 8-bit) → out/solar_77_00{video}.ser")
        );
        assert!(matches!(run.tick(&mut bus, false, sc(0.1)), RecordAction::Tick));
        bus.write_record_frame(&[1, 2], None);
        assert!(matches!(run.tick(&mut bus, false, sc(0.2)), RecordAction::Close));
        assert_eq!(bus.shared.recording.frames_written, 1);
        assert_eq!(bus.shared.recording.elapsed_secs, sc(0.2));
        let (action, done) = run.close(&mut bus, path.clone(), false);
        let (count, out) = done.unwrap().unwrap();
        let file = out.into_inner().into_inner();
        assert_eq!((count, file.len()), (1, 178 + 2 + 8));
        assert_eq!(&file[38..42], &[1, 0, 0, 0]);
        assert_eq!(&file[178..180], &[1, 2]);
        assert!(!bus.recording_active() && bus.recorder.is_none());
        assert_eq!(bus.shared.recording.last_file.as_deref(), Some(path.as_str()));
        assert_eq!(last(&bus), format!("saved {path} (1 frames)"));
        if video == 1 {
            assert!(matches!(action, RecordAction::Rest));
            assert_eq!(bus.shared.recording.phase, RecordPhase::Waiting);
        } else {
            assert!(matches!(action, RecordAction::Next));
        }
    }
    assert!(matches!(run.open_next(&mut bus, false), RecordAction::Finish));
    assert!(!bus.shared.recording.active);
    assert_eq!(bus.shared.recording.phase, RecordPhase::Idle);
}

#[test]
fn a_run_has_at_least_one_video() {
    let mut bus = Bus::<MemoryOutput>::new();
    let run = RecordRun::begin(&mut bus, config(0, RecordStop::Frames(1), 0.0), false, None, 1);
    assert_eq!((bus.shared.recording.total, run.video), (1, 0));
}

#[test]
fn a_duration_ends_a_video() {
    let mut bus = Bus::<MemoryOutput>::new();
    let run =
        RecordRun::begin(&mut bus, config(1, RecordStop::Seconds(sc(2.0)), 0.0), true, None, 1);
    assert!(matches!(run.tick(&mut bus, false, sc(1.9)), RecordAction::Tick));
    assert!(matches!(run.tick(&mut bus, false, sc(2.0)), RecordAction::Close));
    assert!(matches!(run.tick(&mut bus, true, sc(0.0)), RecordAction::Close));
}

#[test]
fn a_stop_request_ends_the_sequence() {
    let mut bus = Bus::<MemoryOutput>::new();
    let mut run = RecordRun::begin(&mut bus, config(3, RecordStop::Frames(1), 1.0), true, None, 1);
    let (action, done) = run.close(&mut bus, "p".to_string(), true);
    assert!(matches!(action, RecordAction::Next) && done.is_none());
    assert!(matches!(run.open_next(&mut bus, true), RecordAction::Finish));
    assert!(!bus.shared.recording.active);
}

#[test]
fn a_sequence_ends_where_no_frame_comes_or_no_file_can_be_made() {
    let mut bus = Bus::<MemoryOutput>::new();
    let mut run = RecordRun::begin(&mut bus, config(2, RecordStop::Frames(1), 0.0), true, None, 1);
    run.open_next(&mut bus, false);
    assert!(matches!(run.size_known(&mut bus, None), RecordAction::Finish));
    assert_eq!(last(&bus), "recording: no frames — is the stream running?");
    let file =
        VideoFile { name: "x".to_string(), w: 1, h: 1, color: SerColor::Mono, depth: 8 };
    assert!(matches!(
        run.file_created(&mut bus, &file, "x", Err("no space".to_string())),
        RecordAction::Finish
    ));
    assert_eq!(last(&bus), "recording: no space");
    assert!(!bus.shared.recording.active);
}

#[test]
fn a_video_takes_no_more_frames_than_asked() {
    let mut bus = Bus::<MemoryOutput>::new();
    bus.set_last_raw_len(2);
    let mut run = RecordRun::begin(&mut bus, config(1, RecordStop::Frames(2), 0.0), false, None, 7);
    run.open_next(&mut bus, false);
    let file = match run.size_known(&mut bus, Some((2, 1))) {
        RecordAction::CreateFile(f) => f,
        other => panic!("{other:?}"),
    };
    run.file_created(&mut bus, &file, "p", create(&file));
    for k in 0..4u8 {
        bus.write_record_frame(&[k, k], None);
    }
    bus.write_record_frame(&[1, 2, 3], None);
    assert_eq!(bus.recorder.as_ref().unwrap().frame_count(), 2);
    assert_eq!(bus.shared.recording.dropped, 0);
    assert!(matches!(run.tick(&mut bus, false, sc(0.1)), RecordAction::Close));
    bus.write_record_frame(&[9, 9], None);
    let (_, done) = run.close(&mut bus, "p".to_string(), false);
    let (count, out) = done.unwrap().unwrap();
    let bytes = out.into_inner().into_inner();
    assert_eq!((count, bytes.len()), (2, 178 + 4 + 16));
    assert_eq!(&bytes[178..182], &[0, 0, 1, 1]);
    assert_eq!(&bytes[38..42], &[2, 0, 0, 0]);
    assert_eq!(last(&bus), "saved p (2 frames)");
}

#[test]
fn a_video_that_seconds_end_takes_every_frame() {
    let mut bus = Bus::<MemoryOutput>::new();
    let stop = RecordStop::Seconds(sc(1.0));
    let run = RecordRun::begin(&mut bus, config(1, stop, 0.0), false, None, 7);
    let file = VideoFile { name: "x".to_string(), w: 1, h: 1, color: SerColor::Mono, depth: 8 };
    run.file_created(&mut bus, &file, "x", create(&file));
    for _ in 0..5 {
        bus.write_record_frame(&[1], None);
    }
    assert_eq!(bus.recorder.as_ref().unwrap().frame_count(), 5);
}

/// An output that takes what is written but cannot be flushed.
struct Stuck;

impl SerOutput for Stuck {
    fn write_all(&mut self, _data: &[u8]) -> Result<(), OutputError> {
        Ok(())
    }
    fn seek_start(&mut self, _at: usize) -> Result<(), OutputError> {
        Ok(())
    }
    fn flush(&mut self) -> Result<(), OutputError> {
        Err(OutputError { message: "gone".to_string() })
    }
}

#[test]
fn a_video_that_cannot_be_finished_is_not_saved() {
    let mut bus = Bus::<Stuck>::new();
    let run = RecordRun::begin(&mut bus, config(1, RecordStop::Frames(2), 0.0), false, None, 7);
    let file = VideoFile { name: "x".to_string(), w: 1, h: 1, color: SerColor::Mono, depth: 8 };
    let rec = SerRecorder::create(Stuck, 1, 1, SerColor::Mono, 8, None).ok().unwrap();
    run.file_created(&mut bus, &file, "x", Ok(rec));
    let (action, done) = run.close(&mut bus, "x".to_string(), false);
    assert!(matches!(action, RecordAction::Next));
    assert!(matches!(done, Some(Err(SerError::Flush(_)))));
    assert!(bus.shared.recording.last_file.is_none());
    assert_eq!(bus.shared.log.back().unwrap(), "finalizing SER: flushing SER: gone");
}

#[test]
fn captures_are_named_by_their_time() {
    assert_eq!(capture_name(1700), "solar_1700.png");
    assert_eq!(capture_name(0), "solar_0.png");
}
