use solar::recorder::{
    filetime, MemoryOutput, OutputError, SerColor, SerError, SerOutput, SerRecorder, UnixTime,
    HEADER_LEN,
};

fn read_i32(buf: &[u8], off: usize) -> i32 {
    i32::from_le_bytes(buf[off..off + 4].try_into().unwrap())
}

fn read_i64(buf: &[u8], off: usize) -> i64 {
    i64::from_le_bytes(buf[off..off + 8].try_into().unwrap())
}

fn mono(w: u32, h: u32, depth: u8) -> SerRecorder<MemoryOutput> {
    SerRecorder::create(MemoryOutput::new(), w, h, SerColor::Mono, depth, None).unwrap()
}

#[test]
fn header_records_geometry_and_depth() {
    let rec = mono(640, 480, 16);
    assert_eq!(rec.frame_len(), 640 * 480 * 2);
    let (_, out) = rec.finalize_inner().unwrap();
    let bytes = out.into_inner().into_inner();
    assert_eq!(read_i32(&bytes, 26), 640);
    assert_eq!(read_i32(&bytes, 30), 480);
    assert_eq!(read_i32(&bytes, 34), 16);
    assert_eq!(read_i32(&bytes, 18), 0);
}

#[test]
fn finalize_patches_count_and_writes_trailer() {
    let mut rec = mono(4, 2, 8);
    assert_eq!(rec.frame_len(), 8);
    for _ in 0..3 {
        rec.write_frame(&[0u8; 8], None).unwrap();
    }
    let (count, out) = rec.finalize_inner().unwrap();
    assert_eq!(count, 3);
    let bytes = out.into_inner().into_inner();
    assert_eq!(bytes.len(), HEADER_LEN + 3 * 8 + 3 * 8);
    assert_eq!(&bytes[0..14], b"LUCAM-RECORDER");
    assert_eq!(read_i32(&bytes, 18), 0);
    assert_eq!(read_i32(&bytes, 26), 4);
    assert_eq!(read_i32(&bytes, 30), 2);
    assert_eq!(read_i32(&bytes, 34), 8);
    assert_eq!(read_i32(&bytes, 38), 3);
}

#[test]
fn rejects_wrong_frame_size() {
    let mut rec = mono(4, 2, 8);
    assert!(rec.write_frame(&[0u8; 7], None).is_err());
    assert_eq!(rec.frame_count(), 0);
}

#[test]
fn rgb_frame_len_is_three_planes() {
    let rec = SerRecorder::create(MemoryOutput::new(), 10, 10, SerColor::Rgb, 8, None).unwrap();
    assert_eq!(rec.frame_len(), 300);
}

#[test]
fn cfa_maps_to_bayer_color_id() {
    assert_eq!(SerColor::from_cfa(Some("RGGB")), SerColor::BayerRGGB);
    assert_eq!(SerColor::from_cfa(Some("bggr")), SerColor::BayerBGGR);
    assert_eq!(SerColor::from_cfa(None), SerColor::Mono);
    assert_eq!(SerColor::from_cfa(Some("weird")), SerColor::Mono);
}

#[test]
fn cfa_is_trimmed_and_every_pattern_known() {
    assert_eq!(SerColor::from_cfa(Some(" gbrg\n")), SerColor::BayerGBRG);
    assert_eq!(SerColor::from_cfa(Some("GRBG")), SerColor::BayerGRBG);
    let ids: Vec<i32> = [
        SerColor::Mono,
        SerColor::BayerRGGB,
        SerColor::BayerGRBG,
        SerColor::BayerGBRG,
        SerColor::BayerBGGR,
        SerColor::Rgb,
    ]
    .iter()
    .map(|c| c.color_id())
    .collect();
    assert_eq!(ids, vec![0, 8, 9, 10, 11, 100]);
    assert_eq!(SerColor::Rgb.planes(), 3);
    assert_eq!(SerColor::BayerBGGR.planes(), 1);
}

#[test]
fn wrong_frame_size_is_named() {
    let mut rec = mono(4, 2, 8);
    let err = rec.write_frame(&[0u8; 7], None).unwrap_err();
    assert!(matches!(err, SerError::FrameSize { got: 7, expected: 8 }));
    assert_eq!(err.describe(), "SER frame size 7 != expected 8");
}

#[test]
fn frames_and_times_read_back() {
    let at = |secs: u64| Some(UnixTime { secs, nanos: 500 });
    let mut rec =
        SerRecorder::create(MemoryOutput::new(), 2, 1, SerColor::BayerRGGB, 8, at(10)).unwrap();
    rec.write_frame(&[1, 2], at(20)).unwrap();
    rec.write_frame(&[3, 4], at(30)).unwrap();
    assert_eq!(rec.frame_count(), 2);
    let (_, out) = rec.finalize_inner().unwrap();
    let bytes = out.into_inner().into_inner();
    assert_eq!(read_i32(&bytes, 18), 8);
    assert_eq!(&bytes[HEADER_LEN..HEADER_LEN + 4], &[1, 2, 3, 4]);
    let ticks = |secs: i64| (secs + 11_644_473_600) * 10_000_000 + 5;
    assert_eq!(read_i64(&bytes, 162), ticks(10));
    assert_eq!(read_i64(&bytes, 170), ticks(10));
    assert_eq!(read_i64(&bytes, HEADER_LEN + 4), ticks(20));
    assert_eq!(read_i64(&bytes, HEADER_LEN + 12), ticks(30));
    assert_eq!(bytes.len(), HEADER_LEN + 4 + 16);
}

#[test]
fn filetime_counts_from_1601() {
    assert_eq!(filetime(Some(UnixTime { secs: 0, nanos: 0 })), 116_444_736_000_000_000);
    assert_eq!(filetime(Some(UnixTime { secs: 1, nanos: 999 })), 116_444_736_010_000_009);
    assert_eq!(filetime(None), 0);
}

/// An output that fails at the given call.
struct Failing {
    calls: usize,
    at: usize,
}

impl Failing {
    fn step(&mut self) -> Result<(), OutputError> {
        self.calls += 1;
        if self.calls == self.at {
            Err(OutputError { message: "disk full".to_string() })
        } else {
            Ok(())
        }
    }
}

impl SerOutput for Failing {
    fn write_all(&mut self, _data: &[u8]) -> Result<(), OutputError> {
        self.step()
    }
    fn seek_start(&mut self, _at: usize) -> Result<(), OutputError> {
        self.step()
    }
    fn flush(&mut self) -> Result<(), OutputError> {
        self.step()
    }
}

fn failing(at: usize) -> Failing {
    Failing { calls: 0, at }
}

/// One frame into an output that fails at the given call: what went wrong.
fn run_failing(at: usize) -> SerError {
    let mut rec = match SerRecorder::create(failing(at), 1, 1, SerColor::Mono, 8, None) {
        Ok(rec) => rec,
        Err(e) => return e,
    };
    if let Err(e) = rec.write_frame(&[0], None) {
        assert_eq!(rec.frame_count(), 0);
        return e;
    }
    rec.finalize().err().unwrap()
}

#[test]
fn every_failing_step_is_named() {
    assert_eq!(run_failing(1).describe(), "writing SER header: disk full");
    assert!(matches!(run_failing(1), SerError::Header(_)));
    assert_eq!(run_failing(2).describe(), "writing SER frame: disk full");
    assert!(matches!(run_failing(2), SerError::Frame(_)));
    assert_eq!(run_failing(3).describe(), "writing SER trailer: disk full");
    assert!(matches!(run_failing(3), SerError::Trailer(_)));
    assert_eq!(run_failing(4).describe(), "seeking to SER FrameCount: disk full");
    assert!(matches!(run_failing(4), SerError::Seek(_)));
    assert_eq!(run_failing(5).describe(), "patching SER FrameCount: disk full");
    assert!(matches!(run_failing(5), SerError::Count(_)));
    assert_eq!(run_failing(6).describe(), "flushing SER: disk full");
    assert!(matches!(run_failing(6), SerError::Flush(_)));
}

#[test]
fn memory_output_overwrites_and_pads() {
    let mut out = MemoryOutput::new();
    out.write_all(&[1, 2, 3]).unwrap();
    out.seek_start(1).unwrap();
    out.write_all(&[9]).unwrap();
    out.seek_start(5).unwrap();
    out.write_all(&[7]).unwrap();
    out.flush().unwrap();
    assert_eq!(out.into_inner(), vec![1, 9, 3, 0, 0, 7]);
    let mut far = MemoryOutput::new();
    far.seek_start(usize::MAX).unwrap();
    assert!(far.write_all(&[1]).is_err());
}

#[test]
fn finalize_counts_the_frames() {
    let mut rec = mono(1, 1, 8);
    rec.write_frame(&[5], None).unwrap();
    let (count, out) = rec.finalize().unwrap();
    let file = out.into_inner().into_inner();
    assert_eq!((count, file.len()), (1, 178 + 1 + 8));
    assert_eq!(&file[38..42], &[1, 0, 0, 0]);
    assert_eq!(file[178], 5);
}
