use solar::bus::{Bus, Dir};
use solar::frame::Frame;
use solar::guiding::controller::{
    axis_pulse, pulses_for, Calibration, CalibrationTerms, Correction, DecMode, GuideParams,
};
use solar::guiding::detector::{
    centroid_threshold, ncc_shift, to_gray, Fraction, GuideDetector, GuideMode, Measurement,
    NccPeak, NccWindow,
};
use solar::guiding::{
    apply_correction, finish_calibration, guide_turn, next_sample, record_error,
    start_calibration, CalibrationAction, CalibrationRun, GuideSample, GuideStats, GuideStep,
    SampleLook, HISTORY_CAP,
};
use solar::recorder::MemoryOutput;
use solar::scalar::Scalar;

const HALF: Fraction = Fraction { num: 1, den: 2 };

fn sc(v: f64) -> Scalar {
    Scalar { bits: v.to_bits() }
}

fn val(s: Scalar) -> f64 {
    f64::from_bits(s.bits)
}

fn mag((x, y): (f32, f32)) -> f32 {
    (x * x + y * y).sqrt()
}

/// The calibration from the displacements of a West and a North pulse.
fn from_pulses(west: (f32, f32), north: (f32, f32), millis: f32) -> Option<Calibration> {
    let (a, c) = (west.0 / millis, west.1 / millis);
    let (b, d) = (north.0 / millis, north.1 / millis);
    let scale = mag((a, c)) * mag((b, d));
    let terms = CalibrationTerms {
        west_px: sc(mag(west) as f64),
        north_px: sc(mag(north) as f64),
        m: [sc(a as f64), sc(c as f64), sc(b as f64), sc(d as f64)],
        det: sc((a * d - b * c) as f64),
        scale: sc(scale as f64),
        limit: sc((0.05 * scale) as f64),
    };
    Calibration::from_pulses(&terms, sc(millis as f64))
}

/// The correction of a pixel error: the inverse of the calibration, times the aggressiveness.
fn correction(cal: &Calibration, params: &GuideParams, err: (f32, f32)) -> Correction {
    let m = cal.matrix();
    let [a, c, b, d] = [
        val(m[0]) as f32,
        val(m[1]) as f32,
        val(m[2]) as f32,
        val(m[3]) as f32,
    ];
    let det = a * d - b * c;
    let (ra, dec) = if det == 0.0 {
        (0.0, 0.0)
    } else {
        ((-d * err.0 + b * err.1) / det, (c * err.0 - a * err.1) / det)
    };
    Correction {
        error_px: (sc(err.0 as f64), sc(err.1 as f64)),
        magnitude: sc(mag(err) as f64),
        ra_ms: sc((ra * val(params.ra_aggr) as f32) as f64),
        dec_ms: sc((dec * val(params.dec_aggr) as f32) as f64),
    }
}

fn pulses(cal: &Calibration, params: &GuideParams, err: (f32, f32)) -> Vec<(Dir, f64)> {
    pulses_for(&correction(cal, params, err), params)
        .iter()
        .map(|p| (p.0, val(p.1)))
        .collect()
}

fn full() -> GuideParams {
    GuideParams { ra_aggr: sc(1.0), dec_aggr: sc(1.0), ..Default::default() }
}

#[test]
fn axis_aligned_calibration_corrects_opposite_direction() {
    let cal = from_pulses((10.0, 0.0), (0.0, 10.0), 1000.0).unwrap();
    let pulses = pulses(&cal, &full(), (5.0, 0.0));
    assert_eq!(pulses.len(), 1);
    assert_eq!(pulses[0].0, Dir::East);
    assert!((pulses[0].1 - 500.0).abs() < 1e-3, "got {}", pulses[0].1);
}

#[test]
fn deadband_suppresses_tiny_errors() {
    let cal = from_pulses((10.0, 0.0), (0.0, 10.0), 1000.0).unwrap();
    let params = GuideParams {
        ra_min_move_px: sc(0.5),
        dec_min_move_px: sc(0.5),
        ..Default::default()
    };
    assert!(pulses(&cal, &params, (0.1, 0.2)).is_empty());
}

#[test]
fn pulses_are_clamped_to_max() {
    let cal = from_pulses((10.0, 0.0), (0.0, 10.0), 1000.0).unwrap();
    let params = GuideParams {
        ra_max_pulse_ms: sc(200.0),
        dec_max_pulse_ms: sc(200.0),
        ..full()
    };
    let pulses = pulses(&cal, &params, (100.0, 0.0));
    assert_eq!(pulses.len(), 1);
    assert_eq!(pulses[0], (Dir::East, 200.0));
}

#[test]
fn both_axes_pulse_on_diagonal_error() {
    let cal = from_pulses((10.0, 0.0), (0.0, 10.0), 1000.0).unwrap();
    let pulses = pulses(&cal, &full(), (2.0, -2.0));
    assert_eq!(pulses.len(), 2);
    assert_eq!(pulses[0].0, Dir::East);
    assert_eq!(pulses[1].0, Dir::North);
}

#[test]
fn degenerate_calibration_is_rejected() {
    assert!(from_pulses((0.0, 0.0), (0.0, 10.0), 1000.0).is_none());
    assert!(from_pulses((10.0, 0.0), (8.0, 0.0), 1000.0).is_none());
    assert!(from_pulses((10.0, 0.0), (0.0, 10.0), 0.0).is_none());
}

#[test]
fn calibration_keeps_the_matrix() {
    let cal = from_pulses((10.0, 0.0), (0.0, 10.0), 1000.0).unwrap();
    assert_eq!(cal.matrix(), [sc(0.01f32 as f64), sc(0.0), sc(0.0), sc(0.01f32 as f64)]);
    assert_eq!(Calibration::from_matrix([sc(1.0); 4]).matrix(), [sc(1.0); 4]);
    assert!(from_pulses((f32::NAN, 0.0), (0.0, 10.0), 1000.0).is_none());
    assert!(from_pulses((10.0, 0.0), (0.0, 10.0), f32::INFINITY).is_none());
}

#[test]
fn one_sided_dec_mode_never_pulses_back() {
    let cal = from_pulses((10.0, 0.0), (0.0, 10.0), 1000.0).unwrap();
    let north = GuideParams { dec_mode: DecMode::NorthOnly, ..full() };
    let south = GuideParams { dec_mode: DecMode::SouthOnly, ..full() };
    assert_eq!(pulses(&cal, &north, (0.0, -2.0)), vec![(Dir::North, 200.0)]);
    assert!(pulses(&cal, &north, (0.0, 2.0)).is_empty());
    assert_eq!(pulses(&cal, &south, (0.0, 2.0)), vec![(Dir::South, 200.0)]);
    assert!(pulses(&cal, &south, (0.0, -2.0)).is_empty());
}

#[test]
fn each_axis_has_its_own_deadband_and_limit() {
    let cal = from_pulses((10.0, 0.0), (0.0, 10.0), 1000.0).unwrap();
    let params = GuideParams {
        ra_min_move_px: sc(5.0),
        dec_max_pulse_ms: sc(150.0),
        ..full()
    };
    assert_eq!(pulses(&cal, &params, (2.0, -2.0)), vec![(Dir::North, 150.0)]);
}

#[test]
fn errors_that_are_not_numbers_are_not_corrected() {
    let cal = from_pulses((10.0, 0.0), (0.0, 10.0), 1000.0).unwrap();
    assert!(pulses(&cal, &full(), (f32::NAN, 1.0)).is_empty());
    assert!(pulses(&cal, &full(), (1.0, f32::INFINITY)).is_empty());
}

#[test]
fn sub_millisecond_pulses_are_dropped() {
    let pulse = |ms: f64| axis_pulse(sc(ms), Dir::West, Dir::East, sc(500.0));
    assert_eq!(pulse(0.999), None);
    assert_eq!(pulse(1.0), Some((Dir::West, sc(1.0))));
    assert_eq!(pulse(-3.0), Some((Dir::East, sc(3.0))));
    assert_eq!(pulse(-900.0), Some((Dir::East, sc(500.0))));
}

#[test]
fn centroid_finds_a_bright_square() {
    let (w, h) = (20usize, 20usize);
    let mut gray = vec![0u8; w * h];
    for j in 5..9 {
        for i in 9..13 {
            gray[j * w + i] = 255;
        }
    }
    let c = centroid_threshold(&gray, w, h, HALF).unwrap();
    let (cx, cy) = (c.sum_x as f64 / c.sum_w as f64, c.sum_y as f64 / c.sum_w as f64);
    assert!((cx - 10.5).abs() < 0.01, "cx {cx}");
    assert!((cy - 6.5).abs() < 0.01, "cy {cy}");
}

#[test]
fn centroid_rejects_a_flat_frame() {
    assert!(centroid_threshold(&[42u8; 100], 10, 10, HALF).is_none());
}

#[test]
fn centroid_needs_enough_bright_pixels() {
    let mut gray = vec![0u8; 100];
    for v in gray.iter_mut().take(7) {
        *v = 200;
    }
    assert!(centroid_threshold(&gray, 10, 10, HALF).is_none());
    gray[7] = 200;
    let c = centroid_threshold(&gray, 10, 10, HALF).unwrap();
    assert_eq!((c.sum_w, c.sum_x, c.sum_y), (8 * 200, 28 * 200, 0));
    assert!(centroid_threshold(&gray, 10, 9, HALF).is_none());
}

#[test]
fn centroid_ignores_the_background() {
    let mut gray = vec![0u8; 100];
    for v in gray.iter_mut().skip(40).take(9) {
        *v = 100;
    }
    let raised: Vec<u8> = gray.iter().map(|v| v + 50).collect();
    assert_eq!(
        centroid_threshold(&gray, 10, 10, HALF),
        centroid_threshold(&raised, 10, 10, HALF)
    );
}

/// A smooth, single-peaked Gaussian bump centered at `(cx, cy)`.
fn bump(w: usize, h: usize, cx: f32, cy: f32, sigma: f32) -> Vec<u8> {
    let mut g = vec![0u8; w * h];
    for j in 0..h {
        for i in 0..w {
            let d2 = (i as f32 - cx).powi(2) + (j as f32 - cy).powi(2);
            g[j * w + i] = (255.0 * (-d2 / (2.0 * sigma * sigma)).exp()) as u8;
        }
    }
    g
}

/// The normalized cross-correlation of a patch with the frame at one place.
fn ncc(reference: &[u8], rw: usize, rh: usize, gray: &[u8], w: usize, at: (usize, usize)) -> f32 {
    let n = (rw * rh) as f32;
    let mr = reference.iter().map(|v| *v as f32).sum::<f32>() / n;
    let mut mg = 0.0;
    for j in 0..rh {
        for i in 0..rw {
            mg += gray[(at.1 + j) * w + at.0 + i] as f32;
        }
    }
    mg /= n;
    let (mut num, mut dr, mut dg) = (0.0f32, 0.0f32, 0.0f32);
    for j in 0..rh {
        for i in 0..rw {
            let a = reference[j * rw + i] as f32 - mr;
            let b = gray[(at.1 + j) * w + at.0 + i] as f32 - mg;
            num += a * b;
            dr += a * a;
            dg += b * b;
        }
    }
    if dr <= 0.0 || dg <= 0.0 {
        0.0
    } else {
        num / (dr.sqrt() * dg.sqrt())
    }
}

/// Offset of the parabola through three neighbouring scores.
fn vertex(sides: Option<(Scalar, Scalar)>, mid: Scalar) -> f32 {
    match sides {
        Some((l, r)) => {
            let (l, m, r) = (val(l) as f32, val(mid) as f32, val(r) as f32);
            let den = l - 2.0 * m + r;
            if den.abs() < 1e-6 {
                0.0
            } else {
                (0.5 * (l - r) / den).clamp(-1.0, 1.0)
            }
        }
        None => 0.0,
    }
}

fn shift(
    reference: &[u8],
    size: (usize, usize),
    gray: &[u8],
    w: usize,
    h: usize,
    anchor: (usize, usize),
    search: usize,
) -> Option<(f32, f32)> {
    let window = NccWindow {
        rw: size.0,
        rh: size.1,
        w,
        h,
        ax: anchor.0,
        ay: anchor.1,
        search,
    };
    let mut scores = Vec::new();
    if window.is_inside(reference.len(), gray.len()) {
        let span = 2 * search + 1;
        for k in 0..span * span {
            let at = window.candidate(k);
            scores.push(sc(ncc(reference, size.0, size.1, gray, w, at) as f64));
        }
    }
    let peak: NccPeak = ncc_shift(reference, size, gray, w, h, anchor, search, &scores)?;
    Some((
        peak.dx as f32 + vertex(peak.sides_x, peak.score),
        peak.dy as f32 + vertex(peak.sides_y, peak.score),
    ))
}

#[test]
fn ncc_recovers_an_integer_shift() {
    let (w, h) = (100usize, 100usize);
    let base = bump(w, h, 50.0, 50.0, 6.0);
    let shifted = bump(w, h, 53.0, 48.0, 6.0);
    let (rw, rh) = (32usize, 32usize);
    let (ax, ay) = (34usize, 34usize);
    let mut reference = vec![0u8; rw * rh];
    for j in 0..rh {
        for i in 0..rw {
            reference[j * rw + i] = base[(ay + j) * w + (ax + i)];
        }
    }
    let (dx, dy) = shift(&reference, (rw, rh), &shifted, w, h, (ax, ay), 8).unwrap();
    assert!((dx - 3.0).abs() < 0.5, "dx {dx}");
    assert!((dy + 2.0).abs() < 0.5, "dy {dy}");
}

#[test]
fn ncc_out_of_bounds_is_none() {
    let g = vec![0u8; 100];
    assert!(shift(&[1u8; 16], (4, 4), &g, 10, 10, (0, 0), 8).is_none());
}

#[test]
fn ncc_peak_is_the_first_best_score() {
    let reference = [1u8, 2, 3, 4];
    let gray = vec![0u8; 100];
    let find = |scores: &[Scalar]| ncc_shift(&reference, (2, 2), &gray, 10, 10, (4, 4), 1, scores);
    let mut scores = vec![sc(0.1); 9];
    assert!(find(&scores).is_none());
    scores[5] = sc(0.9);
    scores[7] = sc(0.9);
    let peak = find(&scores).unwrap();
    assert_eq!((peak.dx, peak.dy), (1, 0));
    assert_eq!(peak.sides_x, None);
    assert_eq!(peak.sides_y, Some((sc(0.1), sc(0.1))));
    scores[4] = sc(f64::NAN);
    assert_eq!(find(&scores).unwrap().dx, 1);
    let flat = ncc_shift(&[5u8; 4], (2, 2), &gray, 10, 10, (4, 4), 1, &scores);
    assert!(flat.is_none());
}

#[test]
fn gray_matches_luma() {
    let rgba = vec![255, 0, 0, 255];
    assert_eq!(to_gray(&rgba, 1, 1)[0], 76);
}

#[test]
fn gray_pixels_keep_their_level() {
    let levels = [0u8, 1, 127, 254, 255];
    let frame = Frame::from_raw_stream(&levels, 5, 1, 1).unwrap();
    assert_eq!(to_gray(&frame.rgba, 5, 1), levels.to_vec());
    assert_eq!(to_gray(&frame.rgba, 6, 1)[5], 0);
}

#[test]
fn guide_mode_round_trips() {
    for mode in [GuideMode::Disk, GuideMode::Surface] {
        assert_eq!(GuideMode::from_u8(mode.as_u8()), mode);
    }
    assert_eq!(GuideMode::from_u8(9), GuideMode::Disk);
}

#[test]
fn surface_reference_is_recaptured_on_a_new_generation() {
    let gray: Vec<u8> = (0..200 * 120).map(|i| (i % 251) as u8).collect();
    let frame = Frame::from_raw_stream(&gray, 200, 120, 1).unwrap();
    let mut detector = GuideDetector::default();
    assert!(matches!(
        detector.measure(&frame, GuideMode::Surface, 1),
        Measurement::Correlate(g) if g == gray
    ));
    let patch = detector.reference.as_ref().unwrap();
    assert_eq!((patch.w, patch.h, patch.anchor), (64, 64, (68, 28)));
    assert_eq!(patch.data[0], gray[28 * 200 + 68]);
    assert_eq!(patch.data[64], gray[29 * 200 + 68]);
    let other = Frame::from_raw_stream(&vec![9u8; 200 * 120], 200, 120, 2).unwrap();
    detector.measure(&other, GuideMode::Surface, 1);
    assert_ne!(detector.reference.as_ref().unwrap().data[0], 9);
    detector.measure(&other, GuideMode::Surface, 2);
    assert_eq!(detector.reference.as_ref().unwrap().data[0], 9);
    let small = Frame::from_raw_stream(&vec![9u8; 50 * 50], 50, 50, 3).unwrap();
    assert!(matches!(detector.measure(&small, GuideMode::Surface, 3), Measurement::NoLock));
    assert!(detector.reference.is_none());
}

#[test]
fn disk_mode_measures_the_centroid() {
    let mut gray = vec![0u8; 400];
    for v in gray.iter_mut().take(12) {
        *v = 100;
    }
    let frame = Frame::from_raw_stream(&gray, 20, 20, 1).unwrap();
    let mut detector = GuideDetector::default();
    match detector.measure(&frame, GuideMode::Disk, 0) {
        Measurement::Disk(Some(c)) => assert_eq!(c.sum_x * 2, c.sum_w * 11),
        _ => panic!("no centroid"),
    }
}

fn sample(seq: u64) -> GuideSample {
    GuideSample { x: sc(seq as f64), y: sc(0.0), seq }
}

#[test]
fn only_fresh_samples_count() {
    assert_eq!(next_sample(Some(sample(5)), 4, 0, 10), SampleLook::Fresh(sample(5)));
    assert_eq!(next_sample(Some(sample(5)), 5, 0, 10), SampleLook::Again);
    assert_eq!(next_sample(None, 0, 10, 10), SampleLook::TimedOut);
    assert_eq!(next_sample(Some(sample(6)), 5, 99, 10), SampleLook::Fresh(sample(6)));
}

#[test]
fn calibration_goes_out_and_back() {
    let mut run = CalibrationRun::First;
    let mut dirs = Vec::new();
    let mut end = None;
    for seq in 1..=5 {
        let (next, action) = run.step(Some(sample(seq)));
        run = next;
        match action {
            CalibrationAction::Pulse { dir, after_seq } => {
                assert_eq!(after_seq, seq);
                dirs.push(dir);
            }
            other => end = Some(other),
        }
    }
    assert_eq!(dirs, vec![Dir::West, Dir::East, Dir::North, Dir::South]);
    assert_eq!(
        end,
        Some(CalibrationAction::Conclude {
            start: sample(1),
            west: sample(2),
            back: sample(3),
            north: sample(4)
        })
    );
    assert_eq!(run, CalibrationRun::Over);
}

#[test]
fn calibration_fails_without_a_measurement() {
    assert_eq!(
        CalibrationRun::First.step(None),
        (CalibrationRun::Over, CalibrationAction::Fail)
    );
    let (west, _) = CalibrationRun::First.step(Some(sample(1)));
    assert_eq!(west.step(None).1, CalibrationAction::Fail);
    let south = CalibrationRun::South {
        start: sample(1),
        west: sample(2),
        back: sample(3),
        north: sample(4),
    };
    assert!(matches!(south.step(None).1, CalibrationAction::Conclude { .. }));
}

#[test]
fn calibration_turns_detection_on_and_off() {
    let mut bus = Bus::<MemoryOutput>::new();
    start_calibration(&mut bus, "calibrating".to_string());
    assert!(bus.shared.calibrating && bus.detect_enabled());
    finish_calibration(&mut bus, None, "unused".to_string());
    assert!(!bus.shared.calibrating && !bus.detect_enabled() && !bus.shared.calibrated);
    assert_eq!(
        bus.shared.log.back().unwrap(),
        "calibration failed — check the target is visible and try again"
    );
    start_calibration(&mut bus, "again".to_string());
    let cal = Calibration::from_matrix([sc(1.0), sc(0.0), sc(0.0), sc(1.0)]);
    finish_calibration(&mut bus, Some(cal), "calibrated".to_string());
    assert!(bus.shared.calibrated && bus.shared.guide_calib.is_some());
    assert_eq!(bus.shared.log.back().unwrap(), "calibrated");
}

#[test]
fn guide_turns_skip_without_lock_or_calibration() {
    let mut bus = Bus::<MemoryOutput>::new();
    bus.shared.guide_params.cadence_ms = 7;
    let turn = guide_turn(&bus);
    assert_eq!(turn.pause_ms, 50);
    assert!(matches!(turn.resume(true, Some(sample(1))), GuideStep::Stop));
    assert!(matches!(turn.resume(false, Some(sample(1))), GuideStep::Skip));
    bus.shared.lock_point = Some((sc(1.0), sc(2.0)));
    bus.shared.guide_calib = Some(Calibration::from_matrix([sc(1.0); 4]));
    bus.shared.guide_params.cadence_ms = 400;
    let turn = guide_turn(&bus);
    assert_eq!(turn.pause_ms, 400);
    assert!(matches!(turn.resume(false, None), GuideStep::Skip));
    assert!(matches!(
        turn.resume(false, Some(sample(3))),
        GuideStep::Correct { sample: s, lock, .. } if s == sample(3) && lock == (sc(1.0), sc(2.0))
    ));
}

#[test]
fn history_keeps_the_newest_errors() {
    let mut bus = Bus::<MemoryOutput>::new();
    for i in 0..HISTORY_CAP + 3 {
        record_error(&mut bus, (sc(i as f64), sc(0.0)));
    }
    assert_eq!(bus.shared.guide_history.len(), HISTORY_CAP);
    assert_eq!(bus.shared.guide_history[0].0, sc(3.0));
    assert_eq!(bus.shared.guide_err, Some((sc((HISTORY_CAP + 2) as f64), sc(0.0))));
}

#[test]
fn a_slow_mount_is_corrected_too() {
    let cal = from_pulses((3.0, 0.0), (0.0, 3.0), 10_000.0).unwrap();
    let c = correction(&cal, &full(), (3.0, 0.0));
    assert!((val(c.ra_ms) + 10_000.0).abs() < 0.5);
    assert_eq!(val(c.dec_ms), 0.0);
    assert_eq!(pulses_for(&c, &full())[0].0, Dir::East);
}

#[test]
fn corrections_publish_statistics_and_pulse() {
    let mut bus = Bus::<MemoryOutput>::new();
    let cal = from_pulses((10.0, 0.0), (0.0, 10.0), 1000.0).unwrap();
    let stats = GuideStats { total: sc(1.0), ra: sc(2.0), dec: sc(3.0), peak: sc(4.0) };
    let c = correction(&cal, &full(), (5.0, 0.0));
    let out = apply_correction(&mut bus, stats, &full(), &c);
    assert_eq!(out.len(), 1);
    assert_eq!(out[0].0, Dir::East);
    let s = &bus.shared;
    assert_eq!(
        (s.guide_rms, s.guide_rms_ra, s.guide_rms_dec, s.guide_peak),
        (sc(1.0), sc(2.0), sc(3.0), sc(4.0))
    );
}

#[test]
fn only_pixels_brighter_than_the_threshold_count() {
    let mut gray = vec![0u8; 9];
    gray[0] = 255;
    let lowest = Fraction { num: 0, den: 1 };
    assert!(centroid_threshold(&gray, 3, 3, lowest).is_none());
    let gray = [0u8, 9, 9, 9, 9, 9, 9, 9, 9];
    let c = centroid_threshold(&gray, 3, 3, lowest).unwrap();
    assert_eq!((c.sum_w, c.sum_x, c.sum_y), (8 * 9, 9 * 9, 9 * 9));
}

#[test]
fn centroid_follows_a_mirrored_and_a_transposed_frame() {
    let (w, h) = (7usize, 4usize);
    let gray: Vec<u8> = (0..w * h).map(|k| (k * k % 97) as u8).collect();
    let mirrored: Vec<u8> =
        (0..w * h).map(|k| gray[k / w * w + (w - 1 - k % w)]).collect();
    let transposed: Vec<u8> = (0..w * h).map(|k| gray[k % h * w + k / h]).collect();
    let c = centroid_threshold(&gray, w, h, HALF).unwrap();
    let m = centroid_threshold(&mirrored, w, h, HALF).unwrap();
    let t = centroid_threshold(&transposed, h, w, HALF).unwrap();
    assert_eq!((m.sum_w, m.sum_x, m.sum_y), (c.sum_w, c.sum_w * 6 - c.sum_x, c.sum_y));
    assert_eq!((t.sum_w, t.sum_x, t.sum_y), (c.sum_w, c.sum_y, c.sum_x));
}

#[test]
fn a_guide_cycle_pulses_for_its_correction() {
    let cal = from_pulses((10.0, 0.0), (0.0, 10.0), 1000.0).unwrap();
    let mut bus = Bus::<MemoryOutput>::new();
    bus.shared.guide_params = full();
    bus.shared.lock_point = Some((sc(100.0), sc(50.0)));
    bus.shared.guide_calib = Some(cal);
    let turn = guide_turn(&bus);
    bus.guide_sample = Some(GuideSample { x: sc(102.0), y: sc(50.0), seq: 4 });
    assert!(matches!(turn.resume(true, bus.guide_sample), GuideStep::Stop));
    let (sample, lock, calib) = match turn.resume(false, bus.guide_sample) {
        GuideStep::Correct { sample, lock, calib } => (sample, lock, calib),
        other => panic!("{other:?}"),
    };
    let err = ((val(sample.x) - val(lock.0)) as f32, (val(sample.y) - val(lock.1)) as f32);
    record_error(&mut bus, (sc(err.0 as f64), sc(err.1 as f64)));
    let stats = GuideStats { total: sc(2.0), ra: sc(2.0), dec: sc(0.0), peak: sc(2.0) };
    let fix = correction(&calib, &turn.params, err);
    let out = apply_correction(&mut bus, stats, &turn.params, &fix);
    assert_eq!(out, pulses_for(&fix, &turn.params));
    assert_eq!((out.len(), out[0].0), (1, Dir::East));
    assert!((val(out[0].1) - 200.0).abs() < 1e-2);
    assert_eq!(bus.shared.guide_history.back(), Some(&(sc(2.0), sc(0.0))));
    assert_eq!(bus.shared.lock_point, Some((sc(100.0), sc(50.0))));
}
