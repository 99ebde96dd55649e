//! Stream-based guiding: detect the target on the main video stream and issue timed pulse-guide
//! corrections to keep it locked. The submodules hold the detection and control rules; this root
//! holds the shared [`GuideSample`] type and the rules of the two routines that the worker drives,
//! the automatic calibration and the control loop.

pub mod controller;
pub mod detector;
pub mod intensity;
pub mod symmetry;

use crate::bus::{Bus, Dir, Shared};
use crate::recorder::SerOutput;
use crate::scalar::Scalar;
use controller::{pulses_for, Calibration, Correction, GuideParams};
use std::collections::VecDeque;
use vstd::prelude::*;

verus! {

/// A single target-position measurement produced by the detector, in frame pixels.
#[derive(Clone, Copy, Debug, PartialEq, Eq, Structural)]
pub struct GuideSample {
    pub x: Scalar,
    pub y: Scalar,
    /// Frame sequence number the measurement came from (lets consumers wait for a *fresh* one).
    pub seq: u64,
}

/// Bit pattern of the default calibration-pulse duration, 1500 ms: long enough to move the target
/// measurably at guide rate.
pub const DEFAULT_CALIB_MS_BITS: u64 = 0x4097_7000_0000_0000;

/// How long (ms) to wait for the mount to settle and a fresh frame to arrive after a pulse.
pub const SETTLE_MS: u64 = 800;

/// How long (ms) calibration waits for a measurement.
pub const CALIB_TIMEOUT_MS: u64 = 3000;

/// How long (ms) locking waits for a measurement.
pub const LOCK_TIMEOUT_MS: u64 = 2000;

/// Pause (ms) between two looks for a measurement.
pub const SAMPLE_POLL_MS: u64 = 50;

/// Cap on the guide-error history retained for the graph.
pub const HISTORY_CAP: usize = 600;

/// Shortest control-loop period (ms).
pub const MIN_CADENCE_MS: u64 = 50;

/// What one look for a measurement found.
#[derive(Clone, Copy, Debug, PartialEq, Eq, Structural)]
pub enum SampleLook {
    /// A fresh measurement.
    Fresh(GuideSample),
    /// The deadline has passed.
    TimedOut,
    /// Look again later.
    Again,
}

/// One look for a detector sample newer than `after_seq`. A fresh sample counts even when the
/// deadline has passed.
pub fn next_sample(sample: Option<GuideSample>, after_seq: u64, now_ms: u64, deadline_ms: u64) -> (r:
    SampleLook)
    ensures
        r == (match sample {
            Some(s) if s.seq > after_seq => SampleLook::Fresh(s),
            _ => if now_ms >= deadline_ms {
                SampleLook::TimedOut
            } else {
                SampleLook::Again
            },
        }),
{
    if let Some(s) = sample {
        if s.seq > after_seq {
            return SampleLook::Fresh(s);
        }
    }
    if now_ms >= deadline_ms {
        SampleLook::TimedOut
    } else {
        SampleLook::Again
    }
}

/// Where a calibration run stands: which measurement it waits for, and what was measured so far.
/// The run goes West and back East, then North and back South.
#[derive(Clone, Copy, Debug, PartialEq, Eq, Structural)]
pub enum CalibrationRun {
    /// Before any pulse.
    First,
    /// After the West pulse.
    West { start: GuideSample },
    /// After the East pulse that takes the West one back.
    East { start: GuideSample, west: GuideSample },
    /// After the North pulse.
    North { start: GuideSample, west: GuideSample, back: GuideSample },
    /// After the South pulse that takes the North one back.
    South { start: GuideSample, west: GuideSample, back: GuideSample, north: GuideSample },
    /// Nothing more to do.
    Over,
}

/// What a calibration run does next.
#[derive(Clone, Copy, Debug, PartialEq, Eq, Structural)]
pub enum CalibrationAction {
    /// Pulse in `dir`, let the mount settle, then wait for a sample newer than `after_seq`.
    Pulse { dir: Dir, after_seq: u64 },
    /// Build the matrix: West moved the target from `start` to `west`, North from `back` to
    /// `north`.
    Conclude { start: GuideSample, west: GuideSample, back: GuideSample, north: GuideSample },
    /// A measurement is missing.
    Fail,
}

impl CalibrationRun {
    /// The state and the action that a measurement, or its absence, leads to.
    pub open spec fn next(self, sample: Option<GuideSample>) -> (CalibrationRun, CalibrationAction) {
        match (self, sample) {
            (CalibrationRun::First, Some(s)) => (
                CalibrationRun::West { start: s },
                CalibrationAction::Pulse { dir: Dir::West, after_seq: s.seq },
            ),
            (CalibrationRun::West { start }, Some(s)) => (
                CalibrationRun::East { start, west: s },
                CalibrationAction::Pulse { dir: Dir::East, after_seq: s.seq },
            ),
            (CalibrationRun::East { start, west }, Some(s)) => (
                CalibrationRun::North { start, west, back: s },
                CalibrationAction::Pulse { dir: Dir::North, after_seq: s.seq },
            ),
            (CalibrationRun::North { start, west, back }, Some(s)) => (
                CalibrationRun::South { start, west, back, north: s },
                CalibrationAction::Pulse { dir: Dir::South, after_seq: s.seq },
            ),
            (CalibrationRun::South { start, west, back, north }, _) => (
                CalibrationRun::Over,
                CalibrationAction::Conclude { start, west, back, north },
            ),
            _ => (CalibrationRun::Over, CalibrationAction::Fail),
        }
    }

    /// Take a measurement, or its absence, and say what to do next. The measurement after the last
    /// pulse is not needed.
    pub fn step(self, sample: Option<GuideSample>) -> (r: (CalibrationRun, CalibrationAction))
        ensures
            r == self.next(sample),
    {
        match (self, sample) {
            (CalibrationRun::First, Some(s)) => (
                CalibrationRun::West { start: s },
                CalibrationAction::Pulse { dir: Dir::West, after_seq: s.seq },
            ),
            (CalibrationRun::West { start }, Some(s)) => (
                CalibrationRun::East { start, west: s },
                CalibrationAction::Pulse { dir: Dir::East, after_seq: s.seq },
            ),
            (CalibrationRun::East { start, west }, Some(s)) => (
                CalibrationRun::North { start, west, back: s },
                CalibrationAction::Pulse { dir: Dir::North, after_seq: s.seq },
            ),
            (CalibrationRun::North { start, west, back }, Some(s)) => (
                CalibrationRun::South { start, west, back, north: s },
                CalibrationAction::Pulse { dir: Dir::South, after_seq: s.seq },
            ),
            (CalibrationRun::South { start, west, back, north }, _) => (
                CalibrationRun::Over,
                CalibrationAction::Conclude { start, west, back, north },
            ),
            _ => (CalibrationRun::Over, CalibrationAction::Fail),
        }
    }
}

/// A calibration that gets all its measurements pulses West, East, North and South once each, so
/// that the mount ends near where it began, and concludes from the four measurements that belong
/// together.
pub proof fn law_calibration_goes_out_and_back(
    a: GuideSample,
    b: GuideSample,
    c: GuideSample,
    d: GuideSample,
    last: Option<GuideSample>,
)
    ensures
        ({
            let (r1, a1) = CalibrationRun::First.next(Some(a));
            let (r2, a2) = r1.next(Some(b));
            let (r3, a3) = r2.next(Some(c));
            let (r4, a4) = r3.next(Some(d));
            let (r5, a5) = r4.next(last);
            &&& a1 == (CalibrationAction::Pulse { dir: Dir::West, after_seq: a.seq })
            &&& a2 == (CalibrationAction::Pulse { dir: Dir::East, after_seq: b.seq })
            &&& a3 == (CalibrationAction::Pulse { dir: Dir::North, after_seq: c.seq })
            &&& a4 == (CalibrationAction::Pulse { dir: Dir::South, after_seq: d.seq })
            &&& a5 == (CalibrationAction::Conclude { start: a, west: b, back: c, north: d })
            &&& r5 == CalibrationRun::Over
        }),
{
}

/// The line logged when a calibration fails.
pub open spec fn calibration_failed() -> Seq<char> {
    "calibration failed — check the target is visible and try again"@
}

/// Begin a calibration run: mark it, turn detection on for the measurements, and log `note`.
pub fn start_calibration<W: SerOutput>(bus: &mut Bus<W>, note: String)
    requires
        old(bus).wf(),
    ensures
        final(bus).wf(),
        *final(bus) == (Bus { shared: final(bus).shared, detect_enabled: true, ..*old(bus) }),
        final(bus).shared.is_logged(Shared { calibrating: true, ..old(bus).shared }, note@),
{
    bus.shared.calibrating = true;
    bus.refresh_detect();
    bus.log(note);
}

/// End a calibration run: store a good matrix and log `note`, or log the failure; detection goes
/// back to whatever else asks for it.
pub fn finish_calibration<W: SerOutput>(
    bus: &mut Bus<W>,
    result: Option<Calibration>,
    note: String,
)
    requires
        old(bus).wf(),
    ensures
        final(bus).wf(),
        *final(bus) == (Bus {
            shared: final(bus).shared,
            detect_enabled: final(bus).detect_enabled,
            ..*old(bus)
        }),
        match result {
            Some(cal) => final(bus).shared.is_logged(
                Shared {
                    calibrating: false,
                    guide_calib: Some(cal),
                    calibrated: true,
                    ..old(bus).shared
                },
                note@,
            ),
            None => final(bus).shared.is_logged(
                Shared { calibrating: false, ..old(bus).shared },
                calibration_failed(),
            ),
        },
{
    bus.shared.calibrating = false;
    match result {
        Some(cal) => {
            bus.shared.guide_calib = Some(cal);
            bus.shared.calibrated = true;
            bus.log(note);
        },
        None => {
            bus.log("calibration failed — check the target is visible and try again".to_owned());
        },
    }
    bus.refresh_detect();
}

/// Error statistics over the history window, in mount-frame pixels.
#[derive(Clone, Copy, Debug, PartialEq, Eq, Structural)]
pub struct GuideStats {
    /// RMS of the combined error magnitude.
    pub total: Scalar,
    /// RMS of the RA (x) component.
    pub ra: Scalar,
    /// RMS of the DEC (y) component.
    pub dec: Scalar,
    /// Largest single error magnitude in the window.
    pub peak: Scalar,
}

/// One turn of the control loop, as read before its pause.
#[derive(Clone, Copy, Debug)]
pub struct GuideTurn {
    pub params: GuideParams,
    pub lock: Option<(Scalar, Scalar)>,
    pub calib: Option<Calibration>,
    /// How long to pause (ms).
    pub pause_ms: u64,
}

/// What a turn of the control loop comes to after its pause.
#[derive(Clone, Copy, Debug)]
pub enum GuideStep {
    /// The loop was told to stop.
    Stop,
    /// No lock point, no calibration or no measurement: nothing to correct.
    Skip,
    /// Correct the error of this measurement against the lock point.
    Correct { sample: GuideSample, lock: (Scalar, Scalar), calib: Calibration },
}

/// What the next turn of the control loop works with.
pub open spec fn turn_of<W: SerOutput>(bus: Bus<W>) -> GuideTurn {
    GuideTurn {
        params: bus.shared.guide_params,
        lock: bus.shared.lock_point,
        calib: bus.shared.guide_calib,
        pause_ms: if bus.shared.guide_params.cadence_ms < MIN_CADENCE_MS {
            MIN_CADENCE_MS
        } else {
            bus.shared.guide_params.cadence_ms
        },
    }
}

/// Read what the next turn of the control loop works with.
pub fn guide_turn<W: SerOutput>(bus: &Bus<W>) -> (t: GuideTurn)
    ensures
        t == turn_of(*bus),
{
    let params: GuideParams = bus.shared.guide_params;
    let pause_ms: u64 = if params.cadence_ms < MIN_CADENCE_MS {
        MIN_CADENCE_MS
    } else {
        params.cadence_ms
    };
    GuideTurn { params, lock: bus.shared.lock_point, calib: bus.shared.guide_calib, pause_ms }
}

impl GuideTurn {
    /// What the turn comes to after the pause.
    pub open spec fn step(&self, stop: bool, sample: Option<GuideSample>) -> GuideStep {
        if stop {
            GuideStep::Stop
        } else {
            match (self.lock, self.calib, sample) {
                (Some(lock), Some(calib), Some(sample)) => GuideStep::Correct {
                    sample,
                    lock,
                    calib,
                },
                _ => GuideStep::Skip,
            }
        }
    }

    /// After the pause: stop, skip, or correct the newest measurement.
    pub fn resume(&self, stop: bool, sample: Option<GuideSample>) -> (s: GuideStep)
        ensures
            s == self.step(stop, sample),
    {
        if stop {
            return GuideStep::Stop;
        }
        match (self.lock, self.calib, sample) {
            (Some(lock), Some(calib), Some(sample)) => GuideStep::Correct { sample, lock, calib },
            _ => GuideStep::Skip,
        }
    }
}

/// An error history after one more error: the newest [`HISTORY_CAP`] stay.
pub open spec fn remembered(history: Seq<(Scalar, Scalar)>, err: (Scalar, Scalar)) -> Seq<
    (Scalar, Scalar),
> {
    let all = history.push(err);
    if all.len() > HISTORY_CAP {
        all.subrange(all.len() - HISTORY_CAP, all.len() as int)
    } else {
        all
    }
}

/// Add an error to a history, dropping the oldest beyond the cap.
pub fn remember(history: &mut VecDeque<(Scalar, Scalar)>, err: (Scalar, Scalar))
    requires
        old(history)@.len() <= HISTORY_CAP,
    ensures
        final(history)@ == remembered(old(history)@, err),
        final(history)@.len() <= HISTORY_CAP,
{
    history.push_back(err);
    if history.len() > HISTORY_CAP {
        let _ = history.pop_front();
    }
    assert(history@ =~= remembered(old(history)@, err));
}

/// A mount-frame error was published: it is the newest error and has joined the history.
pub open spec fn error_recorded<W: SerOutput>(
    before: Bus<W>,
    after: Bus<W>,
    err: (Scalar, Scalar),
) -> bool {
    &&& after == (Bus {
        shared: Shared {
            guide_err: Some(err),
            guide_history: after.shared.guide_history,
            ..before.shared
        },
        ..before
    })
    &&& after.shared.guide_history@ == remembered(before.shared.guide_history@, err)
}

/// The bus with the statistics of the history published.
pub open spec fn with_stats<W: SerOutput>(b: Bus<W>, stats: GuideStats) -> Bus<W> {
    Bus {
        shared: Shared {
            guide_rms: stats.total,
            guide_rms_ra: stats.ra,
            guide_rms_dec: stats.dec,
            guide_peak: stats.peak,
            ..b.shared
        },
        ..b
    }
}

/// Publish a mount-frame error for the graph: it becomes the newest error and joins the history.
pub fn record_error<W: SerOutput>(bus: &mut Bus<W>, err_mount: (Scalar, Scalar))
    requires
        old(bus).shared.guide_history@.len() <= HISTORY_CAP,
    ensures
        error_recorded(*old(bus), *final(bus), err_mount),
        final(bus).shared.guide_history@.len() <= HISTORY_CAP,
{
    bus.shared.guide_err = Some(err_mount);
    remember(&mut bus.shared.guide_history, err_mount);
}

/// Publish the statistics of the history and return the pulses to issue for a correction.
pub fn apply_correction<W: SerOutput>(
    bus: &mut Bus<W>,
    stats: GuideStats,
    params: &GuideParams,
    correction: &Correction,
) -> (pulses: Vec<(Dir, Scalar)>)
    ensures
        *final(bus) == with_stats(*old(bus), stats),
        pulses@ == controller::pulses_of(*correction, *params),
{
    bus.shared.guide_rms = stats.total;
    bus.shared.guide_rms_ra = stats.ra;
    bus.shared.guide_rms_dec = stats.dec;
    bus.shared.guide_peak = stats.peak;
    pulses_for(correction, params)
}

/// One cycle of the control loop. It reads its turn at `read`; after the pause, at `resumed`, it
/// takes the newest measurement. Where there is something to correct it publishes the error `err`
/// and the statistics, and issues the pulses for the correction; else it does nothing.
pub open spec fn guide_cycle<W: SerOutput>(
    read: Bus<W>,
    resumed: Bus<W>,
    stop: bool,
    err: (Scalar, Scalar),
    stats: GuideStats,
    correction: Correction,
    after: Bus<W>,
    pulses: Seq<(Dir, Scalar)>,
) -> bool {
    if turn_of(read).step(stop, resumed.guide_sample) is Correct {
        &&& exists|mid: Bus<W>| #[trigger]
            error_recorded(resumed, mid, err) && after == with_stats(mid, stats)
        &&& pulses == controller::pulses_of(correction, turn_of(read).params)
    } else {
        after == resumed && pulses.len() == 0
    }
}

/// A cycle pulses only with a lock point, a calibration and a measurement at hand and no request to
/// stop: then exactly the pulses of its correction, in their order. It leaves the lock point, the
/// calibration and the parameters as they are, and keeps the history within its cap with the newest
/// error last.
pub proof fn law_guide_cycle<W: SerOutput>(
    read: Bus<W>,
    resumed: Bus<W>,
    stop: bool,
    err: (Scalar, Scalar),
    stats: GuideStats,
    correction: Correction,
    after: Bus<W>,
    pulses: Seq<(Dir, Scalar)>,
)
    requires
        resumed.wf(),
        guide_cycle(read, resumed, stop, err, stats, correction, after, pulses),
    ensures
        after.wf(),
        turn_of(after) == turn_of(resumed),
        after.shared.guide_history@.len() <= HISTORY_CAP,
        ({
            let due = !stop && read.shared.lock_point is Some && read.shared.guide_calib is Some
                && resumed.guide_sample is Some;
            &&& due ==> {
                &&& turn_of(read).step(stop, resumed.guide_sample) == (GuideStep::Correct {
                    sample: resumed.guide_sample->0,
                    lock: read.shared.lock_point->0,
                    calib: read.shared.guide_calib->0,
                })
                &&& pulses == controller::pulses_of(correction, read.shared.guide_params)
                &&& after.shared.guide_err == Some(err)
                &&& after.shared.guide_history@.len() > 0
                &&& after.shared.guide_history@.last() == err
            }
            &&& !due ==> pulses.len() == 0 && after == resumed
        }),
{
    if turn_of(read).step(stop, resumed.guide_sample) is Correct {
        let mid = choose|mid: Bus<W>| #[trigger]
            error_recorded(resumed, mid, err) && after == with_stats(mid, stats);
        assert(after.shared.guide_history@ == remembered(resumed.shared.guide_history@, err));
    }
}

/// A calibration whose target is lost on the way fails, except behind the last pulse, which only
/// leads back; a run that is over stays over.
pub proof fn law_lost_target_fails_the_calibration(
    run: CalibrationRun,
    sample: Option<GuideSample>,
)
    ensures
        !(run is South) && (sample is None || run is Over) ==> run.next(sample) == (
            CalibrationRun::Over,
            CalibrationAction::Fail,
        ),
        run is South ==> run.next(sample) == run.next(None),
        run.next(sample).1 is Conclude <==> run is South,
        run.next(sample).1 is Pulse ==> sample is Some && run.next(sample).1->after_seq
            == sample->0.seq,
{
}

/// The control loop pauses as long as asked for, but at least 50 ms, and works with the lock point,
/// calibration and parameters that are shared at that moment.
pub proof fn law_loop_reads_what_is_shared<W: SerOutput>(b: Bus<W>)
    ensures
        turn_of(b).pause_ms >= 50,
        b.shared.guide_params.cadence_ms >= 50 ==> turn_of(b).pause_ms
            == b.shared.guide_params.cadence_ms,
        b.shared.guide_params.cadence_ms < 50 ==> turn_of(b).pause_ms == 50,
        turn_of(b).params == b.shared.guide_params,
        turn_of(b).lock == b.shared.lock_point,
        turn_of(b).calib == b.shared.guide_calib,
{
}

/// The graph keeps the newest 600 errors in their order: a new one goes to the end, and only where
/// there are already 600 does the oldest leave.
pub proof fn law_history_keeps_the_newest(
    history: Seq<(Scalar, Scalar)>,
    err: (Scalar, Scalar),
    i: int,
)
    requires
        history.len() <= 600,
    ensures
        remembered(history, err).last() == err,
        history.len() < 600 ==> remembered(history, err) == history.push(err),
        history.len() == 600 ==> remembered(history, err).len() == 600 && (0 <= i < 599
            ==> remembered(history, err)[i] == history[i + 1]),
{
    if history.len() < 600 {
        assert(remembered(history, err) =~= history.push(err));
    }
}

/// A guide cycle publishes each statistic under its own name, and leaves everything but the error,
/// its history and the statistics as it was.
pub proof fn law_statistics_keep_their_names<W: SerOutput>(b: Bus<W>, stats: GuideStats)
    ensures
        ({
            let s = with_stats(b, stats).shared;
            &&& s.guide_rms == stats.total
            &&& s.guide_rms_ra == stats.ra
            &&& s.guide_rms_dec == stats.dec
            &&& s.guide_peak == stats.peak
            &&& s.guide_err == b.shared.guide_err
            &&& s.guide_history == b.shared.guide_history
            &&& s.lock_point == b.shared.lock_point
            &&& s.guide_calib == b.shared.guide_calib
            &&& s.guiding == b.shared.guiding
            &&& with_stats(b, stats).recorder == b.recorder
            &&& with_stats(b, stats).guide_sample == b.guide_sample
        }),
{
}

/// The default calibration pulse lasts 1500 ms.
pub proof fn law_default_calibration_pulse()
    ensures
        DEFAULT_CALIB_MS_BITS == 0x4097_7000_0000_0000,
        SETTLE_MS == 800,
        CALIB_TIMEOUT_MS == 3000,
        LOCK_TIMEOUT_MS == 2000,
        SAMPLE_POLL_MS == 50,
{
}

/// A failed calibration says what to look at.
pub proof fn law_failed_calibration_says_so()
    ensures
        calibration_failed() == "calibration failed — check the target is visible and try again"@,
{
}

/// A cycle that corrects records the error that it was given, behind those before it, and one that
/// does not leaves all as it was.
pub proof fn law_errors_are_recorded_in_order<W: SerOutput>(
    before: Bus<W>,
    after: Bus<W>,
    err: (Scalar, Scalar),
)
    requires
        error_recorded(before, after, err),
        before.shared.guide_history@.len() < 600,
    ensures
        after.shared.guide_err == Some(err),
        after.shared.guide_history@ == before.shared.guide_history@.push(err),
        after.shared.lock_point == before.shared.lock_point,
        after.shared.guide_calib == before.shared.guide_calib,
        after.shared.guide_rms == before.shared.guide_rms,
        after.guide_sample == before.guide_sample,
        after.recorder == before.recorder,
{
    law_history_keeps_the_newest(before.shared.guide_history@, err, 0);
}

} // verus!
