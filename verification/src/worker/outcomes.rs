//! What the worker does when a device or the machine has answered a single task.

use crate::bus;
use crate::bus::{Bus, CameraSwitch, PickerView, Shared};
use crate::guiding::GuideSample;
use crate::recorder::SerOutput;
use crate::scalar::Scalar;
use crate::text;
use crate::worker::commands;
use crate::worker::commands::Worker;
use crate::worker::replies;
use crate::worker::replies::{note, SwitchReading};
use vstd::prelude::*;

verus! {

/// The line logged for a failed task.
pub open spec fn error_note(e: Seq<char>) -> Seq<char> {
    "error: "@ + e
}

fn fail<W: SerOutput>(bus: &mut Bus<W>, e: String)
    requires
        old(bus).wf(),
    ensures
        final(bus).wf(),
        commands::said(*old(bus), *final(bus), error_note(e@)),
{
    bus.log("error: ".to_owned().concat(e.as_str()));
}

/// A task that publishes nothing by itself was done, or failed: a failure is logged.
pub fn done<W: SerOutput>(bus: &mut Bus<W>, outcome: Result<(), String>)
    requires
        old(bus).wf(),
    ensures
        final(bus).wf(),
        match outcome {
            Ok(_) => *final(bus) == *old(bus),
            Err(e) => commands::said(*old(bus), *final(bus), error_note(e@)),
        },
{
    match outcome {
        Ok(_) => {},
        Err(e) => fail(bus, e),
    }
}

/// The stream was started, or could not be. `limit` describes the driver's preview-rate cap, where
/// it has one.
pub fn stream_started<W: SerOutput>(bus: &mut Bus<W>, outcome: Result<Option<String>, String>)
    requires
        old(bus).wf(),
    ensures
        final(bus).wf(),
        match outcome {
            Ok(limit) => replies::noted(
                Bus { shared: Shared { streaming: true, ..old(bus).shared }, ..*old(bus) },
                *final(bus),
                match limit {
                    Some(l) => seq!["video stream on"@, l@],
                    None => seq!["video stream on"@],
                },
            ),
            Err(e) => commands::said(*old(bus), *final(bus), error_note(e@)),
        },
{
    match outcome {
        Ok(limit) => {
            let ghost b = Bus { shared: Shared { streaming: true, ..bus.shared }, ..*bus };
            bus.shared.streaming = true;
            bus.log("video stream on".to_owned());
            proof {
                commands::lemma_log_one(b.shared.lines(), "video stream on"@);
            }
            if let Some(l) = limit {
                proof {
                    commands::lemma_log_one_more(
                        b.shared.lines(),
                        seq!["video stream on"@],
                        l@,
                    );
                    assert(seq!["video stream on"@].push(l@) =~= seq!["video stream on"@, l@]);
                }
                bus.log(l);
            }
        },
        Err(e) => fail(bus, e),
    }
}

/// The stream was stopped, or could not be.
pub fn stream_stopped<W: SerOutput>(bus: &mut Bus<W>, outcome: Result<(), String>)
    requires
        old(bus).wf(),
    ensures
        final(bus).wf(),
        match outcome {
            Ok(_) => commands::said(
                Bus {
                    shared: Shared { streaming: false, fps: Scalar::zero(), ..old(bus).shared },
                    ..*old(bus)
                },
                *final(bus),
                "video stream off"@,
            ),
            Err(e) => commands::said(*old(bus), *final(bus), error_note(e@)),
        },
{
    match outcome {
        Ok(_) => {
            bus.shared.streaming = false;
            bus.shared.fps = Scalar::new_zero();
            bus.log("video stream off".to_owned());
        },
        Err(e) => fail(bus, e),
    }
}

/// The gain was set, or could not be. `readback` says what the driver holds now.
pub fn gain_set<W: SerOutput>(bus: &mut Bus<W>, gain: Scalar, outcome: Result<String, String>)
    requires
        old(bus).wf(),
    ensures
        final(bus).wf(),
        match outcome {
            Ok(readback) => commands::said(
                Bus { shared: Shared { gain, ..old(bus).shared }, ..*old(bus) },
                *final(bus),
                readback@,
            ),
            Err(e) => commands::said(*old(bus), *final(bus), error_note(e@)),
        },
{
    match outcome {
        Ok(readback) => {
            bus.shared.gain = gain;
            bus.log(readback);
        },
        Err(e) => fail(bus, e),
    }
}

/// What follows the attempt to set the streaming exposure.
#[derive(Clone, Copy, Debug, PartialEq, Eq, Structural)]
pub enum ExposureStep {
    /// The driver took it; it applies a new streaming exposure only on a stream (re)start, so the
    /// running stream is bounced.
    Bounce,
    /// The driver took it, and no stream runs.
    Keep,
    /// The camera has no separate streaming exposure: set the still one.
    Still,
}

/// Decide what follows the attempt to set the streaming exposure. The still exposure is only set
/// where there is no streaming one: while streaming it would trigger a one-off still capture.
pub fn exposure_step(streamed: bool, streaming: bool) -> (s: ExposureStep)
    ensures
        s == (if !streamed {
            ExposureStep::Still
        } else if streaming {
            ExposureStep::Bounce
        } else {
            ExposureStep::Keep
        }),
{
    if !streamed {
        ExposureStep::Still
    } else if streaming {
        ExposureStep::Bounce
    } else {
        ExposureStep::Keep
    }
}

/// The property, the element and the label of the exposure that is read back.
pub fn exposure_readback(streamed: bool) -> (r: (&'static str, &'static str, &'static str))
    ensures
        streamed ==> r.0@ == "STREAMING_EXPOSURE"@ && r.1@ == "STREAMING_EXPOSURE_VALUE"@ && r.2@
            == "streaming exposure"@,
        !streamed ==> r.0@ == "CCD_EXPOSURE"@ && r.1@ == "CCD_EXPOSURE_VALUE"@ && r.2@
            == "exposure"@,
{
    if streamed {
        ("STREAMING_EXPOSURE", "STREAMING_EXPOSURE_VALUE", "streaming exposure")
    } else {
        ("CCD_EXPOSURE", "CCD_EXPOSURE_VALUE", "exposure")
    }
}

/// The exposure was set, or could not be. `restart` tells why a bounced stream could not be
/// restarted; `readback` says what the driver holds now.
pub fn exposure_set<W: SerOutput>(
    bus: &mut Bus<W>,
    exposure: Scalar,
    restart: Option<String>,
    outcome: Result<String, String>,
)
    requires
        old(bus).wf(),
    ensures
        final(bus).wf(),
        match outcome {
            Ok(readback) => replies::noted(
                Bus { shared: Shared { exposure, ..old(bus).shared }, ..*old(bus) },
                *final(bus),
                restart_notes(restart, restart_exposure()).push(readback@),
            ),
            Err(e) => replies::noted(
                *old(bus),
                *final(bus),
                restart_notes(restart, restart_exposure()).push(error_note(e@)),
            ),
        },
{
    let ghost b0 = *bus;
    let ghost first = restart_notes(restart, restart_exposure());
    say_restart(bus, restart, "restarting stream after exposure change failed: ");
    match outcome {
        Ok(readback) => {
            bus.shared.exposure = exposure;
            let ghost b1 = Bus { shared: Shared { exposure, ..b0.shared }, ..b0 };
            note(bus, Ghost(b1), Ghost(first), readback);
        },
        Err(e) => {
            note(bus, Ghost(b0), Ghost(first), "error: ".to_owned().concat(e.as_str()));
        },
    }
}

/// How the failure to restart a stream after an exposure change is worded.
pub open spec fn restart_exposure() -> Seq<char> {
    "restarting stream after exposure change failed: "@
}

/// How the failure to restart a stream after a region change is worded.
pub open spec fn restart_roi() -> Seq<char> {
    "restarting stream after ROI change failed: "@
}

/// The line, if any, for a stream that could not be restarted.
pub open spec fn restart_notes(e: Option<String>, words: Seq<char>) -> Seq<Seq<char>> {
    match e {
        Some(e) => seq![words + e@],
        None => Seq::empty(),
    }
}

/// Log that a stream could not be restarted, where it could not.
fn say_restart<W: SerOutput>(bus: &mut Bus<W>, restart: Option<String>, words: &str)
    requires
        old(bus).wf(),
    ensures
        final(bus).wf(),
        replies::noted(*old(bus), *final(bus), restart_notes(restart, words@)),
{
    match restart {
        Some(e) => {
            proof {
                commands::lemma_log_one(bus.shared.lines(), words@ + e@);
            }
            bus.log(words.to_owned().concat(e.as_str()));
        },
        None => {},
    }
}

/// The slew rate was set, or could not be.
pub fn slew_rate_set<W: SerOutput>(bus: &mut Bus<W>, idx: usize, outcome: Result<(), String>)
    requires
        old(bus).wf(),
    ensures
        final(bus).wf(),
        match outcome {
            Ok(_) => *final(bus) == (Bus {
                shared: Shared { slew_rate_idx: idx, ..old(bus).shared },
                ..*old(bus)
            }),
            Err(e) => commands::said(*old(bus), *final(bus), error_note(e@)),
        },
{
    match outcome {
        Ok(_) => {
            bus.shared.slew_rate_idx = idx;
        },
        Err(e) => fail(bus, e),
    }
}

/// The tracking mode was set, or could not be.
pub fn track_mode_set<W: SerOutput>(bus: &mut Bus<W>, idx: usize, outcome: Result<(), String>)
    requires
        old(bus).wf(),
    ensures
        final(bus).wf(),
        match outcome {
            Ok(_) => *final(bus) == (Bus {
                shared: Shared { track_mode_idx: idx, ..old(bus).shared },
                ..*old(bus)
            }),
            Err(e) => commands::said(*old(bus), *final(bus), error_note(e@)),
        },
{
    match outcome {
        Ok(_) => {
            bus.shared.track_mode_idx = idx;
        },
        Err(e) => fail(bus, e),
    }
}

/// Tracking was switched, or could not be.
pub fn tracking_set<W: SerOutput>(bus: &mut Bus<W>, on: bool, outcome: Result<(), String>)
    requires
        old(bus).wf(),
    ensures
        final(bus).wf(),
        match outcome {
            Ok(_) => *final(bus) == (Bus {
                shared: Shared { tracking: on, ..old(bus).shared },
                ..*old(bus)
            }),
            Err(e) => commands::said(*old(bus), *final(bus), error_note(e@)),
        },
{
    match outcome {
        Ok(_) => {
            bus.shared.tracking = on;
        },
        Err(e) => fail(bus, e),
    }
}

/// Binning was set, or could not be.
pub fn binning_set<W: SerOutput>(bus: &mut Bus<W>, bin: u32, outcome: Result<(), String>)
    requires
        old(bus).wf(),
    ensures
        final(bus).wf(),
        match outcome {
            Ok(_) => *final(bus) == (Bus {
                shared: Shared { binning: bin, ..old(bus).shared },
                ..*old(bus)
            }),
            Err(e) => commands::said(*old(bus), *final(bus), error_note(e@)),
        },
{
    match outcome {
        Ok(_) => {
            bus.shared.binning = bin;
        },
        Err(e) => fail(bus, e),
    }
}

/// The current frame was saved, or could not be.
pub fn captured<W: SerOutput>(bus: &mut Bus<W>, outcome: Result<String, String>)
    requires
        old(bus).wf(),
    ensures
        final(bus).wf(),
        match outcome {
            Ok(path) => commands::said(
                Bus {
                    shared: Shared { last_capture: Some(path), ..old(bus).shared },
                    ..*old(bus)
                },
                *final(bus),
                "captured "@ + path@,
            ),
            Err(e) => commands::said(*old(bus), *final(bus), error_note(e@)),
        },
{
    match outcome {
        Ok(path) => {
            let msg: String = "captured ".to_owned().concat(path.as_str());
            bus.shared.last_capture = Some(path);
            bus.log(msg);
        },
        Err(e) => fail(bus, e),
    }
}

/// A step of a region change at the camera.
#[derive(Clone, Copy, Debug, PartialEq, Eq, Structural)]
pub enum RoiStep {
    /// Stop the stream: changing the region while streaming is unreliable across drivers.
    Stop,
    /// Set the region.
    Apply,
    /// Read back the region that the driver actually applied, and have frames decoded at its size
    /// (`roi_applied`): it may snap the size to hardware alignment.
    ReadBack,
    /// Start the stream again.
    Restart,
    /// Nothing more to do.
    Report,
}

/// The first step of a region change.
pub open spec fn first_step(streaming: bool) -> RoiStep {
    if streaming {
        RoiStep::Stop
    } else {
        RoiStep::Apply
    }
}

/// The step after another one, which did or did not succeed. A stream that could not be stopped
/// ends the change; whatever else fails, a stopped stream is started again.
pub open spec fn step_after(step: RoiStep, done: bool, streaming: bool) -> RoiStep {
    match step {
        RoiStep::Stop => if done {
            RoiStep::Apply
        } else {
            RoiStep::Report
        },
        RoiStep::Apply => RoiStep::ReadBack,
        RoiStep::ReadBack => if streaming {
            RoiStep::Restart
        } else {
            RoiStep::Report
        },
        RoiStep::Restart | RoiStep::Report => RoiStep::Report,
    }
}

/// The first step of a region change.
pub fn roi_begin(streaming: bool) -> (s: RoiStep)
    ensures
        s == first_step(streaming),
{
    if streaming {
        RoiStep::Stop
    } else {
        RoiStep::Apply
    }
}

impl RoiStep {
    /// The step after this one, which did or did not succeed.
    pub fn next(self, done: bool, streaming: bool) -> (s: RoiStep)
        ensures
            s == step_after(self, done, streaming),
    {
        match self {
            RoiStep::Stop => if done {
                RoiStep::Apply
            } else {
                RoiStep::Report
            },
            RoiStep::Apply => RoiStep::ReadBack,
            RoiStep::ReadBack => if streaming {
                RoiStep::Restart
            } else {
                RoiStep::Report
            },
            _ => RoiStep::Report,
        }
    }
}

/// A stream that was stopped for a region change is not left off: even if the change failed, the
/// stream is started again before the change is reported.
pub proof fn law_stopped_stream_is_restarted(set_done: bool, read_done: bool)
    ensures
        ({
            let set = step_after(first_step(true), true, true);
            let read = step_after(set, set_done, true);
            let restart = step_after(read, read_done, true);
            set == RoiStep::Apply && read == RoiStep::ReadBack && restart == RoiStep::Restart
        }),
{
}

/// The stream is not started again before the applied region was read back, so its first frames are
/// already decoded at the size that the driver sends.
pub proof fn law_restart_follows_the_read_back(step: RoiStep, done: bool, streaming: bool)
    ensures
        step_after(step, done, streaming) == RoiStep::Restart ==> step == RoiStep::ReadBack
            && streaming,
        first_step(streaming) != RoiStep::Restart,
{
}

/// What a region change came to at the camera.
pub struct RoiOutcome {
    /// Why the running stream could not be stopped first; then nothing else was tried.
    pub stop: Result<(), String>,
    /// Why the region could not be set.
    pub set: Result<(), String>,
    /// The region that the driver reports afterwards, where it is readable.
    pub applied: Option<(u32, u32, u32, u32)>,
    /// Why the stream could not be restarted.
    pub restart: Option<String>,
}

/// The region in force after a change that asked for `asked`: the one that the driver reports, or
/// the one that was asked for where it reports none.
pub open spec fn region(
    asked: (u32, u32, u32, u32),
    applied: Option<(u32, u32, u32, u32)>,
) -> (u32, u32, u32, u32) {
    match applied {
        Some(r) => r,
        None => asked,
    }
}

/// The region was read back. The driver may snap the requested size to hardware alignment, so the
/// size it reports governs the decoding of frames, even where setting the region failed.
pub fn roi_applied<W: SerOutput>(
    bus: &mut Bus<W>,
    asked: (u32, u32, u32, u32),
    applied: Option<(u32, u32, u32, u32)>,
)
    ensures
        *final(bus) == (Bus {
            frame_w: region(asked, applied).2,
            frame_h: region(asked, applied).3,
            ..*old(bus)
        }),
{
    match applied {
        Some(r) => bus.set_stream_geometry(r.2, r.3),
        None => bus.set_stream_geometry(asked.2, asked.3),
    }
}

/// The line logged for a region change.
pub open spec fn roi_note(asked: (u32, u32, u32, u32), applied: (u32, u32, u32, u32)) -> Seq<char> {
    let at = " at ("@ + text::decimal(applied.0 as nat) + ","@ + text::decimal(applied.1 as nat)
        + ")"@;
    let size = text::decimal(applied.2 as nat) + "×"@ + text::decimal(applied.3 as nat);
    if (applied.2, applied.3) != (asked.2, asked.3) {
        "ROI requested "@ + text::decimal(asked.2 as nat) + "×"@ + text::decimal(asked.3 as nat)
            + ", driver applied "@ + size + at
    } else {
        "ROI set to "@ + size + at
    }
}

fn roi_text(asked: (u32, u32, u32, u32), applied: (u32, u32, u32, u32)) -> (s: String)
    ensures
        s@ == roi_note(asked, applied),
{
    let size: String = text::number(applied.2 as u64).concat("×").concat(
        text::number(applied.3 as u64).as_str(),
    );
    let at: String = " at (".to_owned().concat(text::number(applied.0 as u64).as_str()).concat(
        ",",
    ).concat(text::number(applied.1 as u64).as_str()).concat(")");
    if applied.2 != asked.2 || applied.3 != asked.3 {
        "ROI requested ".to_owned().concat(text::number(asked.2 as u64).as_str()).concat(
            "×",
        ).concat(text::number(asked.3 as u64).as_str()).concat(", driver applied ").concat(
            size.as_str(),
        ).concat(at.as_str())
    } else {
        "ROI set to ".to_owned().concat(size.as_str()).concat(at.as_str())
    }
}

/// The readout region was changed, or could not be: the region in force is published only on
/// success. The size that frames are decoded at was stored when the region was read back, and what
/// the decoder has made of it since stays.
pub fn roi_set<W: SerOutput>(
    bus: &mut Bus<W>,
    asked: (u32, u32, u32, u32),
    outcome: RoiOutcome,
)
    requires
        old(bus).wf(),
    ensures
        final(bus).wf(),
        ({
            let r = region(asked, outcome.applied);
            let b = *old(bus);
            let restart = restart_notes(outcome.restart, restart_roi());
            match (outcome.stop, outcome.set) {
                (Err(e), _) => commands::said(b, *final(bus), error_note(e@)),
                (Ok(_), Err(e)) => replies::noted(
                    b,
                    *final(bus),
                    restart.push(error_note(e@)),
                ),
                (Ok(_), Ok(_)) => replies::noted(
                    Bus { shared: Shared { roi: r, ..b.shared }, ..b },
                    *final(bus),
                    restart.push(roi_note(asked, r)),
                ),
            }
        }),
{
    match outcome.stop {
        Err(e) => {
            fail(bus, e);
            return;
        },
        Ok(_) => {},
    }
    let applied: (u32, u32, u32, u32) = match outcome.applied {
        Some(r) => r,
        None => asked,
    };
    let ghost b0 = *bus;
    let ghost first = restart_notes(outcome.restart, restart_roi());
    say_restart(bus, outcome.restart, "restarting stream after ROI change failed: ");
    match outcome.set {
        Ok(_) => {
            bus.shared.roi = applied;
            let ghost b1 = Bus { shared: Shared { roi: applied, ..b0.shared }, ..b0 };
            note(bus, Ghost(b1), Ghost(first), roi_text(asked, applied));
        },
        Err(e) => {
            note(bus, Ghost(b0), Ghost(first), "error: ".to_owned().concat(e.as_str()));
        },
    }
}

/// Picker `i` is the first of a property.
pub open spec fn first_of(pickers: Seq<PickerView>, prop: Seq<char>, i: int) -> bool {
    pickers[i].prop == prop && forall|j: int| 0 <= j < i ==> (#[trigger] pickers[j]).prop != prop
}

/// The pickers after the reading of one switch: the first picker of that property takes its options
/// and selection; a reading without options changes nothing.
pub open spec fn refreshed(pickers: Seq<PickerView>, r: SwitchReading) -> Seq<PickerView> {
    Seq::new(
        pickers.len(),
        |i: int|
            if first_of(pickers, r.prop@, i) && r.options@.len() > 0 {
                PickerView {
                    options: r.options@,
                    selected: replies::selection(r.selected),
                    ..pickers[i]
                }
            } else {
                pickers[i]
            },
    )
}

/// Bring the pickers up to date with one switch as the driver reports it: some options are
/// interlocked, so changing one switch may change another.
pub fn refresh_switch(switches: &mut Vec<CameraSwitch>, reading: SwitchReading)
    ensures
        bus::pickers(final(switches)@) == refreshed(bus::pickers(old(switches)@), reading),
{
    let ghost shown = bus::pickers(switches@);
    if reading.options.len() == 0 {
        assert(shown =~= refreshed(shown, reading));
        return;
    }
    let mut i: usize = 0;
    while i < switches.len()
        invariant
            i <= switches.len(),
            switches@ == old(switches)@,
            shown == bus::pickers(switches@),
            reading.options@.len() > 0,
            forall|j: int| 0 <= j < i ==> (#[trigger] shown[j]).prop != reading.prop@,
        decreases switches.len() - i,
    {
        if text::same(switches[i].prop.as_str(), reading.prop.as_str()) {
            let ghost before = switches@;
            let found: CameraSwitch = switches.remove(i);
            let selected: String = match reading.selected {
                Some(s) => s,
                None => "".to_owned(),
            };
            let updated = CameraSwitch {
                prop: found.prop,
                label: found.label,
                options: reading.options,
                selected,
            };
            switches.insert(i, updated);
            proof {
                assert(switches@ =~= before.update(i as int, updated));
                assert(first_of(shown, reading.prop@, i as int));
                assert(bus::pickers(switches@) =~= refreshed(shown, reading));
            }
            return;
        }
        i += 1;
    }
    assert(shown =~= refreshed(shown, reading));
}

/// The pickers after several readings, one after another.
pub open spec fn all_refreshed(pickers: Seq<PickerView>, readings: Seq<SwitchReading>) -> Seq<
    PickerView,
>
    decreases readings.len(),
{
    if readings.len() == 0 {
        pickers
    } else {
        refreshed(all_refreshed(pickers, readings.drop_last()), readings.last())
    }
}

/// A stream-format switch was set, or could not be. `readings` are the stream-format switches as
/// the driver reports them afterwards.
pub fn switch_set<W: SerOutput>(
    bus: &mut Bus<W>,
    prop: &str,
    elem: &str,
    outcome: Result<Vec<SwitchReading>, String>,
)
    requires
        old(bus).wf(),
    ensures
        final(bus).wf(),
        match outcome {
            Ok(readings) => {
                &&& *final(bus) == (Bus { shared: final(bus).shared, ..*old(bus) })
                &&& final(bus).shared.is_logged(
                    Shared {
                        stream_switches: final(bus).shared.stream_switches,
                        ..old(bus).shared
                    },
                    prop@ + " → "@ + elem@,
                )
                &&& bus::pickers(final(bus).shared.stream_switches@) == all_refreshed(
                    bus::pickers(old(bus).shared.stream_switches@),
                    readings@,
                )
            },
            Err(e) => commands::said(*old(bus), *final(bus), error_note(e@)),
        },
{
    match outcome {
        Ok(readings) => {
            refresh_all(&mut bus.shared.stream_switches, readings);
            bus.log(prop.to_owned().concat(" → ").concat(elem));
        },
        Err(e) => fail(bus, e),
    }
}

fn refresh_all(switches: &mut Vec<CameraSwitch>, readings: Vec<SwitchReading>)
    ensures
        bus::pickers(final(switches)@) == all_refreshed(bus::pickers(old(switches)@), readings@),
{
    let ghost all = readings@;
    let ghost before = bus::pickers(switches@);
    let n: usize = readings.len();
    let mut readings = readings;
    let mut i: usize = 0;
    proof {
        assert(all.take(0) =~= Seq::<SwitchReading>::empty());
        assert(all.subrange(0, n as int) =~= all);
    }
    while i < n
        invariant
            i <= n,
            n == all.len(),
            before == bus::pickers(old(switches)@),
            readings@ == all.subrange(i as int, n as int),
            bus::pickers(switches@) == all_refreshed(before, all.take(i as int)),
        decreases n - i,
    {
        let r: SwitchReading = readings.remove(0);
        refresh_switch(switches, r);
        proof {
            assert(r == all[i as int]);
            assert(readings@ =~= all.subrange(i + 1, n as int));
            assert(all.take(i + 1).drop_last() =~= all.take(i as int));
            assert(all.take(i + 1).last() == r);
        }
        i += 1;
    }
    proof {
        assert(all.take(n as int) =~= all);
    }
}

/// What is shared once a target is locked: the lock point is where it stands, and the error
/// telemetry starts afresh.
pub open spec fn target_locked(before: Shared, after: Shared, s: GuideSample) -> bool {
    &&& after == (Shared {
        lock_point: Some((s.x, s.y)),
        guide_err: None,
        guide_rms: Scalar::zero(),
        guide_history: after.guide_history,
        log: after.log,
        ..before
    })
    &&& after.guide_history@.len() == 0
}

/// Lock onto a measured target.
fn lock_target<W: SerOutput>(bus: &mut Bus<W>, s: GuideSample)
    requires
        old(bus).wf(),
    ensures
        final(bus).wf(),
        final(bus).shared.log == old(bus).shared.log,
        target_locked(old(bus).shared, final(bus).shared, s),
        *final(bus) == (Bus { shared: final(bus).shared, ..*old(bus) }),
{
    bus.shared.lock_point = Some((s.x, s.y));
    bus.shared.guide_err = None;
    bus.shared.guide_rms = Scalar::new_zero();
    bus.shared.guide_history.clear();
}

/// The wait for a target to lock onto again is over.
pub fn relocked<W: SerOutput>(bus: &mut Bus<W>, sample: Option<GuideSample>)
    requires
        old(bus).wf(),
    ensures
        final(bus).wf(),
        *final(bus) == (Bus { shared: final(bus).shared, ..*old(bus) }),
        match sample {
            Some(s) => target_locked(old(bus).shared, final(bus).shared, s)
                && final(bus).shared.lines() == bus::logged(old(bus).shared.lines(), "re-locked"@),
            None => final(bus).shared.is_logged(old(bus).shared, "re-lock: no target detected"@),
        },
{
    match sample {
        Some(s) => {
            lock_target(bus, s);
            bus.log("re-locked".to_owned());
        },
        None => bus.log("re-lock: no target detected".to_owned()),
    }
}

impl Worker {
    /// The wait for a target to lock onto is over: guide it, or give up guiding where there is
    /// none. Returns whether the guide loop is to be started.
    pub fn locked<W: SerOutput>(&mut self, bus: &mut Bus<W>, sample: Option<GuideSample>) -> (
    start: bool)
        requires
            old(bus).wf(),
        ensures
            final(bus).wf(),
            start == (sample is Some),
            match sample {
                Some(s) => {
                    &&& *final(self) == (Worker { guide_loop: true, ..*old(self) })
                    &&& *final(bus) == (Bus { shared: final(bus).shared, ..*old(bus) })
                    &&& target_locked(old(bus).shared, final(bus).shared, s)
                    &&& final(bus).shared.lines() == bus::logged(
                        old(bus).shared.lines(),
                        "guiding started"@,
                    )
                },
                None => {
                    &&& *final(self) == *old(self)
                    &&& commands::said(
                        Bus {
                            shared: Shared { guiding: false, ..old(bus).shared },
                            detect_enabled: old(bus).shared.detect_overlay
                                || old(bus).shared.calibrating,
                            ..*old(bus)
                        },
                        *final(bus),
                        "no target detected — cannot lock"@,
                    )
                },
            },
    {
        match sample {
            Some(s) => {
                lock_target(bus, s);
                self.guide_loop = true;
                bus.log("guiding started".to_owned());
                true
            },
            None => {
                bus.shared.guiding = false;
                bus.refresh_detect();
                bus.log("no target detected — cannot lock".to_owned());
                false
            },
        }
    }

    /// Another camera was bound, or could not be. Returns whether the video pipeline of the camera
    /// before is to be torn down.
    #[verifier::rlimit(40)]
    pub fn camera_selected<W: SerOutput>(
        &mut self,
        bus: &mut Bus<W>,
        name: String,
        outcome: Result<Option<replies::CameraReport>, String>,
    ) -> (stop_frames: bool)
        requires
            old(bus).wf(),
        ensures
            final(bus).wf(),
            stop_frames == (outcome is Ok && old(self).frame_task),
            match outcome {
                Ok(report) => {
                    let named = Bus {
                        shared: Shared {
                            camera_sel: name,
                            streaming: false,
                            fps: Scalar::zero(),
                            ..old(bus).shared
                        },
                        ..*old(bus)
                    };
                    &&& *final(self) == (Worker {
                        frame_task: report matches Some(r) && r.frames is Ok,
                        ..*old(self)
                    })
                    &&& replies::noted(
                        match report {
                            Some(r) => replies::with_camera(named, r),
                            None => named,
                        },
                        *final(bus),
                        (match report {
                            Some(r) => replies::camera_notes(r),
                            None => Seq::empty(),
                        }).push("camera: "@ + name@),
                    )
                },
                Err(e) => {
                    &&& *final(self) == *old(self)
                    &&& commands::said(
                        *old(bus),
                        *final(bus),
                        "select camera failed: "@ + e@,
                    )
                },
            },
    {
        match outcome {
            Ok(report) => {
                let stop_frames: bool = self.frame_task;
                let msg: String = "camera: ".to_owned().concat(name.as_str());
                bus.shared.camera_sel = name;
                bus.shared.streaming = false;
                bus.shared.fps = Scalar::new_zero();
                let ghost named = *bus;
                match report {
                    Some(r) => {
                        let ghost b = replies::with_camera(named, r);
                        let ghost notes = replies::camera_notes(r);
                        self.frame_task = replies::take_camera(bus, r);
                        note(bus, Ghost(b), Ghost(notes), msg);
                    },
                    None => {
                        let ghost none = Seq::<Seq<char>>::empty();
                        self.frame_task = false;
                        note(bus, Ghost(named), Ghost(none), msg);
                    },
                }
                stop_frames
            },
            Err(e) => {
                bus.log("select camera failed: ".to_owned().concat(e.as_str()));
                false
            },
        }
    }
}

/// Another mount was bound, or could not be. `rates` are its slew rates, or why they could not be
/// read; a new mount starts at its slowest rate and without tracking.
#[verifier::rlimit(40)]
pub fn mount_selected<W: SerOutput>(
    bus: &mut Bus<W>,
    name: String,
    outcome: Result<Option<Result<Vec<(String, String)>, String>>, String>,
)
    requires
        old(bus).wf(),
    ensures
        final(bus).wf(),
        match outcome {
            Ok(rates) => {
                let rated = match rates {
                    Some(Ok(v)) => Shared { slew_rates: v, slew_rate_idx: 0, ..old(bus).shared },
                    _ => old(bus).shared,
                };
                replies::noted(
                    Bus {
                        shared: Shared { mount_sel: name, tracking: false, ..rated },
                        ..*old(bus)
                    },
                    *final(bus),
                    replies::rate_notes(rates).push("mount: "@ + name@),
                )
            },
            Err(e) => commands::said(*old(bus), *final(bus), "select mount failed: "@ + e@),
        },
{
    match outcome {
        Ok(rates) => {
            let ghost whole = rates;
            let ghost none = Seq::<Seq<char>>::empty();
            let ghost notes = replies::rate_notes(rates);
            let (taken, rates_msg) = replies::split_rates(rates);
            let msg: String = "mount: ".to_owned().concat(name.as_str());
            if let Some(v) = taken {
                bus.shared.slew_rates = v;
                bus.shared.slew_rate_idx = 0;
            }
            bus.shared.mount_sel = name;
            bus.shared.tracking = false;
            let ghost b = *bus;
            replies::note_rates(bus, Ghost(b), Ghost(none), Ghost(whole), rates_msg);
            assert(none + notes =~= notes);
            note(bus, Ghost(b), Ghost(notes), msg);
        },
        Err(e) => bus.log("select mount failed: ".to_owned().concat(e.as_str())),
    }
}

/// A failed task is logged as an error with its reason.
pub proof fn law_failures_are_logged_as_errors<W: SerOutput>(b0: Bus<W>, b1: Bus<W>, e: Seq<char>)
    requires
        commands::said(b0, b1, error_note(e)),
    ensures
        b1.shared.lines() == bus::logged(b0.shared.lines(), "error: "@ + e),
        b1.shared == (Shared { log: b1.shared.log, ..b0.shared }),
        b1 == (Bus { shared: b1.shared, ..b0 }),
{
}

/// A stream that could not be started again is named with its reason before the outcome; otherwise
/// nothing is said of it.
pub proof fn law_failed_restarts_are_named(e: String)
    ensures
        restart_notes(Some(e), restart_exposure()) == seq![
            "restarting stream after exposure change failed: "@ + e@,
        ],
        restart_notes(Some(e), restart_roi()) == seq![
            "restarting stream after ROI change failed: "@ + e@,
        ],
        restart_notes(None, restart_roi()).len() == 0,
{
}

/// A region change sets the region unless a running stream could not be stopped, reads back after
/// setting, and ends with the report.
pub proof fn law_region_change_goes_step_by_step(done: bool, streaming: bool)
    ensures
        first_step(false) == RoiStep::Apply,
        first_step(true) == RoiStep::Stop,
        step_after(RoiStep::Stop, false, streaming) == RoiStep::Report,
        step_after(RoiStep::Stop, true, streaming) == RoiStep::Apply,
        step_after(RoiStep::Apply, done, streaming) == RoiStep::ReadBack,
        step_after(RoiStep::ReadBack, done, false) == RoiStep::Report,
        step_after(RoiStep::ReadBack, done, true) == RoiStep::Restart,
        step_after(RoiStep::Restart, done, streaming) == RoiStep::Report,
        step_after(RoiStep::Report, done, streaming) == RoiStep::Report,
{
}

/// The region that the driver reports is in force, or the one asked for where it reports none; where
/// the sizes differ the log names both.
pub proof fn law_applied_region_wins(
    asked: (u32, u32, u32, u32),
    applied: (u32, u32, u32, u32),
)
    ensures
        region(asked, Some(applied)) == applied,
        region(asked, None) == asked,
        ({
            let place = text::decimal(applied.2 as nat) + "×"@ + text::decimal(applied.3 as nat) + (
            " at ("@ + text::decimal(applied.0 as nat) + ","@ + text::decimal(applied.1 as nat)
                + ")"@);
            let same = applied.2 == asked.2 && applied.3 == asked.3;
            &&& same ==> roi_note(asked, applied) == "ROI set to "@ + place
            &&& !same ==> roi_note(asked, applied) == "ROI requested "@ + text::decimal(
                asked.2 as nat,
            ) + "×"@ + text::decimal(asked.3 as nat) + ", driver applied "@ + place
        }),
{
    let at = " at ("@ + text::decimal(applied.0 as nat) + ","@ + text::decimal(applied.1 as nat)
        + ")"@;
    let size = text::decimal(applied.2 as nat) + "×"@ + text::decimal(applied.3 as nat);
    assert("ROI set to "@ + size + at =~= "ROI set to "@ + (size + at));
    let head = "ROI requested "@ + text::decimal(asked.2 as nat) + "×"@ + text::decimal(
        asked.3 as nat,
    ) + ", driver applied "@;
    assert(head + size + at =~= head + (size + at));
}

/// A reading brings the first picker of its property up to date, and no other; a picker keeps its
/// property and label, and a reading without options changes nothing.
pub proof fn law_readings_refresh_their_picker(pickers: Seq<PickerView>, r: SwitchReading, i: int)
    requires
        0 <= i < pickers.len(),
    ensures
        refreshed(pickers, r).len() == pickers.len(),
        refreshed(pickers, r)[i].prop == pickers[i].prop,
        refreshed(pickers, r)[i].label == pickers[i].label,
        r.options@.len() == 0 || pickers[i].prop != r.prop@ ==> refreshed(pickers, r)[i]
            == pickers[i],
        r.options@.len() > 0 && pickers[i].prop == r.prop@ && (forall|j: int|
            0 <= j < i ==> (#[trigger] pickers[j]).prop != r.prop@) ==> {
            &&& refreshed(pickers, r)[i].options == r.options@
            &&& r.selected matches Some(s) ==> refreshed(pickers, r)[i].selected == s@
            &&& r.selected is None ==> refreshed(pickers, r)[i].selected == ""@
        },
        (exists|j: int| 0 <= j < i && (#[trigger] pickers[j]).prop == r.prop@) ==> refreshed(
            pickers,
            r,
        )[i] == pickers[i],
{
}

/// Readings are taken one after the other, each on what the ones before left.
pub proof fn law_readings_are_taken_in_turn(
    pickers: Seq<PickerView>,
    readings: Seq<SwitchReading>,
    r: SwitchReading,
)
    ensures
        all_refreshed(pickers, Seq::empty()) == pickers,
        all_refreshed(pickers, readings.push(r)) == refreshed(all_refreshed(pickers, readings), r),
{
    assert(readings.push(r).drop_last() =~= readings);
}

/// Locking makes the measured place the lock point and begins the error graph anew; calibration,
/// parameters and whether guiding runs stay.
pub proof fn law_locking_begins_anew(before: Shared, after: Shared, s: GuideSample)
    requires
        target_locked(before, after, s),
    ensures
        after.lock_point == Some((s.x, s.y)),
        after.guide_err is None,
        after.guide_rms.bits == 0,
        after.guide_history@.len() == 0,
        after.guide_calib == before.guide_calib,
        after.guide_params == before.guide_params,
        after.guiding == before.guiding,
        after.recording == before.recording,
{
}

} // verus!
