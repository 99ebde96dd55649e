//! The recording orchestrator: writes a sequence of SER videos back to back, each ended by a frame
//! count or a duration, with a pause between them. The stream keeps running throughout; only frame
//! *writing* pauses between videos, so guiding stays locked the whole time.

use crate::bus;
use crate::bus::{Bus, RecordConfig, RecordPhase, RecordStatus, RecordStop, Shared};
use crate::frame::Frame;
use crate::recorder;
use crate::recorder::{SerColor, SerError, SerOutput, SerRecorder, Tape, UnixTime};
use crate::scalar::Scalar;
use crate::text;
use vstd::prelude::*;

verus! {

/// How long (ms) a video waits for a frame whose geometry is known.
pub const GEOMETRY_TIMEOUT_MS: u64 = 5000;

/// Pause (ms) between two looks for a frame.
pub const GEOMETRY_POLL_MS: u64 = 50;

/// Pause (ms) between two looks at the progress of a video, and at a stop request.
pub const RECORD_POLL_MS: u64 = 100;

/// What one look for a frame's geometry found.
#[derive(Clone, Copy, Debug, PartialEq, Eq, Structural)]
pub enum GeometryLook {
    Known { w: u32, h: u32 },
    /// A stop was requested or the deadline has passed.
    GaveUp,
    /// Look again later.
    Again,
}

/// The latest frame has a size.
pub open spec fn has_size(frame: Option<Frame>) -> bool {
    frame matches Some(f) && f.width > 0 && f.height > 0
}

/// One look for a decoded frame with a known size.
pub fn wait_for_geometry(
    stop: bool,
    frame: &Option<Frame>,
    now_ms: u64,
    deadline_ms: u64,
) -> (look: GeometryLook)
    requires
        frame matches Some(f) ==> f.width <= u32::MAX && f.height <= u32::MAX,
    ensures
        look == (if stop {
            GeometryLook::GaveUp
        } else if has_size(*frame) {
            GeometryLook::Known { w: (frame->0).width as u32, h: (frame->0).height as u32 }
        } else if now_ms >= deadline_ms {
            GeometryLook::GaveUp
        } else {
            GeometryLook::Again
        }),
{
    if stop {
        return GeometryLook::GaveUp;
    }
    if let Some(f) = frame {
        if f.width > 0 && f.height > 0 {
            return GeometryLook::Known { w: f.width as u32, h: f.height as u32 };
        }
    }
    if now_ms >= deadline_ms {
        GeometryLook::GaveUp
    } else {
        GeometryLook::Again
    }
}

/// Whether a pause goes on: until its deadline, or a stop request before it.
pub fn interruptible_sleep(stop: bool, now_ms: u64, deadline_ms: u64) -> (again: bool)
    ensures
        again == (now_ms < deadline_ms && !stop),
{
    now_ms < deadline_ms && !stop
}

/// Bit depth of a raw stream: 16 where a frame has at least two bytes for each pixel, else 8.
pub open spec fn raw_depth(w: u32, h: u32, raw_len: usize) -> u8 {
    if w * h > 0 && raw_len as int / (w * h) >= 2 {
        16
    } else {
        8
    }
}

/// The SER color layout and bit depth of a video. MJPEG frames are recorded as 8-bit RGB; raw
/// frames keep the sensor's native depth, inferred from the payload byte length.
pub open spec fn format_of(mjpeg: bool, cfa: Option<Seq<char>>, w: u32, h: u32, raw_len: usize) -> (
    SerColor,
    u8,
) {
    if mjpeg {
        (SerColor::Rgb, 8)
    } else {
        (
            match cfa {
                Some(s) => SerColor::named(s),
                None => SerColor::Mono,
            },
            raw_depth(w, h, raw_len),
        )
    }
}

/// Choose the SER color layout and bit depth of a video.
pub fn video_format(mjpeg: bool, cfa: Option<&str>, w: u32, h: u32, raw_len: usize) -> (r: (
    SerColor,
    u8,
))
    ensures
        r == format_of(mjpeg, text::chars(cfa), w, h, raw_len),
{
    if mjpeg {
        return (SerColor::Rgb, 8);
    }
    let color: SerColor = SerColor::from_cfa(cfa);
    proof {
        assert(0 <= w * h <= 0xFFFF_FFFF * 0xFFFF_FFFF) by (nonlinear_arith)
            requires
                0 <= w <= 0xFFFF_FFFF,
                0 <= h <= 0xFFFF_FFFF,
        ;
    }
    let px: u128 = w as u128 * h as u128;
    let depth: u8 = if px > 0 && raw_len as u128 / px >= 2 {
        16
    } else {
        8
    };
    (color, depth)
}

/// The file name of video `i` of a sequence begun at `base` (Unix ms).
pub open spec fn name_of(base: u64, i: usize) -> Seq<char> {
    "solar_"@ + text::decimal(base as nat) + "_"@ + text::three_wide(text::decimal(i as nat))
        + ".ser"@
}

/// The file name of video `i` of a sequence begun at `base` (Unix ms).
pub fn video_name(base: u64, i: usize) -> (s: String)
    ensures
        s@ == name_of(base, i),
{
    "solar_".to_owned().concat(text::number(base).as_str()).concat("_").concat(
        text::number_three_wide(i as u64).as_str(),
    ).concat(".ser")
}

/// File name of a frame captured `millis` after 1970.
pub fn capture_name(millis: u64) -> (s: String)
    ensures
        s@ == "solar_"@ + text::decimal(millis as nat) + ".png"@,
{
    "solar_".to_owned().concat(text::number(millis).as_str()).concat(".png")
}

/// No two videos of a sequence have one file name, so none overwrites another.
pub proof fn law_videos_have_distinct_names(base: u64, i: usize, j: usize)
    requires
        i != j,
    ensures
        name_of(base, i) != name_of(base, j),
{
    let head = "solar_"@ + text::decimal(base as nat) + "_"@;
    let (a, b) = (text::three_wide(text::decimal(i as nat)), text::three_wide(
        text::decimal(j as nat),
    ));
    text::law_three_wide_reads_back(i as nat);
    text::law_three_wide_reads_back(j as nat);
    if name_of(base, i) == name_of(base, j) {
        let (x, y) = (name_of(base, i), name_of(base, j));
        assert(x =~= head + a + ".ser"@);
        assert(y =~= head + b + ".ser"@);
        assert(a.len() == b.len());
        assert(a =~= x.subrange(head.len() as int, (head.len() + a.len()) as int));
        assert(b =~= y.subrange(head.len() as int, (head.len() + b.len()) as int));
        assert(false);
    }
}

/// A SER file to create.
#[derive(Debug)]
pub struct VideoFile {
    pub name: String,
    pub w: u32,
    pub h: u32,
    pub color: SerColor,
    pub depth: u8,
}

/// What the orchestrator asks of its caller next.
#[derive(Debug)]
pub enum RecordAction {
    /// Look for a frame until its geometry is known, or give up.
    AwaitFrame,
    /// Create this file in the output folder.
    CreateFile(VideoFile),
    /// Pause briefly, then look at the progress.
    Tick,
    /// Close the video.
    Close,
    /// Wait out the delay between videos, then go on.
    Rest,
    /// Go on with the next video.
    Next,
    /// The sequence is over.
    Finish,
}

/// A recording run.
pub struct RecordRun {
    pub cfg: RecordConfig,
    pub mjpeg: bool,
    pub cfa: Option<String>,
    /// Shared file-name stem of the whole sequence: when it began (Unix ms).
    pub base: u64,
    /// 1-based index of the current video; zero before the first.
    pub video: usize,
}

/// Number of videos of a run, at least one.
pub open spec fn total_of(cfg: RecordConfig) -> usize {
    if cfg.count < 1 {
        1
    } else {
        cfg.count
    }
}

/// The bus when no recording runs: disarmed, inactive, idle.
pub open spec fn idle<W: SerOutput>(b: Bus<W>) -> Bus<W> {
    Bus {
        recording_active: false,
        shared: Shared {
            recording: RecordStatus {
                active: false,
                phase: RecordPhase::Idle,
                ..b.shared.recording
            },
            ..b.shared
        },
        ..b
    }
}

fn go_idle<W: SerOutput>(bus: &mut Bus<W>)
    ensures
        *final(bus) == idle(*old(bus)),
{
    bus.recording_active = false;
    bus.shared.recording.active = false;
    bus.shared.recording.phase = RecordPhase::Idle;
}

/// The line logged when no frame comes.
pub open spec fn no_frames() -> Seq<char> {
    "recording: no frames — is the stream running?"@
}

/// The line logged when a video begins.
pub open spec fn video_note(i: usize, total: usize, f: VideoFile, path: Seq<char>) -> Seq<char> {
    "recording "@ + text::decimal(i as nat) + "/"@ + text::decimal(total as nat) + " ("@
        + text::decimal(f.w as nat) + "×"@ + text::decimal(f.h as nat) + ", "@ + text::decimal(
        f.depth as nat,
    ) + "-bit) → "@ + path
}

/// Whether a video is complete.
pub open spec fn budget_met(stop: RecordStop, frames: nat, elapsed: Scalar) -> bool {
    match stop {
        RecordStop::Frames(n) => frames >= n,
        RecordStop::Seconds(secs) => secs.at_most(elapsed),
    }
}

/// Frames of the open video; zero where none is open.
pub open spec fn open_frames<W: SerOutput>(b: Bus<W>) -> nat {
    match b.recorder {
        Some(rec) => rec.written(),
        None => 0,
    }
}

/// How many frames a video takes at most; absent where its length ends it.
pub open spec fn frame_limit(stop: RecordStop) -> Option<u64> {
    match stop {
        RecordStop::Frames(n) => Some(n),
        RecordStop::Seconds(_) => None,
    }
}

/// The run at its next video; absent after the last one and on a stop request.
pub open spec fn next_video(run: RecordRun, stop: bool) -> Option<RecordRun> {
    if stop || run.video >= total_of(run.cfg) {
        None
    } else {
        Some(RecordRun { video: (run.video + 1) as usize, ..run })
    }
}

/// The run after it was told `k` times to go on, with no stop request; absent once it has ended.
pub open spec fn after_videos(run: RecordRun, k: nat) -> Option<RecordRun>
    decreases k,
{
    if k == 0 {
        Some(run)
    } else {
        match after_videos(run, (k - 1) as nat) {
            Some(r) => next_video(r, false),
            None => None,
        }
    }
}

impl RecordRun {
    /// Begin a run: publish a fresh status. The output folder exists by now.
    pub fn begin<W: SerOutput>(
        bus: &mut Bus<W>,
        cfg: RecordConfig,
        mjpeg: bool,
        cfa: Option<String>,
        base: u64,
    ) -> (run: RecordRun)
        ensures
            run == (RecordRun { cfg, mjpeg, cfa, base, video: 0 }),
            *final(bus) == (Bus {
                shared: Shared {
                    recording: RecordStatus {
                        active: true,
                        phase: RecordPhase::Recording,
                        current: 0,
                        total: total_of(cfg),
                        frames_written: 0,
                        dropped: 0,
                        elapsed_secs: Scalar::zero(),
                        last_file: old(bus).shared.recording.last_file,
                    },
                    ..old(bus).shared
                },
                ..*old(bus)
            }),
    {
        let run = RecordRun { cfg, mjpeg, cfa, base, video: 0 };
        bus.shared.recording.active = true;
        bus.shared.recording.phase = RecordPhase::Recording;
        bus.shared.recording.current = 0;
        bus.shared.recording.total = run.total();
        bus.shared.recording.frames_written = 0;
        bus.shared.recording.dropped = 0;
        bus.shared.recording.elapsed_secs = Scalar::new_zero();
        run
    }

    fn total(&self) -> (n: usize)
        ensures
            n == total_of(self.cfg),
    {
        if self.cfg.count < 1 {
            1
        } else {
            self.cfg.count
        }
    }

    /// Go on with the next video, or finish after the last one or on a stop request.
    pub fn open_next<W: SerOutput>(&mut self, bus: &mut Bus<W>, stop: bool) -> (a: RecordAction)
        requires
            old(self).video <= total_of(old(self).cfg),
        ensures
            final(self).video <= total_of(final(self).cfg),
            match next_video(*old(self), stop) {
                None => {
                    &&& a is Finish
                    &&& *final(self) == *old(self)
                    &&& *final(bus) == idle(*old(bus))
                },
                Some(run) => {
                    &&& a is AwaitFrame
                    &&& *final(self) == run
                    &&& *final(bus) == *old(bus)
                },
            },
    {
        if stop || self.video == self.total() {
            go_idle(bus);
            return RecordAction::Finish;
        }
        self.video = self.video + 1;
        RecordAction::AwaitFrame
    }

    /// The geometry is known, so the file can be created; or it is not, and the sequence ends.
    pub fn size_known<W: SerOutput>(&self, bus: &mut Bus<W>, size: Option<(u32, u32)>) -> (a:
        RecordAction)
        requires
            old(bus).wf(),
        ensures
            match size {
                Some((w, h)) => {
                    &&& *final(bus) == *old(bus)
                    &&& a matches RecordAction::CreateFile(f)
                    &&& f.name@ == name_of(self.base, self.video)
                    &&& f.w == w
                    &&& f.h == h
                    &&& (f.color, f.depth) == format_of(
                        self.mjpeg,
                        match self.cfa {
                            Some(s) => Some(s@),
                            None => None,
                        },
                        w,
                        h,
                        old(bus).last_raw_len,
                    )
                },
                None => {
                    &&& a is Finish
                    &&& final(bus).shared.is_logged(idle(*old(bus)).shared, no_frames())
                    &&& *final(bus) == (Bus { shared: final(bus).shared, ..idle(*old(bus)) })
                },
            },
            final(bus).wf(),
    {
        match size {
            Some((w, h)) => {
                let cfa: Option<&str> = match &self.cfa {
                    Some(s) => Some(s.as_str()),
                    None => None,
                };
                let (color, depth) = video_format(self.mjpeg, cfa, w, h, bus.last_raw_len());
                RecordAction::CreateFile(
                    VideoFile { name: video_name(self.base, self.video), w, h, color, depth },
                )
            },
            None => {
                go_idle(bus);
                bus.log("recording: no frames — is the stream running?".to_owned());
                RecordAction::Finish
            },
        }
    }

    /// The file was created at `path`, with no frame in it, so frames are written to it from now on,
    /// as many as the video takes; or it could not be created, and the sequence ends.
    pub fn file_created<W: SerOutput>(
        &self,
        bus: &mut Bus<W>,
        file: &VideoFile,
        path: &str,
        created: Result<SerRecorder<W>, String>,
    ) -> (a: RecordAction)
        requires
            old(bus).wf(),
            created matches Ok(rec) ==> rec.written() == 0,
        ensures
            match created {
                Ok(rec) => {
                    &&& a is Tick
                    &&& *final(bus) == (Bus {
                        recorder: Some(rec),
                        record_limit: frame_limit(self.cfg.stop),
                        recording_active: true,
                        shared: final(bus).shared,
                        ..*old(bus)
                    })
                    &&& final(bus).shared.is_logged(
                        Shared {
                            recording: RecordStatus {
                                phase: RecordPhase::Recording,
                                current: self.video,
                                frames_written: 0,
                                elapsed_secs: Scalar::zero(),
                                ..old(bus).shared.recording
                            },
                            ..old(bus).shared
                        },
                        video_note(self.video, total_of(self.cfg), *file, path@),
                    )
                },
                Err(e) => {
                    &&& a is Finish
                    &&& final(bus).shared.is_logged(idle(*old(bus)).shared, "recording: "@ + e@)
                    &&& *final(bus) == (Bus { shared: final(bus).shared, ..idle(*old(bus)) })
                },
            },
            final(bus).wf(),
    {
        match created {
            Ok(rec) => {
                bus.recorder = Some(rec);
                bus.record_limit = match self.cfg.stop {
                    RecordStop::Frames(n) => Some(n),
                    RecordStop::Seconds(_) => None,
                };
                bus.recording_active = true;
                bus.shared.recording.phase = RecordPhase::Recording;
                bus.shared.recording.current = self.video;
                bus.shared.recording.frames_written = 0;
                bus.shared.recording.elapsed_secs = Scalar::new_zero();
                let note: String = "recording ".to_owned().concat(
                    text::number(self.video as u64).as_str(),
                ).concat("/").concat(text::number(self.total() as u64).as_str()).concat(
                    " (",
                ).concat(text::number(file.w as u64).as_str()).concat("×").concat(
                    text::number(file.h as u64).as_str(),
                ).concat(", ").concat(text::number(file.depth as u64).as_str()).concat(
                    "-bit) → ",
                ).concat(path);
                bus.log(note);
                RecordAction::Tick
            },
            Err(e) => {
                go_idle(bus);
                bus.log("recording: ".to_owned().concat(e.as_str()));
                RecordAction::Finish
            },
        }
    }

    /// Look at the progress of the current video after `elapsed` seconds: publish it, and close the
    /// video once its budget is met or a stop is requested.
    pub fn tick<W: SerOutput>(&self, bus: &mut Bus<W>, stop: bool, elapsed: Scalar) -> (a:
        RecordAction)
        ensures
            *final(bus) == (Bus {
                shared: Shared {
                    recording: RecordStatus {
                        frames_written: open_frames(*old(bus)) as u64,
                        elapsed_secs: elapsed,
                        ..old(bus).shared.recording
                    },
                    ..old(bus).shared
                },
                ..*old(bus)
            }),
            stop || budget_met(self.cfg.stop, open_frames(*old(bus)), elapsed) ==> a is Close,
            !stop && !budget_met(self.cfg.stop, open_frames(*old(bus)), elapsed) ==> a is Tick,
    {
        let frames: u64 = match &bus.recorder {
            Some(rec) => rec.frame_count() as u64,
            None => 0,
        };
        bus.shared.recording.frames_written = frames;
        bus.shared.recording.elapsed_secs = elapsed;
        let done: bool = match self.cfg.stop {
            RecordStop::Frames(n) => frames >= n,
            RecordStop::Seconds(secs) => secs.le(elapsed),
        };
        if stop || done {
            RecordAction::Close
        } else {
            RecordAction::Tick
        }
    }

    /// Disarm the decoder and finalize the current video, whose file is at `path`. Then rest before
    /// the next one if there is one, no stop is requested and a delay is set. Hands out what
    /// finalizing came to, with the finished file.
    pub fn close<W: SerOutput>(&self, bus: &mut Bus<W>, path: String, stop: bool) -> (r: (
        RecordAction,
        Option<Result<(u32, Tape<W>), SerError>>,
    ))
        requires
            old(bus).wf(),
        ensures
            final(bus).wf(),
            self.rests(stop) ==> r.0 is Rest,
            !self.rests(stop) ==> r.0 is Next,
            recorder::file_finished(old(bus).recorder, r.1),
            closed(old(bus).shared, final(bus).shared, r.1, path),
            old(bus).record_limit == frame_limit(self.cfg.stop) ==> (old(bus).recorder matches Some(
                rec,
            ) ==> (self.cfg.stop matches RecordStop::Frames(n) ==> rec.written() <= n)),
            *final(bus) == (Bus {
                recorder: None,
                recording_active: false,
                shared: final(bus).shared,
                ..*old(bus)
            }),
            final(bus).shared.recording == (RecordStatus {
                phase: if self.rests(stop) {
                    RecordPhase::Waiting
                } else {
                    old(bus).shared.recording.phase
                },
                last_file: final(bus).shared.recording.last_file,
                ..old(bus).shared.recording
            }),
            final(bus).shared == (Shared {
                recording: final(bus).shared.recording,
                log: final(bus).shared.log,
                ..old(bus).shared
            }),
    {
        let done: Option<Result<(u32, Tape<W>), SerError>> = close_file(bus, path);
        if self.video < self.total() && !stop && Scalar::new_zero().lt(self.cfg.delay_secs) {
            bus.shared.recording.phase = RecordPhase::Waiting;
            (RecordAction::Rest, done)
        } else {
            (RecordAction::Next, done)
        }
    }

    /// The run rests after the current video.
    pub open spec fn rests(&self, stop: bool) -> bool {
        self.video < total_of(self.cfg) && !stop && Scalar::zero().below(self.cfg.delay_secs)
    }
}

/// What is published once a video was closed: it was saved and is the last file now; or finalizing
/// it failed, and the last file stays. Either way it is logged. Without a file nothing is.
pub open spec fn closed<W: SerOutput>(
    before: Shared,
    after: Shared,
    done: Option<Result<(u32, Tape<W>), SerError>>,
    path: String,
) -> bool {
    match done {
        None => {
            &&& after.recording.last_file == before.recording.last_file
            &&& after.log == before.log
        },
        Some(Ok(d)) => {
            &&& after.recording.last_file == Some(path)
            &&& after.lines() == bus::logged(
                before.lines(),
                "saved "@ + path@ + " ("@ + text::decimal(d.0 as nat) + " frames)"@,
            )
        },
        Some(Err(e)) => {
            &&& after.recording.last_file == before.recording.last_file
            &&& after.lines() == bus::logged(
                before.lines(),
                "finalizing SER: "@ + e.words(),
            )
        },
    }
}

/// Disarm the decoder and finalize the open video, if there is one. Hands out what that came to.
fn close_file<W: SerOutput>(bus: &mut Bus<W>, path: String) -> (done: Option<
    Result<(u32, Tape<W>), SerError>,
>)
    requires
        old(bus).wf(),
    ensures
        final(bus).wf(),
        *final(bus) == (Bus {
            recorder: None,
            recording_active: false,
            shared: final(bus).shared,
            ..*old(bus)
        }),
        final(bus).shared == (Shared {
            recording: RecordStatus {
                last_file: final(bus).shared.recording.last_file,
                ..old(bus).shared.recording
            },
            log: final(bus).shared.log,
            ..old(bus).shared
        }),
        recorder::file_finished(old(bus).recorder, done),
        closed(old(bus).shared, final(bus).shared, done, path),
{
    bus.recording_active = false;
    let taken: Option<SerRecorder<W>> = bus.recorder.take();
    match taken {
        Some(rec) => {
            let done: Result<(u32, Tape<W>), SerError> = rec.finalize();
            match &done {
                Ok(d) => {
                    let note: String = "saved ".to_owned().concat(path.as_str()).concat(
                        " (",
                    ).concat(text::number(d.0 as u64).as_str()).concat(" frames)");
                    bus.shared.recording.last_file = Some(path);
                    bus.log(note);
                },
                Err(e) => {
                    bus.log("finalizing SER: ".to_owned().concat(e.describe().as_str()));
                },
            }
            Some(done)
        },
        None => None,
    }
}

/// A run that nothing stops goes through all of its videos, each once and in order, and is over
/// after the last one: then nothing is armed, and nothing is published as recording.
pub proof fn law_run_goes_through_every_video<W: SerOutput>(run: RecordRun, bus: Bus<W>)
    requires
        run.video == 0,
    ensures
        forall|k: nat|
            k <= total_of(run.cfg) ==> #[trigger] after_videos(run, k) == Some(
                RecordRun { video: k as usize, ..run },
            ),
        after_videos(run, (total_of(run.cfg) + 1) as nat) is None,
        !idle(bus).recording_active,
        !idle(bus).shared.recording.active,
        idle(bus).shared.recording.phase == RecordPhase::Idle,
{
    assert forall|k: nat| k <= total_of(run.cfg) implies #[trigger] after_videos(run, k) == Some(
        RecordRun { video: k as usize, ..run },
    ) by {
        lemma_after_videos(run, k);
    }
    lemma_after_videos(run, total_of(run.cfg) as nat);
}

proof fn lemma_after_videos(run: RecordRun, k: nat)
    requires
        run.video == 0,
        k <= total_of(run.cfg),
    ensures
        after_videos(run, k) == Some(RecordRun { video: k as usize, ..run }),
    decreases k,
{
    if k > 0 {
        lemma_after_videos(run, (k - 1) as nat);
    }
}

/// A video that frames end holds exactly as many when it is found complete, whatever else arrives
/// before it is closed, and the finished file counts them.
pub proof fn law_video_holds_its_frames<W: SerOutput>(
    run: RecordRun,
    n: u64,
    bus: Bus<W>,
    elapsed: Scalar,
    later: SerRecorder<W>,
    status: (RecordStatus, RecordStatus),
    payload: Seq<u8>,
    now: Option<UnixTime>,
    done: (u32, Tape<W>),
)
    requires
        bus.wf(),
        run.cfg.stop == RecordStop::Frames(n),
        bus.record_limit == frame_limit(run.cfg.stop),
        budget_met(run.cfg.stop, open_frames(bus), elapsed),
        bus.recorder matches Some(rec) && bus::frame_recorded(
            rec,
            later,
            bus.record_limit,
            status.0,
            status.1,
            payload,
            now,
        ),
        recorder::file_finished(Some(later), Some(Ok(done))),
    ensures
        Some(later) == bus.recorder,
        status.1 == status.0,
        later.written() == n,
        done.0 == n,
{
}

/// A video of a run came to its end without a stop request: it was found complete, and its file was
/// finished.
pub open spec fn video_made<W: SerOutput>(
    run: RecordRun,
    bus: Bus<W>,
    elapsed: Scalar,
    done: (u32, Tape<W>),
) -> bool {
    &&& bus.wf()
    &&& bus.record_limit == frame_limit(run.cfg.stop)
    &&& budget_met(run.cfg.stop, open_frames(bus), elapsed)
    &&& recorder::file_finished(bus.recorder, Some(Ok(done)))
}

/// A run that nothing stops makes one file for each of its videos, and where frames end a video
/// every file counts exactly as many.
pub proof fn law_run_makes_every_video<W: SerOutput>(
    run: RecordRun,
    videos: Seq<(RecordRun, Bus<W>, Scalar, (u32, Tape<W>))>,
)
    requires
        run.video == 0,
        forall|k: int|
            0 <= k < videos.len() ==> {
                let v = #[trigger] videos[k];
                &&& next_video(
                    if k == 0 {
                        run
                    } else {
                        videos[k - 1].0
                    },
                    false,
                ) == Some(v.0)
                &&& video_made(v.0, v.1, v.2, v.3)
            },
        next_video(
            if videos.len() == 0 {
                run
            } else {
                videos.last().0
            },
            false,
        ) is None,
    ensures
        videos.len() == total_of(run.cfg),
        forall|k: int|
            0 <= k < videos.len() ==> (#[trigger] videos[k]).0 == (RecordRun {
                video: (k + 1) as usize,
                ..run
            }),
        forall|k: int|
            0 <= k < videos.len() ==> (run.cfg.stop matches RecordStop::Frames(n) ==> (
            #[trigger] videos[k]).3.0 == n),
{
    lemma_videos_in_order(run, videos, videos.len());
    if videos.len() > 0 {
        assert(videos.last() == videos[videos.len() - 1]);
    }
}

proof fn lemma_videos_in_order<W: SerOutput>(
    run: RecordRun,
    videos: Seq<(RecordRun, Bus<W>, Scalar, (u32, Tape<W>))>,
    m: nat,
)
    requires
        run.video == 0,
        m <= videos.len(),
        forall|k: int|
            0 <= k < videos.len() ==> next_video(
                if k == 0 {
                    run
                } else {
                    videos[k - 1].0
                },
                false,
            ) == Some((#[trigger] videos[k]).0),
    ensures
        m <= total_of(run.cfg),
        forall|k: int|
            0 <= k < m ==> (#[trigger] videos[k]).0 == (RecordRun { video: (k + 1) as usize, ..run }),
    decreases m,
{
    if m > 0 {
        lemma_videos_in_order(run, videos, (m - 1) as nat);
        assert(videos[m - 1].0.video == m);
    }
}

/// A file takes what the stream delivers: made for MJPEG it takes three bytes a pixel, made for a raw
/// stream it takes payloads of the length last seen, of one byte or of two bytes a pixel.
pub proof fn law_file_takes_the_stream(cfa: Option<Seq<char>>, w: u32, h: u32, raw_len: usize)
    requires
        w > 0,
        h > 0,
    ensures
        ({
            let (color, depth) = format_of(true, cfa, w, h, raw_len);
            &&& color == SerColor::Rgb && depth == 8
            &&& recorder::frame_bytes(w, h, color, depth) == 3 * (w * h)
        }),
        ({
            let (color, depth) = format_of(false, cfa, w, h, raw_len);
            &&& raw_len == w * h ==> depth == 8
            &&& raw_len == 2 * (w * h) ==> depth == 16
            &&& raw_len == 0 ==> depth == 8
            &&& raw_len == w * h || raw_len == 2 * (w * h) ==> recorder::frame_bytes(
                w,
                h,
                color,
                depth,
            ) == raw_len
            &&& cfa is None ==> color == SerColor::Mono
            &&& cfa matches Some(s) ==> color == SerColor::named(s)
            &&& color != SerColor::Rgb
        }),
{
    let n = w * h;
    assert(n > 0) by (nonlinear_arith)
        requires
            w > 0,
            h > 0,
            n == w * h,
    ;
    assert(n / n == 1 && (2 * n) / n == 2 && 0int / n == 0) by (nonlinear_arith)
        requires
            n > 0,
    ;
    assert(n * 3 * 1 == 3 * n && n * 1 * 1 == n && n * 1 * 2 == 2 * n) by (nonlinear_arith);
}

/// Without pixels there is no depth to tell: eight bits.
pub proof fn law_depth_without_pixels(w: u32, h: u32, raw_len: usize)
    ensures
        w == 0 || h == 0 ==> raw_depth(w, h, raw_len) == 8,
        raw_depth(w, h, raw_len) == 8 || raw_depth(w, h, raw_len) == 16,
{
    assert(w == 0 || h == 0 ==> w * h == 0) by (nonlinear_arith);
}

/// A video is named by when its run began and by its number, three digits wide.
pub proof fn law_videos_are_named_by_number(base: u64, i: usize)
    ensures
        name_of(base, i) == "solar_"@ + text::decimal(base as nat) + "_"@ + text::three_wide(
            text::decimal(i as nat),
        ) + ".ser"@,
{
}

/// A run makes as many videos as asked for, but at least one; a stopped run makes no more, and each
/// video is the next in number with everything else as it was.
pub proof fn law_run_counts_its_videos(run: RecordRun, stop: bool)
    ensures
        total_of(run.cfg) >= 1,
        run.cfg.count >= 1 ==> total_of(run.cfg) == run.cfg.count,
        run.cfg.count == 0 ==> total_of(run.cfg) == 1,
        stop ==> next_video(run, stop) is None,
        run.video >= total_of(run.cfg) ==> next_video(run, stop) is None,
        !stop && run.video < total_of(run.cfg) ==> (next_video(run, stop) matches Some(next) && {
            &&& next.video == run.video + 1
            &&& next.cfg == run.cfg && next.mjpeg == run.mjpeg && next.cfa == run.cfa
            &&& next.base == run.base
        }),
{
}

/// A video is over when it has its frames, or its time has passed; only a video by frames has a
/// limit, and what is open counts as written.
pub proof fn law_video_is_over_at_its_budget<W: SerOutput>(
    b: Bus<W>,
    n: u64,
    secs: Scalar,
    frames: nat,
    elapsed: Scalar,
)
    ensures
        budget_met(RecordStop::Frames(n), frames, elapsed) <==> n <= frames,
        budget_met(RecordStop::Seconds(secs), frames, elapsed) <==> secs.at_most(elapsed),
        frame_limit(RecordStop::Frames(n)) == Some(n),
        frame_limit(RecordStop::Seconds(secs)) is None,
        b.recorder matches Some(rec) ==> open_frames(b) == rec.written(),
        b.recorder is None ==> open_frames(b) == 0,
{
}

/// Between two videos a run rests as long as asked for; behind the last one, where no pause is asked
/// for, or once it is stopped, it does not.
pub proof fn law_run_rests_between_videos(run: RecordRun, stop: bool)
    ensures
        run.rests(stop) <==> {
            &&& !stop
            &&& run.video < total_of(run.cfg)
            &&& (Scalar { bits: 0 }).below(run.cfg.delay_secs)
        },
{
}

/// A run that is over records nothing and says so, and leaves everything else as it was.
pub proof fn law_idle_keeps_the_counts<W: SerOutput>(b: Bus<W>)
    ensures
        !idle(b).recording_active,
        !idle(b).shared.recording.active,
        idle(b).shared.recording.phase == RecordPhase::Idle,
        idle(b).shared.recording.last_file == b.shared.recording.last_file,
        idle(b).shared.recording.frames_written == b.shared.recording.frames_written,
        idle(b).shared.recording.dropped == b.shared.recording.dropped,
        idle(b).shared.recording.current == b.shared.recording.current,
        idle(b).recorder == b.recorder,
        idle(b).shared.log == b.shared.log,
{
}

/// A saved video is named in the log with its frame count and becomes the last file; one that could
/// not be finished is named with the reason and does not.
pub proof fn law_saved_videos_are_named<W: SerOutput>(
    before: Shared,
    after: Shared,
    done: Option<Result<(u32, Tape<W>), SerError>>,
    path: String,
)
    requires
        closed(before, after, done, path),
    ensures
        done matches Some(Ok(d)) ==> after.recording.last_file == Some(path) && after.lines()
            == bus::logged(
            before.lines(),
            "saved "@ + path@ + " ("@ + text::decimal(d.0 as nat) + " frames)"@,
        ),
        done matches Some(Err(e)) ==> after.recording.last_file == before.recording.last_file
            && after.lines() == bus::logged(before.lines(), "finalizing SER: "@ + e.words()),
        done is None ==> after.recording.last_file == before.recording.last_file && after.log
            == before.log,
{
}

/// A video that begins is named with its number, the number of videos, its size and depth, and its
/// path.
pub proof fn law_beginning_videos_are_named(i: usize, total: usize, f: VideoFile, path: Seq<char>)
    ensures
        video_note(i, total, f, path) == "recording "@ + text::decimal(i as nat) + "/"@
            + text::decimal(total as nat) + " ("@ + text::decimal(f.w as nat) + "×"@
            + text::decimal(f.h as nat) + ", "@ + text::decimal(f.depth as nat) + "-bit) → "@ + path,
        no_frames() == "recording: no frames — is the stream running?"@,
        GEOMETRY_TIMEOUT_MS == 5000,
        GEOMETRY_POLL_MS == 50,
        RECORD_POLL_MS == 100,
{
}

/// A frame has a size where it has columns and rows.
pub proof fn law_size_takes_columns_and_rows(f: Frame)
    ensures
        has_size(Some(f)) <==> f.width > 0 && f.height > 0,
        !has_size(None),
{
}

} // verus!
