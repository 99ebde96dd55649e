//! What one repaint does besides answering controls: the live view, the graphs, held buttons and
//! the automation hooks.

use super::roi::{self, drag_to_roi, Drag};
use super::{App, Histogram, Hooks, LiveView, RoiInputs, Settings};
use super::{LOG_TAIL, PLOT_WINDOW, SCREENSHOT_FRAMES};
use crate::bus::{self, Bus, Command, ConnState, Dir, IndiState, Shared};
use crate::frame::{self, DisplayImage, Frame};
use crate::recorder::SerOutput;
use crate::scalar::Scalar;
use vstd::prelude::*;

verus! {

/// Where the next texture comes from.
#[derive(Clone, Copy, Debug, PartialEq, Eq, Structural)]
pub enum Upload {
    /// The image that the worker has published.
    Published,
    /// The latest frame, stretched anew.
    Rerendered,
    Nothing,
}

/// Whether the worker has published an image that is not on display.
pub open spec fn news<W: SerOutput>(view: LiveView, bus: Bus<W>) -> bool {
    bus.display_seq != view.last_seq && bus.display is Some
}

/// Whether a still frame has to be stretched anew: a display control moved, and no frames come.
pub open spec fn stale<W: SerOutput>(view: LiveView, bus: Bus<W>, streaming: bool) -> bool {
    view.dirty && !streaming && bus.latest_frame is Some
}

impl LiveView {
    /// Refresh the texture from the newest frame. While streaming the worker has done the stretch
    /// already; only an adjustment of a paused view makes the last frame render here.
    pub fn refresh_texture<W: SerOutput>(&mut self, bus: &Bus<W>, streaming: bool) -> (u: Upload)
        ensures
            u == if news(*old(self), *bus) {
                Upload::Published
            } else if stale(*old(self), *bus, streaming) {
                Upload::Rerendered
            } else {
                Upload::Nothing
            },
            *final(self) == match u {
                Upload::Published => LiveView {
                    last_seq: bus.display_seq,
                    dirty: false,
                    ..*old(self)
                },
                Upload::Rerendered => LiveView { dirty: false, ..*old(self) },
                Upload::Nothing => *old(self),
            },
    {
        if bus.display_seq != self.last_seq && bus.display.is_some() {
            self.last_seq = bus.display_seq;
            self.dirty = false;
            return Upload::Published;
        }
        if self.dirty && !streaming && bus.latest_frame.is_some() {
            self.dirty = false;
            return Upload::Rerendered;
        }
        Upload::Nothing
    }

    /// A display control moved: the worker applies the stretch to new frames, and a paused still
    /// frame is rendered again on the next repaint.
    pub fn stretch_changed<W: SerOutput>(&mut self, bus: &mut Bus<W>)
        ensures
            *final(self) == (LiveView { dirty: true, ..*old(self) }),
            *final(bus) == (Bus {
                auto_stretch: old(self).auto_stretch,
                display_gain: old(self).gain,
                ..*old(bus)
            }),
    {
        bus.set_display_settings(self.auto_stretch, self.gain);
        self.dirty = true;
    }
}

/// A published image is shown: whatever image is on display, the next one published is news.
pub proof fn law_published_image_is_news<W: SerOutput>(
    view: LiveView,
    before: Bus<W>,
    after: Bus<W>,
    img: DisplayImage,
)
    requires
        view.last_seq == before.display_seq,
        after == (Bus {
            display: Some(img),
            display_seq: bus::seq_after(before.display_seq),
            ..before
        }),
    ensures
        news(view, after),
{
}

/// An image is uploaded once: right after a refresh there is nothing more to upload.
pub proof fn law_image_is_uploaded_once<W: SerOutput>(view: LiveView, bus: Bus<W>, streaming: bool)
    requires
        news(view, bus),
    ensures
        ({
            let shown = LiveView { last_seq: bus.display_seq, dirty: false, ..view };
            !news(shown, bus) && !stale(shown, bus, streaming)
        }),
{
}

impl Histogram {
    /// Recompute the histogram when a new frame has arrived; whether there is one to show.
    pub fn refresh(&mut self, frame: Option<&Frame>) -> (any: bool)
        requires
            frame matches Some(f) ==> f.rgba@.len() / 4 <= u32::MAX,
        ensures
            any == (final(self).seq != 0),
            match frame {
                Some(f) => if f.seq != old(self).seq {
                    &&& final(self).seq == f.seq
                    &&& final(self).max_adu == f.max_adu
                    &&& forall|v: int|
                        0 <= v < 256 ==> #[trigger] final(self).bins@[v] == frame::luma_count(
                            f.rgba@,
                            f.rgba@.len() / 4,
                            v,
                        )
                } else {
                    *final(self) == *old(self)
                },
                None => *final(self) == *old(self),
            },
    {
        if let Some(f) = frame {
            if f.seq != self.seq {
                self.seq = f.seq;
                self.bins = f.luma_histogram();
                self.max_adu = f.max_adu;
            }
        }
        self.seq != 0
    }

    /// Bits per sample of the frame behind the histogram.
    pub fn depth(&self) -> (bits: u8)
        ensures
            bits == if self.max_adu > 255 {
                16u8
            } else {
                8u8
            },
    {
        if self.max_adu > 255 {
            16
        } else {
            8
        }
    }

    /// The tallest bin, to which the bars are scaled; at least one.
    pub fn peak(&self) -> (p: u32)
        ensures
            p >= 1,
            forall|i: int| 0 <= i < 256 ==> #[trigger] self.bins@[i] <= p,
            p == 1 || exists|i: int| 0 <= i < 256 && #[trigger] self.bins@[i] == p,
    {
        let mut p: u32 = 1;
        let mut i: usize = 0;
        while i < 256
            invariant
                i <= 256,
                p >= 1,
                forall|j: int| 0 <= j < i ==> #[trigger] self.bins@[j] <= p,
                p == 1 || exists|j: int| 0 <= j < i && #[trigger] self.bins@[j] == p,
            decreases 256 - i,
        {
            if self.bins[i] > p {
                p = self.bins[i];
            }
            i = i + 1;
        }
        p
    }
}

/// The directions of a button of the nudge pad, in row-major order around the centre. A corner
/// drives both motion axes at once, for a diagonal slew.
pub open spec fn pad(button: int) -> Seq<Dir> {
    if button == 0 {
        seq![Dir::North, Dir::West]
    } else if button == 1 {
        seq![Dir::North]
    } else if button == 2 {
        seq![Dir::North, Dir::East]
    } else if button == 3 {
        seq![Dir::West]
    } else if button == 4 {
        seq![Dir::East]
    } else if button == 5 {
        seq![Dir::South, Dir::West]
    } else if button == 6 {
        seq![Dir::South]
    } else {
        seq![Dir::South, Dir::East]
    }
}

/// The directions of a button of the nudge pad.
pub fn nudge_dirs(button: usize) -> (dirs: Vec<Dir>)
    requires
        button < 8,
    ensures
        dirs@ == pad(button as int),
{
    let mut dirs: Vec<Dir> = Vec::new();
    if button <= 2 {
        dirs.push(Dir::North);
    }
    if button >= 5 {
        dirs.push(Dir::South);
    }
    if button == 0 || button == 3 || button == 5 {
        dirs.push(Dir::West);
    }
    if button == 2 || button == 4 || button == 7 {
        dirs.push(Dir::East);
    }
    proof {
        assert(dirs@ =~= pad(button as int));
    }
    dirs
}

/// One nudge for each direction of a button.
pub open spec fn nudges(button: int, active: bool) -> Seq<Command> {
    pad(button).map_values(|dir: Dir| Command::Nudge { dir, active })
}

impl App {
    /// Poll a button of the nudge pad: the commands to send, where it went down or up.
    pub fn nudge(&mut self, button: usize, down: bool) -> (cmds: Vec<Command>)
        requires
            button < 8,
        ensures
            cmds@ == if down == old(self).nudge_down@[button as int] {
                Seq::empty()
            } else {
                nudges(button as int, down)
            },
            final(self).nudge_down@ == old(self).nudge_down@.update(button as int, down),
            *final(self) == (App { nudge_down: final(self).nudge_down, ..*old(self) }),
    {
        let mut cmds: Vec<Command> = Vec::new();
        if down != self.nudge_down[button] {
            self.nudge_down[button] = down;
            let dirs = nudge_dirs(button);
            let mut i: usize = 0;
            while i < dirs.len()
                invariant
                    i <= dirs@.len(),
                    dirs@ == pad(button as int),
                    cmds@ == nudges(button as int, down).subrange(0, i as int),
                decreases dirs@.len() - i,
            {
                cmds.push(Command::Nudge { dir: dirs[i], active: down });
                i = i + 1;
                assert(cmds@ =~= nudges(button as int, down).subrange(0, i as int));
            }
            assert(cmds@ =~= nudges(button as int, down));
        }
        assert(self.nudge_down@ =~= old(self).nudge_down@.update(button as int, down));
        cmds
    }

    /// Seed the ROI and binning inputs from the driver the first time the sensor size is reported,
    /// and again when it changes (another camera).
    pub fn seed_roi(&mut self, s: &Shared)
        ensures
            *final(self) == if s.sensor_w > 0 && (s.sensor_w, s.sensor_h) != old(
                self,
            ).roi.seeded_for {
                App {
                    roi: RoiInputs {
                        seeded_for: (s.sensor_w, s.sensor_h),
                        ..super::with_region(old(self).roi, roi::region(s.roi))
                    },
                    settings: Settings {
                        bin: if s.binning == 0 {
                            1
                        } else {
                            s.binning
                        },
                        ..old(self).settings
                    },
                    ..*old(self)
                }
            } else {
                *old(self)
            },
    {
        let (w, h) = self.roi.seeded_for;
        if s.sensor_w > 0 && (s.sensor_w != w || s.sensor_h != h) {
            self.roi.seeded_for = (s.sensor_w, s.sensor_h);
            self.roi.enter(s.roi);
            self.settings.bin = if s.binning == 0 {
                1
            } else {
                s.binning
            };
        }
    }

    /// A drag on the live view ended: a selection of `size` on screen goes into the ROI inputs.
    /// One narrower or lower than three points is an accidental click.
    pub fn finish_drag(
        &mut self,
        size: (Scalar, Scalar),
        image: (Scalar, Scalar),
        drag: Drag,
        current: (u32, u32, u32, u32),
    )
        requires
            current.0 + current.2 <= u32::MAX,
            current.1 + current.3 <= u32::MAX,
        ensures
            *final(self) == (App { roi: final(self).roi, ..*old(self) }),
            final(self).roi == if !deliberate(size) {
                old(self).roi
            } else if image.0.at_most(Scalar::zero()) || image.1.at_most(Scalar::zero())
                || current.2 == 0 || current.3 == 0 {
                super::with_region(old(self).roi, roi::region(current))
            } else {
                super::with_region(old(self).roi, roi::dragged(drag, roi::region(current)))
            },
    {
        let least = Scalar { bits: MIN_DRAG_BITS };
        if least.le(size.0) && least.le(size.1) {
            self.roi.enter(drag_to_roi(image, drag, current));
        }
    }

    /// Whether to keep repainting: frames to pull, held buttons to poll, or a screenshot to wait
    /// for.
    pub fn wants_repaint(&self, streaming: bool) -> (on: bool)
        ensures
            on <==> {
                ||| streaming
                ||| exists|i: int| 0 <= i < 8 && #[trigger] self.nudge_down@[i]
                ||| self.hooks.screenshot && !self.hooks.screenshot_requested
            },
    {
        let mut i: usize = 0;
        while i < 8
            invariant
                i <= 8,
                forall|j: int| 0 <= j < i ==> !#[trigger] self.nudge_down@[j],
            decreases 8 - i,
        {
            if self.nudge_down[i] {
                return true;
            }
            i = i + 1;
        }
        streaming || (self.hooks.screenshot && !self.hooks.screenshot_requested)
    }

    /// Run the automation hooks: each acts once, when its time has come.
    pub fn automate(&mut self, s: &Shared) -> (due: Due)
        ensures
            *final(self) == (App { hooks: final(self).hooks, ..*old(self) }),
            automated(old(self).hooks, final(self).hooks, *s, due),
            due.connect matches Some(c) ==> c matches Command::Connect { addr } && addr@ == old(
                self,
            ).addr@,
            due.stream matches Some(c) ==> c is StartStream,
    {
        let mut due = Due { connect: None, stream: None, screenshot: false };
        if self.hooks.autoconnect && !self.hooks.did_autoconnect {
            self.hooks.did_autoconnect = true;
            due.connect = Some(Command::Connect { addr: self.addr.clone() });
        }
        if self.hooks.autostream && !self.hooks.did_autostream && s.conn
            == ConnState::Connected {
            self.hooks.did_autostream = true;
            due.stream = Some(Command::StartStream);
        }
        if self.hooks.screenshot && !self.hooks.screenshot_requested && s.frame_count
            >= SCREENSHOT_FRAMES {
            self.hooks.screenshot_requested = true;
            due.screenshot = true;
        }
        due
    }
}

/// Releasing a button stops exactly what pressing it started: the same directions, in the same
/// order.
pub proof fn law_release_stops_what_the_press_started(button: int)
    ensures
        nudges(button, true).len() == nudges(button, false).len(),
        forall|i: int|
            0 <= i < nudges(button, true).len() ==> {
                &&& #[trigger] nudges(button, true)[i] matches Command::Nudge { dir, active }
                &&& active
                &&& nudges(button, false)[i] == Command::Nudge { dir, active: false }
            },
{
}

/// A button never drives an axis both ways.
pub proof fn law_no_button_drives_an_axis_both_ways(button: int)
    ensures
        !(pad(button).contains(Dir::North) && pad(button).contains(Dir::South)),
        !(pad(button).contains(Dir::East) && pad(button).contains(Dir::West)),
{
}

/// Bit pattern of three, the smallest side of a deliberate drag on screen.
pub const MIN_DRAG_BITS: u64 = 0x4008_0000_0000_0000;

/// Whether a selection of this size on screen is more than an accidental click.
pub open spec fn deliberate(size: (Scalar, Scalar)) -> bool {
    let least = Scalar { bits: MIN_DRAG_BITS };
    least.at_most(size.0) && least.at_most(size.1)
}

/// What the automation hooks ask for in one repaint.
#[derive(Debug)]
pub struct Due {
    pub connect: Option<Command>,
    pub stream: Option<Command>,
    /// Take a screenshot.
    pub screenshot: bool,
}

/// What the automation hooks do in one repaint.
pub open spec fn automated(before: Hooks, after: Hooks, s: Shared, due: Due) -> bool {
    let connect = before.autoconnect && !before.did_autoconnect;
    let stream = before.autostream && !before.did_autostream && s.conn == ConnState::Connected;
    let shot = before.screenshot && !before.screenshot_requested && s.frame_count
        >= SCREENSHOT_FRAMES;
    &&& due.connect is Some <==> connect
    &&& due.stream is Some <==> stream
    &&& due.screenshot == shot
    &&& after == (Hooks {
        did_autoconnect: before.did_autoconnect || connect,
        did_autostream: before.did_autostream || stream,
        screenshot_requested: before.screenshot_requested || shot,
        ..before
    })
}

/// What a hook has done in one repaint it does not do in the next.
pub proof fn law_hooks_act_once(
    h0: Hooks,
    h1: Hooks,
    h2: Hooks,
    s1: Shared,
    s2: Shared,
    first: Due,
    second: Due,
)
    requires
        automated(h0, h1, s1, first),
        automated(h1, h2, s2, second),
    ensures
        !(first.connect is Some && second.connect is Some),
        !(first.stream is Some && second.stream is Some),
        !(first.screenshot && second.screenshot),
{
}

/// Infer the effective streamed bit depth from the latest raw payload size vs. frame geometry.
/// `None` when unknown: no raw frame yet, or a stream of JPEGs.
pub fn stream_depth<W: SerOutput>(bus: &Bus<W>) -> (depth: Option<u8>)
    ensures
        depth == depth_of(bus.frame_w * bus.frame_h, bus.last_raw_len as int),
{
    let (w, h) = bus.frame_geometry();
    let len: usize = bus.last_raw_len();
    proof {
        assert(0 <= w * h <= 0xFFFF_FFFF * 0xFFFF_FFFF) by (nonlinear_arith)
            requires
                0 <= w <= 0xFFFF_FFFF,
                0 <= h <= 0xFFFF_FFFF,
        ;
    }
    let px: u64 = w as u64 * h as u64;
    if px == 0 || len == 0 {
        return None;
    }
    proof {
        let l = len as int;
        let p = px as int;
        assert(l / p == 0 <==> l < p) by (nonlinear_arith)
            requires
                l > 0,
                p > 0,
        ;
        assert(l / p >= 2 <==> l >= 2 * p) by (nonlinear_arith)
            requires
                l > 0,
                p > 0,
        ;
    }
    let samples: u64 = len as u64 / px;
    if samples >= 2 {
        Some(16)
    } else if samples == 1 {
        Some(8)
    } else {
        None
    }
}

/// The bit depth of a payload of `len` bytes for `px` pixels.
pub open spec fn depth_of(px: int, len: int) -> Option<u8> {
    if px == 0 || len < px {
        None
    } else if len >= 2 * px {
        Some(16)
    } else {
        Some(8)
    }
}

/// The last lines of the log, oldest first.
pub fn log_tail(s: &Shared) -> (tail: Vec<String>)
    ensures
        tail@ == s.log@.subrange(
            if s.log@.len() > LOG_TAIL {
                s.log@.len() - LOG_TAIL
            } else {
                0
            },
            s.log@.len() as int,
        ),
{
    let n: usize = s.log.len();
    let from: usize = if n > LOG_TAIL {
        n - LOG_TAIL
    } else {
        0
    };
    let mut tail: Vec<String> = Vec::new();
    let mut i: usize = from;
    while i < n
        invariant
            from <= i <= n,
            n == s.log@.len(),
            tail@ == s.log@.subrange(from as int, i as int),
        decreases n - i,
    {
        tail.push(s.log[i].clone());
        i = i + 1;
        assert(tail@ =~= s.log@.subrange(from as int, i as int));
    }
    tail
}

/// Ends of the time axis of a graph with `n` samples: a rolling window, so that the trace scrolls
/// rather than compressing.
pub fn plot_window(n: usize) -> (x: (usize, usize))
    ensures
        x.0 == if n > PLOT_WINDOW {
            n - PLOT_WINDOW
        } else {
            0
        },
        x.1 == if n > PLOT_WINDOW {
            n
        } else {
            PLOT_WINDOW
        },
{
    if n > PLOT_WINDOW {
        (n - PLOT_WINDOW, n)
    } else {
        (0, PLOT_WINDOW)
    }
}

/// Fewest readings from which a focus trend is told.
pub const TREND_MIN: usize = 6;

/// Most readings that a focus trend looks at.
pub const TREND_MAX: usize = 20;

/// How many of `n` focus readings a trend looks at, newest first, and how many of those are the
/// recent half; `None` while there are too few.
pub fn trend_window(n: usize) -> (split: Option<(usize, usize)>)
    ensures
        split == if n < TREND_MIN {
            None
        } else if n < TREND_MAX {
            Some((n, n / 2))
        } else {
            Some((TREND_MAX, TREND_MAX / 2))
        },
{
    if n < TREND_MIN {
        None
    } else if n < TREND_MAX {
        Some((n, n / 2))
    } else {
        Some((TREND_MAX, TREND_MAX / 2))
    }
}

/// Which way the focus goes.
#[derive(Clone, Copy, Debug, PartialEq, Eq, Structural)]
pub enum Trend {
    Rising,
    Falling,
    Steady,
}

/// The trend of the mean of the recent readings against the band around the mean of the older
/// ones, so that a small seeing wobble does not flip it.
pub fn trend(recent: Scalar, low: Scalar, high: Scalar) -> (t: Trend)
    ensures
        t == if high.below(recent) {
            Trend::Rising
        } else if recent.below(low) {
            Trend::Falling
        } else {
            Trend::Steady
        },
{
    if high.lt(recent) {
        Trend::Rising
    } else if recent.lt(low) {
        Trend::Falling
    } else {
        Trend::Steady
    }
}

/// The word shown for a state.
pub open spec fn state_word(state: IndiState) -> Seq<char> {
    match state {
        IndiState::Idle => "idle"@,
        IndiState::Okay => "ok"@,
        IndiState::Busy => "busy"@,
        IndiState::Alert => "alert"@,
    }
}

/// Color (red, green, blue) and hover text for an INDI property or light state LED.
pub fn led_color(state: IndiState) -> (led: ((u8, u8, u8), &'static str))
    ensures
        led.1@ == state_word(state),
        led.0 == match state {
            IndiState::Idle => (160u8, 160u8, 160u8),
            IndiState::Okay => (0x3cu8, 0xb3u8, 0x71u8),
            IndiState::Busy => (0xd4u8, 0xa0u8, 0x17u8),
            IndiState::Alert => (0xc0u8, 0x39u8, 0x2bu8),
        },
{
    match state {
        IndiState::Idle => ((160, 160, 160), "idle"),
        IndiState::Okay => ((0x3c, 0xb3, 0x71), "ok"),
        IndiState::Busy => ((0xd4, 0xa0, 0x17), "busy"),
        IndiState::Alert => ((0xc0, 0x39, 0x2b), "alert"),
    }
}

/// The pad is laid out as a compass: the upper row moves North, the lower row South, the left column
/// West and the right column East, and a corner moves both ways.
pub proof fn law_pad_is_a_compass(button: int)
    requires
        0 <= button < 8,
    ensures
        pad(button).contains(Dir::North) <==> button <= 2,
        pad(button).contains(Dir::South) <==> button >= 5,
        pad(button).contains(Dir::West) <==> button == 0 || button == 3 || button == 5,
        pad(button).contains(Dir::East) <==> button == 2 || button == 4 || button == 7,
        pad(button).len() == if button == 1 || button == 3 || button == 4 || button == 6 {
            1int
        } else {
            2
        },
{
    let p = pad(button);
    assert(p.len() == 1 || p.len() == 2);
    assert(p.contains(p[0]));
    if p.len() == 2 {
        assert(p.contains(p[1]));
    }
}

/// Each direction of a button is nudged once, in its order, on or off as the button goes down or up.
pub proof fn law_buttons_nudge_their_directions(button: int, active: bool, i: int)
    requires
        0 <= i < pad(button).len(),
    ensures
        nudges(button, active).len() == pad(button).len(),
        nudges(button, active)[i] == (Command::Nudge { dir: pad(button)[i], active }),
{
}

/// An image is news where it has another number than the one shown; a still one is drawn again only
/// where a setting changed, no stream brings the next, and there is a frame.
pub proof fn law_what_is_drawn<W: SerOutput>(view: LiveView, b: Bus<W>, streaming: bool)
    ensures
        b.display is None ==> !news(view, b),
        b.display is Some ==> (news(view, b) <==> b.display_seq != view.last_seq),
        stale(view, b, streaming) <==> view.dirty && !streaming && b.latest_frame is Some,
{
}

/// A drag counts from three points in both directions.
pub proof fn law_small_drags_are_clicks(size: (Scalar, Scalar))
    ensures
        deliberate(size) <==> (Scalar { bits: 0x4008_0000_0000_0000 }).at_most(size.0) && (Scalar {
            bits: 0x4008_0000_0000_0000,
        }).at_most(size.1),
{
}

/// The hooks connect first, stream once connected, and take the picture behind the fifth frame; what
/// was not asked for is not done.
pub proof fn law_hooks_act_in_turn(h0: Hooks, h1: Hooks, s: Shared, due: Due)
    requires
        automated(h0, h1, s, due),
    ensures
        h0.autoconnect && !h0.did_autoconnect ==> due.connect is Some && h1.did_autoconnect,
        !h0.autoconnect ==> due.connect is None,
        due.stream is Some ==> s.conn == ConnState::Connected && h0.autostream && h1.did_autostream,
        h0.autostream && !h0.did_autostream && s.conn == ConnState::Connected ==> due.stream is Some,
        due.screenshot ==> s.frame_count >= 5 && h0.screenshot && h1.screenshot_requested,
        h0.screenshot && !h0.screenshot_requested && s.frame_count >= 5 ==> due.screenshot,
        h1.autoconnect == h0.autoconnect,
        h1.autostream == h0.autostream,
        h1.screenshot == h0.screenshot,
        SCREENSHOT_FRAMES == 5,
{
}

/// The depth of the stream shows by the length of its payloads: sixteen bits from two bytes a pixel
/// on, eight bits from one, and none is known below that or without pixels.
pub proof fn law_depth_shows_by_length(px: int, len: int)
    requires
        0 <= px,
        0 <= len,
    ensures
        px > 0 && len == px ==> depth_of(px, len) == Some(8u8),
        px > 0 && len == 2 * px ==> depth_of(px, len) == Some(16u8),
        px > 0 && px <= len < 2 * px ==> depth_of(px, len) == Some(8u8),
        px == 0 || len < px ==> depth_of(px, len) is None,
{
}

/// Each state has its word, and no two share one.
pub proof fn law_states_have_their_words(a: IndiState, b: IndiState)
    ensures
        state_word(IndiState::Idle) == "idle"@,
        state_word(IndiState::Okay) == "ok"@,
        state_word(IndiState::Busy) == "busy"@,
        state_word(IndiState::Alert) == "alert"@,
        a != b ==> state_word(a) != state_word(b),
{
    reveal_strlit("idle");
    reveal_strlit("ok");
    reveal_strlit("busy");
    reveal_strlit("alert");
    assert("idle"@.len() == 4 && "busy"@.len() == 4 && "idle"@[0] == 'i' && "busy"@[0] == 'b');
    assert("ok"@.len() == 2 && "alert"@.len() == 5);
}

/// The windows on what is shown: eight lines of the log, 300 points of a plot, and the newest six to
/// twenty readings for a trend.
pub proof fn law_windows_have_their_sizes()
    ensures
        super::LOG_TAIL == 8,
        super::PLOT_WINDOW == 300,
        TREND_MIN == 6,
        TREND_MAX == 20,
{
}

} // verus!
