//! The video pipeline: the hand-off slot, the decoding of payloads, and the duties that each
//! decoded frame brings.

use crate::bus;
use crate::bus::{Bus, Shared};
use crate::frame;
use crate::frame::{inflate_zlib, Frame, FrameError, InflateError, Stretch};
use crate::guiding::detector;
use crate::guiding::detector::{GuideDetector, GuideMode, Measurement};
use crate::guiding::GuideSample;
use crate::recorder::{SerOutput, UnixTime};
use crate::scalar::Scalar;
use crate::text;
use vstd::prelude::*;

verus! {

/// A raw, still-encoded video frame handed from the reader to the decoder.
pub struct RawFrame {
    pub data: Vec<u8>,
    pub format: Option<String>,
}

/// Latest-wins hand-off slot between the reader and the decoder.
///
/// The reader overwrites `latest` on every arriving frame; the decoder always takes the newest
/// one. Frames the decoder can't keep up with are dropped here rather than stalling the reader.
pub struct DecodeSlot {
    pub latest: Option<RawFrame>,
    pub stopped: bool,
}

impl DecodeSlot {
    /// An empty slot.
    pub fn new() -> (s: Self)
        ensures
            s.latest is None,
            !s.stopped,
    {
        DecodeSlot { latest: None, stopped: false }
    }

    /// Reader: publish the newest raw frame, dropping any still-undecoded one.
    pub fn push(&mut self, raw: RawFrame)
        ensures
            *final(self) == (DecodeSlot { latest: Some(raw), ..*old(self) }),
    {
        self.latest = Some(raw);
    }

    /// Reader: take up a payload as it arrives; an empty one is no frame. Returns whether it was
    /// published.
    pub fn receive(&mut self, raw: RawFrame) -> (took: bool)
        ensures
            took == (raw.data@.len() > 0),
            *final(self) == if took {
                DecodeSlot { latest: Some(raw), ..*old(self) }
            } else {
                *old(self)
            },
    {
        if raw.data.len() == 0 {
            return false;
        }
        self.push(raw);
        true
    }

    /// Whether the decoder has something to act on: a frame, or the end. While it has not, it
    /// blocks.
    pub fn ready(&self) -> (b: bool)
        ensures
            b == (self.latest is Some || self.stopped),
    {
        self.latest.is_some() || self.stopped
    }

    /// Decoder: take the newest frame, or `None` once shutdown is signalled and no frame remains.
    pub fn wait(&mut self) -> (r: Option<RawFrame>)
        requires
            old(self).latest is Some || old(self).stopped,
        ensures
            r == old(self).latest,
            *final(self) == (DecodeSlot { latest: None, ..*old(self) }),
    {
        self.latest.take()
    }

    /// Signal the decoder to exit.
    pub fn stop(&mut self)
        ensures
            *final(self) == (DecodeSlot { stopped: true, ..*old(self) }),
    {
        self.stopped = true;
    }
}

/// The slot after a row of pushes.
pub open spec fn pushed(slot: DecodeSlot, frames: Seq<RawFrame>) -> DecodeSlot
    decreases frames.len(),
{
    if frames.len() == 0 {
        slot
    } else {
        DecodeSlot { latest: Some(frames.last()), ..pushed(slot, frames.drop_last()) }
    }
}

/// However many frames arrive, the decoder gets the newest one; a stop that comes after it takes
/// nothing away, and leaves the decoder with nothing more to wait for.
pub proof fn law_newest_frame_wins(slot: DecodeSlot, frames: Seq<RawFrame>)
    requires
        frames.len() > 0,
    ensures
        ({
            let full = pushed(slot, frames);
            let stopped = DecodeSlot { stopped: true, ..full };
            &&& full.latest == Some(frames.last())
            &&& stopped.latest == Some(frames.last())
            &&& (DecodeSlot { latest: None, ..stopped }).stopped
        }),
{
}

/// A JPEG stream begins with the SOI marker `FF D8 FF`.
pub open spec fn jpeg_magic(data: Seq<u8>) -> bool {
    data.len() >= 3 && data[0] == 0xFF && data[1] == 0xD8 && data[2] == 0xFF
}

/// A zlib stream begins with a byte whose low nibble is 8 (deflate) and a byte that makes the two
/// a multiple of 31.
pub open spec fn zlib_magic(data: Seq<u8>) -> bool {
    data.len() >= 2 && data[0] % 16 == 8 && (256 * data[0] + data[1]) % 31 == 0
}

/// Whether a payload begins like a JPEG. Used to detect MJPEG frames a driver mislabels.
pub fn looks_like_jpeg(data: &[u8]) -> (b: bool)
    ensures
        b == jpeg_magic(data@),
{
    data.len() >= 3 && data[0] == 0xFF && data[1] == 0xD8 && data[2] == 0xFF
}

/// Whether a payload begins like a zlib stream.
pub fn looks_like_zlib(data: &[u8]) -> (b: bool)
    ensures
        b == zlib_magic(data@),
{
    if data.len() < 2 {
        return false;
    }
    let cmf: u16 = data[0] as u16;
    let flg: u16 = data[1] as u16;
    cmf % 16 == 8 && (256 * cmf + flg) % 31 == 0
}

/// The label of a stream payload says zlib.
pub open spec fn labelled_zlib(fmt: Option<Seq<char>>) -> bool {
    fmt matches Some(f) && f.len() >= 2 && f.subrange(f.len() - 2, f.len() as int) == ".z"@
}

fn is_zlib_label(fmt: Option<&str>) -> (b: bool)
    ensures
        b == labelled_zlib(text::chars(fmt)),
{
    proof {
        reveal_strlit(".z");
    }
    match fmt {
        Some(f) => text::ends_with(f, ".z"),
        None => false,
    }
}

/// A payload of `len` bytes is one frame of `w` x `h` pixels at 8 or 16 bits.
pub open spec fn holds_frame(w: u32, h: u32, len: nat) -> bool {
    w * h != 0 && (len == w * h || len == 2 * (w * h))
}

fn is_frame_len(w: u32, h: u32, len: usize) -> (b: bool)
    ensures
        b == holds_frame(w, h, len as nat),
{
    proof {
        assert(0 <= w * h <= 0xFFFF_FFFF * 0xFFFF_FFFF) by (nonlinear_arith)
            requires
                0 <= w <= 0xFFFF_FFFF,
                0 <= h <= 0xFFFF_FFFF,
        ;
    }
    let px: u128 = w as u128 * h as u128;
    px != 0 && (len as u128 == px || len as u128 == 2 * px)
}

/// The line logged when a driver streams the full sensor in place of the requested region.
pub open spec fn full_sensor_note(sw: u32, sh: u32, rw: u32, rh: u32) -> Seq<char> {
    "driver streamed full sensor "@ + text::decimal(sw as nat) + "×"@ + text::decimal(sh as nat)
        + ", not the requested ROI "@ + text::decimal(rw as nat) + "×"@ + text::decimal(rh as nat)
        + " — showing full frame (this camera may not support subframing the live stream)"@
}

/// The geometry that a raw payload of `len` bytes is decoded with: the requested one, but the full
/// sensor where only that matches.
pub open spec fn raw_geometry<W: SerOutput>(bus: Bus<W>, len: nat) -> (u32, u32) {
    if !holds_frame(bus.frame_w, bus.frame_h, len) && holds_frame(bus.sensor_w, bus.sensor_h, len) {
        (bus.sensor_w, bus.sensor_h)
    } else {
        (bus.frame_w, bus.frame_h)
    }
}

/// The bus after the geometry of a raw payload was resolved: where the full sensor was streamed
/// the stored geometry follows it and the discrepancy is logged.
pub open spec fn geometry_resolved<W: SerOutput>(before: Bus<W>, after: Bus<W>, len: nat) -> bool {
    let (w, h) = raw_geometry(before, len);
    if (w, h) == (before.frame_w, before.frame_h) {
        after == before
    } else {
        &&& after == (Bus { frame_w: w, frame_h: h, shared: after.shared, ..before })
        &&& after.shared.is_logged(
            before.shared,
            full_sensor_note(w, h, before.frame_w, before.frame_h),
        )
    }
}

/// Choose the `(width, height)` to decode a dimensionless raw frame with. Normally this is the
/// requested readout geometry, but some drivers stream the *full sensor* even after a subframe is
/// set. That is detected by comparing the payload length against both candidates; if only the full
/// sensor matches, the stored geometry is corrected (so recording sizes its SER file right too) and
/// the discrepancy is logged once. Falls back to the requested geometry when neither matches.
pub fn resolve_raw_geometry<W: SerOutput>(bus: &mut Bus<W>, len: usize) -> (r: (usize, usize))
    requires
        old(bus).wf(),
    ensures
        final(bus).wf(),
        r.0 == raw_geometry(*old(bus), len as nat).0,
        r.1 == raw_geometry(*old(bus), len as nat).1,
        geometry_resolved(*old(bus), *final(bus), len as nat),
{
    let (rw, rh) = bus.frame_geometry();
    if is_frame_len(rw, rh, len) {
        return (rw as usize, rh as usize);
    }
    let (sw, sh) = bus.sensor_size();
    if is_frame_len(sw, sh, len) && !(sw == rw && sh == rh) {
        bus.set_stream_geometry(sw, sh);
        let note: String = "driver streamed full sensor ".to_owned().concat(
            text::number(sw as u64).as_str(),
        ).concat("×").concat(text::number(sh as u64).as_str()).concat(
            ", not the requested ROI ",
        ).concat(text::number(rw as u64).as_str()).concat("×").concat(
            text::number(rh as u64).as_str(),
        ).concat(
            " — showing full frame (this camera may not support subframing the live stream)",
        );
        bus.log(note);
        return (sw as usize, sh as usize);
    }
    (rw as usize, rh as usize)
}

/// Why a payload could not be decoded.
#[derive(Debug)]
pub enum DecodeError {
    /// It is not a frame.
    Frame(FrameError),
    /// It could not be inflated.
    Inflate(InflateError),
}

/// What becomes of an uncompressed raw payload: the frame of its geometry, and its bytes for the
/// recording where one is armed.
pub open spec fn raw_decoded<W: SerOutput>(
    before: Bus<W>,
    after: Bus<W>,
    pixels: Seq<u8>,
    seq: u64,
    r: Result<(Frame, Option<Vec<u8>>), DecodeError>,
) -> bool {
    let sized = Bus { last_raw_len: pixels.len() as usize, ..before };
    let (w, h) = raw_geometry(before, pixels.len());
    &&& geometry_resolved(sized, after, pixels.len())
    &&& match r {
        Ok((f, rec)) => {
            &&& holds_frame(w, h, pixels.len())
            &&& f.width == w
            &&& f.height == h
            &&& f.seq == seq
            &&& f.wf()
            &&& pixels.len() == w * h ==> f.rgba@ == frame::gray_rgba(pixels) && f.raw16 is None
                && f.max_adu == 255
            &&& pixels.len() != w * h ==> f.rgba@ == frame::gray_rgba(frame::high_bytes(pixels))
                && (f.raw16 matches Some(s) && s@ == frame::samples16(pixels)) && f.max_adu == 65535
            &&& before.recording_active ==> (rec matches Some(bytes) && bytes@ == pixels)
            &&& !before.recording_active ==> rec is None
        },
        Err(e) => {
            &&& !holds_frame(w, h, pixels.len())
            &&& e == DecodeError::Frame(
                if 0 < w * h <= usize::MAX {
                    FrameError::LengthMismatch {
                        len: pixels.len() as usize,
                        width: w as usize,
                        height: h as usize,
                    }
                } else {
                    FrameError::UnknownGeometry
                },
            )
        },
    }
}

/// Decode one payload that is already uncompressed. Its bytes are copied only for a recording.
fn decode_raw<W: SerOutput>(bus: &mut Bus<W>, pixels: &[u8], seq: u64) -> (r: Result<
    (Frame, Option<Vec<u8>>),
    DecodeError,
>)
    requires
        old(bus).wf(),
    ensures
        final(bus).wf(),
        raw_decoded(*old(bus), *final(bus), pixels@, seq, r),
{
    bus.set_last_raw_len(pixels.len());
    let (w, h) = resolve_raw_geometry(bus, pixels.len());
    match Frame::from_raw_stream(pixels, w, h, seq) {
        Ok(f) => {
            let rec: Option<Vec<u8>> = if bus.recording_active() {
                Some(copy_bytes(pixels))
            } else {
                None
            };
            Ok((f, rec))
        },
        Err(e) => Err(DecodeError::Frame(e)),
    }
}

fn copy_bytes(data: &[u8]) -> (v: Vec<u8>)
    ensures
        v@ == data@,
{
    let mut v: Vec<u8> = Vec::with_capacity(data.len());
    let mut i: usize = 0;
    while i < data.len()
        invariant
            i <= data.len(),
            v@ == data@.take(i as int),
        decreases data.len() - i,
    {
        v.push(data[i]);
        i += 1;
        assert(v@ =~= data@.take(i as int));
    }
    assert(data@.take(i as int) =~= data@);
    v
}

impl RawFrame {
    /// The characters of the label.
    pub open spec fn label(&self) -> Option<Seq<char>> {
        match self.format {
            Some(f) => Some(f@),
            None => None,
        }
    }

    /// The payload is MJPEG, by its label or by its first bytes. Some drivers keep delivering MJPEG
    /// frames under another label.
    pub open spec fn is_jpeg(&self) -> bool {
        frame::labelled_jpeg(self.label()) || jpeg_magic(self.data@)
    }

    /// The payload is zlib-compressed, by its label or by its first bytes.
    pub open spec fn is_zlib(&self) -> bool {
        labelled_zlib(self.label()) || zlib_magic(self.data@)
    }
}

/// Decode one video payload into a [`Frame`], and return the native bytes to record when a
/// recording is armed. MJPEG is decoded as an image, and then there are no native bytes: the
/// recording takes the decoded colors instead. Raw streams, compressed or not, are interpreted
/// using the current readout geometry.
pub fn decode_frame<W: SerOutput>(bus: &mut Bus<W>, raw: &RawFrame, seq: u64) -> (r: Result<
    (Frame, Option<Vec<u8>>),
    DecodeError,
>)
    requires
        old(bus).wf(),
    ensures
        final(bus).wf(),
        raw.is_jpeg() ==> {
            let image = if frame::labelled_jpeg(raw.label()) {
                frame::jpeg_image(raw.data@)
            } else {
                frame::guessed_image(raw.data@)
            };
            &&& *final(bus) == *old(bus)
            &&& match r {
                Ok((f, rec)) => rec is None && frame::decoded_frame(Ok(f), image, seq),
                Err(e) => image is None && (e matches DecodeError::Frame(fe) && if frame::labelled_jpeg(
                    raw.label(),
                ) {
                    fe is Jpeg
                } else {
                    fe is Unsupported
                }),
            }
        },
        !raw.is_jpeg() && raw.is_zlib() ==> match frame::zlib_inflated(raw.data@) {
            Some(pixels) => raw_decoded(*old(bus), *final(bus), pixels, seq, r),
            None => *final(bus) == *old(bus) && r matches Err(DecodeError::Inflate(_)),
        },
        !raw.is_jpeg() && !raw.is_zlib() ==> raw_decoded(
            *old(bus),
            *final(bus),
            raw.data@,
            seq,
            r,
        ),
        r matches Ok(decoded) ==> decoded.0.wf(),
{
    let fmt: Option<&str> = match &raw.format {
        Some(f) => Some(f.as_str()),
        None => None,
    };
    assert(text::chars(fmt) == raw.label());
    if frame::is_jpeg_label(fmt) || looks_like_jpeg(raw.data.as_slice()) {
        return match Frame::from_stream_blob(fmt, raw.data.as_slice(), seq) {
            Ok(f) => Ok((f, None)),
            Err(e) => Err(DecodeError::Frame(e)),
        };
    }
    if is_zlib_label(fmt) || looks_like_zlib(raw.data.as_slice()) {
        match inflate_zlib(raw.data.as_slice()) {
            Ok(pixels) => decode_raw(bus, pixels.as_slice(), seq),
            Err(e) => Err(DecodeError::Inflate(e)),
        }
    } else {
        decode_raw(bus, raw.data.as_slice(), seq)
    }
}

/// How often (ns) the decoder runs detection while enabled: enough to feed the few-Hz control loop
/// and the overlay without measuring every high-FPS frame.
pub const DETECT_INTERVAL_NS: u64 = 100_000_000;

/// While recording, the live display is refreshed at most this often (ns). Frames are still
/// decoded and written every time; only the on-screen refresh is rate-limited.
pub const DISPLAY_INTERVAL_RECORDING_NS: u64 = 200_000_000;

/// How a frame interval changes the frame-rate estimate.
#[derive(Clone, Copy, Debug, PartialEq, Eq, Structural)]
pub enum FpsRule {
    /// Leave the estimate as it is: there is no interval, or it has no length.
    Keep,
    /// Take the instantaneous rate.
    First,
    /// Blend the instantaneous rate into the estimate.
    Blend,
    /// The stream stalled or was just (re)started: drop the stale rate.
    Reset,
}

/// The rule for an interval of `dt` seconds when the estimate is `fps`.
pub open spec fn fps_rule_of(dt: Option<Scalar>, fps: Scalar) -> FpsRule {
    let one = Scalar { bits: 0x3FF0_0000_0000_0000 };
    match dt {
        None => FpsRule::Keep,
        Some(dt) => if Scalar::zero().below(dt) && dt.below(one) {
            if Scalar::zero().below(fps) {
                FpsRule::Blend
            } else {
                FpsRule::First
            }
        } else if one.at_most(dt) {
            FpsRule::Reset
        } else {
            FpsRule::Keep
        },
    }
}

/// Decide how an interval of `dt` seconds changes the frame-rate estimate `fps`.
pub fn fps_rule(dt: Option<Scalar>, fps: Scalar) -> (r: FpsRule)
    ensures
        r == fps_rule_of(dt, fps),
{
    let one = Scalar { bits: 0x3FF0_0000_0000_0000 };
    let zero = Scalar::new_zero();
    match dt {
        None => FpsRule::Keep,
        Some(dt) => if zero.lt(dt) && dt.lt(one) {
            if zero.lt(fps) {
                FpsRule::Blend
            } else {
                FpsRule::First
            }
        } else if one.le(dt) {
            FpsRule::Reset
        } else {
            FpsRule::Keep
        },
    }
}

/// Whether something last done at `last` is due again at `now`, `every` nanoseconds later.
pub open spec fn due(last: Option<u64>, now: u64, every: u64) -> bool {
    match last {
        None => true,
        Some(t) => now - t >= every,
    }
}

fn is_due(last: Option<u64>, now: u64, every: u64) -> (b: bool)
    requires
        every > 0,
    ensures
        b == due(last, now, every),
{
    match last {
        None => true,
        Some(t) => now >= t && now - t >= every,
    }
}

/// What the decoder remembers from frame to frame.
pub struct DecodeState {
    pub seq: u64,
    /// When the last frame was decoded, measured and displayed (ns of a monotonic clock).
    pub last: Option<u64>,
    pub last_detect: Option<u64>,
    pub last_display: Option<u64>,
    pub detector: GuideDetector,
}

/// What a decoded frame asks of the caller.
pub struct Duties {
    /// Nanoseconds since the frame before, if there was one.
    pub gap: Option<u64>,
    /// The measurement to complete, if detection is due.
    pub detect: Option<Measurement>,
    /// Whether the display is to be refreshed.
    pub display: bool,
}

impl DecodeState {
    /// A decoder that has seen no frame.
    pub fn new() -> (s: Self)
        ensures
            s.seq == 0,
            s.last is None,
            s.last_detect is None,
            s.last_display is None,
            s.detector.reference is None,
            s.detector.ref_generation == u64::MAX,
    {
        DecodeState {
            seq: 0,
            last: None,
            last_detect: None,
            last_display: None,
            detector: GuideDetector::default(),
        }
    }

    /// Detection runs on this frame: it is enabled and its interval has passed.
    pub open spec fn detects<W: SerOutput>(&self, bus: Bus<W>, now: u64) -> bool {
        bus.detect_enabled && due(self.last_detect, now, DETECT_INTERVAL_NS)
    }

    /// The display is refreshed for this frame: always, but rate-limited while recording.
    pub open spec fn displays<W: SerOutput>(&self, bus: Bus<W>, now: u64) -> bool {
        !bus.recording_active || due(self.last_display, now, DISPLAY_INTERVAL_RECORDING_NS)
    }

    /// Take up a decoded frame at time `now`: count it, note the times, and say what it asks for.
    pub fn accept<W: SerOutput>(&mut self, bus: &mut Bus<W>, frame: &Frame, now: u64) -> (d: Duties)
        requires
            old(self).seq < u64::MAX,
            frame.width * frame.height <= usize::MAX,
            frame.width * frame.height <= detector::MAX_PIXELS,
        ensures
            final(self).seq == old(self).seq + 1,
            final(self).last == Some(now),
            final(self).last_detect == (if old(self).detects(*old(bus), now) {
                Some(now)
            } else {
                old(self).last_detect
            }),
            final(self).last_display == (if old(self).displays(*old(bus), now) {
                Some(now)
            } else {
                old(self).last_display
            }),
            !old(self).detects(*old(bus), now) ==> final(self).detector == old(self).detector,
            *final(bus) == (Bus {
                shared: Shared { frame_count: final(self).seq, ..old(bus).shared },
                ..*old(bus)
            }),
            d.gap == (match old(self).last {
                Some(t) => Some((if now >= t {
                    now - t
                } else {
                    0
                }) as u64),
                None => None,
            }),
            d.detect is Some <==> old(self).detects(*old(bus), now),
            d.detect matches Some(m) ==> GuideDetector::measured(
                old(self).detector,
                final(self).detector,
                *frame,
                mode_of(old(bus).guide_mode),
                old(bus).ref_generation,
                m,
            ),
            d.display == old(self).displays(*old(bus), now),
    {
        self.seq = self.seq + 1;
        bus.shared.frame_count = self.seq;
        let gap: Option<u64> = match self.last {
            Some(t) => Some(
                if now >= t {
                    now - t
                } else {
                    0
                },
            ),
            None => None,
        };
        self.last = Some(now);
        let detect: Option<Measurement> = if bus.detect_enabled() && is_due(
            self.last_detect,
            now,
            DETECT_INTERVAL_NS,
        ) {
            self.last_detect = Some(now);
            let mode: GuideMode = GuideMode::from_u8(bus.guide_mode);
            Some(self.detector.measure(frame, mode, bus.ref_generation))
        } else {
            None
        };
        let display: bool = !bus.recording_active() || is_due(
            self.last_display,
            now,
            DISPLAY_INTERVAL_RECORDING_NS,
        );
        if display {
            self.last_display = Some(now);
        }
        Duties { gap, detect, display }
    }
}

/// The detection mode of a code.
pub open spec fn mode_of(code: u8) -> GuideMode {
    if code == 1 {
        GuideMode::Surface
    } else {
        GuideMode::Disk
    }
}

/// What the caller worked out for an accepted frame.
pub struct FrameResults {
    /// The new frame-rate estimate.
    pub fps: Scalar,
    /// The target position, if detection ran: absent where there is no lock.
    pub detected: Option<Option<(Scalar, Scalar)>>,
    /// The display stretch, if the display is to be refreshed.
    pub stretch: Option<Stretch>,
}

/// The shared state after an accepted frame was published.
pub open spec fn published(s: Shared, res: FrameResults) -> Shared {
    match res.detected {
        Some(at) => Shared { fps: res.fps, detected: at, ..s },
        None => Shared { fps: res.fps, ..s },
    }
}

/// The measurement to publish, if any.
pub open spec fn sample_of(res: FrameResults, seq: u64) -> Option<GuideSample> {
    match res.detected {
        Some(Some((x, y))) => Some(GuideSample { x, y, seq }),
        _ => None,
    }
}

/// Publish an accepted frame: the frame rate, the measurement for the guide loop and the overlay,
/// the frame's bytes to an armed recording, the display image, and the frame itself. A recording
/// takes the native bytes of a raw stream, or the colors of a decoded one. Returns whether a new
/// display image was published.
pub fn publish_frame<W: SerOutput>(
    bus: &mut Bus<W>,
    frame: Frame,
    raw_pixels: &Option<Vec<u8>>,
    results: FrameResults,
    now: Option<UnixTime>,
) -> (repaint: bool)
    requires
        frame.wf(),
        results.stretch matches Some(s) ==> frame.fits(s),
        old(bus).recording_active ==> old(bus).can_count(now),
    ensures
        repaint == (results.stretch is Some),
        final(bus).latest_frame == Some(frame),
        final(bus).guide_sample == (match sample_of(results, frame.seq) {
            Some(s) => Some(s),
            None => old(bus).guide_sample,
        }),
        final(bus).display_seq == (if results.stretch is Some {
            bus::seq_after(old(bus).display_seq)
        } else {
            old(bus).display_seq
        }),
        results.stretch is None ==> final(bus).display == old(bus).display,
        results.stretch matches Some(s) ==> (final(bus).display matches Some(img) && {
            &&& img.size@ == seq![frame.width, frame.height]
            &&& img.pixels@ == Seq::new(
                (frame.width * frame.height) as nat,
                |i: int| frame.display_pixel(s, i),
            )
        }),
        *final(bus) == (Bus {
            shared: final(bus).shared,
            latest_frame: final(bus).latest_frame,
            display: final(bus).display,
            display_seq: final(bus).display_seq,
            guide_sample: final(bus).guide_sample,
            recorder: final(bus).recorder,
            ..*old(bus)
        }),
        final(bus).shared == (Shared {
            recording: final(bus).shared.recording,
            ..published(old(bus).shared, results)
        }),
        !old(bus).recording_active || old(bus).recorder is None ==> {
            &&& final(bus).recorder == old(bus).recorder
            &&& final(bus).shared.recording == old(bus).shared.recording
        },
        old(bus).recording_active && old(bus).recorder is Some ==> {
            &&& final(bus).recorder is Some
            &&& bus::frame_recorded(
                old(bus).recorder->0,
                final(bus).recorder->0,
                old(bus).record_limit,
                old(bus).shared.recording,
                final(bus).shared.recording,
                match *raw_pixels {
                    Some(bytes) => bytes@,
                    None => frame::rgb_of(frame.rgba@),
                },
                now,
            )
        },
        old(bus).wf() ==> final(bus).wf(),
{
    publish_results(bus, &results, frame.seq);
    record_frame(bus, &frame, raw_pixels, now);
    let repaint: bool = match &results.stretch {
        Some(s) => {
            bus.publish_display(frame.to_display_image(s));
            true
        },
        None => false,
    };
    bus.latest_frame = Some(frame);
    repaint
}

/// Publish the frame rate and the measurement of an accepted frame.
fn publish_results<W: SerOutput>(bus: &mut Bus<W>, results: &FrameResults, seq: u64)
    ensures
        *final(bus) == (Bus {
            shared: published(old(bus).shared, *results),
            guide_sample: match sample_of(*results, seq) {
                Some(s) => Some(s),
                None => old(bus).guide_sample,
            },
            ..*old(bus)
        }),
{
    bus.shared.fps = results.fps;
    match results.detected {
        Some(at) => {
            if let Some((x, y)) = at {
                bus.publish_guide_sample(GuideSample { x, y, seq });
            }
            bus.shared.detected = at;
        },
        None => {},
    }
}

/// Hand an accepted frame to an armed recording.
fn record_frame<W: SerOutput>(
    bus: &mut Bus<W>,
    frame: &Frame,
    raw_pixels: &Option<Vec<u8>>,
    now: Option<UnixTime>,
)
    requires
        old(bus).recording_active ==> old(bus).can_count(now),
    ensures
        !old(bus).recording_active || old(bus).recorder is None ==> *final(bus) == *old(bus),
        *final(bus) == (Bus {
            recorder: final(bus).recorder,
            shared: Shared { recording: final(bus).shared.recording, ..old(bus).shared },
            ..*old(bus)
        }),
        old(bus).recording_active && old(bus).recorder is Some ==> {
            &&& final(bus).recorder is Some
            &&& bus::frame_recorded(
                old(bus).recorder->0,
                final(bus).recorder->0,
                old(bus).record_limit,
                old(bus).shared.recording,
                final(bus).shared.recording,
                match *raw_pixels {
                    Some(bytes) => bytes@,
                    None => frame::rgb_of(frame.rgba@),
                },
                now,
            )
        },
{
    if bus.recording_active() {
        match raw_pixels {
            Some(bytes) => bus.write_record_frame(bytes.as_slice(), now),
            None => {
                let rgb: Vec<u8> = frame.rgb_bytes();
                bus.write_record_frame(rgb.as_slice(), now);
            },
        }
    }
}

/// A payload shows JPEG by the three bytes that every JPEG begins with, whatever follows.
pub proof fn law_jpeg_shows_by_its_first_bytes(data: Seq<u8>, rest: Seq<u8>)
    ensures
        jpeg_magic(seq![255u8, 216, 255] + rest),
        jpeg_magic(data) ==> data.subrange(0, 3) == seq![255u8, 216, 255],
        data.len() < 3 ==> !jpeg_magic(data),
{
    if jpeg_magic(data) {
        assert(data.subrange(0, 3) =~= seq![255u8, 216, 255]);
    }
}

/// A payload shows zlib by the header of RFC 1950: the deflate method in the low half of the first
/// byte, and two bytes that together are a multiple of 31.
pub proof fn law_zlib_shows_by_its_header(data: Seq<u8>)
    ensures
        zlib_magic(data) <==> data.len() >= 2 && data[0] as int % 16 == 8 && (256 * data[0] + data[1])
            % 31 == 0,
        zlib_magic(seq![0x78u8, 0x01]) && zlib_magic(seq![0x78u8, 0x9C]) && zlib_magic(
            seq![0x78u8, 0xDA],
        ),
        jpeg_magic(data) ==> !zlib_magic(data),
{
}

/// A label that ends in `.z` says zlib, whatever it begins with; no label says nothing.
pub proof fn law_zlib_labels_end_in_z(front: Seq<char>, label: Seq<char>)
    ensures
        labelled_zlib(Some(front + ".z"@)),
        labelled_zlib(Some(label)) ==> label.len() >= 2 && label[label.len() - 2] == '.'
            && label.last() == 'z',
        !labelled_zlib(None),
{
    reveal_strlit(".z");
    let s = front + ".z"@;
    assert(s.subrange(s.len() - 2, s.len() as int) =~= ".z"@);
    if labelled_zlib(Some(label)) {
        let tail = label.subrange(label.len() - 2, label.len() as int);
        assert(tail[0] == '.' && tail[1] == 'z');
    }
}

/// A payload is JPEG where its label or its bytes say so, and zlib likewise.
pub proof fn law_label_or_bytes_decide(raw: RawFrame)
    ensures
        jpeg_magic(raw.data@) ==> raw.is_jpeg(),
        zlib_magic(raw.data@) ==> raw.is_zlib(),
        raw.format matches Some(f) ==> {
            &&& text::occurs(f@, "jpg"@) || text::occurs(f@, "jpeg"@) ==> raw.is_jpeg()
            &&& labelled_zlib(Some(f@)) ==> raw.is_zlib()
            &&& !text::occurs(f@, "jpg"@) && !text::occurs(f@, "jpeg"@) && !jpeg_magic(raw.data@)
                ==> !raw.is_jpeg()
            &&& !labelled_zlib(Some(f@)) && !zlib_magic(raw.data@) ==> !raw.is_zlib()
        },
        raw.format is None ==> (raw.is_jpeg() <==> jpeg_magic(raw.data@)) && (raw.is_zlib()
            <==> zlib_magic(raw.data@)),
{
}

/// A geometry holds a payload of one byte or of two bytes for each of its pixels, and none where it
/// has no pixels.
pub proof fn law_geometry_holds_whole_frames(w: u32, h: u32, len: nat)
    ensures
        w > 0 && h > 0 ==> holds_frame(w, h, (w * h) as nat) && holds_frame(
            w,
            h,
            (2 * (w * h)) as nat,
        ),
        holds_frame(w, h, len) ==> w > 0 && h > 0 && (len == w * h || len == 2 * (w * h)),
{
    assert(w > 0 && h > 0 ==> w * h > 0) by (nonlinear_arith);
    assert(w == 0 || h == 0 ==> w * h == 0) by (nonlinear_arith);
}

/// A raw payload is decoded at the requested size where it fits that, else at the size of the sensor
/// where it fits that, and otherwise at the requested size, which then reports the mismatch.
pub proof fn law_requested_size_comes_first<W: SerOutput>(b: Bus<W>, len: nat)
    ensures
        holds_frame(b.frame_w, b.frame_h, len) ==> raw_geometry(b, len) == (b.frame_w, b.frame_h),
        !holds_frame(b.frame_w, b.frame_h, len) && holds_frame(b.sensor_w, b.sensor_h, len)
            ==> raw_geometry(b, len) == (b.sensor_w, b.sensor_h),
        !holds_frame(b.frame_w, b.frame_h, len) && !holds_frame(b.sensor_w, b.sensor_h, len)
            ==> raw_geometry(b, len) == (b.frame_w, b.frame_h),
{
}

/// Falling back to the whole sensor is remembered and logged once: the sizes that were streamed and
/// asked for stand in the log, and the next payload of that length changes and logs nothing.
pub proof fn law_fallback_is_logged_once<W: SerOutput>(
    before: Bus<W>,
    after: Bus<W>,
    again: Bus<W>,
    len: nat,
)
    requires
        geometry_resolved(before, after, len),
        geometry_resolved(after, again, len),
    ensures
        again == after,
        (after.frame_w, after.frame_h) == raw_geometry(before, len),
        raw_geometry(after, len) == raw_geometry(before, len),
        after.frame_w == before.frame_w && after.frame_h == before.frame_h ==> after == before,
        after.frame_w != before.frame_w || after.frame_h != before.frame_h
            ==> after.shared.lines() == bus::logged(
            before.shared.lines(),
            "driver streamed full sensor "@ + text::decimal(before.sensor_w as nat) + "×"@
                + text::decimal(before.sensor_h as nat) + ", not the requested ROI "@
                + text::decimal(before.frame_w as nat) + "×"@ + text::decimal(
                before.frame_h as nat,
            ) + " — showing full frame (this camera may not support subframing the live stream)"@,
        ),
{
}

/// A raw payload of one byte for each pixel is a gray frame of those levels; one of two bytes is a
/// gray frame of 16-bit samples. The frame has the resolved size and its number, and a running
/// recording gets the payload itself.
pub proof fn law_raw_payload_becomes_a_gray_frame<W: SerOutput>(
    before: Bus<W>,
    after: Bus<W>,
    pixels: Seq<u8>,
    seq: u64,
    r: Result<(Frame, Option<Vec<u8>>), DecodeError>,
    i: int,
)
    requires
        raw_decoded(before, after, pixels, seq, r),
        pixels.len() <= usize::MAX,
    ensures
        ({
            let (w, h) = raw_geometry(before, pixels.len());
            &&& r is Ok <==> holds_frame(w, h, pixels.len())
            &&& after.last_raw_len == pixels.len()
            &&& r matches Ok(d) ==> {
                &&& d.0.width == w && d.0.height == h && d.0.seq == seq
                &&& d.1 is Some <==> before.recording_active
                &&& d.1 matches Some(bytes) ==> bytes@ == pixels
                &&& pixels.len() == w * h ==> d.0.raw16 is None && (0 <= i < pixels.len()
                    ==> d.0.rgba@[4 * i] == pixels[i] && d.0.rgba@[4 * i + 1] == pixels[i]
                    && d.0.rgba@[4 * i + 2] == pixels[i] && d.0.rgba@[4 * i + 3] == 255)
                &&& pixels.len() == 2 * (w * h) ==> (d.0.raw16 matches Some(s) && (0 <= i < w * h
                    ==> s@[i] == pixels[2 * i] + 256 * pixels[2 * i + 1]))
            }
        }),
{
    let (w, h) = raw_geometry(before, pixels.len());
    if let Ok(d) = r {
        if pixels.len() == 2 * (w * h) && 0 <= i < w * h {
            frame::law_wide_samples_are_read_low_byte_first(pixels, i);
        }
    }
}

/// The frame-rate estimate is kept where there is no interval or one without length, starts from the
/// first interval below a second, follows further ones, and is dropped after a gap of a second or
/// more.
pub proof fn law_frame_rate_follows_the_gaps(dt: Scalar, fps: Scalar)
    ensures
        fps_rule_of(None, fps) == FpsRule::Keep,
        ({
            let zero = Scalar { bits: 0 };
            let second = Scalar { bits: 0x3FF0_0000_0000_0000 };
            &&& second.at_most(dt) ==> fps_rule_of(Some(dt), fps) == FpsRule::Reset
            &&& dt.at_most(zero) ==> fps_rule_of(Some(dt), fps) == FpsRule::Keep
            &&& zero.below(dt) && dt.below(second) && zero.below(fps) ==> fps_rule_of(Some(dt), fps)
                == FpsRule::Blend
            &&& zero.below(dt) && dt.below(second) && !zero.below(fps) ==> fps_rule_of(
                Some(dt),
                fps,
            ) == FpsRule::First
        }),
{
}

/// Detection runs at most every tenth of a second while enabled; the display is refreshed with every
/// frame, or at most every fifth of a second while recording.
pub proof fn law_detection_and_display_are_paced<W: SerOutput>(
    s: DecodeState,
    b: Bus<W>,
    now: u64,
)
    ensures
        s.detects(b, now) ==> b.detect_enabled,
        s.last_detect matches Some(t) ==> (s.detects(b, now) <==> b.detect_enabled && now
            >= t + 100_000_000),
        s.last_detect is None ==> (s.detects(b, now) <==> b.detect_enabled),
        !b.recording_active ==> s.displays(b, now),
        b.recording_active ==> (s.last_display matches Some(t) ==> (s.displays(b, now) <==> now >= t
            + 200_000_000)),
        s.last_display is None ==> s.displays(b, now),
{
}

/// The mode is read back from its code.
pub proof fn law_mode_reads_back(mode: GuideMode)
    ensures
        mode_of(mode.code()) == mode,
        GuideMode::Disk.code() == 0,
        GuideMode::Surface.code() == 1,
{
}

/// A measured target is published with its place and the number of its frame; a frame without a
/// measurement publishes none, and one that lost the target clears the overlay.
pub proof fn law_measurement_is_published(s: Shared, res: FrameResults, seq: u64)
    ensures
        published(s, res).fps == res.fps,
        res.detected matches Some(Some(at)) ==> {
            &&& published(s, res).detected == Some(at)
            &&& sample_of(res, seq) == Some(GuideSample { x: at.0, y: at.1, seq })
        },
        res.detected == Some(None::<(Scalar, Scalar)>) ==> published(s, res).detected is None
            && sample_of(res, seq) is None,
        res.detected is None ==> published(s, res).detected == s.detected && sample_of(res, seq)
            is None,
        published(s, res).recording == s.recording,
        published(s, res).lock_point == s.lock_point,
        published(s, res).log == s.log,
        published(s, res).frame_count == s.frame_count,
{
}

} // verus!
