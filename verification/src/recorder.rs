//! SER video-file recorder.
//!
//! A SER file is a fixed 178-byte header, then uncompressed frames written back to back, then a
//! trailer of one timestamp per frame. The frame count is not known up front: it is written as
//! zero and patched by [`SerRecorder::finalize`] once recording stops.

use crate::bytes;
use crate::text;
use vstd::prelude::*;

pub use crate::frame::inflate_zlib;

verus! {

broadcast use bytes::lemma_le4_len;

/// SER v3 header length in bytes; frame data starts here.
pub const HEADER_LEN: usize = 178;

/// Byte offset of the `FrameCount` field, patched on finalize.
pub const FRAME_COUNT_OFFSET: usize = 38;

/// Seconds between the FILETIME epoch (1601-01-01) and the Unix epoch (1970-01-01).
pub const FILETIME_UNIX_OFFSET_SECS: i64 = 11_644_473_600;

/// Latest Unix second whose FILETIME fits in 64 bits.
pub const LAST_FILETIME_SECS: u64 = 910_692_730_084;

/// Pixel layout of the recorded frames, mapped to a SER `ColorID`.
#[derive(Clone, Copy, Debug, PartialEq, Eq, Structural)]
pub enum SerColor {
    /// Single grayscale plane (the common solar/planetary case).
    Mono,
    /// Three interleaved 8-bit planes (used for MJPEG-decoded frames).
    Rgb,
    /// A Bayer-matrix sensor recorded raw; downstream tools debayer using the pattern.
    BayerRGGB,
    BayerGRBG,
    BayerGBRG,
    BayerBGGR,
}

impl SerColor {
    /// The SER `ColorID` code of this layout.
    pub open spec fn id(self) -> int {
        match self {
            SerColor::Mono => 0,
            SerColor::BayerRGGB => 8,
            SerColor::BayerGRBG => 9,
            SerColor::BayerGBRG => 10,
            SerColor::BayerBGGR => 11,
            SerColor::Rgb => 100,
        }
    }

    /// The number of samples per pixel.
    pub open spec fn samples(self) -> int {
        if self == SerColor::Rgb {
            3
        } else {
            1
        }
    }

    /// The layout that a camera's `CFA_TYPE` text names; mono where it names none.
    pub open spec fn named(cfa: Seq<char>) -> SerColor {
        let pattern = text::upper(text::trim(cfa));
        if pattern == "RGGB"@ {
            SerColor::BayerRGGB
        } else if pattern == "GRBG"@ {
            SerColor::BayerGRBG
        } else if pattern == "GBRG"@ {
            SerColor::BayerGBRG
        } else if pattern == "BGGR"@ {
            SerColor::BayerBGGR
        } else {
            SerColor::Mono
        }
    }

    /// Pick the color layout from a camera's `CCD_CFA` `CFA_TYPE` string. An absent or
    /// unrecognized pattern is treated as mono (the mono-first default).
    pub fn from_cfa(cfa: Option<&str>) -> (color: SerColor)
        ensures
            cfa matches Some(s) ==> color == SerColor::named(s@),
            cfa is None ==> color == SerColor::Mono,
    {
        match cfa {
            Some(s) => {
                if text::trims_to(s, "RGGB") {
                    SerColor::BayerRGGB
                } else if text::trims_to(s, "GRBG") {
                    SerColor::BayerGRBG
                } else if text::trims_to(s, "GBRG") {
                    SerColor::BayerGBRG
                } else if text::trims_to(s, "BGGR") {
                    SerColor::BayerBGGR
                } else {
                    SerColor::Mono
                }
            },
            None => SerColor::Mono,
        }
    }

    /// The SER `ColorID` code written into the header.
    pub fn color_id(self) -> (id: i32)
        ensures
            id == self.id(),
    {
        match self {
            SerColor::Mono => 0,
            SerColor::BayerRGGB => 8,
            SerColor::BayerGRBG => 9,
            SerColor::BayerGBRG => 10,
            SerColor::BayerBGGR => 11,
            SerColor::Rgb => 100,
        }
    }

    /// Number of samples per pixel (RGB is 3 interleaved planes; everything else is 1).
    pub fn planes(self) -> (n: usize)
        ensures
            n == self.samples(),
    {
        if matches!(self, SerColor::Rgb) {
            3
        } else {
            1
        }
    }
}

/// A moment of the Unix clock: whole seconds and nanoseconds since 1970-01-01 UTC.
#[derive(Clone, Copy, Debug, PartialEq, Eq, Structural)]
pub struct UnixTime {
    pub secs: u64,
    pub nanos: u32,
}

/// The Windows FILETIME (100-nanosecond ticks since 1601-01-01 UTC) of a clock reading; zero for
/// a clock that reads before 1970.
pub open spec fn filetime_of(now: Option<UnixTime>) -> int {
    match now {
        Some(t) => (t.secs + FILETIME_UNIX_OFFSET_SECS) * 10_000_000 + t.nanos as int / 100,
        None => 0,
    }
}

/// Whether a clock reading is a moment that a FILETIME can hold.
pub open spec fn in_filetime_range(now: Option<UnixTime>) -> bool {
    now matches Some(t) ==> t.secs <= LAST_FILETIME_SECS && t.nanos < 1_000_000_000
}

/// The clock reading as a Windows FILETIME.
pub fn filetime(now: Option<UnixTime>) -> (ticks: i64)
    requires
        in_filetime_range(now),
    ensures
        ticks == filetime_of(now),
{
    match now {
        Some(t) => (t.secs as i64 + FILETIME_UNIX_OFFSET_SECS) * 10_000_000 + (t.nanos as i64) / 100,
        None => 0,
    }
}

/// Why an output could not take bytes, in the words of the medium underneath.
#[derive(Debug)]
pub struct OutputError {
    pub message: String,
}

/// Why a recorder could not do its work.
#[derive(Debug)]
pub enum SerError {
    /// The header could not be written.
    Header(OutputError),
    /// The payload is not exactly one frame long.
    FrameSize { got: usize, expected: usize },
    /// The frame could not be written.
    Frame(OutputError),
    /// A timestamp of the trailer could not be written.
    Trailer(OutputError),
    /// The frame-count field could not be reached.
    Seek(OutputError),
    /// The frame count could not be patched.
    Count(OutputError),
    /// Buffered bytes could not be flushed.
    Flush(OutputError),
}

impl SerError {
    /// What went wrong, in words.
    pub open spec fn words(&self) -> Seq<char> {
        match *self {
            SerError::Header(e) => "writing SER header: "@ + e.message@,
            SerError::FrameSize { got, expected } => "SER frame size "@ + text::decimal(got as nat)
                + " != expected "@ + text::decimal(expected as nat),
            SerError::Frame(e) => "writing SER frame: "@ + e.message@,
            SerError::Trailer(e) => "writing SER trailer: "@ + e.message@,
            SerError::Seek(e) => "seeking to SER FrameCount: "@ + e.message@,
            SerError::Count(e) => "patching SER FrameCount: "@ + e.message@,
            SerError::Flush(e) => "flushing SER: "@ + e.message@,
        }
    }

    /// What went wrong, in words.
    pub fn describe(&self) -> (s: String)
        ensures
            s@ == self.words(),
    {
        match self {
            SerError::Header(e) => "writing SER header: ".to_owned().concat(e.message.as_str()),
            SerError::FrameSize { got, expected } => "SER frame size ".to_owned().concat(
                text::number(*got as u64).as_str(),
            ).concat(" != expected ").concat(text::number(*expected as u64).as_str()),
            SerError::Frame(e) => "writing SER frame: ".to_owned().concat(e.message.as_str()),
            SerError::Trailer(e) => "writing SER trailer: ".to_owned().concat(e.message.as_str()),
            SerError::Seek(e) => "seeking to SER FrameCount: ".to_owned().concat(
                e.message.as_str(),
            ),
            SerError::Count(e) => "patching SER FrameCount: ".to_owned().concat(
                e.message.as_str(),
            ),
            SerError::Flush(e) => "flushing SER: ".to_owned().concat(e.message.as_str()),
        }
    }
}

/// A place that a recording goes to: bytes with a write position, as an open file has them.
pub trait SerOutput: Sized {
    /// The bytes that the output holds and its position; absent where they are out of sight, as in
    /// a file.
    open spec fn held(&self) -> Option<(Seq<u8>, nat)> {
        None
    }

    /// Whether the output takes every write whose end can be counted, and every seek.
    open spec fn reliable(&self) -> bool {
        false
    }

    /// Whether every byte taken so far has been handed on to where it goes. It always has been where
    /// nothing is buffered; an output that says nothing of its buffer counts as one without.
    open spec fn flushed(&self) -> bool {
        true
    }

    /// Write all of `data` at the position and move past it. On an error nothing is known of the
    /// bytes.
    fn write_all(&mut self, data: &[u8]) -> (r: Result<(), OutputError>)
        ensures
            old(self).reliable() && (old(self).held() matches Some(h) ==> h.1 + data.len()
                <= usize::MAX) ==> r is Ok,
            r is Ok ==> final(self).reliable() == old(self).reliable(),
            r is Ok ==> final(self).held() == match old(self).held() {
                Some(h) => Some((bytes::overwrite(h.0, h.1, data@), (h.1 + data.len()) as nat)),
                None => None,
            },
    ;

    /// Move the position to `at`, counted from the start.
    fn seek_start(&mut self, at: usize) -> (r: Result<(), OutputError>)
        ensures
            old(self).reliable() ==> r is Ok,
            r is Ok ==> final(self).reliable() == old(self).reliable(),
            r is Ok ==> final(self).held() == match old(self).held() {
                Some(h) => Some((h.0, at as nat)),
                None => None,
            },
    ;

    /// Hand buffered bytes on.
    fn flush(&mut self) -> (r: Result<(), OutputError>)
        ensures
            old(self).reliable() ==> r is Ok,
            r is Ok ==> final(self).reliable() == old(self).reliable(),
            r is Ok ==> final(self).held() == old(self).held(),
            r is Ok ==> final(self).flushed(),
    ;
}

/// What an output holds at first: of one that is out of sight it is taken to be nothing, as in a
/// file just created.
pub open spec fn at_first<W: SerOutput>(out: W) -> (Seq<u8>, nat) {
    match out.held() {
        Some(h) => h,
        None => (Seq::empty(), 0),
    }
}

/// An output with an account of what it has taken: the bytes and the position that the accepted
/// writes and seeks come to.
pub struct Tape<W: SerOutput> {
    out: W,
    taken: Ghost<(Seq<u8>, nat)>,
}

impl<W: SerOutput> Tape<W> {
    /// The bytes and the position.
    pub closed spec fn state(&self) -> (Seq<u8>, nat) {
        match self.out.held() {
            Some(h) => h,
            None => self.taken@,
        }
    }

    /// Everything written so far.
    pub open spec fn contents(&self) -> Seq<u8> {
        self.state().0
    }

    /// Where the next byte goes.
    pub open spec fn position(&self) -> nat {
        self.state().1
    }

    /// Whether the output takes every write whose end can be counted, and every seek.
    pub closed spec fn reliable(&self) -> bool {
        self.out.reliable()
    }

    /// Whether the output has handed on every byte that it took.
    pub closed spec fn flushed(&self) -> bool {
        self.out.flushed()
    }

    fn new(out: W) -> (t: Tape<W>)
        ensures
            t.state() == at_first(out),
            t.reliable() == out.reliable(),
    {
        Tape { out, taken: Ghost((Seq::empty(), 0)) }
    }

    /// The output itself.
    pub fn into_inner(self) -> (out: W)
        ensures
            out.held() matches Some(h) ==> h == self.state(),
            out.flushed() == self.flushed(),
    {
        self.out
    }

    fn write_all(&mut self, data: &[u8]) -> (r: Result<(), OutputError>)
        ensures
            old(self).reliable() && old(self).position() + data.len() <= usize::MAX ==> r is Ok,
            r is Ok ==> final(self).reliable() == old(self).reliable(),
            r is Ok ==> final(self).contents() == bytes::overwrite(
                old(self).contents(),
                old(self).position(),
                data@,
            ),
            r is Ok ==> final(self).position() == old(self).position() + data.len(),
    {
        let ghost before = self.state();
        let r = self.out.write_all(data);
        proof {
            self.taken@ = (
                bytes::overwrite(before.0, before.1, data@),
                (before.1 + data.len()) as nat,
            );
        }
        r
    }

    fn seek_start(&mut self, at: usize) -> (r: Result<(), OutputError>)
        ensures
            old(self).reliable() ==> r is Ok,
            r is Ok ==> final(self).reliable() == old(self).reliable(),
            r is Ok ==> final(self).contents() == old(self).contents(),
            r is Ok ==> final(self).position() == at,
    {
        let ghost before = self.state();
        let r = self.out.seek_start(at);
        proof {
            self.taken@ = (before.0, at as nat);
        }
        r
    }

    fn flush(&mut self) -> (r: Result<(), OutputError>)
        ensures
            old(self).reliable() ==> r is Ok,
            r is Ok ==> final(self).reliable() == old(self).reliable(),
            r is Ok ==> final(self).contents() == old(self).contents(),
            r is Ok ==> final(self).position() == old(self).position(),
            r is Ok ==> final(self).flushed(),
    {
        self.out.flush()
    }
}

/// An output in memory. It takes every write whose end is a valid length.
#[derive(Debug)]
pub struct MemoryOutput {
    data: Vec<u8>,
    at: usize,
}

impl MemoryOutput {
    /// An empty output, positioned at its start.
    pub fn new() -> (out: MemoryOutput)
        ensures
            out.held() == Some((Seq::<u8>::empty(), 0nat)),
    {
        MemoryOutput { data: Vec::new(), at: 0 }
    }

    /// The bytes written so far.
    pub fn into_inner(self) -> (data: Vec<u8>)
        ensures
            self.held() matches Some(h) && data@ == h.0,
    {
        self.data
    }
}

impl SerOutput for MemoryOutput {
    closed spec fn held(&self) -> Option<(Seq<u8>, nat)> {
        Some((self.data@, self.at as nat))
    }

    open spec fn reliable(&self) -> bool {
        true
    }

    fn write_all(&mut self, data: &[u8]) -> (r: Result<(), OutputError>)
        ensures
            old(self).held() matches Some(h) && (r is Ok <==> h.1 + data.len() <= usize::MAX),
    {
        if data.len() > usize::MAX - self.at {
            return Err(OutputError { message: "position out of range".to_owned() });
        }
        let end: usize = self.at + data.len();
        let ghost before = self.data@;
        if data.len() == 0 {
            assert(before =~= bytes::overwrite(before, self.at as nat, data@));
            return Ok(());
        }
        while self.data.len() < self.at
            invariant
                self.at == old(self).at,
                before == old(self).data@,
                before.len() <= self.data.len(),
                self.data.len() <= self.at || self.data.len() == before.len(),
                forall|i: int|
                    0 <= i < self.data.len() ==> self.data@[i] == (if i < before.len() {
                        before[i]
                    } else {
                        0u8
                    }),
            decreases self.at - self.data.len(),
        {
            self.data.push(0);
        }
        let ghost padded = self.data@;
        let mut i: usize = 0;
        while i < data.len()
            invariant
                i <= data.len(),
                self.at == old(self).at,
                self.at + data.len() == end,
                self.at <= padded.len(),
                padded.len() <= self.data.len(),
                self.data.len() == (if self.at + i > padded.len() {
                    self.at + i
                } else {
                    padded.len() as int
                }),
                forall|k: int|
                    0 <= k < self.data.len() ==> self.data@[k] == (if self.at <= k < self.at + i {
                        data@[k - self.at]
                    } else {
                        padded[k]
                    }),
            decreases data.len() - i,
        {
            let at: usize = self.at + i;
            if at < self.data.len() {
                self.data[at] = data[i];
            } else {
                self.data.push(data[i]);
            }
            i += 1;
        }
        self.at = end;
        proof {
            assert(self.data@ =~= bytes::overwrite(before, old(self).at as nat, data@));
        }
        Ok(())
    }

    fn seek_start(&mut self, at: usize) -> (r: Result<(), OutputError>)
        ensures
            r is Ok,
    {
        self.at = at;
        Ok(())
    }

    fn flush(&mut self) -> (r: Result<(), OutputError>)
        ensures
            r is Ok,
    {
        Ok(())
    }
}

/// Bytes per sample of a bit depth.
pub open spec fn sample_bytes(depth: u8) -> int {
    if depth > 8 {
        2
    } else {
        1
    }
}

/// Byte length of one frame: width x height x planes x bytes per sample.
pub open spec fn frame_bytes(width: u32, height: u32, color: SerColor, depth: u8) -> int {
    width * height * color.samples() * sample_bytes(depth)
}

/// The file signature, `LUCAM-RECORDER` in ASCII.
pub open spec fn signature() -> Seq<u8> {
    seq![76u8, 85, 67, 65, 77, 45, 82, 69, 67, 79, 82, 68, 69, 82]
}

/// The 178-byte header of a file that holds `count` frames and was created at `ticks`.
///
/// LuID and LittleEndian are zero, the observer, instrument and telescope names are blank, and the
/// local and the UTC time are the same.
pub open spec fn header_bytes(
    width: u32,
    height: u32,
    color: SerColor,
    depth: u8,
    count: int,
    ticks: int,
) -> Seq<u8> {
    signature() + bytes::zeros(4) + bytes::le4(color.id()) + bytes::zeros(4) + bytes::le4(width as int) + bytes::le4(height as int)
        + bytes::le4(depth as int) + bytes::le4(count) + bytes::zeros(120) + bytes::le8(ticks) + bytes::le8(ticks)
}

/// The trailer: one FILETIME of eight bytes per frame.
pub open spec fn trailer_bytes(timestamps: Seq<i64>) -> Seq<u8>
    decreases timestamps.len(),
{
    if timestamps.len() == 0 {
        Seq::empty()
    } else {
        trailer_bytes(timestamps.drop_last()) + bytes::le8(timestamps.last() as int)
    }
}

/// Store the little-endian bytes of `v` at `off`.
fn put_i32(buf: &mut [u8; 178], off: usize, v: i32)
    requires
        off + 4 <= 178,
    ensures
        final(buf)@ == bytes::overwrite(old(buf)@, off as nat, bytes::le4(v as int)),
{
    let b: [u8; 4] = bytes::i32_le(v);
    buf[off] = b[0];
    buf[off + 1] = b[1];
    buf[off + 2] = b[2];
    buf[off + 3] = b[3];
    assert(buf@ =~= bytes::overwrite(old(buf)@, off as nat, b@));
}

/// Store the little-endian bytes of `v` at `off`; as a signed field it holds the same bits.
fn put_u32(buf: &mut [u8; 178], off: usize, v: u32)
    requires
        off + 4 <= 178,
    ensures
        final(buf)@ == bytes::overwrite(old(buf)@, off as nat, bytes::le4(v as int)),
{
    let b: [u8; 4] = bytes::u32_le(v);
    buf[off] = b[0];
    buf[off + 1] = b[1];
    buf[off + 2] = b[2];
    buf[off + 3] = b[3];
    assert(buf@ =~= bytes::overwrite(old(buf)@, off as nat, b@));
}

/// Store the little-endian bytes of `v` at `off`.
fn put_i64(buf: &mut [u8; 178], off: usize, v: i64)
    requires
        off + 8 <= 178,
    ensures
        final(buf)@ == bytes::overwrite(old(buf)@, off as nat, bytes::le8(v as int)),
{
    let b: [u8; 8] = bytes::i64_le(v);
    let mut i: usize = 0;
    while i < 8
        invariant
            i <= 8,
            off + 8 <= 178,
            buf@ =~= bytes::overwrite(old(buf)@, off as nat, b@.subrange(0, i as int)),
        decreases 8 - i,
    {
        buf[off + i] = b[i];
        i += 1;
    }
    assert(b@.subrange(0, 8) =~= b@);
}

/// Frames laid end to end.
pub open spec fn frames_bytes(frames: Seq<Seq<u8>>) -> Seq<u8>
    decreases frames.len(),
{
    if frames.len() == 0 {
        Seq::empty()
    } else {
        frames_bytes(frames.drop_last()) + frames.last()
    }
}

/// A finished SER file.
pub open spec fn file_bytes(
    width: u32,
    height: u32,
    color: SerColor,
    depth: u8,
    ticks: int,
    frames: Seq<Seq<u8>>,
    timestamps: Seq<i64>,
) -> Seq<u8> {
    header_bytes(width, height, color, depth, frames.len() as int, ticks) + frames_bytes(frames)
        + trailer_bytes(timestamps)
}

/// Writes a single SER file. Create it, feed each frame's native bytes to
/// [`write_frame`](SerRecorder::write_frame), then [`finalize`](SerRecorder::finalize).
pub struct SerRecorder<W: SerOutput> {
    out: Tape<W>,
    frame_len: usize,
    frame_count: u32,
    /// One FILETIME per written frame, flushed as the trailer on finalize.
    timestamps: Vec<i64>,
}

impl<W: SerOutput> SerRecorder<W> {
    /// Where the file goes.
    pub closed spec fn output(&self) -> Tape<W> {
        self.out
    }

    /// Byte length of one frame.
    pub closed spec fn frame_size(&self) -> nat {
        self.frame_len as nat
    }

    /// Number of frames written.
    pub closed spec fn written(&self) -> nat {
        self.frame_count as nat
    }

    /// The FILETIME of each frame written.
    pub closed spec fn times(&self) -> Seq<i64> {
        self.timestamps@
    }

    /// Whether the output holds a file in progress with exactly these frames: a header that
    /// counts none of them yet, then the frames, and the position behind them.
    pub open spec fn recording(
        &self,
        width: u32,
        height: u32,
        color: SerColor,
        depth: u8,
        ticks: int,
        frames: Seq<Seq<u8>>,
    ) -> bool {
        &&& self.frame_size() == frame_bytes(width, height, color, depth)
        &&& forall|k: int| 0 <= k < frames.len() ==> (#[trigger] frames[k]).len() == self.frame_size()
        &&& self.written() == frames.len()
        &&& self.times().len() == frames.len()
        &&& self.output().contents() == header_bytes(width, height, color, depth, 0, ticks)
            + frames_bytes(frames)
        &&& self.output().position() == self.output().contents().len()
    }

    /// The output takes `more` bytes at its position.
    pub open spec fn has_room(&self, more: int) -> bool {
        self.output().reliable() && self.output().position() + more <= usize::MAX
    }

    /// Finishing the file cannot fail: the output is reliable, and the trailer can be counted.
    pub open spec fn finishes(&self) -> bool {
        self.has_room((8 * self.times().len()) as int)
    }

    /// What finishing the file comes to: behind what was written stands the timestamp trailer, the
    /// header counts the frames, and every byte is flushed. It can only fail on an output without
    /// room.
    pub open spec fn finished(&self, r: Result<(u32, Tape<W>), SerError>) -> bool {
        &&& self.finishes() ==> r is Ok
        &&& match r {
            Ok(done) => {
                &&& done.0 == self.written()
                &&& done.1.flushed()
                &&& done.1.contents() == bytes::overwrite(
                    bytes::overwrite(
                        self.output().contents(),
                        self.output().position(),
                        trailer_bytes(self.times()),
                    ),
                    FRAME_COUNT_OFFSET as nat,
                    bytes::le4(self.written() as int),
                )
            },
            Err(e) => e is Trailer || e is Seek || e is Count || e is Flush,
        }
    }

    /// Write the 178-byte header and return a recorder ready for frames. `FrameCount` is left at
    /// zero and patched by [`finalize`](SerRecorder::finalize). `depth` is bits per sample (8 or
    /// 16); `now` is the clock reading, absent for a clock before 1970.
    pub fn create(
        out: W,
        width: u32,
        height: u32,
        color: SerColor,
        depth: u8,
        now: Option<UnixTime>,
    ) -> (r: Result<Self, SerError>)
        requires
            frame_bytes(width, height, color, depth) <= usize::MAX,
            in_filetime_range(now),
        ensures
            out.reliable() && at_first(out).1 + HEADER_LEN <= usize::MAX ==> r is Ok,
            r matches Err(e) ==> e is Header,
            r matches Ok(rec) ==> rec.output().reliable() == out.reliable(),
            r matches Ok(rec) ==> {
                &&& rec.output().contents() == bytes::overwrite(
                    at_first(out).0,
                    at_first(out).1,
                    header_bytes(width, height, color, depth, 0, filetime_of(now)),
                )
                &&& rec.output().position() == at_first(out).1 + HEADER_LEN
                &&& rec.frame_size() == frame_bytes(width, height, color, depth)
                &&& rec.written() == 0
                &&& rec.times() == Seq::<i64>::empty()
            },
            r matches Ok(rec) ==> (at_first(out).0.len() == 0 && at_first(out).1 == 0
                ==> rec.recording(width, height, color, depth, filetime_of(now), Seq::empty())),
    {
        let ghost fresh = at_first(out).0.len() == 0 && at_first(out).1 == 0;
        let bytes_per_sample: usize = if depth > 8 {
            2
        } else {
            1
        };
        proof {
            lemma_frame_bytes(width, height, color, depth);
        }
        let planes: usize = color.planes();
        let frame_len: usize = width as usize * height as usize * planes * bytes_per_sample;

        let mut header: [u8; 178] = [0u8; 178];
        header[0] = 76;
        header[1] = 85;
        header[2] = 67;
        header[3] = 65;
        header[4] = 77;
        header[5] = 45;
        header[6] = 82;
        header[7] = 69;
        header[8] = 67;
        header[9] = 79;
        header[10] = 82;
        header[11] = 68;
        header[12] = 69;
        header[13] = 82;
        let ghost signed = header@;
        put_i32(&mut header, 18, color.color_id());
        put_i32(&mut header, 22, 0);
        put_u32(&mut header, 26, width);
        put_u32(&mut header, 30, height);
        put_i32(&mut header, 34, depth as i32);
        let ticks: i64 = filetime(now);
        // The time zone is not tracked, so the local time mirrors the UTC value.
        put_i64(&mut header, 162, ticks);
        put_i64(&mut header, 170, ticks);
        proof {
            lemma_header(signed, width, height, color, depth, ticks as int);
            assert(header@ =~= header_bytes(width, height, color, depth, 0, ticks as int));
        }

        let mut out = Tape::new(out);
        let ghost before = out;
        match out.write_all(header.as_slice()) {
            Ok(_) => {},
            Err(e) => return Err(SerError::Header(e)),
        }
        let rec = SerRecorder { out, frame_len, frame_count: 0, timestamps: Vec::new() };
        proof {
            let h = header_bytes(width, height, color, depth, 0, ticks as int);
            if fresh {
                assert(bytes::overwrite(before.contents(), 0, h) =~= h + frames_bytes(Seq::empty()));
            }
        }
        Ok(rec)
    }

    /// Expected byte length of one frame's payload (width x height x planes x bytes per sample).
    pub fn frame_len(&self) -> (n: usize)
        ensures
            n == self.frame_size(),
    {
        self.frame_len
    }

    /// Frames written so far.
    pub fn frame_count(&self) -> (n: u32)
        ensures
            n == self.written(),
    {
        self.frame_count
    }

    /// Append one frame. `bytes` must be exactly [`frame_len`](SerRecorder::frame_len) long; a
    /// mismatch (e.g. geometry changed mid-recording) is rejected so the file stays valid.
    pub fn write_frame(&mut self, bytes: &[u8], now: Option<UnixTime>) -> (r: Result<(), SerError>)
        requires
            old(self).written() < u32::MAX,
            in_filetime_range(now),
        ensures
            final(self).frame_size() == old(self).frame_size(),
            bytes.len() != old(self).frame_size() ==> *final(self) == *old(self) && r == Err::<
                (),
                SerError,
            >(SerError::FrameSize { got: bytes.len(), expected: old(self).frame_size() as usize }),
            bytes.len() == old(self).frame_size() ==> (r is Ok || r matches Err(SerError::Frame(_))),
            bytes.len() == old(self).frame_size() && old(self).has_room(bytes.len() as int) ==> r
                is Ok,
            r is Ok ==> final(self).output().reliable() == old(self).output().reliable(),
            r is Err ==> final(self).written() == old(self).written() && final(self).times()
                == old(self).times(),
            r is Ok ==> {
                &&& final(self).output().contents() == bytes::overwrite(
                    old(self).output().contents(),
                    old(self).output().position(),
                    bytes@,
                )
                &&& final(self).output().position() == old(self).output().position() + bytes.len()
                &&& final(self).written() == old(self).written() + 1
                &&& final(self).times() == old(self).times().push(filetime_of(now) as i64)
            },
            r is Ok ==> forall|w: u32, h: u32, c: SerColor, d: u8, t: int, frames: Seq<Seq<u8>>|
                old(self).recording(w, h, c, d, t, frames) ==> #[trigger] final(self).recording(
                    w,
                    h,
                    c,
                    d,
                    t,
                    frames.push(bytes@),
                ),
    {
        if bytes.len() != self.frame_len {
            return Err(SerError::FrameSize { got: bytes.len(), expected: self.frame_len });
        }
        match self.out.write_all(bytes) {
            Ok(_) => {},
            Err(e) => return Err(SerError::Frame(e)),
        }
        self.timestamps.push(filetime(now));
        self.frame_count = self.frame_count + 1;
        proof {
            assert forall|w: u32, h: u32, c: SerColor, d: u8, t: int, frames: Seq<Seq<u8>>|
                old(self).recording(w, h, c, d, t, frames) implies #[trigger] self.recording(
                w,
                h,
                c,
                d,
                t,
                frames.push(bytes@),
            ) by {
                let more = frames.push(bytes@);
                assert(more.drop_last() =~= frames);
                assert(more.last() == bytes@);
                let all = old(self).output().contents();
                assert(bytes::overwrite(all, all.len(), bytes@) =~= all + bytes@);
                assert(self.output().contents() =~= header_bytes(w, h, c, d, 0, t) + (frames_bytes(
                    frames,
                ) + bytes@));
            }
        }
        Ok(())
    }

    /// Append the per-frame timestamp trailer, patch the header `FrameCount`, and flush. Returns
    /// the number of frames written, and the output that holds the file.
    pub fn finalize(self) -> (r: Result<(u32, Tape<W>), SerError>)
        ensures
            self.finished(r),
            r matches Ok(done) ==> forall|
                w: u32,
                h: u32,
                c: SerColor,
                d: u8,
                t: int,
                frames: Seq<Seq<u8>>,
            | #[trigger]
                self.recording(w, h, c, d, t, frames) ==> done.1.contents() == file_bytes(
                    w,
                    h,
                    c,
                    d,
                    t,
                    frames,
                    self.times(),
                ),
    {
        self.finalize_inner()
    }

    /// Finish the file and yield the output that holds it along with the number of frames.
    pub fn finalize_inner(self) -> (r: Result<(u32, Tape<W>), SerError>)
        ensures
            self.finished(r),
            r matches Ok(done) ==> forall|
                w: u32,
                h: u32,
                c: SerColor,
                d: u8,
                t: int,
                frames: Seq<Seq<u8>>,
            | #[trigger]
                self.recording(w, h, c, d, t, frames) ==> done.1.contents() == file_bytes(
                    w,
                    h,
                    c,
                    d,
                    t,
                    frames,
                    self.times(),
                ),
    {
        let ghost start = self.out;
        let mut out = self.out;
        let timestamps = self.timestamps;
        let frame_count: u32 = self.frame_count;
        let mut i: usize = 0;
        proof {
            assert(bytes::overwrite(start.contents(), start.position(), Seq::empty())
                =~= start.contents());
            assert(timestamps@.take(0) =~= Seq::<i64>::empty());
        }
        while i < timestamps.len()
            invariant
                i <= timestamps.len(),
                out.contents() == bytes::overwrite(
                    start.contents(),
                    start.position(),
                    trailer_bytes(timestamps@.take(i as int)),
                ),
                out.position() == start.position() + trailer_bytes(timestamps@.take(i as int)).len(),
                trailer_bytes(timestamps@.take(i as int)).len() == 8 * i,
                out.reliable() == start.reliable(),
                start == self.out,
                timestamps == self.timestamps,
            decreases timestamps.len() - i,
        {
            let ghost before = trailer_bytes(timestamps@.take(i as int));
            let ts: [u8; 8] = bytes::i64_le(timestamps[i]);
            match out.write_all(ts.as_slice()) {
                Ok(_) => {},
                Err(e) => return Err(SerError::Trailer(e)),
            }
            i += 1;
            proof {
                let next = timestamps@.take(i as int);
                assert(next.drop_last() =~= timestamps@.take(i - 1));
                assert(next.last() == timestamps@[i - 1]);
                assert(trailer_bytes(next) == before + ts@);
                lemma_overwrite_appends(start.contents(), start.position(), before, ts@);
            }
        }
        proof {
            assert(timestamps@.take(i as int) =~= timestamps@);
        }
        match out.seek_start(FRAME_COUNT_OFFSET) {
            Ok(_) => {},
            Err(e) => return Err(SerError::Seek(e)),
        }
        let count: [u8; 4] = bytes::u32_le(frame_count);
        match out.write_all(count.as_slice()) {
            Ok(_) => {},
            Err(e) => return Err(SerError::Count(e)),
        }
        match out.flush() {
            Ok(_) => {},
            Err(e) => return Err(SerError::Flush(e)),
        }
        proof {
            assert forall|w: u32, h: u32, c: SerColor, d: u8, t: int, frames: Seq<Seq<u8>>|
                #[trigger] self.recording(w, h, c, d, t, frames) implies out.contents()
                == file_bytes(w, h, c, d, t, frames, self.times()) by {
                lemma_finish(w, h, c, d, t, frames, self.times());
            }
        }
        Ok((frame_count, out))
    }
}

/// What becomes of a file that may be open: it is finished, and handed out with the outcome.
pub open spec fn file_finished<W: SerOutput>(
    open: Option<SerRecorder<W>>,
    done: Option<Result<(u32, Tape<W>), SerError>>,
) -> bool {
    match open {
        Some(rec) => done matches Some(d) && rec.finished(d),
        None => done is None,
    }
}

/// Finishing an open file, whoever does it, leaves a whole one: the header with the number of
/// frames, the frames in the order they were written, and their times.
pub proof fn law_finished_file_is_whole<W: SerOutput>(
    rec: SerRecorder<W>,
    done: (u32, Tape<W>),
    width: u32,
    height: u32,
    color: SerColor,
    depth: u8,
    ticks: int,
    frames: Seq<Seq<u8>>,
)
    requires
        rec.recording(width, height, color, depth, ticks, frames),
        file_finished(Some(rec), Some(Ok(done))),
    ensures
        done.0 == frames.len(),
        done.1.contents() == file_bytes(
            width,
            height,
            color,
            depth,
            ticks,
            frames,
            rec.times(),
        ),
        done.1.flushed(),
{
    lemma_finish(width, height, color, depth, ticks, frames, rec.times());
}

/// A frame's byte length is a product of lengths that each fit.
proof fn lemma_frame_bytes(width: u32, height: u32, color: SerColor, depth: u8)
    requires
        frame_bytes(width, height, color, depth) <= usize::MAX,
    ensures
        0 <= width * height <= usize::MAX,
        0 <= width * height * color.samples() <= usize::MAX,
        0 <= frame_bytes(width, height, color, depth),
{
    let p = width * height;
    let s = color.samples();
    let b = sample_bytes(depth);
    assert(0 <= p) by (nonlinear_arith)
        requires
            p == width * height,
    ;
    assert(p <= p * s && 0 <= p * s) by (nonlinear_arith)
        requires
            0 <= p,
            1 <= s,
    ;
    assert(p * s <= p * s * b) by (nonlinear_arith)
        requires
            0 <= p * s,
            1 <= b,
    ;
}

/// The header that [`SerRecorder::create`] fills in field by field is the header as a whole.
proof fn lemma_header(
    signed: Seq<u8>,
    width: u32,
    height: u32,
    color: SerColor,
    depth: u8,
    ticks: int,
)
    requires
        signed =~= signature() + bytes::zeros(164),
    ensures
        bytes::overwrite(
            bytes::overwrite(
                bytes::overwrite(
                    bytes::overwrite(
                        bytes::overwrite(
                            bytes::overwrite(
                                bytes::overwrite(signed, 18, bytes::le4(color.id())),
                                22,
                                bytes::le4(0),
                            ),
                            26,
                            bytes::le4(width as int),
                        ),
                        30,
                        bytes::le4(height as int),
                    ),
                    34,
                    bytes::le4(depth as int),
                ),
                162,
                bytes::le8(ticks),
            ),
            170,
            bytes::le8(ticks),
        ) == header_bytes(width, height, color, depth, 0, ticks),
{
    let c = bytes::le4(color.id());
    let z = bytes::le4(0);
    let w = bytes::le4(width as int);
    let h = bytes::le4(height as int);
    let d = bytes::le4(depth as int);
    let t = bytes::le8(ticks);
    assert(z =~= bytes::zeros(4)) by {
        reveal(bytes::le4);
    }
    let s1 = bytes::overwrite(signed, 18, c);
    assert(s1 =~= signature() + bytes::zeros(4) + c + bytes::zeros(156));
    let s2 = bytes::overwrite(s1, 22, z);
    assert(s2 =~= signature() + bytes::zeros(4) + c + bytes::zeros(4) + bytes::zeros(152));
    let s3 = bytes::overwrite(s2, 26, w);
    let p3 = signature() + bytes::zeros(4) + c + bytes::zeros(4) + w;
    assert(s3 =~= p3 + bytes::zeros(148));
    let s4 = bytes::overwrite(s3, 30, h);
    assert(s4 =~= p3 + h + bytes::zeros(144));
    let s5 = bytes::overwrite(s4, 34, d);
    assert(s5 =~= p3 + h + d + z + bytes::zeros(136));
    let p5 = p3 + h + d + z;
    let s6 = bytes::overwrite(s5, 162, t);
    assert(s6 =~= p5 + bytes::zeros(120) + t + bytes::zeros(8));
    let s7 = bytes::overwrite(s6, 170, t);
    assert(s7 =~= p5 + bytes::zeros(120) + t + t);
}

/// Writing one piece after another at the position is writing both at once.
proof fn lemma_overwrite_appends(s: Seq<u8>, at: nat, a: Seq<u8>, b: Seq<u8>)
    ensures
        bytes::overwrite(bytes::overwrite(s, at, a), at + a.len(), b) == bytes::overwrite(
            s,
            at,
            a + b,
        ),
{
    assert(bytes::overwrite(bytes::overwrite(s, at, a), at + a.len(), b) =~= bytes::overwrite(
        s,
        at,
        a + b,
    ));
}

/// Appending the trailer and patching the count turns a file in progress into a finished one.
proof fn lemma_finish(
    w: u32,
    h: u32,
    c: SerColor,
    d: u8,
    t: int,
    frames: Seq<Seq<u8>>,
    times: Seq<i64>,
)
    ensures
        ({
            let body = header_bytes(w, h, c, d, 0, t) + frames_bytes(frames);
            bytes::overwrite(
                bytes::overwrite(body, body.len(), trailer_bytes(times)),
                38,
                bytes::le4(frames.len() as int),
            ) == file_bytes(w, h, c, d, t, frames, times)
        }),
{
    let body = header_bytes(w, h, c, d, 0, t) + frames_bytes(frames);
    let n = bytes::le4(frames.len() as int);
    let whole = body + trailer_bytes(times);
    assert(bytes::overwrite(body, body.len(), trailer_bytes(times)) =~= whole);
    let pre = signature() + bytes::zeros(4) + bytes::le4(c.id()) + bytes::zeros(4) + bytes::le4(
        w as int,
    ) + bytes::le4(h as int) + bytes::le4(d as int);
    let post = bytes::zeros(120) + bytes::le8(t) + bytes::le8(t);
    assert(pre.len() == 38);
    assert(header_bytes(w, h, c, d, 0, t) =~= pre + bytes::le4(0) + post);
    assert(header_bytes(w, h, c, d, frames.len() as int, t) =~= pre + n + post);
    assert(bytes::overwrite(whole, 38, n) =~= file_bytes(w, h, c, d, t, frames, times));
}

/// A finished file is as long as its header, its frames and its timestamps together.
pub proof fn law_file_length(
    width: u32,
    height: u32,
    color: SerColor,
    depth: u8,
    ticks: int,
    frames: Seq<Seq<u8>>,
    timestamps: Seq<i64>,
)
    requires
        frames.len() == timestamps.len(),
        forall|k: int|
            0 <= k < frames.len() ==> (#[trigger] frames[k]).len() == frame_bytes(
                width,
                height,
                color,
                depth,
            ),
    ensures
        file_bytes(width, height, color, depth, ticks, frames, timestamps).len() == HEADER_LEN
            + frames.len() * frame_bytes(width, height, color, depth) + frames.len() * 8,
{
    lemma_frames_length(frames, frame_bytes(width, height, color, depth));
    lemma_trailer_length(timestamps);
}

/// A reader of a finished file finds the signature, the geometry, the layout, the bit depth and
/// the number of frames in the header.
#[verifier::spinoff_prover]
#[verifier::rlimit(40)]
pub proof fn law_header_reads_back(
    width: u32,
    height: u32,
    color: SerColor,
    depth: u8,
    ticks: int,
    frames: Seq<Seq<u8>>,
    timestamps: Seq<i64>,
)
    requires
        frames.len() <= u32::MAX,
    ensures
        ({
            let file = file_bytes(width, height, color, depth, ticks, frames, timestamps);
            &&& file.subrange(0, 14) == signature()
            &&& bytes::read4(file, 18) == color.id()
            &&& bytes::read4(file, 26) == width
            &&& bytes::read4(file, 30) == height
            &&& bytes::read4(file, 34) == depth
            &&& bytes::read4(file, FRAME_COUNT_OFFSET as int) == frames.len()
        }),
{
    let file = file_bytes(width, height, color, depth, ticks, frames, timestamps);
    lemma_fields(
        signature(),
        bytes::le4(color.id()),
        bytes::le4(width as int),
        bytes::le4(height as int),
        bytes::le4(depth as int),
        bytes::le4(frames.len() as int),
        bytes::zeros(120),
        bytes::le8(ticks),
        frames_bytes(frames),
        trailer_bytes(timestamps),
    );
    assert(bytes::read4(file, 18) == color.id()) by {
        bytes::lemma_read4_le4(file, 18, color.id());
    }
    assert(bytes::read4(file, 26) == width) by {
        bytes::lemma_read4_le4(file, 26, width as int);
    }
    assert(bytes::read4(file, 30) == height) by {
        bytes::lemma_read4_le4(file, 30, height as int);
    }
    assert(bytes::read4(file, 34) == depth) by {
        bytes::lemma_read4_le4(file, 34, depth as int);
    }
    assert(bytes::read4(file, 38) == frames.len()) by {
        bytes::lemma_read4_le4(file, 38, frames.len() as int);
    }
}

/// Where the fields of a header stand in a file.
proof fn lemma_fields(
    sig: Seq<u8>,
    c: Seq<u8>,
    w: Seq<u8>,
    h: Seq<u8>,
    d: Seq<u8>,
    n: Seq<u8>,
    names: Seq<u8>,
    t: Seq<u8>,
    frames: Seq<u8>,
    trailer: Seq<u8>,
)
    requires
        sig.len() == 14,
        c.len() == 4,
        w.len() == 4,
        h.len() == 4,
        d.len() == 4,
        n.len() == 4,
    ensures
        ({
            let file = sig + bytes::zeros(4) + c + bytes::zeros(4) + w + h + d + n + names + t + t
                + frames + trailer;
            &&& file.len() >= 42
            &&& file.subrange(0, 14) == sig
            &&& file.subrange(18, 22) == c
            &&& file.subrange(26, 30) == w
            &&& file.subrange(30, 34) == h
            &&& file.subrange(34, 38) == d
            &&& file.subrange(38, 42) == n
        }),
{
    let file = sig + bytes::zeros(4) + c + bytes::zeros(4) + w + h + d + n + names + t + t + frames
        + trailer;
    assert(file.subrange(0, 14) =~= sig);
    assert(file.subrange(18, 22) =~= c);
    assert(file.subrange(26, 30) =~= w);
    assert(file.subrange(30, 34) =~= h);
    assert(file.subrange(34, 38) =~= d);
    assert(file.subrange(38, 42) =~= n);
}

/// A reader of a finished file finds frame `k` unaltered `k` frame lengths behind the header.
pub proof fn law_frame_reads_back(
    width: u32,
    height: u32,
    color: SerColor,
    depth: u8,
    ticks: int,
    frames: Seq<Seq<u8>>,
    timestamps: Seq<i64>,
    k: int,
)
    requires
        0 <= k < frames.len(),
        forall|j: int|
            0 <= j < frames.len() ==> (#[trigger] frames[j]).len() == frame_bytes(
                width,
                height,
                color,
                depth,
            ),
    ensures
        ({
            let n = frame_bytes(width, height, color, depth);
            let at = HEADER_LEN + k * n;
            let file = file_bytes(width, height, color, depth, ticks, frames, timestamps);
            at + n <= file.len() && file.subrange(at, at + n) == frames[k]
        }),
{
    let n = frame_bytes(width, height, color, depth);
    let all = frames_bytes(frames);
    let file = file_bytes(width, height, color, depth, ticks, frames, timestamps);
    lemma_frame_at(frames, n, k);
    let at = HEADER_LEN + k * n;
    assert(0 <= k * n) by (nonlinear_arith)
        requires
            0 <= k,
            0 <= n,
    ;
    assert(file.subrange(at, at + n) =~= all.subrange(k * n, k * n + n));
}

proof fn lemma_frames_length(frames: Seq<Seq<u8>>, n: int)
    requires
        forall|k: int| 0 <= k < frames.len() ==> (#[trigger] frames[k]).len() == n,
    ensures
        frames_bytes(frames).len() == frames.len() * n,
    decreases frames.len(),
{
    if frames.len() > 0 {
        let rest = frames.drop_last();
        lemma_frames_length(rest, n);
        assert(frames.last() == frames[frames.len() - 1]);
        assert((frames.len() - 1) * n + n == frames.len() * n) by (nonlinear_arith);
    } else {
        assert(0 * n == 0) by (nonlinear_arith);
    }
}

proof fn lemma_trailer_length(timestamps: Seq<i64>)
    ensures
        trailer_bytes(timestamps).len() == timestamps.len() * 8,
    decreases timestamps.len(),
{
    if timestamps.len() > 0 {
        lemma_trailer_length(timestamps.drop_last());
    }
}

proof fn lemma_frame_at(frames: Seq<Seq<u8>>, n: int, k: int)
    requires
        0 <= k < frames.len(),
        forall|j: int| 0 <= j < frames.len() ==> (#[trigger] frames[j]).len() == n,
    ensures
        0 <= n,
        k * n + n <= frames_bytes(frames).len(),
        frames_bytes(frames).subrange(k * n, k * n + n) == frames[k],
    decreases frames.len(),
{
    let rest = frames.drop_last();
    let all = frames_bytes(frames);
    assert(frames[k].len() == n);
    lemma_frames_length(rest, n);
    lemma_frames_length(frames, n);
    assert(frames.last() == frames[frames.len() - 1]);
    assert(0 <= k * n) by (nonlinear_arith)
        requires
            0 <= k,
            0 <= n,
    ;
    if k == frames.len() - 1 {
        assert(all.subrange(k * n, k * n + n) =~= frames[k]);
    } else {
        lemma_frame_at(rest, n, k);
        assert(rest[k] == frames[k]);
        assert(all.subrange(k * n, k * n + n) =~= frames_bytes(rest).subrange(k * n, k * n + n));
    }
}

/// Each color layout has its SER number, and no two share one; RGB has three samples for a pixel, all
/// others one.
pub proof fn law_colors_have_their_numbers(a: SerColor, b: SerColor)
    ensures
        SerColor::Mono.id() == 0,
        SerColor::BayerRGGB.id() == 8,
        SerColor::BayerGRBG.id() == 9,
        SerColor::BayerGBRG.id() == 10,
        SerColor::BayerBGGR.id() == 11,
        SerColor::Rgb.id() == 100,
        a != b ==> a.id() != b.id(),
        a.samples() == if a == SerColor::Rgb {
            3int
        } else {
            1int
        },
{
}

/// A sensor's color pattern names its layout, whatever white space stands around it and in whatever
/// case; any other name is mono.
pub proof fn law_patterns_name_their_layout(front: Seq<char>, core: Seq<char>, back: Seq<char>)
    requires
        forall|i: int| 0 <= i < front.len() ==> text::white_space(#[trigger] front[i]),
        forall|i: int| 0 <= i < back.len() ==> text::white_space(#[trigger] back[i]),
        core.len() > 0 ==> !text::white_space(core[0]) && !text::white_space(core.last()),
        core.len() > 0,
    ensures
        ({
            let color = SerColor::named(front + core + back);
            &&& text::upper(core) == "RGGB"@ ==> color == SerColor::BayerRGGB
            &&& text::upper(core) == "GRBG"@ ==> color == SerColor::BayerGRBG
            &&& text::upper(core) == "GBRG"@ ==> color == SerColor::BayerGBRG
            &&& text::upper(core) == "BGGR"@ ==> color == SerColor::BayerBGGR
            &&& text::upper(core) != "RGGB"@ && text::upper(core) != "GRBG"@ && text::upper(core)
                != "GBRG"@ && text::upper(core) != "BGGR"@ ==> color == SerColor::Mono
            &&& color != SerColor::Rgb
        }),
{
    text::law_trimming_bares_the_core(front, core, back);
    reveal_strlit("RGGB");
    reveal_strlit("GRBG");
    reveal_strlit("GBRG");
    reveal_strlit("BGGR");
    assert("RGGB"@[0] == 'R' && "GRBG"@[0] == 'G' && "GBRG"@[0] == 'G' && "BGGR"@[0] == 'B');
    assert("GRBG"@[1] == 'R' && "GBRG"@[1] == 'B');
}

/// Times are counted in ticks of 100 ns since the year 1601: 1970 begins 11644473600 seconds later, a
/// second more is ten million ticks more, and an unknown time is zero.
pub proof fn law_times_are_ticks_since_1601(secs: u64, nanos: u32)
    requires
        secs < u64::MAX,
    ensures
        filetime_of(Some(UnixTime { secs: 0, nanos: 0 })) == 116_444_736_000_000_000,
        filetime_of(Some(UnixTime { secs: (secs + 1) as u64, nanos })) == filetime_of(
            Some(UnixTime { secs, nanos }),
        ) + 10_000_000,
        filetime_of(Some(UnixTime { secs, nanos })) == filetime_of(
            Some(UnixTime { secs, nanos: 0 }),
        ) + nanos as int / 100,
        filetime_of(None) == 0,
{
}

/// Every time that is accepted has ticks that 64 bits with a sign hold.
pub proof fn law_accepted_times_fit(t: UnixTime)
    ensures
        t.nanos < 1_000_000_000 && filetime_of(
            Some(UnixTime { secs: t.secs, nanos: 999_999_999 }),
        ) <= i64::MAX ==> in_filetime_range(Some(t)),
        in_filetime_range(Some(t)) ==> 0 <= filetime_of(Some(t)) <= i64::MAX,
        in_filetime_range(None),
{
}

/// A file begins with the words `LUCAM-RECORDER`.
pub proof fn law_signature_is_spelled(i: int)
    requires
        0 <= i < 14,
    ensures
        signature().len() == 14,
        signature()[i] as int == "LUCAM-RECORDER"@[i] as int,
{
    reveal_strlit("LUCAM-RECORDER");
    assert(i == 0 || i == 1 || i == 2 || i == 3 || i == 4 || i == 5 || i == 6 || i == 7 || i == 8
        || i == 9 || i == 10 || i == 11 || i == 12 || i == 13);
}

/// A frame has a sample of one byte, or two where samples are deeper than eight bits, for each pixel
/// and color.
pub proof fn law_frame_size(width: u32, height: u32, depth: u8)
    ensures
        depth <= 8 ==> sample_bytes(depth) == 1,
        depth > 8 ==> sample_bytes(depth) == 2,
        frame_bytes(width, height, SerColor::Mono, 8) == width * height,
        frame_bytes(width, height, SerColor::Mono, 16) == 2 * (width * height),
        frame_bytes(width, height, SerColor::BayerRGGB, depth) == frame_bytes(
            width,
            height,
            SerColor::Mono,
            depth,
        ),
        frame_bytes(width, height, SerColor::Rgb, 8) == 3 * (width * height),
        HEADER_LEN == 178,
        FRAME_COUNT_OFFSET == 38,
{
    let n = width * height;
    assert(n * 1 * 1 == n && n * 1 * 2 == 2 * n && n * 3 * 1 == 3 * n) by (nonlinear_arith);
}

/// The header is 178 bytes long, and says twice, in its last 16 bytes, when the recording began; its
/// bytes in between that are not used are zero.
pub proof fn law_header_dates_the_recording(
    width: u32,
    height: u32,
    color: SerColor,
    depth: u8,
    count: int,
    ticks: int,
)
    ensures
        ({
            let header = header_bytes(width, height, color, depth, count, ticks);
            &&& header.len() == 178
            &&& header.subrange(162, 170) == bytes::le8(ticks)
            &&& header.subrange(170, 178) == bytes::le8(ticks)
            &&& header.subrange(14, 18) == bytes::zeros(4)
            &&& header.subrange(22, 26) == bytes::zeros(4)
            &&& header.subrange(42, 162) == bytes::zeros(120)
        }),
{
    lemma_header_ends(
        signature(),
        bytes::le4(color.id()),
        bytes::le4(width as int),
        bytes::le4(height as int),
        bytes::le4(depth as int),
        bytes::le4(count),
        bytes::le8(ticks),
    );
}

proof fn lemma_header_ends(
    sig: Seq<u8>,
    c: Seq<u8>,
    w: Seq<u8>,
    h: Seq<u8>,
    d: Seq<u8>,
    n: Seq<u8>,
    t: Seq<u8>,
)
    requires
        sig.len() == 14,
        c.len() == 4,
        w.len() == 4,
        h.len() == 4,
        d.len() == 4,
        n.len() == 4,
        t.len() == 8,
    ensures
        ({
            let header = sig + bytes::zeros(4) + c + bytes::zeros(4) + w + h + d + n + bytes::zeros(
                120,
            ) + t + t;
            &&& header.len() == 178
            &&& header.subrange(162, 170) == t
            &&& header.subrange(170, 178) == t
            &&& header.subrange(14, 18) == bytes::zeros(4)
            &&& header.subrange(22, 26) == bytes::zeros(4)
            &&& header.subrange(42, 162) == bytes::zeros(120)
        }),
{
    let header = sig + bytes::zeros(4) + c + bytes::zeros(4) + w + h + d + n + bytes::zeros(120) + t
        + t;
    assert(header.subrange(162, 170) =~= t);
    assert(header.subrange(170, 178) =~= t);
    assert(header.subrange(14, 18) =~= bytes::zeros(4));
    assert(header.subrange(22, 26) =~= bytes::zeros(4));
    assert(header.subrange(42, 162) =~= bytes::zeros(120));
}

/// The trailer holds the time of every frame, in their order, eight bytes each.
pub proof fn law_times_read_back(timestamps: Seq<i64>, k: int)
    requires
        0 <= k < timestamps.len(),
    ensures
        trailer_bytes(timestamps).len() == 8 * timestamps.len(),
        trailer_bytes(timestamps).subrange(8 * k, 8 * k + 8) == bytes::le8(timestamps[k] as int),
    decreases timestamps.len(),
{
    let rest = timestamps.drop_last();
    let last = bytes::le8(timestamps.last() as int);
    lemma_trailer_length(timestamps);
    lemma_trailer_length(rest);
    let whole = trailer_bytes(timestamps);
    if k < rest.len() {
        law_times_read_back(rest, k);
        assert(whole.subrange(8 * k, 8 * k + 8) =~= trailer_bytes(rest).subrange(
            8 * k,
            8 * k + 8,
        ));
    } else {
        assert(whole.subrange(8 * k, 8 * k + 8) =~= last);
    }
}

/// A file is its header, its frames one after the other, and its times.
pub proof fn law_file_is_in_order(
    width: u32,
    height: u32,
    color: SerColor,
    depth: u8,
    ticks: int,
    frames: Seq<Seq<u8>>,
    frame: Seq<u8>,
)
    ensures
        frames_bytes(Seq::empty()) == Seq::<u8>::empty(),
        frames_bytes(frames.push(frame)) == frames_bytes(frames) + frame,
        file_bytes(width, height, color, depth, ticks, Seq::empty(), Seq::empty()) == header_bytes(
            width,
            height,
            color,
            depth,
            0,
            ticks,
        ),
{
    assert(frames.push(frame).drop_last() =~= frames);
    assert(file_bytes(width, height, color, depth, ticks, Seq::empty(), Seq::empty())
        =~= header_bytes(width, height, color, depth, 0, ticks));
}

/// The words of an error say what failed and why.
pub proof fn law_errors_say_what_failed(e: OutputError, got: usize, expected: usize)
    ensures
        SerError::Header(e).words() == "writing SER header: "@ + e.message@,
        SerError::Frame(e).words() == "writing SER frame: "@ + e.message@,
        SerError::Trailer(e).words() == "writing SER trailer: "@ + e.message@,
        SerError::Seek(e).words() == "seeking to SER FrameCount: "@ + e.message@,
        SerError::Count(e).words() == "patching SER FrameCount: "@ + e.message@,
        SerError::Flush(e).words() == "flushing SER: "@ + e.message@,
        (SerError::FrameSize { got, expected }).words() == "SER frame size "@ + text::decimal(
            got as nat,
        ) + " != expected "@ + text::decimal(expected as nat),
{
}

/// An open file is finished and a closed one stays closed; a reliable output with room for the times
/// is always finished.
pub proof fn law_open_files_are_finished<W: SerOutput>(
    open: Option<SerRecorder<W>>,
    done: Option<Result<(u32, Tape<W>), SerError>>,
)
    requires
        file_finished(open, done),
    ensures
        open is Some <==> done is Some,
        open matches Some(rec) ==> {
            &&& rec.output().reliable() && rec.output().position() + 8 * rec.times().len()
                <= usize::MAX ==> done->0 is Ok
            &&& done->0 matches Ok(d) ==> d.0 == rec.written() && d.1.flushed()
            &&& done->0 matches Err(e) ==> !(e is Header) && !(e is Frame) && !(e is FrameSize)
        },
{
}

} // verus!
