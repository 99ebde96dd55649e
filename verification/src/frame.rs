//! A decoded video frame ready for display.

use crate::text;
use vstd::prelude::*;

verus! {

/// A single decoded frame from the camera video stream, stored as RGBA8. The `seq` counter lets
/// the GUI detect new frames without comparing pixel buffers.
pub struct Frame {
    pub width: usize,
    pub height: usize,
    /// Tightly packed RGBA8, `width * height * 4` bytes. For a 16-bit stream this holds the high
    /// byte of each sample; the full samples live in `raw16`.
    pub rgba: Vec<u8>,
    /// The original 16-bit mono samples (`width * height`), present only for a 16-bit raw stream,
    /// so that the live-view stretch can scale against the true dynamic range.
    pub raw16: Option<Vec<u16>>,
    /// Monotonic frame sequence number.
    pub seq: u64,
    /// Full-scale ADU of the source samples: 255 for an 8-bit stream (and MJPEG), 65535 for a
    /// 16-bit stream.
    pub max_adu: u32,
}

/// Why a payload is not a frame.
#[derive(Debug)]
pub enum FrameError {
    /// The frame geometry is zero or too large to count.
    UnknownGeometry,
    /// The payload is neither 8- nor 16-bit mono of the given geometry.
    LengthMismatch { len: usize, width: usize, height: usize },
    /// A payload labelled as JPEG does not decode as one.
    Jpeg { message: String },
    /// A payload is in no image format that the decoder knows.
    Unsupported { message: String },
}

/// Why a compressed payload could not be inflated.
#[derive(Debug)]
pub struct InflateError {
    pub message: String,
}

/// A display pixel: RGB with alpha already multiplied in.
#[derive(Clone, Copy, Debug, PartialEq, Eq, Structural)]
pub struct Pixel {
    pub r: u8,
    pub g: u8,
    pub b: u8,
    pub a: u8,
}

/// A display image ready for texture upload: width and height, and the pixels row by row.
pub struct DisplayImage {
    pub size: [usize; 2],
    pub pixels: Vec<Pixel>,
}

/// How sample levels map to display levels.
pub enum Stretch {
    /// Every level as it is.
    Keep,
    /// The display level of each sample level, by index.
    Levels(Vec<u8>),
}

/// Integer Rec. 601 luma of a pixel.
pub open spec fn luma(r: u8, g: u8, b: u8) -> int {
    (77 * r + 150 * g + 29 * b) / 256
}

/// Luma of the pixel at index `i` of a packed RGBA8 buffer.
pub open spec fn luma_at(rgba: Seq<u8>, i: int) -> int {
    luma(rgba[4 * i], rgba[4 * i + 1], rgba[4 * i + 2])
}

/// How many of the first `n` pixels have luma `v`.
pub open spec fn luma_count(rgba: Seq<u8>, n: nat, v: int) -> nat
    decreases n,
{
    if n == 0 {
        0
    } else {
        luma_count(rgba, (n - 1) as nat, v) + if luma_at(rgba, n - 1) == v {
            1nat
        } else {
            0nat
        }
    }
}

/// Gray samples as packed opaque RGBA8.
pub open spec fn gray_rgba(gray: Seq<u8>) -> Seq<u8> {
    Seq::new(
        4 * gray.len(),
        |i: int|
            if i % 4 == 3 {
                255u8
            } else {
                gray[i / 4]
            },
    )
}

/// Little-endian 16-bit samples of a payload.
pub open spec fn samples16(data: Seq<u8>) -> Seq<u16> {
    Seq::new(data.len() / 2, |i: int| (data[2 * i] + 256 * data[2 * i + 1]) as u16)
}

/// The high byte of each little-endian 16-bit sample of a payload.
pub open spec fn high_bytes(data: Seq<u8>) -> Seq<u8> {
    Seq::new(data.len() / 2, |i: int| data[2 * i + 1])
}

/// The red, green and blue bytes of a packed RGBA8 buffer.
pub open spec fn rgb_of(rgba: Seq<u8>) -> Seq<u8> {
    Seq::new(3 * (rgba.len() / 4), |i: int| rgba[4 * (i / 3) + i % 3])
}

/// The label of a stream payload says JPEG.
pub open spec fn labelled_jpeg(fmt: Option<Seq<char>>) -> bool {
    fmt matches Some(f) && (text::occurs(f, "jpg"@) || text::occurs(f, "jpeg"@))
}

/// Whether a stream label names JPEG.
pub fn is_jpeg_label(fmt: Option<&str>) -> (b: bool)
    ensures
        b == labelled_jpeg(text::chars(fmt)),
{
    match fmt {
        Some(f) => text::contains(f, "jpg") || text::contains(f, "jpeg"),
        None => false,
    }
}

impl Frame {
    /// The pixel buffers have the size that the geometry asks for.
    pub open spec fn wf(&self) -> bool {
        &&& self.width * self.height * 4 == self.rgba@.len()
        &&& self.raw16 matches Some(samples) ==> samples@.len() == self.width * self.height
    }

    /// A frame of 8-bit source samples.
    pub fn new(width: usize, height: usize, rgba: Vec<u8>, seq: u64) -> (f: Self)
        ensures
            f == (Frame { width, height, rgba, raw16: None, seq, max_adu: 255 }),
    {
        Frame { width, height, rgba, raw16: None, seq, max_adu: 255 }
    }

    /// Interpret a raw mono video frame. A raw payload carries no dimensions, so `width` and
    /// `height` come from the camera's current readout region. The bytes per sample are inferred
    /// from the payload length: as many bytes as pixels are 8-bit mono, used directly as gray;
    /// twice as many are 16-bit little-endian mono, shown by the high byte and kept in full.
    pub fn from_raw_stream(data: &[u8], width: usize, height: usize, seq: u64) -> (r: Result<
        Frame,
        FrameError,
    >)
        ensures
            ({
                let px = width * height;
                let known = 0 < px <= usize::MAX;
                &&& !known ==> r == Err::<Frame, FrameError>(FrameError::UnknownGeometry)
                &&& known && data.len() == px ==> (r matches Ok(f) && {
                    &&& f.width == width
                    &&& f.height == height
                    &&& f.rgba@ == gray_rgba(data@)
                    &&& f.raw16 is None
                    &&& f.seq == seq
                    &&& f.max_adu == 255
                })
                &&& known && data.len() == 2 * px ==> (r matches Ok(f) && {
                    &&& f.width == width
                    &&& f.height == height
                    &&& f.rgba@ == gray_rgba(high_bytes(data@))
                    &&& (f.raw16 matches Some(samples) && samples@ == samples16(data@))
                    &&& f.seq == seq
                    &&& f.max_adu == 65535
                })
                &&& known && data.len() != px && data.len() != 2 * px ==> r == Err::<
                    Frame,
                    FrameError,
                >(FrameError::LengthMismatch { len: data.len(), width, height })
            }),
            r matches Ok(f) ==> f.wf(),
    {
        let px: usize = match width.checked_mul(height) {
            Some(n) => n,
            None => 0,
        };
        proof {
            assert(0 <= width * height) by (nonlinear_arith);
        }
        if px == 0 {
            return Err(FrameError::UnknownGeometry);
        }
        let n: usize = data.len();
        let mut rgba: Vec<u8> = Vec::new();
        if n == px {
            let mut i: usize = 0;
            while i < n
                invariant
                    i <= n,
                    n == data.len(),
                    rgba@ =~= gray_rgba(data@.take(i as int)),
                decreases n - i,
            {
                let g: u8 = data[i];
                rgba.push(g);
                rgba.push(g);
                rgba.push(g);
                rgba.push(255);
                i += 1;
            }
            proof {
                assert(data@.take(n as int) =~= data@);
            }
            return Ok(Frame::new(width, height, rgba, seq));
        }
        if n % 2 == 0 && n / 2 == px {
            let mut samples: Vec<u16> = Vec::new();
            let mut i: usize = 0;
            while i < px
                invariant
                    i <= px,
                    n == 2 * px,
                    n == data.len(),
                    samples@ =~= samples16(data@.take(2 * i)),
                    rgba@ =~= gray_rgba(high_bytes(data@.take(2 * i))),
                decreases px - i,
            {
                let lo: u8 = data[2 * i];
                let hi: u8 = data[2 * i + 1];
                let g: u16 = lo as u16 + 256 * (hi as u16);
                rgba.push(hi);
                rgba.push(hi);
                rgba.push(hi);
                rgba.push(255);
                samples.push(g);
                i += 1;
            }
            proof {
                assert(data@.take(n as int) =~= data@);
            }
            let mut frame = Frame::new(width, height, rgba, seq);
            frame.max_adu = 65535;
            frame.raw16 = Some(samples);
            return Ok(frame);
        }
        Err(FrameError::LengthMismatch { len: n, width, height })
    }

    /// Luminance histogram of the frame: 256 bins over the pixels' Rec. 601 luma, computed off the
    /// unstretched pixels so it reflects the true sensor levels.
    pub fn luma_histogram(&self) -> (bins: [u32; 256])
        requires
            self.rgba@.len() / 4 <= u32::MAX,
        ensures
            forall|v: int|
                0 <= v < 256 ==> #[trigger] bins@[v] == luma_count(
                    self.rgba@,
                    self.rgba@.len() / 4,
                    v,
                ),
    {
        let mut bins: [u32; 256] = [0u32; 256];
        let total: usize = self.rgba.len();
        let n: usize = total / 4;
        let mut i: usize = 0;
        while i < n
            invariant
                i <= n,
                n == total / 4,
                total == self.rgba@.len(),
                n <= u32::MAX,
                forall|v: int|
                    0 <= v < 256 ==> #[trigger] bins@[v] == luma_count(self.rgba@, i as nat, v),
                forall|v: int| 0 <= v < 256 ==> #[trigger] bins@[v] <= i,
            decreases n - i,
        {
            let y: usize = luma8(self.rgba[4 * i], self.rgba[4 * i + 1], self.rgba[4 * i + 2]) as usize;
            let count: u32 = bins[y];
            bins[y] = count + 1;
            i += 1;
        }
        bins
    }

    /// The red, green and blue bytes of the frame, for recording a decoded color stream.
    pub fn rgb_bytes(&self) -> (rgb: Vec<u8>)
        ensures
            rgb@ == rgb_of(self.rgba@),
    {
        let total: usize = self.rgba.len();
        let n: usize = total / 4;
        let mut rgb: Vec<u8> = Vec::new();
        let mut i: usize = 0;
        while i < n
            invariant
                i <= n,
                n == total / 4,
                total == self.rgba@.len(),
                rgb@.len() == 3 * i,
                forall|k: int|
                    0 <= k < 3 * i ==> #[trigger] rgb@[k] == self.rgba@[4 * (k / 3) + k % 3],
            decreases n - i,
        {
            rgb.push(self.rgba[4 * i]);
            rgb.push(self.rgba[4 * i + 1]);
            rgb.push(self.rgba[4 * i + 2]);
            i += 1;
        }
        proof {
            assert(rgb@ =~= rgb_of(self.rgba@));
        }
        rgb
    }
}

/// The image that the `image` crate's JPEG decoder makes of `data`: width, height and packed RGBA8;
/// absent where it reports an error.
pub uninterp spec fn jpeg_image(data: Seq<u8>) -> Option<(u32, u32, Seq<u8>)>;

/// The image that the `image` crate makes of `data` after guessing the format: width, height and
/// packed RGBA8; absent where it reports an error.
pub uninterp spec fn guessed_image(data: Seq<u8>) -> Option<(u32, u32, Seq<u8>)>;

/// The bytes that the `flate2` crate's zlib decoder makes of `data`; absent where it reports an
/// error.
pub uninterp spec fn zlib_inflated(data: Seq<u8>) -> Option<Seq<u8>>;

/// Calls `image::load_from_memory_with_format` for JPEG and converts the image to RGBA8 with
/// `DynamicImage::to_rgba8`. The outcome is named [`jpeg_image`]; a decoded image has four
/// bytes for each of its pixels. Of an error only its text is handed on, and nothing is stated of
/// that text.
#[verifier::external_body]
fn decode_jpeg(data: &[u8]) -> (r: Result<(u32, u32, Vec<u8>), String>)
    ensures
        match r {
            Ok(img) => {
                &&& jpeg_image(data@) == Some((img.0, img.1, img.2@))
                &&& img.0 * img.1 * 4 == img.2@.len()
            },
            Err(_) => jpeg_image(data@) is None,
        },
{
    match image::load_from_memory_with_format(data, image::ImageFormat::Jpeg) {
        Ok(img) => {
            let rgba = img.to_rgba8();
            Ok((rgba.width(), rgba.height(), rgba.into_raw()))
        },
        Err(e) => Err(e.to_string()),
    }
}

/// Calls `image::load_from_memory`, which guesses the format, and converts the image to RGBA8 with
/// `DynamicImage::to_rgba8`. The outcome is named [`guessed_image`]; a decoded image has four
/// bytes for each of its pixels. Of an error only its text is handed on, and nothing is stated of
/// that text.
#[verifier::external_body]
fn decode_guessed(data: &[u8]) -> (r: Result<(u32, u32, Vec<u8>), String>)
    ensures
        match r {
            Ok(img) => {
                &&& guessed_image(data@) == Some((img.0, img.1, img.2@))
                &&& img.0 * img.1 * 4 == img.2@.len()
            },
            Err(_) => guessed_image(data@) is None,
        },
{
    match image::load_from_memory(data) {
        Ok(img) => {
            let rgba = img.to_rgba8();
            Ok((rgba.width(), rgba.height(), rgba.into_raw()))
        },
        Err(e) => Err(e.to_string()),
    }
}

/// Reads a `flate2::read::ZlibDecoder` over `data` to its end. The outcome is named
/// [`zlib_inflated`]; of an error only its text is handed on, and nothing is stated of that text.
#[verifier::external_body]
fn read_zlib(data: &[u8]) -> (r: Result<Vec<u8>, String>)
    ensures
        match r {
            Ok(out) => zlib_inflated(data@) == Some(out@),
            Err(_) => zlib_inflated(data@) is None,
        },
{
    let mut decoder = flate2::read::ZlibDecoder::new(data);
    let mut out = Vec::new();
    match std::io::Read::read_to_end(&mut decoder, &mut out) {
        Ok(_) => Ok(out),
        Err(e) => Err(e.to_string()),
    }
}

/// A level with alpha multiplied in, rounded to the nearest integer.
pub open spec fn premultiplied(level: u8, alpha: u8) -> u8 {
    ((2 * level * alpha + 255) / 510) as u8
}

/// Calls `egui::Color32::from_rgba_unmultiplied`: the color with alpha multiplied into each channel
/// and rounded to the nearest level.
#[verifier::external_body]
fn color_unmultiplied(r: u8, g: u8, b: u8, a: u8) -> (p: Pixel)
    ensures
        p.r == premultiplied(r, a),
        p.g == premultiplied(g, a),
        p.b == premultiplied(b, a),
        p.a == a,
{
    let c = egui::Color32::from_rgba_unmultiplied(r, g, b, a);
    Pixel { r: c.r(), g: c.g(), b: c.b(), a: c.a() }
}

/// Inflate a zlib-compressed `.stream.z` raw frame.
pub fn inflate_zlib(data: &[u8]) -> (r: Result<Vec<u8>, InflateError>)
    ensures
        match r {
            Ok(out) => zlib_inflated(data@) == Some(out@),
            Err(_) => zlib_inflated(data@) is None,
        },
{
    match read_zlib(data) {
        Ok(out) => Ok(out),
        Err(message) => Err(InflateError { message }),
    }
}

/// The frame with the pixels of a decoded image, if there is one.
pub open spec fn decoded_frame(r: Result<Frame, FrameError>, img: Option<(u32, u32, Seq<u8>)>, seq: u64) -> bool {
    match img {
        Some((w, h, px)) => r matches Ok(f) && {
            &&& f.width == w
            &&& f.height == h
            &&& f.rgba@ == px
            &&& f.raw16 is None
            &&& f.seq == seq
            &&& f.max_adu == 255
        },
        None => r is Err,
    }
}

impl Frame {
    /// The frame of a decoded color image.
    pub fn from_decoded(width: u32, height: u32, rgba: Vec<u8>, seq: u64) -> (f: Frame)
        ensures
            f == (Frame {
                width: width as usize,
                height: height as usize,
                rgba,
                raw16: None,
                seq,
                max_adu: 255,
            }),
    {
        Frame::new(width as usize, height as usize, rgba, seq)
    }

    /// Decode a video-stream payload. MJPEG (`.stream_jpg`) is decoded as JPEG; any other payload
    /// as whatever image format its bytes show.
    pub fn from_stream_blob(fmt: Option<&str>, data: &[u8], seq: u64) -> (r: Result<
        Frame,
        FrameError,
    >)
        ensures
            labelled_jpeg(text::chars(fmt)) ==> decoded_frame(r, jpeg_image(data@), seq),
            !labelled_jpeg(text::chars(fmt)) ==> decoded_frame(r, guessed_image(data@), seq),
            r matches Err(e) ==> if labelled_jpeg(text::chars(fmt)) {
                e is Jpeg
            } else {
                e is Unsupported
            },
            r matches Ok(f) ==> f.wf(),
    {
        if is_jpeg_label(fmt) {
            match decode_jpeg(data) {
                Ok(img) => Ok(Frame::from_decoded(img.0, img.1, img.2, seq)),
                Err(message) => Err(FrameError::Jpeg { message }),
            }
        } else {
            match decode_guessed(data) {
                Ok(img) => Ok(Frame::from_decoded(img.0, img.1, img.2, seq)),
                Err(message) => Err(FrameError::Unsupported { message }),
            }
        }
    }

    /// The brightest level that an automatic stretch scales against: the largest 16-bit sample, or
    /// the largest red, green or blue byte.
    pub open spec fn is_peak(&self, peak: int) -> bool {
        match self.raw16 {
            Some(samples) => is_max(samples@.map_values(|s: u16| s as int), peak, 0),
            None => is_max(rgb_of(self.rgba@).map_values(|s: u8| s as int), peak, 255),
        }
    }

    /// The brightest level of the frame; for a frame without pixels zero where samples are 16 bits
    /// wide and 255 otherwise.
    pub fn peak(&self) -> (peak: u16)
        ensures
            self.is_peak(peak as int),
    {
        match &self.raw16 {
            Some(samples) => {
                let mut peak: u16 = 0;
                let mut i: usize = 0;
                let ghost s = samples@.map_values(|s: u16| s as int);
                while i < samples.len()
                    invariant
                        i <= samples.len(),
                        s == samples@.map_values(|s: u16| s as int),
                        forall|k: int| 0 <= k < i ==> #[trigger] s[k] <= peak,
                        i == 0 ==> peak == 0,
                        i > 0 ==> exists|k: int| 0 <= k < i && #[trigger] s[k] == peak,
                    decreases samples.len() - i,
                {
                    let v: u16 = samples[i];
                    assert(s[i as int] == v);
                    if v > peak || i == 0 {
                        peak = v;
                    }
                    i += 1;
                }
                peak
            },
            None => {
                let rgb: Vec<u8> = self.rgb_bytes();
                let mut peak: u8 = 255;
                let mut i: usize = 0;
                let ghost s = rgb@.map_values(|s: u8| s as int);
                while i < rgb.len()
                    invariant
                        i <= rgb.len(),
                        s == rgb@.map_values(|s: u8| s as int),
                        forall|k: int| 0 <= k < i ==> #[trigger] s[k] <= peak,
                        i == 0 ==> peak == 255,
                        i > 0 ==> exists|k: int| 0 <= k < i && #[trigger] s[k] == peak,
                    decreases rgb.len() - i,
                {
                    let v: u8 = rgb[i];
                    assert(s[i as int] == v);
                    if v > peak || i == 0 {
                        peak = v;
                    }
                    i += 1;
                }
                peak as u16
            },
        }
    }

    /// A stretch names a display level for every sample level of this frame. Samples of 16 bits
    /// have no display level of their own, so they cannot be kept as they are.
    pub open spec fn fits(&self, stretch: Stretch) -> bool {
        match stretch {
            Stretch::Keep => self.raw16 is None,
            Stretch::Levels(levels) => levels@.len() == if self.raw16 is Some {
                65536int
            } else {
                256int
            },
        }
    }

    /// The display pixel at index `i`: gray from a 16-bit sample, or the stretched channels with
    /// the frame's own alpha.
    pub open spec fn display_pixel(&self, stretch: Stretch, i: int) -> Pixel {
        match self.raw16 {
            Some(samples) => {
                let g = level(stretch, samples@[i] as int);
                Pixel {
                    r: premultiplied(g, 255),
                    g: premultiplied(g, 255),
                    b: premultiplied(g, 255),
                    a: 255,
                }
            },
            None => {
                let p = self.rgba@;
                let a = p[4 * i + 3];
                Pixel {
                    r: premultiplied(level(stretch, p[4 * i] as int), a),
                    g: premultiplied(level(stretch, p[4 * i + 1] as int), a),
                    b: premultiplied(level(stretch, p[4 * i + 2] as int), a),
                    a,
                }
            },
        }
    }

    /// Apply the live-view stretch and produce an image ready for texture upload.
    pub fn to_display_image(&self, stretch: &Stretch) -> (img: DisplayImage)
        requires
            self.wf(),
            self.fits(*stretch),
        ensures
            img.size@ == seq![self.width, self.height],
            img.pixels@ == Seq::new(
                (self.width * self.height) as nat,
                |i: int| self.display_pixel(*stretch, i),
            ),
    {
        let mut pixels: Vec<Pixel> = Vec::new();
        let size: [usize; 2] = [self.width, self.height];
        assert(size@ =~= seq![self.width, self.height]);
        match &self.raw16 {
            Some(samples) => {
                let mut i: usize = 0;
                while i < samples.len()
                    invariant
                        i <= samples.len(),
                        self.raw16 == Some(*samples),
                        self.fits(*stretch),
                        pixels@.len() == i,
                        forall|k: int|
                            0 <= k < i ==> #[trigger] pixels@[k] == self.display_pixel(*stretch, k),
                    decreases samples.len() - i,
                {
                    let g: u8 = apply_level(stretch, samples[i]);
                    pixels.push(color_unmultiplied(g, g, g, 255));
                    i += 1;
                }
            },
            None => {
                let total: usize = self.rgba.len();
                let n: usize = total / 4;
                let mut i: usize = 0;
                while i < n
                    invariant
                        i <= n,
                        n == total / 4,
                        total == self.rgba@.len(),
                        self.raw16 is None,
                        self.fits(*stretch),
                        pixels@.len() == i,
                        forall|k: int|
                            0 <= k < i ==> #[trigger] pixels@[k] == self.display_pixel(*stretch, k),
                    decreases n - i,
                {
                    let r: u8 = apply_level(stretch, self.rgba[4 * i] as u16);
                    let g: u8 = apply_level(stretch, self.rgba[4 * i + 1] as u16);
                    let b: u8 = apply_level(stretch, self.rgba[4 * i + 2] as u16);
                    pixels.push(color_unmultiplied(r, g, b, self.rgba[4 * i + 3]));
                    i += 1;
                }
            },
        }
        proof {
            assert(pixels@ =~= Seq::new(
                (self.width * self.height) as nat,
                |i: int| self.display_pixel(*stretch, i),
            ));
        }
        DisplayImage { size, pixels }
    }
}

/// `m` is the largest element of `s`, or `none` where `s` is empty.
pub open spec fn is_max(s: Seq<int>, m: int, none: int) -> bool {
    if s.len() == 0 {
        m == none
    } else {
        &&& forall|k: int| 0 <= k < s.len() ==> #[trigger] s[k] <= m
        &&& exists|k: int| 0 <= k < s.len() && #[trigger] s[k] == m
    }
}

/// The display level of a sample level.
pub open spec fn level(stretch: Stretch, v: int) -> u8 {
    match stretch {
        Stretch::Keep => v as u8,
        Stretch::Levels(levels) => levels@[v],
    }
}

fn apply_level(stretch: &Stretch, v: u16) -> (l: u8)
    requires
        *stretch matches Stretch::Levels(levels) ==> v < levels@.len(),
        *stretch is Keep ==> v < 256,
    ensures
        l == level(*stretch, v as int),
{
    match stretch {
        Stretch::Keep => v as u8,
        Stretch::Levels(levels) => levels[v as usize],
    }
}

/// Every pixel of a frame falls into exactly one bin: the 256 bins add up to the pixel count.
pub proof fn law_histogram_counts_every_pixel(rgba: Seq<u8>, n: nat)
    requires
        4 * n <= rgba.len(),
    ensures
        bin_sum(rgba, n, 256) == n,
    decreases n,
{
    if n == 0 {
        lemma_bin_sum_zero(rgba, 256);
    } else {
        law_histogram_counts_every_pixel(rgba, (n - 1) as nat);
        lemma_bin_sum_step(rgba, n, 256);
    }
}

/// The sum of the first `v` luma bins over the first `n` pixels.
pub open spec fn bin_sum(rgba: Seq<u8>, n: nat, v: nat) -> nat
    decreases v,
{
    if v == 0 {
        0
    } else {
        bin_sum(rgba, n, (v - 1) as nat) + luma_count(rgba, n, v - 1)
    }
}

proof fn lemma_bin_sum_zero(rgba: Seq<u8>, v: nat)
    ensures
        bin_sum(rgba, 0, v) == 0,
    decreases v,
{
    if v > 0 {
        lemma_bin_sum_zero(rgba, (v - 1) as nat);
    }
}

proof fn lemma_bin_sum_step(rgba: Seq<u8>, n: nat, v: nat)
    requires
        n > 0,
    ensures
        bin_sum(rgba, n, v) == bin_sum(rgba, (n - 1) as nat, v) + if luma_at(rgba, n - 1) < v {
            1nat
        } else {
            0nat
        },
    decreases v,
{
    if v > 0 {
        lemma_bin_sum_step(rgba, n, (v - 1) as nat);
    }
}

/// With unit levels a stretch changes nothing: the image is the one that keeps every level.
pub proof fn law_unit_levels_keep_the_image(frame: Frame, stretch: Stretch, i: int)
    requires
        frame.wf(),
        frame.raw16 is None,
        frame.fits(stretch),
        stretch matches Stretch::Levels(levels) ==> forall|v: int|
            0 <= v < 256 ==> #[trigger] levels@[v] == v,
        0 <= i < frame.width * frame.height,
    ensures
        frame.display_pixel(stretch, i) == frame.display_pixel(Stretch::Keep, i),
{
}

/// An opaque pixel is displayed with the very levels of its channels.
pub proof fn law_opaque_levels_survive(level: u8)
    ensures
        premultiplied(level, 255) == level,
{
}

/// Luma of one pixel.
pub fn luma8(r: u8, g: u8, b: u8) -> (y: u8)
    ensures
        y == luma(r, g, b),
{
    let sum: u32 = 77 * r as u32 + 150 * g as u32 + 29 * b as u32;
    (sum / 256) as u8
}

/// The display pixel of a 16-bit mono frame is gray and opaque: red, green and blue are all the
/// stretch's level of its sample.
pub proof fn law_wide_samples_show_gray(frame: Frame, levels: Vec<u8>, i: int)
    requires
        frame.wf(),
        frame.raw16 is Some,
        frame.fits(Stretch::Levels(levels)),
        0 <= i < frame.width * frame.height,
    ensures
        ({
            let p = frame.display_pixel(Stretch::Levels(levels), i);
            let level = levels@[frame.raw16->0@[i] as int];
            p.r == level && p.g == level && p.b == level && p.a == 255
        }),
{
    law_opaque_levels_survive(levels@[frame.raw16->0@[i] as int]);
}

/// An opaque color pixel shows each channel at the stretch's level of that very channel.
pub proof fn law_colors_keep_their_channels(frame: Frame, levels: Vec<u8>, i: int)
    requires
        frame.wf(),
        frame.raw16 is None,
        frame.fits(Stretch::Levels(levels)),
        0 <= i < frame.width * frame.height,
        frame.rgba@[4 * i + 3] == 255,
    ensures
        ({
            let p = frame.display_pixel(Stretch::Levels(levels), i);
            &&& p.r == levels@[frame.rgba@[4 * i] as int]
            &&& p.g == levels@[frame.rgba@[4 * i + 1] as int]
            &&& p.b == levels@[frame.rgba@[4 * i + 2] as int]
            &&& p.a == 255
        }),
        ({
            let p = frame.display_pixel(Stretch::Keep, i);
            &&& p.r == frame.rgba@[4 * i]
            &&& p.g == frame.rgba@[4 * i + 1]
            &&& p.b == frame.rgba@[4 * i + 2]
            &&& p.a == 255
        }),
{
    let c = frame.rgba@;
    law_opaque_levels_survive(levels@[c[4 * i] as int]);
    law_opaque_levels_survive(levels@[c[4 * i + 1] as int]);
    law_opaque_levels_survive(levels@[c[4 * i + 2] as int]);
    law_opaque_levels_survive(c[4 * i]);
    law_opaque_levels_survive(c[4 * i + 1]);
    law_opaque_levels_survive(c[4 * i + 2]);
}

/// The alpha of a color frame is shown as it is, and a transparent channel is never brighter than
/// its level and dark where alpha is zero.
pub proof fn law_alpha_is_kept(frame: Frame, stretch: Stretch, i: int, level: u8, alpha: u8)
    requires
        frame.raw16 is None,
    ensures
        frame.display_pixel(stretch, i).a == frame.rgba@[4 * i + 3],
        premultiplied(level, 0) == 0,
        premultiplied(0, alpha) == 0,
        -255 <= 2 * (255 * premultiplied(level, alpha) - level * alpha) <= 255,
{
    assert(0 <= level * alpha <= 255 * 255) by (nonlinear_arith)
        requires
            0 <= level <= 255,
            0 <= alpha <= 255,
    ;
    assert(2 * level * alpha == 2 * (level * alpha)) by (nonlinear_arith);
    assert(level * 0 == 0 && 0 * alpha == 0) by (nonlinear_arith);
}

/// A stretch fits a frame exactly where it has a level for every sample the frame can hold.
pub proof fn law_stretch_covers_every_sample(frame: Frame, levels: Vec<u8>, i: int)
    requires
        frame.wf(),
        frame.fits(Stretch::Levels(levels)),
        0 <= i < frame.width * frame.height,
    ensures
        frame.raw16 matches Some(samples) ==> samples@[i] < levels@.len() && levels@.len() == 65536,
        frame.raw16 is None ==> frame.rgba@[4 * i] < levels@.len() && levels@.len() == 256,
{
}

/// Gray samples become opaque pixels of that gray, in order.
pub proof fn law_gray_becomes_pixels(gray: Seq<u8>, i: int)
    requires
        0 <= i < gray.len(),
    ensures
        gray_rgba(gray).len() == 4 * gray.len(),
        gray_rgba(gray).subrange(4 * i, 4 * i + 4) == seq![gray[i], gray[i], gray[i], 255u8],
{
    assert(gray_rgba(gray).subrange(4 * i, 4 * i + 4) =~= seq![gray[i], gray[i], gray[i], 255u8]);
}

/// Samples of 16 bits are read low byte first, and shown by their high byte: each shown level is
/// the sample divided by 256.
pub proof fn law_wide_samples_are_read_low_byte_first(data: Seq<u8>, i: int)
    requires
        0 <= i,
        2 * i + 1 < data.len(),
    ensures
        samples16(data).len() == data.len() / 2,
        samples16(data)[i] == data[2 * i] + 256 * data[2 * i + 1],
        high_bytes(data).len() == data.len() / 2,
        high_bytes(data)[i] == samples16(data)[i] / 256,
{
}

/// A recorded color frame holds red, green and blue of each pixel, in order, without alpha.
pub proof fn law_recorded_colors_drop_alpha(rgba: Seq<u8>, i: int)
    requires
        0 <= i,
        4 * i + 3 < rgba.len(),
    ensures
        rgb_of(rgba).len() == 3 * (rgba.len() / 4),
        rgb_of(rgba).subrange(3 * i, 3 * i + 3) == seq![
            rgba[4 * i],
            rgba[4 * i + 1],
            rgba[4 * i + 2],
        ],
{
    assert(rgb_of(rgba).subrange(3 * i, 3 * i + 3) =~= seq![
        rgba[4 * i],
        rgba[4 * i + 1],
        rgba[4 * i + 2],
    ]);
}

/// Luma weighs red with 77, green with 150 and blue with 29 parts of 256, so a gray pixel has its own
/// level.
pub proof fn law_luma_weighs_the_channels(r: u8, g: u8, b: u8)
    ensures
        0 <= 77 * r + 150 * g + 29 * b - 256 * luma(r, g, b) < 256,
        r == g == b ==> luma(r, g, b) == r,
        0 <= luma(r, g, b) <= 255,
{
}

/// A bin of the histogram grows by one for each pixel of its luma and for no other.
pub proof fn law_histogram_counts_by_luma(rgba: Seq<u8>, n: nat, v: int)
    ensures
        luma_count(rgba, 0, v) == 0,
        luma_count(rgba, n + 1, v) == luma_count(rgba, n, v) + if luma(
            rgba[4 * n as int],
            rgba[4 * n as int + 1],
            rgba[4 * n as int + 2],
        ) == v {
            1int
        } else {
            0
        },
{
}

/// The peak of a frame is one of its samples and not below any other; red, green and blue count,
/// alpha does not.
pub proof fn law_peak_is_the_brightest_sample(frame: Frame, peak: int, i: int)
    requires
        frame.wf(),
        frame.is_peak(peak),
        0 <= i < frame.width * frame.height,
    ensures
        frame.raw16 matches Some(samples) ==> samples@[i] <= peak && exists|k: int|
            0 <= k < samples@.len() && #[trigger] samples@[k] == peak,
        frame.raw16 is None ==> {
            &&& frame.rgba@[4 * i] <= peak
            &&& frame.rgba@[4 * i + 1] <= peak
            &&& frame.rgba@[4 * i + 2] <= peak
            &&& exists|k: int|
                0 <= k < frame.rgba@.len() && k % 4 != 3 && #[trigger] frame.rgba@[k] == peak
        },
{
    match frame.raw16 {
        Some(samples) => {
            let s = samples@.map_values(|s: u16| s as int);
            assert(s[i] == samples@[i]);
            let k = choose|k: int| 0 <= k < s.len() && #[trigger] s[k] == peak;
            assert(samples@[k] == peak);
        },
        None => {
            let rgb = rgb_of(frame.rgba@);
            let s = rgb.map_values(|s: u8| s as int);
            law_recorded_colors_drop_alpha(frame.rgba@, i);
            assert(rgb[3 * i] == frame.rgba@[4 * i] && s[3 * i] == rgb[3 * i]);
            assert(rgb[3 * i + 1] == frame.rgba@[4 * i + 1] && s[3 * i + 1] == rgb[3 * i + 1]);
            assert(rgb[3 * i + 2] == frame.rgba@[4 * i + 2] && s[3 * i + 2] == rgb[3 * i + 2]);
            let k = choose|k: int| 0 <= k < s.len() && #[trigger] s[k] == peak;
            assert(rgb[k] == peak);
            assert(frame.rgba@[4 * (k / 3) + k % 3] == peak);
        },
    }
}

/// A stream label that names JPEG anywhere, as `jpg` or `jpeg`, says JPEG; no label says nothing.
pub proof fn law_jpeg_labels(a: Seq<char>, b: Seq<char>)
    ensures
        labelled_jpeg(Some(a + "jpg"@ + b)),
        labelled_jpeg(Some(a + "jpeg"@ + b)),
        !labelled_jpeg(None),
        labelled_jpeg(Some(a)) ==> text::occurs(a, "jpg"@) || text::occurs(a, "jpeg"@),
{
    text::law_occurrence_splits_the_text(a, "jpg"@, b);
    text::law_occurrence_splits_the_text(a, "jpeg"@, b);
}

/// A decoded image becomes a frame of its size, with its pixels, of 8-bit samples.
pub proof fn law_decoded_image_becomes_the_frame(
    r: Result<Frame, FrameError>,
    w: u32,
    h: u32,
    px: Seq<u8>,
    seq: u64,
)
    ensures
        decoded_frame(r, Some((w, h, px)), seq) ==> (r matches Ok(f) && {
            &&& f.width == w
            &&& f.height == h
            &&& f.rgba@ == px
            &&& f.raw16 is None
            &&& f.seq == seq
            &&& f.max_adu == 255
        }),
        decoded_frame(r, None, seq) ==> r is Err,
{
}

/// A frame without pixels has a fixed peak: zero where samples are 16 bits wide, and 255 otherwise.
pub proof fn law_peak_without_pixels(frame: Frame, peak: int)
    requires
        frame.wf(),
        frame.width * frame.height == 0,
    ensures
        frame.raw16 is Some ==> (frame.is_peak(peak) <==> peak == 0),
        frame.raw16 is None ==> (frame.is_peak(peak) <==> peak == 255),
{
}

} // verus!
