//! Per-frame target detection for guiding. Two modes:
//! - **Disk**: thresholded intensity-weighted centroid of the bright planet or disk on dark sky.
//! - **Surface**: correlation of a locked reference patch, for solar or lunar surface detail when
//!   the disk overfills the frame.
//!
//! Sums and thresholds are exact integers. Correlation scores come from the caller, which has the
//! floating-point hardware; which of them wins, and whether it counts, is decided here.

use crate::frame;
use crate::frame::Frame;
use crate::scalar::Scalar;
use vstd::arithmetic::div_mod::lemma_fundamental_div_mod_converse;
use vstd::prelude::*;

verus! {

/// How the target position is measured each frame.
#[derive(Clone, Copy, Debug, PartialEq, Eq, Structural)]
pub enum GuideMode {
    /// Intensity-weighted centroid of the bright region (planets, whole bright disks).
    Disk,
    /// Cross-correlation of a locked reference patch (solar/lunar surface).
    Surface,
}

impl GuideMode {
    /// The code of this mode.
    pub open spec fn code(self) -> u8 {
        match self {
            GuideMode::Disk => 0,
            GuideMode::Surface => 1,
        }
    }

    pub fn as_u8(self) -> (v: u8)
        ensures
            v == self.code(),
    {
        match self {
            GuideMode::Disk => 0,
            GuideMode::Surface => 1,
        }
    }

    pub fn from_u8(v: u8) -> (m: Self)
        ensures
            m == (if v == 1 {
                GuideMode::Surface
            } else {
                GuideMode::Disk
            }),
            forall|mode: GuideMode| #[trigger] mode.code() == v ==> m == mode,
    {
        match v {
            1 => GuideMode::Surface,
            _ => GuideMode::Disk,
        }
    }
}

/// Fewest above-threshold pixels for a trustworthy centroid.
pub const MIN_DISK_PIXELS: usize = 8;

/// Most pixels of a frame whose weighted sums are certain to fit 128 bits.
pub const MAX_PIXELS: u64 = 0x0008_0000_0000_0000;

/// Surface-mode reference patch size.
pub const PATCH: usize = 64;

/// How far (in pixels, each way) the reference patch is searched for in each frame.
pub const SEARCH: usize = 24;

/// Smallest side of a reference patch worth correlating.
pub const MIN_PATCH: usize = 8;

/// Bit pattern of the lowest correlation peak accepted as a real match (0.3 in single precision);
/// below it the feature is lost.
pub const NCC_MIN_PEAK_BITS: u64 = 0x3FD3_3333_4000_0000;

/// Luma of the first pixels of a packed RGBA8 buffer, `n` of them; zero where the buffer ends.
pub open spec fn gray_of(rgba: Seq<u8>, n: nat) -> Seq<u8> {
    Seq::new(
        n,
        |i: int|
            if i < rgba.len() / 4 {
                frame::luma_at(rgba, i) as u8
            } else {
                0u8
            },
    )
}

/// Convert a tightly packed RGBA8 buffer to 8-bit luma.
pub fn to_gray(rgba: &[u8], w: usize, h: usize) -> (gray: Vec<u8>)
    requires
        w * h <= usize::MAX,
    ensures
        gray@ == gray_of(rgba@, (w * h) as nat),
{
    let n: usize = w * h;
    let total: usize = rgba.len();
    let mut gray: Vec<u8> = Vec::with_capacity(n);
    let mut i: usize = 0;
    while i < n
        invariant
            i <= n,
            total == rgba.len(),
            gray@.len() == i,
            forall|k: int| 0 <= k < i ==> #[trigger] gray@[k] == gray_of(rgba@, n as nat)[k],
        decreases n - i,
    {
        if i < total / 4 {
            gray.push(frame::luma8(rgba[4 * i], rgba[4 * i + 1], rgba[4 * i + 2]));
        } else {
            gray.push(0);
        }
        i += 1;
    }
    proof {
        assert(gray@ =~= gray_of(rgba@, n as nat));
    }
    gray
}

/// The luma of gray pixels is the gray itself: what an 8-bit mono payload shows is what detection
/// sees.
pub proof fn law_gray_pixels_keep_their_level(gray: Seq<u8>)
    ensures
        gray_of(frame::gray_rgba(gray), gray.len()) == gray,
{
    assert forall|i: int| 0 <= i < gray.len() implies #[trigger] gray_of(
        frame::gray_rgba(gray),
        gray.len(),
    )[i] == gray[i] by {
        let rgba = frame::gray_rgba(gray);
        assert(rgba[4 * i] == gray[i]);
        assert(rgba[4 * i + 1] == gray[i]);
        assert(rgba[4 * i + 2] == gray[i]);
    }
    assert(gray_of(frame::gray_rgba(gray), gray.len()) =~= gray);
}

/// A fraction of the brightness span of a frame.
#[derive(Clone, Copy, Debug, PartialEq, Eq, Structural)]
pub struct Fraction {
    pub num: i16,
    pub den: u16,
}

/// Disk-mode threshold: pixels above half of the span count toward the centroid.
pub open spec fn disk_fraction() -> Fraction {
    Fraction { num: 1, den: 2 }
}

/// An intensity-weighted centroid as exact sums: the target stands at column
/// `sum_x / sum_w` and row `sum_y / sum_w`.
#[derive(Clone, Copy, Debug, PartialEq, Eq, Structural)]
pub struct Centroid {
    pub sum_w: u128,
    pub sum_x: u128,
    pub sum_y: u128,
}

/// The darkest of the first `n` levels, at most 255.
pub open spec fn darkest(gray: Seq<u8>, n: nat) -> int
    decreases n,
{
    if n == 0 {
        255
    } else {
        let rest = darkest(gray, (n - 1) as nat);
        if gray[n - 1] < rest {
            gray[n - 1] as int
        } else {
            rest
        }
    }
}

/// The brightest of the first `n` levels, at least zero.
pub open spec fn brightest(gray: Seq<u8>, n: nat) -> int
    decreases n,
{
    if n == 0 {
        0
    } else {
        let rest = brightest(gray, (n - 1) as nat);
        if gray[n - 1] > rest {
            gray[n - 1] as int
        } else {
            rest
        }
    }
}

/// The threshold `darkest + fraction * span`, times the fraction's denominator.
pub open spec fn threshold(lo: int, hi: int, f: Fraction) -> int {
    lo * f.den + f.num * (hi - lo)
}

/// The weight of a level: how far it lies above the threshold, times the denominator; zero below
/// it.
pub open spec fn weight(v: u8, t: int, den: int) -> int {
    if v * den >= t {
        v * den - t
    } else {
        0
    }
}

/// How many of the first `n` pixels are brighter than the threshold.
pub open spec fn bright_count(gray: Seq<u8>, t: int, den: int, n: nat) -> nat
    decreases n,
{
    if n == 0 {
        0
    } else {
        bright_count(gray, t, den, (n - 1) as nat) + if gray[n - 1] * den > t {
            1nat
        } else {
            0nat
        }
    }
}

/// The total weight of the first `n` pixels.
pub open spec fn weight_sum(gray: Seq<u8>, t: int, den: int, n: nat) -> int
    decreases n,
{
    if n == 0 {
        0
    } else {
        weight_sum(gray, t, den, (n - 1) as nat) + weight(gray[n - 1], t, den)
    }
}

/// The sum of weight times column over the first `n` pixels of rows `w` wide.
pub open spec fn column_sum(gray: Seq<u8>, t: int, den: int, w: int, n: nat) -> int
    decreases n,
{
    if n == 0 {
        0
    } else {
        column_sum(gray, t, den, w, (n - 1) as nat) + weight(gray[n - 1], t, den) * ((n - 1) % w)
    }
}

/// The sum of weight times row over the first `n` pixels of rows `w` wide.
pub open spec fn row_sum(gray: Seq<u8>, t: int, den: int, w: int, n: nat) -> int
    decreases n,
{
    if n == 0 {
        0
    } else {
        row_sum(gray, t, den, w, (n - 1) as nat) + weight(gray[n - 1], t, den) * ((n - 1) / w)
    }
}

/// The centroid of a frame, absent where the buffer does not match the geometry, the frame is
/// flat, or fewer than eight pixels are brighter than the threshold.
pub open spec fn centroid_of(gray: Seq<u8>, w: int, h: int, f: Fraction) -> Option<
    (int, int, int),
> {
    let n = gray.len();
    let lo = darkest(gray, n);
    let hi = brightest(gray, n);
    let t = threshold(lo, hi, f);
    let den = f.den as int;
    if n != w * h || w == 0 || h == 0 || hi <= lo || bright_count(gray, t, den, n)
        < MIN_DISK_PIXELS {
        None
    } else {
        Some(
            (
                weight_sum(gray, t, den, n),
                column_sum(gray, t, den, w, n),
                row_sum(gray, t, den, w, n),
            ),
        )
    }
}

/// Intensity-weighted centroid of the pixels brighter than the given fraction of the span between
/// the darkest and the brightest pixel, or `None` if too few pixels clear the threshold.
pub fn centroid_threshold(gray: &[u8], w: usize, h: usize, thresh_frac: Fraction) -> (r: Option<
    Centroid,
>)
    requires
        gray.len() <= MAX_PIXELS,
        thresh_frac.den > 0,
    ensures
        match r {
            Some(c) => centroid_of(gray@, w as int, h as int, thresh_frac) == Some(
                (c.sum_w as int, c.sum_x as int, c.sum_y as int),
            ),
            None => centroid_of(gray@, w as int, h as int, thresh_frac) is None,
        },
{
    let n: usize = gray.len();
    let px: usize = match w.checked_mul(h) {
        Some(p) => p,
        None => return None,
    };
    if n != px || w == 0 || h == 0 {
        return None;
    }
    let mut lo: u8 = 255;
    let mut hi: u8 = 0;
    let mut k: usize = 0;
    while k < n
        invariant
            k <= n,
            n == gray.len(),
            lo == darkest(gray@, k as nat),
            hi == brightest(gray@, k as nat),
        decreases n - k,
    {
        let v: u8 = gray[k];
        if v < lo {
            lo = v;
        }
        if v > hi {
            hi = v;
        }
        k += 1;
    }
    if hi <= lo {
        return None;
    }
    let den: i64 = thresh_frac.den as i64;
    proof {
        lemma_threshold_bounds(lo, hi, thresh_frac);
    }
    let t: i64 = lo as i64 * den + thresh_frac.num as i64 * (hi as i64 - lo as i64);
    let mut sum_w: u128 = 0;
    let mut sum_x: u128 = 0;
    let mut sum_y: u128 = 0;
    let mut count: usize = 0;
    let mut i: usize = 0;
    let mut j: usize = 0;
    k = 0;
    proof {
        assert(0 * w == 0) by (nonlinear_arith);
    }
    while k < n
        invariant
            k <= n,
            n == gray.len(),
            n <= MAX_PIXELS,
            w > 0,
            n == w * h,
            den == thresh_frac.den,
            0 < den <= u16::MAX,
            -8_388_608 <= t <= 25_165_824,
            t == threshold(lo as int, hi as int, thresh_frac),
            i < w,
            k == j * w + i,
            count <= k,
            count == bright_count(gray@, t as int, den as int, k as nat),
            sum_w == weight_sum(gray@, t as int, den as int, k as nat),
            sum_x == column_sum(gray@, t as int, den as int, w as int, k as nat),
            sum_y == row_sum(gray@, t as int, den as int, w as int, k as nat),
            sum_w <= k * 33_554_432,
            sum_x <= k * 33_554_432 * MAX_PIXELS,
            sum_y <= k * 33_554_432 * MAX_PIXELS,
        decreases n - k,
    {
        let v: u8 = gray[k];
        proof {
            lemma_fundamental_div_mod_converse(k as int, w as int, j as int, i as int);
            assert(v as int * den <= 255 * 65535) by (nonlinear_arith)
                requires
                    0 <= v <= 255,
                    0 <= den <= 65535,
            ;
            assert(0 <= v as int * den) by (nonlinear_arith)
                requires
                    0 <= v,
                    0 <= den,
            ;
            assert(j <= k) by (nonlinear_arith)
                requires
                    k == j * w + i,
                    w > 0,
                    i >= 0,
            ;
            assert(w <= n) by (nonlinear_arith)
                requires
                    n == w * h,
                    w > 0,
                    n > 0,
            ;
        }
        if v as i64 * den > t {
            let wgt: u128 = (v as i64 * den - t) as u128;
            proof {
                assert(wgt * (i as u128) <= 33_554_432 * MAX_PIXELS && 0 <= wgt * (i as u128))
                    by (nonlinear_arith)
                    requires
                        0 <= wgt <= 33_554_432,
                        0 <= i <= MAX_PIXELS,
                ;
                assert(wgt * (j as u128) <= 33_554_432 * MAX_PIXELS && 0 <= wgt * (j as u128))
                    by (nonlinear_arith)
                    requires
                        0 <= wgt <= 33_554_432,
                        0 <= j <= MAX_PIXELS,
                ;
            }
            sum_w = sum_w + wgt;
            sum_x = sum_x + wgt * (i as u128);
            sum_y = sum_y + wgt * (j as u128);
            count = count + 1;
        } else {
            proof {
                assert(0 * (k as int % w as int) == 0) by (nonlinear_arith);
                assert(0 * (k as int / w as int) == 0) by (nonlinear_arith);
            }
        }
        k += 1;
        if i + 1 == w {
            proof {
                assert((j + 1) * w == j * w + w) by (nonlinear_arith);
            }
            i = 0;
            j = j + 1;
        } else {
            i = i + 1;
        }
    }
    if count < MIN_DISK_PIXELS {
        return None;
    }
    Some(Centroid { sum_w, sum_x, sum_y })
}

proof fn lemma_threshold_bounds(lo: u8, hi: u8, f: Fraction)
    requires
        lo <= hi,
    ensures
        -8_388_608 <= threshold(lo as int, hi as int, f) <= 25_165_824,
        0 <= lo * f.den <= 255 * 65535,
        -8_388_608 <= f.num * (hi - lo) <= 8_388_608,
{
    assert(0 <= lo * f.den <= 255 * 65535) by (nonlinear_arith)
        requires
            0 <= lo <= 255,
            0 <= f.den <= 65535,
    ;
    let span = hi - lo;
    assert(-32768 * 255 <= f.num * span <= 32767 * 255) by (nonlinear_arith)
        requires
            0 <= span <= 255,
            -32768 <= f.num <= 32767,
    ;
}

/// A centroid lies inside the frame: between the first and the last column and row.
pub proof fn law_centroid_lies_in_the_frame(gray: Seq<u8>, w: int, h: int, f: Fraction)
    requires
        w > 0,
        h > 0,
        f.den > 0,
    ensures
        centroid_of(gray, w, h, f) matches Some((sw, sx, sy)) ==> {
            &&& sw > 0
            &&& 0 <= sx <= sw * (w - 1)
            &&& 0 <= sy <= sw * (h - 1)
        },
{
    if let Some((sw, sx, sy)) = centroid_of(gray, w, h, f) {
        let n = gray.len();
        let t = threshold(darkest(gray, n), brightest(gray, n), f);
        lemma_sums_bounded(gray, t, f.den as int, w, h, n);
        lemma_bright_pixels_weigh(gray, t, f.den as int, n);
    }
}

/// Every pixel brighter than the threshold has weight.
proof fn lemma_bright_pixels_weigh(gray: Seq<u8>, t: int, den: int, n: nat)
    ensures
        bright_count(gray, t, den, n) <= weight_sum(gray, t, den, n),
    decreases n,
{
    if n > 0 {
        lemma_bright_pixels_weigh(gray, t, den, (n - 1) as nat);
    }
}

proof fn lemma_sums_bounded(gray: Seq<u8>, t: int, den: int, w: int, h: int, n: nat)
    requires
        w > 0,
        h > 0,
        n <= w * h,
    ensures
        0 <= weight_sum(gray, t, den, n),
        0 <= column_sum(gray, t, den, w, n) <= weight_sum(gray, t, den, n) * (w - 1),
        0 <= row_sum(gray, t, den, w, n) <= weight_sum(gray, t, den, n) * (h - 1),
    decreases n,
{
    if n > 0 {
        let m = (n - 1) as nat;
        lemma_sums_bounded(gray, t, den, w, h, m);
        let a = weight(gray[m as int], t, den);
        let s = weight_sum(gray, t, den, m);
        let x = m as int % w;
        let y = m as int / w;
        assert(0 <= x <= w - 1);
        assert(0 <= y <= h - 1) by (nonlinear_arith)
            requires
                0 <= m < w * h,
                w > 0,
                y == m as int / w,
        ;
        assert(0 <= a * x <= a * (w - 1)) by (nonlinear_arith)
            requires
                0 <= a,
                0 <= x <= w - 1,
        ;
        assert(0 <= a * y <= a * (h - 1)) by (nonlinear_arith)
            requires
                0 <= a,
                0 <= y <= h - 1,
        ;
        assert((s + a) * (w - 1) == s * (w - 1) + a * (w - 1)) by (nonlinear_arith);
        assert((s + a) * (h - 1) == s * (h - 1) + a * (h - 1)) by (nonlinear_arith);
    } else {
        assert(0 * (w - 1) == 0) by (nonlinear_arith);
        assert(0 * (h - 1) == 0) by (nonlinear_arith);
    }
}

/// Background light does not move the target: raising every pixel by the same amount leaves the
/// centroid as it is.
pub proof fn law_centroid_ignores_background(
    gray: Seq<u8>,
    raised: Seq<u8>,
    by: int,
    w: int,
    h: int,
    f: Fraction,
)
    requires
        gray.len() == raised.len(),
        forall|i: int| 0 <= i < gray.len() ==> #[trigger] raised[i] == gray[i] + by,
    ensures
        centroid_of(gray, w, h, f) == centroid_of(raised, w, h, f),
{
    let n = gray.len();
    if n > 0 {
        lemma_raised_extremes(gray, raised, by, n);
        let t = threshold(darkest(gray, n), brightest(gray, n), f);
        let u = threshold(darkest(raised, n), brightest(raised, n), f);
        let den = f.den as int;
        assert(u == t + by * den) by {
            let lo = darkest(gray, n);
            assert((lo + by) * den == lo * den + by * den) by (nonlinear_arith);
        }
        lemma_raised_sums(gray, raised, by, t, u, den, w, n);
    }
}

proof fn lemma_raised_extremes(gray: Seq<u8>, raised: Seq<u8>, by: int, n: nat)
    requires
        0 < n <= gray.len(),
        gray.len() == raised.len(),
        forall|i: int| 0 <= i < gray.len() ==> #[trigger] raised[i] == gray[i] + by,
    ensures
        darkest(raised, n) == darkest(gray, n) + by,
        brightest(raised, n) == brightest(gray, n) + by,
    decreases n,
{
    assert(raised[n - 1] == gray[n - 1] + by);
    if n > 1 {
        lemma_raised_extremes(gray, raised, by, (n - 1) as nat);
    } else {
        assert(darkest(gray, 0) == 255 && darkest(raised, 0) == 255);
        assert(brightest(gray, 0) == 0 && brightest(raised, 0) == 0);
    }
}

proof fn lemma_raised_sums(
    gray: Seq<u8>,
    raised: Seq<u8>,
    by: int,
    t: int,
    u: int,
    den: int,
    w: int,
    n: nat,
)
    requires
        n <= gray.len(),
        gray.len() == raised.len(),
        forall|i: int| 0 <= i < gray.len() ==> #[trigger] raised[i] == gray[i] + by,
        u == t + by * den,
    ensures
        bright_count(raised, u, den, n) == bright_count(gray, t, den, n),
        weight_sum(raised, u, den, n) == weight_sum(gray, t, den, n),
        column_sum(raised, u, den, w, n) == column_sum(gray, t, den, w, n),
        row_sum(raised, u, den, w, n) == row_sum(gray, t, den, w, n),
    decreases n,
{
    if n > 0 {
        lemma_raised_sums(gray, raised, by, t, u, den, w, (n - 1) as nat);
        let v = gray[n - 1] as int;
        assert(raised[n - 1] == v + by);
        assert((v + by) * den == v * den + by * den) by (nonlinear_arith);
    }
}

/// A correlation window: a reference patch `rw` x `rh` is searched `search` pixels each way around
/// its anchor in a frame `w` x `h`.
#[derive(Clone, Copy, Debug, PartialEq, Eq, Structural)]
pub struct NccWindow {
    pub rw: usize,
    pub rh: usize,
    pub w: usize,
    pub h: usize,
    pub ax: usize,
    pub ay: usize,
    pub search: usize,
}

impl NccWindow {
    /// The buffers have the sizes that the window names, and the window stays inside the frame for
    /// every candidate offset.
    pub open spec fn fits(self, reference_len: nat, gray_len: nat) -> bool {
        &&& self.rw > 0
        &&& self.rh > 0
        &&& reference_len == self.rw * self.rh
        &&& gray_len == self.w * self.h
        &&& self.search <= self.ax
        &&& self.search <= self.ay
        &&& self.ax + self.search + self.rw <= self.w
        &&& self.ay + self.search + self.rh <= self.h
    }

    /// Number of candidate offsets along one axis.
    pub open spec fn span(self) -> int {
        2 * self.search + 1
    }

    /// Whether the buffers match and the window stays inside the frame.
    pub fn is_inside(&self, reference_len: usize, gray_len: usize) -> (b: bool)
        ensures
            b == self.fits(reference_len as nat, gray_len as nat),
    {
        if self.rw == 0 || self.rh == 0 {
            return false;
        }
        match self.rw.checked_mul(self.rh) {
            Some(n) => {
                if n != reference_len {
                    return false;
                }
            },
            None => return false,
        }
        match self.w.checked_mul(self.h) {
            Some(n) => {
                if n != gray_len {
                    return false;
                }
            },
            None => return false,
        }
        self.search <= self.ax && self.search <= self.ay && self.ax <= self.w && self.search
            <= self.w - self.ax && self.rw <= self.w - self.ax - self.search && self.ay <= self.h
            && self.search <= self.h - self.ay && self.rh <= self.h - self.ay - self.search
    }

    /// Top-left corner in the frame of the candidate at index `k` of the scan, row by row from
    /// the upper left.
    pub fn candidate(&self, k: usize) -> (at: (usize, usize))
        requires
            self.search <= self.ax,
            self.search <= self.ay,
            self.ax + self.search <= usize::MAX,
            self.ay + self.search <= usize::MAX,
            self.span() * self.span() <= usize::MAX,
            k < self.span() * self.span(),
        ensures
            at.0 == self.ax - self.search + k as int % self.span(),
            at.1 == self.ay - self.search + k as int / self.span(),
    {
        proof {
            assert(k as int / self.span() < self.span()) by (nonlinear_arith)
                requires
                    0 <= k < self.span() * self.span(),
                    self.span() > 0,
            ;
            assert(self.span() <= self.span() * self.span()) by (nonlinear_arith)
                requires
                    self.span() > 0,
            ;
        }
        let span: usize = 2 * self.search + 1;
        (self.ax - self.search + k % span, self.ay - self.search + k / span)
    }
}

/// The winner of a correlation scan: its offset, its score, and the scores on either side of it
/// along each axis, which are absent at the edge of the search.
#[derive(Clone, Copy, Debug)]
pub struct NccPeak {
    pub dx: i64,
    pub dy: i64,
    pub score: Scalar,
    pub sides_x: Option<(Scalar, Scalar)>,
    pub sides_y: Option<(Scalar, Scalar)>,
}

/// `k` is the winner of the first `n` scores: a number larger than the most negative single, not
/// below any other such number, and the first of its rank.
pub open spec fn wins(scores: Seq<Scalar>, n: nat, k: int) -> bool {
    &&& 0 <= k < n
    &&& lowest_score().below(scores[k])
    &&& forall|j: int| 0 <= j < n && !scores[j].nan() ==> (#[trigger] scores[j]).rank()
        <= scores[k].rank()
    &&& forall|j: int| 0 <= j < k && !scores[j].nan() ==> (#[trigger] scores[j]).rank()
        < scores[k].rank()
}

/// The most negative single-precision number, from which the search for a peak starts.
pub open spec fn lowest_score() -> Scalar {
    Scalar { bits: 0xC7EF_FFFF_E000_0000 }
}

/// The lowest correlation peak accepted as a match.
pub open spec fn lowest_match() -> Scalar {
    Scalar { bits: NCC_MIN_PEAK_BITS }
}

/// `p` is the peak of a scan `2 * search + 1` candidates wide and high.
pub open spec fn peak_of(p: NccPeak, scores: Seq<Scalar>, search: usize) -> bool {
    let span = 2 * search + 1;
    let k = (p.dy + search) * span + p.dx + search;
    &&& -search <= p.dx <= search
    &&& -search <= p.dy <= search
    &&& wins(scores, scores.len(), k)
    &&& p.score == scores[k]
    &&& p.sides_x == (if -search < p.dx < search {
        Some((scores[k - 1], scores[k + 1]))
    } else {
        None
    })
    &&& p.sides_y == (if -search < p.dy < search {
        Some((scores[k - span], scores[k + span]))
    } else {
        None
    })
}

/// Pick the peak of a correlation scan. `scores` holds the score of every candidate offset, row by
/// row from the upper left; the first of equal scores wins. `None` if no score reaches the lowest
/// accepted match.
fn ncc_peak(scores: &[Scalar], search: usize) -> (r: Option<NccPeak>)
    requires
        scores.len() == (2 * search + 1) * (2 * search + 1),
    ensures
        r is Some <==> exists|k: int|
            0 <= k < scores.len() && lowest_match().at_most(#[trigger] scores@[k]),
        r matches Some(p) ==> peak_of(p, scores@, search),
{
    let n: usize = scores.len();
    let mut best = Scalar { bits: 0xC7EF_FFFF_E000_0000 };
    let mut at: usize = 0;
    let mut found: bool = false;
    let mut k: usize = 0;
    while k < n
        invariant
            k <= n,
            n == scores.len(),
            found ==> wins(scores@, k as nat, at as int) && best == scores@[at as int],
            !found ==> best == lowest_score() && forall|j: int|
                0 <= j < k ==> !lowest_score().below(#[trigger] scores@[j]),
        decreases n - k,
    {
        let score: Scalar = scores[k];
        if best.lt(score) {
            best = score;
            at = k;
            found = true;
        }
        k += 1;
    }
    let floor = Scalar { bits: NCC_MIN_PEAK_BITS };
    if best.lt(floor) {
        return None;
    }
    proof {
        assert(lowest_score().rank() < lowest_match().rank());
        assert(found);
        assert(lowest_match().at_most(scores@[at as int]));
        assert(search < 0x8000_0000) by (nonlinear_arith)
            requires
                (2 * search + 1) * (2 * search + 1) <= 0xFFFF_FFFF_FFFF_FFFF,
        ;
    }
    let span: u64 = 2 * search as u64 + 1;
    let s: u64 = search as u64;
    let pos: u64 = at as u64;
    let row: u64 = pos / span;
    let col: u64 = pos % span;
    proof {
        lemma_grid(pos as int, span as int);
        assert(row < span && col < span);
        assert(pos == row * span + col);
    }
    let dx: i64 = col as i64 - s as i64;
    let dy: i64 = row as i64 - s as i64;
    let sides_x = if 0 < col && col + 1 < span {
        proof {
            assert(row * span + span <= span * span) by (nonlinear_arith)
                requires
                    row < span,
            ;
        }
        Some((scores[at - 1], scores[at + 1]))
    } else {
        None
    };
    let sides_y = if 0 < row && row + 1 < span {
        proof {
            assert(span <= row * span) by (nonlinear_arith)
                requires
                    0 < row,
                    0 < span,
            ;
            assert((row + 1) * span + span <= span * span) by (nonlinear_arith)
                requires
                    row + 1 < span,
            ;
            assert((row + 1) * span == row * span + span) by (nonlinear_arith);
        }
        Some((scores[at - span as usize], scores[at + span as usize]))
    } else {
        None
    };
    Some(NccPeak { dx, dy, score: best, sides_x, sides_y })
}

/// Every level of a patch is the same: it has no feature to find again.
pub open spec fn featureless(reference: Seq<u8>) -> bool {
    forall|i: int| 0 <= i < reference.len() ==> #[trigger] reference[i] == reference[0]
}

fn is_featureless(reference: &[u8]) -> (b: bool)
    ensures
        b == featureless(reference@),
{
    let mut i: usize = 0;
    while i < reference.len()
        invariant
            i <= reference.len(),
            forall|k: int| 0 <= k < i ==> #[trigger] reference@[k] == reference@[0],
        decreases reference.len() - i,
    {
        if reference[i] != reference[0] {
            return false;
        }
        i += 1;
    }
    true
}

/// Find the shift of a reference patch of size `rw` x `rh` within `gray`, searching `search`
/// pixels each way around the patch's original top-left `anchor`, given the correlation score of
/// every candidate offset. `None` if the search window falls outside the frame, the patch is
/// featureless, or no strong match is found.
pub fn ncc_shift(
    reference: &[u8],
    size: (usize, usize),
    gray: &[u8],
    w: usize,
    h: usize,
    anchor: (usize, usize),
    search: usize,
    scores: &[Scalar],
) -> (r: Option<NccPeak>)
    requires
        ncc_window(size, w, h, anchor, search).fits(reference@.len(), gray@.len()) ==> scores.len()
            == (2 * search + 1) * (2 * search + 1),
    ensures
        r is Some <==> {
            &&& ncc_window(size, w, h, anchor, search).fits(reference@.len(), gray@.len())
            &&& !featureless(reference@)
            &&& exists|k: int|
                0 <= k < scores.len() && lowest_match().at_most(#[trigger] scores@[k])
        },
        r matches Some(p) ==> peak_of(p, scores@, search),
{
    let window = NccWindow {
        rw: size.0,
        rh: size.1,
        w,
        h,
        ax: anchor.0,
        ay: anchor.1,
        search,
    };
    if !window.is_inside(reference.len(), gray.len()) || is_featureless(reference) {
        return None;
    }
    ncc_peak(scores, search)
}

/// The window of a correlation.
pub open spec fn ncc_window(
    size: (usize, usize),
    w: usize,
    h: usize,
    anchor: (usize, usize),
    search: usize,
) -> NccWindow {
    NccWindow {
        rw: size.0,
        rh: size.1,
        w,
        h,
        ax: anchor.0,
        ay: anchor.1,
        search,
    }
}

proof fn lemma_grid(k: int, span: int)
    requires
        0 <= k < span * span,
        span > 0,
    ensures
        0 <= k / span < span,
        0 <= k % span < span,
        k == (k / span) * span + k % span,
{
    assert(0 <= k / span < span) by (nonlinear_arith)
        requires
            0 <= k < span * span,
            span > 0,
    ;
    assert(k == (k / span) * span + k % span) by (nonlinear_arith)
        requires
            span > 0,
    ;
}

/// A captured reference patch and where it was taken from, in frame pixels.
pub struct Patch {
    pub data: Vec<u8>,
    pub w: usize,
    pub h: usize,
    /// Top-left of the patch in the frame it was captured from.
    pub anchor: (usize, usize),
}

/// The side of a reference patch in a frame of side `n`: as large as the search window leaves
/// room for, at most [`PATCH`].
pub open spec fn patch_side(n: int) -> int {
    let room = if n > 2 * SEARCH {
        n - 2 * SEARCH
    } else {
        0
    };
    if room < PATCH {
        room
    } else {
        PATCH as int
    }
}

impl Patch {
    /// This is the patch at the center of a gray frame.
    pub open spec fn centered(&self, gray: Seq<u8>, w: int, h: int) -> bool {
        &&& self.w == patch_side(w)
        &&& self.h == patch_side(h)
        &&& self.anchor.0 == (w - self.w) / 2
        &&& self.anchor.1 == (h - self.h) / 2
        &&& self.data@ == Seq::new(
            (self.w * self.h) as nat,
            |k: int|
                gray[(self.anchor.1 + k / self.w as int) * w + self.anchor.0 + k % self.w as int],
        )
    }

    /// The window in which this patch is searched for in a frame `w` x `h`.
    pub open spec fn search_window(&self, w: usize, h: usize) -> NccWindow {
        NccWindow {
            rw: self.w,
            rh: self.h,
            w,
            h,
            ax: self.anchor.0,
            ay: self.anchor.1,
            search: SEARCH,
        }
    }

    /// The window in which this patch is searched for in a frame `w` x `h`.
    pub fn window(&self, w: usize, h: usize) -> (win: NccWindow)
        ensures
            win == self.search_window(w, h),
    {
        NccWindow {
            rw: self.w,
            rh: self.h,
            w,
            h,
            ax: self.anchor.0,
            ay: self.anchor.1,
            search: SEARCH,
        }
    }
}

/// A patch captured from a frame can be searched for in every frame of that size: its window stays
/// inside.
pub proof fn law_captured_patch_fits_its_frame(patch: Patch, gray: Seq<u8>, w: usize, h: usize)
    requires
        gray.len() == w * h,
        patch_side(w as int) >= MIN_PATCH,
        patch_side(h as int) >= MIN_PATCH,
        patch.centered(gray, w as int, h as int),
    ensures
        patch.search_window(w, h).fits(patch.data@.len(), gray.len()),
{
}

/// What a frame calls for to measure the target.
pub enum Measurement {
    /// The disk centroid, if there is one.
    Disk(Option<Centroid>),
    /// No reference patch could be captured, or its window does not fit this frame: no lock.
    NoLock,
    /// Correlate the reference patch with this gray frame.
    Correlate(Vec<u8>),
}

/// Stateful detector owned by the decode thread. A bumped reference generation (guide start or
/// re-lock) makes it recapture the Surface reference patch.
pub struct GuideDetector {
    pub ref_generation: u64,
    pub reference: Option<Patch>,
}

impl Default for GuideDetector {
    fn default() -> (d: Self)
        ensures
            d.ref_generation == u64::MAX,
            d.reference is None,
    {
        GuideDetector { ref_generation: u64::MAX, reference: None }
    }
}

impl GuideDetector {
    /// Capture a fresh reference patch centered in the frame, leaving room for the search window.
    /// If the frame is too small, clears the reference so that measuring reports no lock.
    pub fn capture_reference(&mut self, gray: &[u8], w: usize, h: usize, generation: u64)
        requires
            gray.len() == w * h,
        ensures
            final(self).ref_generation == generation,
            patch_side(w as int) < MIN_PATCH || patch_side(h as int) < MIN_PATCH
                ==> final(self).reference is None,
            patch_side(w as int) >= MIN_PATCH && patch_side(h as int) >= MIN_PATCH ==> (
            final(self).reference matches Some(p) && p.centered(gray@, w as int, h as int)),
    {
        self.ref_generation = generation;
        let pw: usize = side(w);
        let ph: usize = side(h);
        if pw < MIN_PATCH || ph < MIN_PATCH {
            self.reference = None;
            return;
        }
        let ax: usize = (w - pw) / 2;
        let ay: usize = (h - ph) / 2;
        let mut data: Vec<u8> = Vec::new();
        let mut j: usize = 0;
        proof {
            assert(0 * pw == 0) by (nonlinear_arith);
        }
        while j < ph
            invariant
                j <= ph,
                pw > 0,
                pw <= PATCH,
                ph <= PATCH,
                ax + pw <= w,
                ay + ph <= h,
                gray.len() == w * h,
                data@.len() == j * pw,
                forall|k: int|
                    0 <= k < j * pw ==> #[trigger] data@[k] == gray@[(ay + k / pw as int) * w + ax
                        + k % pw as int],
            decreases ph - j,
        {
            let mut i: usize = 0;
            proof {
                lemma_row_fits(ay + j, w as int, h as int);
            }
            let src: usize = (ay + j) * w + ax;
            while i < pw
                invariant
                    i <= pw,
                    j < ph,
                    pw > 0,
                    ax + pw <= w,
                    ay + ph <= h,
                    gray.len() == w * h,
                    src == (ay + j) * w + ax,
                    (ay + j) * w + w <= gray.len(),
                    data@.len() == j * pw + i,
                    forall|k: int|
                        0 <= k < j * pw + i ==> #[trigger] data@[k] == gray@[(ay + k / pw as int)
                            * w + ax + k % pw as int],
                decreases pw - i,
            {
                proof {
                    lemma_fundamental_div_mod_converse(j * pw + i, pw as int, j as int, i as int);
                }
                data.push(gray[src + i]);
                i += 1;
            }
            proof {
                assert((j + 1) * pw == j * pw + pw) by (nonlinear_arith);
            }
            j += 1;
        }
        let patch = Patch { data, w: pw, h: ph, anchor: (ax, ay) };
        proof {
            assert(ph * pw == pw * ph) by (nonlinear_arith);
            assert(patch.data@ =~= Seq::new(
                (patch.w * patch.h) as nat,
                |k: int|
                    gray@[(patch.anchor.1 + k / patch.w as int) * w + patch.anchor.0 + k
                        % patch.w as int],
            ));
        }
        self.reference = Some(patch);
    }

    /// The detector went from `before` to `after` over a frame and came to the measurement `m`.
    pub open spec fn measured(
        before: GuideDetector,
        after: GuideDetector,
        frame: Frame,
        mode: GuideMode,
        generation: u64,
        m: Measurement,
    ) -> bool {
        let n = (frame.width * frame.height) as nat;
        let w = frame.width as int;
        let h = frame.height as int;
        let gray = gray_of(frame.rgba@, n);
        let stale = before.reference is None || before.ref_generation != generation;
        let roomy = patch_side(w) >= MIN_PATCH && patch_side(h) >= MIN_PATCH;
        match mode {
            GuideMode::Disk => {
                &&& after == before
                &&& m matches Measurement::Disk(c)
                &&& match c {
                    Some(c) => centroid_of(gray, w, h, disk_fraction()) == Some(
                        (c.sum_w as int, c.sum_x as int, c.sum_y as int),
                    ),
                    None => centroid_of(gray, w, h, disk_fraction()) is None,
                }
            },
            GuideMode::Surface => {
                &&& !stale ==> after == before
                &&& stale ==> after.ref_generation == generation
                &&& stale && !roomy ==> after.reference is None
                &&& stale && roomy ==> (after.reference matches Some(p) && p.centered(gray, w, h))
                &&& match after.reference {
                    Some(p) => if p.search_window(frame.width, frame.height).fits(
                        p.data@.len(),
                        n,
                    ) {
                        m matches Measurement::Correlate(g) && g@ == gray
                    } else {
                        m is NoLock
                    },
                    None => m is NoLock,
                }
            },
        }
    }

    /// Take up a frame: measure the disk, or hand out the gray frame to correlate with the
    /// reference patch, which is captured first where there is none or its generation is old.
    pub fn measure(&mut self, frame: &Frame, mode: GuideMode, generation: u64) -> (m: Measurement)
        requires
            frame.width * frame.height <= usize::MAX,
            frame.width * frame.height <= MAX_PIXELS,
        ensures
            GuideDetector::measured(*old(self), *final(self), *frame, mode, generation, m),
    {
        let w: usize = frame.width;
        let h: usize = frame.height;
        let gray: Vec<u8> = to_gray(frame.rgba.as_slice(), w, h);
        match mode {
            GuideMode::Disk => {
                let half = Fraction { num: 1, den: 2 };
                Measurement::Disk(centroid_threshold(gray.as_slice(), w, h, half))
            },
            GuideMode::Surface => {
                if self.reference.is_none() || self.ref_generation != generation {
                    self.capture_reference(gray.as_slice(), w, h, generation);
                }
                let fits: bool = match &self.reference {
                    Some(patch) => patch.window(w, h).is_inside(patch.data.len(), gray.len()),
                    None => false,
                };
                if fits {
                    Measurement::Correlate(gray)
                } else {
                    Measurement::NoLock
                }
            },
        }
    }
}

fn side(n: usize) -> (s: usize)
    ensures
        s == patch_side(n as int),
{
    let room: usize = if n > 2 * SEARCH {
        n - 2 * SEARCH
    } else {
        0
    };
    if room < PATCH {
        room
    } else {
        PATCH
    }
}

proof fn lemma_row_fits(row: int, w: int, h: int)
    requires
        0 <= row < h,
        0 <= w,
    ensures
        0 <= row * w,
        row * w + w <= w * h,
{
    assert(0 <= row * w) by (nonlinear_arith)
        requires
            0 <= row,
            0 <= w,
    ;
    assert(row * w + w <= w * h) by (nonlinear_arith)
        requires
            row + 1 <= h,
            0 <= w,
    ;
}

/// A captured reference patch is a rectangle of the frame: each of its pixels has the gray level of
/// the frame as many columns and rows behind the anchor.
pub proof fn law_patch_is_a_cut_out(
    patch: Patch,
    gray: Seq<u8>,
    w: int,
    h: int,
    i: int,
    j: int,
)
    requires
        patch.centered(gray, w, h),
        0 <= i < patch.w,
        0 <= j < patch.h,
    ensures
        patch.data@.len() == patch.w * patch.h,
        0 <= j * patch.w + i < patch.data@.len(),
        patch.data@[j * patch.w + i] == gray[(patch.anchor.1 + j) * w + patch.anchor.0 + i],
{
    let k = j * patch.w + i;
    lemma_fundamental_div_mod_converse(k, patch.w as int, j, i);
    assert(0 <= k < patch.w * patch.h) by (nonlinear_arith)
        requires
            0 <= i < patch.w,
            0 <= j,
            j + 1 <= patch.h,
            k == j * patch.w + i,
    ;
}

/// A captured patch lies in the middle of the frame, is 64 pixels wide and high unless the frame is
/// too small for that, and always leaves 24 pixels on every side to search in.
pub proof fn law_patch_lies_in_the_middle(patch: Patch, gray: Seq<u8>, w: int, h: int)
    requires
        patch.centered(gray, w, h),
        patch.w > 0,
        patch.h > 0,
    ensures
        ({
            let right = w - patch.anchor.0 - patch.w;
            let below = h - patch.anchor.1 - patch.h;
            &&& 0 <= right - patch.anchor.0 <= 1
            &&& 0 <= below - patch.anchor.1 <= 1
            &&& patch.anchor.0 >= 24
            &&& patch.anchor.1 >= 24
        }),
        patch.w == 64 || patch.w < 64 && w - patch.w == 48,
        patch.h == 64 || patch.h < 64 && h - patch.h == 48,
{
}

/// A frame large enough for a patch of eight pixels and the search around it gets a fresh reference,
/// cut out of its own luma, wherever there was none or its generation is old; and it is that luma
/// which is correlated.
pub proof fn law_new_generation_captures_the_frame(
    before: GuideDetector,
    after: GuideDetector,
    frame: Frame,
    generation: u64,
    m: Measurement,
    i: int,
    j: int,
)
    requires
        GuideDetector::measured(before, after, frame, GuideMode::Surface, generation, m),
        frame.wf(),
        before.reference is None || before.ref_generation != generation,
        frame.width >= 56,
        frame.height >= 56,
    ensures
        after.ref_generation == generation,
        after.reference matches Some(p) && {
            &&& 8 <= p.w <= 64
            &&& 8 <= p.h <= 64
            &&& 0 <= i < p.w && 0 <= j < p.h ==> p.data@[j * p.w + i] == luma_of_pixel(
                frame.rgba@,
                (p.anchor.1 + j) * frame.width + p.anchor.0 + i,
            )
        },
        m matches Measurement::Correlate(g) && g@.len() == frame.width * frame.height && forall|k: int|
            0 <= k < g@.len() ==> #[trigger] g@[k] == luma_of_pixel(frame.rgba@, k),
{
    let n = (frame.width * frame.height) as nat;
    let gray = gray_of(frame.rgba@, n);
    let p = after.reference->0;
    let w = frame.width;
    let h = frame.height;
    assert(patch_side(w as int) >= MIN_PATCH && patch_side(h as int) >= MIN_PATCH);
    law_captured_patch_fits_its_frame(p, gray, w, h);
    assert(frame.rgba@.len() / 4 == n);
    assert forall|k: int| 0 <= k < n implies #[trigger] gray[k] == luma_of_pixel(
        frame.rgba@,
        k,
    ) by {}
    if 0 <= i < p.w && 0 <= j < p.h {
        law_patch_is_a_cut_out(p, gray, w as int, h as int, i, j);
        let k = (p.anchor.1 + j) * w + p.anchor.0 + i;
        lemma_row_fits(p.anchor.1 + j, w as int, h as int);
        assert(0 <= k < n);
    }
}

/// Luma of a pixel of a packed RGBA8 buffer, by the weights of red, green and blue.
pub open spec fn luma_of_pixel(rgba: Seq<u8>, k: int) -> int {
    (77 * rgba[4 * k] + 150 * rgba[4 * k + 1] + 29 * rgba[4 * k + 2]) / 256
}

/// Until the generation is bumped, the reference stays the one that was captured first, whatever
/// frames come; measuring the disk never touches it. A frame too small to search in has no lock.
pub proof fn law_reference_stays_until_bumped(
    before: GuideDetector,
    after: GuideDetector,
    frame: Frame,
    mode: GuideMode,
    generation: u64,
    m: Measurement,
)
    requires
        GuideDetector::measured(before, after, frame, mode, generation, m),
        frame.wf(),
    ensures
        before.reference is Some && before.ref_generation == generation ==> after == before,
        mode == GuideMode::Disk ==> after == before && m is Disk,
        mode == GuideMode::Surface ==> !(m is Disk),
        mode == GuideMode::Surface && (frame.width < 49 || frame.height < 49) ==> m is NoLock,
        mode == GuideMode::Surface && after.reference is None ==> m is NoLock,
{
}

/// In disk mode the target is the centroid of the frame's luma above half of the span.
pub proof fn law_disk_mode_measures_the_luma(
    before: GuideDetector,
    after: GuideDetector,
    frame: Frame,
    generation: u64,
    m: Measurement,
)
    requires
        GuideDetector::measured(before, after, frame, GuideMode::Disk, generation, m),
        frame.wf(),
    ensures
        ({
            let gray = Seq::new(
                (frame.width * frame.height) as nat,
                |k: int| luma_of_pixel(frame.rgba@, k) as u8,
            );
            let c = centroid_of(
                gray,
                frame.width as int,
                frame.height as int,
                (Fraction { num: 1, den: 2 }),
            );
            match m {
                Measurement::Disk(Some(d)) => c == Some(
                    (d.sum_w as int, d.sum_x as int, d.sum_y as int),
                ),
                Measurement::Disk(None) => c is None,
                _ => false,
            }
        }),
{
    let n = (frame.width * frame.height) as nat;
    assert(frame.rgba@.len() / 4 == n);
    assert(gray_of(frame.rgba@, n) =~= Seq::new(n, |k: int| luma_of_pixel(frame.rgba@, k) as u8));
}

/// The score of the candidate that stands `x` columns and `y` rows from the anchor.
pub open spec fn score_at(scores: Seq<Scalar>, search: int, x: int, y: int) -> Scalar {
    scores[(y + search) * (2 * search + 1) + (x + search)]
}

/// The peak is the best of all candidates: its score is that of its own offset, no candidate scores
/// higher, its neighbours are those one pixel away, and on the border it has none.
pub proof fn law_peak_is_the_best_candidate(
    p: NccPeak,
    scores: Seq<Scalar>,
    search: usize,
    x: int,
    y: int,
)
    requires
        peak_of(p, scores, search),
        scores.len() == (2 * search + 1) * (2 * search + 1),
        -search <= x <= search,
        -search <= y <= search,
    ensures
        p.score == score_at(scores, search as int, p.dx as int, p.dy as int),
        !p.score.below(score_at(scores, search as int, x, y)),
        !p.score.nan(),
        -search < p.dx < search ==> p.sides_x == Some(
            (
                score_at(scores, search as int, p.dx - 1, p.dy as int),
                score_at(scores, search as int, p.dx + 1, p.dy as int),
            ),
        ),
        -search < p.dy < search ==> p.sides_y == Some(
            (
                score_at(scores, search as int, p.dx as int, p.dy - 1),
                score_at(scores, search as int, p.dx as int, p.dy + 1),
            ),
        ),
        p.dx == search || p.dx == -search ==> p.sides_x is None,
        p.dy == search || p.dy == -search ==> p.sides_y is None,
{
    let s = search as int;
    let span = 2 * s + 1;
    let k = (y + s) * span + (x + s);
    assert(0 <= k < span * span) by (nonlinear_arith)
        requires
            0 <= y + s,
            y + s + 1 <= span,
            0 <= x + s < span,
            k == (y + s) * span + (x + s),
    ;
    assert(scores[k] == score_at(scores, s, x, y));
    assert((p.dy - 1 + s) * span == (p.dy + s) * span - span) by (nonlinear_arith);
    assert((p.dy + 1 + s) * span == (p.dy + s) * span + span) by (nonlinear_arith);
}

/// A candidate's place in the scan and its place in the frame agree: the one whose score is read at
/// an offset stands at the anchor moved by that offset.
pub proof fn law_scan_order_is_row_by_row(search: int, x: int, y: int)
    requires
        -search <= x <= search,
        -search <= y <= search,
    ensures
        ({
            let span = 2 * search + 1;
            let k = (y + search) * span + (x + search);
            &&& k % span == x + search
            &&& k / span == y + search
        }),
{
    let span = 2 * search + 1;
    lemma_fundamental_div_mod_converse(
        (y + search) * span + (x + search),
        span,
        y + search,
        x + search,
    );
}

/// A match must reach three tenths, and the search begins below every finite single.
pub proof fn law_weak_matches_are_none()
    ensures
        lowest_match() == (Scalar { bits: 0x3FD3_3333_4000_0000 }),
        lowest_score().below(lowest_match()),
        lowest_score().at_most((Scalar { bits: 0x3FF0_0000_0000_0000 }).negated()),
        disk_fraction() == (Fraction { num: 1, den: 2 }),
{
}

/// The search stays inside the frame: wherever a candidate within reach of the anchor stands, the
/// patch laid there covers pixels of the frame only.
pub proof fn law_candidates_lie_in_the_frame(
    win: NccWindow,
    reference_len: nat,
    gray_len: nat,
    x: int,
    y: int,
)
    requires
        win.fits(reference_len, gray_len),
        -win.search <= x <= win.search,
        -win.search <= y <= win.search,
    ensures
        0 <= win.ax + x && win.ax + x + win.rw <= win.w,
        0 <= win.ay + y && win.ay + y + win.rh <= win.h,
        gray_len == win.w * win.h,
        reference_len == win.rw * win.rh,
{
}

/// A patch is looked for around its own anchor, at its own size, in the whole of the frame and 24
/// pixels each way.
pub proof fn law_patch_is_searched_around_its_anchor(patch: Patch, w: usize, h: usize)
    ensures
        ({
            let win = patch.search_window(w, h);
            &&& (win.rw, win.rh) == (patch.w, patch.h)
            &&& (win.ax, win.ay) == patch.anchor
            &&& (win.w, win.h) == (w, h)
            &&& win.search == 24
        }),
{
}

/// A patch has features exactly where two of its pixels differ.
pub proof fn law_features_are_differences(reference: Seq<u8>)
    ensures
        !featureless(reference) <==> exists|i: int, j: int|
            0 <= i < reference.len() && 0 <= j < reference.len() && #[trigger] reference[i]
                != #[trigger] reference[j],
{
    if !featureless(reference) {
        let i = choose|i: int|
            0 <= i < reference.len() && #[trigger] reference[i] != reference[0];
        assert(reference[i] != reference[0]);
    }
}

} // verus!
