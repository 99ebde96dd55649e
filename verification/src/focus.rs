//! Focus measurement: a per-frame sharpness metric for manual-focus assist.

use vstd::arithmetic::div_mod::{lemma_fundamental_div_mod_converse, lemma_mod_multiples_vanish};
use vstd::prelude::*;

verus! {

/// A sharpness reading, the quotient `gradient / pixels`: a per-pixel density, so that readings of
/// regions of different sizes stay comparable.
#[derive(Clone, Copy, Debug, PartialEq, Eq, Structural)]
pub struct Sharpness {
    pub gradient: u128,
    /// Never zero.
    pub pixels: usize,
}

/// The squared difference of pixel `i` to the one two columns to its right; zero in the last two
/// columns of a row.
pub open spec fn step(gray: Seq<u8>, w: int, i: int) -> int {
    if i % w + 2 < w {
        (gray[i] - gray[i + 2]) * (gray[i] - gray[i + 2])
    } else {
        0
    }
}

/// The Brenner gradient of the first `n` pixels of an image with rows of `w` pixels.
pub open spec fn gradient(gray: Seq<u8>, w: int, n: int) -> int
    decreases n,
{
    if n <= 0 {
        0
    } else {
        gradient(gray, w, n - 1) + step(gray, w, n - 1)
    }
}

/// Whether an image of `w` times `h` pixels can be measured.
pub open spec fn measurable(gray: Seq<u8>, w: int, h: int) -> bool {
    w >= 3 && h > 0 && gray.len() == w * h
}

proof fn lemma_step_bound(gray: Seq<u8>, w: int, i: int)
    ensures
        0 <= step(gray, w, i) <= 255 * 255,
{
    let d = gray[i] - gray[i + 2];
    assert(0 <= d * d <= 255 * 255) by (nonlinear_arith)
        requires
            -255 <= d <= 255,
    ;
}

/// Normalized Brenner gradient of an 8-bit luma image. It sums the squared difference between each
/// pixel and the one two columns to its right; sharp, high-contrast detail produces large local
/// differences, a blurred frame small ones. Zero for a flat or empty frame.
pub fn sharpness(gray: &[u8], w: usize, h: usize) -> (s: Sharpness)
    ensures
        s.pixels > 0,
        measurable(gray@, w as int, h as int) ==> s.gradient == gradient(
            gray@,
            w as int,
            gray@.len() as int,
        ) && s.pixels == gray@.len(),
        !measurable(gray@, w as int, h as int) ==> s.gradient == 0 && s.pixels == 1,
{
    let none = Sharpness { gradient: 0, pixels: 1 };
    if w < 3 || h == 0 {
        return none;
    }
    let n: usize = gray.len();
    match w.checked_mul(h) {
        Some(size) => {
            if n != size {
                return none;
            }
        },
        None => {
            return none;
        },
    }
    assert(n > 0) by (nonlinear_arith)
        requires
            n == w * h,
            w >= 3,
            h > 0,
    ;
    let mut sum: u128 = 0;
    let mut i: usize = 0;
    let mut x: usize = 0;
    let mut y: usize = 0;
    while i < n
        invariant
            n == gray@.len(),
            n == w * h,
            w >= 3,
            i <= n,
            x < w,
            i == y * w + x,
            sum == gradient(gray@, w as int, i as int),
            sum <= i * 65025,
        decreases n - i,
    {
        proof {
            lemma_mod_multiples_vanish(y as int, x as int, w as int);
            assert(w * y == y * w) by (nonlinear_arith);
            vstd::arithmetic::div_mod::lemma_small_mod(x as nat, w as nat);
            lemma_step_bound(gray@, w as int, i as int);
            assert(y < h && (y + 1) * w <= n) by (nonlinear_arith)
                requires
                    y * w + x < n,
                    n == w * h,
                    w >= 3,
                    0 <= x,
                    y >= 0,
            ;
            assert((y + 1) * w == y * w + w) by (nonlinear_arith);
        }
        if x < w - 2 {
            let a: u8 = gray[i];
            let b: u8 = gray[i + 2];
            let d: u32 = if a > b {
                (a - b) as u32
            } else {
                (b - a) as u32
            };
            assert(d * d <= 65025 && d * d == (a - b) * (a - b)) by (nonlinear_arith)
                requires
                    d <= 255,
                    d == a - b || d == b - a,
            ;
            sum = sum + (d * d) as u128;
        }
        i = i + 1;
        if x < w - 1 {
            x = x + 1;
        } else {
            x = 0;
            y = y + 1;
        }
    }
    Sharpness { gradient: sum, pixels: n }
}

/// A flat image scores zero.
pub proof fn law_flat_image_scores_zero(gray: Seq<u8>, w: int, n: int)
    requires
        w >= 3,
        0 <= n <= gray.len(),
        gray.len() as int % w == 0,
        forall|i: int, j: int| 0 <= i < gray.len() && 0 <= j < gray.len() ==> gray[i] == gray[j],
    ensures
        gradient(gray, w, n) == 0,
    decreases n,
{
    if n > 0 {
        law_flat_image_scores_zero(gray, w, n - 1);
        let i = n - 1;
        if i % w + 2 < w {
            lemma_row_holds(gray, w, i);
            let d = gray[i] - gray[i + 2];
            assert(d * d == 0) by (nonlinear_arith)
                requires
                    d == 0,
            ;
        }
    }
}

/// A pixel before the last two columns has a pixel two columns to its right.
proof fn lemma_row_holds(gray: Seq<u8>, w: int, i: int)
    requires
        w >= 3,
        0 <= i < gray.len(),
        gray.len() as int % w == 0,
        i % w + 2 < w,
    ensures
        i + 2 < gray.len(),
{
    let len = gray.len() as int;
    vstd::arithmetic::div_mod::lemma_fundamental_div_mod(i, w);
    vstd::arithmetic::div_mod::lemma_fundamental_div_mod(len, w);
    let q = i / w;
    let rows = len / w;
    assert(q < rows) by (nonlinear_arith)
        requires
            w >= 3,
            w * q <= i,
            i < len,
            len == w * rows,
    ;
    assert(w * (q + 1) <= w * rows) by (nonlinear_arith)
        requires
            q + 1 <= rows,
            w >= 3,
    ;
    assert(w * (q + 1) == w * q + w) by (nonlinear_arith);
}

/// A change of the region does not rescale the reading: the gradient of two regions stacked on
/// each other is the sum of theirs, as is the number of pixels.
pub proof fn law_gradient_of_stacked_regions(top: Seq<u8>, bottom: Seq<u8>, w: int, n: int)
    requires
        w >= 3,
        top.len() as int % w == 0,
        bottom.len() as int % w == 0,
        0 <= n <= bottom.len(),
    ensures
        gradient(top + bottom, w, top.len() + n) == gradient(top, w, top.len() as int) + gradient(
            bottom,
            w,
            n,
        ),
    decreases n,
{
    let both = top + bottom;
    if n == 0 {
        lemma_gradient_of_front(top, bottom, w, top.len() as int);
    } else {
        law_gradient_of_stacked_regions(top, bottom, w, n - 1);
        let i = n - 1;
        let t = top.len() as int;
        vstd::arithmetic::div_mod::lemma_fundamental_div_mod(t, w);
        lemma_mod_multiples_vanish(t / w, i, w);
        assert((t + i) % w == i % w);
        if i % w + 2 < w {
            lemma_row_holds(bottom, w, i);
            assert(both[t + i] == bottom[i]);
            assert(both[t + i + 2] == bottom[i + 2]);
        }
        assert(step(both, w, t + i) == step(bottom, w, i));
    }
}

proof fn lemma_gradient_of_front(top: Seq<u8>, bottom: Seq<u8>, w: int, n: int)
    requires
        w >= 3,
        top.len() as int % w == 0,
        0 <= n <= top.len(),
    ensures
        gradient(top + bottom, w, n) == gradient(top, w, n),
    decreases n,
{
    if n > 0 {
        lemma_gradient_of_front(top, bottom, w, n - 1);
        let i = n - 1;
        if i % w + 2 < w {
            lemma_row_holds(top, w, i);
            assert((top + bottom)[i] == top[i]);
            assert((top + bottom)[i + 2] == top[i + 2]);
        }
    }
}

/// Sharpness compares each pixel with the one two columns to its right in the same row, by the square
/// of their difference; the last two columns have no such partner.
pub proof fn law_pixels_are_compared_two_columns_apart(gray: Seq<u8>, w: int, i: int, j: int)
    requires
        0 <= i < w,
        0 <= j,
    ensures
        ({
            let k = j * w + i;
            let d = gray[k] - gray[k + 2];
            &&& i + 2 < w ==> step(gray, w, k) == d * d
            &&& i + 2 >= w ==> step(gray, w, k) == 0
            &&& gradient(gray, w, k + 1) == gradient(gray, w, k) + step(gray, w, k)
            &&& gradient(gray, w, 0) == 0
        }),
{
    lemma_fundamental_div_mod_converse(j * w + i, w, j, i);
    assert(j * w >= 0) by (nonlinear_arith)
        requires
            j >= 0,
            w >= 0,
    ;
}

/// Background light does not change the sharpness: raising every pixel by the same amount leaves it
/// as it is.
pub proof fn law_sharpness_ignores_background(
    gray: Seq<u8>,
    raised: Seq<u8>,
    by: int,
    w: int,
    n: int,
)
    requires
        w >= 3,
        gray.len() as int % w == 0,
        gray.len() == raised.len(),
        0 <= n <= gray.len(),
        forall|i: int| 0 <= i < gray.len() ==> #[trigger] raised[i] == gray[i] + by,
    ensures
        gradient(raised, w, n) == gradient(gray, w, n),
    decreases n,
{
    if n > 0 {
        law_sharpness_ignores_background(gray, raised, by, w, n - 1);
        let k = n - 1;
        if k % w + 2 < w {
            lemma_row_holds(gray, w, k);
            assert(raised[k] - raised[k + 2] == gray[k] - gray[k + 2]);
        }
    }
}

/// Twice the contrast is four times the sharpness.
pub proof fn law_sharpness_grows_with_the_square(gray: Seq<u8>, doubled: Seq<u8>, w: int, n: int)
    requires
        w >= 3,
        gray.len() as int % w == 0,
        gray.len() == doubled.len(),
        0 <= n <= gray.len(),
        forall|i: int| 0 <= i < gray.len() ==> #[trigger] doubled[i] == 2 * gray[i],
    ensures
        gradient(doubled, w, n) == 4 * gradient(gray, w, n),
    decreases n,
{
    if n > 0 {
        law_sharpness_grows_with_the_square(gray, doubled, w, n - 1);
        let k = n - 1;
        if k % w + 2 < w {
            lemma_row_holds(gray, w, k);
            let d = gray[k] - gray[k + 2];
            assert(doubled[k] - doubled[k + 2] == 2 * d);
            assert((2 * d) * (2 * d) == 4 * (d * d)) by (nonlinear_arith);
        }
    }
}

/// An image can be measured where it has three columns and a row, and a level for each pixel.
pub proof fn law_small_images_are_not_measured(gray: Seq<u8>, w: int, h: int)
    ensures
        w < 3 || h < 1 || gray.len() != w * h ==> !measurable(gray, w, h),
        w >= 3 && h >= 1 && gray.len() == w * h ==> measurable(gray, w, h),
{
}

} // verus!
