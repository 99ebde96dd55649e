//! How the centroid follows the levels of single pixels: which of them count, and how much.

use crate::guiding::detector;
use crate::guiding::detector::Fraction;
use vstd::prelude::*;

verus! {

/// `lo` and `hi` are the darkest and the brightest level of a frame.
pub open spec fn spans(gray: Seq<u8>, lo: u8, hi: u8) -> bool {
    &&& gray.contains(lo)
    &&& gray.contains(hi)
    &&& forall|i: int| 0 <= i < gray.len() ==> lo <= #[trigger] gray[i] <= hi
}

/// A level lies above a fraction of the span between `lo` and `hi`.
pub open spec fn bright(v: u8, lo: u8, hi: u8, f: Fraction) -> bool {
    f.den * (v - lo) > f.num * (hi - lo)
}

proof fn lemma_darkest(gray: Seq<u8>, lo: u8, at: int, n: nat)
    requires
        n <= gray.len(),
        0 <= at < gray.len(),
        gray[at] == lo,
        forall|i: int| 0 <= i < gray.len() ==> lo <= #[trigger] gray[i],
    ensures
        detector::darkest(gray, n) >= lo,
        at < n ==> detector::darkest(gray, n) == lo,
    decreases n,
{
    if n > 0 {
        lemma_darkest(gray, lo, at, (n - 1) as nat);
        assert(lo <= gray[n - 1]);
    }
}

proof fn lemma_brightest(gray: Seq<u8>, hi: u8, at: int, n: nat)
    requires
        n <= gray.len(),
        0 <= at < gray.len(),
        gray[at] == hi,
        forall|i: int| 0 <= i < gray.len() ==> #[trigger] gray[i] <= hi,
    ensures
        detector::brightest(gray, n) <= hi,
        at < n ==> detector::brightest(gray, n) == hi,
    decreases n,
{
    if n > 0 {
        lemma_brightest(gray, hi, at, (n - 1) as nat);
        assert(gray[n - 1] <= hi);
    }
}

/// The extremes of a frame are the levels that it spans.
proof fn lemma_extremes(gray: Seq<u8>, lo: u8, hi: u8)
    requires
        spans(gray, lo, hi),
    ensures
        detector::darkest(gray, gray.len()) == lo,
        detector::brightest(gray, gray.len()) == hi,
{
    let a = choose|i: int| 0 <= i < gray.len() && gray[i] == lo;
    let b = choose|i: int| 0 <= i < gray.len() && gray[i] == hi;
    lemma_darkest(gray, lo, a, gray.len());
    lemma_brightest(gray, hi, b, gray.len());
}

/// A level is bright exactly where it exceeds the threshold.
proof fn lemma_bright(v: u8, lo: u8, hi: u8, f: Fraction)
    ensures
        bright(v, lo, hi, f) <==> v * f.den > detector::threshold(lo as int, hi as int, f),
{
    assert(f.den * (v - lo) == v * f.den - lo * f.den) by (nonlinear_arith);
}

/// What one changed pixel does to the sums over the first `n` pixels.
proof fn lemma_changed(gray: Seq<u8>, k: int, v: u8, t: int, den: int, w: int, n: nat)
    requires
        0 <= k < gray.len(),
        n <= gray.len(),
        w > 0,
    ensures
        ({
            let other = gray.update(k, v);
            let by = if k < n {
                detector::weight(v, t, den) - detector::weight(gray[k], t, den)
            } else {
                0
            };
            &&& detector::weight_sum(other, t, den, n) == detector::weight_sum(gray, t, den, n) + by
            &&& detector::column_sum(other, t, den, w, n) == detector::column_sum(
                gray,
                t,
                den,
                w,
                n,
            ) + by * (k % w)
            &&& detector::row_sum(other, t, den, w, n) == detector::row_sum(gray, t, den, w, n) + by
                * (k / w)
        }),
    decreases n,
{
    let other = gray.update(k, v);
    assert(0 * (k % w) == 0) by (nonlinear_arith);
    assert(0 * (k / w) == 0) by (nonlinear_arith);
    if n > 0 {
        let m = (n - 1) as nat;
        lemma_changed(gray, k, v, t, den, w, m);
        if k == m {
            let a = detector::weight(v, t, den);
            let b = detector::weight(gray[k], t, den);
            assert((a - b) * (k % w) == a * (k % w) - b * (k % w)) by (nonlinear_arith);
            assert((a - b) * (k / w) == a * (k / w) - b * (k / w)) by (nonlinear_arith);
        } else {
            assert(other[m as int] == gray[m as int]);
        }
    }
}

/// A bright pixel pulls the centroid towards itself by its intensity: where one bright pixel turns
/// brighter or dimmer and stays bright, the total weight changes by as many levels, and the
/// coordinates by as many levels at that pixel's column and row.
pub proof fn law_bright_pixels_pull_by_intensity(
    gray: Seq<u8>,
    w: int,
    h: int,
    f: Fraction,
    lo: u8,
    hi: u8,
    k: int,
    v: u8,
)
    requires
        w > 0,
        f.den > 0,
        0 <= k < gray.len(),
        spans(gray, lo, hi),
        spans(gray.update(k, v), lo, hi),
        bright(gray[k], lo, hi, f),
        bright(v, lo, hi, f),
    ensures
        match (
            detector::centroid_of(gray, w, h, f),
            detector::centroid_of(gray.update(k, v), w, h, f),
        ) {
            (Some(a), Some(b)) => {
                let by = f.den * (v - gray[k]);
                b.0 == a.0 + by && b.1 == a.1 + by * (k % w) && b.2 == a.2 + by * (k / w)
            },
            (None, None) => true,
            _ => false,
        },
{
    let other = gray.update(k, v);
    let n = gray.len();
    let den = f.den as int;
    let t = detector::threshold(lo as int, hi as int, f);
    lemma_extremes(gray, lo, hi);
    lemma_extremes(other, lo, hi);
    lemma_bright(gray[k], lo, hi, f);
    lemma_bright(v, lo, hi, f);
    lemma_changed(gray, k, v, t, den, w, n);
    lemma_same_count(gray, k, v, t, den, n);
    assert(v * den - gray[k] * den == den * (v - gray[k])) by (nonlinear_arith);
}

/// Dim pixels contribute nothing: the level of a pixel that stays at or below the threshold does
/// not matter.
pub proof fn law_dim_pixels_do_not_count(
    gray: Seq<u8>,
    w: int,
    h: int,
    f: Fraction,
    lo: u8,
    hi: u8,
    k: int,
    v: u8,
)
    requires
        w > 0,
        0 <= k < gray.len(),
        spans(gray, lo, hi),
        spans(gray.update(k, v), lo, hi),
        !bright(gray[k], lo, hi, f),
        !bright(v, lo, hi, f),
    ensures
        detector::centroid_of(gray.update(k, v), w, h, f) == detector::centroid_of(gray, w, h, f),
{
    let other = gray.update(k, v);
    let n = gray.len();
    let den = f.den as int;
    let t = detector::threshold(lo as int, hi as int, f);
    lemma_extremes(gray, lo, hi);
    lemma_extremes(other, lo, hi);
    lemma_bright(gray[k], lo, hi, f);
    lemma_bright(v, lo, hi, f);
    lemma_changed(gray, k, v, t, den, w, n);
    lemma_same_count(gray, k, v, t, den, n);
    assert(0 * (k % w) == 0) by (nonlinear_arith);
    assert(0 * (k / w) == 0) by (nonlinear_arith);
}

proof fn lemma_same_count(gray: Seq<u8>, k: int, v: u8, t: int, den: int, n: nat)
    requires
        0 <= k < gray.len(),
        n <= gray.len(),
        gray[k] * den > t <==> v * den > t,
    ensures
        detector::bright_count(gray.update(k, v), t, den, n) == detector::bright_count(
            gray,
            t,
            den,
            n,
        ),
    decreases n,
{
    if n > 0 {
        lemma_same_count(gray, k, v, t, den, (n - 1) as nat);
    }
}

/// Places in a frame, in order and each once.
pub open spec fn ascending(places: Seq<int>, n: int) -> bool {
    &&& forall|i: int| 0 <= i < places.len() ==> 0 <= #[trigger] places[i] < n
    &&& forall|i: int, j: int|
        0 <= i < j < places.len() ==> #[trigger] places[i] < #[trigger] places[j]
}

proof fn lemma_count_at_least(gray: Seq<u8>, t: int, den: int, places: Seq<int>, n: nat)
    requires
        n <= gray.len(),
        ascending(places, n as int),
        forall|i: int| 0 <= i < places.len() ==> gray[#[trigger] places[i]] * den > t,
    ensures
        detector::bright_count(gray, t, den, n) >= places.len(),
    decreases n,
{
    if n == 0 {
        if places.len() > 0 {
            let first = places[0];
            assert(0 <= first < n);
        }
    } else {
        let m = (n - 1) as nat;
        if places.len() > 0 && places.last() == m {
            let rest = places.drop_last();
            assert forall|i: int| 0 <= i < rest.len() implies 0 <= #[trigger] rest[i] < m by {
                assert(places[i] < places[places.len() - 1]);
            }
            lemma_count_at_least(gray, t, den, rest, m);
        } else {
            assert forall|i: int| 0 <= i < places.len() implies 0 <= #[trigger] places[i] < m by {
                if i < places.len() - 1 {
                    assert(places[i] < places[places.len() - 1]);
                }
            }
            lemma_count_at_least(gray, t, den, places, m);
        }
    }
}

proof fn lemma_count_at_most(gray: Seq<u8>, t: int, den: int, places: Seq<int>, n: nat)
    requires
        n <= gray.len(),
        forall|k: int| 0 <= k < n && #[trigger] gray[k] * den > t ==> places.contains(k),
    ensures
        detector::bright_count(gray, t, den, n) <= places.len(),
    decreases n,
{
    if n > 0 {
        let m = (n - 1) as nat;
        if gray[m as int] * den > t {
            assert(places.contains(m as int));
            let at = choose|i: int| 0 <= i < places.len() && places[i] == m;
            let rest = places.remove(at);
            assert forall|k: int| 0 <= k < m && #[trigger] gray[k] * den > t implies rest.contains(
                k,
            ) by {
                let i = choose|i: int| 0 <= i < places.len() && places[i] == k;
                if i < at {
                    assert(rest[i] == k);
                } else {
                    assert(rest[i - 1] == k);
                }
            }
            lemma_count_at_most(gray, t, den, rest, m);
        } else {
            lemma_count_at_most(gray, t, den, places, m);
        }
    }
}

/// Eight bright pixels make a target.
pub proof fn law_eight_bright_pixels_make_a_target(
    gray: Seq<u8>,
    w: int,
    h: int,
    f: Fraction,
    lo: u8,
    hi: u8,
    places: Seq<int>,
)
    requires
        w > 0,
        h > 0,
        gray.len() == w * h,
        lo < hi,
        spans(gray, lo, hi),
        places.len() == 8,
        ascending(places, gray.len() as int),
        forall|i: int| 0 <= i < places.len() ==> bright(gray[#[trigger] places[i]], lo, hi, f),
    ensures
        detector::centroid_of(gray, w, h, f) is Some,
{
    let t = detector::threshold(lo as int, hi as int, f);
    lemma_extremes(gray, lo, hi);
    assert forall|i: int| 0 <= i < places.len() implies gray[#[trigger] places[i]] * f.den > t by {
        lemma_bright(gray[places[i]], lo, hi, f);
    }
    lemma_count_at_least(gray, t, f.den as int, places, gray.len());
}

/// A frame that is flat, is not as large as it says, or has no more than seven bright pixels, holds
/// no target.
pub proof fn law_seven_bright_pixels_make_none(
    gray: Seq<u8>,
    w: int,
    h: int,
    f: Fraction,
    lo: u8,
    hi: u8,
    places: Seq<int>,
)
    requires
        spans(gray, lo, hi),
        ({
            ||| gray.len() != w * h
            ||| lo == hi
            ||| places.len() <= 7 && forall|k: int|
                0 <= k < gray.len() && bright(#[trigger] gray[k], lo, hi, f) ==> places.contains(k)
        }),
    ensures
        detector::centroid_of(gray, w, h, f) is None,
{
    let t = detector::threshold(lo as int, hi as int, f);
    lemma_extremes(gray, lo, hi);
    if gray.len() == w * h && lo != hi {
        assert forall|k: int| 0 <= k < gray.len() && #[trigger] gray[k] * f.den
            > t implies places.contains(k) by {
            lemma_bright(gray[k], lo, hi, f);
        }
        lemma_count_at_most(gray, t, f.den as int, places, gray.len());
    }
}

} // verus!
