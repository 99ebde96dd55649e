//! How the centroid follows the frame when the frame is mirrored or transposed.

use crate::guiding::detector;
use crate::guiding::detector::Fraction;
use vstd::arithmetic::div_mod::lemma_fundamental_div_mod_converse;
use vstd::prelude::*;

verus! {

/// A frame with each of its rows, `w` wide, reversed.
pub open spec fn mirrored(gray: Seq<u8>, w: int) -> Seq<u8> {
    Seq::new(gray.len(), |k: int| gray[(k / w) * w + (w - 1 - k % w)])
}

/// A frame `w` wide and `h` high with rows and columns exchanged: `h` wide and `w` high.
pub open spec fn transposed(gray: Seq<u8>, w: int, h: int) -> Seq<u8> {
    Seq::new(gray.len(), |k: int| gray[(k % h) * w + k / h])
}

/// The sum of `f` over the first `n` numbers.
pub open spec fn line(f: spec_fn(int) -> int, n: nat) -> int
    decreases n,
{
    if n == 0 {
        0
    } else {
        line(f, (n - 1) as nat) + f(n - 1)
    }
}

/// The sum of `f(i, j)` over `w` columns `i` and `h` rows `j`.
pub open spec fn grid(f: spec_fn(int, int) -> int, w: nat, h: nat) -> int {
    line(|j: int| line(|i: int| f(i, j), w), h)
}

proof fn lemma_line_same(f: spec_fn(int) -> int, g: spec_fn(int) -> int, n: nat)
    requires
        forall|i: int| 0 <= i < n ==> #[trigger] f(i) == g(i),
    ensures
        line(f, n) == line(g, n),
    decreases n,
{
    if n > 0 {
        lemma_line_same(f, g, (n - 1) as nat);
        assert(f(n - 1) == g(n - 1));
    }
}

proof fn lemma_line_split(f: spec_fn(int) -> int, a: nat, b: nat)
    ensures
        line(f, a + b) == line(f, a) + line(|i: int| f(a + i), b),
    decreases b,
{
    if b > 0 {
        lemma_line_split(f, a, (b - 1) as nat);
    }
}

proof fn lemma_line_reversed(f: spec_fn(int) -> int, n: nat)
    ensures
        line(f, n) == line(|i: int| f(n - 1 - i), n),
    decreases n,
{
    if n > 0 {
        let m = (n - 1) as nat;
        let r = |i: int| f(n - 1 - i);
        lemma_line_reversed(f, m);
        lemma_line_split(r, 1, m);
        assert(line(r, 1) == r(0)) by {
            assert(line(r, 0) == 0);
        }
        lemma_line_same(|i: int| r(1 + i), |i: int| f(m - 1 - i), m);
    }
}

proof fn lemma_line_added(f: spec_fn(int) -> int, g: spec_fn(int) -> int, n: nat)
    ensures
        line(|i: int| f(i) + g(i), n) == line(f, n) + line(g, n),
    decreases n,
{
    if n > 0 {
        lemma_line_added(f, g, (n - 1) as nat);
    }
}

proof fn lemma_line_scaled(f: spec_fn(int) -> int, c: int, n: nat)
    ensures
        line(|i: int| f(i) * c, n) == line(f, n) * c,
    decreases n,
{
    if n > 0 {
        let m = (n - 1) as nat;
        lemma_line_scaled(f, c, m);
        assert((line(f, m) + f(n - 1)) * c == line(f, m) * c + f(n - 1) * c) by (nonlinear_arith);
    } else {
        assert(0 * c == 0) by (nonlinear_arith);
    }
}

/// A sum over a frame is the sum over its rows of the sums over their columns.
proof fn lemma_flat(f: spec_fn(int) -> int, w: nat, h: nat)
    ensures
        line(f, w * h) == grid(|i: int, j: int| f(j * w + i), w, h),
    decreases h,
{
    let g = |i: int, j: int| f(j * w + i);
    let rows = |j: int| line(|i: int| g(i, j), w);
    if h > 0 {
        let k = (h - 1) as nat;
        lemma_flat(f, w, k);
        assert(w * h == w * k + w && k * w == w * k) by (nonlinear_arith)
            requires
                h == k + 1,
        ;
        lemma_line_split(f, w * k, w);
        lemma_line_same(|i: int| f((w * k) as nat + i), |i: int| g(i, k as int), w);
        assert(rows(k as int) == line(|i: int| g(i, k as int), w));
        assert(line(rows, h) == line(rows, k) + rows(k as int));
    } else {
        assert(w * h == 0) by (nonlinear_arith)
            requires
                h == 0,
        ;
    }
}

/// The order in which rows and columns are summed does not matter.
proof fn lemma_exchanged(f: spec_fn(int, int) -> int, w: nat, h: nat)
    ensures
        grid(f, w, h) == grid(|i: int, j: int| f(j, i), h, w),
    decreases h,
{
    let g = |i: int, j: int| f(j, i);
    let columns = |j: int| line(|i: int| g(i, j), h);
    if h > 0 {
        let k = (h - 1) as nat;
        lemma_exchanged(f, w, k);
        let shorter = |j: int| line(|i: int| g(i, j), k);
        let last = |j: int| f(j, k as int);
        assert forall|j: int| 0 <= j < w implies #[trigger] columns(j) == shorter(j) + last(j) by {
            let c = |i: int| g(i, j);
            assert(line(c, h) == line(c, k) + c(k as int));
        }
        lemma_line_same(columns, |j: int| shorter(j) + last(j), w);
        lemma_line_added(shorter, last, w);
        let rows = |j: int| line(|i: int| f(i, j), w);
        assert(line(rows, h) == line(rows, k) + rows(k as int));
        lemma_line_same(|i: int| f(i, k as int), last, w);
    } else {
        lemma_line_same(columns, |j: int| 0, w);
        lemma_line_of_zeros(w);
    }
}

proof fn lemma_line_of_zeros(n: nat)
    ensures
        line(|j: int| 0, n) == 0,
    decreases n,
{
    if n > 0 {
        lemma_line_of_zeros((n - 1) as nat);
    }
}

/// A quantity that is mirrored with the frame has the same sum.
proof fn lemma_mirrored_sum(a: spec_fn(int) -> int, b: spec_fn(int) -> int, w: nat, h: nat)
    requires
        forall|i: int, j: int|
            0 <= i < w && 0 <= j < h ==> #[trigger] b(j * w + i) == a(j * w + (w - 1 - i)),
    ensures
        line(b, w * h) == line(a, w * h),
{
    lemma_flat(a, w, h);
    lemma_flat(b, w, h);
    let ga = |i: int, j: int| a(j * w + i);
    let gb = |i: int, j: int| b(j * w + i);
    let ra = |j: int| line(|i: int| ga(i, j), w);
    let rb = |j: int| line(|i: int| gb(i, j), w);
    assert forall|j: int| 0 <= j < h implies #[trigger] ra(j) == rb(j) by {
        let row = |i: int| ga(i, j);
        lemma_line_reversed(row, w);
        lemma_line_same(|i: int| gb(i, j), |i: int| row(w - 1 - i), w);
    }
    lemma_line_same(ra, rb, h);
}

/// A quantity that is transposed with the frame has the same sum.
proof fn lemma_transposed_sum(a: spec_fn(int) -> int, b: spec_fn(int) -> int, w: nat, h: nat)
    requires
        forall|i: int, j: int|
            0 <= i < w && 0 <= j < h ==> #[trigger] b(i * h + j) == a(j * w + i),
    ensures
        line(b, w * h) == line(a, w * h),
{
    assert(w * h == h * w) by (nonlinear_arith);
    lemma_flat(a, w, h);
    lemma_flat(b, h, w);
    let ga = |i: int, j: int| a(j * w + i);
    let gb = |i: int, j: int| b(j * h + i);
    lemma_exchanged(gb, h, w);
    let back = |i: int, j: int| gb(j, i);
    let ra = |j: int| line(|i: int| ga(i, j), w);
    let rb = |j: int| line(|i: int| back(i, j), w);
    assert forall|j: int| 0 <= j < h implies #[trigger] ra(j) == rb(j) by {
        assert forall|i: int| 0 <= i < w implies #[trigger] ga(i, j) == back(i, j) by {
            assert(b(i * h + j) == a(j * w + i));
        }
        lemma_line_same(|i: int| ga(i, j), |i: int| back(i, j), w);
    }
    lemma_line_same(ra, rb, h);
}

/// What a pixel adds to the count of bright ones.
spec fn counts(gray: Seq<u8>, t: int, den: int) -> spec_fn(int) -> int {
    |k: int|
        if gray[k] * den > t {
            1int
        } else {
            0int
        }
}

/// What a pixel weighs.
spec fn weighs(gray: Seq<u8>, t: int, den: int) -> spec_fn(int) -> int {
    |k: int| detector::weight(gray[k], t, den)
}

/// What a pixel adds to the column sum.
spec fn pulls_across(gray: Seq<u8>, t: int, den: int, w: int) -> spec_fn(int) -> int {
    |k: int| detector::weight(gray[k], t, den) * (k % w)
}

/// What a pixel adds to the row sum.
spec fn pulls_down(gray: Seq<u8>, t: int, den: int, w: int) -> spec_fn(int) -> int {
    |k: int| detector::weight(gray[k], t, den) * (k / w)
}

proof fn lemma_sums_as_lines(gray: Seq<u8>, t: int, den: int, w: int, n: nat)
    ensures
        detector::bright_count(gray, t, den, n) == line(counts(gray, t, den), n),
        detector::weight_sum(gray, t, den, n) == line(weighs(gray, t, den), n),
        detector::column_sum(gray, t, den, w, n) == line(pulls_across(gray, t, den, w), n),
        detector::row_sum(gray, t, den, w, n) == line(pulls_down(gray, t, den, w), n),
    decreases n,
{
    if n > 0 {
        lemma_sums_as_lines(gray, t, den, w, (n - 1) as nat);
    }
}

/// Where the pixel of column `i` and row `j` stands.
proof fn lemma_place(i: int, j: int, w: int, h: int)
    requires
        0 <= i < w,
        0 <= j < h,
    ensures
        0 <= j * w + i < w * h,
        (j * w + i) % w == i,
        (j * w + i) / w == j,
{
    lemma_fundamental_div_mod_converse(j * w + i, w, j, i);
    assert(0 <= j * w && j * w + w <= w * h) by (nonlinear_arith)
        requires
            0 <= j,
            j + 1 <= h,
            0 <= w,
    ;
}

/// The column and the row of a pixel.
proof fn lemma_column_and_row(k: int, w: int, h: int)
    requires
        0 <= k < w * h,
        w > 0,
    ensures
        0 <= k % w < w,
        0 <= k / w < h,
        k == (k / w) * w + k % w,
{
    assert(0 <= k / w < h && k == (k / w) * w + k % w) by (nonlinear_arith)
        requires
            0 <= k < w * h,
            w > 0,
    ;
}

/// The extremes of the first `n` levels bound them all, and are among them.
proof fn lemma_extremes(gray: Seq<u8>, n: nat)
    requires
        0 < n <= gray.len(),
    ensures
        forall|k: int| 0 <= k < n ==> detector::darkest(gray, n) <= #[trigger] gray[k],
        forall|k: int| 0 <= k < n ==> #[trigger] gray[k] <= detector::brightest(gray, n),
        exists|k: int| 0 <= k < n && #[trigger] gray[k] == detector::darkest(gray, n),
        exists|k: int| 0 <= k < n && #[trigger] gray[k] == detector::brightest(gray, n),
    decreases n,
{
    let last = gray[n - 1];
    if n > 1 {
        let m = (n - 1) as nat;
        lemma_extremes(gray, m);
        let d = choose|k: int| 0 <= k < m && #[trigger] gray[k] == detector::darkest(gray, m);
        let b = choose|k: int| 0 <= k < m && #[trigger] gray[k] == detector::brightest(gray, m);
        assert(gray[d] == detector::darkest(gray, m));
        assert(gray[b] == detector::brightest(gray, m));
        assert(last == gray[n - 1]);
    } else {
        assert(detector::darkest(gray, 0) == 255);
        assert(detector::brightest(gray, 0) == 0);
        assert(last == gray[0]);
    }
}

/// Frames with the same levels have the same extremes.
proof fn lemma_same_extremes(a: Seq<u8>, b: Seq<u8>)
    requires
        a.len() == b.len(),
        a.len() > 0,
        forall|k: int| 0 <= k < a.len() ==> b.contains(#[trigger] a[k]),
        forall|k: int| 0 <= k < b.len() ==> a.contains(#[trigger] b[k]),
    ensures
        detector::darkest(a, a.len()) == detector::darkest(b, b.len()),
        detector::brightest(a, a.len()) == detector::brightest(b, b.len()),
{
    let n = a.len();
    lemma_extremes(a, n);
    lemma_extremes(b, n);
    let da = choose|k: int| 0 <= k < n && #[trigger] a[k] == detector::darkest(a, n);
    let db = choose|k: int| 0 <= k < n && #[trigger] b[k] == detector::darkest(b, n);
    let ba = choose|k: int| 0 <= k < n && #[trigger] a[k] == detector::brightest(a, n);
    let bb = choose|k: int| 0 <= k < n && #[trigger] b[k] == detector::brightest(b, n);
    assert(b.contains(a[da]) && b.contains(a[ba]));
    assert(a.contains(b[db]) && a.contains(b[bb]));
}

/// Mirroring a frame mirrors the target: the column is counted from the other side, and the row
/// stays.
pub proof fn law_centroid_mirrors(gray: Seq<u8>, w: int, h: int, f: Fraction)
    requires
        w > 0,
        h > 0,
    ensures
        detector::centroid_of(mirrored(gray, w), w, h, f) == match detector::centroid_of(
            gray,
            w,
            h,
            f,
        ) {
            Some((sw, sx, sy)) => Some((sw, sw * (w - 1) - sx, sy)),
            None => None,
        },
{
    let m = mirrored(gray, w);
    if gray.len() == w * h {
        let n = gray.len();
        assert forall|i: int, j: int| 0 <= i < w && 0 <= j < h implies #[trigger] m[j * w + i]
            == gray[j * w + (w - 1 - i)] by {
            lemma_place(i, j, w, h);
        }
        assert(n > 0) by (nonlinear_arith)
            requires
                n == w * h,
                w > 0,
                h > 0,
        ;
        assert forall|k: int| 0 <= k < n implies m.contains(#[trigger] gray[k]) && gray.contains(
            m[k],
        ) by {
            lemma_column_and_row(k, w, h);
            let (i, j) = (k % w, k / w);
            lemma_place(i, j, w, h);
            lemma_place(w - 1 - i, j, w, h);
            assert(m[j * w + (w - 1 - i)] == gray[j * w + (w - 1 - (w - 1 - i))]);
            assert(m[j * w + i] == gray[j * w + (w - 1 - i)]);
        }
        assert forall|k: int| 0 <= k < n implies gray.contains(#[trigger] m[k]) by {
            assert(m.contains(gray[k]));
        }
        lemma_same_extremes(gray, m);
        let t = detector::threshold(
            detector::darkest(gray, n),
            detector::brightest(gray, n),
            f,
        );
        lemma_mirrored_sums(gray, m, t, f.den as int, w, h);
    }
}

proof fn lemma_mirrored_sums(gray: Seq<u8>, m: Seq<u8>, t: int, den: int, w: int, h: int)
    requires
        w > 0,
        h > 0,
        gray.len() == w * h,
        forall|i: int, j: int|
            0 <= i < w && 0 <= j < h ==> #[trigger] m[j * w + i] == gray[j * w + (w - 1 - i)],
    ensures
        ({
            let n = gray.len();
            let sw = detector::weight_sum(gray, t, den, n);
            &&& detector::bright_count(m, t, den, n) == detector::bright_count(gray, t, den, n)
            &&& detector::weight_sum(m, t, den, n) == sw
            &&& detector::column_sum(m, t, den, w, n) == sw * (w - 1) - detector::column_sum(
                gray,
                t,
                den,
                w,
                n,
            )
            &&& detector::row_sum(m, t, den, w, n) == detector::row_sum(gray, t, den, w, n)
        }),
{
    let n = gray.len();
    let (wn, hn) = (w as nat, h as nat);
    lemma_sums_as_lines(gray, t, den, w, n);
    lemma_sums_as_lines(m, t, den, w, n);
    assert forall|i: int, j: int| 0 <= i < wn && 0 <= j < hn implies #[trigger] counts(m, t, den)(
        j * wn + i,
    ) == counts(gray, t, den)(j * wn + (wn - 1 - i)) by {
        assert(m[j * w + i] == gray[j * w + (w - 1 - i)]);
    }
    lemma_mirrored_sum(counts(gray, t, den), counts(m, t, den), wn, hn);
    assert forall|i: int, j: int| 0 <= i < wn && 0 <= j < hn implies #[trigger] weighs(m, t, den)(
        j * wn + i,
    ) == weighs(gray, t, den)(j * wn + (wn - 1 - i)) by {
        assert(m[j * w + i] == gray[j * w + (w - 1 - i)]);
    }
    lemma_mirrored_sum(weighs(gray, t, den), weighs(m, t, den), wn, hn);
    let down = pulls_down(gray, t, den, w);
    assert forall|i: int, j: int| 0 <= i < wn && 0 <= j < hn implies #[trigger] pulls_down(
        m,
        t,
        den,
        w,
    )(j * wn + i) == down(j * wn + (wn - 1 - i)) by {
        assert(m[j * w + i] == gray[j * w + (w - 1 - i)]);
        lemma_place(i, j, w, h);
        lemma_place(w - 1 - i, j, w, h);
    }
    lemma_mirrored_sum(down, pulls_down(m, t, den, w), wn, hn);
    // The distance from the other side.
    let far = |k: int| detector::weight(gray[k], t, den) * (w - 1 - k % w);
    assert forall|i: int, j: int| 0 <= i < wn && 0 <= j < hn implies #[trigger] pulls_across(
        m,
        t,
        den,
        w,
    )(j * wn + i) == far(j * wn + (wn - 1 - i)) by {
        assert(m[j * w + i] == gray[j * w + (w - 1 - i)]);
        lemma_place(i, j, w, h);
        lemma_place(w - 1 - i, j, w, h);
    }
    lemma_mirrored_sum(far, pulls_across(m, t, den, w), wn, hn);
    let across = pulls_across(gray, t, den, w);
    let whole = |k: int| weighs(gray, t, den)(k) * (w - 1);
    lemma_line_scaled(weighs(gray, t, den), w - 1, n);
    lemma_line_added(far, across, n);
    assert forall|k: int| 0 <= k < n implies #[trigger] whole(k) == far(k) + across(k) by {
        let v = detector::weight(gray[k], t, den);
        assert(v * (w - 1) == v * (w - 1 - k % w) + v * (k % w)) by (nonlinear_arith);
    }
    lemma_line_same(whole, |k: int| far(k) + across(k), n);
}

/// Exchanging the rows and columns of a frame exchanges the row and the column of the target.
pub proof fn law_centroid_transposes(gray: Seq<u8>, w: int, h: int, f: Fraction)
    requires
        w > 0,
        h > 0,
    ensures
        detector::centroid_of(transposed(gray, w, h), h, w, f) == match detector::centroid_of(
            gray,
            w,
            h,
            f,
        ) {
            Some((sw, sx, sy)) => Some((sw, sy, sx)),
            None => None,
        },
{
    let m = transposed(gray, w, h);
    assert(w * h == h * w) by (nonlinear_arith);
    if gray.len() == w * h {
        let n = gray.len();
        assert(n > 0) by (nonlinear_arith)
            requires
                n == w * h,
                w > 0,
                h > 0,
        ;
        assert forall|i: int, j: int| 0 <= i < w && 0 <= j < h implies #[trigger] m[i * h + j]
            == gray[j * w + i] by {
            lemma_place(j, i, h, w);
        }
        assert forall|k: int| 0 <= k < n implies m.contains(#[trigger] gray[k]) by {
            lemma_column_and_row(k, w, h);
            let (i, j) = (k % w, k / w);
            lemma_place(j, i, h, w);
            assert(m[i * h + j] == gray[j * w + i]);
        }
        assert forall|k: int| 0 <= k < n implies gray.contains(#[trigger] m[k]) by {
            lemma_column_and_row(k, h, w);
            let (j, i) = (k % h, k / h);
            lemma_place(i, j, w, h);
            assert(m[i * h + j] == gray[j * w + i]);
        }
        lemma_same_extremes(gray, m);
        let t = detector::threshold(
            detector::darkest(gray, n),
            detector::brightest(gray, n),
            f,
        );
        lemma_transposed_sums(gray, m, t, f.den as int, w, h);
    }
}

proof fn lemma_transposed_sums(gray: Seq<u8>, m: Seq<u8>, t: int, den: int, w: int, h: int)
    requires
        w > 0,
        h > 0,
        gray.len() == w * h,
        forall|i: int, j: int|
            0 <= i < w && 0 <= j < h ==> #[trigger] m[i * h + j] == gray[j * w + i],
    ensures
        ({
            let n = gray.len();
            &&& detector::bright_count(m, t, den, n) == detector::bright_count(gray, t, den, n)
            &&& detector::weight_sum(m, t, den, n) == detector::weight_sum(gray, t, den, n)
            &&& detector::column_sum(m, t, den, h, n) == detector::row_sum(gray, t, den, w, n)
            &&& detector::row_sum(m, t, den, h, n) == detector::column_sum(gray, t, den, w, n)
        }),
{
    let n = gray.len();
    let (wn, hn) = (w as nat, h as nat);
    lemma_sums_as_lines(gray, t, den, w, n);
    lemma_sums_as_lines(m, t, den, h, n);
    assert forall|i: int, j: int| 0 <= i < wn && 0 <= j < hn implies #[trigger] counts(m, t, den)(
        i * hn + j,
    ) == counts(gray, t, den)(j * wn + i) by {
        assert(m[i * h + j] == gray[j * w + i]);
    }
    lemma_transposed_sum(counts(gray, t, den), counts(m, t, den), wn, hn);
    assert forall|i: int, j: int| 0 <= i < wn && 0 <= j < hn implies #[trigger] weighs(m, t, den)(
        i * hn + j,
    ) == weighs(gray, t, den)(j * wn + i) by {
        assert(m[i * h + j] == gray[j * w + i]);
    }
    lemma_transposed_sum(weighs(gray, t, den), weighs(m, t, den), wn, hn);
    assert forall|i: int, j: int| 0 <= i < wn && 0 <= j < hn implies #[trigger] pulls_across(
        m,
        t,
        den,
        h,
    )(i * hn + j) == pulls_down(gray, t, den, w)(j * wn + i) by {
        assert(m[i * h + j] == gray[j * w + i]);
        lemma_place(i, j, w, h);
        lemma_place(j, i, h, w);
    }
    lemma_transposed_sum(pulls_down(gray, t, den, w), pulls_across(m, t, den, h), wn, hn);
    assert forall|i: int, j: int| 0 <= i < wn && 0 <= j < hn implies #[trigger] pulls_down(
        m,
        t,
        den,
        h,
    )(i * hn + j) == pulls_across(gray, t, den, w)(j * wn + i) by {
        assert(m[i * h + j] == gray[j * w + i]);
        lemma_place(i, j, w, h);
        lemma_place(j, i, h, w);
    }
    lemma_transposed_sum(pulls_across(gray, t, den, w), pulls_down(m, t, den, h), wn, hn);
}

} // verus!
