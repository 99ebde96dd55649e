use solar::focus::{sharpness, Sharpness};
use solar::frame::Frame;
use solar::guiding::detector::to_gray;

fn score(s: Sharpness) -> f64 {
    s.gradient as f64 / s.pixels as f64
}

/// A high-contrast vertical-stripe pattern, period 4 (two dark columns, two bright).
fn stripes(w: usize, h: usize) -> Vec<u8> {
    let mut g = vec![0u8; w * h];
    for row in g.chunks_exact_mut(w) {
        for (x, p) in row.iter_mut().enumerate() {
            *p = if (x / 2) % 2 == 0 { 0 } else { 255 };
        }
    }
    g
}

/// A cheap 1-D box blur across columns, to simulate defocus.
fn blur(gray: &[u8], w: usize, h: usize) -> Vec<u8> {
    let mut out = vec![0u8; w * h];
    for (r_in, r_out) in gray.chunks_exact(w).zip(out.chunks_exact_mut(w)) {
        for (x, p) in r_out.iter_mut().enumerate() {
            let lo = x.saturating_sub(1);
            let hi = (x + 1).min(w - 1);
            let sum: u32 = (lo..=hi).map(|i| r_in[i] as u32).sum();
            *p = (sum / (hi - lo + 1) as u32) as u8;
        }
    }
    out
}

#[test]
fn flat_frame_scores_zero() {
    assert_eq!(score(sharpness(&[128; 64], 8, 8)), 0.0);
}

#[test]
fn sharp_beats_blurred() {
    let (w, h) = (16, 16);
    let sharp = stripes(w, h);
    let blurred = blur(&sharp, w, h);
    let s = score(sharpness(&sharp, w, h));
    let b = score(sharpness(&blurred, w, h));
    assert!(s > 0.0);
    assert!(s > b, "sharp {s} should exceed blurred {b}");
}

#[test]
fn rejects_bad_geometry() {
    assert_eq!(score(sharpness(&[0; 4], 8, 8)), 0.0);
    assert_eq!(score(sharpness(&[], 0, 0)), 0.0);
    assert_eq!(score(sharpness(&[0; 2], 2, 1)), 0.0);
}

#[test]
fn gradient_is_the_sum_of_squared_stride_two_differences() {
    let gray = [0, 0, 3, 4, 10, 0, 6, 4];
    let s = sharpness(&gray, 4, 2);
    assert_eq!(s, Sharpness { gradient: 9 + 16 + 16 + 16, pixels: 8 });
}

#[test]
fn rows_do_not_run_into_each_other() {
    let s = sharpness(&[1, 1, 1, 200, 200, 200], 3, 2);
    assert_eq!(s, Sharpness { gradient: 0, pixels: 6 });
}

#[test]
fn stacked_regions_keep_the_density() {
    let (w, h) = (16, 4);
    let once = stripes(w, h);
    let mut twice = once.clone();
    twice.extend_from_slice(&once);
    let a = sharpness(&once, w, h);
    let b = sharpness(&twice, w, 2 * h);
    assert_eq!(b.gradient, 2 * a.gradient);
    assert_eq!(b.pixels, 2 * a.pixels);
    assert_eq!(score(a), score(b));
}

#[test]
fn geometry_too_large_to_count_scores_zero() {
    assert_eq!(sharpness(&[1, 2, 3], usize::MAX, 2), Sharpness { gradient: 0, pixels: 1 });
}

const W: usize = 64;
const H: usize = 64;

/// A high-contrast, detail-rich 16-bit scene: period-4 vertical bars (0 vs 60000 ADU).
fn sharp_scene() -> Vec<u16> {
    let mut px = vec![0u16; W * H];
    for row in px.chunks_exact_mut(W) {
        for (x, p) in row.iter_mut().enumerate() {
            *p = if (x / 2) % 2 == 0 { 0 } else { 60000 };
        }
    }
    px
}

/// A horizontal box blur of `radius` columns spreads the bars, like a defocused image.
fn defocus(scene: &[u16], radius: usize) -> Vec<u16> {
    let mut out = vec![0u16; W * H];
    for (r_in, r_out) in scene.chunks_exact(W).zip(out.chunks_exact_mut(W)) {
        for (x, p) in r_out.iter_mut().enumerate() {
            let lo = x.saturating_sub(radius);
            let hi = (x + radius).min(W - 1);
            let sum: u64 = (lo..=hi).map(|i| r_in[i] as u64).sum();
            *p = (sum / (hi - lo + 1) as u64) as u16;
        }
    }
    out
}

fn raw_le(scene: &[u16]) -> Vec<u8> {
    scene.iter().flat_map(|v| v.to_le_bytes()).collect()
}

/// The path of a raw payload through decoding to the metric.
fn measure(raw: &[u8]) -> f64 {
    let frame = Frame::from_raw_stream(raw, W, H, 1).expect("decode raw frame");
    let gray = to_gray(&frame.rgba, frame.width, frame.height);
    score(sharpness(&gray, frame.width, frame.height))
}

#[test]
fn sharpness_decreases_monotonically_with_defocus() {
    let scene = sharp_scene();
    let in_focus = measure(&raw_le(&scene));
    let slight = measure(&raw_le(&defocus(&scene, 1)));
    let heavy = measure(&raw_le(&defocus(&scene, 3)));

    assert!(in_focus > slight, "in_focus {in_focus} should beat slight {slight}");
    assert!(slight > heavy, "slight {slight} should beat heavy {heavy}");
    let flat = measure(&raw_le(&vec![30000u16; W * H]));
    assert!(heavy > flat, "heavy {heavy} should beat flat {flat}");
    assert_eq!(flat, 0.0);
}
