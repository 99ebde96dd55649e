use solar::frame::{inflate_zlib, is_jpeg_label, luma8, Frame, FrameError, Pixel, Stretch};

fn frame(rgba: Vec<u8>) -> Frame {
    Frame::new(rgba.len() / 4, 1, rgba, 1)
}

/// Display levels of a linear stretch: brightest to white for an automatic one, else by gain, where
/// a 16-bit sample keeps its high byte.
fn levels(f: &Frame, auto: bool, gain: f32) -> Stretch {
    let wide = f.raw16.is_some();
    let max = f.peak();
    let gain = gain.max(0.0);
    let stretched = auto && max > 0;
    let scale = match (wide, stretched) {
        (true, true) => gain * 255.0 / max as f32,
        (true, false) => gain / 256.0,
        (false, true) => gain * (255.0 / max as f32),
        (false, false) => gain,
    };
    if !wide && (scale - 1.0).abs() < f32::EPSILON {
        return Stretch::Keep;
    }
    let full = if wide { 65536 } else { 256 };
    let mut table = Vec::with_capacity(full);
    for v in 0..full {
        let x = v as f32 * scale;
        let level = if wide && !stretched { x.floor() } else { x.round() };
        table.push(level.clamp(0.0, 255.0) as u8);
    }
    Stretch::Levels(table)
}

#[test]
fn identity_when_no_stretch() {
    let f = frame(vec![10, 20, 30, 255, 40, 50, 60, 255]);
    let img = f.to_display_image(&levels(&f, false, 1.0));
    assert_eq!(img.size, [2, 1]);
    assert_eq!((img.pixels[0].r, img.pixels[0].g, img.pixels[0].b), (10, 20, 30));
    assert_eq!(img.pixels[1].b, 60);
}

#[test]
fn auto_stretch_maps_brightest_to_255() {
    let f = frame(vec![64, 0, 128, 255]);
    let img = f.to_display_image(&levels(&f, true, 1.0));
    let p = img.pixels[0];
    assert_eq!((p.r, p.g, p.b, p.a), (128, 0, 255, 255));
}

#[test]
fn manual_gain_clamps() {
    let f = frame(vec![200, 10, 0, 255]);
    let img = f.to_display_image(&levels(&f, false, 2.0));
    let p = img.pixels[0];
    assert_eq!((p.r, p.g, p.b), (255, 20, 0));
}

#[test]
fn raw_stream_8bit_mono_replicates_gray() {
    let f = Frame::from_raw_stream(&[40, 200], 2, 1, 7).unwrap();
    assert_eq!((f.width, f.height), (2, 1));
    assert_eq!(&f.rgba[0..4], &[40, 40, 40, 255]);
    assert_eq!(&f.rgba[4..8], &[200, 200, 200, 255]);
}

#[test]
fn raw_stream_16bit_mono_uses_high_byte() {
    let f = Frame::from_raw_stream(&[0x34, 0x12], 1, 1, 7).unwrap();
    assert_eq!(&f.rgba[0..4], &[0x12, 0x12, 0x12, 255]);
    assert_eq!(f.raw16.as_deref(), Some(&[0x1234u16][..]));
}

#[test]
fn raw16_auto_stretch_reveals_faint_frame() {
    let f = Frame::from_raw_stream(&[100, 0, 200, 0], 2, 1, 1).unwrap();
    assert_eq!(&f.rgba[0..4], &[0, 0, 0, 255]);
    let img = f.to_display_image(&levels(&f, true, 1.0));
    assert_eq!(img.pixels[1].r, 255);
    assert_eq!(img.pixels[0].r, 128);
}

#[test]
fn raw16_manual_gain_matches_high_byte() {
    let f = Frame::from_raw_stream(&[0x34, 0x12], 1, 1, 1).unwrap();
    let img = f.to_display_image(&levels(&f, false, 1.0));
    assert_eq!(img.pixels[0].r, 0x12);
}

#[test]
fn raw16_manual_gain_drops_the_low_byte() {
    let f = Frame::from_raw_stream(&[0xF0, 0x12], 1, 1, 1).unwrap();
    let img = f.to_display_image(&levels(&f, false, 1.0));
    assert_eq!(img.pixels[0].r, 0x12);
}

#[test]
fn raw_stream_rejects_mismatched_length() {
    assert!(Frame::from_raw_stream(&[1, 2, 3], 2, 1, 7).is_err());
    assert!(Frame::from_raw_stream(&[1, 2], 0, 0, 7).is_err());
}

#[test]
fn raw_stream_names_what_is_wrong() {
    assert!(matches!(
        Frame::from_raw_stream(&[1, 2, 3], 2, 1, 7),
        Err(FrameError::LengthMismatch { len: 3, width: 2, height: 1 })
    ));
    assert!(matches!(
        Frame::from_raw_stream(&[1, 2], 0, 5, 7),
        Err(FrameError::UnknownGeometry)
    ));
    assert!(matches!(
        Frame::from_raw_stream(&[1, 2], usize::MAX, 2, 7),
        Err(FrameError::UnknownGeometry)
    ));
}

#[test]
fn raw_stream_carries_seq_and_full_scale() {
    let eight = Frame::from_raw_stream(&[1, 2], 2, 1, 9).unwrap();
    assert_eq!((eight.seq, eight.max_adu), (9, 255));
    let sixteen = Frame::from_raw_stream(&[1, 2, 3, 4], 2, 1, 10).unwrap();
    assert_eq!((sixteen.seq, sixteen.max_adu), (10, 65535));
}

#[test]
fn luma_weighs_the_channels() {
    assert_eq!(luma8(255, 0, 0), 76);
    assert_eq!(luma8(0, 255, 0), 149);
    assert_eq!(luma8(0, 0, 255), 28);
    assert_eq!(luma8(255, 255, 255), 255);
}

#[test]
fn histogram_bins_add_up_to_the_pixels() {
    let f = frame(vec![255, 0, 0, 255, 0, 0, 0, 255, 255, 0, 0, 255]);
    let bins = f.luma_histogram();
    assert_eq!(bins[76], 2);
    assert_eq!(bins[0], 1);
    assert_eq!(bins.iter().sum::<u32>(), 3);
}

#[test]
fn rgb_bytes_drop_alpha() {
    let f = frame(vec![1, 2, 3, 4, 5, 6, 7, 8]);
    assert_eq!(f.rgb_bytes(), vec![1, 2, 3, 5, 6, 7]);
}

#[test]
fn peak_of_an_empty_frame() {
    assert_eq!(frame(vec![]).peak(), 255);
    assert_eq!(frame(vec![0, 7, 3, 255]).peak(), 7);
}

#[test]
fn unit_levels_keep_the_image() {
    let f = frame(vec![9, 99, 199, 255]);
    let table: Vec<u8> = (0..=255).collect();
    assert_eq!(
        f.to_display_image(&Stretch::Levels(table)).pixels,
        f.to_display_image(&Stretch::Keep).pixels
    );
}

#[test]
fn alpha_is_multiplied_in() {
    let f = frame(vec![200, 100, 0, 128]);
    let p = f.to_display_image(&Stretch::Keep).pixels[0];
    assert_eq!(p, Pixel { r: 100, g: 50, b: 0, a: 128 });
    let clear = frame(vec![200, 100, 0, 0]).to_display_image(&Stretch::Keep).pixels[0];
    assert_eq!(clear, Pixel { r: 0, g: 0, b: 0, a: 0 });
}

/// Every pair of level and alpha, against the rounded product.
#[test]
fn alpha_product_is_rounded_to_the_nearest_level() {
    for alpha in 0..=255u32 {
        let mut rgba = Vec::new();
        for level in 0..=255u32 {
            rgba.extend_from_slice(&[level as u8, 0, 0, alpha as u8]);
        }
        let img = frame(rgba).to_display_image(&Stretch::Keep);
        for level in 0..=255u32 {
            let expected = (2 * level * alpha + 255) / 510;
            assert_eq!(img.pixels[level as usize].r as u32, expected);
        }
    }
}

#[test]
fn jpeg_labels() {
    assert!(is_jpeg_label(Some(".stream_jpg")));
    assert!(is_jpeg_label(Some("image/jpeg")));
    assert!(!is_jpeg_label(Some(".stream")));
    assert!(!is_jpeg_label(None));
}

fn encoded(format: image::ImageFormat) -> Vec<u8> {
    let mut img = image::RgbImage::new(16, 8);
    for px in img.pixels_mut() {
        *px = image::Rgb([200, 200, 200]);
    }
    let mut out = std::io::Cursor::new(Vec::new());
    image::DynamicImage::ImageRgb8(img).write_to(&mut out, format).unwrap();
    out.into_inner()
}

#[test]
fn jpeg_payload_is_decoded() {
    let data = encoded(image::ImageFormat::Jpeg);
    let f = Frame::from_stream_blob(Some(".stream_jpg"), &data, 3).unwrap();
    assert_eq!((f.width, f.height, f.seq, f.max_adu), (16, 8, 3, 255));
    assert_eq!(f.rgba.len(), 16 * 8 * 4);
    assert!(f.raw16.is_none());
    for px in f.rgba.chunks_exact(4) {
        assert!((px[0] as i32 - 200).abs() <= 2);
        assert_eq!(px[3], 255);
    }
}

#[test]
fn unlabelled_payload_is_decoded_by_what_it_shows() {
    let data = encoded(image::ImageFormat::Png);
    let f = Frame::from_stream_blob(Some(".png"), &data, 4).unwrap();
    assert_eq!((f.width, f.height), (16, 8));
    assert_eq!(&f.rgba[0..4], &[200, 200, 200, 255]);
}

#[test]
fn broken_payloads_are_reported() {
    let png = encoded(image::ImageFormat::Png);
    assert!(matches!(
        Frame::from_stream_blob(Some(".stream_jpg"), &png, 1),
        Err(FrameError::Jpeg { .. })
    ));
    assert!(matches!(
        Frame::from_stream_blob(None, &[1, 2, 3], 1),
        Err(FrameError::Unsupported { .. })
    ));
}

#[test]
fn zlib_payload_is_inflated() {
    let mut encoder = flate2::write::ZlibEncoder::new(Vec::new(), flate2::Compression::default());
    std::io::Write::write_all(&mut encoder, &[7u8; 1000]).unwrap();
    let packed = encoder.finish().unwrap();
    assert!(packed.len() < 1000);
    assert_eq!(inflate_zlib(&packed).unwrap(), vec![7u8; 1000]);
    assert_eq!(solar::recorder::inflate_zlib(&packed).unwrap(), vec![7u8; 1000]);
    assert!(inflate_zlib(&[1, 2, 3, 4]).is_err());
}
