use solar::bytes::{i32_le, i64_le, u32_le};
use solar::ephemeris::SolarObject;
use solar::scalar::Scalar;
use solar::text::{
    contains, ends_with, eq_ignore_ascii_case, less, number, number_three_wide, same, trims_to,
};

fn sc(v: f64) -> Scalar {
    Scalar { bits: v.to_bits() }
}

/// Numbers of every kind, against the comparison of the machine.
#[test]
fn scalars_compare_as_numbers() {
    let values = [
        f64::NEG_INFINITY,
        f64::MIN,
        -1.5,
        -f64::MIN_POSITIVE,
        -5e-324,
        -0.0,
        0.0,
        5e-324,
        0.1,
        1.0,
        1.5,
        f64::MAX,
        f64::INFINITY,
        f64::NAN,
        -f64::NAN,
    ];
    for a in values {
        assert_eq!(sc(a).is_nan(), a.is_nan());
        assert_eq!(sc(a).is_finite(), a.is_finite());
        assert_eq!(sc(a).abs(), sc(a.abs()));
        for b in values {
            assert_eq!(sc(a).lt(sc(b)), a < b, "{a} < {b}");
            assert_eq!(sc(a).le(sc(b)), a <= b, "{a} <= {b}");
            if !a.is_nan() && !b.is_nan() && a != b {
                assert_eq!(sc(a).min(sc(b)), sc(a.min(b)));
            }
        }
    }
    assert_eq!(sc(f64::NAN).min(sc(2.0)), sc(2.0));
    assert_eq!(sc(2.0).min(sc(f64::NAN)), sc(2.0));
}

#[test]
fn bytes_are_little_endian() {
    assert_eq!(i32_le(-2), (-2i32).to_le_bytes());
    assert_eq!(u32_le(0x0102_0304), [4, 3, 2, 1]);
    assert_eq!(i64_le(-3), (-3i64).to_le_bytes());
    assert_eq!(i64_le(i64::MAX), i64::MAX.to_le_bytes());
}

#[test]
fn texts_are_searched_and_compared() {
    assert!(contains("image/jpeg", "jpeg") && !contains("image/png", "jpeg"));
    assert!(contains("abc", "") && !contains("", "a"));
    assert!(ends_with(".stream.z", ".z") && !ends_with(".z", "a.z"));
    assert!(eq_ignore_ascii_case("MJPEG", "mjpeg") && !eq_ignore_ascii_case("RAW", "RAW8"));
    assert!(same("a", "a") && !same("a", "b"));
    assert!(trims_to("  rggb\t", "RGGB") && !trims_to("rg gb", "RGGB"));
    for (a, b) in [("", "a"), ("a", "b"), ("a", "ab"), ("Z", "a"), ("x10", "x2")] {
        assert!(less(a, b) && !less(b, a));
    }
    assert!(!less("a", "a"));
}

#[test]
fn numbers_in_decimal() {
    for n in [0, 9, 10, 99, 100, 12345, u64::MAX] {
        assert_eq!(number(n), n.to_string());
        assert_eq!(number(n).parse::<u64>().unwrap(), n);
        assert_eq!(number_three_wide(n), format!("{n:03}"));
    }
}

#[test]
fn bodies_are_listed_from_the_sun_outward() {
    let labels: Vec<&str> = SolarObject::all().iter().map(|o| o.label()).collect();
    assert_eq!(
        labels,
        vec![
            "Sun", "Moon", "Mercury", "Venus", "Mars", "Jupiter", "Saturn", "Uranus", "Neptune"
        ]
    );
}
