use imcon::{Resize, Scale};

fn resize(
    width: Option<u32>,
    height: Option<u32>,
    max_width: Option<u32>,
    max_height: Option<u32>,
    scale: Option<(u32, u32)>,
) -> Resize {
    Resize {
        width,
        height,
        max_width,
        max_height,
        scale: scale.map(|(n, d)| Scale::new(n, d).unwrap()),
    }
}

#[test]
fn resize_identity() {
    let r = Resize::default();
    assert_eq!(r.calculate_dimensions(640, 480), (640, 480));
    assert_eq!(r.calculate_dimensions(1, 1), (1, 1));
    assert_eq!(r.calculate_dimensions(4000, 3), (4000, 3));
}

#[test]
fn exact_override_wins() {
    let r = resize(Some(100), Some(50), Some(10), Some(10), Some((3, 1)));
    assert_eq!(r.calculate_dimensions(1000, 500), (100, 50));
    assert_eq!(r.calculate_dimensions(7, 9000), (100, 50));
}

#[test]
fn max_clamp_never_upscales() {
    let r = resize(None, None, Some(2000), None, None);
    assert_eq!(r.calculate_dimensions(1000, 500), (1000, 500));
    let r = resize(None, None, None, Some(2000), None);
    assert_eq!(r.calculate_dimensions(1000, 500), (1000, 500));
}

#[test]
fn max_width_scales_both_axes_down() {
    let r = resize(None, None, Some(500), None, None);
    assert_eq!(r.calculate_dimensions(1000, 500), (500, 250));
}

#[test]
fn max_height_applies_after_max_width() {
    let r = resize(None, None, Some(500), Some(200), None);
    assert_eq!(r.calculate_dimensions(1000, 1000), (200, 200));
}

#[test]
fn scale_then_clamp() {
    let r = resize(None, None, Some(300), None, Some((1, 2)));
    assert_eq!(r.calculate_dimensions(1000, 500), (300, 150));
}

#[test]
fn width_only_keeps_aspect_ratio() {
    let r = resize(Some(500), None, None, None, None);
    assert_eq!(r.calculate_dimensions(1000, 500), (500, 250));
    assert_eq!(r.calculate_dimensions(1000, 333), (500, 166));
}

#[test]
fn height_only_uses_input_height() {
    let r = resize(None, Some(250), None, None, None);
    assert_eq!(r.calculate_dimensions(1000, 500), (500, 250));
    let r = resize(None, Some(100), None, None, Some((1, 2)));
    assert_eq!(r.calculate_dimensions(1000, 500), (100, 100));
}

#[test]
fn scale_truncates() {
    let r = resize(None, None, None, None, Some((1, 2)));
    assert_eq!(r.calculate_dimensions(3, 3), (1, 1));
    let r = resize(None, None, None, None, Some((2, 3)));
    assert_eq!(r.calculate_dimensions(100, 10), (66, 6));
}

#[test]
fn zero_sized_input_keeps_running_size() {
    let r = resize(Some(10), None, None, None, None);
    assert_eq!(r.calculate_dimensions(0, 7), (10, 7));
    let r = resize(None, Some(10), None, None, None);
    assert_eq!(r.calculate_dimensions(7, 0), (7, 10));
}

#[test]
fn oversized_result_saturates() {
    let r = resize(None, None, None, None, Some((2, 1)));
    assert_eq!(r.calculate_dimensions(u32::MAX, 1), (u32::MAX, 2));
}

#[test]
fn scale_needs_nonzero_denominator() {
    assert!(Scale::new(1, 0).is_none());
    let s = Scale::new(3, 4).unwrap();
    assert_eq!((s.numerator(), s.denominator()), (3, 4));
}

#[test]
fn scale_from_decimal_text() {
    let s = Scale::from_decimal("0.5").unwrap();
    assert_eq!((s.numerator(), s.denominator()), (5, 10));
    let s = Scale::from_decimal("2").unwrap();
    assert_eq!((s.numerator(), s.denominator()), (2, 1));
    let s = Scale::from_decimal("1.25").unwrap();
    assert_eq!((s.numerator(), s.denominator()), (125, 100));
    let s = Scale::from_decimal(".5").unwrap();
    assert_eq!((s.numerator(), s.denominator()), (5, 10));
    let s = Scale::from_decimal("3.").unwrap();
    assert_eq!((s.numerator(), s.denominator()), (3, 1));
    assert!(Scale::from_decimal("").is_none());
    assert!(Scale::from_decimal(".").is_none());
    assert!(Scale::from_decimal("1.2.3").is_none());
    assert!(Scale::from_decimal("-1").is_none());
    assert!(Scale::from_decimal("1e3").is_none());
    assert!(Scale::from_decimal("4294967296").is_none());
    assert!(Scale::from_decimal("0.0000000001").is_none());
}

#[test]
fn decimal_scale_resizes() {
    let r = resize(None, None, None, None, None);
    let r = Resize { scale: Scale::from_decimal("1.5"), ..r };
    assert_eq!(r.calculate_dimensions(100, 41), (150, 61));
}
