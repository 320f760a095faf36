use qeda_svg::{Point, Size, Transform, Transformation, FIXED_ONE};

#[test]
fn scale_then_translate_moves_point() {
    let mut t = Transformation::new();
    t.scale(2 * FIXED_ONE, FIXED_ONE);
    t.translate(3 * FIXED_ONE, 0);
    let p = Point::new(FIXED_ONE, FIXED_ONE).transform(&t);
    assert_eq!((p.x, p.y), (5 * FIXED_ONE, FIXED_ONE));
}

#[test]
fn anisotropic_scale() {
    let mut t = Transformation::new();
    t.scale(3 * FIXED_ONE, FIXED_ONE);
    assert_eq!(t.scale_x, 3 * FIXED_ONE);
    assert_eq!(t.scale_y, FIXED_ONE);
    let expected = 5.0f64.sqrt() * FIXED_ONE as f64;
    assert!((t.scale as f64 - expected).abs() < 1.0);
    assert_eq!(t.scale, 2_236_067);
}

#[test]
fn uniform_scale_is_the_common_scale() {
    let mut t = Transformation::new();
    t.scale(2 * FIXED_ONE, 2 * FIXED_ONE);
    assert_eq!(t.scale, 2 * FIXED_ONE);
    let t0 = Transformation::new();
    assert_eq!((t0.scale, t0.scale_x, t0.scale_y), (FIXED_ONE, FIXED_ONE, FIXED_ONE));
}

#[test]
fn size_ignores_translation() {
    let mut t = Transformation::new();
    t.translate(7 * FIXED_ONE, 9 * FIXED_ONE);
    t.scale(2 * FIXED_ONE, 3 * FIXED_ONE);
    let s = Size::new(FIXED_ONE, FIXED_ONE).transform(&t);
    assert_eq!((s.x, s.y), (2 * FIXED_ONE, 3 * FIXED_ONE));
}

#[test]
fn scale_convenience() {
    let p = Point::new(2 * FIXED_ONE, 4 * FIXED_ONE).scale(FIXED_ONE / 2, -FIXED_ONE);
    assert_eq!((p.x, p.y), (FIXED_ONE, -4 * FIXED_ONE));
    let s = Size::new(2 * FIXED_ONE, 4 * FIXED_ONE).scale(FIXED_ONE / 2, -FIXED_ONE);
    assert_eq!((s.x, s.y), (FIXED_ONE, 4 * FIXED_ONE));
}

#[test]
fn translate_then_scale_scales_the_offset() {
    let mut t = Transformation::new();
    t.translate(3 * FIXED_ONE, 0);
    t.scale(2 * FIXED_ONE, FIXED_ONE);
    let p = Point::new(FIXED_ONE, FIXED_ONE).transform(&t);
    assert_eq!((p.x, p.y), (8 * FIXED_ONE, FIXED_ONE));
}

#[test]
fn distance_between_points() {
    let a = Point::new(0, 0);
    let b = Point::new(3 * FIXED_ONE, 4 * FIXED_ONE);
    assert_eq!(a.distance_to(&b), 5 * FIXED_ONE);
    assert_eq!(b.distance_to(&a), 5 * FIXED_ONE);
}
