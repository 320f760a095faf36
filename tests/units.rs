use qeda_svg::{
    convert_units, HAlign, Length, LengthUnit, Orientation, SvgError, SvgHLine, SvgVLine, VAlign,
    Visibility, FIXED_ONE,
};

#[test]
fn points_become_millimetres() {
    let r = convert_units(&Length { num: 72 * FIXED_ONE, unit: LengthUnit::Pt }).unwrap();
    assert_eq!(r, 25_400_000);
    let r = convert_units(&Length { num: -72 * FIXED_ONE, unit: LengthUnit::Pt }).unwrap();
    assert_eq!(r, -25_400_000);
    let r = convert_units(&Length { num: 1, unit: LengthUnit::Pt }).unwrap();
    assert_eq!(r, 0);
}

#[test]
fn unitless_and_millimetres_pass_through() {
    assert_eq!(convert_units(&Length { num: 10 * FIXED_ONE, unit: LengthUnit::Unitless }), Ok(10 * FIXED_ONE));
    assert_eq!(convert_units(&Length { num: 10 * FIXED_ONE, unit: LengthUnit::Mm }), Ok(10 * FIXED_ONE));
}

#[test]
fn other_units_are_refused() {
    assert_eq!(
        convert_units(&Length { num: 10 * FIXED_ONE, unit: LengthUnit::In }),
        Err(SvgError::UnsupportedUnits(LengthUnit::In))
    );
    assert_eq!(
        convert_units(&Length { num: 1, unit: LengthUnit::Percent }),
        Err(SvgError::UnsupportedUnits(LengthUnit::Percent))
    );
}

#[test]
fn line_middles_and_lengths() {
    let h = SvgHLine { x0: 5 * FIXED_ONE, x1: FIXED_ONE, y: 0, width: 0 };
    assert_eq!(h.cx(), 3 * FIXED_ONE);
    assert_eq!(h.len(), 4 * FIXED_ONE);
    let v = SvgVLine { x: 0, y0: -3, y1: 0, width: 0 };
    assert_eq!(v.cy(), -2);
    assert_eq!(v.len(), 3);
}

#[test]
fn alignment_names_and_defaults() {
    assert_eq!(HAlign::from_name("right"), HAlign::Right);
    assert_eq!(HAlign::from_name("center"), HAlign::Center);
    assert_eq!(HAlign::from_name("left"), HAlign::Left);
    assert_eq!(HAlign::from_name("middle"), HAlign::Left);
    assert_eq!(VAlign::from_name("top"), VAlign::Top);
    assert_eq!(VAlign::from_name("middle"), VAlign::Middle);
    assert_eq!(VAlign::from_name("nowhere"), VAlign::Bottom);
    assert_eq!(HAlign::default(), HAlign::Left);
    assert_eq!(VAlign::default(), VAlign::Bottom);
    assert_eq!(Orientation::default(), Orientation::Horizontal);
    assert_eq!(Visibility::default(), Visibility(true));
}
