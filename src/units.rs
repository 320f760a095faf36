use vstd::prelude::*;

use crate::error::SvgError;
use crate::fixed::div_floor;

verus! {

/// The unit that a length was written with.
#[derive(Debug, Clone, Copy, PartialEq, Eq)]
pub enum LengthUnit {
    Unitless,
    Em,
    Ex,
    Px,
    In,
    Cm,
    Mm,
    Pt,
    Pc,
    Percent,
}

/// A length as written in a document: a fixed-point number and its unit.
#[derive(Debug, Clone, Copy, PartialEq, Eq)]
pub struct Length {
    pub num: i64,
    pub unit: LengthUnit,
}

/// Points in millimetres: `v * 25.4 / 72`, that is `v * 127 / 360`, rounded down.
pub open spec fn pt_to_mm(v: int) -> int {
    v * 127 / 360
}

/// What a length is in millimetres, or why it has none.
pub open spec fn length_mm(len: Length) -> Result<i64, SvgError> {
    match len.unit {
        LengthUnit::Unitless | LengthUnit::Mm => Ok(len.num),
        LengthUnit::Pt => Ok(pt_to_mm(len.num as int) as i64),
        _ => Err(SvgError::UnsupportedUnits(len.unit)),
    }
}

/// Converts a length to millimetres; only unitless, millimetre and point
/// lengths are understood.
pub fn convert_units(len: &Length) -> (r: Result<i64, SvgError>)
    ensures
        r == length_mm(*len),
        len.unit == LengthUnit::Pt ==> i64::MIN <= pt_to_mm(len.num as int) <= i64::MAX,
{
    match len.unit {
        LengthUnit::Unitless | LengthUnit::Mm => Ok(len.num),
        LengthUnit::Pt => {
            let p: i128 = len.num as i128 * 127;
            let q = div_floor(p, 360);
            proof {
                let v = len.num as int;
                assert(i64::MIN * 127 <= v * 127 <= i64::MAX * 127) by (nonlinear_arith)
                    requires i64::MIN <= v <= i64::MAX;
                vstd::arithmetic::div_mod::lemma_div_is_ordered(i64::MIN * 127, v * 127, 360);
                vstd::arithmetic::div_mod::lemma_div_is_ordered(v * 127, i64::MAX * 127, 360);
                assert(i64::MIN * 127 / 360 >= i64::MIN);
                assert(i64::MAX * 127 / 360 <= i64::MAX);
            }
            Ok(q as i64)
        },
        _ => Err(SvgError::UnsupportedUnits(len.unit)),
    }
}

} // verus!
