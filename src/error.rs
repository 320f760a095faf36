use vstd::prelude::*;

use crate::units::LengthUnit;

verus! {

/// Why an import failed. The first failure aborts the whole import.
#[derive(Debug, PartialEq, Eq)]
pub enum SvgError {
    /// A length carries a unit other than none, millimetre or point.
    UnsupportedUnits(LengthUnit),
    /// An attribute of a recognized element cannot be resolved.
    InvalidAttribute,
    /// A coordinate leaves the range of the fixed-point representation.
    OutOfRange,
    /// The markup itself is not well formed; holds the parser's message.
    DocumentParseFailure(String),
}

} // verus!
