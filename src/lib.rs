//! Import of vector drawings into typed primitives, and the affine
//! transformations that place them.
//!
//! All lengths and coordinates are fixed-point integers: a value `v` stands
//! for `v / FIXED_ONE` of its unit (a millionth of a millimetre for lengths).
//! Products and quotients round down.

mod fixed;
pub mod attributes;
pub mod document;
pub mod element_map;
pub mod error;
pub mod geometry;
pub mod packages;
pub mod path;
pub mod prelude;
pub mod shapes;
pub mod units;

pub use attributes::{AttrId, AttrValue, Attribute, PathSegment, TextAttrs};
pub use document::{to_elements, ElementId, SvgNode};
pub use element_map::SvgHash;
pub use error::SvgError;
pub use fixed::FIXED_ONE;
pub use geometry::{Point, Size, Transform, Transformation};
pub use packages::{ChipPackage, PackageError, PackageType, Packages};
pub use prelude::{HAlign, Orientation, PinDirection, VAlign, Visibility};
pub use shapes::{SvgElement, SvgEllipse, SvgHLine, SvgLine, SvgPoint, SvgPolygon, SvgRect, SvgText, SvgVLine};
pub use units::{convert_units, Length, LengthUnit};
