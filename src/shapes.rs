use vstd::prelude::*;

use vstd::math::abs;

use crate::fixed::div_floor;
use crate::prelude::{HAlign, VAlign};

verus! {

/// A point of a path; `marker` is reserved and always false for now.
#[derive(Debug, Clone, Copy, PartialEq, Eq)]
pub struct SvgPoint {
    pub x: i64,
    pub y: i64,
    pub marker: bool,
}

/// A straight segment in any direction.
#[derive(Debug, Clone, Copy, PartialEq, Eq)]
pub struct SvgLine {
    pub p: (SvgPoint, SvgPoint),
    pub width: i64,
}

/// A horizontal segment from `x0` to `x1` at height `y`.
#[derive(Debug, Clone, Copy, PartialEq, Eq)]
pub struct SvgHLine {
    pub x0: i64,
    pub x1: i64,
    pub y: i64,
    pub width: i64,
}

impl SvgHLine {
    /// The middle of the segment, rounded down.
    pub fn cx(&self) -> (r: i64)
        ensures
            r == (self.x0 + self.x1) / 2,
    {
        div_floor(self.x0 as i128 + self.x1 as i128, 2) as i64
    }

    /// The length of the segment.
    pub fn len(&self) -> (r: i64)
        requires
            -i64::MAX <= self.x1 - self.x0 <= i64::MAX,
        ensures
            r == abs(self.x1 - self.x0),
    {
        if self.x1 >= self.x0 {
            self.x1 - self.x0
        } else {
            self.x0 - self.x1
        }
    }
}

/// A vertical segment from `y0` to `y1` at abscissa `x`.
#[derive(Debug, Clone, Copy, PartialEq, Eq)]
pub struct SvgVLine {
    pub x: i64,
    pub y0: i64,
    pub y1: i64,
    pub width: i64,
}

impl SvgVLine {
    /// The middle of the segment, rounded down.
    pub fn cy(&self) -> (r: i64)
        ensures
            r == (self.y0 + self.y1) / 2,
    {
        div_floor(self.y0 as i128 + self.y1 as i128, 2) as i64
    }

    /// The length of the segment.
    pub fn len(&self) -> (r: i64)
        requires
            -i64::MAX <= self.y1 - self.y0 <= i64::MAX,
        ensures
            r == abs(self.y1 - self.y0),
    {
        if self.y1 >= self.y0 {
            self.y1 - self.y0
        } else {
            self.y0 - self.y1
        }
    }
}

/// A polyline of the points of a path.
#[derive(Debug, PartialEq, Eq)]
pub struct SvgPolygon {
    pub p: Vec<SvgPoint>,
    pub line_width: i64,
    pub filled: bool,
}

/// An axis-aligned rectangle.
#[derive(Debug, Clone, Copy, PartialEq, Eq)]
pub struct SvgRect {
    pub x: i64,
    pub y: i64,
    pub width: i64,
    pub height: i64,
    pub line_width: i64,
    pub filled: bool,
}

/// An axis-aligned ellipse.
#[derive(Debug, Clone, Copy, PartialEq, Eq)]
pub struct SvgEllipse {
    pub cx: i64,
    pub cy: i64,
    pub rx: i64,
    pub ry: i64,
    pub line_width: i64,
    pub filled: bool,
}

/// A single-line text.
#[derive(Debug, PartialEq, Eq)]
pub struct SvgText {
    pub x: i64,
    pub y: i64,
    pub height: i64,
    pub text: String,
    pub halign: HAlign,
    pub valign: VAlign,
}

/// One drawing primitive.
#[derive(Debug)]
pub enum SvgElement {
    HLine(SvgHLine),
    VLine(SvgVLine),
    Line(SvgLine),
    Polygon(SvgPolygon),
    Rect(SvgRect),
    Ellipse(SvgEllipse),
    Text(SvgText),
}

/// What an element holds, with its sequences as mathematical values.
pub enum ElementView {
    HLine(SvgHLine),
    VLine(SvgVLine),
    Line(SvgLine),
    Polygon { p: Seq<SvgPoint>, line_width: i64, filled: bool },
    Rect(SvgRect),
    Ellipse(SvgEllipse),
    Text { x: i64, y: i64, height: i64, text: Seq<char>, halign: HAlign, valign: VAlign },
}

impl SvgElement {
    pub open spec fn view(&self) -> ElementView {
        match self {
            SvgElement::HLine(l) => ElementView::HLine(*l),
            SvgElement::VLine(l) => ElementView::VLine(*l),
            SvgElement::Line(l) => ElementView::Line(*l),
            SvgElement::Polygon(g) => ElementView::Polygon { p: g.p@, line_width: g.line_width, filled: g.filled },
            SvgElement::Rect(r) => ElementView::Rect(*r),
            SvgElement::Ellipse(e) => ElementView::Ellipse(*e),
            SvgElement::Text(t) => ElementView::Text {
                x: t.x,
                y: t.y,
                height: t.height,
                text: t.text@,
                halign: t.halign,
                valign: t.valign,
            },
        }
    }
}

} // verus!
