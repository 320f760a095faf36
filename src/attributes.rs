use vstd::prelude::*;

use crate::error::SvgError;
use crate::prelude::{text_is, HAlign, VAlign};
use crate::shapes::{SvgEllipse, SvgRect};
use crate::units::{convert_units, length_mm, Length};

verus! {

/// The attributes that the import reads; every other known attribute is `Other`.
#[derive(Debug, Clone, Copy, PartialEq, Eq)]
pub enum AttrId {
    D,
    Cx,
    Cy,
    Rx,
    Ry,
    X,
    Y,
    Width,
    Height,
    StrokeWidth,
    Fill,
    FontSize,
    TextAnchor,
    DominantBaseline,
    Other,
}

/// A path command; only lines and moves are kept, all else is `Other`.
/// Coordinates are fixed-point numbers.
#[derive(Debug, Clone, Copy, PartialEq, Eq)]
pub enum PathSegment {
    MoveTo { abs: bool, x: i64, y: i64 },
    LineTo { abs: bool, x: i64, y: i64 },
    HorizontalLineTo { abs: bool, x: i64 },
    VerticalLineTo { abs: bool, y: i64 },
    Other,
}

/// The value of an attribute. `NoneKeyword` is the explicit value "none".
#[derive(Debug, PartialEq, Eq)]
pub enum AttrValue {
    NoneKeyword,
    Length(Length),
    LengthList(Vec<Length>),
    Path(Vec<PathSegment>),
    Str(String),
    Other,
}

/// An attribute; `id` is `None` when its name cannot be resolved.
#[derive(Debug, PartialEq, Eq)]
pub struct Attribute {
    pub id: Option<AttrId>,
    pub value: AttrValue,
}

/// What a length-valued attribute sets: nothing when the value is not a length.
pub open spec fn length_value(v: AttrValue) -> Option<Result<i64, SvgError>> {
    match v {
        AttrValue::Length(l) => Some(length_mm(l)),
        _ => None,
    }
}

/// What a list-valued attribute sets: its first length; an empty list cannot
/// be resolved.
pub open spec fn first_length_value(v: AttrValue) -> Option<Result<i64, SvgError>> {
    match v {
        AttrValue::LengthList(l) => if l@.len() == 0 {
            Some(Err(SvgError::InvalidAttribute))
        } else {
            Some(length_mm(l@[0]))
        },
        _ => None,
    }
}

/// Whether a fill value leaves the shape filled: all but "none" do.
pub open spec fn fill_value(v: AttrValue) -> bool {
    !(v is NoneKeyword)
}

/// Reads a length-valued attribute.
pub fn read_length(v: &AttrValue) -> (r: Option<Result<i64, SvgError>>)
    ensures
        r == length_value(*v),
{
    match v {
        AttrValue::Length(l) => Some(convert_units(l)),
        _ => None,
    }
}

/// Reads the first length of a list-valued attribute.
pub fn read_first_length(v: &AttrValue) -> (r: Option<Result<i64, SvgError>>)
    ensures
        r == first_length_value(*v),
{
    match v {
        AttrValue::LengthList(l) => if l.len() == 0 {
            Some(Err(SvgError::InvalidAttribute))
        } else {
            Some(convert_units(&l[0]))
        },
        _ => None,
    }
}

/// Reads a fill value.
pub fn read_fill(v: &AttrValue) -> (r: bool)
    ensures
        r == fill_value(*v),
{
    match v {
        AttrValue::NoneKeyword => false,
        _ => true,
    }
}

/// An ellipse before any attribute is read: all zero, filled.
pub open spec fn blank_ellipse() -> SvgEllipse {
    SvgEllipse { cx: 0, cy: 0, rx: 0, ry: 0, line_width: 0, filled: true }
}

/// One attribute applied to an ellipse.
pub open spec fn ellipse_step(e: SvgEllipse, a: Attribute) -> Result<SvgEllipse, SvgError> {
    match a.id {
        Option::None => Err(SvgError::InvalidAttribute),
        Option::Some(id) => match id {
            AttrId::Cx => match length_value(a.value) {
                Option::Some(Ok(v)) => Ok(SvgEllipse { cx: v, ..e }),
                Option::Some(Err(x)) => Err(x),
                Option::None => Ok(e),
            },
            AttrId::Cy => match length_value(a.value) {
                Option::Some(Ok(v)) => Ok(SvgEllipse { cy: v, ..e }),
                Option::Some(Err(x)) => Err(x),
                Option::None => Ok(e),
            },
            AttrId::Rx => match length_value(a.value) {
                Option::Some(Ok(v)) => Ok(SvgEllipse { rx: v, ..e }),
                Option::Some(Err(x)) => Err(x),
                Option::None => Ok(e),
            },
            AttrId::Ry => match length_value(a.value) {
                Option::Some(Ok(v)) => Ok(SvgEllipse { ry: v, ..e }),
                Option::Some(Err(x)) => Err(x),
                Option::None => Ok(e),
            },
            AttrId::StrokeWidth => match length_value(a.value) {
                Option::Some(Ok(v)) => Ok(SvgEllipse { line_width: v, ..e }),
                Option::Some(Err(x)) => Err(x),
                Option::None => Ok(e),
            },
            AttrId::Fill => Ok(SvgEllipse { filled: fill_value(a.value), ..e }),
            _ => Ok(e),
        },
    }
}

/// The ellipse that the first `n` attributes describe, or the first failure.
pub open spec fn ellipse_scan(attrs: Seq<Attribute>, n: nat) -> Result<SvgEllipse, SvgError>
    decreases n,
{
    if n == 0 {
        Ok(blank_ellipse())
    } else {
        match ellipse_scan(attrs, (n - 1) as nat) {
            Ok(e) => ellipse_step(e, attrs[n - 1]),
            Err(x) => Err(x),
        }
    }
}

proof fn lemma_ellipse_scan_stops(attrs: Seq<Attribute>, k: nat, n: nat, x: SvgError)
    requires
        k <= n,
        ellipse_scan(attrs, k) == Err::<SvgEllipse, SvgError>(x),
    ensures
        ellipse_scan(attrs, n) == Err::<SvgEllipse, SvgError>(x),
    decreases n - k,
{
    if k < n {
        lemma_ellipse_scan_stops(attrs, k, (n - 1) as nat, x);
    }
}

/// The ellipse that an attribute set describes.
pub open spec fn ellipse_of(attrs: Seq<Attribute>) -> Result<SvgEllipse, SvgError> {
    ellipse_scan(attrs, attrs.len())
}

/// Applies one attribute to an ellipse.
fn ellipse_apply(e: &mut SvgEllipse, a: &Attribute) -> (r: Result<(), SvgError>)
    ensures
        match ellipse_step(*old(e), *a) {
            Ok(n) => r is Ok && *final(e) == n,
            Err(x) => r == Err::<(), SvgError>(x),
        },
{
    match a.id {
        None => Err(SvgError::InvalidAttribute),
        Some(id) => match id {
            AttrId::Cx | AttrId::Cy | AttrId::Rx | AttrId::Ry | AttrId::StrokeWidth => {
                match read_length(&a.value) {
                    Some(Err(x)) => Err(x),
                    Some(Ok(v)) => {
                        match id {
                            AttrId::Cx => { e.cx = v; },
                            AttrId::Cy => { e.cy = v; },
                            AttrId::Rx => { e.rx = v; },
                            AttrId::Ry => { e.ry = v; },
                            _ => { e.line_width = v; },
                        }
                        Ok(())
                    },
                    None => Ok(()),
                }
            },
            AttrId::Fill => {
                e.filled = read_fill(&a.value);
                Ok(())
            },
            _ => Ok(()),
        },
    }
}

/// Reads an ellipse from the attributes of its element.
pub fn to_ellipse(attrs: &Vec<Attribute>) -> (r: Result<SvgEllipse, SvgError>)
    ensures
        r == ellipse_of(attrs@),
{
    let mut e = SvgEllipse { cx: 0, cy: 0, rx: 0, ry: 0, line_width: 0, filled: true };
    let mut i: usize = 0;
    while i < attrs.len()
        invariant
            i <= attrs@.len(),
            ellipse_scan(attrs@, i as nat) == Ok::<SvgEllipse, SvgError>(e),
        decreases attrs@.len() - i,
    {
        let ghost e0 = e;
        let res = ellipse_apply(&mut e, &attrs[i]);
        assert(ellipse_scan(attrs@, (i + 1) as nat) == ellipse_step(e0, attrs@[i as int]));
        if let Err(x) = res {
            proof {
                lemma_ellipse_scan_stops(attrs@, (i + 1) as nat, attrs@.len(), x);
            }
            return Err(x);
        }
        i = i + 1;
    }
    Ok(e)
}

/// A rectangle before any attribute is read: all zero, filled.
pub open spec fn blank_rect() -> SvgRect {
    SvgRect { x: 0, y: 0, width: 0, height: 0, line_width: 0, filled: true }
}

/// One attribute applied to a rectangle.
pub open spec fn rect_step(e: SvgRect, a: Attribute) -> Result<SvgRect, SvgError> {
    match a.id {
        Option::None => Err(SvgError::InvalidAttribute),
        Option::Some(id) => match id {
            AttrId::X => match length_value(a.value) {
                Option::Some(Ok(v)) => Ok(SvgRect { x: v, ..e }),
                Option::Some(Err(x)) => Err(x),
                Option::None => Ok(e),
            },
            AttrId::Y => match length_value(a.value) {
                Option::Some(Ok(v)) => Ok(SvgRect { y: v, ..e }),
                Option::Some(Err(x)) => Err(x),
                Option::None => Ok(e),
            },
            AttrId::Width => match length_value(a.value) {
                Option::Some(Ok(v)) => Ok(SvgRect { width: v, ..e }),
                Option::Some(Err(x)) => Err(x),
                Option::None => Ok(e),
            },
            AttrId::Height => match length_value(a.value) {
                Option::Some(Ok(v)) => Ok(SvgRect { height: v, ..e }),
                Option::Some(Err(x)) => Err(x),
                Option::None => Ok(e),
            },
            AttrId::StrokeWidth => match length_value(a.value) {
                Option::Some(Ok(v)) => Ok(SvgRect { line_width: v, ..e }),
                Option::Some(Err(x)) => Err(x),
                Option::None => Ok(e),
            },
            AttrId::Fill => Ok(SvgRect { filled: fill_value(a.value), ..e }),
            _ => Ok(e),
        },
    }
}

/// The rectangle that the first `n` attributes describe, or the first failure.
pub open spec fn rect_scan(attrs: Seq<Attribute>, n: nat) -> Result<SvgRect, SvgError>
    decreases n,
{
    if n == 0 {
        Ok(blank_rect())
    } else {
        match rect_scan(attrs, (n - 1) as nat) {
            Ok(e) => rect_step(e, attrs[n - 1]),
            Err(x) => Err(x),
        }
    }
}

proof fn lemma_rect_scan_stops(attrs: Seq<Attribute>, k: nat, n: nat, x: SvgError)
    requires
        k <= n,
        rect_scan(attrs, k) == Err::<SvgRect, SvgError>(x),
    ensures
        rect_scan(attrs, n) == Err::<SvgRect, SvgError>(x),
    decreases n - k,
{
    if k < n {
        lemma_rect_scan_stops(attrs, k, (n - 1) as nat, x);
    }
}

/// The rectangle that an attribute set describes.
pub open spec fn rect_of(attrs: Seq<Attribute>) -> Result<SvgRect, SvgError> {
    rect_scan(attrs, attrs.len())
}

/// Applies one attribute to a rectangle.
fn rect_apply(e: &mut SvgRect, a: &Attribute) -> (r: Result<(), SvgError>)
    ensures
        match rect_step(*old(e), *a) {
            Ok(n) => r is Ok && *final(e) == n,
            Err(x) => r == Err::<(), SvgError>(x),
        },
{
    match a.id {
        None => Err(SvgError::InvalidAttribute),
        Some(id) => match id {
            AttrId::X | AttrId::Y | AttrId::Width | AttrId::Height | AttrId::StrokeWidth => {
                match read_length(&a.value) {
                    Some(Err(x)) => Err(x),
                    Some(Ok(v)) => {
                        match id {
                            AttrId::X => { e.x = v; },
                            AttrId::Y => { e.y = v; },
                            AttrId::Width => { e.width = v; },
                            AttrId::Height => { e.height = v; },
                            _ => { e.line_width = v; },
                        }
                        Ok(())
                    },
                    None => Ok(()),
                }
            },
            AttrId::Fill => {
                e.filled = read_fill(&a.value);
                Ok(())
            },
            _ => Ok(()),
        },
    }
}

/// Reads a rectangle from the attributes of its element.
pub fn to_rect(attrs: &Vec<Attribute>) -> (r: Result<SvgRect, SvgError>)
    ensures
        r == rect_of(attrs@),
{
    let mut e = SvgRect { x: 0, y: 0, width: 0, height: 0, line_width: 0, filled: true };
    let mut i: usize = 0;
    while i < attrs.len()
        invariant
            i <= attrs@.len(),
            rect_scan(attrs@, i as nat) == Ok::<SvgRect, SvgError>(e),
        decreases attrs@.len() - i,
    {
        let ghost e0 = e;
        let res = rect_apply(&mut e, &attrs[i]);
        assert(rect_scan(attrs@, (i + 1) as nat) == rect_step(e0, attrs@[i as int]));
        if let Err(x) = res {
            proof {
                lemma_rect_scan_stops(attrs@, (i + 1) as nat, attrs@.len(), x);
            }
            return Err(x);
        }
        i = i + 1;
    }
    Ok(e)
}

/// What the attributes of a text element set.
#[derive(Debug, Clone, Copy, PartialEq, Eq)]
pub struct TextAttrs {
    pub x: i64,
    pub y: i64,
    pub height: i64,
    pub halign: HAlign,
    pub valign: VAlign,
}

/// Horizontal alignment from a text-anchor value.
pub open spec fn anchor_align(s: Seq<char>) -> HAlign {
    if s == "middle"@ {
        HAlign::Center
    } else if s == "end"@ {
        HAlign::Right
    } else {
        HAlign::Left
    }
}

/// Vertical alignment from a dominant-baseline value.
pub open spec fn baseline_align(s: Seq<char>) -> VAlign {
    if s == "middle"@ {
        VAlign::Middle
    } else if s == "text-before-edge"@ {
        VAlign::Top
    } else {
        VAlign::Bottom
    }
}

fn read_anchor(s: &String) -> (r: HAlign)
    ensures
        r == anchor_align(s@),
{
    proof {
        reveal_strlit("middle");
        reveal_strlit("end");
        assert("middle"@.len() == 6 && "end"@.len() == 3);
    }
    if text_is(s.as_str(), "middle") {
        HAlign::Center
    } else if text_is(s.as_str(), "end") {
        HAlign::Right
    } else {
        HAlign::Left
    }
}

fn read_baseline(s: &String) -> (r: VAlign)
    ensures
        r == baseline_align(s@),
{
    proof {
        reveal_strlit("middle");
        reveal_strlit("text-before-edge");
        assert("middle"@.len() == 6 && "text-before-edge"@.len() == 16);
    }
    if text_is(s.as_str(), "middle") {
        VAlign::Middle
    } else if text_is(s.as_str(), "text-before-edge") {
        VAlign::Top
    } else {
        VAlign::Bottom
    }
}

/// Text attributes before any is read.
pub open spec fn blank_text() -> TextAttrs {
    TextAttrs { x: 0, y: 0, height: 0, halign: HAlign::Left, valign: VAlign::Bottom }
}

/// One attribute applied to the text attributes.
pub open spec fn text_step(t: TextAttrs, a: Attribute) -> Result<TextAttrs, SvgError> {
    match a.id {
        Option::None => Err(SvgError::InvalidAttribute),
        Option::Some(id) => match id {
            AttrId::X => match first_length_value(a.value) {
                Option::Some(Ok(v)) => Ok(TextAttrs { x: v, ..t }),
                Option::Some(Err(x)) => Err(x),
                Option::None => Ok(t),
            },
            AttrId::Y => match first_length_value(a.value) {
                Option::Some(Ok(v)) => Ok(TextAttrs { y: v, ..t }),
                Option::Some(Err(x)) => Err(x),
                Option::None => Ok(t),
            },
            AttrId::FontSize => match length_value(a.value) {
                Option::Some(Ok(v)) => Ok(TextAttrs { height: v, ..t }),
                Option::Some(Err(x)) => Err(x),
                Option::None => Ok(t),
            },
            AttrId::TextAnchor => match a.value {
                AttrValue::Str(s) => Ok(TextAttrs { halign: anchor_align(s@), ..t }),
                _ => Ok(t),
            },
            AttrId::DominantBaseline => match a.value {
                AttrValue::Str(s) => Ok(TextAttrs { valign: baseline_align(s@), ..t }),
                _ => Ok(t),
            },
            _ => Ok(t),
        },
    }
}

/// The text attributes that the first `n` attributes set, or the first failure.
pub open spec fn text_scan(attrs: Seq<Attribute>, n: nat) -> Result<TextAttrs, SvgError>
    decreases n,
{
    if n == 0 {
        Ok(blank_text())
    } else {
        match text_scan(attrs, (n - 1) as nat) {
            Ok(t) => text_step(t, attrs[n - 1]),
            Err(x) => Err(x),
        }
    }
}

proof fn lemma_text_scan_stops(attrs: Seq<Attribute>, k: nat, n: nat, x: SvgError)
    requires
        k <= n,
        text_scan(attrs, k) == Err::<TextAttrs, SvgError>(x),
    ensures
        text_scan(attrs, n) == Err::<TextAttrs, SvgError>(x),
    decreases n - k,
{
    if k < n {
        lemma_text_scan_stops(attrs, k, (n - 1) as nat, x);
    }
}

/// The text attributes that an attribute set describes.
pub open spec fn text_attrs_of(attrs: Seq<Attribute>) -> Result<TextAttrs, SvgError> {
    text_scan(attrs, attrs.len())
}

fn text_apply(t: &mut TextAttrs, a: &Attribute) -> (r: Result<(), SvgError>)
    ensures
        match text_step(*old(t), *a) {
            Ok(n) => r is Ok && *final(t) == n,
            Err(x) => r == Err::<(), SvgError>(x),
        },
{
    match a.id {
        None => Err(SvgError::InvalidAttribute),
        Some(id) => match id {
            AttrId::X | AttrId::Y | AttrId::FontSize => {
                let slot = match id {
                    AttrId::FontSize => read_length(&a.value),
                    _ => read_first_length(&a.value),
                };
                match slot {
                    Some(Err(x)) => Err(x),
                    Some(Ok(v)) => {
                        match id {
                            AttrId::X => { t.x = v; },
                            AttrId::Y => { t.y = v; },
                            _ => { t.height = v; },
                        }
                        Ok(())
                    },
                    None => Ok(()),
                }
            },
            AttrId::TextAnchor => {
                if let AttrValue::Str(s) = &a.value {
                    t.halign = read_anchor(s);
                }
                Ok(())
            },
            AttrId::DominantBaseline => {
                if let AttrValue::Str(s) = &a.value {
                    t.valign = read_baseline(s);
                }
                Ok(())
            },
            _ => Ok(()),
        },
    }
}

/// Reads the position, size and alignment of a text element; of a list of
/// positions only the first counts.
pub fn to_text(attrs: &Vec<Attribute>) -> (r: Result<TextAttrs, SvgError>)
    ensures
        r == text_attrs_of(attrs@),
{
    let mut t = TextAttrs { x: 0, y: 0, height: 0, halign: HAlign::Left, valign: VAlign::Bottom };
    let mut i: usize = 0;
    while i < attrs.len()
        invariant
            i <= attrs@.len(),
            text_scan(attrs@, i as nat) == Ok::<TextAttrs, SvgError>(t),
        decreases attrs@.len() - i,
    {
        let ghost t0 = t;
        let res = text_apply(&mut t, &attrs[i]);
        assert(text_scan(attrs@, (i + 1) as nat) == text_step(t0, attrs@[i as int]));
        if let Err(x) = res {
            proof {
                lemma_text_scan_stops(attrs@, (i + 1) as nat, attrs@.len(), x);
            }
            return Err(x);
        }
        i = i + 1;
    }
    Ok(t)
}

} // verus!
