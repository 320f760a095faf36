use vstd::prelude::*;

use crate::attributes::{fill_value, length_value, read_fill, read_length, AttrId, AttrValue, Attribute, PathSegment};
use crate::error::SvgError;
use crate::shapes::{SvgPoint, SvgPolygon};

verus! {

/// What reading a path has gathered so far: its points, the cursor and the style.
pub struct PathModel {
    pub points: Seq<SvgPoint>,
    pub x: i64,
    pub y: i64,
    pub line_width: i64,
    pub filled: bool,
}

/// Whether an integer fits the fixed-point range.
pub open spec fn fits(v: int) -> bool {
    i64::MIN <= v <= i64::MAX
}

/// The cursor moved to `(x, y)`, appending that point.
pub open spec fn move_cursor(st: PathModel, x: int, y: int) -> Result<PathModel, SvgError> {
    if fits(x) && fits(y) {
        Ok(PathModel {
            points: st.points.push(SvgPoint { x: x as i64, y: y as i64, marker: false }),
            x: x as i64,
            y: y as i64,
            ..st
        })
    } else {
        Err(SvgError::OutOfRange)
    }
}

/// One path command applied: absolute commands set the cursor, relative ones
/// add to it; commands other than moves and lines are dropped.
pub open spec fn segment_step(st: PathModel, seg: PathSegment) -> Result<PathModel, SvgError> {
    match seg {
        PathSegment::MoveTo { abs, x, y } => if abs {
            move_cursor(st, x as int, y as int)
        } else {
            move_cursor(st, st.x + x, st.y + y)
        },
        PathSegment::LineTo { abs, x, y } => if abs {
            move_cursor(st, x as int, y as int)
        } else {
            move_cursor(st, st.x + x, st.y + y)
        },
        PathSegment::HorizontalLineTo { abs, x } => if abs {
            move_cursor(st, x as int, st.y as int)
        } else {
            move_cursor(st, st.x + x, st.y as int)
        },
        PathSegment::VerticalLineTo { abs, y } => if abs {
            move_cursor(st, st.x as int, y as int)
        } else {
            move_cursor(st, st.x as int, st.y + y)
        },
        PathSegment::Other => Ok(st),
    }
}

/// The first `n` commands applied, stopping at the first failure.
pub open spec fn segment_scan(segs: Seq<PathSegment>, n: nat, st: PathModel) -> Result<PathModel, SvgError>
    decreases n,
{
    if n == 0 {
        Ok(st)
    } else {
        match segment_scan(segs, (n - 1) as nat, st) {
            Ok(s) => segment_step(s, segs[n - 1]),
            Err(x) => Err(x),
        }
    }
}

proof fn lemma_segment_scan_stops(segs: Seq<PathSegment>, k: nat, n: nat, st: PathModel, x: SvgError)
    requires
        k <= n,
        segment_scan(segs, k, st) == Err::<PathModel, SvgError>(x),
    ensures
        segment_scan(segs, n, st) == Err::<PathModel, SvgError>(x),
    decreases n - k,
{
    if k < n {
        lemma_segment_scan_stops(segs, k, (n - 1) as nat, st, x);
    }
}

/// One attribute applied to a path being read; the cursor carries over from
/// one path-data attribute to the next.
pub open spec fn path_attr_step(st: PathModel, a: Attribute) -> Result<PathModel, SvgError> {
    match a.id {
        Option::None => Err(SvgError::InvalidAttribute),
        Option::Some(id) => match id {
            AttrId::D => match a.value {
                AttrValue::Path(segs) => segment_scan(segs@, segs@.len(), st),
                _ => Ok(st),
            },
            AttrId::StrokeWidth => match length_value(a.value) {
                Option::Some(Ok(v)) => Ok(PathModel { line_width: v, ..st }),
                Option::Some(Err(x)) => Err(x),
                Option::None => Ok(st),
            },
            AttrId::Fill => Ok(PathModel { filled: fill_value(a.value), ..st }),
            _ => Ok(st),
        },
    }
}

/// Nothing read yet: no points, the cursor at the origin, filled.
pub open spec fn blank_path() -> PathModel {
    PathModel { points: Seq::empty(), x: 0, y: 0, line_width: 0, filled: true }
}

/// The path that the first `n` attributes describe, or the first failure.
pub open spec fn path_scan(attrs: Seq<Attribute>, n: nat) -> Result<PathModel, SvgError>
    decreases n,
{
    if n == 0 {
        Ok(blank_path())
    } else {
        match path_scan(attrs, (n - 1) as nat) {
            Ok(s) => path_attr_step(s, attrs[n - 1]),
            Err(x) => Err(x),
        }
    }
}

proof fn lemma_path_scan_stops(attrs: Seq<Attribute>, k: nat, n: nat, x: SvgError)
    requires
        k <= n,
        path_scan(attrs, k) == Err::<PathModel, SvgError>(x),
    ensures
        path_scan(attrs, n) == Err::<PathModel, SvgError>(x),
    decreases n - k,
{
    if k < n {
        lemma_path_scan_stops(attrs, k, (n - 1) as nat, x);
    }
}

/// The path that an attribute set describes.
pub open spec fn path_of(attrs: Seq<Attribute>) -> Result<PathModel, SvgError> {
    path_scan(attrs, attrs.len())
}

/// Whether a polygon holds what a path model holds.
pub open spec fn polygon_matches(p: SvgPolygon, m: PathModel) -> bool {
    p.p@ == m.points && p.line_width == m.line_width && p.filled == m.filled
}

struct PathBuilder {
    points: Vec<SvgPoint>,
    x: i64,
    y: i64,
    line_width: i64,
    filled: bool,
}

impl PathBuilder {
    spec fn model(&self) -> PathModel {
        PathModel {
            points: self.points@,
            x: self.x,
            y: self.y,
            line_width: self.line_width,
            filled: self.filled,
        }
    }

    fn move_to(&mut self, x: Option<i64>, y: Option<i64>) -> (r: Result<(), SvgError>)
        ensures
            (x is Some && y is Some) ==> match move_cursor(old(self).model(), x->Some_0 as int, y->Some_0 as int) {
                Ok(m) => r is Ok && final(self).model() == m,
                Err(e) => r == Err::<(), SvgError>(e),
            },
            (x is None || y is None) ==> r == Err::<(), SvgError>(SvgError::OutOfRange),
    {
        match (x, y) {
            (Some(x), Some(y)) => {
                self.points.push(SvgPoint { x, y, marker: false });
                self.x = x;
                self.y = y;
                Ok(())
            },
            _ => Err(SvgError::OutOfRange),
        }
    }

    fn apply_segment(&mut self, seg: &PathSegment) -> (r: Result<(), SvgError>)
        ensures
            match segment_step(old(self).model(), *seg) {
                Ok(m) => r is Ok && final(self).model() == m,
                Err(e) => r == Err::<(), SvgError>(e),
            },
    {
        match *seg {
            PathSegment::MoveTo { abs, x, y } | PathSegment::LineTo { abs, x, y } => {
                if abs {
                    self.move_to(Some(x), Some(y))
                } else {
                    let nx = x.checked_add(self.x);
                    let ny = y.checked_add(self.y);
                    self.move_to(nx, ny)
                }
            },
            PathSegment::HorizontalLineTo { abs, x } => {
                let cy = self.y;
                if abs {
                    self.move_to(Some(x), Some(cy))
                } else {
                    let nx = x.checked_add(self.x);
                    self.move_to(nx, Some(cy))
                }
            },
            PathSegment::VerticalLineTo { abs, y } => {
                let cx = self.x;
                if abs {
                    self.move_to(Some(cx), Some(y))
                } else {
                    let ny = y.checked_add(self.y);
                    self.move_to(Some(cx), ny)
                }
            },
            PathSegment::Other => Ok(()),
        }
    }

    fn apply_segments(&mut self, segs: &Vec<PathSegment>) -> (r: Result<(), SvgError>)
        ensures
            match segment_scan(segs@, segs@.len(), old(self).model()) {
                Ok(m) => r is Ok && final(self).model() == m,
                Err(e) => r == Err::<(), SvgError>(e),
            },
    {
        let ghost st = self.model();
        let mut i: usize = 0;
        while i < segs.len()
            invariant
                i <= segs@.len(),
                st == old(self).model(),
                segment_scan(segs@, i as nat, st) == Ok::<PathModel, SvgError>(self.model()),
            decreases segs@.len() - i,
        {
            let ghost m0 = self.model();
            let res = self.apply_segment(&segs[i]);
            assert(segment_scan(segs@, (i + 1) as nat, st) == segment_step(m0, segs@[i as int]));
            if let Err(x) = res {
                proof {
                    lemma_segment_scan_stops(segs@, (i + 1) as nat, segs@.len(), st, x);
                }
                return Err(x);
            }
            i = i + 1;
        }
        Ok(())
    }

    fn apply_attribute(&mut self, a: &Attribute) -> (r: Result<(), SvgError>)
        ensures
            match path_attr_step(old(self).model(), *a) {
                Ok(m) => r is Ok && final(self).model() == m,
                Err(e) => r == Err::<(), SvgError>(e),
            },
    {
        match a.id {
            None => Err(SvgError::InvalidAttribute),
            Some(AttrId::D) => match &a.value {
                AttrValue::Path(segs) => self.apply_segments(segs),
                _ => Ok(()),
            },
            Some(AttrId::StrokeWidth) => match read_length(&a.value) {
                Some(Err(x)) => Err(x),
                Some(Ok(v)) => {
                    self.line_width = v;
                    Ok(())
                },
                None => Ok(()),
            },
            Some(AttrId::Fill) => {
                self.filled = read_fill(&a.value);
                Ok(())
            },
            Some(_) => Ok(()),
        }
    }
}

/// Reads the points and style of a path element. Only moves and straight
/// lines are kept; each of them adds one point.
pub fn to_polygon(attrs: &Vec<Attribute>) -> (r: Result<SvgPolygon, SvgError>)
    ensures
        match path_of(attrs@) {
            Ok(m) => r is Ok && polygon_matches(r->Ok_0, m),
            Err(e) => r == Err::<SvgPolygon, SvgError>(e),
        },
{
    let mut b = PathBuilder { points: Vec::new(), x: 0, y: 0, line_width: 0, filled: true };
    assert(b.model() == blank_path());
    let mut i: usize = 0;
    while i < attrs.len()
        invariant
            i <= attrs@.len(),
            path_scan(attrs@, i as nat) == Ok::<PathModel, SvgError>(b.model()),
        decreases attrs@.len() - i,
    {
        let ghost m0 = b.model();
        let res = b.apply_attribute(&attrs[i]);
        assert(path_scan(attrs@, (i + 1) as nat) == path_attr_step(m0, attrs@[i as int]));
        if let Err(x) = res {
            proof {
                lemma_path_scan_stops(attrs@, (i + 1) as nat, attrs@.len(), x);
            }
            return Err(x);
        }
        i = i + 1;
    }
    Ok(SvgPolygon { p: b.points, line_width: b.line_width, filled: b.filled })
}

} // verus!
