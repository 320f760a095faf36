use vstd::prelude::*;

use crate::attributes::{
    ellipse_of, rect_of, text_attrs_of, to_ellipse, to_rect, to_text, Attribute, TextAttrs,
};
use crate::element_map::{entries_insert, svg_hash_entries, svg_hash_insert, svg_hash_new, SvgHash};
use crate::error::SvgError;
use crate::path::{path_of, polygon_matches, to_polygon};
use crate::shapes::{ElementView, SvgElement, SvgHLine, SvgLine, SvgPoint, SvgPolygon, SvgText, SvgVLine};

verus! {

/// The kinds of element that the import tells apart.
#[derive(Debug, Clone, Copy, PartialEq, Eq)]
pub enum ElementId {
    Defs,
    Path,
    Rect,
    Ellipse,
    Text,
    Tspan,
    Other,
}

/// A node of a parsed document. An element node has a `tag`; a text node
/// has none, `is_text` set, and its characters in `text`.
#[derive(Debug)]
pub struct SvgNode {
    pub tag: Option<ElementId>,
    pub is_text: bool,
    pub id: String,
    pub text: String,
    pub attributes: Vec<Attribute>,
    pub children: Vec<SvgNode>,
}

/// The character of a decimal digit.
pub open spec fn digit_char(d: nat) -> char {
    if d == 0 { '0' }
    else if d == 1 { '1' }
    else if d == 2 { '2' }
    else if d == 3 { '3' }
    else if d == 4 { '4' }
    else if d == 5 { '5' }
    else if d == 6 { '6' }
    else if d == 7 { '7' }
    else if d == 8 { '8' }
    else { '9' }
}

/// The decimal digits of a number, without leading zeros.
pub open spec fn decimal(n: nat) -> Seq<char>
    decreases n,
{
    if n < 10 {
        seq![digit_char(n)]
    } else {
        decimal(n / 10).push(digit_char(n % 10))
    }
}

/// Relies on `usize`'s `to_string`, which writes a number in decimal.
#[verifier::external_body]
fn decimal_text(n: usize) -> (r: String)
    ensures
        r@ == decimal(n as nat),
{
    n.to_string()
}

/// What an import has gathered: the entries so far and the next synthetic id.
pub struct WalkState {
    pub entries: Seq<(Seq<char>, ElementView)>,
    pub counter: nat,
}

/// The element that a path becomes: two points on one horizontal make a
/// horizontal line, else two on one vertical a vertical line, else two points
/// a line; any other number of points a polygon.
pub open spec fn classify(points: Seq<SvgPoint>, line_width: i64, filled: bool) -> ElementView {
    if points.len() == 2 {
        let a = points[0];
        let b = points[1];
        if a.y == b.y {
            ElementView::HLine(SvgHLine { x0: a.x, x1: b.x, y: a.y, width: line_width })
        } else if a.x == b.x {
            ElementView::VLine(SvgVLine { x: a.x, y0: a.y, y1: b.y, width: line_width })
        } else {
            ElementView::Line(SvgLine { p: (a, b), width: line_width })
        }
    } else {
        ElementView::Polygon { p: points, line_width, filled }
    }
}

/// The text of the last text node among the first `n` nodes, else `cur`.
pub open spec fn last_text(nodes: Seq<SvgNode>, n: nat, cur: Seq<char>) -> Seq<char>
    decreases n,
{
    if n == 0 {
        cur
    } else if nodes[n - 1].is_text {
        nodes[n - 1].text@
    } else {
        last_text(nodes, (n - 1) as nat, cur)
    }
}

/// A text element after its first `n` children: a span child sets the
/// position and horizontal alignment, and the text of the last text node in
/// it; a text child sets the text.
pub open spec fn text_children_scan(
    children: Seq<SvgNode>,
    n: nat,
    t: TextAttrs,
    s: Seq<char>,
) -> Result<(TextAttrs, Seq<char>), SvgError>
    decreases n,
{
    if n == 0 {
        Ok((t, s))
    } else {
        match text_children_scan(children, (n - 1) as nat, t, s) {
            Err(x) => Err(x),
            Ok((t1, s1)) => {
                let c = children[n - 1];
                if c.tag == Some(ElementId::Tspan) {
                    match text_attrs_of(c.attributes@) {
                        Err(x) => Err(x),
                        Ok(sp) => Ok((
                            TextAttrs { x: sp.x, y: sp.y, halign: sp.halign, ..t1 },
                            last_text(c.children@, c.children@.len(), s1),
                        )),
                    }
                } else if c.is_text {
                    Ok((t1, c.text@))
                } else {
                    Ok((t1, s1))
                }
            },
        }
    }
}

/// The text element that a text node describes.
pub open spec fn text_element(node: SvgNode) -> Result<ElementView, SvgError> {
    match text_attrs_of(node.attributes@) {
        Err(x) => Err(x),
        Ok(t) => match text_children_scan(node.children@, node.children@.len(), t, node.text@) {
            Err(x) => Err(x),
            Ok((t1, s)) => Ok(ElementView::Text {
                x: t1.x,
                y: t1.y,
                height: t1.height,
                text: s,
                halign: t1.halign,
                valign: t1.valign,
            }),
        },
    }
}

/// What a node itself adds, without its children. A path without an id gets
/// the next synthetic one; rectangles, ellipses and texts keep theirs.
pub open spec fn visit(node: SvgNode, st: WalkState) -> Result<WalkState, SvgError> {
    match node.tag {
        Some(ElementId::Path) => {
            let synthetic = node.id@.len() == 0;
            let key = if synthetic { decimal(st.counter) } else { node.id@ };
            let counter = if synthetic { st.counter + 1 } else { st.counter };
            if counter > usize::MAX {
                Err(SvgError::OutOfRange)
            } else {
                match path_of(node.attributes@) {
                    Err(x) => Err(x),
                    Ok(m) => Ok(WalkState { entries: entries_insert(st.entries, key, classify(m.points, m.line_width, m.filled)), counter }),
                }
            }
        },
        Some(ElementId::Rect) => match rect_of(node.attributes@) {
            Err(x) => Err(x),
            Ok(r) => Ok(WalkState { entries: entries_insert(st.entries, node.id@, ElementView::Rect(r)), ..st }),
        },
        Some(ElementId::Ellipse) => match ellipse_of(node.attributes@) {
            Err(x) => Err(x),
            Ok(e) => Ok(WalkState { entries: entries_insert(st.entries, node.id@, ElementView::Ellipse(e)), ..st }),
        },
        Some(ElementId::Text) => match text_element(node) {
            Err(x) => Err(x),
            Ok(t) => Ok(WalkState { entries: entries_insert(st.entries, node.id@, t), ..st }),
        },
        _ => Ok(st),
    }
}

/// A depth-first, pre-order walk: a definitions node and all below it are
/// skipped; every other node is visited, then its children in order.
pub open spec fn walk(node: SvgNode, st: WalkState) -> Result<WalkState, SvgError>
    decreases node, 1nat, 0nat,
{
    if node.tag == Some(ElementId::Defs) {
        Ok(st)
    } else {
        match visit(node, st) {
            Err(x) => Err(x),
            Ok(s1) => walk_children(node, node.children@.len(), s1),
        }
    }
}

/// The walk over the first `n` children of a node.
pub open spec fn walk_children(node: SvgNode, n: nat, st: WalkState) -> Result<WalkState, SvgError>
    decreases node, 0nat, n,
{
    if n == 0 || n > node.children@.len() {
        Ok(st)
    } else {
        match walk_children(node, (n - 1) as nat, st) {
            Err(x) => Err(x),
            Ok(s) => walk(node.children@[n - 1], s),
        }
    }
}

/// The state that an import starts from.
pub open spec fn start() -> WalkState {
    WalkState { entries: Seq::empty(), counter: 0 }
}

/// The import of a whole document.
pub open spec fn import(root: SvgNode) -> Result<Seq<(Seq<char>, ElementView)>, SvgError> {
    match walk(root, start()) {
        Ok(s) => Ok(s.entries),
        Err(x) => Err(x),
    }
}

/// Importing the same document twice gives the same entries, in the same
/// order, with the same synthetic ids: the import depends on the document alone.
pub proof fn lemma_import_deterministic(a: SvgNode, b: SvgNode)
    requires
        a == b,
    ensures
        import(a) == import(b),
{
}

/// A definitions node contributes nothing, whatever lies below it.
pub proof fn lemma_defs_skipped(node: SvgNode, st: WalkState)
    requires
        node.tag == Some(ElementId::Defs),
    ensures
        walk(node, st) == Ok::<WalkState, SvgError>(st),
{
}

/// A path of exactly two points is never kept as a polygon: it becomes a
/// horizontal line when the ordinates agree, else a vertical line when the
/// abscissas agree, else a line.
pub proof fn lemma_two_points_make_a_line(points: Seq<SvgPoint>, line_width: i64, filled: bool)
    requires
        points.len() == 2,
    ensures
        !(classify(points, line_width, filled) is Polygon),
        points[0].y == points[1].y ==> classify(points, line_width, filled) is HLine,
        points[0].y != points[1].y && points[0].x == points[1].x ==> classify(points, line_width, filled) is VLine,
        points[0].y != points[1].y && points[0].x != points[1].x ==> classify(points, line_width, filled) is Line,
{
}

/// The synthetic-id counter never goes back: an unnamed path takes the
/// current count as its id and raises it by one, and nothing else lowers it,
/// so synthetic ids come out in strictly increasing order.
pub proof fn lemma_walk_counter_grows(node: SvgNode, st: WalkState)
    ensures
        walk(node, st) is Ok ==> walk(node, st)->Ok_0.counter >= st.counter,
    decreases node, 1nat, 0nat,
{
    if node.tag != Some(ElementId::Defs) {
        if let Ok(s1) = visit(node, st) {
            lemma_walk_children_counter_grows(node, node.children@.len(), s1);
        }
    }
}

/// The counter never goes back over the first `n` children of a node.
pub proof fn lemma_walk_children_counter_grows(node: SvgNode, n: nat, st: WalkState)
    ensures
        walk_children(node, n, st) is Ok ==> walk_children(node, n, st)->Ok_0.counter >= st.counter,
    decreases node, 0nat, n,
{
    if n > 0 && n <= node.children@.len() {
        lemma_walk_children_counter_grows(node, (n - 1) as nat, st);
        if let Ok(s) = walk_children(node, (n - 1) as nat, st) {
            lemma_walk_counter_grows(node.children@[n - 1], s);
        }
    }
}

proof fn lemma_text_scan_stops(children: Seq<SvgNode>, k: nat, n: nat, t: TextAttrs, s: Seq<char>, x: SvgError)
    requires
        k <= n,
        text_children_scan(children, k, t, s) == Err::<(TextAttrs, Seq<char>), SvgError>(x),
    ensures
        text_children_scan(children, n, t, s) == Err::<(TextAttrs, Seq<char>), SvgError>(x),
    decreases n - k,
{
    if k < n {
        lemma_text_scan_stops(children, k, (n - 1) as nat, t, s, x);
    }
}

proof fn lemma_walk_children_stops(node: SvgNode, k: nat, n: nat, st: WalkState, x: SvgError)
    requires
        k <= n <= node.children@.len(),
        walk_children(node, k, st) == Err::<WalkState, SvgError>(x),
    ensures
        walk_children(node, n, st) == Err::<WalkState, SvgError>(x),
    decreases n - k,
{
    if k < n {
        lemma_walk_children_stops(node, k, (n - 1) as nat, st, x);
    }
}

/// Turns the points of a path into the element that they describe.
fn classify_polygon(p: SvgPolygon) -> (r: SvgElement)
    ensures
        r.view() == classify(p.p@, p.line_width, p.filled),
{
    if p.p.len() == 2 {
        let a = p.p[0];
        let b = p.p[1];
        if a.y == b.y {
            SvgElement::HLine(SvgHLine { x0: a.x, x1: b.x, y: a.y, width: p.line_width })
        } else if a.x == b.x {
            SvgElement::VLine(SvgVLine { x: a.x, y0: a.y, y1: b.y, width: p.line_width })
        } else {
            SvgElement::Line(SvgLine { p: (a, b), width: p.line_width })
        }
    } else {
        SvgElement::Polygon(p)
    }
}

/// Reads a text element with its spans and text children.
fn text_node(node: &SvgNode) -> (r: Result<SvgText, SvgError>)
    ensures
        match text_element(*node) {
            Ok(v) => r is Ok && SvgElement::Text(r->Ok_0).view() == v,
            Err(x) => r == Err::<SvgText, SvgError>(x),
        },
{
    let t0 = match to_text(&node.attributes) {
        Ok(t) => t,
        Err(x) => {
            return Err(x);
        },
    };
    let mut t = t0;
    let mut s = node.text.clone();
    let mut i: usize = 0;
    while i < node.children.len()
        invariant
            i <= node.children@.len(),
            text_attrs_of(node.attributes@) == Ok::<TextAttrs, SvgError>(t0),
            text_children_scan(node.children@, i as nat, t0, node.text@)
                == Ok::<(TextAttrs, Seq<char>), SvgError>((t, s@)),
        decreases node.children@.len() - i,
    {
        let c = &node.children[i];
        let ghost t1 = t;
        let ghost s1 = s@;
        if let Some(ElementId::Tspan) = c.tag {
            match to_text(&c.attributes) {
                Err(x) => {
                    proof {
                        lemma_text_scan_stops(node.children@, (i + 1) as nat, node.children@.len(), t0, node.text@, x);
                    }
                    return Err(x);
                },
                Ok(sp) => {
                    t.x = sp.x;
                    t.y = sp.y;
                    t.halign = sp.halign;
                },
            }
            let mut j: usize = 0;
            while j < c.children.len()
                invariant
                    j <= c.children@.len(),
                    last_text(c.children@, j as nat, s1) == s@,
                decreases c.children@.len() - j,
            {
                let g = &c.children[j];
                if g.is_text {
                    s = g.text.clone();
                }
                j = j + 1;
            }
        } else if c.is_text {
            s = c.text.clone();
        }
        assert(text_children_scan(node.children@, (i + 1) as nat, t0, node.text@)
            == Ok::<(TextAttrs, Seq<char>), SvgError>((t, s@)));
        i = i + 1;
    }
    Ok(SvgText { x: t.x, y: t.y, height: t.height, text: s, halign: t.halign, valign: t.valign })
}

/// An import in progress: the elements so far and the synthetic-id counter.
struct Svg {
    elements: SvgHash,
    id_counter: usize,
}

impl Svg {
    spec fn model(&self) -> WalkState {
        WalkState { entries: svg_hash_entries(self.elements), counter: self.id_counter as nat }
    }

    fn new() -> (r: Svg)
        ensures
            r.model() == start(),
    {
        Svg { elements: svg_hash_new(), id_counter: 0 }
    }

    /// Adds what a node itself describes.
    fn visit_node(&mut self, node: &SvgNode) -> (r: Result<(), SvgError>)
        ensures
            match visit(*node, old(self).model()) {
                Ok(s) => r is Ok && final(self).model() == s,
                Err(x) => r == Err::<(), SvgError>(x),
            },
    {
        match node.tag {
            Some(ElementId::Path) => {
                let key;
                if node.id.as_str().is_empty() {
                    if self.id_counter == usize::MAX {
                        return Err(SvgError::OutOfRange);
                    }
                    key = decimal_text(self.id_counter);
                    self.id_counter = self.id_counter + 1;
                } else {
                    key = node.id.clone();
                }
                match to_polygon(&node.attributes) {
                    Err(x) => Err(x),
                    Ok(p) => {
                        let e = classify_polygon(p);
                        svg_hash_insert(&mut self.elements, key, e);
                        Ok(())
                    },
                }
            },
            Some(ElementId::Rect) => match to_rect(&node.attributes) {
                Err(x) => Err(x),
                Ok(r) => {
                    svg_hash_insert(&mut self.elements, node.id.clone(), SvgElement::Rect(r));
                    Ok(())
                },
            },
            Some(ElementId::Ellipse) => match to_ellipse(&node.attributes) {
                Err(x) => Err(x),
                Ok(e) => {
                    svg_hash_insert(&mut self.elements, node.id.clone(), SvgElement::Ellipse(e));
                    Ok(())
                },
            },
            Some(ElementId::Text) => match text_node(node) {
                Err(x) => Err(x),
                Ok(t) => {
                    svg_hash_insert(&mut self.elements, node.id.clone(), SvgElement::Text(t));
                    Ok(())
                },
            },
            _ => Ok(()),
        }
    }

    /// Adds what a node and everything below it describe.
    fn add_node(&mut self, node: &SvgNode) -> (r: Result<(), SvgError>)
        ensures
            match walk(*node, old(self).model()) {
                Ok(s) => r is Ok && final(self).model() == s,
                Err(x) => r == Err::<(), SvgError>(x),
            },
        decreases node,
    {
        if let Some(ElementId::Defs) = node.tag {
            return Ok(());
        }
        match self.visit_node(node) {
            Err(x) => {
                return Err(x);
            },
            Ok(()) => {},
        }
        let ghost s1 = self.model();
        let mut i: usize = 0;
        while i < node.children.len()
            invariant
                i <= node.children@.len(),
                node.tag != Some(ElementId::Defs),
                visit(*node, old(self).model()) == Ok::<WalkState, SvgError>(s1),
                walk_children(*node, i as nat, s1) == Ok::<WalkState, SvgError>(self.model()),
            decreases node.children@.len() - i,
        {
            let res = self.add_node(&node.children[i]);
            if let Err(x) = res {
                proof {
                    lemma_walk_children_stops(*node, (i + 1) as nat, node.children@.len(), s1, x);
                }
                return Err(x);
            }
            i = i + 1;
        }
        Ok(())
    }
}

/// Imports the elements of a parsed document: paths, rectangles, ellipses and
/// texts, by id, in document order, with all lengths in millimetres.
pub fn to_elements(root: &SvgNode) -> (r: Result<SvgHash, SvgError>)
    ensures
        match import(*root) {
            Ok(s) => r is Ok && svg_hash_entries(r->Ok_0) == s,
            Err(x) => r == Err::<SvgHash, SvgError>(x),
        },
{
    let mut svg = Svg::new();
    match svg.add_node(root) {
        Ok(()) => Ok(svg.elements),
        Err(x) => Err(x),
    }
}

} // verus!
