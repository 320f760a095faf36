use qeda_svg::{
    to_elements, AttrId, AttrValue, Attribute, ElementId, HAlign, Length, LengthUnit, PathSegment,
    SvgElement, SvgError, SvgHash, SvgNode, VAlign, FIXED_ONE,
};

fn mm(v: i64) -> Length {
    Length { num: v * FIXED_ONE, unit: LengthUnit::Mm }
}

fn attr(id: AttrId, value: AttrValue) -> Attribute {
    Attribute { id: Some(id), value }
}

fn element(tag: ElementId, id: &str, attributes: Vec<Attribute>, children: Vec<SvgNode>) -> SvgNode {
    SvgNode {
        tag: Some(tag),
        is_text: false,
        id: id.to_string(),
        text: String::new(),
        attributes,
        children,
    }
}

fn text_node(s: &str) -> SvgNode {
    SvgNode {
        tag: None,
        is_text: true,
        id: String::new(),
        text: s.to_string(),
        attributes: vec![],
        children: vec![],
    }
}

fn root(children: Vec<SvgNode>) -> SvgNode {
    element(ElementId::Other, "", vec![], children)
}

fn path(id: &str, segs: Vec<PathSegment>, width: i64) -> SvgNode {
    element(
        ElementId::Path,
        id,
        vec![
            attr(AttrId::D, AttrValue::Path(segs)),
            attr(AttrId::StrokeWidth, AttrValue::Length(mm(width))),
        ],
        vec![],
    )
}

fn mv(x: i64, y: i64) -> PathSegment {
    PathSegment::MoveTo { abs: true, x: x * FIXED_ONE, y: y * FIXED_ONE }
}

fn ln(x: i64, y: i64) -> PathSegment {
    PathSegment::LineTo { abs: true, x: x * FIXED_ONE, y: y * FIXED_ONE }
}

fn keys(h: &SvgHash) -> Vec<String> {
    h.keys().cloned().collect()
}

#[test]
fn two_points_on_a_horizontal_make_an_hline() {
    let doc = root(vec![path("a", vec![mv(0, 0), ln(5, 0)], 1)]);
    let h = to_elements(&doc).unwrap();
    match h.get("a").unwrap() {
        SvgElement::HLine(l) => {
            assert_eq!(l.x0, 0);
            assert_eq!(l.x1, 5 * FIXED_ONE);
            assert_eq!(l.y, 0);
            assert_eq!(l.width, FIXED_ONE);
        }
        other => panic!("expected a horizontal line, got {:?}", other),
    }
}

#[test]
fn two_points_on_a_vertical_make_a_vline() {
    let doc = root(vec![path("a", vec![mv(0, 0), ln(0, 5)], 1)]);
    let h = to_elements(&doc).unwrap();
    match h.get("a").unwrap() {
        SvgElement::VLine(l) => {
            assert_eq!(l.x, 0);
            assert_eq!(l.y0, 0);
            assert_eq!(l.y1, 5 * FIXED_ONE);
            assert_eq!(l.width, FIXED_ONE);
        }
        other => panic!("expected a vertical line, got {:?}", other),
    }
}

#[test]
fn two_points_otherwise_make_a_line() {
    let doc = root(vec![path("a", vec![mv(0, 0), ln(5, 3)], 1)]);
    let h = to_elements(&doc).unwrap();
    match h.get("a").unwrap() {
        SvgElement::Line(l) => {
            assert_eq!((l.p.0.x, l.p.0.y), (0, 0));
            assert_eq!((l.p.1.x, l.p.1.y), (5 * FIXED_ONE, 3 * FIXED_ONE));
            assert!(!l.p.0.marker && !l.p.1.marker);
        }
        other => panic!("expected a line, got {:?}", other),
    }
}

#[test]
fn relative_commands_follow_the_cursor() {
    let segs = vec![
        PathSegment::MoveTo { abs: true, x: FIXED_ONE, y: FIXED_ONE },
        PathSegment::LineTo { abs: false, x: 2 * FIXED_ONE, y: 0 },
        PathSegment::VerticalLineTo { abs: false, y: 3 * FIXED_ONE },
        PathSegment::Other,
        PathSegment::HorizontalLineTo { abs: true, x: 0 },
    ];
    let doc = root(vec![path("p", segs, 1)]);
    let h = to_elements(&doc).unwrap();
    match h.get("p").unwrap() {
        SvgElement::Polygon(g) => {
            let pts: Vec<(i64, i64)> = g.p.iter().map(|p| (p.x, p.y)).collect();
            assert_eq!(
                pts,
                vec![
                    (FIXED_ONE, FIXED_ONE),
                    (3 * FIXED_ONE, FIXED_ONE),
                    (3 * FIXED_ONE, 4 * FIXED_ONE),
                    (0, 4 * FIXED_ONE)
                ]
            );
            assert!(g.filled);
            assert_eq!(g.line_width, FIXED_ONE);
        }
        other => panic!("expected a polygon, got {:?}", other),
    }
}

#[test]
fn unnamed_paths_get_synthetic_ids_in_order() {
    let doc = root(vec![
        path("", vec![mv(0, 0), ln(5, 0)], 1),
        path("named", vec![mv(0, 0), ln(5, 0)], 1),
        path("", vec![mv(0, 0), ln(0, 5)], 1),
    ]);
    let h = to_elements(&doc).unwrap();
    assert_eq!(keys(&h), vec!["0".to_string(), "named".to_string(), "1".to_string()]);
}

#[test]
fn definitions_are_skipped() {
    let inner_rect = element(
        ElementId::Rect,
        "r",
        vec![attr(AttrId::Width, AttrValue::Length(mm(2)))],
        vec![],
    );
    let defs = element(
        ElementId::Defs,
        "",
        vec![],
        vec![
            path("hidden", vec![mv(0, 0), ln(5, 0)], 1),
            inner_rect,
            element(ElementId::Ellipse, "e", vec![], vec![]),
            element(ElementId::Text, "t", vec![], vec![text_node("x")]),
        ],
    );
    let doc = root(vec![defs, path("shown", vec![mv(0, 0), ln(5, 0)], 1)]);
    let h = to_elements(&doc).unwrap();
    assert_eq!(keys(&h), vec!["shown".to_string()]);
    assert!(matches!(h.get("shown"), Some(SvgElement::HLine(_))));
}

#[test]
fn rect_and_ellipse_read_their_attributes() {
    let rect = element(
        ElementId::Rect,
        "r",
        vec![
            attr(AttrId::X, AttrValue::Length(mm(1))),
            attr(AttrId::Y, AttrValue::Length(mm(2))),
            attr(AttrId::Width, AttrValue::Length(mm(3))),
            attr(AttrId::Height, AttrValue::Length(mm(4))),
            attr(AttrId::Fill, AttrValue::NoneKeyword),
            attr(AttrId::Other, AttrValue::Other),
        ],
        vec![],
    );
    let ellipse = element(
        ElementId::Ellipse,
        "e",
        vec![
            attr(AttrId::Cx, AttrValue::Length(mm(5))),
            attr(AttrId::Cy, AttrValue::Length(mm(6))),
            attr(AttrId::Rx, AttrValue::Length(mm(7))),
            attr(AttrId::Ry, AttrValue::Length(mm(8))),
            attr(AttrId::StrokeWidth, AttrValue::Length(Length { num: 72 * FIXED_ONE, unit: LengthUnit::Pt })),
        ],
        vec![],
    );
    let h = to_elements(&root(vec![rect, ellipse])).unwrap();
    match h.get("r").unwrap() {
        SvgElement::Rect(r) => {
            assert_eq!((r.x, r.y, r.width, r.height), (FIXED_ONE, 2 * FIXED_ONE, 3 * FIXED_ONE, 4 * FIXED_ONE));
            assert!(!r.filled);
        }
        other => panic!("expected a rectangle, got {:?}", other),
    }
    match h.get("e").unwrap() {
        SvgElement::Ellipse(e) => {
            assert_eq!((e.cx, e.cy, e.rx, e.ry), (5 * FIXED_ONE, 6 * FIXED_ONE, 7 * FIXED_ONE, 8 * FIXED_ONE));
            assert_eq!(e.line_width, 25_400_000);
            assert!(e.filled);
        }
        other => panic!("expected an ellipse, got {:?}", other),
    }
}

#[test]
fn unnamed_rects_share_the_empty_key() {
    let r1 = element(ElementId::Rect, "", vec![attr(AttrId::X, AttrValue::Length(mm(1)))], vec![]);
    let r2 = element(ElementId::Rect, "", vec![attr(AttrId::X, AttrValue::Length(mm(2)))], vec![]);
    let h = to_elements(&root(vec![r1, r2])).unwrap();
    assert_eq!(h.len(), 1);
    match h.get("").unwrap() {
        SvgElement::Rect(r) => assert_eq!(r.x, 2 * FIXED_ONE),
        other => panic!("expected a rectangle, got {:?}", other),
    }
}

#[test]
fn text_takes_span_position_and_text() {
    let span = element(
        ElementId::Tspan,
        "",
        vec![
            attr(AttrId::X, AttrValue::LengthList(vec![mm(3), mm(9)])),
            attr(AttrId::Y, AttrValue::LengthList(vec![mm(4)])),
            attr(AttrId::TextAnchor, AttrValue::Str("end".to_string())),
        ],
        vec![text_node("R1")],
    );
    let text = element(
        ElementId::Text,
        "t",
        vec![
            attr(AttrId::X, AttrValue::LengthList(vec![mm(1)])),
            attr(AttrId::FontSize, AttrValue::Length(mm(2))),
            attr(AttrId::TextAnchor, AttrValue::Str("middle".to_string())),
            attr(AttrId::DominantBaseline, AttrValue::Str("text-before-edge".to_string())),
        ],
        vec![span],
    );
    let h = to_elements(&root(vec![text])).unwrap();
    match h.get("t").unwrap() {
        SvgElement::Text(t) => {
            assert_eq!((t.x, t.y, t.height), (3 * FIXED_ONE, 4 * FIXED_ONE, 2 * FIXED_ONE));
            assert_eq!(t.text, "R1");
            assert_eq!(t.halign, HAlign::Right);
            assert_eq!(t.valign, VAlign::Top);
        }
        other => panic!("expected a text, got {:?}", other),
    }
}

#[test]
fn text_takes_a_direct_text_child() {
    let text = element(
        ElementId::Text,
        "t",
        vec![attr(AttrId::TextAnchor, AttrValue::Str("middle".to_string()))],
        vec![text_node("C5")],
    );
    let h = to_elements(&root(vec![text])).unwrap();
    match h.get("t").unwrap() {
        SvgElement::Text(t) => {
            assert_eq!(t.text, "C5");
            assert_eq!(t.halign, HAlign::Center);
            assert_eq!(t.valign, VAlign::Bottom);
        }
        other => panic!("expected a text, got {:?}", other),
    }
}

#[test]
fn unsupported_unit_aborts_the_import() {
    let rect = element(
        ElementId::Rect,
        "r",
        vec![attr(AttrId::Width, AttrValue::Length(Length { num: 10 * FIXED_ONE, unit: LengthUnit::In }))],
        vec![],
    );
    let doc = root(vec![path("a", vec![mv(0, 0), ln(5, 0)], 1), rect]);
    assert_eq!(to_elements(&doc).err(), Some(SvgError::UnsupportedUnits(LengthUnit::In)));
}

#[test]
fn unresolved_attribute_aborts_the_import() {
    let ellipse = element(
        ElementId::Ellipse,
        "e",
        vec![Attribute { id: None, value: AttrValue::Other }],
        vec![],
    );
    assert_eq!(to_elements(&root(vec![ellipse])).err(), Some(SvgError::InvalidAttribute));
}

#[test]
fn empty_position_list_is_invalid() {
    let text = element(ElementId::Text, "t", vec![attr(AttrId::X, AttrValue::LengthList(vec![]))], vec![]);
    assert_eq!(to_elements(&root(vec![text])).err(), Some(SvgError::InvalidAttribute));
}

#[test]
fn cursor_overflow_is_out_of_range() {
    let segs = vec![
        PathSegment::MoveTo { abs: true, x: i64::MAX, y: 0 },
        PathSegment::HorizontalLineTo { abs: false, x: 1 },
    ];
    assert_eq!(to_elements(&root(vec![path("a", segs, 1)])).err(), Some(SvgError::OutOfRange));
}

#[test]
fn importing_twice_gives_the_same_collection() {
    let make = || {
        root(vec![
            path("", vec![mv(0, 0), ln(5, 0)], 1),
            path("", vec![mv(0, 0), ln(5, 3), ln(1, 1)], 1),
            element(ElementId::Rect, "r", vec![attr(AttrId::X, AttrValue::Length(mm(1)))], vec![]),
        ])
    };
    let a = to_elements(&make()).unwrap();
    let b = to_elements(&make()).unwrap();
    assert_eq!(keys(&a), keys(&b));
    assert_eq!(format!("{:?}", a), format!("{:?}", b));
}
