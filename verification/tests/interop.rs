use glyphstool::decimal::Decimal;
use glyphstool::error::{ConversionError, ErrorKind};
use glyphstool::font::{Anchor, Component, Font, Glyph, Layer, Node, Path};
use glyphstool::geometry::{Affine, Point};
use glyphstool::interop::{rotate_left_once, rotate_right_once};
use glyphstool::names::is_valid_name;
use glyphstool::node_type::NodeType;
use glyphstool::ops::merge;
use glyphstool::ufo::{Contour, ContourPoint, PointType, UfoAnchor, UfoComponent};

fn dec(text: &str) -> Decimal {
    Decimal::parse(text).expect("a number")
}

fn s(text: &str) -> String {
    text.to_string()
}

fn point(x: &str, typ: PointType, smooth: bool) -> ContourPoint {
    ContourPoint { x: dec(x), y: dec("0"), typ, smooth }
}

fn node(x: &str, node_type: NodeType) -> Node {
    Node { pt: Point::new(dec(x), dec("0")), node_type }
}

#[test]
fn the_start_of_a_closed_contour_goes_to_the_end_and_back() {
    let contour = Contour {
        points: vec![
            point("0", PointType::Line, false),
            point("1", PointType::Line, false),
            point("2", PointType::Line, false),
        ],
    };
    let path = Path::from_contour(&contour);
    assert!(path.closed);
    assert_eq!(
        path.nodes,
        vec![node("1", NodeType::Line), node("2", NodeType::Line), node("0", NodeType::Line)]
    );
    assert_eq!(path.to_contour(), Ok(contour));
    assert_eq!(rotate_left_once(vec![0, 1, 2]), vec![1, 2, 0]);
    assert_eq!(rotate_right_once(vec![1, 2, 0]), vec![0, 1, 2]);
    assert_eq!(rotate_left_once(Vec::<u8>::new()), vec![]);
    assert_eq!(rotate_right_once(Vec::<u8>::new()), vec![]);
    assert_eq!(rotate_left_once(vec![7]), vec![7]);
    assert_eq!(rotate_right_once(vec![7]), vec![7]);
}

#[test]
fn an_open_contour_starts_with_a_move() {
    let contour = Contour {
        points: vec![
            point("0", PointType::Move, false),
            point("1", PointType::OffCurve, false),
            point("2", PointType::Curve, true),
        ],
    };
    let path = Path::from_contour(&contour);
    assert!(!path.closed);
    assert_eq!(
        path.nodes,
        vec![node("0", NodeType::Line), node("1", NodeType::OffCurve), node("2", NodeType::CurveSmooth)]
    );
    assert_eq!(path.to_contour(), Ok(contour));
    let bad = Path { closed: false, nodes: vec![node("0", NodeType::Curve)] };
    assert_eq!(
        bad.to_contour(),
        Err(ConversionError { kind: ErrorKind::OpenPathStart, subject: s("") })
    );
    let empty = Path { closed: false, nodes: vec![] };
    assert_eq!(
        empty.to_contour(),
        Err(ConversionError { kind: ErrorKind::OpenPathStart, subject: s("") })
    );
    assert!(Contour { points: vec![] }.is_closed());
    assert!(Path::from_contour(&Contour { points: vec![] }).closed);
}

#[test]
fn every_kind_of_point_has_its_kind_of_node() {
    let pairs = [
        (PointType::Move, false, NodeType::Line),
        (PointType::Move, true, NodeType::Line),
        (PointType::Line, false, NodeType::Line),
        (PointType::Line, true, NodeType::LineSmooth),
        (PointType::OffCurve, false, NodeType::OffCurve),
        (PointType::OffCurve, true, NodeType::OffCurve),
        (PointType::Curve, false, NodeType::Curve),
        (PointType::Curve, true, NodeType::CurveSmooth),
        (PointType::QCurve, false, NodeType::QCurve),
        (PointType::QCurve, true, NodeType::QCurveSmooth),
    ];
    for (typ, smooth, kind) in pairs {
        let p = ContourPoint { x: dec("1.5"), y: dec("-2"), typ, smooth };
        let n = Node::from_point(&p);
        assert_eq!(n, Node { pt: Point::new(dec("1.5"), dec("-2")), node_type: kind });
        let back = n.to_point();
        assert_eq!(Node::from_point(&back), n);
        if typ != PointType::Move && !(typ == PointType::OffCurve && smooth) {
            assert_eq!(back, p);
        }
    }
}

#[test]
fn a_component_has_no_transform_where_it_is_not_moved() {
    let plain = UfoComponent { base: s("A"), transform: Affine::identity() };
    assert_eq!(Component::from_ufo(&plain), Component { name: s("A"), transform: None, other_stuff: vec![] });
    let mut moved = Affine::identity();
    moved.y_offset = dec("0.5");
    let placed = UfoComponent { base: s("A"), transform: moved.clone() };
    let component = Component::from_ufo(&placed);
    assert_eq!(component.transform, Some(moved));
    assert_eq!(component.to_ufo(), Ok(placed));
    assert_eq!(Component::from_ufo(&plain).to_ufo(), Ok(plain));
    let unnamed = Component { name: s(""), transform: None, other_stuff: vec![] };
    assert_eq!(unnamed.to_ufo(), Err(ConversionError { kind: ErrorKind::InvalidName, subject: s("") }));
}

#[test]
fn an_anchor_needs_a_name() {
    let named = UfoAnchor { x: dec("1"), y: dec("2"), name: Some(s("top")) };
    let anchor = Anchor::from_ufo(&named).unwrap();
    assert_eq!(anchor, Anchor { name: s("top"), position: Point::new(dec("1"), dec("2")) });
    assert_eq!(anchor.to_ufo(), Ok(named));
    assert_eq!(Anchor::from_ufo(&UfoAnchor { x: dec("1"), y: dec("2"), name: None }), None);
    let bad = Anchor { name: s("a\u{9f}"), position: Point::new(dec("1"), dec("2")) };
    assert_eq!(
        bad.to_ufo(),
        Err(ConversionError { kind: ErrorKind::InvalidName, subject: s("a\u{9f}") })
    );
}

#[test]
fn a_name_is_not_empty_and_holds_no_control_character() {
    assert!(is_valid_name("A"));
    assert!(is_valid_name("a b.c-d_e"));
    assert!(is_valid_name("gr\u{fc}n"));
    assert!(is_valid_name("\u{a0}"));
    assert!(is_valid_name("\u{1F600}"));
    assert!(!is_valid_name(""));
    assert!(!is_valid_name("a\u{0}"));
    assert!(!is_valid_name("\u{1f}a"));
    assert!(!is_valid_name("a\nb"));
    assert!(!is_valid_name("a\u{7f}b"));
    assert!(!is_valid_name("\u{80}"));
    assert!(!is_valid_name("\u{9f}"));
    assert!(is_valid_name(" "));
    assert!(is_valid_name("~"));
}

fn layer(id: &str, width: &str) -> Layer {
    Layer {
        name: None,
        associated_master_id: None,
        layer_id: s(id),
        width: dec(width),
        paths: None,
        components: None,
        anchors: None,
        guide_lines: None,
        other_stuff: vec![],
    }
}

fn glyph(name: &str, layers: Vec<Layer>) -> Glyph {
    Glyph {
        unicode: Some(norad::Codepoints::new(['x'])),
        layers,
        glyphname: s(name),
        left_kerning_group: None,
        right_kerning_group: None,
        other_stuff: vec![],
    }
}

fn font(glyphs: Vec<Glyph>) -> Font {
    Font {
        family_name: s("Test"),
        version_major: 1,
        version_minor: 0,
        units_per_em: 1000,
        glyphs,
        font_master: vec![],
        instances: None,
        disables_automatic_alignment: None,
        other_stuff: vec![],
    }
}

#[test]
fn merging_replaces_the_layers_of_one_master() {
    let mut target = font(vec![
        glyph("A", vec![layer("m1", "1"), layer("m2", "2"), layer("m1", "3")]),
        glyph("B", vec![layer("m1", "4")]),
        glyph("C", vec![layer("m1", "5"), layer("m2", "6")]),
    ]);
    let other = font(vec![
        glyph("A", vec![layer("m1", "10"), layer("m2", "20")]),
        glyph("C", vec![layer("m2", "60")]),
        glyph("A", vec![layer("m1", "11"), layer("m1", "12")]),
        glyph("A", vec![layer("m2", "21")]),
        glyph("D", vec![layer("m1", "70")]),
    ]);
    merge(&mut target, &other, "m1");
    let widths = |f: &Font| {
        f.glyphs
            .iter()
            .map(|g| g.layers.iter().map(|l| l.width.to_string()).collect::<Vec<_>>())
            .collect::<Vec<_>>()
    };
    assert_eq!(
        widths(&target),
        vec![vec![s("12"), s("2"), s("12")], vec![s("4")], vec![s("5"), s("6")]]
    );
    assert_eq!(target.glyphs[0].unicode, Some(norad::Codepoints::new(['x'])));
    merge(&mut target, &other, "m2");
    assert_eq!(
        widths(&target),
        vec![vec![s("12"), s("21"), s("12")], vec![s("4")], vec![s("5"), s("60")]]
    );
    let before = target.clone();
    merge(&mut target, &other, "m3");
    assert_eq!(target, before);
}
