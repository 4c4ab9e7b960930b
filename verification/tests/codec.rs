use glyphstool::codec::{
    codepoints_to_plist, read_affine, read_codepoints, read_node, read_point, write_affine,
    write_node, write_point,
};
use glyphstool::decimal::Decimal;
use glyphstool::font::Node;
use glyphstool::geometry::{Affine, Point};
use glyphstool::node_type::NodeType;
use glyphstool::plist::Plist;

fn dec(text: &str) -> Decimal {
    Decimal::parse(text).expect("a number")
}

fn point(x: &str, y: &str) -> Point {
    Point::new(dec(x), dec(y))
}

fn affine(c: [&str; 6]) -> Affine {
    Affine {
        x_scale: dec(c[0]),
        xy_scale: dec(c[1]),
        yx_scale: dec(c[2]),
        y_scale: dec(c[3]),
        x_offset: dec(c[4]),
        y_offset: dec(c[5]),
    }
}

#[test]
fn points_are_written_in_braces() {
    assert_eq!(write_point(&point("10", "-20.5")), "{10, -20.5}");
    assert_eq!(read_point("{10, -20.5}"), Some(point("10", "-20.5")));
    assert_eq!(read_point("{10,20}"), Some(point("10", "20")));
    assert_eq!(read_point("{1.50, 2}"), Some(point("1.5", "2")));
    assert_eq!(read_point("{10, 20, 30}"), None);
    assert_eq!(read_point("{10}"), None);
    assert_eq!(read_point("10, 20"), None);
    assert_eq!(read_point("{a, b}"), None);
    assert_eq!(read_point("{}"), None);
    assert_eq!(read_point(""), None);
}

#[test]
fn transforms_are_written_in_braces() {
    let t = affine(["1", "0", "0", "1", "40", "-0.5"]);
    assert_eq!(write_affine(&t), "{1, 0, 0, 1, 40, -0.5}");
    assert_eq!(read_affine("{1, 0, 0, 1, 40, -0.5}"), Some(t));
    assert_eq!(read_affine("{1, 0, 0, 1, 40}"), None);
    assert_eq!(read_affine("{1, 0, 0, 1, 40, 5, 6}"), None);
    assert!(Affine::identity().is_identity());
    assert!(affine(["1", "-0", "0", "1", "0", "0"]).is_identity());
    assert!(!affine(["1", "0", "0", "1", "0", "1"]).is_identity());
    assert!(!affine(["2", "0", "0", "1", "0", "0"]).is_identity());
    assert_eq!(write_affine(&Affine::identity()), "{1, 0, 0, 1, 0, 0}");
}

#[test]
fn nodes_are_two_numbers_and_a_kind() {
    let kinds = [
        (NodeType::Line, "LINE"),
        (NodeType::LineSmooth, "LINE SMOOTH"),
        (NodeType::OffCurve, "OFFCURVE"),
        (NodeType::Curve, "CURVE"),
        (NodeType::CurveSmooth, "CURVE SMOOTH"),
        (NodeType::QCurve, "QCURVE"),
        (NodeType::QCurveSmooth, "QCURVE SMOOTH"),
    ];
    for (kind, name) in kinds {
        let node = Node { pt: point("10", "20.5"), node_type: kind };
        let text = format!("10 20.5 {}", name);
        assert_eq!(write_node(&node), text);
        assert_eq!(read_node(&text), Some(node));
        assert_eq!(NodeType::parse(name), Some(kind));
        assert_eq!(kind.glyphs_str(), name);
    }
    assert_eq!("CURVE SMOOTH".parse::<NodeType>(), Ok(NodeType::CurveSmooth));
    assert_eq!("curve".parse::<NodeType>(), Err("unknown node type curve".to_string()));
    assert_eq!(NodeType::parse("line"), None);
    assert_eq!(NodeType::parse("LINE  SMOOTH"), None);
    assert_eq!(NodeType::parse(""), None);
    assert_eq!(read_node("10 20"), None);
    assert_eq!(read_node("10 20 "), None);
    assert_eq!(read_node("10 20 MOVE"), None);
    assert_eq!(read_node("x 20 LINE"), None);
    assert_eq!(read_node("10  20 LINE"), None);
    assert_eq!(read_node(""), None);
}

fn chars(c: &norad::Codepoints) -> Vec<char> {
    c.iter().collect()
}

#[test]
fn code_points_are_digits_of_base_sixteen() {
    let read = |s: &str| read_codepoints(&Plist::String(s.to_string())).map(|c| chars(&c));
    assert_eq!(read("0041"), Some(vec!['A']));
    assert_eq!(read("0041,0042"), Some(vec!['A', 'B']));
    assert_eq!(read("00e9,1F600"), Some(vec!['\u{e9}', '\u{1F600}']));
    assert_eq!(read("41"), Some(vec!['A']));
    assert_eq!(read("0041,,0042, "), Some(vec!['A', 'B']));
    assert_eq!(read(""), Some(vec![]));
    assert_eq!(read("10FFFF"), Some(vec!['\u{10FFFF}']));
    assert_eq!(read("110000"), None);
    assert_eq!(read("D800"), None);
    assert_eq!(read("FFFFFFFFFFFF"), None);
    assert_eq!(read("004G"), None);
    assert_eq!(read(" 0041"), None);
    assert_eq!(read_codepoints(&Plist::Boolean(true)).map(|c| chars(&c)), None);
}

#[test]
fn repeated_code_points_are_kept_once_where_they_first_stand() {
    let read = |s: &str| read_codepoints(&Plist::String(s.to_string())).map(|c| chars(&c));
    assert_eq!(read("0042,0041,0042,0041,0043"), Some(vec!['B', 'A', 'C']));
}

#[test]
fn a_whole_number_is_read_as_digits_of_base_sixteen() {
    let read = |n: i64| read_codepoints(&Plist::Integer(n)).map(|c| chars(&c));
    assert_eq!(read(41), Some(vec!['A']));
    assert_eq!(read(1234), Some(vec!['\u{1234}']));
    assert_eq!(read(0), Some(vec!['\0']));
    assert_eq!(read(-41), None);
    assert_eq!(read(110000), None);
}

#[test]
fn code_points_are_written_in_four_capital_digits_or_more() {
    let write = |cs: &[char]| codepoints_to_plist(&norad::Codepoints::new(cs.iter().copied()));
    assert_eq!(write(&['A']), Plist::String("0041".to_string()));
    assert_eq!(write(&['A', 'B']), Plist::String("0041,0042".to_string()));
    assert_eq!(write(&['\u{e9}', '\u{1F600}']), Plist::String("00E9,1F600".to_string()));
    assert_eq!(write(&['\0']), Plist::String("0000".to_string()));
    assert_eq!(write(&[]), Plist::String("".to_string()));
    let again = read_codepoints(&write(&['\u{abcd}', 'z'])).map(|c| chars(&c));
    assert_eq!(again, Some(vec!['\u{abcd}', 'z']));
}
