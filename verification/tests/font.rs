use glyphstool::decimal::Decimal;
use glyphstool::error::{ConversionError, ErrorClass, ErrorKind};
use glyphstool::font::{Font, FontMaster, Glyph, Layer, Node, Path};
use glyphstool::geometry::Point;
use glyphstool::grammar::ParseErrorKind;
use glyphstool::node_type::NodeType;
use glyphstool::parse::ParseError;
use glyphstool::plist::Plist;
use glyphstool::records::LoadError;

const NEW_FONT_GLYPHS2: &str = "{
.appVersion = \"1361\";
date = \"2022-11-14 10:29:21 +0000\";
familyName = \"New Font\";
fontMaster = (
{
ascender = 800;
capHeight = 700;
descender = -200;
id = \"3E7589AA-8194-470F-8E2F-13C1C581BE24\";
xHeight = 500;
}
);
glyphs = (
{
glyphname = A;
layers = (
{
layerId = \"3E7589AA-8194-470F-8E2F-13C1C581BE24\";
width = 600;
}
);
unicode = 0041;
},
{
glyphname = space;
layers = (
{
layerId = \"3E7589AA-8194-470F-8E2F-13C1C581BE24\";
width = 200;
}
);
unicode = 0020;
}
);
unitsPerEm = 1000;
versionMajor = 1;
versionMinor = 0;
}
";

const NEW_FONT_GLYPHS3: &str = "{
.appVersion = \"3151\";
.formatVersion = 3;
date = \"2022-11-14 10:30:03 +0000\";
familyName = \"New Font\";
fontMaster = (
{
id = m01;
metricValues = (
{
pos = 800;
},
{
pos = 700;
},
{
pos = 500;
},
{
},
{
pos = -200;
},
{
}
);
name = Regular;
}
);
glyphs = (
{
glyphname = A;
lastChange = \"2022-11-14 10:30:03 +0000\";
layers = (
{
layerId = m01;
width = 600;
}
);
unicode = 65;
},
{
glyphname = space;
layers = (
{
layerId = m01;
width = 200;
}
);
unicode = 32;
}
);
metrics = (
{
type = ascender;
},
{
type = \"cap height\";
},
{
type = \"x-height\";
},
{
type = baseline;
},
{
type = descender;
},
{
type = \"italic angle\";
}
);
unitsPerEm = 1000;
versionMajor = 1;
versionMinor = 0;
}
";

#[test]
fn parse_empty_font_glyphs2() {
    Font::load(NEW_FONT_GLYPHS2).unwrap();
}

#[test]
fn parse_empty_font_glyphs3() {
    Font::load(NEW_FONT_GLYPHS3).unwrap();
}

fn dec(text: &str) -> Decimal {
    Decimal::parse(text).expect("a number")
}

fn chars(c: &Option<norad::Codepoints>) -> Option<Vec<char>> {
    c.as_ref().map(|c| c.iter().collect())
}

#[test]
fn loads_the_fields_of_a_font() {
    let font = Font::load(NEW_FONT_GLYPHS2).unwrap();
    assert_eq!(font.family_name, "New Font");
    assert_eq!(font.version_major, 1);
    assert_eq!(font.version_minor, 0);
    assert_eq!(font.units_per_em, 1000);
    assert_eq!(font.instances, None);
    assert_eq!(font.disables_automatic_alignment, None);
    assert_eq!(
        font.other_stuff,
        vec![
            (".appVersion".to_string(), Plist::String("1361".to_string())),
            ("date".to_string(), Plist::String("2022-11-14 10:29:21 +0000".to_string())),
        ]
    );
    assert_eq!(font.font_master.len(), 1);
    let master = &font.font_master[0];
    assert_eq!(master.id, "3E7589AA-8194-470F-8E2F-13C1C581BE24");
    assert_eq!(master.ascender, Some(800));
    assert_eq!(master.cap_height, Some(700));
    assert_eq!(master.descender, Some(-200));
    assert_eq!(master.x_height, Some(500));
    assert_eq!(master.italic_angle, None);
    assert_eq!(master.weight_value, None);
    assert_eq!(master.name(), None);
    assert_eq!(font.glyphs.len(), 2);
    let a = &font.glyphs[0];
    assert_eq!(a.glyphname, "A");
    assert_eq!(a.name(), "A");
    assert_eq!(chars(&a.unicode), Some(vec!['A']));
    assert_eq!(a.layers.len(), 1);
    assert_eq!(a.layers[0].layer_id, "3E7589AA-8194-470F-8E2F-13C1C581BE24");
    assert_eq!(a.layers[0].width, dec("600"));
    assert_eq!(a.layers[0].paths, None);
    assert_eq!(chars(&font.glyphs[1].unicode), Some(vec![' ']));
}

#[test]
fn a_whole_number_under_unicode_is_read_in_base_sixteen() {
    let font = Font::load(NEW_FONT_GLYPHS3).unwrap();
    assert_eq!(chars(&font.glyphs[0].unicode), Some(vec!['e']));
    assert_eq!(font.font_master[0].id, "m01");
}

const FULL: &str = "{
familyName = Test;
versionMajor = 2;
versionMinor = 5;
unitsPerEm = 2048;
glyphs = (
{
unicode = \"0041,00C4\";
layers = (
{
name = \"{120, 5}\";
associatedMasterId = M1;
layerId = L1;
width = 512.5;
paths = (
{
closed = 1;
nodes = (
\"10 20 LINE\",
\"30.5 -40 OFFCURVE\",
\"50 60 CURVE SMOOTH\"
);
}
);
components = (
{
name = B;
transform = \"{1, 0, 0, 1, 40, 50}\";
alignment = -1;
},
{
name = C;
}
);
anchors = (
{
name = top;
position = \"{250, 700}\";
}
);
guideLines = (
{
angle = 90;
position = \"{10, 20}\";
},
{
position = \"{0, 0}\";
}
);
visible = 1;
}
);
glyphname = A;
leftKerningGroup = A;
rightKerningGroup = A2;
color = 4;
}
);
fontMaster = (
{
id = M1;
ascender = 800;
capHeight = 700;
descender = -200;
xHeight = 500;
italicAngle = 12.5;
weightValue = 400;
widthValue = 100;
customValue = 1;
customValue1 = 2;
customValue2 = 3;
customValue3 = 4.5;
customParameters = (
{
name = \"Master Name\";
value = \"Regular Italic\";
}
);
}
);
instances = (
{
name = Bold;
interpolationWeight = 700;
interpolationWidth = 100;
interpolationCustom = 0.5;
isBold = 1;
isItalic = 0;
linkStyle = Regular;
exports = 0;
}
);
disablesAutomaticAlignment = 1;
note = \"keep me\";
}";

#[test]
fn loads_every_field_of_every_record() {
    let font = Font::load(FULL).unwrap();
    assert_eq!(font.disables_automatic_alignment, Some(true));
    let glyph = &font.glyphs[0];
    assert_eq!(chars(&glyph.unicode), Some(vec!['A', '\u{c4}']));
    assert_eq!(glyph.left_kerning_group, Some("A".to_string()));
    assert_eq!(glyph.right_kerning_group, Some("A2".to_string()));
    assert_eq!(glyph.other_stuff, vec![("color".to_string(), Plist::Integer(4))]);
    let layer = &glyph.layers[0];
    assert_eq!(layer.name, Some("{120, 5}".to_string()));
    assert_eq!(layer.associated_master_id, Some("M1".to_string()));
    assert_eq!(layer.width, dec("512.5"));
    assert_eq!(layer.other_stuff, vec![("visible".to_string(), Plist::Integer(1))]);
    let paths = layer.paths.as_ref().unwrap();
    assert_eq!(paths.len(), 1);
    assert!(paths[0].closed);
    assert_eq!(
        paths[0].nodes,
        vec![
            Node { pt: Point::new(dec("10"), dec("20")), node_type: NodeType::Line },
            Node { pt: Point::new(dec("30.5"), dec("-40")), node_type: NodeType::OffCurve },
            Node { pt: Point::new(dec("50"), dec("60")), node_type: NodeType::CurveSmooth },
        ]
    );
    let components = layer.components.as_ref().unwrap();
    assert_eq!(components[0].name, "B");
    assert_eq!(components[0].transform.as_ref().unwrap().x_offset, dec("40"));
    assert_eq!(components[0].other_stuff, vec![("alignment".to_string(), Plist::Integer(-1))]);
    assert_eq!(components[1].transform, None);
    let anchors = layer.anchors.as_ref().unwrap();
    assert_eq!(anchors[0].name, "top");
    assert_eq!(anchors[0].position, Point::new(dec("250"), dec("700")));
    let guides = layer.guide_lines.as_ref().unwrap();
    assert_eq!(guides[0].angle, Some(dec("90")));
    assert_eq!(guides[1].angle, None);
    let master = &font.font_master[0];
    assert_eq!(master.italic_angle, Some(dec("12.5")));
    assert_eq!(master.weight_value, Some(dec("400")));
    assert_eq!(master.width_value, Some(dec("100")));
    assert_eq!(master.custom_value, Some(dec("1")));
    assert_eq!(master.custom_value1, Some(dec("2")));
    assert_eq!(master.custom_value2, Some(dec("3")));
    assert_eq!(master.custom_value3, Some(dec("4.5")));
    assert_eq!(master.name(), Some("Regular Italic"));
    let instance = &font.instances.as_ref().unwrap()[0];
    assert_eq!(instance.name, "Bold");
    assert_eq!(instance.interpolation_weight, Some(dec("700")));
    assert_eq!(instance.interpolation_custom, Some(dec("0.5")));
    assert_eq!(instance.interpolation_custom1, None);
    assert_eq!(instance.is_bold, Some(true));
    assert_eq!(instance.is_italic, Some(false));
    assert_eq!(instance.link_style, Some("Regular".to_string()));
    assert_eq!(instance.other_stuff, vec![("exports".to_string(), Plist::Integer(0))]);
}

#[test]
fn what_was_saved_loads_as_the_same_font() {
    for text in [NEW_FONT_GLYPHS2, NEW_FONT_GLYPHS3, FULL] {
        let font = Font::load(text).unwrap();
        let saved = font.save();
        assert_eq!(Font::load(&saved), Ok(font));
        assert_eq!(Font::load(&saved).unwrap().save(), saved);
    }
}

#[test]
fn a_font_that_was_read_is_read_again_as_itself() {
    let odd = "{familyName = \"A \\\"B\\\"\"; versionMajor = -1; versionMinor = 7; unitsPerEm = 1000; \
        familyName = Twice; note = first; note = second; \
        glyphs = ({glyphname = infinity; unicode = \"0041,41,,0042\"; color = 1; \
            layers = ({layerId = M; width = 0600.50; visible = 1; \
                paths = ({closed = 1; nodes = (\"010 -0.0 LINE\", \"1.50 2 CURVE SMOOTH\");}); \
                anchors = ({name = top; position = \"{ 01.0, -3.250}\";}); \
                components = ({name = B; transform = \"{1, 0, 0, 1, 10.0, 0}\"; locked = 1;}); \
                guideLines = ({angle = 90.0; position = \"{0, 0}\";});});}); \
        fontMaster = ({id = M; weightValue = 400.0; italicAngle = -12.50; custom = x;}); \
        instances = ({name = Regular; interpolationWeight = 100.0; exports = 0;});}";
    let font = Font::load(odd).unwrap();
    assert_eq!(font.family_name, "A \"B\"");
    assert_eq!(font.version_major, -1);
    assert_eq!(
        font.other_stuff,
        vec![
            ("note".to_string(), Plist::String("first".to_string())),
            ("note".to_string(), Plist::String("second".to_string())),
        ]
    );
    assert_eq!(font.glyphs[0].glyphname, "infinity");
    assert_eq!(chars(&font.glyphs[0].unicode), Some(vec!['A', 'B']));
    assert_eq!(font.glyphs[0].layers[0].width, dec("600.5"));
    let saved = font.save();
    let again = Font::load(&saved).unwrap();
    assert_eq!(again.save(), saved);
    assert_eq!(again, font);
}

#[test]
fn saves_fields_first_and_unknown_entries_after_them() {
    let font = Font::load(NEW_FONT_GLYPHS2).unwrap();
    let saved = font.save();
    assert!(saved.starts_with(
        "{\nfamilyName = \"New Font\";\nversionMajor = 1;\nversionMinor = 0;\nunitsPerEm = 1000;\nglyphs = (\n{\nunicode = 0041;\nlayers = (\n{\nlayerId = \"3E7589AA-8194-470F-8E2F-13C1C581BE24\";\nwidth = 600;\n}\n);\nglyphname = A;\n},"
    ));
    assert!(saved.ends_with(
        ".appVersion = \"1361\";\ndate = \"2022-11-14 10:29:21 +0000\";\n}"
    ));
}

#[test]
fn unknown_entries_come_through_unchanged() {
    let font = Font::load(FULL).unwrap();
    let before = Plist::parse(FULL).unwrap();
    let after = Plist::parse(&font.save()).unwrap();
    assert_eq!(after.get("note"), Some(&Plist::String("keep me".to_string())));
    assert_eq!(after.get("note"), before.get("note"));
    let glyph = |p: &Plist| p.get("glyphs").unwrap().as_array().unwrap()[0].copy();
    assert_eq!(glyph(&after).get("color"), Some(&Plist::Integer(4)));
    assert_eq!(glyph(&after).get("color"), glyph(&before).get("color"));
    let layer = |p: &Plist| glyph(p).get("layers").unwrap().as_array().unwrap()[0].copy();
    assert_eq!(layer(&after).get("visible"), layer(&before).get("visible"));
    let master = |p: &Plist| p.get("fontMaster").unwrap().as_array().unwrap()[0].copy();
    assert_eq!(master(&after).get("customParameters"), master(&before).get("customParameters"));
    let with_nested = "{familyName = X; versionMajor = 1; versionMinor = 0; unitsPerEm = 1000; glyphs = (); fontMaster = (); userData = {deep = (1, {k = v;}, <0a>, <*BY>, 2.5);};}";
    let nested = Plist::parse(with_nested).unwrap();
    let saved = Font::load(with_nested).unwrap().save();
    assert_eq!(Plist::parse(&saved).unwrap().get("userData"), nested.get("userData"));
}

fn schema(kind: ErrorKind, subject: &str) -> Result<Font, LoadError> {
    Err(LoadError::Schema(ConversionError { kind, subject: subject.to_string() }))
}

#[test]
fn a_missing_field_is_reported_by_its_key() {
    let without = |key: &str| {
        let mut entries = Plist::parse(NEW_FONT_GLYPHS2).unwrap().as_dict().unwrap().clone();
        entries.retain(|(k, _)| k != key);
        Font::load(&Plist::Dictionary(entries).to_string())
    };
    for key in ["familyName", "versionMajor", "versionMinor", "unitsPerEm", "glyphs", "fontMaster"] {
        assert_eq!(without(key), schema(ErrorKind::MissingField, key));
    }
    assert_eq!(ErrorKind::MissingField.class(), ErrorClass::Schema);
    let head = "familyName = X; versionMajor = 1; versionMinor = 0; unitsPerEm = 1000; fontMaster = ();";
    let load = |glyphs: &str| Font::load(&format!("{{{} glyphs = ({});}}", head, glyphs));
    assert_eq!(load("{layers = ();}"), schema(ErrorKind::MissingField, "glyphname"));
    assert_eq!(load("{glyphname = A;}"), schema(ErrorKind::MissingField, "layers"));
    assert_eq!(
        load("{glyphname = A; layers = ({width = 1;});}"),
        schema(ErrorKind::MissingField, "layerId")
    );
    assert_eq!(
        load("{glyphname = A; layers = ({layerId = x;});}"),
        schema(ErrorKind::MissingField, "width")
    );
    assert_eq!(
        load("{glyphname = A; layers = ({layerId = x; width = 1; anchors = ({name = a;});});}"),
        schema(ErrorKind::MissingField, "position")
    );
    assert_eq!(
        load("{glyphname = A; layers = ({layerId = x; width = 1; paths = ({closed = 1;});});}"),
        schema(ErrorKind::MissingField, "nodes")
    );
    assert_eq!(
        Font::load("{familyName = X; versionMajor = 1; versionMinor = 0; unitsPerEm = 1000; glyphs = (); fontMaster = ({ascender = 1;});}"),
        schema(ErrorKind::MissingField, "id")
    );
}

#[test]
fn a_node_of_the_wrong_kind_is_reported_by_its_key() {
    assert_eq!(Font::load("(1, 2)"), schema(ErrorKind::WrongVariant, "font"));
    assert_eq!(ErrorKind::WrongVariant.class(), ErrorClass::Schema);
    let head = "familyName = X; versionMajor = 1; versionMinor = 0; unitsPerEm = 1000; fontMaster = ();";
    let load = |glyphs: &str| Font::load(&format!("{{{} glyphs = {};}}", head, glyphs));
    assert_eq!(load("abc"), schema(ErrorKind::WrongVariant, "glyphs"));
    assert_eq!(load("(abc)"), schema(ErrorKind::WrongVariant, "glyphs"));
    assert_eq!(load("({glyphname = 12; layers = ();})"), schema(ErrorKind::WrongVariant, "glyphname"));
    assert_eq!(load("({glyphname = 1.5; layers = ();})"), schema(ErrorKind::WrongVariant, "glyphname"));
    assert_eq!(
        load("({glyphname = A; layers = (); unicode = XYZ;})"),
        schema(ErrorKind::WrongVariant, "unicode")
    );
    assert_eq!(
        load("({glyphname = A; layers = ({layerId = x; width = wide;});})"),
        schema(ErrorKind::WrongVariant, "width")
    );
    assert_eq!(
        load("({glyphname = A; layers = ({layerId = x; width = 1; paths = ({closed = 1; nodes = (\"1 2 MOVE\");});});})"),
        schema(ErrorKind::WrongVariant, "nodes")
    );
    assert_eq!(
        load("({glyphname = A; layers = ({layerId = x; width = 1; components = ({name = B; transform = \"{1, 2}\";});});})"),
        schema(ErrorKind::WrongVariant, "transform")
    );
    assert_eq!(
        Font::load("{familyName = 12; versionMajor = 1; versionMinor = 0; unitsPerEm = 1000; glyphs = (); fontMaster = ();}"),
        schema(ErrorKind::WrongVariant, "familyName")
    );
    assert_eq!(
        Font::load("{familyName = X; versionMajor = 1.5; versionMinor = 0; unitsPerEm = 1000; glyphs = (); fontMaster = ();}"),
        schema(ErrorKind::WrongVariant, "versionMajor")
    );
}

#[test]
fn a_glyph_name_must_be_one_that_a_glyph_can_have() {
    let head = "familyName = X; versionMajor = 1; versionMinor = 0; unitsPerEm = 1000; fontMaster = ();";
    let load = |name: &str| Font::load(&format!("{{{} glyphs = ({{glyphname = {}; layers = ();}});}}", head, name));
    assert_eq!(load("\"a\\nb\""), schema(ErrorKind::InvalidName, "a\nb"));
    assert_eq!(load("\"\""), schema(ErrorKind::InvalidName, ""));
    assert_eq!(load("\"a\\177\""), schema(ErrorKind::InvalidName, "a\u{7f}"));
    assert_eq!(ErrorKind::InvalidName.class(), ErrorClass::Naming);
    assert_eq!(load("\"a b\"").unwrap().glyphs[0].glyphname, "a b");
    assert_eq!(load("\"gr\u{fc}n\"").unwrap().glyphs[0].glyphname, "gr\u{fc}n");
}

#[test]
fn a_glyph_called_infinity_gets_its_name_back() {
    let head = "familyName = X; versionMajor = 1; versionMinor = 0; unitsPerEm = 1000; fontMaster = ();";
    let text = format!("{{{} glyphs = ({{glyphname = infinity; layers = ();}});}}", head);
    let font = Font::load(&text).unwrap();
    assert_eq!(font.glyphs[0].glyphname, "infinity");
    assert_eq!(Font::load(&font.save()).unwrap().glyphs[0].glyphname, "infinity");
}

#[test]
fn a_text_that_is_no_property_list_is_refused() {
    assert_eq!(
        Font::load("{familyName = \"New"),
        Err(LoadError::Parse(ParseError {
            kind: ParseErrorKind::UnterminatedString,
            offset: 18,
            line: 0
        }))
    );
    assert_eq!(
        Font::load("{}\n}"),
        Err(LoadError::Parse(ParseError { kind: ParseErrorKind::TrailingInput, offset: 3, line: 1 }))
    );
}

fn layer(id: &str, width: &str) -> Layer {
    Layer {
        name: None,
        associated_master_id: None,
        layer_id: id.to_string(),
        width: dec(width),
        paths: None,
        components: None,
        anchors: None,
        guide_lines: None,
        other_stuff: vec![],
    }
}

fn glyph(name: &str, layers: Vec<Layer>) -> Glyph {
    Glyph {
        unicode: None,
        layers,
        glyphname: name.to_string(),
        left_kerning_group: None,
        right_kerning_group: None,
        other_stuff: vec![],
    }
}

fn font(glyphs: Vec<Glyph>) -> Font {
    Font {
        family_name: "Test".to_string(),
        version_major: 1,
        version_minor: 0,
        units_per_em: 1000,
        glyphs,
        font_master: vec![],
        instances: None,
        disables_automatic_alignment: None,
        other_stuff: vec![],
    }
}

#[test]
fn finds_glyphs_by_name_and_layers_by_identifier() {
    let mut f = font(vec![
        glyph("A", vec![layer("m1", "100"), layer("m2", "200"), layer("m1", "300")]),
        glyph("B", vec![layer("m1", "400")]),
        glyph("A", vec![layer("m1", "500")]),
    ]);
    assert_eq!(f.get_glyph("A"), Some(&f.glyphs[0]));
    assert_eq!(f.get_glyph("B"), Some(&f.glyphs[1]));
    assert_eq!(f.get_glyph("C"), None);
    assert_eq!(f.glyph_index("B"), Some(1));
    let a = f.get_glyph("A").unwrap();
    assert_eq!(a.get_layer("m1").map(|l| l.width.to_string()), Some("100".to_string()));
    assert_eq!(a.get_layer("m2").map(|l| l.width.to_string()), Some("200".to_string()));
    assert_eq!(a.get_layer("m3"), None);
    assert_eq!(a.layer_index("m2"), Some(1));
    f.get_glyph_mut("B").unwrap().glyphname = "B.alt".to_string();
    assert_eq!(f.glyphs[1].glyphname, "B.alt");
    assert_eq!(f.glyphs[0].glyphname, "A");
    assert!(f.get_glyph_mut("B").is_none());
}

#[test]
fn the_name_of_a_master_stands_among_its_custom_parameters() {
    let master = |other: &str| {
        FontMaster::from_plist(&Plist::parse(&format!("{{id = m; {}}}", other)).unwrap()).unwrap()
    };
    assert_eq!(master("").name(), None);
    assert_eq!(master("customParameters = ();").name(), None);
    assert_eq!(master("customParameters = 5;").name(), None);
    assert_eq!(
        master("customParameters = ({name = \"Master Name\"; value = Bold;});").name(),
        Some("Bold")
    );
    assert_eq!(
        master("customParameters = ({name = Other; value = x;}, 7, {value = y;}, {name = \"Master Name\"; value = \"Semi Bold\";}, {name = \"Master Name\"; value = Late;});").name(),
        Some("Semi Bold")
    );
    assert_eq!(master("customParameters = ({name = \"Master Name\"; value = 5;});").name(), None);
    assert_eq!(master("customParameters = ({name = \"Master Name\";});").name(), None);
}

fn node(x: &str) -> Node {
    Node { pt: Point::new(dec(x), dec("0")), node_type: NodeType::Line }
}

#[test]
fn paths_grow_turn_and_rotate() {
    let mut path = Path::new(true);
    assert!(path.closed);
    assert_eq!(path.nodes, vec![]);
    path.rotate_left(0);
    path.reverse();
    assert_eq!(path.nodes, vec![]);
    for x in ["0", "1", "2", "3"] {
        path.add(Point::new(dec(x), dec("0")), NodeType::Line);
    }
    assert_eq!(path.nodes, vec![node("0"), node("1"), node("2"), node("3")]);
    path.rotate_left(1);
    assert_eq!(path.nodes, vec![node("1"), node("2"), node("3"), node("0")]);
    path.rotate_left(2);
    assert_eq!(path.nodes, vec![node("3"), node("0"), node("1"), node("2")]);
    path.rotate_left(4);
    assert_eq!(path.nodes, vec![node("3"), node("0"), node("1"), node("2")]);
    path.reverse();
    assert_eq!(path.nodes, vec![node("2"), node("1"), node("0"), node("3")]);
    assert!(path.closed);
    assert!(!Path::new(false).closed);
}
