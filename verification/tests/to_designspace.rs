use glyphstool::decimal::Decimal;
use glyphstool::designspace::{Designspace, Dimension, Source};
use glyphstool::error::{ConversionError, ErrorClass, ErrorKind};
use glyphstool::font::{Anchor, Component, Font, FontMaster, Glyph, Layer, Node, Path};
use glyphstool::geometry::{Affine, Point};
use glyphstool::location::Location;
use glyphstool::node_type::NodeType;
use glyphstool::plist::Plist;
use glyphstool::to_designspace::{
    command_to_designspace, convert_glyphs_glyph_to_ufo_glyph, run_ufonormalizer, update_ufo,
    Glyphs2DesignspaceContext, NormalizerOutcome, NormalizerVerdict, Skipped,
};
use glyphstool::ufo::{
    Contour, ContourPoint, FontInfo, PointType, Ufo, UfoAnchor, UfoComponent, UfoGlyph, UfoLayer,
};

fn dec(text: &str) -> Decimal {
    Decimal::parse(text).expect("a number")
}

fn s(text: &str) -> String {
    text.to_string()
}

fn dim(name: &str, x: &str) -> Dimension {
    Dimension { name: s(name), uservalue: None, xvalue: Some(dec(x)), yvalue: None }
}

fn node(x: &str, y: &str, node_type: NodeType) -> Node {
    Node { pt: Point::new(dec(x), dec(y)), node_type }
}

fn point(x: &str, y: &str, typ: PointType, smooth: bool) -> ContourPoint {
    ContourPoint { x: dec(x), y: dec(y), typ, smooth }
}

fn layer(id: &str, name: Option<&str>, width: &str) -> Layer {
    Layer {
        name: name.map(s),
        associated_master_id: name.map(|_| s("M-LIGHT")),
        layer_id: s(id),
        width: dec(width),
        paths: None,
        components: None,
        anchors: None,
        guide_lines: None,
        other_stuff: vec![],
    }
}

fn glyph(name: &str, codepoints: Option<&[char]>, layers: Vec<Layer>) -> Glyph {
    Glyph {
        unicode: codepoints.map(|c| norad::Codepoints::new(c.iter().copied())),
        layers,
        glyphname: s(name),
        left_kerning_group: None,
        right_kerning_group: None,
        other_stuff: vec![],
    }
}

fn master(id: &str, name: Option<&str>) -> FontMaster {
    let other_stuff = match name {
        Some(name) => vec![(
            s("customParameters"),
            Plist::Array(vec![Plist::Dictionary(vec![
                (s("name"), Plist::String(s("Master Name"))),
                (s("value"), Plist::String(s(name))),
            ])]),
        )],
        None => vec![],
    };
    FontMaster {
        id: s(id),
        ascender: None,
        cap_height: None,
        descender: None,
        x_height: None,
        italic_angle: None,
        weight_value: None,
        width_value: None,
        custom_value: None,
        custom_value1: None,
        custom_value2: None,
        custom_value3: None,
        other_stuff,
    }
}

fn font() -> Font {
    let mut outline = layer("M-LIGHT", None, "601");
    outline.paths = Some(vec![
        Path {
            closed: true,
            nodes: vec![
                node("100", "0", NodeType::LineSmooth),
                node("50", "80", NodeType::Curve),
                node("0", "0", NodeType::Line),
            ],
        },
        Path {
            closed: false,
            nodes: vec![node("1", "2", NodeType::Line), node("3", "4", NodeType::QCurveSmooth)],
        },
    ]);
    outline.anchors = Some(vec![Anchor { name: s("top"), position: Point::new(dec("300"), dec("700")) }]);
    outline.components = Some(vec![
        Component { name: s("B"), transform: None, other_stuff: vec![] },
        Component {
            name: s("C"),
            transform: Some(Affine {
                x_scale: dec("2"),
                xy_scale: dec("0"),
                yx_scale: dec("0"),
                y_scale: dec("2"),
                x_offset: dec("10"),
                y_offset: dec("-10"),
            }),
            other_stuff: vec![],
        },
    ]);
    Font {
        family_name: s("Test"),
        version_major: 1,
        version_minor: 0,
        units_per_em: 1000,
        glyphs: vec![
            glyph(
                "A",
                Some(&['A']),
                vec![outline, layer("M-BOLD", None, "701"), layer("L-MEDIUM", Some("{500, 100}"), "611")],
            ),
            glyph("B", Some(&['B']), vec![layer("M-LIGHT", None, "621"), layer("M-OTHER", None, "999")]),
            glyph("E", None, vec![layer("M-LIGHT", None, "631")]),
        ],
        font_master: vec![master("M-LIGHT", Some("Light")), master("M-NONE", None), master("M-BOLD", Some("Bold"))],
        instances: None,
        disables_automatic_alignment: None,
        other_stuff: vec![],
    }
}

fn source(name: &str, filename: &str, style: Option<&str>, layer: Option<&str>, location: Vec<Dimension>) -> Source {
    Source {
        name: s(name),
        filename: s(filename),
        stylename: style.map(s),
        layer: layer.map(s),
        location,
    }
}

fn designspace() -> Designspace {
    Designspace {
        axes: vec![],
        sources: vec![
            source("light", "Light.ufo", Some("Light"), None, vec![dim("Weight", "0"), dim("Width", "100")]),
            source("bold", "Bold.ufo", Some("Bold"), None, vec![dim("Weight", "1000"), dim("Width", "100")]),
            source("medium", "Light.ufo", Some("Medium"), Some("medium"), vec![dim("Weight", "500"), dim("Width", "100")]),
        ],
        instances: vec![],
    }
}

fn ufo_glyph(name: &str, width: &str, codepoints: &[char]) -> UfoGlyph {
    UfoGlyph {
        name: s(name),
        width: dec(width),
        codepoints: norad::Codepoints::new(codepoints.iter().copied()),
        anchors: vec![UfoAnchor { x: dec("9"), y: dec("9"), name: Some(s("old")) }],
        contours: vec![Contour { points: vec![point("7", "7", PointType::Move, false)] }],
        components: vec![UfoComponent { base: s("old"), transform: Affine::identity() }],
    }
}

fn info() -> FontInfo {
    FontInfo {
        family_name: Some(s("Kept")),
        units_per_em: None,
        version_major: None,
        version_minor: None,
        ascender: None,
        cap_height: None,
        descender: None,
        x_height: None,
        italic_angle: None,
    }
}

fn light_ufo() -> Ufo {
    Ufo {
        font_info: info(),
        lib: vec![(s("kept"), Plist::Integer(1))],
        layers: vec![
            UfoLayer {
                name: s("public.default"),
                glyphs: vec![ufo_glyph("B", "1", &['b']), ufo_glyph("A", "2", &['a']), ufo_glyph("Z", "3", &['z'])],
            },
            UfoLayer { name: s("medium"), glyphs: vec![ufo_glyph("A", "4", &['a'])] },
        ],
    }
}

fn bold_ufo() -> Ufo {
    Ufo {
        font_info: info(),
        lib: vec![],
        layers: vec![UfoLayer { name: s("public.default"), glyphs: vec![ufo_glyph("A", "5", &['a'])] }],
    }
}

fn fails<T: std::fmt::Debug>(r: Result<T, ConversionError>, kind: ErrorKind, subject: &str) {
    assert_eq!(r.err(), Some(ConversionError { kind, subject: subject.to_string() }));
}

#[test]
fn a_location_is_named_by_its_numbers_in_braces() {
    let location = |v: &[&str]| {
        Location::from_dimension(&v.iter().map(|x| dim("axis", x)).collect::<Vec<_>>())
    };
    assert_eq!(location(&["123", "456"]).unwrap().to_string(), "{123, 456}");
    assert_eq!(location(&["500"]).unwrap().to_string(), "{500}");
    assert_eq!(location(&["0.5", "-1", "2", "3", "4", "5.25"]).unwrap().to_string(), "{0.5, -1, 2, 3, 4, 5.25}");
    assert_eq!(
        location(&["1.5", "2"]).unwrap().as_tuple(),
        (dec("1.5"), Some(dec("2")), None, None, None, None)
    );
    assert_eq!(
        location(&["1", "2", "3", "4", "5", "6"]).unwrap().as_tuple(),
        (dec("1"), Some(dec("2")), Some(dec("3")), Some(dec("4")), Some(dec("5")), Some(dec("6")))
    );
    fails(location(&[]), ErrorKind::EmptyLocation, "");
    fails(location(&["1", "2", "3", "4", "5", "6", "7"]), ErrorKind::TooManyAxes, "");
    assert_eq!(ErrorKind::EmptyLocation.class(), ErrorClass::Configuration);
    assert_eq!(ErrorKind::TooManyAxes.class(), ErrorClass::Configuration);
    let unset = Dimension { name: s("w"), uservalue: Some(dec("3")), xvalue: None, yvalue: None };
    assert_eq!(Location::from_dimension(&vec![unset]).unwrap().to_string(), "{0}");
}

#[test]
fn each_font_object_receives_the_layers_that_its_sources_name() {
    let context = Glyphs2DesignspaceContext::new(font(), &designspace()).unwrap();
    assert_eq!(context.font, font());
    assert_eq!(
        context.ufo_mapping,
        vec![
            (
                s("Light.ufo"),
                vec![(s("M-LIGHT"), None), (s("{500, 100}"), Some(s("medium")))]
            ),
            (s("Bold.ufo"), vec![(s("M-BOLD"), None)]),
        ]
    );
    let mut again = designspace();
    again.sources.push(source("medium2", "Light.ufo", None, Some("other"), vec![dim("Weight", "500"), dim("Width", "100")]));
    again.sources.push(source("bold2", "Light.ufo", Some("Bold"), None, vec![]));
    assert_eq!(
        Glyphs2DesignspaceContext::new(font(), &again).unwrap().ufo_mapping,
        vec![
            (
                s("Light.ufo"),
                vec![(s("M-LIGHT"), None), (s("{500, 100}"), Some(s("other"))), (s("M-BOLD"), None)]
            ),
            (s("Bold.ufo"), vec![(s("M-BOLD"), None)]),
        ]
    );
}

#[test]
fn a_source_must_lead_to_a_layer_of_the_font() {
    let with = |change: fn(&mut Designspace)| {
        let mut d = designspace();
        change(&mut d);
        Glyphs2DesignspaceContext::new(font(), &d)
    };
    fails(with(|d| d.sources[1].stylename = None), ErrorKind::MissingStyleName, "bold");
    fails(with(|d| d.sources[1].stylename = Some(s("Black"))), ErrorKind::MissingMaster, "Black");
    assert_eq!(ErrorKind::MissingMaster.class(), ErrorClass::Lookup);
    fails(with(|d| d.sources[2].location = vec![]), ErrorKind::EmptyLocation, "");
    fails(
        with(|d| d.sources[2].location = (0..7).map(|_| dim("x", "1")).collect()),
        ErrorKind::TooManyAxes,
        "",
    );
}

#[test]
fn a_layer_becomes_a_drawing_of_a_font_object() {
    let font = font();
    let converted = convert_glyphs_glyph_to_ufo_glyph(&font.glyphs[0], &font.glyphs[0].layers[0]).unwrap();
    assert_eq!(converted.name, "converted_glyph");
    assert_eq!(converted.width, dec("601"));
    assert_eq!(converted.codepoints, norad::Codepoints::new(['A']));
    assert_eq!(
        converted.anchors,
        vec![UfoAnchor { x: dec("300"), y: dec("700"), name: Some(s("top")) }]
    );
    assert_eq!(
        converted.contours,
        vec![
            Contour {
                points: vec![
                    point("0", "0", PointType::Line, false),
                    point("100", "0", PointType::Line, true),
                    point("50", "80", PointType::Curve, false),
                ],
            },
            Contour {
                points: vec![
                    point("1", "2", PointType::Move, false),
                    point("3", "4", PointType::QCurve, true),
                ],
            },
        ]
    );
    assert_eq!(converted.components.len(), 2);
    assert_eq!(converted.components[0], UfoComponent { base: s("B"), transform: Affine::identity() });
    assert_eq!(converted.components[1].base, "C");
    assert_eq!(converted.components[1].transform.x_scale, dec("2"));
    assert_eq!(converted.components[1].transform.y_offset, dec("-10"));
    let bare = convert_glyphs_glyph_to_ufo_glyph(&font.glyphs[2], &font.glyphs[2].layers[0]).unwrap();
    assert_eq!(bare.codepoints, norad::Codepoints::new([]));
    assert_eq!(bare.anchors, vec![]);
    assert_eq!(bare.contours, vec![]);
    assert_eq!(bare.components, vec![]);
}

#[test]
fn names_and_outlines_that_cannot_be_handed_over_stop_the_conversion() {
    let font = font();
    let mut bad_anchor = font.glyphs[0].layers[0].clone();
    bad_anchor.anchors.as_mut().unwrap().push(Anchor { name: s(""), position: Point::new(dec("0"), dec("0")) });
    fails(convert_glyphs_glyph_to_ufo_glyph(&font.glyphs[0], &bad_anchor), ErrorKind::InvalidName, "");
    let mut bad_component = font.glyphs[0].layers[0].clone();
    bad_component.components.as_mut().unwrap()[1].name = s("a\u{1}b");
    fails(
        convert_glyphs_glyph_to_ufo_glyph(&font.glyphs[0], &bad_component),
        ErrorKind::InvalidName,
        "a\u{1}b",
    );
    let mut smooth_start = font.glyphs[0].layers[0].clone();
    smooth_start.paths.as_mut().unwrap()[1].nodes[0].node_type = NodeType::LineSmooth;
    fails(convert_glyphs_glyph_to_ufo_glyph(&font.glyphs[0], &smooth_start), ErrorKind::OpenPathStart, "");
    let mut empty_open = font.glyphs[0].layers[0].clone();
    empty_open.paths.as_mut().unwrap()[1].nodes.clear();
    fails(convert_glyphs_glyph_to_ufo_glyph(&font.glyphs[0], &empty_open), ErrorKind::OpenPathStart, "");
    assert_eq!(ErrorKind::OpenPathStart.class(), ErrorClass::Outline);
    let mut empty_closed = font.glyphs[0].layers[0].clone();
    empty_closed.paths.as_mut().unwrap()[0].nodes.clear();
    assert_eq!(
        convert_glyphs_glyph_to_ufo_glyph(&font.glyphs[0], &empty_closed).unwrap().contours[0],
        Contour { points: vec![] }
    );
}

#[test]
fn a_font_object_is_overwritten_where_it_has_the_glyph() {
    let targets = vec![(s("M-LIGHT"), None), (s("{500, 100}"), Some(s("medium")))];
    let (ufo, skipped) = update_ufo(&font(), &targets, light_ufo()).unwrap();
    assert_eq!(ufo.font_info, info());
    assert_eq!(ufo.lib, vec![(s("kept"), Plist::Integer(1))]);
    assert_eq!(ufo.layers.len(), 2);
    let default = &ufo.layers[0];
    assert_eq!(default.name, "public.default");
    assert_eq!(
        default.glyphs.iter().map(|g| (g.name.as_str(), g.width.to_string())).collect::<Vec<_>>(),
        vec![("B", s("621")), ("A", s("601")), ("Z", s("3"))]
    );
    let a = &default.glyphs[1];
    assert_eq!(a.codepoints, norad::Codepoints::new(['A']));
    assert_eq!(a.anchors, vec![UfoAnchor { x: dec("300"), y: dec("700"), name: Some(s("top")) }]);
    assert_eq!(a.contours.len(), 2);
    assert_eq!(a.components.len(), 2);
    let b = &default.glyphs[0];
    assert_eq!(b.codepoints, norad::Codepoints::new(['B']));
    assert_eq!(b.anchors, vec![]);
    assert_eq!(b.contours, vec![]);
    assert_eq!(b.components, vec![]);
    assert_eq!(default.glyphs[2], ufo_glyph("Z", "3", &['z']));
    let medium = &ufo.layers[1].glyphs[0];
    assert_eq!(medium.name, "A");
    assert_eq!(medium.width, dec("611"));
    assert_eq!(medium.anchors, vec![]);
    assert_eq!(skipped, vec![Skipped::Glyph { glyph: s("E"), layer: None }]);
}

#[test]
fn code_points_go_into_the_default_layer_only() {
    let targets = vec![(s("M-LIGHT"), None), (s("{500, 100}"), Some(s("medium")))];
    let (ufo, _) = update_ufo(&font(), &targets, light_ufo()).unwrap();
    assert_eq!(ufo.layers[0].glyphs[1].codepoints, norad::Codepoints::new(['A']));
    assert_eq!(ufo.layers[1].glyphs[0].codepoints, norad::Codepoints::new([]));
    assert!(ufo.layers[1].glyphs[0].codepoints.is_empty());
    let by_name = vec![(s("M-LIGHT"), Some(s("public.default")))];
    let (ufo, _) = update_ufo(&font(), &by_name, light_ufo()).unwrap();
    assert_eq!(ufo.layers[0].glyphs[1].codepoints, norad::Codepoints::new(['A']));
    let (ufo, _) = update_ufo(&font(), &vec![(s("M-LIGHT"), Some(s("medium")))], light_ufo()).unwrap();
    assert_eq!(ufo.layers[1].glyphs[0].width, dec("601"));
    assert!(ufo.layers[1].glyphs[0].codepoints.is_empty());
    assert_eq!(ufo.layers[0], light_ufo().layers[0]);
}

#[test]
fn what_a_font_object_lacks_is_passed_over() {
    let (ufo, skipped) = update_ufo(&font(), &vec![(s("M-LIGHT"), Some(s("heavy")))], light_ufo()).unwrap();
    assert_eq!(ufo, light_ufo());
    assert_eq!(
        skipped,
        vec![Skipped::Layer(s("heavy")), Skipped::Layer(s("heavy")), Skipped::Layer(s("heavy"))]
    );
    let (ufo, skipped) = update_ufo(&font(), &vec![(s("{500, 100}"), None)], bold_ufo()).unwrap();
    assert_eq!(ufo.layers[0].glyphs[0].width, dec("611"));
    assert_eq!(skipped, vec![]);
    let (ufo, skipped) = update_ufo(&font(), &vec![(s("M-OTHER"), None)], bold_ufo()).unwrap();
    assert_eq!(ufo, bold_ufo());
    assert_eq!(skipped, vec![Skipped::Glyph { glyph: s("B"), layer: None }]);
    let (ufo, skipped) = update_ufo(&font(), &vec![], light_ufo()).unwrap();
    assert_eq!(ufo, light_ufo());
    assert_eq!(skipped, vec![]);
    let mut bare = bold_ufo();
    bare.layers.clear();
    let (ufo, skipped) = update_ufo(&font(), &vec![(s("M-BOLD"), None)], bare.clone()).unwrap();
    assert_eq!(ufo, bare);
    assert_eq!(skipped, vec![Skipped::Layer(s(""))]);
    let mut broken = font();
    broken.glyphs[0].layers[1].anchors = Some(vec![Anchor { name: s(""), position: Point::new(dec("0"), dec("0")) }]);
    fails(update_ufo(&broken, &vec![(s("M-BOLD"), None)], bold_ufo()), ErrorKind::InvalidName, "");
    let mut without_a = bold_ufo();
    without_a.layers[0].glyphs[0].name = s("Q");
    assert_eq!(
        update_ufo(&broken, &vec![(s("M-BOLD"), None)], without_a.clone()),
        Ok((without_a, vec![Skipped::Glyph { glyph: s("A"), layer: None }]))
    );
}

#[test]
fn a_font_goes_into_every_font_object_of_a_designspace() {
    let ufos = vec![(s("Bold.ufo"), bold_ufo()), (s("Light.ufo"), light_ufo())];
    let done = command_to_designspace(font(), &designspace(), &ufos).unwrap();
    assert_eq!(done.len(), 2);
    assert_eq!(done[0].0, "Light.ufo");
    assert_eq!(done[0].1.layers[0].glyphs[1].width, dec("601"));
    assert_eq!(done[0].1.layers[1].glyphs[0].width, dec("611"));
    assert_eq!(done[0].2, vec![Skipped::Glyph { glyph: s("E"), layer: None }]);
    assert_eq!(done[1].0, "Bold.ufo");
    assert_eq!(done[1].1.layers[0].glyphs[0].width, dec("701"));
    assert_eq!(done[1].2, vec![]);
    fails(
        command_to_designspace(font(), &designspace(), &vec![(s("Light.ufo"), light_ufo())]),
        ErrorKind::MissingFontObject,
        "Bold.ufo",
    );
    let mut unnamed = designspace();
    unnamed.sources[0].stylename = None;
    fails(command_to_designspace(font(), &unnamed, &ufos), ErrorKind::MissingStyleName, "light");
}

#[test]
fn a_normalizer_that_is_not_installed_is_put_up_with() {
    assert_eq!(run_ufonormalizer(NormalizerOutcome::Ran { success: true }), NormalizerVerdict::Done);
    assert_eq!(run_ufonormalizer(NormalizerOutcome::Ran { success: false }), NormalizerVerdict::Fatal);
    assert_eq!(run_ufonormalizer(NormalizerOutcome::NotFound), NormalizerVerdict::Skipped);
    assert_eq!(run_ufonormalizer(NormalizerOutcome::Failed), NormalizerVerdict::Fatal);
}
