use glyphstool::context::{
    design_location, design_location_float, map_axis_value_backwards, map_axis_value_forwards,
    DesignspaceContext, LayerId,
};
use glyphstool::decimal::Decimal;
use glyphstool::designspace::{
    Axis, AxisMapping, Designspace, Dimension, InstanceSource, Source,
};
use glyphstool::error::{ConversionError, ErrorClass, ErrorKind};
use glyphstool::font::{Anchor, Component, Instance, Node, Path};
use glyphstool::geometry::{Affine, Point};
use glyphstool::node_type::NodeType;
use glyphstool::plist::Plist;
use glyphstool::properties::{glyph_order, FontProperties};
use glyphstool::to_glyphs::{
    command_to_glyphs, instance_from, layer_from, master_from, new_glyph_from,
};
use glyphstool::ufo::{
    Contour, ContourPoint, FontInfo, PointType, Ufo, UfoAnchor, UfoComponent, UfoGlyph, UfoLayer,
};

fn dec(text: &str) -> Decimal {
    Decimal::parse(text).expect("a number")
}

fn s(text: &str) -> String {
    text.to_string()
}

fn text(t: &str) -> Plist {
    Plist::String(t.to_string())
}

fn dict(entries: Vec<(&str, Plist)>) -> Plist {
    Plist::Dictionary(entries.into_iter().map(|(k, v)| (k.to_string(), v)).collect())
}

fn dim(name: &str, x: &str) -> Dimension {
    Dimension { name: s(name), uservalue: None, xvalue: Some(dec(x)), yvalue: None }
}

fn axis(name: &str, tag: &str, default: &str, map: Option<Vec<(&str, &str)>>) -> Axis {
    Axis {
        name: s(name),
        tag: s(tag),
        default: dec(default),
        map: map.map(|rows| {
            rows.into_iter()
                .map(|(input, output)| AxisMapping { input: dec(input), output: dec(output) })
                .collect()
        }),
    }
}

fn source(name: &str, filename: &str, style: Option<&str>, layer: Option<&str>, location: Vec<Dimension>) -> Source {
    Source {
        name: s(name),
        filename: s(filename),
        stylename: style.map(s),
        layer: layer.map(s),
        location,
    }
}

fn point(x: &str, y: &str, typ: PointType, smooth: bool) -> ContourPoint {
    ContourPoint { x: dec(x), y: dec(y), typ, smooth }
}

fn ufo_glyph(name: &str, width: &str, codepoints: &[char]) -> UfoGlyph {
    UfoGlyph {
        name: s(name),
        width: dec(width),
        codepoints: norad::Codepoints::new(codepoints.iter().copied()),
        anchors: vec![],
        contours: vec![],
        components: vec![],
    }
}

fn info() -> FontInfo {
    FontInfo {
        family_name: None,
        units_per_em: None,
        version_major: None,
        version_minor: None,
        ascender: None,
        cap_height: None,
        descender: None,
        x_height: None,
        italic_angle: None,
    }
}

fn triangle() -> Contour {
    Contour {
        points: vec![
            point("0", "0", PointType::Line, false),
            point("100", "0", PointType::Line, true),
            point("50", "80.5", PointType::Curve, true),
        ],
    }
}

fn light_ufo() -> Ufo {
    let mut a = ufo_glyph("A", "600", &['A']);
    a.contours = vec![triangle()];
    a.anchors = vec![
        UfoAnchor { x: dec("300"), y: dec("700"), name: Some(s("top")) },
        UfoAnchor { x: dec("1"), y: dec("2"), name: None },
    ];
    let mut c = ufo_glyph("C", "650", &['C']);
    c.components = vec![
        UfoComponent { base: s("A"), transform: Affine::identity() },
        UfoComponent {
            base: s("B"),
            transform: Affine {
                x_scale: dec("1"),
                xy_scale: dec("0"),
                yx_scale: dec("0"),
                y_scale: dec("1"),
                x_offset: dec("40"),
                y_offset: dec("0"),
            },
        },
    ];
    Ufo {
        font_info: FontInfo {
            family_name: Some(s("Test Family")),
            units_per_em: Some(dec("2048")),
            version_major: Some(3),
            version_minor: Some(7),
            ascender: Some(dec("799.5")),
            cap_height: None,
            descender: Some(dec("-250.5")),
            x_height: Some(dec("510.4")),
            italic_angle: Some(dec("-12.5")),
        },
        lib: vec![
            (s("public.glyphOrder"), Plist::Array(vec![text("A"), text("C")])),
            (
                s("com.schriftgestaltung.customParameter.GSFont.disablesAutomaticAlignment"),
                Plist::Boolean(false),
            ),
        ],
        layers: vec![
            UfoLayer { name: s("public.default"), glyphs: vec![c, ufo_glyph("B", "620", &['B']), a] },
            UfoLayer { name: s("medium"), glyphs: vec![ufo_glyph("A", "610", &['A'])] },
        ],
    }
}

fn bold_ufo() -> Ufo {
    Ufo {
        font_info: info(),
        lib: vec![],
        layers: vec![UfoLayer {
            name: s("public.default"),
            glyphs: vec![
                ufo_glyph("A", "700", &['A']),
                ufo_glyph("B", "720", &['B']),
                ufo_glyph("D", "730", &['D']),
            ],
        }],
    }
}

fn designspace() -> Designspace {
    Designspace {
        axes: vec![
            axis("Weight", "wght", "300", Some(vec![("300", "0"), ("700", "1000")])),
            axis("Width", "wdth", "100", None),
        ],
        sources: vec![
            source("light", "Light.ufo", Some("Light"), None, vec![dim("Weight", "0"), dim("Width", "100")]),
            source("bold", "Bold.ufo", Some("Bold"), None, vec![dim("Weight", "1000"), dim("Width", "100")]),
            source("medium", "Light.ufo", Some("Medium"), Some("medium"), vec![dim("Weight", "500"), dim("Width", "100")]),
        ],
        instances: vec![
            InstanceSource {
                stylename: Some(s("Regular")),
                stylemapfamilyname: Some(s("Test Family")),
                stylemapstylename: Some(s("regular")),
                location: vec![dim("Weight", "400.5"), dim("Width", "100")],
            },
            InstanceSource {
                stylename: None,
                stylemapfamilyname: None,
                stylemapstylename: None,
                location: vec![],
            },
        ],
    }
}

fn ufos() -> Vec<(String, Ufo)> {
    vec![(s("Light.ufo"), light_ufo()), (s("Bold.ufo"), bold_ufo())]
}

fn ids() -> Vec<String> {
    vec![s("ID-LIGHT"), s("ID-BOLD"), s("ID-MEDIUM")]
}

fn context() -> DesignspaceContext {
    DesignspaceContext::with_ids(designspace(), ufos(), ids()).unwrap()
}

fn fails<T: std::fmt::Debug>(r: Result<T, ConversionError>, kind: ErrorKind, subject: &str) {
    assert_eq!(r.err(), Some(ConversionError { kind, subject: subject.to_string() }));
}

#[test]
fn an_axis_value_is_mapped_by_an_exact_row_only() {
    let weight = axis("Weight", "wght", "0", Some(vec![("0", "0"), ("100", "1000")]));
    fails(map_axis_value_backwards(&weight, &dec("500")), ErrorKind::MappingNotFound, "Weight");
    assert_eq!(map_axis_value_backwards(&weight, &dec("1000")), Ok(dec("100")));
    assert_eq!(map_axis_value_backwards(&weight, &dec("0")), Ok(dec("0")));
    assert_eq!(map_axis_value_backwards(&weight, &dec("-0")), Ok(dec("0")));
    assert_eq!(map_axis_value_forwards(&weight, &dec("100")), Ok(dec("1000")));
    fails(map_axis_value_forwards(&weight, &dec("1000")), ErrorKind::MappingNotFound, "Weight");
    fails(map_axis_value_forwards(&weight, &dec("50")), ErrorKind::MappingNotFound, "Weight");
    assert_eq!(ErrorKind::MappingNotFound.class(), ErrorClass::MappingNotFound);
    let plain = axis("Width", "wdth", "100", None);
    assert_eq!(map_axis_value_backwards(&plain, &dec("77.5")), Ok(dec("77.5")));
    assert_eq!(map_axis_value_forwards(&plain, &dec("77.5")), Ok(dec("77.5")));
    let twice = axis("X", "xxxx", "0", Some(vec![("1", "5"), ("2", "5")]));
    assert_eq!(map_axis_value_backwards(&twice, &dec("5")), Ok(dec("1")));
    let empty = axis("Y", "yyyy", "0", Some(vec![]));
    fails(map_axis_value_backwards(&empty, &dec("0")), ErrorKind::MappingNotFound, "Y");
}

#[test]
fn a_location_goes_into_six_slots_by_position() {
    assert_eq!(design_location(&vec![]), (0, None, None, None, None, None));
    assert_eq!(
        design_location(&vec![dim("b", "1.5"), dim("a", "-2.5"), dim("c", "3.49")]),
        (2, Some(-3), Some(3), None, None, None)
    );
    let seven: Vec<Dimension> = (1..=7).map(|i| dim("x", &format!("{}", i))).collect();
    assert_eq!(design_location(&seven), (1, Some(2), Some(3), Some(4), Some(5), Some(6)));
    let unset = Dimension { name: s("w"), uservalue: Some(dec("9")), xvalue: None, yvalue: None };
    assert_eq!(design_location(&vec![unset.clone(), unset]), (0, Some(0), None, None, None, None));
    assert_eq!(
        design_location_float(&vec![]),
        (dec("0"), None, None, None, None, None)
    );
    assert_eq!(
        design_location_float(&vec![dim("b", "1.5"), dim("a", "-2.5")]),
        (dec("1.5"), Some(dec("-2.5")), None, None, None, None)
    );
}

#[test]
fn the_order_of_glyphs_is_the_list_and_then_the_rest_by_name() {
    let names = |v: &[&str]| v.iter().map(|n| n.to_string()).collect::<Vec<String>>();
    assert_eq!(glyph_order(&names(&["A", "C"]), &names(&["A", "B", "C"])), names(&["A", "C", "B"]));
    assert_eq!(glyph_order(&names(&[]), &names(&["b", "a", "B", "A", "aa"])), names(&["A", "B", "a", "aa", "b"]));
    assert_eq!(
        glyph_order(&names(&["x", "A", "x"]), &names(&["zeta", "A", "alpha", "Z"])),
        names(&["x", "A", "Z", "alpha", "zeta"])
    );
    assert_eq!(glyph_order(&names(&["A"]), &names(&[])), names(&["A"]));
    assert_eq!(glyph_order(&names(&[]), &names(&["a", "a"])), names(&["a"]));
    assert_eq!(
        glyph_order(&names(&[]), &names(&["\u{e9}", "z", "e", "ea", ""])),
        names(&["", "e", "ea", "z", "\u{e9}"])
    );
}

#[test]
fn a_context_needs_a_designspace_that_can_be_converted() {
    let mut twice = designspace();
    twice.sources[1].name = s("light");
    fails(
        DesignspaceContext::with_ids(twice.clone(), ufos(), ids()),
        ErrorKind::DuplicateSourceName,
        "light",
    );
    fails(DesignspaceContext::new(twice, ufos()), ErrorKind::DuplicateSourceName, "light");
    assert_eq!(ErrorKind::DuplicateSourceName.class(), ErrorClass::Configuration);
    let mut wide = designspace();
    for i in 0..5 {
        wide.axes.push(axis(&format!("Axis{}", i), "xxxx", "0", None));
    }
    fails(DesignspaceContext::new(wide.clone(), ufos()), ErrorKind::TooManyAxes, "");
    wide.axes.pop();
    assert!(DesignspaceContext::new(wide, ufos()).is_ok());
    fails(
        DesignspaceContext::new(designspace(), vec![(s("Light.ufo"), light_ufo())]),
        ErrorKind::MissingFontObject,
        "Bold.ufo",
    );
    assert_eq!(ErrorKind::MissingFontObject.class(), ErrorClass::Lookup);
    fails(
        DesignspaceContext::with_ids(designspace(), ufos(), vec![s("a")]),
        ErrorKind::IdentifierCount,
        "",
    );
}

#[test]
fn no_two_sources_have_one_identifier() {
    fails(
        DesignspaceContext::with_ids(designspace(), ufos(), vec![s("a"), s("b"), s("a")]),
        ErrorKind::RepeatedIdentifier,
        "a",
    );
    fails(
        DesignspaceContext::with_ids(designspace(), ufos(), vec![s("b"), s("b"), s("b")]),
        ErrorKind::RepeatedIdentifier,
        "b",
    );
    assert_eq!(ErrorKind::RepeatedIdentifier.class(), ErrorClass::Configuration);
    // The count is looked at first.
    fails(
        DesignspaceContext::with_ids(designspace(), ufos(), vec![s("a"), s("a")]),
        ErrorKind::IdentifierCount,
        "",
    );
    let given = DesignspaceContext::with_ids(designspace(), ufos(), ids()).unwrap();
    assert_eq!(given.ids(), &ids());
    let drawn = DesignspaceContext::new(designspace(), ufos()).unwrap();
    let fresh = drawn.ids();
    assert_eq!(fresh.len(), 3);
    for i in 0..fresh.len() {
        assert_eq!(fresh[i].len(), 36);
        for j in 0..i {
            assert_ne!(fresh[i], fresh[j]);
        }
    }
}

#[test]
fn a_fresh_context_has_an_identifier_for_each_source() {
    let context = DesignspaceContext::new(designspace(), ufos()).unwrap();
    let ids = context.ids();
    assert_eq!(ids.len(), 3);
    for id in ids {
        assert_eq!(id.chars().count(), 36);
        for (i, c) in id.chars().enumerate() {
            if i == 8 || i == 13 || i == 18 || i == 23 {
                assert_eq!(c, '-');
            } else {
                assert!(c.is_ascii_digit() || ('A'..='F').contains(&c));
            }
        }
    }
    assert_ne!(ids[0], ids[1]);
    assert_ne!(ids[1], ids[2]);
    assert_eq!(context.designspace(), &designspace());
    assert_eq!(context.ufos(), &ufos());
}

#[test]
fn a_source_with_a_layer_belongs_to_the_master_in_its_font_object() {
    let context = context();
    assert_eq!(context.id_for_source_name(0), Ok(LayerId::Master(s("ID-LIGHT"))));
    assert_eq!(context.id_for_source_name(1), Ok(LayerId::Master(s("ID-BOLD"))));
    assert_eq!(
        context.id_for_source_name(2),
        Ok(LayerId::AssociatedWithMaster(s("ID-LIGHT"), s("ID-MEDIUM"), s("medium")))
    );
    assert_eq!(context.source_id(2), "ID-MEDIUM");
    assert_eq!(context.source_ufo(2), &light_ufo());
    let mut orphan = designspace();
    orphan.sources[0].layer = Some(s("public.default"));
    let context = DesignspaceContext::with_ids(orphan, ufos(), ids()).unwrap();
    fails(context.id_for_source_name(2), ErrorKind::MissingParentMaster, "medium");
    assert_eq!(ErrorKind::MissingParentMaster.class(), ErrorClass::Lookup);
}

#[test]
fn the_default_source_stands_at_the_default_of_every_axis() {
    assert_eq!(context().default_source(), Ok(0));
    assert_eq!(context().axis_by_name("Width"), Some(1));
    assert_eq!(context().axis_by_name("Slant"), None);
    let mut moved = designspace();
    moved.axes[0].default = dec("700");
    assert_eq!(DesignspaceContext::new(moved, ufos()).unwrap().default_source(), Ok(1));
    let mut unmapped = designspace();
    unmapped.axes[0].default = dec("400");
    fails(
        DesignspaceContext::new(unmapped, ufos()).unwrap().default_source(),
        ErrorKind::MappingNotFound,
        "Weight",
    );
    let mut nowhere = designspace();
    nowhere.axes[1].default = dec("75");
    fails(
        DesignspaceContext::new(nowhere, ufos()).unwrap().default_source(),
        ErrorKind::MissingDefaultSource,
        "",
    );
    let mut with_user_value = designspace();
    with_user_value.sources[0].location[0].uservalue = Some(dec("300"));
    assert_eq!(
        DesignspaceContext::new(with_user_value, ufos()).unwrap().default_source().err().map(|e| e.kind),
        Some(ErrorKind::MissingDefaultSource)
    );
}

#[test]
fn the_axes_and_the_place_of_a_master_are_written_down_by_name() {
    let context = context();
    assert_eq!(
        context.global_axes(),
        Plist::Array(vec![
            dict(vec![("Name", text("Weight")), ("Tag", text("wght"))]),
            dict(vec![("Name", text("Width")), ("Tag", text("wdth"))]),
        ])
    );
    assert_eq!(
        context.axis_location(&vec![dim("Width", "87.5"), dim("Weight", "1000")]),
        Ok(Plist::Array(vec![
            dict(vec![("Axis", text("Width")), ("Location", Plist::Integer(88))]),
            dict(vec![("Axis", text("Weight")), ("Location", Plist::Integer(700))]),
        ]))
    );
    assert_eq!(context.axis_location(&vec![]), Ok(Plist::Array(vec![])));
    fails(context.axis_location(&vec![dim("Slant", "0")]), ErrorKind::MissingAxis, "Slant");
    fails(
        context.axis_location(&vec![dim("Width", "1"), dim("Weight", "500")]),
        ErrorKind::MappingNotFound,
        "Weight",
    );
    assert_eq!(ErrorKind::MissingAxis.class(), ErrorClass::Lookup);
}

#[test]
fn the_first_font_object_that_says_it_describes_the_family() {
    assert_eq!(
        FontProperties::from_context(&context()),
        Ok(FontProperties {
            disables_automatic_alignment: false,
            family_name: s("Test Family"),
            glyph_order: vec![s("A"), s("C"), s("B")],
            units_per_em: 2048,
            version_major: 3,
            version_minor: 7,
        })
    );
    // The default source is the second one, and only the first one's font
    // object describes the family.
    let mut moved = designspace();
    moved.axes[0].default = dec("700");
    assert_eq!(
        FontProperties::from_context(&DesignspaceContext::new(moved.clone(), ufos()).unwrap()),
        Ok(FontProperties {
            disables_automatic_alignment: true,
            family_name: s("Test Family"),
            glyph_order: vec![s("A"), s("B"), s("D")],
            units_per_em: 2048,
            version_major: 3,
            version_minor: 7,
        })
    );
    // Each field by itself, from the first font object that has it.
    let mut light = light_ufo();
    light.font_info.family_name = None;
    light.font_info.version_minor = None;
    let mut bold = bold_ufo();
    bold.font_info.family_name = Some(s("Beta"));
    bold.font_info.units_per_em = Some(dec("500.5"));
    bold.font_info.version_major = Some(9);
    bold.font_info.version_minor = Some(4);
    let mixed = vec![(s("Light.ufo"), light), (s("Bold.ufo"), bold)];
    for d in [designspace(), moved] {
        let properties =
            FontProperties::from_context(&DesignspaceContext::new(d, mixed.clone()).unwrap()).unwrap();
        assert_eq!(properties.family_name, s("Beta"));
        assert_eq!(properties.units_per_em, 2048);
        assert_eq!(properties.version_major, 3);
        assert_eq!(properties.version_minor, 4);
    }
    // Where no font object says it, the family is a new one.
    let mut silent = light_ufo();
    silent.font_info = info();
    assert_eq!(
        FontProperties::from_context(
            &DesignspaceContext::new(
                designspace(),
                vec![(s("Light.ufo"), silent), (s("Bold.ufo"), bold_ufo())]
            )
            .unwrap()
        ),
        Ok(FontProperties {
            disables_automatic_alignment: false,
            family_name: s("New Font"),
            glyph_order: vec![s("A"), s("C"), s("B")],
            units_per_em: 1000,
            version_major: 1,
            version_minor: 0,
        })
    );
}

#[test]
fn a_source_with_a_layer_does_not_describe_the_family() {
    let mut sparse = bold_ufo();
    sparse.font_info.family_name = Some(s("Sparse"));
    sparse.font_info.units_per_em = Some(dec("10"));
    sparse.layers.push(UfoLayer { name: s("x"), glyphs: vec![] });
    let mut d = designspace();
    d.sources.insert(
        0,
        source("sparse", "Sparse.ufo", None, Some("x"), vec![dim("Weight", "200"), dim("Width", "100")]),
    );
    let mut u = ufos();
    u.insert(0, (s("Sparse.ufo"), sparse));
    let properties =
        FontProperties::from_context(&DesignspaceContext::new(d, u).unwrap()).unwrap();
    assert_eq!(properties.family_name, s("Test Family"));
    assert_eq!(properties.units_per_em, 2048);
}

#[test]
fn the_glyph_order_must_be_a_list_of_names() {
    let with_lib = |lib: Vec<(String, Plist)>| {
        let mut light = light_ufo();
        light.lib = lib;
        FontProperties::from_context(
            &DesignspaceContext::new(designspace(), vec![(s("Light.ufo"), light), (s("Bold.ufo"), bold_ufo())])
                .unwrap(),
        )
    };
    let key = "com.schriftgestaltung.customParameter.GSFont.disablesAutomaticAlignment";
    assert_eq!(with_lib(vec![(s(key), Plist::Integer(0))]).unwrap().disables_automatic_alignment, true);
    assert_eq!(with_lib(vec![(s(key), Plist::Boolean(true))]).unwrap().disables_automatic_alignment, true);
    fails(with_lib(vec![(s("public.glyphOrder"), text("A"))]), ErrorKind::BadGlyphOrder, "");
    fails(
        with_lib(vec![(s("public.glyphOrder"), Plist::Array(vec![text("A"), Plist::Integer(1)]))]),
        ErrorKind::BadGlyphOrder,
        "",
    );
    assert_eq!(ErrorKind::BadGlyphOrder.class(), ErrorClass::Configuration);
    let mut bare = light_ufo();
    bare.layers = vec![];
    fails(
        FontProperties::from_context(
            &DesignspaceContext::new(designspace(), vec![(s("Light.ufo"), bare), (s("Bold.ufo"), bold_ufo())])
                .unwrap(),
        ),
        ErrorKind::MissingLayer,
        "Light.ufo",
    );
}

fn parameters(axis_location: Plist, name: &str) -> Vec<(String, Plist)> {
    vec![(
        s("customParameters"),
        Plist::Array(vec![
            dict(vec![("name", text("Axis Location")), ("value", axis_location)]),
            dict(vec![("name", text("Master Name")), ("value", text(name))]),
        ]),
    )]
}

#[test]
fn a_master_takes_metrics_and_place_from_its_source() {
    let context = context();
    let light = master_from(&context, 0).unwrap();
    assert_eq!(light.id, "ID-LIGHT");
    assert_eq!(light.ascender, Some(800));
    assert_eq!(light.cap_height, Some(700));
    assert_eq!(light.descender, Some(-251));
    assert_eq!(light.x_height, Some(510));
    assert_eq!(light.italic_angle, Some(dec("12.5")));
    assert_eq!(light.weight_value, Some(dec("0")));
    assert_eq!(light.width_value, Some(dec("100")));
    assert_eq!(light.custom_value, None);
    assert_eq!(light.custom_value1, None);
    assert_eq!(light.custom_value2, None);
    assert_eq!(light.custom_value3, None);
    assert_eq!(
        light.other_stuff,
        parameters(
            Plist::Array(vec![
                dict(vec![("Axis", text("Weight")), ("Location", Plist::Integer(300))]),
                dict(vec![("Axis", text("Width")), ("Location", Plist::Integer(100))]),
            ]),
            "Light"
        )
    );
    assert_eq!(light.name(), Some("Light"));
    let bold = master_from(&context, 1).unwrap();
    assert_eq!(bold.id, "ID-BOLD");
    assert_eq!(bold.ascender, Some(800));
    assert_eq!(bold.cap_height, Some(700));
    assert_eq!(bold.descender, Some(-200));
    assert_eq!(bold.x_height, Some(500));
    assert_eq!(bold.italic_angle, None);
    assert_eq!(bold.weight_value, Some(dec("1000")));
    assert_eq!(bold.name(), Some("Bold"));
    let mut unnamed = designspace();
    unnamed.sources[1].stylename = None;
    fails(
        master_from(&DesignspaceContext::new(unnamed, ufos()).unwrap(), 1),
        ErrorKind::MissingStyleName,
        "bold",
    );
    assert_eq!(ErrorKind::MissingStyleName.class(), ErrorClass::Configuration);
    let mut off = designspace();
    off.sources[1].location[0] = dim("Weight", "999");
    fails(
        master_from(&DesignspaceContext::new(off, ufos()).unwrap(), 1),
        ErrorKind::MappingNotFound,
        "Weight",
    );
}

#[test]
fn an_instance_takes_its_flags_from_the_style_of_its_style_map() {
    let with_style = |style: Option<&str>| InstanceSource {
        stylename: Some(s("Some Style")),
        stylemapfamilyname: Some(s("Family")),
        stylemapstylename: style.map(s),
        location: vec![dim("Weight", "400.5"), dim("Width", "90")],
    };
    let flags = |style: Option<&str>| {
        instance_from(&with_style(style)).map(|i| (i.is_bold, i.is_italic))
    };
    assert_eq!(flags(None), Ok((Some(false), Some(false))));
    assert_eq!(flags(Some("regular")), Ok((Some(false), Some(false))));
    assert_eq!(flags(Some("bold")), Ok((Some(true), Some(false))));
    assert_eq!(flags(Some("italic")), Ok((Some(false), Some(true))));
    assert_eq!(flags(Some("bold italic")), Ok((Some(true), Some(true))));
    fails(instance_from(&with_style(Some("Bold"))), ErrorKind::UnknownStyleMapStyle, "Bold");
    fails(instance_from(&with_style(Some(""))), ErrorKind::UnknownStyleMapStyle, "");
    assert_eq!(ErrorKind::UnknownStyleMapStyle.class(), ErrorClass::Naming);
    assert_eq!(
        instance_from(&with_style(Some("bold"))),
        Ok(Instance {
            name: s("Some Style"),
            interpolation_weight: Some(dec("400.5")),
            interpolation_width: Some(dec("90")),
            interpolation_custom: None,
            interpolation_custom1: None,
            interpolation_custom2: None,
            interpolation_custom3: None,
            is_bold: Some(true),
            is_italic: Some(false),
            link_style: Some(s("Family")),
            other_stuff: vec![],
        })
    );
    let bare = InstanceSource {
        stylename: None,
        stylemapfamilyname: None,
        stylemapstylename: None,
        location: vec![],
    };
    let instance = instance_from(&bare).unwrap();
    assert_eq!(instance.name, "");
    assert_eq!(instance.interpolation_weight, Some(dec("0")));
    assert_eq!(instance.interpolation_width, None);
    assert_eq!(instance.link_style, None);
}

fn node(x: &str, y: &str, node_type: NodeType) -> Node {
    Node { pt: Point::new(dec(x), dec(y)), node_type }
}

#[test]
fn a_layer_takes_the_outlines_of_its_glyph() {
    let light = light_ufo();
    let a = &light.layers[0].glyphs[2];
    let layer = layer_from(&LayerId::Master(s("M")), a);
    assert_eq!(layer.name, None);
    assert_eq!(layer.associated_master_id, None);
    assert_eq!(layer.layer_id, "M");
    assert_eq!(layer.width, dec("600"));
    assert_eq!(
        layer.paths,
        Some(vec![Path {
            closed: true,
            nodes: vec![
                node("100", "0", NodeType::LineSmooth),
                node("50", "80.5", NodeType::CurveSmooth),
                node("0", "0", NodeType::Line),
            ],
        }])
    );
    assert_eq!(layer.components, None);
    assert_eq!(
        layer.anchors,
        Some(vec![Anchor { name: s("top"), position: Point::new(dec("300"), dec("700")) }])
    );
    assert_eq!(layer.guide_lines, None);
    assert_eq!(layer.other_stuff, vec![]);
    let c = &light.layers[0].glyphs[0];
    let layer = layer_from(&LayerId::AssociatedWithMaster(s("M"), s("L"), s("medium")), c);
    assert_eq!(layer.name, Some(s("medium")));
    assert_eq!(layer.associated_master_id, Some(s("M")));
    assert_eq!(layer.layer_id, "L");
    assert_eq!(layer.paths, None);
    assert_eq!(layer.anchors, None);
    let components = layer.components.unwrap();
    assert_eq!(components.len(), 2);
    assert_eq!(components[0], Component { name: s("A"), transform: None, other_stuff: vec![] });
    assert_eq!(components[1].name, "B");
    assert_eq!(components[1].transform.as_ref().map(|t| t.x_offset.to_string()), Some(s("40")));
}

#[test]
fn an_anchor_without_a_name_is_left_out() {
    let mut glyph = ufo_glyph("A", "600", &[]);
    glyph.anchors = vec![
        UfoAnchor { x: dec("1"), y: dec("2"), name: Some(s("top")) },
        UfoAnchor { x: dec("3"), y: dec("4"), name: None },
    ];
    let layer = layer_from(&LayerId::Master(s("M")), &glyph);
    assert_eq!(layer.anchors.as_ref().map(|a| a.len()), Some(1));
    assert_eq!(layer.anchors.unwrap()[0].name, "top");
    glyph.anchors = vec![UfoAnchor { x: dec("3"), y: dec("4"), name: None }];
    assert_eq!(layer_from(&LayerId::Master(s("M")), &glyph).anchors, None);
}

#[test]
fn a_new_glyph_has_the_name_and_code_points_and_no_layers() {
    let glyph = new_glyph_from(&ufo_glyph("A", "600", &['A', 'a']));
    assert_eq!(glyph.glyphname, "A");
    assert_eq!(glyph.unicode, Some(norad::Codepoints::new(['A', 'a'])));
    assert_eq!(glyph.layers, vec![]);
    assert_eq!(glyph.left_kerning_group, None);
    assert_eq!(glyph.right_kerning_group, None);
    assert_eq!(glyph.other_stuff, vec![]);
}

#[test]
fn a_designspace_becomes_a_font() {
    let font = command_to_glyphs(&context()).unwrap();
    assert_eq!(font.family_name, "Test Family");
    assert_eq!(font.units_per_em, 2048);
    assert_eq!(font.version_major, 3);
    assert_eq!(font.version_minor, 7);
    assert_eq!(font.disables_automatic_alignment, Some(false));
    assert_eq!(
        font.font_master.iter().map(|m| m.id.as_str()).collect::<Vec<_>>(),
        vec!["ID-LIGHT", "ID-BOLD"]
    );
    let instances = font.instances.as_ref().unwrap();
    assert_eq!(instances.len(), 2);
    assert_eq!(instances[0].name, "Regular");
    assert_eq!(instances[0].interpolation_weight, Some(dec("400.5")));
    assert_eq!(instances[1].name, "");
    assert_eq!(
        font.glyphs.iter().map(|g| g.glyphname.as_str()).collect::<Vec<_>>(),
        vec!["A", "C", "B"]
    );
    let layers = |i: usize| {
        font.glyphs[i]
            .layers
            .iter()
            .map(|l| (l.layer_id.clone(), l.associated_master_id.clone(), l.name.clone(), l.width.to_string()))
            .collect::<Vec<_>>()
    };
    assert_eq!(
        layers(0),
        vec![
            (s("ID-LIGHT"), None, None, s("600")),
            (s("ID-BOLD"), None, None, s("700")),
            (s("ID-MEDIUM"), Some(s("ID-LIGHT")), Some(s("medium")), s("610")),
        ]
    );
    assert_eq!(layers(1), vec![(s("ID-LIGHT"), None, None, s("650"))]);
    assert_eq!(
        layers(2),
        vec![(s("ID-LIGHT"), None, None, s("620")), (s("ID-BOLD"), None, None, s("720"))]
    );
    assert_eq!(font.glyphs[0].unicode, Some(norad::Codepoints::new(['A'])));
    assert_eq!(
        font.other_stuff,
        vec![
            (s(".appVersion"), text("1361")),
            (
                s("customParameters"),
                Plist::Array(vec![
                    dict(vec![
                        ("name", text("Axes")),
                        (
                            "value",
                            Plist::Array(vec![
                                dict(vec![("Name", text("Weight")), ("Tag", text("wght"))]),
                                dict(vec![("Name", text("Width")), ("Tag", text("wdth"))]),
                            ])
                        ),
                    ]),
                    dict(vec![
                        ("name", text("glyphOrder")),
                        ("value", Plist::Array(vec![text("A"), text("C"), text("B")])),
                    ]),
                ])
            ),
        ]
    );
    let saved = font.save();
    assert_eq!(glyphstool::font::Font::load(&saved), Ok(font));
}

#[test]
fn the_identifiers_of_a_converted_font_are_in_order() {
    let font =
        command_to_glyphs(&DesignspaceContext::new(designspace(), ufos()).unwrap()).unwrap();
    let masters: Vec<&String> = font.font_master.iter().map(|m| &m.id).collect();
    assert_eq!(masters.len(), 2);
    assert_ne!(masters[0], masters[1]);
    for glyph in &font.glyphs {
        for (i, layer) in glyph.layers.iter().enumerate() {
            for earlier in &glyph.layers[..i] {
                assert_ne!(earlier.layer_id, layer.layer_id);
            }
            match &layer.associated_master_id {
                None => {
                    assert!(masters.contains(&&layer.layer_id));
                    assert_eq!(layer.name, None);
                }
                Some(parent) => {
                    assert!(masters.contains(&parent));
                    assert!(layer.name.is_some());
                    assert!(!masters.contains(&&layer.layer_id));
                }
            }
        }
    }
    assert_eq!(font.glyphs[0].layers.len(), 3);
    assert_eq!(font.glyphs[0].layers[2].associated_master_id.as_ref(), Some(masters[0]));
}

#[test]
fn a_designspace_that_lacks_something_becomes_no_font() {
    let convert = |d: Designspace, u: Vec<(String, Ufo)>| {
        command_to_glyphs(&DesignspaceContext::with_ids(d, u, ids()).unwrap())
    };
    let mut lost = designspace();
    lost.sources[2].layer = Some(s("heavy"));
    fails(convert(lost, ufos()), ErrorKind::MissingLayer, "heavy");
    assert_eq!(ErrorKind::MissingLayer.class(), ErrorClass::Lookup);
    let mut orphan = designspace();
    orphan.sources[2].filename = s("Other.ufo");
    let mut more = ufos();
    more.push((s("Other.ufo"), light_ufo()));
    fails(convert(orphan, more), ErrorKind::MissingParentMaster, "medium");
    let mut styled = designspace();
    styled.instances[0].stylemapstylename = Some(s("black"));
    fails(convert(styled, ufos()), ErrorKind::UnknownStyleMapStyle, "black");
    let mut unnamed = designspace();
    unnamed.sources[0].stylename = None;
    fails(convert(unnamed, ufos()), ErrorKind::MissingStyleName, "light");
    let mut nowhere = designspace();
    nowhere.sources[0].location[1] = dim("Width", "50");
    nowhere.sources[1].location[1] = dim("Width", "50");
    fails(convert(nowhere, ufos()), ErrorKind::MissingDefaultSource, "");
}
