use glyphstool::decimal::Decimal;
use glyphstool::grammar::ParseErrorKind;
use glyphstool::parse::ParseError;
use glyphstool::plist::Plist;

fn text(s: &str) -> Plist {
    Plist::String(s.to_string())
}

fn float(s: &str) -> Plist {
    Plist::Float(Decimal::parse(s).expect("a number"))
}

fn dict(entries: Vec<(&str, Plist)>) -> Plist {
    Plist::Dictionary(entries.into_iter().map(|(k, v)| (k.to_string(), v)).collect())
}

fn sample() -> Plist {
    dict(vec![
        ("name", text("Regular")),
        ("count", Plist::Integer(-42)),
        ("ratio", float("0.5")),
        ("whole", float("600")),
        ("nothing", float("inf")),
        ("flag", Plist::Boolean(true)),
        ("off", Plist::Boolean(false)),
        ("blob", Plist::Data(vec![0x0f, 0xbd, 0x00, 0xff])),
        ("list", Plist::Array(vec![Plist::Integer(1), text("two words"), Plist::Array(vec![])])),
        ("quoted \"key\"", text("back\\slash\nand \"quotes\"")),
        ("12", text("34")),
        ("uuid", text("3E7589AA-8194-470F-8E2F-13C1C581BE24")),
        ("empty", text("")),
        ("nested", dict(vec![("x", dict(vec![]))])),
    ])
}

#[test]
fn writes_each_kind_of_node() {
    assert_eq!(text("abc").to_string(), "abc");
    assert_eq!(text("a.b_c$/:1").to_string(), "a.b_c$/:1");
    assert_eq!(text("two words").to_string(), "\"two words\"");
    assert_eq!(text("").to_string(), "\"\"");
    assert_eq!(text("a-b").to_string(), "\"a-b\"");
    assert_eq!(text("say \"hi\"\\").to_string(), "\"say \\\"hi\\\"\\\\\"");
    assert_eq!(text("123").to_string(), "\"123\"");
    assert_eq!(text("1.5").to_string(), "\"1.5\"");
    assert_eq!(text("infinity").to_string(), "\"infinity\"");
    assert_eq!(text("0041").to_string(), "0041");
    assert_eq!(Plist::Integer(0).to_string(), "0");
    assert_eq!(Plist::Integer(-42).to_string(), "-42");
    assert_eq!(Plist::Integer(i64::MIN).to_string(), "-9223372036854775808");
    assert_eq!(float("600").to_string(), "600.0");
    assert_eq!(float("0.25").to_string(), "0.25");
    assert_eq!(float("-0").to_string(), "-0.0");
    assert_eq!(float("inf").to_string(), "infinity");
    assert_eq!(float("-inf").to_string(), "-infinity");
    assert_eq!(Plist::Boolean(true).to_string(), "<*BY>");
    assert_eq!(Plist::Boolean(false).to_string(), "<*BN>");
    assert_eq!(Plist::Data(vec![0, 10, 255]).to_string(), "<000aff>");
    assert_eq!(Plist::Data(vec![]).to_string(), "<>");
}

#[test]
fn writes_dictionaries_and_arrays_line_by_line() {
    assert_eq!(dict(vec![]).to_string(), "{\n}");
    assert_eq!(Plist::Array(vec![]).to_string(), "(\n)");
    let tree = dict(vec![
        ("familyName", text("New Font")),
        ("unitsPerEm", Plist::Integer(1000)),
        ("glyphs", Plist::Array(vec![text("A"), text("B")])),
    ]);
    assert_eq!(
        tree.to_string(),
        "{\nfamilyName = \"New Font\";\nunitsPerEm = 1000;\nglyphs = (\nA,\nB\n);\n}"
    );
}

#[test]
fn writing_is_stable() {
    assert_eq!(sample().to_string(), sample().to_string());
}

#[test]
fn reading_what_was_written_gives_it_back() {
    let tree = sample();
    assert_eq!(Plist::parse(&tree.to_string()), Ok(tree));
    for node in [
        text("x"),
        text("1"),
        text("-0"),
        text("-infinity"),
        text("<*BY>"),
        Plist::Integer(7),
        Plist::Integer(i64::MAX),
        Plist::Integer(i64::MIN),
        float("7"),
        float("-7.125"),
        float("0"),
        float("-0"),
        float("123456789012345678901234567890.5"),
        float("inf"),
        float("-inf"),
        Plist::Boolean(true),
        Plist::Data(vec![1, 2, 3]),
        Plist::Array(vec![Plist::Array(vec![Plist::Array(vec![])])]),
        dict(vec![("a", Plist::Integer(1)), ("a", Plist::Integer(2))]),
    ] {
        assert_eq!(Plist::parse(&node.to_string()), Ok(node));
    }
}

#[test]
fn reads_numbers_by_their_form() {
    assert_eq!(Plist::parse("12"), Ok(Plist::Integer(12)));
    assert_eq!(Plist::parse("-12"), Ok(Plist::Integer(-12)));
    assert_eq!(Plist::parse("12.0"), Ok(float("12")));
    assert_eq!(Plist::parse("12.50"), Ok(float("12.5")));
    assert_eq!(Plist::parse("-0.5"), Ok(float("-0.5")));
    assert_eq!(Plist::parse("0012"), Ok(text("0012")));
    assert_eq!(Plist::parse("-0"), Ok(text("-0")));
    assert_eq!(Plist::parse("12."), Ok(text("12.")));
    assert_eq!(Plist::parse(".5"), Ok(text(".5")));
    assert_eq!(Plist::parse("1.2.3"), Ok(text("1.2.3")));
    assert_eq!(Plist::parse("1e5"), Ok(text("1e5")));
    assert_eq!(Plist::parse("9223372036854775807"), Ok(Plist::Integer(i64::MAX)));
    assert_eq!(Plist::parse("9223372036854775808"), Ok(text("9223372036854775808")));
    assert_eq!(Plist::parse("-9223372036854775808"), Ok(Plist::Integer(i64::MIN)));
}

#[test]
fn a_bare_infinity_is_a_number() {
    assert_eq!(Plist::parse("infinity"), Ok(float("inf")));
    assert_eq!(Plist::parse("-infinity"), Ok(float("-inf")));
    assert_eq!(Plist::parse("\"infinity\""), Ok(text("infinity")));
    assert_eq!(Plist::parse("Infinity"), Ok(text("Infinity")));
    assert_eq!(Plist::parse("{glyphname = infinity;}"), Ok(dict(vec![("glyphname", float("inf"))])));
}

#[test]
fn reads_strings_and_their_escapes() {
    assert_eq!(Plist::parse("abc"), Ok(text("abc")));
    assert_eq!(Plist::parse("\"a b\""), Ok(text("a b")));
    assert_eq!(Plist::parse("\"a\\\"b\""), Ok(text("a\"b")));
    assert_eq!(Plist::parse("\"a\\\\b\""), Ok(text("a\\b")));
    assert_eq!(Plist::parse("\"a\\nb\\rc\\td\""), Ok(text("a\nb\rc\td")));
    assert_eq!(Plist::parse("\"a\\012b\""), Ok(text("a\nb")));
    assert_eq!(Plist::parse("\"\\101\""), Ok(text("A")));
    assert_eq!(Plist::parse("\"line\nbreak\""), Ok(text("line\nbreak")));
    assert_eq!(Plist::parse("\"gr\u{fc}n\""), Ok(text("gr\u{fc}n")));
}

#[test]
fn reads_dictionaries_and_arrays() {
    assert_eq!(Plist::parse("{}"), Ok(dict(vec![])));
    assert_eq!(Plist::parse("()"), Ok(Plist::Array(vec![])));
    assert_eq!(
        Plist::parse(" { a = 1 ; \"b c\" = ( x , y ) ; 3 = { } ; } "),
        Ok(dict(vec![
            ("a", Plist::Integer(1)),
            ("b c", Plist::Array(vec![text("x"), text("y")])),
            ("3", dict(vec![])),
        ]))
    );
    assert_eq!(
        Plist::parse("(1,2,)"),
        Ok(Plist::Array(vec![Plist::Integer(1), Plist::Integer(2)]))
    );
    assert_eq!(Plist::parse("<*BY>"), Ok(Plist::Boolean(true)));
    assert_eq!(Plist::parse("<*BN>"), Ok(Plist::Boolean(false)));
    assert_eq!(Plist::parse("<0FbD>"), Ok(Plist::Data(vec![0x0f, 0xbd])));
}

#[test]
fn keeps_the_order_and_every_entry_of_a_dictionary() {
    let tree = Plist::parse("{z = 1; a = 2; z = 3;}").unwrap();
    assert_eq!(
        tree,
        dict(vec![("z", Plist::Integer(1)), ("a", Plist::Integer(2)), ("z", Plist::Integer(3))])
    );
    assert_eq!(tree.get("z"), Some(&Plist::Integer(1)));
    assert_eq!(tree.get("a"), Some(&Plist::Integer(2)));
    assert_eq!(tree.get("b"), None);
    assert_eq!(Plist::Integer(1).get("a"), None);
}

fn fault(kind: ParseErrorKind, offset: usize, line: usize) -> Result<Plist, ParseError> {
    Err(ParseError { kind, offset, line })
}

#[test]
fn reports_what_is_wrong_and_where() {
    assert_eq!(Plist::parse(""), fault(ParseErrorKind::UnexpectedToken, 0, 0));
    assert_eq!(Plist::parse("  \n "), fault(ParseErrorKind::UnexpectedToken, 4, 1));
    assert_eq!(Plist::parse("="), fault(ParseErrorKind::UnexpectedToken, 0, 0));
    assert_eq!(Plist::parse("{a = 1}"), fault(ParseErrorKind::UnexpectedToken, 6, 0));
    assert_eq!(Plist::parse("{a 1;}"), fault(ParseErrorKind::UnexpectedToken, 3, 0));
    assert_eq!(Plist::parse("{\na = 1;\nb = ;\n}"), fault(ParseErrorKind::UnexpectedToken, 13, 2));
    assert_eq!(Plist::parse("(1 2)"), fault(ParseErrorKind::UnexpectedToken, 3, 0));
    assert_eq!(Plist::parse("(1,"), fault(ParseErrorKind::UnexpectedToken, 3, 0));
    assert_eq!(Plist::parse("{a = 1;"), fault(ParseErrorKind::UnexpectedToken, 7, 0));
    assert_eq!(Plist::parse("<0g>"), fault(ParseErrorKind::UnexpectedToken, 1, 0));
    assert_eq!(Plist::parse("<*BX>"), fault(ParseErrorKind::UnexpectedToken, 1, 0));
    assert_eq!(Plist::parse("\"abc"), fault(ParseErrorKind::UnterminatedString, 4, 0));
    assert_eq!(Plist::parse("(\n\"abc\n"), fault(ParseErrorKind::UnterminatedString, 7, 2));
    assert_eq!(Plist::parse("\"abc\\"), fault(ParseErrorKind::UnterminatedString, 5, 0));
    assert_eq!(Plist::parse("\"a\\qb\""), fault(ParseErrorKind::InvalidEscape, 2, 0));
    assert_eq!(Plist::parse("\"a\\09\""), fault(ParseErrorKind::InvalidEscape, 2, 0));
    assert_eq!(Plist::parse("\"a\\400\""), fault(ParseErrorKind::InvalidEscape, 2, 0));
    assert_eq!(Plist::parse("1 2"), fault(ParseErrorKind::TrailingInput, 2, 0));
    assert_eq!(Plist::parse("{}\n\n}"), fault(ParseErrorKind::TrailingInput, 4, 2));
}

#[test]
fn looks_into_nodes() {
    let tree = sample();
    assert_eq!(tree.get("name").and_then(|p| p.as_str()), Some(&"Regular".to_string()));
    assert_eq!(tree.get("flag").and_then(|p| p.as_boolean()), Some(true));
    assert_eq!(tree.get("list").and_then(|p| p.as_array()).map(|a| a.len()), Some(3));
    assert_eq!(tree.get("nested").and_then(|p| p.as_dict()).map(|d| d.len()), Some(1));
    assert_eq!(tree.get("count").and_then(|p| p.as_str()), None);
    assert_eq!(tree.get("name").and_then(|p| p.as_array()), None);
    assert_eq!(tree.get("name").and_then(|p| p.as_dict()), None);
    assert_eq!(tree.get("name").and_then(|p| p.as_boolean()), None);
    assert_eq!(tree.clone(), tree);
    assert_eq!(tree.copy(), tree);
}
