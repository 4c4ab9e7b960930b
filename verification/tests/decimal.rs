use glyphstool::decimal::Decimal;

fn dec(text: &str) -> Decimal {
    Decimal::parse(text).expect("a number")
}

#[test]
fn parses_and_displays_in_shortest_form() {
    assert_eq!(dec("600").to_string(), "600");
    assert_eq!(dec("0.5").to_string(), "0.5");
    assert_eq!(dec("-12.25").to_string(), "-12.25");
    assert_eq!(dec("1.50").to_string(), "1.5");
    assert_eq!(dec("007").to_string(), "7");
    assert_eq!(dec("3.000").to_string(), "3");
    assert_eq!(dec("-0").to_string(), "-0");
    assert_eq!(dec("inf").to_string(), "inf");
    assert_eq!(dec("-inf").to_string(), "-inf");
}

#[test]
fn refuses_what_is_no_number() {
    assert_eq!(Decimal::parse(""), None);
    assert_eq!(Decimal::parse("-"), None);
    assert_eq!(Decimal::parse("1."), None);
    assert_eq!(Decimal::parse(".5"), None);
    assert_eq!(Decimal::parse("1e5"), None);
    assert_eq!(Decimal::parse("1.2.3"), None);
    assert_eq!(Decimal::parse("12a"), None);
    assert_eq!(Decimal::parse("+1"), None);
    assert_eq!(Decimal::parse("NaN"), None);
}

#[test]
fn display_matches_the_display_of_floats() {
    for x in [0.0f64, 1.0, -1.5, 600.0, 0.1, 123456.789, -0.0, 1e21, 1e-7] {
        let text = format!("{}", x);
        assert_eq!(dec(&text).to_string(), text);
    }
}

#[test]
fn rounds_half_away_from_zero() {
    assert_eq!(dec("0.5").round(), 1);
    assert_eq!(dec("-0.5").round(), -1);
    assert_eq!(dec("0.49999").round(), 0);
    assert_eq!(dec("2.5").round(), 3);
    assert_eq!(dec("-2.5").round(), -3);
    assert_eq!(dec("2.4999").round(), 2);
    assert_eq!(dec("799.6").round(), 800);
    assert_eq!(dec("-200").round(), -200);
    assert_eq!(dec("0").round(), 0);
    assert_eq!(dec("-0").round(), 0);
}

#[test]
fn rounding_agrees_with_floats() {
    for x in [0.5f64, -0.5, 1.49, 1.5, -7.5, 123.456, 0.0, 99.5, 1e10] {
        assert_eq!(dec(&format!("{}", x)).round(), x.round() as i64);
    }
}

#[test]
fn rounding_stays_within_i64() {
    assert_eq!(dec("9223372036854775807").round(), i64::MAX);
    assert_eq!(dec("9223372036854775807.5").round(), i64::MAX);
    assert_eq!(dec("99999999999999999999999").round(), i64::MAX);
    assert_eq!(dec("-9223372036854775808").round(), i64::MIN);
    assert_eq!(dec("-99999999999999999999999").round(), i64::MIN);
    assert_eq!(dec("inf").round(), i64::MAX);
    assert_eq!(dec("-inf").round(), i64::MIN);
}

#[test]
fn negation_changes_the_sign_only() {
    assert_eq!(dec("12.5").neg(), dec("-12.5"));
    assert_eq!(dec("-12.5").neg(), dec("12.5"));
    assert_eq!(dec("0").neg().to_string(), "-0");
    assert_eq!(dec("inf").neg(), dec("-inf"));
    assert_eq!(dec("3").neg().neg(), dec("3"));
}

#[test]
fn zero_equals_negative_zero() {
    assert!(dec("0").eq_value(&dec("-0")));
    assert!(dec("1.50").eq_value(&dec("1.5")));
    assert!(!dec("1").eq_value(&dec("-1")));
    assert!(!dec("1").eq_value(&dec("1.1")));
    assert!(!dec("inf").eq_value(&dec("-inf")));
    assert!(dec("inf").eq_value(&dec("inf")));
}

#[test]
fn whole_numbers_go_to_i64_and_back() {
    for n in [0i64, 1, -1, 42, -200, i64::MAX, i64::MIN] {
        let d = Decimal::from_i64(n);
        assert_eq!(d.to_string(), format!("{}", n));
        assert_eq!(d.as_i64(), Some(n));
        assert_eq!(d.round(), n);
        assert!(d.is_integer());
    }
    assert_eq!(dec("1.5").as_i64(), None);
    assert_eq!(dec("-0").as_i64(), None);
    assert_eq!(dec("9223372036854775808").as_i64(), None);
    assert_eq!(dec("inf").as_i64(), None);
    assert!(Decimal::zero().is_zero());
    assert!(dec("inf").is_infinite());
    assert!(dec("-1").is_negative());
}

#[test]
fn a_clone_is_the_same_number() {
    let d = dec("-3.25");
    assert_eq!(d.clone(), d);
    assert_eq!(d.copy(), d);
}
