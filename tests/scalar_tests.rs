use prelude_parser::floatsyn::is_float_literal;
use prelude_parser::scalar::{classify, infer, parse_uint, Date, Scalar};

fn chars(s: &str) -> Vec<char> {
    s.chars().collect()
}

#[test]
fn infers_integer() {
    assert!(matches!(infer(Some("42")), Scalar::Integer(42)));
    assert!(matches!(infer(Some("007")), Scalar::Integer(7)));
    assert!(matches!(infer(Some("18446744073709551615")), Scalar::Integer(18446744073709551615)));
}

#[test]
fn infers_float() {
    match infer(Some("42.5")) {
        Scalar::Float(t) => {
            assert_eq!(t, "42.5");
            assert_eq!(t.parse::<f64>().unwrap(), 42.5f64);
        }
        other => panic!("{:?}", other),
    }
}

#[test]
fn negative_number_is_a_float_not_an_integer() {
    match infer(Some("-3")) {
        Scalar::Float(t) => assert_eq!(t, "-3"),
        other => panic!("{:?}", other),
    }
}

#[test]
fn plus_sign_is_no_integer() {
    assert!(matches!(infer(Some("+5")), Scalar::Float(_)));
}

#[test]
fn too_large_for_an_integer_is_a_float() {
    assert!(matches!(infer(Some("18446744073709551616")), Scalar::Float(_)));
}

#[test]
fn infers_date() {
    match infer(Some("15-Jan-2024")) {
        Scalar::Date(d) => assert_eq!(d, Date { year: 2024, month: 1, day: 15 }),
        other => panic!("{:?}", other),
    }
}

#[test]
fn infers_text_and_null() {
    match infer(Some(" hello ")) {
        Scalar::Text(t) => assert_eq!(t, " hello "),
        other => panic!("{:?}", other),
    }
    assert!(matches!(infer(None), Scalar::Null));
}

#[test]
fn empty_text_is_text() {
    match infer(Some("")) {
        Scalar::Text(t) => assert_eq!(t, ""),
        other => panic!("{:?}", other),
    }
}

#[test]
fn invalid_date_is_text() {
    assert!(matches!(infer(Some("31-Feb-2024")), Scalar::Text(_)));
    assert!(matches!(infer(Some("15-Foo-2024")), Scalar::Text(_)));
}

#[test]
fn classify_takes_outside_readings() {
    assert!(matches!(classify("12", true, None), Scalar::Integer(12)));
    assert!(matches!(classify("x", true, None), Scalar::Float(_)));
    let d = Date { year: 2020, month: 2, day: 29 };
    assert!(matches!(classify("x", false, Some(d)), Scalar::Date(e) if e == d));
    assert!(matches!(classify("x", false, None), Scalar::Text(_)));
}

#[test]
fn parse_uint_rules() {
    assert_eq!(parse_uint("0"), Some(0));
    assert_eq!(parse_uint("123"), Some(123));
    assert_eq!(parse_uint(""), None);
    assert_eq!(parse_uint("1a"), None);
    assert_eq!(parse_uint("-1"), None);
    assert_eq!(parse_uint("18446744073709551616"), None);
}

#[test]
fn float_literals_match_the_standard_parser() {
    let cases = [
        "1", "1.", ".5", "1.5e10", "1E-3", "-2.5", "+.5", "inf", "-Infinity", "NaN", "nan",
        ".", "", "e5", "1e", "1e+", "1.2.3", "--1", " 1", "1 ", "infinit", "0x10", "1_000",
    ];
    for c in cases {
        assert_eq!(is_float_literal(&chars(c)), c.parse::<f64>().is_ok(), "{:?}", c);
    }
}

#[test]
fn render_values() {
    assert_eq!(Scalar::Integer(7).render(), "7");
    assert_eq!(Scalar::Integer(0).render(), "0");
    assert_eq!(Scalar::Null.render(), "None");
    assert_eq!(Scalar::Text("7".to_string()).render(), "7");
    assert_eq!(Scalar::Date(Date { year: 2024, month: 1, day: 5 }).render(), "2024-01-05");
    assert_eq!(Scalar::Date(Date { year: 33, month: 12, day: 25 }).render(), "0033-12-25");
}
