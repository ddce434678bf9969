use hal_orders::json::{Json, Member};
use hal_orders::number::{Decimal, Float};
use hal_orders::text::{append_decimal, append_quoted, decimal};

fn numeral(text: &str) -> Decimal {
    Decimal::parse(text).expect("a JSON number")
}

fn quoted(text: &str) -> String {
    let mut out = String::new();
    append_quoted(&mut out, text);
    out
}

#[test]
fn decimal_writes_whole_numbers() {
    assert_eq!(decimal(0), "0");
    assert_eq!(decimal(7), "7");
    assert_eq!(decimal(10), "10");
    assert_eq!(decimal(123), "123");
    assert_eq!(decimal(-1), "-1");
    assert_eq!(decimal(-450), "-450");
}

#[test]
fn decimal_writes_the_ends_of_the_range() {
    assert_eq!(decimal(i64::MAX), "9223372036854775807");
    assert_eq!(decimal(i64::MIN), "-9223372036854775808");
}

#[test]
fn append_decimal_keeps_what_was_there() {
    let mut out = String::from("n=");
    append_decimal(&mut out, 42);
    assert_eq!(out, "n=42");
}

#[test]
fn quoting_plain_text_adds_the_quotes() {
    assert_eq!(quoted(""), "\"\"");
    assert_eq!(quoted("USD"), "\"USD\"");
    assert_eq!(quoted("/orders{?id}"), "\"/orders{?id}\"");
}

#[test]
fn quoting_escapes_quotes_and_backslashes() {
    assert_eq!(quoted("say \"hi\""), "\"say \\\"hi\\\"\"");
    assert_eq!(quoted("a\\b"), "\"a\\\\b\"");
}

#[test]
fn quoting_escapes_control_characters() {
    assert_eq!(quoted("a\nb"), "\"a\\nb\"");
    assert_eq!(quoted("a\rb"), "\"a\\rb\"");
    assert_eq!(quoted("a\tb"), "\"a\\tb\"");
    assert_eq!(quoted("\u{0}"), "\"\\u0000\"");
    assert_eq!(quoted("\u{8}"), "\"\\b\"");
    assert_eq!(quoted("\u{c}"), "\"\\f\"");
    assert_eq!(quoted("\u{1}"), "\"\\u0001\"");
    assert_eq!(quoted("\u{b}"), "\"\\u000b\"");
    assert_eq!(quoted("\u{1f}"), "\"\\u001f\"");
    assert_eq!(quoted("\u{1b}[0m"), "\"\\u001b[0m\"");
}

#[test]
fn quoting_keeps_other_characters() {
    assert_eq!(quoted("caf\u{e9} \u{20ac} \u{1f600}"), "\"caf\u{e9} \u{20ac} \u{1f600}\"");
    assert_eq!(quoted(" \u{7f}"), "\" \u{7f}\"");
}

#[test]
fn a_numeral_with_a_fraction_is_kept() {
    assert_eq!(numeral("20.0").as_str(), "20.0");
    assert_eq!(numeral("-0.5").as_str(), "-0.5");
    assert_eq!(numeral("0.001").as_str(), "0.001");
    assert_eq!(numeral("1.5e-7").as_str(), "1.5e-7");
    assert_eq!(numeral("6.02E+23").as_str(), "6.02E+23");
}

#[test]
fn a_numeral_without_a_fraction_gets_one() {
    assert_eq!(numeral("20").as_str(), "20.0");
    assert_eq!(numeral("0").as_str(), "0.0");
    assert_eq!(numeral("-7").as_str(), "-7.0");
    assert_eq!(numeral("1e300").as_str(), "1.0e300");
    assert_eq!(numeral("-12E-3").as_str(), "-12.0E-3");
}

#[test]
fn what_is_no_json_number_is_no_numeral() {
    for text in [
        "", "-", "+1", "01", "-01", "1.", ".5", "1e", "1e+", "1e-", "1.e3", "1.0x", " 1", "1 ",
        "NaN", "inf", "-inf", "0x10", "1,5", "--1", "1..0", "1.0.0", "1e1.5",
    ] {
        assert!(Decimal::parse(text).is_none(), "{:?} was accepted", text);
    }
}

#[test]
fn a_numeral_is_cloned_as_it_is() {
    let d = numeral("3.25");
    assert_eq!(d.clone(), d);
    assert_eq!(d.clone().as_str(), "3.25");
}

#[test]
fn a_float_is_finite_if_its_text_is_a_number() {
    assert_eq!(Float::from_numeral("30.0"), Float::Finite(numeral("30.0")));
    assert_eq!(Float::from_numeral("30"), Float::Finite(numeral("30.0")));
    assert_eq!(Float::from_numeral("NaN"), Float::NonFinite);
    assert_eq!(Float::from_numeral("inf"), Float::NonFinite);
}

#[test]
fn the_debug_form_of_a_float_is_read_back() {
    let cases: [(f64, &str); 6] = [
        (20.0, "20.0"),
        (30.0, "30.0"),
        (-0.5, "-0.5"),
        (0.1, "0.1"),
        (1e300, "1.0e300"),
        (1.5e-7, "1.5e-7"),
    ];
    for (value, expected) in cases {
        match Float::from_numeral(&format!("{:?}", value)) {
            Float::Finite(d) => assert_eq!(d.as_str(), expected),
            Float::NonFinite => panic!("{:?} has a numeral", value),
        }
    }
    assert_eq!(Float::from_numeral(&format!("{:?}", f64::NAN)), Float::NonFinite);
    assert_eq!(Float::from_numeral(&format!("{:?}", f64::INFINITY)), Float::NonFinite);
    assert_eq!(Float::from_numeral(&format!("{:?}", f64::NEG_INFINITY)), Float::NonFinite);
}

#[test]
fn scalars_are_rendered() {
    assert_eq!(Json::Null.render(), "null");
    assert_eq!(Json::Bool(true).render(), "true");
    assert_eq!(Json::Bool(false).render(), "false");
    assert_eq!(Json::Int(123).render(), "123");
    assert_eq!(Json::Int(-5).render(), "-5");
    assert_eq!(Json::Number(numeral("20")).render(), "20.0");
    assert_eq!(Json::text("a\"b").render(), "\"a\\\"b\"");
}

#[test]
fn arrays_are_rendered_in_order() {
    assert_eq!(Json::array(vec![]).render(), "[]");
    assert_eq!(Json::array(vec![Json::Int(1)]).render(), "[1]");
    assert_eq!(
        Json::array(vec![Json::Int(1), Json::Null, Json::text("x")]).render(),
        "[1,null,\"x\"]"
    );
    assert_eq!(
        Json::array(vec![Json::array(vec![]), Json::array(vec![Json::Bool(true)])]).render(),
        "[[],[true]]"
    );
}

#[test]
fn objects_are_rendered_in_the_order_of_their_members() {
    assert_eq!(Json::object(vec![]).render(), "{}");
    assert_eq!(Json::object(vec![Member::new("b", Json::Int(1))]).render(), "{\"b\":1}");
    assert_eq!(
        Json::object(vec![
            Member::new("zeta", Json::Int(1)),
            Member::new("alpha", Json::object(vec![Member::new("k", Json::Null)])),
            Member::new("a\nb", Json::array(vec![Json::Int(2), Json::Int(3)])),
        ])
        .render(),
        "{\"zeta\":1,\"alpha\":{\"k\":null},\"a\\nb\":[2,3]}"
    );
}

#[test]
fn append_to_keeps_what_was_there() {
    let mut out = String::from("x=");
    Json::array(vec![Json::Int(1), Json::Int(2)]).append_to(&mut out);
    assert_eq!(out, "x=[1,2]");
}
