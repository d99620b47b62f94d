//! JSON values, numbers and text.

use signify_hue::bulb::HueBulb;
use signify_hue::host::{HostCall, Instance};
use signify_hue::json::{Json, Number, Object};
use signify_hue::number;
use signify_hue::number::Decimal;
use signify_hue::text;
use signify_hue::wire;

fn doc(source: &str) -> Json {
    wire::parse(source).unwrap()
}

/// The body of a request that carries a value.
fn body(value: Json) -> String {
    let mut inst = Instance::new();
    inst.properties.insert("Bridge address", Json::text("192.0.2.10"));
    inst.properties.insert("Light id", Json::text("light-1"));
    match HueBulb::request(&inst, value) {
        Some(HostCall::Http(request)) => request.body.unwrap(),
        _ => panic!("expected a request"),
    }
}

#[test]
fn a_document_is_read_and_written() {
    let source = r#" { "b": [1, -2, 3.50, null, true], "a": { "é": "x\"y" } } "#;
    let value = doc(source);
    assert_eq!(
        value,
        Json::object(
            Object::new()
                .with(
                    "b",
                    Json::array(vec![
                        Json::integer(1),
                        Json::Num(Number::NegInt(-2)),
                        Json::Num(Number::Float("3.5".to_string())),
                        Json::Null,
                        Json::Bool(true),
                    ])
                )
                .with("a", Json::object(Object::new().with("é", Json::text("x\"y"))))
        )
    );
    assert_eq!(body(value.clone()), r#"{"a":{"é":"x\"y"},"b":[1,-2,3.5,null,true]}"#);
    assert_eq!(wire::parse("{"), None);
    assert_eq!(wire::parse(""), None);
    assert_eq!(doc(&body(value.clone())), value);
}

#[test]
fn keys_ascend_and_come_once() {
    let mut o = Object::new().with("b", Json::integer(1)).with("a", Json::integer(2));
    o.insert("c", Json::integer(3));
    o.insert("a", Json::integer(4));
    let keys: Vec<&str> = o.entries.iter().map(|e| e.0.as_str()).collect();
    assert_eq!(keys, vec!["a", "b", "c"]);
    assert_eq!(o.get("a"), Some(&Json::integer(4)));
    o.remove("b");
    assert_eq!(o.get("b"), None);
    assert!(o.contains_key("c"));
    assert_eq!(o.entries.len(), 2);
}

#[test]
fn a_whole_number_is_written_as_a_float() {
    let written = |n: u64| number::as_float(&Number::PosInt(n)).unwrap();
    assert_eq!(written(0), Number::Float("0.0".to_string()));
    assert_eq!(written(35), Number::Float("35.0".to_string()));
    assert_eq!(
        written(9_007_199_254_740_992),
        Number::Float("9007199254740992.0".to_string())
    );
    assert_eq!(written(u64::MAX), Number::Float("1.8446744073709552e+19".to_string()));
    assert_eq!(body(number::whole_float(100)), "100.0");
    assert_eq!(
        number::as_float(&Number::NegInt(-7)),
        Some(Number::Float("-7.0".to_string()))
    );
    assert_eq!(
        number::as_float(&Number::Float("0.3127".to_string())),
        Some(Number::Float("0.3127".to_string()))
    );
}

#[test]
fn decimals_are_read_exactly() {
    let read = |t: &str| number::read(t);
    assert_eq!(read("41.5"), Some(Decimal { neg: false, digits: 415, exp: -1 }));
    assert_eq!(read("-1e-7"), Some(Decimal { neg: true, digits: 1, exp: -7 }));
    assert_eq!(read("2.5e20"), Some(Decimal { neg: false, digits: 25, exp: 19 }));
    assert_eq!(read("x"), None);
    assert_eq!(read(""), None);
}

#[test]
fn brightness_is_rounded_and_kept_between_one_and_a_hundred() {
    let level = |t: &str| number::brightness_of(Some(&doc(t)));
    assert_eq!(level("41.5"), Some(42));
    assert_eq!(level("41.4999"), Some(41));
    assert_eq!(level("0"), Some(1));
    assert_eq!(level("-5"), Some(1));
    assert_eq!(level("0.4"), Some(1));
    assert_eq!(level("99.6"), Some(100));
    assert_eq!(level("1e300"), Some(100));
    assert_eq!(level("1e-300"), Some(1));
    assert_eq!(level("\"50\""), None);
    assert_eq!(number::brightness_of(None), None);
}

#[test]
fn kelvin_become_mireds_within_a_bulbs_range() {
    assert_eq!(number::mirek(2700), 370);
    assert_eq!(number::mirek(0), 500);
    assert_eq!(number::mirek(10_000), 153);
    assert_eq!(number::mirek(6500), 153);
    assert_eq!(number::mirek(4000), 250);
}

#[test]
fn texts_are_taken_apart() {
    assert_eq!(text::trim(" \u{a0}10.0.0.2\t\n"), "10.0.0.2");
    assert_eq!(text::trim("  "), "");
    assert_eq!(text::up_to_dot("Hue Bridge - 1._hue._tcp.local"), "Hue Bridge - 1");
    assert_eq!(text::up_to_dot("plain"), "plain");
    assert_eq!(text::prefix("Fireside", 4), "Fire");
    assert_eq!(text::prefix("né", 9), "né");
    assert_eq!(text::decimal_text(0), "0");
    assert_eq!(text::decimal_text(18_446_744_073_709_551_615), "18446744073709551615");
    assert_eq!(text::hex_text(255, 8), "000000FF");
    assert!(text::same_ignoring_case("Post", "POST"));
    assert!(!text::same_ignoring_case("PUT", "POST"));
    assert!(text::before("a", "b") && text::before("a", "aa") && !text::before("b", "a"));
    assert!(text::contains("press the link button", "link button"));
    assert!(text::contains("anything", ""));
    assert!(!text::contains("link", "link button"));
    assert!(text::ends_with("/clip/v2/resource/scene", "/scene"));
}
