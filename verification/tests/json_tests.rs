use riot_rust_api::json::{Double, Json, Number};

#[test]
fn parse_reads_scalars_and_members() {
    let doc = Json::parse(r#"{"a": 1, "b": "x", "c": true, "d": null, "e": [1, 2], "f": -3}"#)
        .expect("valid JSON");
    assert_eq!(doc.get_i64("a"), Some(1));
    assert_eq!(doc.get_str("b"), Some("x"));
    assert_eq!(doc.get_bool("c"), Some(true));
    assert!(matches!(doc.get("d"), Some(Json::Null)));
    assert_eq!(doc.get_array("e").map(|items| items.len()), Some(2));
    assert_eq!(doc.get_i64("f"), Some(-3));
    assert!(doc.get("missing").is_none());
}

#[test]
fn parse_rejects_malformed_text() {
    let out = Json::parse("{\"a\": ");
    assert!(out.is_err());
    assert!(!out.unwrap_err().message.is_empty());
}

#[test]
fn numbers_keep_their_readings() {
    let doc = Json::parse(r#"{"big": 18446744073709551615, "neg": -1, "real": 1.5, "n": 7}"#)
        .unwrap();
    let double = |value: f64| Some(Double { bits: value.to_bits() });
    assert_eq!(
        doc.get_number("big"),
        Some(Number { unsigned: Some(u64::MAX), signed: None, double: double(18446744073709551615.0) })
    );
    assert_eq!(doc.get_i64("big"), None);
    assert_eq!(
        doc.get_number("neg"),
        Some(Number { unsigned: None, signed: Some(-1), double: double(-1.0) })
    );
    assert_eq!(
        doc.get_number("real"),
        Some(Number { unsigned: None, signed: None, double: double(1.5) })
    );
    assert_eq!(doc.get_i64("real"), None);
    assert_eq!(
        doc.get_number("n"),
        Some(Number { unsigned: Some(7), signed: Some(7), double: double(7.0) })
    );
    assert_eq!(doc.get_double("n"), double(7.0));
    assert_eq!(doc.get_double("missing"), None);
}

#[test]
fn get_finds_nothing_outside_objects() {
    let doc = Json::parse("[1, 2, 3]").unwrap();
    assert!(doc.get("0").is_none());
    assert_eq!(doc.as_array().map(|items| items.len()), Some(3));
    assert_eq!(Json::Str("x".to_string()).as_str(), Some("x"));
    assert_eq!(Json::Bool(false).as_bool(), Some(false));
    assert_eq!(Json::Null.as_i64(), None);
}
