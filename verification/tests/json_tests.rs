//! The JSON value form and the parse wrapper.

use brp_tool::json::{parse_json_object, parse_json_value, JsonError, JsonValue};

#[test]
fn test_parse_json_value_shapes() {
    assert_eq!(parse_json_value("null"), Some(JsonValue::Null));
    assert_eq!(parse_json_value("true"), Some(JsonValue::Bool(true)));
    assert_eq!(parse_json_value("-5"), Some(JsonValue::Int(-5)));
    assert_eq!(
        parse_json_value("18446744073709551615"),
        Some(JsonValue::UInt(18446744073709551615))
    );
    assert_eq!(
        parse_json_value("\"hi\""),
        Some(JsonValue::Str("hi".to_string()))
    );
    assert_eq!(
        parse_json_value("[1, \"a\"]"),
        Some(JsonValue::Array(vec![
            JsonValue::Int(1),
            JsonValue::Str("a".to_string())
        ]))
    );
    assert_eq!(
        parse_json_value("{\"k\": 1}"),
        Some(JsonValue::Object(vec![("k".to_string(), JsonValue::Int(1))]))
    );
    assert_eq!(parse_json_value("{invalid json}"), None);
    assert_eq!(parse_json_value(""), None);
}

#[test]
fn test_parse_json_object() {
    assert_eq!(
        parse_json_object("{\"a\": null}"),
        Ok(vec![("a".to_string(), JsonValue::Null)])
    );
    assert_eq!(parse_json_object("{oops"), Err(JsonError::Invalid));
    assert_eq!(parse_json_object("[1]"), Err(JsonError::NotAnObject));
}

#[test]
fn test_get_and_accessors() {
    let v = parse_json_value("{\"a\": 1, \"b\": \"x\"}").unwrap();
    assert_eq!(v.get("a"), Some(&JsonValue::Int(1)));
    assert_eq!(v.get("missing"), None);
    assert_eq!(JsonValue::Int(1).get("a"), None);

    assert_eq!(JsonValue::Int(-1).as_u64(), None);
    assert_eq!(JsonValue::Int(7).as_u64(), Some(7));
    assert_eq!(JsonValue::UInt(u64::MAX).as_i64(), None);
    assert_eq!(JsonValue::UInt(3).as_i64(), Some(3));
    assert_eq!(JsonValue::Str("s".to_string()).as_str(), Some("s"));
    assert_eq!(JsonValue::Null.as_str(), None);
    assert!(JsonValue::Null.is_null());
    assert!(!JsonValue::Bool(false).is_null());
}

#[test]
fn test_float_kept_as_rendering() {
    match parse_json_value("1.5") {
        Some(JsonValue::Float(s)) => assert_eq!(s, "1.5"),
        other => panic!("expected a rendered float, got {:?}", other),
    }
}
