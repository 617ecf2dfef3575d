//! The request envelope and the interpretation of response bodies.

use brp_tool::json::{parse_json_value, JsonValue};
use brp_tool::rpc::{
    build_request, http_error_message, interpret_response, stream_status_accepted, RpcError,
};

#[test]
fn test_build_request_envelope() {
    let req = build_request("bevy/list", 99, JsonValue::Null);
    match req {
        JsonValue::Object(f) => {
            assert_eq!(f.len(), 4);
            assert_eq!(f[0].0, "jsonrpc");
            assert_eq!(f[0].1, JsonValue::Str("2.0".to_string()));
            assert_eq!(f[1].0, "method");
            assert_eq!(f[1].1, JsonValue::Str("bevy/list".to_string()));
            assert_eq!(f[2].0, "id");
            assert_eq!(f[2].1, JsonValue::UInt(99));
            assert_eq!(f[3].0, "params");
            assert_eq!(f[3].1, JsonValue::Null);
        }
        _ => panic!("envelope must be an object"),
    }
}

#[test]
fn test_success_returns_exactly_result_field() {
    let body = parse_json_value(r#"{"jsonrpc":"2.0","id":1,"result":{"entities":[1,2]}}"#).unwrap();
    let r = interpret_response(body).unwrap();
    // the result field itself, never the enclosing envelope
    let expected = parse_json_value(r#"{"entities":[1,2]}"#).unwrap();
    assert_eq!(r, expected);
}

#[test]
fn test_success_without_result_field_is_null() {
    let body = parse_json_value(r#"{"jsonrpc":"2.0","id":1}"#).unwrap();
    assert_eq!(interpret_response(body).unwrap(), JsonValue::Null);
}

#[test]
fn test_error_code_and_message_preserved() {
    let body = parse_json_value(
        r#"{"jsonrpc":"2.0","id":1,"error":{"code":-32601,"message":"Method not found"}}"#,
    )
    .unwrap();
    match interpret_response(body) {
        Err(RpcError::Remote { code, message }) => {
            assert_eq!(code, -32601);
            assert_eq!(message, "Method not found");
        }
        other => panic!("expected a remote error, got {:?}", other),
    }
}

#[test]
fn test_error_defaults_when_fields_missing() {
    let body = parse_json_value(r#"{"error":{}}"#).unwrap();
    match interpret_response(body) {
        Err(RpcError::Remote { code, message }) => {
            assert_eq!(code, 0);
            assert_eq!(message, "Unknown error");
        }
        other => panic!("expected a remote error, got {:?}", other),
    }
}

#[test]
fn test_error_not_an_object() {
    let body = parse_json_value(r#"{"error":"boom"}"#).unwrap();
    match interpret_response(body) {
        Err(RpcError::RemoteOther { error }) => {
            assert_eq!(error, JsonValue::Str("boom".to_string()));
        }
        other => panic!("expected an uninterpreted error, got {:?}", other),
    }
}

#[test]
fn test_non_object_body_yields_null() {
    let body = parse_json_value("[1,2,3]").unwrap();
    assert_eq!(interpret_response(body).unwrap(), JsonValue::Null);
}

#[test]
fn test_stream_status_acceptance() {
    assert!(stream_status_accepted(200));
    assert!(stream_status_accepted(204));
    assert!(stream_status_accepted(299));
    assert!(!stream_status_accepted(199));
    assert!(!stream_status_accepted(300));
    assert!(!stream_status_accepted(404));
    assert!(!stream_status_accepted(500));
    assert_eq!(
        http_error_message("404 Not Found", "no such method"),
        "HTTP error 404 Not Found: no such method"
    );
}
