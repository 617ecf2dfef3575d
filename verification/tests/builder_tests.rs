//! The JSON-RPC parameter builder.

use brp_tool::json::JsonValue;
use brp_tool::rpc::RpcParamsBuilder;

fn field_of(params: &JsonValue, key: &str) -> JsonValue {
    match params.get(key) {
        Some(v) => clone_value(v),
        None => panic!("missing field {}", key),
    }
}

fn clone_value(v: &JsonValue) -> JsonValue {
    match v {
        JsonValue::Null => JsonValue::Null,
        JsonValue::Bool(b) => JsonValue::Bool(*b),
        JsonValue::Int(i) => JsonValue::Int(*i),
        JsonValue::UInt(u) => JsonValue::UInt(*u),
        JsonValue::Float(s) => JsonValue::Float(s.clone()),
        JsonValue::Str(s) => JsonValue::Str(s.clone()),
        JsonValue::Array(a) => JsonValue::Array(a.iter().map(clone_value).collect()),
        JsonValue::Object(f) => {
            JsonValue::Object(f.iter().map(|(k, x)| (k.clone(), clone_value(x))).collect())
        }
    }
}

#[test]
fn test_entity_component_builder() {
    let params = RpcParamsBuilder::new()
        .entity(123)
        .component("Transform")
        .build();

    assert_eq!(field_of(&params, "entity"), JsonValue::UInt(123));
    assert_eq!(
        field_of(&params, "component"),
        JsonValue::Str("Transform".to_string())
    );
}

#[test]
fn test_custom_field() {
    let params = RpcParamsBuilder::new()
        .field("custom", JsonValue::Str("value".to_string()))
        .build();

    assert_eq!(
        field_of(&params, "custom"),
        JsonValue::Str("value".to_string())
    );
}

#[test]
fn test_builder_replaces_existing_key() {
    let params = RpcParamsBuilder::new().entity(1).entity(2).build();
    assert_eq!(field_of(&params, "entity"), JsonValue::UInt(2));
    match &params {
        JsonValue::Object(fields) => assert_eq!(fields.len(), 1),
        _ => panic!("expected object"),
    }
}

#[test]
fn test_builder_component_list_and_entities() {
    let params = RpcParamsBuilder::new()
        .component_list(&vec!["A".to_string(), "B".to_string()])
        .build();
    assert_eq!(
        field_of(&params, "components"),
        JsonValue::Array(vec![
            JsonValue::Str("A".to_string()),
            JsonValue::Str("B".to_string()),
        ])
    );

    let params = RpcParamsBuilder::new().entities(&vec![7, 9]).build();
    assert_eq!(
        field_of(&params, "entities"),
        JsonValue::Array(vec![JsonValue::UInt(7), JsonValue::UInt(9)])
    );
}
