//! The computing half of the composite client calls.

use brp_tool::client::{
    aggregate_entities, collect_component_types, component_data_of, detection_candidates,
    entity_json, generation_of, patch_fields, query_contains_entity, ready_response,
};
use brp_tool::DEFAULT_REMOTE_PORT;
use brp_tool::json::{parse_json_value, JsonValue};

#[test]
fn test_generation_of() {
    assert_eq!(generation_of(7), 0);
    assert_eq!(generation_of((5u64 << 32) | 7), 5);
}

#[test]
fn test_collect_component_types() {
    let v = parse_json_value("[\"A\", 3, \"B\"]").unwrap();
    assert_eq!(
        collect_component_types(&v),
        vec!["A".to_string(), "B".to_string()]
    );
    assert_eq!(collect_component_types(&JsonValue::Null), Vec::<String>::new());
}

#[test]
fn test_component_data_of() {
    let v = parse_json_value("{\"components\": {\"A\": {\"x\": 1}}}").unwrap();
    assert_eq!(
        component_data_of(&v, "A"),
        Some(&JsonValue::Object(vec![("x".to_string(), JsonValue::Int(1))]))
    );
    assert_eq!(component_data_of(&v, "B"), None);
    assert_eq!(component_data_of(&JsonValue::Null, "A"), None);
}

#[test]
fn test_query_contains_entity() {
    let v = parse_json_value("[{\"entity\": 11}, {\"entity\": 22}]").unwrap();
    assert!(query_contains_entity(&v, 11));
    assert!(query_contains_entity(&v, 22));
    assert!(!query_contains_entity(&v, 33));
    assert!(!query_contains_entity(&JsonValue::Null, 11));
}

#[test]
fn test_entity_json() {
    let id = (3u64 << 32) | 9;
    let v = entity_json(id, vec![("A".to_string(), JsonValue::Int(1))]);
    match v {
        JsonValue::Object(f) => {
            assert_eq!(f[0], ("entity".to_string(), JsonValue::UInt(id)));
            assert_eq!(f[1], ("generation".to_string(), JsonValue::UInt(3)));
            assert_eq!(
                f[2],
                (
                    "components".to_string(),
                    JsonValue::Object(vec![("A".to_string(), JsonValue::Int(1))])
                )
            );
        }
        _ => panic!("expected object"),
    }
}

#[test]
fn test_ready_response() {
    let v = ready_response(true);
    assert_eq!(v.get("ready"), Some(&JsonValue::Bool(true)));
    assert_eq!(
        v.get("message"),
        Some(&JsonValue::Str(
            "App is ready and responding to BRP commands".to_string()
        ))
    );
    let v = ready_response(false);
    assert_eq!(
        v.get("message"),
        Some(&JsonValue::Str(
            "App is not responding to BRP commands".to_string()
        ))
    );
}

#[test]
fn test_patch_fields() {
    let v = parse_json_value("{\"x\": 1}").unwrap();
    assert_eq!(
        patch_fields(v),
        Ok(vec![("x".to_string(), JsonValue::Int(1))])
    );
    assert_eq!(patch_fields(JsonValue::Int(3)), Err(()));
}

#[test]
fn test_aggregate_entities() {
    let qa = parse_json_value("[{\"entity\": 20}, {\"entity\": 10}]").unwrap();
    let qb = parse_json_value("[{\"entity\": 10}]").unwrap();
    let queries = vec![("A".to_string(), qa), ("B".to_string(), qb)];
    let groups = aggregate_entities(&queries);
    assert_eq!(groups.len(), 2);
    // sorted by entity identifier
    assert_eq!(groups[0].0, 10);
    assert_eq!(groups[1].0, 20);
    assert!(groups[0].1.contains(&"A".to_string()));
    assert!(groups[0].1.contains(&"B".to_string()));
    assert_eq!(groups[1].1, vec!["A".to_string()]);
}

#[test]
fn test_detection_candidates() {
    assert_eq!(detection_candidates(17000), vec![17000]);
    assert_eq!(
        detection_candidates(DEFAULT_REMOTE_PORT),
        vec![
            DEFAULT_REMOTE_PORT,
            DEFAULT_REMOTE_PORT + 1,
            DEFAULT_REMOTE_PORT + 2,
            DEFAULT_REMOTE_PORT + 3,
            DEFAULT_REMOTE_PORT + 4,
            DEFAULT_REMOTE_PORT + 5,
        ]
    );
}
