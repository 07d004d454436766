use kendra::json::JsonValue;
use kendra::memory::{
    safe_json_loads, AgentResponse, CuratorOutput, DeltaBatch, DeltaOperation, DeltaOperationType,
    ReflectorOutput,
};

fn s(t: &str) -> JsonValue {
    JsonValue::Str(t.to_string())
}

fn n(t: &str) -> JsonValue {
    JsonValue::Number(t.to_string())
}

fn obj(fields: Vec<(&str, JsonValue)>) -> JsonValue {
    JsonValue::Object(fields.into_iter().map(|(k, v)| (k.to_string(), v)).collect())
}

fn meta_get(op: &DeltaOperation, key: &str) -> Option<i64> {
    op.metadata.iter().find(|(k, _)| k == key).map(|(_, v)| *v)
}

// -- delta operations ---------------------------------------------------------

#[test]
fn test_delta_operation_from_json() {
    let json = obj(vec![
        ("type", s("ADD")),
        ("section", s("file_operations")),
        ("content", s("Always read before write")),
        ("bullet_id", s("fo-001")),
        ("metadata", obj(vec![("helpful", n("3"))])),
    ]);
    let op = DeltaOperation::from_json(&json).unwrap();
    assert_eq!(op.op_type, DeltaOperationType::Add);
    assert_eq!(op.section, "file_operations");
    assert_eq!(op.content.as_deref(), Some("Always read before write"));
    assert_eq!(op.bullet_id.as_deref(), Some("fo-001"));
}

#[test]
fn test_delta_operation_tag_filters_metadata() {
    let json = obj(vec![
        ("type", s("TAG")),
        ("section", s("testing")),
        ("bullet_id", s("t-001")),
        ("metadata", obj(vec![("harmful", n("0")), ("helpful", n("1")), ("invalid_key", n("5"))])),
    ]);
    let op = DeltaOperation::from_json(&json).unwrap();
    assert_eq!(op.metadata.len(), 2);
    assert_eq!(meta_get(&op, "helpful"), Some(1));
    assert_eq!(meta_get(&op, "harmful"), Some(0));
    assert!(meta_get(&op, "invalid_key").is_none());
}

#[test]
fn test_delta_operation_roundtrip() {
    let op = DeltaOperation {
        op_type: DeltaOperationType::Update,
        section: "code_nav".to_string(),
        content: Some("Search then read".to_string()),
        bullet_id: Some("cn-001".to_string()),
        metadata: Vec::new(),
    };
    let json = op.to_json();
    let restored = DeltaOperation::from_json(&json).unwrap();
    assert_eq!(restored.op_type, DeltaOperationType::Update);
    assert_eq!(restored.content.as_deref(), Some("Search then read"));
}

#[test]
fn test_delta_operation_invalid_type() {
    let json = obj(vec![("type", s("INVALID")), ("section", s("x"))]);
    assert!(DeltaOperation::from_json(&json).is_none());
}

#[test]
fn test_delta_batch_from_json() {
    let json = obj(vec![
        ("reasoning", s("Updating playbook based on feedback")),
        (
            "operations",
            JsonValue::Array(vec![
                obj(vec![("type", s("ADD")), ("section", s("testing")), ("content", s("Run tests after changes"))]),
                obj(vec![
                    ("type", s("TAG")),
                    ("section", s("nav")),
                    ("bullet_id", s("n-001")),
                    ("metadata", obj(vec![("helpful", n("1"))])),
                ]),
                obj(vec![("type", s("REMOVE")), ("section", s("old")), ("bullet_id", s("old-001"))]),
            ]),
        ),
    ]);
    let batch = DeltaBatch::from_json(&json);
    assert_eq!(batch.reasoning, "Updating playbook based on feedback");
    assert_eq!(batch.operations.len(), 3);
    assert_eq!(batch.operations[0].op_type, DeltaOperationType::Add);
    assert_eq!(batch.operations[1].op_type, DeltaOperationType::Tag);
    assert_eq!(batch.operations[2].op_type, DeltaOperationType::Remove);
}

#[test]
fn test_delta_batch_roundtrip() {
    let batch = DeltaBatch {
        reasoning: "test reasoning".to_string(),
        operations: vec![DeltaOperation {
            op_type: DeltaOperationType::Add,
            section: "testing".to_string(),
            content: Some("Test content".to_string()),
            bullet_id: None,
            metadata: Vec::new(),
        }],
    };
    let json = batch.to_json();
    let restored = DeltaBatch::from_json(&json);
    assert_eq!(restored.reasoning, "test reasoning");
    assert_eq!(restored.operations.len(), 1);
}

#[test]
fn test_delta_batch_empty_operations() {
    let json = obj(vec![("reasoning", s("no ops"))]);
    let batch = DeltaBatch::from_json(&json);
    assert_eq!(batch.reasoning, "no ops");
    assert!(batch.operations.is_empty());
}

#[test]
fn test_delta_operation_type_any_case_and_metadata_round_trip() {
    let json = obj(vec![
        ("type", s("remove")),
        ("metadata", obj(vec![("a", n("-9223372036854775808")), ("b", n("1.5")), ("c", n("42"))])),
    ]);
    let op = DeltaOperation::from_json(&json).unwrap();
    assert_eq!(op.op_type, DeltaOperationType::Remove);
    assert_eq!(op.section, "");
    assert_eq!(op.metadata, vec![("a".to_string(), i64::MIN), ("c".to_string(), 42)]);
    let back = DeltaOperation::from_json(&op.to_json()).unwrap();
    assert_eq!(back.metadata, op.metadata);
    assert!(DeltaOperation::from_json(&obj(vec![("section", s("x"))])).is_none());
    assert!(DeltaOperation::from_json(&obj(vec![("type", n("1"))])).is_none());
}

#[test]
fn test_delta_operation_to_json_shape() {
    let op = DeltaOperation {
        op_type: DeltaOperationType::Tag,
        section: "s".to_string(),
        content: None,
        bullet_id: Some("b-1".to_string()),
        metadata: vec![("helpful".to_string(), -2)],
    };
    let j = op.to_json();
    assert_eq!(j.get_str("type"), Some("TAG"));
    assert!(j.get("content").is_none());
    match j.get("metadata").and_then(|m| m.get("helpful")) {
        Some(JsonValue::Number(t)) => assert_eq!(t, "-2"),
        _ => panic!("metadata number expected"),
    }
}

// -- reading JSON from a reply --------------------------------------------------

#[test]
fn test_safe_json_loads_plain() {
    let result = safe_json_loads(r#"{"key": "value"}"#);
    assert!(result.is_ok());
    assert_eq!(result.unwrap().get_str("key"), Some("value"));
}

#[test]
fn test_safe_json_loads_with_code_fence() {
    let result = safe_json_loads("```json\n{\"key\": \"value\"}\n```");
    assert!(result.is_ok());
    assert_eq!(result.unwrap().get_str("key"), Some("value"));
}

#[test]
fn test_safe_json_loads_bare_fence() {
    let result = safe_json_loads("```\n{\"key\": \"value\"}\n```");
    assert!(result.is_ok());
}

#[test]
fn test_safe_json_loads_not_object() {
    let result = safe_json_loads("[1, 2, 3]");
    assert!(result.is_err());
    assert!(result.unwrap_err().contains("Expected a JSON object"));
}

#[test]
fn test_safe_json_loads_invalid() {
    let result = safe_json_loads("not json at all");
    assert!(result.is_err());
}

#[test]
fn test_safe_json_loads_truncated() {
    let result = safe_json_loads(r#"{"key": "value", "other": {"#);
    assert!(result.is_err());
    assert!(result.unwrap_err().contains("truncated"));
}

#[test]
fn test_safe_json_loads_error_texts() {
    let e = safe_json_loads("not json at all").unwrap_err();
    assert!(e.starts_with("LLM response is not valid JSON: "));
    let e = safe_json_loads("{\"a\": \"b").unwrap_err();
    assert!(e.starts_with("LLM response appears to be truncated JSON. Original error: "));
    let v = safe_json_loads("  ```json {\"n\": 1} ```  ").unwrap();
    match v.get("n") {
        Some(JsonValue::Number(t)) => assert_eq!(t, "1"),
        _ => panic!("number expected"),
    }
}

// -- roles --------------------------------------------------------------------

#[test]
fn test_agent_response_new() {
    let resp = AgentResponse::new("Hello world");
    assert_eq!(resp.content, "Hello world");
    assert!(resp.reasoning.is_none());
    assert!(resp.tool_calls.is_empty());
}

#[test]
fn test_reflector_output_from_json() {
    let data = obj(vec![
        ("reasoning", s("The approach was correct")),
        ("error_identification", s("No errors")),
        ("root_cause_analysis", s("N/A")),
        ("correct_approach", s("Search then read")),
        ("key_insight", s("Always search first")),
        (
            "bullet_tags",
            JsonValue::Array(vec![
                obj(vec![("id", s("t-001")), ("tag", s("HELPFUL"))]),
                obj(vec![("id", s("t-002")), ("tag", s("neutral"))]),
            ]),
        ),
    ]);

    let output = ReflectorOutput::from_json(&data);
    assert_eq!(output.reasoning, "The approach was correct");
    assert_eq!(output.key_insight, "Always search first");
    assert_eq!(output.bullet_tags.len(), 2);
    assert_eq!(output.bullet_tags[0].id, "t-001");
    assert_eq!(output.bullet_tags[0].tag, "helpful");
    assert_eq!(output.bullet_tags[1].tag, "neutral");
    assert_eq!(output.raw.len(), 6);
}

#[test]
fn test_reflector_output_missing_fields() {
    let data = obj(vec![]);
    let output = ReflectorOutput::from_json(&data);
    assert!(output.reasoning.is_empty());
    assert!(output.bullet_tags.is_empty());
}

#[test]
fn test_curator_output_from_json() {
    let data = obj(vec![
        ("reasoning", s("Adding a new strategy")),
        (
            "operations",
            JsonValue::Array(vec![obj(vec![
                ("type", s("ADD")),
                ("section", s("testing")),
                ("content", s("Always run tests")),
            ])]),
        ),
    ]);

    let output = CuratorOutput::from_json(&data);
    assert_eq!(output.delta.reasoning, "Adding a new strategy");
    assert_eq!(output.delta.operations.len(), 1);
    assert_eq!(output.raw.len(), 2);
}
