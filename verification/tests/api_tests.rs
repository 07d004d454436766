use kendra::api::{tool_call_to_response, ToolCall};
use kendra::json::JsonValue;
use kendra::session::Timestamp;

fn call(id: &str, name: &str, result: Option<JsonValue>, nested: Vec<ToolCall>) -> ToolCall {
    ToolCall {
        id: id.to_string(),
        name: name.to_string(),
        parameters: vec![],
        result,
        result_summary: None,
        timestamp: Timestamp { secs: 1_700_000_000, nanos: 0 },
        approved: true,
        error: None,
        nested_tool_calls: nested,
    }
}

#[test]
fn test_tool_call_to_response() {
    let mut tc = call("tc-1", "read_file", Some(JsonValue::Str("file contents".to_string())), vec![]);
    tc.result_summary = Some("Read 10 lines".to_string());
    let response = tool_call_to_response(&tc);
    assert_eq!(response.id, "tc-1");
    assert_eq!(response.name, "read_file");
    assert_eq!(response.result.as_deref(), Some("file contents"));
    assert_eq!(response.result_summary.as_deref(), Some("Read 10 lines"));
    assert!(response.nested_tool_calls.is_none());
}

#[test]
fn test_tool_call_to_response_with_nested() {
    let nested = call(
        "nested-1",
        "bash",
        Some(JsonValue::Object(vec![("exit_code".to_string(), JsonValue::Number("0".to_string()))])),
        vec![],
    );
    let tc = call("tc-1", "agent", Some(JsonValue::Str("done".to_string())), vec![nested]);
    let response = tool_call_to_response(&tc);
    assert!(response.nested_tool_calls.is_some());
    let nested_responses = response.nested_tool_calls.unwrap();
    assert_eq!(nested_responses.len(), 1);
    assert_eq!(nested_responses[0].name, "bash");
    assert!(nested_responses[0].result.as_ref().unwrap().contains("exit_code"));
    assert_eq!(nested_responses[0].result.as_deref(), Some("{\"exit_code\":0}"));
}

#[test]
fn test_tool_call_response_keeps_error_and_arguments() {
    let mut tc = call("x", "write_file", None, vec![]);
    tc.error = Some("denied".to_string());
    tc.approved = false;
    tc.parameters = vec![("path".to_string(), JsonValue::Str("/tmp/a".to_string()))];
    let response = tool_call_to_response(&tc);
    assert!(response.result.is_none());
    assert_eq!(response.error.as_deref(), Some("denied"));
    assert_eq!(response.approved, Some(false));
    assert_eq!(response.parameters.len(), 1);
    assert_eq!(response.parameters[0].0, "path");
    assert_eq!(response.parameters[0].1.as_str(), Some("/tmp/a"));
}

#[test]
fn test_tool_call_response_deep_nesting() {
    let inner = call("c", "grep", Some(JsonValue::Bool(true)), vec![]);
    let middle = call("b", "agent", None, vec![inner]);
    let outer = call("a", "agent", None, vec![middle]);
    let response = tool_call_to_response(&outer);
    let level1 = response.nested_tool_calls.unwrap();
    let level2 = level1[0].nested_tool_calls.as_ref().unwrap();
    assert_eq!(level2[0].id, "c");
    assert_eq!(level2[0].result.as_deref(), Some("true"));
    assert!(level2[0].nested_tool_calls.is_none());
}
