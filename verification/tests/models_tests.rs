use kendra::memory::DeltaOperationType;
use kendra::models::ToolError;

#[test]
fn test_operation_type_display() {
    assert_eq!(DeltaOperationType::Add.to_string(), "ADD");
    assert_eq!(DeltaOperationType::Update.to_string(), "UPDATE");
    assert_eq!(DeltaOperationType::Tag.to_string(), "TAG");
    assert_eq!(DeltaOperationType::Remove.to_string(), "REMOVE");
}

#[test]
fn test_tool_error_display() {
    let err = ToolError::InvalidParams("missing file_path".into());
    assert_eq!(err.to_string(), "Invalid parameters: missing file_path");
}

use kendra::json::JsonValue;
use kendra::models::{ToolContext, ToolResult};

#[test]
fn test_tool_result_ok() {
    let result = ToolResult::ok("file contents here".to_string());
    assert!(result.success);
    assert_eq!(result.output.as_deref(), Some("file contents here"));
    assert!(result.error.is_none());
    assert!(result.metadata.is_empty());
}

#[test]
fn test_tool_result_ok_with_metadata() {
    let meta = vec![("lines".to_string(), JsonValue::Number("42".to_string()))];
    let result = ToolResult::ok_with_metadata("output".to_string(), meta);
    assert!(result.success);
    match result.metadata.iter().find(|(k, _)| k == "lines") {
        Some((_, JsonValue::Number(n))) => assert_eq!(n, "42"),
        _ => panic!("metadata expected"),
    }
}

#[test]
fn test_tool_result_fail() {
    let result = ToolResult::fail("file not found".to_string());
    assert!(!result.success);
    assert!(result.output.is_none());
    assert_eq!(result.error.as_deref(), Some("file not found"));
}

#[test]
fn test_tool_result_from_error() {
    let err = ToolError::NotFound("read_file".into());
    let result = ToolResult::from_error(err);
    assert!(!result.success);
    assert!(result.error.as_ref().unwrap().contains("read_file"));
    assert_eq!(result.error.as_deref(), Some("Tool not found: read_file"));
}

#[test]
fn test_tool_context_builder() {
    let ctx = ToolContext::new("/tmp/project")
        .with_subagent(true)
        .with_session_id("sess-123")
        .with_value("key", JsonValue::Str("value".to_string()));

    assert_eq!(ctx.working_dir, "/tmp/project");
    assert!(ctx.is_subagent);
    assert_eq!(ctx.session_id.as_deref(), Some("sess-123"));
    assert_eq!(ctx.values.len(), 1);
    assert_eq!(ctx.values[0].0, "key");
    assert_eq!(ctx.values[0].1.as_str(), Some("value"));
}

#[test]
fn test_tool_context_value_replaced() {
    let ctx = ToolContext::new("/w")
        .with_value("a", JsonValue::Bool(true))
        .with_value("b", JsonValue::Null)
        .with_value("a", JsonValue::Bool(false));
    assert_eq!(ctx.values.len(), 2);
    assert_eq!(ctx.values[0].0, "a");
    assert!(matches!(ctx.values[0].1, JsonValue::Bool(false)));
    assert!(!ctx.is_subagent);
}
