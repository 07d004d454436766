use kendra::validator::{
    filter_and_repair_messages, repair_message, validate_message, validate_message_with,
    ChatMessage, Role, ToolCall,
};

fn make_msg(role: Role, content: &str) -> ChatMessage {
    ChatMessage {
        role,
        content: content.to_string(),
        tool_calls: vec![],
        thinking_trace: None,
        reasoning_content: None,
        token_usage: None,
    }
}

fn make_tool_call(id: &str, name: &str) -> ToolCall {
    ToolCall {
        id: id.to_string(),
        name: name.to_string(),
        result: None,
        error: None,
        nested_tool_calls: vec![],
    }
}

#[test]
fn test_valid_user_message() {
    let verdict = validate_message(&make_msg(Role::User, "Hello"));
    assert!(verdict.is_valid);
}

#[test]
fn test_empty_user_message() {
    let verdict = validate_message(&make_msg(Role::User, "  "));
    assert!(!verdict.is_valid);
    assert!(verdict.reason.contains("empty content"));
}

#[test]
fn test_empty_assistant_message() {
    let verdict = validate_message(&make_msg(Role::Assistant, ""));
    assert!(!verdict.is_valid);
}

#[test]
fn test_assistant_with_empty_thinking_trace() {
    let mut msg = make_msg(Role::Assistant, "Hello");
    msg.thinking_trace = Some("  ".to_string());
    let verdict = validate_message(&msg);
    assert!(!verdict.is_valid);
    assert!(verdict.reason.contains("empty thinking_trace"));
}

#[test]
fn test_tool_call_validation() {
    let mut msg = make_msg(Role::Assistant, "Calling tool");
    msg.tool_calls = vec![make_tool_call("tc-1", "read_file")];
    let verdict = validate_message(&msg);
    assert!(!verdict.is_valid);
    assert!(verdict.reason.contains("no result and no error"));
    assert_eq!(
        verdict.reason,
        "tool_call [tc-1] (read_file) has no result and no error"
    );
}

#[test]
fn nested_tool_call_reason_has_path() {
    let mut outer = make_tool_call("a", "task_complete");
    outer.nested_tool_calls = vec![
        make_tool_call("b", "task_complete"),
        make_tool_call(" ", "x"),
    ];
    let mut msg = make_msg(Role::Assistant, "");
    msg.tool_calls = vec![outer];
    let verdict = validate_message(&msg);
    assert_eq!(verdict.reason, "tool_call[1].tool_call has empty id");
}

#[test]
fn token_usage_must_be_object() {
    let mut msg = make_msg(Role::User, "hi");
    msg.token_usage = Some(kendra::json::JsonValue::Number("3".to_string()));
    let verdict = validate_message(&msg);
    assert!(!verdict.is_valid);
    assert_eq!(verdict.reason, "token_usage is not a dict");
    assert!(validate_message_with(&msg, true).is_valid);
    msg.token_usage = Some(kendra::json::JsonValue::Object(vec![(
        "prompt_tokens".to_string(),
        kendra::json::JsonValue::Number("5".to_string()),
    )]));
    let verdict = validate_message(&msg);
    assert!(verdict.is_valid);
    assert_eq!(verdict.reason, "");
}

#[test]
fn test_repair_empty_message_dropped() {
    let mut msg = make_msg(Role::Assistant, "");
    assert!(!repair_message(&mut msg));
}

#[test]
fn test_repair_incomplete_tool_call() {
    let mut msg = make_msg(Role::Assistant, "Calling tool");
    msg.tool_calls = vec![make_tool_call("tc-1", "bash")];
    assert!(repair_message(&mut msg));
    assert_eq!(
        msg.tool_calls[0].error.as_deref(),
        Some("Tool execution was interrupted or never completed.")
    );
}

#[test]
fn test_filter_and_repair() {
    let mut messages = vec![
        make_msg(Role::User, "Hello"),
        make_msg(Role::Assistant, ""),
        make_msg(Role::User, "World"),
    ];
    let (dropped, _repaired) = filter_and_repair_messages(&mut messages);
    assert_eq!(dropped, 1);
    assert_eq!(messages.len(), 2);
}

#[test]
fn filter_counts_normalized_traces() {
    let mut with_trace = make_msg(Role::Assistant, "ok");
    with_trace.thinking_trace = Some(" \n".to_string());
    let mut messages = vec![with_trace, make_msg(Role::System, "sys")];
    let (dropped, repaired) = filter_and_repair_messages(&mut messages);
    assert_eq!((dropped, repaired), (0, 1));
    assert!(messages[0].thinking_trace.is_none());
}
