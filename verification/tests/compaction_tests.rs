use kendra::compaction::ContextCompactor;
use kendra::message::ApiMessage;

fn tool_msg(name: &str, content: &str) -> ApiMessage {
    ApiMessage {
        role: Some("tool".to_string()),
        content: Some(content.to_string()),
        name: Some(name.to_string()),
        tool_call_id: None,
        tool_calls: None,
    }
}

#[test]
fn fallback_summary_lists_user_and_assistant_lines() {
    let messages = vec![
        ApiMessage::plain("user", "Fix the login bug"),
        tool_msg("read_file", "fn login() {}"),
        ApiMessage::plain("assistant", "Found it"),
    ];
    assert_eq!(
        ContextCompactor::fallback_summary(&messages),
        "- [user] Fix the login bug\n- [assistant] Found it"
    );
}

#[test]
fn test_fallback_summary_empty_messages() {
    let summary = ContextCompactor::fallback_summary(&[]);
    assert!(summary.contains("Unknown"));
    assert!(summary.contains("None recorded"));
    assert!(summary.contains("No assistant response recorded"));
}

#[test]
fn test_extract_content_missing() {
    let msg = ApiMessage { role: None, content: None, name: None, tool_call_id: None, tool_calls: None };
    assert_eq!(msg.content_str(), "");
}

fn numbered(n: usize) -> Vec<ApiMessage> {
    let mut v = vec![ApiMessage::plain("system", "System prompt")];
    for i in 1..n {
        v.push(ApiMessage::plain(if i % 2 == 1 { "user" } else { "assistant" }, &format!("Message {i}")));
    }
    v
}

#[test]
fn compact_keeps_head_and_recent() {
    let messages = numbered(6);
    let compacted = ContextCompactor::compact(messages, "");
    // 6 messages keep 2 recent: head, summary of 3, last 2.
    assert_eq!(compacted.len(), 4);
    assert_eq!(compacted[0].content.as_deref(), Some("System prompt"));
    assert_eq!(compacted[1].role.as_deref(), Some("user"));
    assert_eq!(
        compacted[1].content.as_deref(),
        Some("[CONVERSATION SUMMARY]\n- [user] Message 1\n- [assistant] Message 2\n- [user] Message 3")
    );
    assert_eq!(compacted[2].content.as_deref(), Some("Message 4"));
    assert_eq!(compacted[3].content.as_deref(), Some("Message 5"));
}

#[test]
fn compact_leaves_short_lists_and_adds_artifacts() {
    assert_eq!(ContextCompactor::compact(numbered(4), "x").len(), 4);
    let compacted = ContextCompactor::compact(numbered(30), "Files touched: a.rs");
    // 30 messages keep 5 recent.
    assert_eq!(compacted.len(), 7);
    assert!(compacted[1].content.as_deref().unwrap().ends_with("\n\nFiles touched: a.rs"));
    assert_eq!(compacted[6].content.as_deref(), Some("Message 29"));
}

#[test]
fn sliding_window_compacts_long_sessions() {
    assert_eq!(ContextCompactor::sliding_window_compact(numbered(499), 50, "").len(), 499);
    let out = ContextCompactor::sliding_window_compact(numbered(600), 50, "");
    assert_eq!(out.len(), 52);
    assert!(out[1]
        .content
        .as_deref()
        .unwrap()
        .starts_with("[SLIDING WINDOW SUMMARY \u{2014} 549 messages compressed]\n- [user] Message 1"));
    assert_eq!(out[51].content.as_deref(), Some("Message 599"));
    assert_eq!(ContextCompactor::sliding_window_compact(numbered(600), 599, "").len(), 600);
}

#[test]
fn fallback_summary_stops_after_budget() {
    let long = "x".repeat(300);
    let messages: Vec<ApiMessage> = (0..20).map(|_| ApiMessage::plain("user", &long)).collect();
    let summary = ContextCompactor::fallback_summary(&messages);
    // Each snippet is 200 bytes: the 11th passes 2000 bytes.
    assert_eq!(summary.matches("- [user] ").count(), 11);
    assert!(summary.ends_with("\n... (9 more messages)"));
}

#[test]
fn sanitize_for_summarization_renders_roles() {
    let missing_role = ApiMessage {
        role: None,
        content: Some("orphan".to_string()),
        name: None,
        tool_call_id: None,
        tool_calls: None,
    };
    let messages = vec![
        ApiMessage::plain("user", "array content message"),
        ApiMessage::plain("assistant", ""),
        missing_role,
        ApiMessage::plain("assistant", "string content message"),
    ];
    assert_eq!(
        ContextCompactor::sanitize_for_summarization(&messages),
        "[user] array content message\n[unknown] orphan\n[assistant] string content message"
    );
}

#[test]
fn build_compaction_payload_shape() {
    assert!(ContextCompactor::build_compaction_payload(&numbered(4), "sys", "m").is_none());
    let (payload, middle, keep) = ContextCompactor::build_compaction_payload(&numbered(6), "Summarise.", "gpt-4o").unwrap();
    assert_eq!(middle, 3);
    assert_eq!(keep, 2);
    assert_eq!(payload.get_str("model"), Some("gpt-4o"));
    assert_eq!(payload.get("max_tokens").unwrap().as_u64(), Some(1024));
    assert!(matches!(payload.get("temperature"), Some(kendra::json::JsonValue::Number(t)) if t == "0.2"));
    match payload.get("messages") {
        Some(kendra::json::JsonValue::Array(items)) => {
            assert_eq!(items.len(), 2);
            assert_eq!(items[0].get_str("role"), Some("system"));
            assert_eq!(items[0].get_str("content"), Some("Summarise."));
            assert_eq!(items[1].get_str("role"), Some("user"));
            assert_eq!(
                items[1].get_str("content"),
                Some("[user] Message 1\n[assistant] Message 2\n[user] Message 3")
            );
        }
        _ => panic!("messages missing"),
    }
}

#[test]
fn apply_llm_compaction_replaces_middle() {
    let out = ContextCompactor::apply_llm_compaction(numbered(6), "It went well.", 2, "");
    assert_eq!(out.len(), 4);
    assert_eq!(out[0].content.as_deref(), Some("System prompt"));
    assert_eq!(out[1].content.as_deref(), Some("[CONVERSATION SUMMARY]\nIt went well."));
    assert_eq!(out[3].content.as_deref(), Some("Message 5"));
    let out = ContextCompactor::apply_llm_compaction(numbered(3), "s", 10, "arts");
    // Everything is kept: the first message appears before the summary and again after it.
    assert_eq!(out.len(), 5);
    assert_eq!(out[1].content.as_deref(), Some("[CONVERSATION SUMMARY]\ns\n\narts"));
    assert_eq!(out[2].content.as_deref(), Some("System prompt"));
}
