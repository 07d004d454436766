use kendra::sanitizer::{truncate_head, truncate_head_tail, truncate_tail, ToolResultSanitizer};

#[test]
fn test_truncate_head() {
    assert_eq!(truncate_head("hello world", 5), "hello");
}

#[test]
fn test_truncate_tail() {
    assert_eq!(truncate_tail("hello world", 5), "world");
}

#[test]
fn test_truncate_head_tail() {
    let text = "abcdefghij";
    let result = truncate_head_tail(text, 6, 500);
    assert!(result.starts_with("abc"));
    assert!(result.ends_with("hij"));
    assert!(result.contains("[middle truncated]"));
}

#[test]
fn test_no_truncation_short_output() {
    let sanitizer = ToolResultSanitizer::new();
    let result = sanitizer.sanitize("read_file", true, Some("short output"), None);
    assert!(!result.was_truncated);
    assert_eq!(result.output.as_deref(), Some("short output"));
}

#[test]
fn test_truncation_head_strategy() {
    let sanitizer = ToolResultSanitizer::new();
    let long_output = "x".repeat(20000);
    let result = sanitizer.sanitize("read_file", true, Some(&long_output), None);
    assert!(result.was_truncated);
    let output = result.output.unwrap();
    assert!(output.contains("[truncated:"));
    assert!(output.contains("strategy=head"));
    assert!(output.ends_with("\n\n[truncated: showing 15000 of 20000 chars, strategy=head]"));
}

#[test]
fn test_truncation_tail_strategy() {
    let sanitizer = ToolResultSanitizer::new();
    let long_output = "x".repeat(10000);
    let result = sanitizer.sanitize("run_command", true, Some(&long_output), None);
    assert!(result.was_truncated);
    let output = result.output.unwrap();
    assert!(output.contains("strategy=tail"));
}

#[test]
fn test_truncation_head_tail_strategy() {
    let sanitizer = ToolResultSanitizer::new();
    let long_output = "x".repeat(15000);
    let result = sanitizer.sanitize("git", true, Some(&long_output), None);
    assert!(result.was_truncated);
    let output = result.output.unwrap();
    assert!(output.contains("strategy=head_tail"));
    assert!(output.contains("[middle truncated]"));
}

#[test]
fn test_error_truncation() {
    let sanitizer = ToolResultSanitizer::new();
    let long_error = "e".repeat(5000);
    let result = sanitizer.sanitize("read_file", false, None, Some(&long_error));
    assert!(!result.was_truncated);
    let error = result.error.unwrap();
    assert!(error.len() <= 2000);
}

#[test]
fn test_error_not_truncated_when_short() {
    let sanitizer = ToolResultSanitizer::new();
    let result = sanitizer.sanitize("read_file", false, None, Some("file not found"));
    assert_eq!(result.error.as_deref(), Some("file not found"));
}

#[test]
fn test_no_rule_no_truncation() {
    let sanitizer = ToolResultSanitizer::new();
    let long_output = "x".repeat(50000);
    let result = sanitizer.sanitize("custom_tool", true, Some(&long_output), None);
    assert!(!result.was_truncated);
    assert_eq!(result.output.unwrap().len(), 50000);
}

#[test]
fn test_mcp_fallback() {
    let sanitizer = ToolResultSanitizer::new();
    let long_output = "x".repeat(10000);
    let result = sanitizer.sanitize_with_mcp_fallback(
        "mcp__github__list",
        true,
        Some(&long_output),
        None,
    );
    assert!(result.was_truncated);
}

#[test]
fn test_custom_limits() {
    let limits = vec![("read_file".to_string(), 100)];
    let sanitizer = ToolResultSanitizer::with_custom_limits(limits);

    let output = "x".repeat(200);
    let result = sanitizer.sanitize("read_file", true, Some(&output), None);
    assert!(result.was_truncated);
}

#[test]
fn test_empty_output() {
    let sanitizer = ToolResultSanitizer::new();
    let result = sanitizer.sanitize("read_file", true, Some(""), None);
    assert!(!result.was_truncated);
}

#[test]
fn test_none_output() {
    let sanitizer = ToolResultSanitizer::new();
    let result = sanitizer.sanitize("read_file", true, None, None);
    assert!(!result.was_truncated);
    assert!(result.output.is_none());
}

#[test]
fn custom_limit_keeps_strategy_and_adds_new_tools() {
    let limits = vec![("run_command".to_string(), 10), ("my_tool".to_string(), 3)];
    let sanitizer = ToolResultSanitizer::with_custom_limits(limits);
    let r = sanitizer.get_rule("run_command").unwrap();
    assert_eq!(r.max_chars, 10);
    let r = sanitizer.get_rule("my_tool").unwrap();
    assert_eq!(r.max_chars, 3);
    let out = sanitizer.sanitize("my_tool", true, Some("abcdef"), Some("ignored"));
    assert_eq!(
        out.output.as_deref(),
        Some("abc\n\n[truncated: showing 3 of 6 chars, strategy=head]")
    );
    assert!(out.error.is_none());
    let out = sanitizer.sanitize("run_command", true, Some("0123456789abc"), None);
    assert_eq!(
        out.output.as_deref(),
        Some("3456789abc\n\n[truncated: showing 10 of 13 chars, strategy=tail]")
    );
}

#[test]
fn head_tail_split_and_byte_counts() {
    // 700 thousandths of 10 chars: 7 head, 3 tail
    assert_eq!(
        truncate_head_tail("abcdefghijkl", 10, 700),
        "abcdefg\n\n... [middle truncated] ...\n\njkl"
    );
    // multi-byte output is measured in bytes
    let sanitizer = ToolResultSanitizer::with_custom_limits(vec![("t".to_string(), 2)]);
    let out = sanitizer.sanitize("t", true, Some("ééé"), None);
    assert_eq!(
        out.output.as_deref(),
        Some("éé\n\n[truncated: showing 4 of 6 chars, strategy=head]")
    );
    let out = sanitizer.sanitize_with_mcp_fallback("mcp__x", true, Some("short"), None);
    assert!(!out.was_truncated);
}
