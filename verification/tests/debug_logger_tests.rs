use kendra::debug_logger::{is_truncatable, log_line, truncate_value, SessionDebugLogger};
use kendra::json::JsonValue;

fn obj(fields: Vec<(&str, JsonValue)>) -> JsonValue {
    JsonValue::Object(fields.into_iter().map(|(k, v)| (k.to_string(), v)).collect())
}

fn s(t: &str) -> JsonValue {
    JsonValue::Str(t.to_string())
}

#[test]
fn test_noop_logger() {
    let logger = SessionDebugLogger::noop();
    assert!(!logger.is_enabled());
    assert!(logger.file_path().is_none());
    assert!(logger.log("test", "test", &obj(vec![("key", s("value"))])).is_none());
}

#[test]
fn test_active_logger() {
    let logger = SessionDebugLogger::new("/tmp/sessions", "test123");
    assert!(logger.is_enabled());
    assert_eq!(logger.file_path(), Some("/tmp/sessions/test123.debug"));

    let line1 = logger.log("event1", "comp1", &obj(vec![("foo", s("bar"))])).unwrap();
    let line2 = logger.log("event2", "comp2", &obj(vec![("count", JsonValue::Number("42".to_string()))])).unwrap();
    let content = format!("{line1}{line2}");
    let lines: Vec<&str> = content.lines().collect();
    assert_eq!(lines.len(), 2);

    let entry: serde_json::Value = serde_json::from_str(lines[0]).unwrap();
    assert_eq!(entry["event"], "event1");
    assert_eq!(entry["component"], "comp1");
    assert_eq!(entry["data"]["foo"], "bar");
    assert!(entry["elapsed_ms"].is_u64());
}

#[test]
fn test_truncation() {
    let long_string = "x".repeat(300);
    let data = obj(vec![("msg", s(&long_string))]);
    let truncated = truncate_value(&data);

    let msg = truncated.get_str("msg").unwrap();
    assert!(msg.len() < 300);
    assert!(msg.contains("300 chars"));
    assert_eq!(msg, format!("{}... (300 chars)", "x".repeat(200)));
}

#[test]
fn test_nested_truncation() {
    let long = "y".repeat(500);
    let data = obj(vec![("outer", obj(vec![("inner", s(&long))]))]);
    let truncated = truncate_value(&data);
    let inner = truncated.get("outer").unwrap().get_str("inner").unwrap();
    assert!(inner.contains("500 chars"));
}

#[test]
fn test_truncation_arrays_and_short_values() {
    let data = JsonValue::Array(vec![s(&"z".repeat(201)), s("short"), JsonValue::Bool(true)]);
    match truncate_value(&data) {
        JsonValue::Array(items) => {
            assert_eq!(items[0].as_str().unwrap(), format!("{}... (201 chars)", "z".repeat(200)));
            assert_eq!(items[1].as_str(), Some("short"));
            assert!(matches!(items[2], JsonValue::Bool(true)));
        }
        _ => panic!("array expected"),
    }
    // A cut at byte 200 inside a two-byte character cannot be made.
    let odd = format!("a{}", "é".repeat(150));
    assert!(!is_truncatable(&s(&odd)));
    assert!(is_truncatable(&s(&"é".repeat(150))));
}

#[test]
fn test_log_line_text() {
    let line = log_line("2025-01-01T00:00:00+00:00", 5, "e", "c", &obj(vec![("k", s("v"))]));
    assert_eq!(
        line,
        "{\"component\":\"c\",\"data\":{\"k\":\"v\"},\"elapsed_ms\":5,\"event\":\"e\",\"ts\":\"2025-01-01T00:00:00+00:00\"}\n"
    );
}
