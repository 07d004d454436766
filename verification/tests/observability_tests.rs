use kendra::json::JsonValue;
use kendra::models::{GovernanceConfig, ObservabilityConfig};
use kendra::observability::{
    enrich_event, ndjson_line, sanitize_and_enrich, CollectorAction, CollectorEvent, ObservabilityManager,
};

fn s(t: &str) -> JsonValue {
    JsonValue::Str(t.to_string())
}

fn obj(fields: Vec<(&str, JsonValue)>) -> JsonValue {
    JsonValue::Object(fields.into_iter().map(|(k, v)| (k.to_string(), v)).collect())
}

fn config(redact: &[&str]) -> ObservabilityConfig {
    ObservabilityConfig {
        enabled: true,
        sinks: vec![],
        governance: GovernanceConfig {
            sanitize_pii: false,
            redact_keys: redact.iter().map(|k| k.to_string()).collect(),
        },
    }
}

fn session_start(id: &str) -> JsonValue {
    obj(vec![
        ("type", s("SessionStart")),
        ("session_id", s(id)),
        ("timestamp_ms", JsonValue::Number("0".to_string())),
    ])
}

fn exported(manager: &ObservabilityManager, event: JsonValue) -> JsonValue {
    match manager.handle(CollectorEvent::Received(event)) {
        CollectorAction::Export(v) => v,
        _ => panic!("expected an export"),
    }
}

#[test]
fn test_observability_manager_collection_and_enrichment() {
    let manager = ObservabilityManager::new(config(&["secret_key"]));
    assert!(manager.is_enabled());
    let event = exported(&manager, session_start("test-session"));
    assert!(event.get("header").is_some());
    assert_eq!(event.get("header").unwrap().get_str("cli_name"), Some("kendra-cli"));
    assert_eq!(event.get_str("type"), Some("SessionStart"));
}

#[test]
fn test_observability_manager_redaction() {
    let manager = ObservabilityManager::new(config(&["session_id"]));
    let event = exported(&manager, session_start("sensitive-id"));
    assert!(event.get("session_id").is_none());
    assert_eq!(event.get_str("type"), Some("SessionStart"));
}

#[test]
fn test_enrich_event_exact_header() {
    let event = enrich_event(&config(&[]), obj(vec![("a", s("b"))]), "2024-01-01T00:00:00+00:00");
    let header = event.get("header").unwrap();
    assert_eq!(header.get_str("cli_name"), Some("kendra-cli"));
    assert_eq!(header.get_str("cli_version"), Some("0.1.0"));
    assert_eq!(header.get_str("timestamp"), Some("2024-01-01T00:00:00+00:00"));
    assert_eq!(event.get_str("a"), Some("b"));
}

#[test]
fn test_redacting_the_header_removes_it() {
    let event = enrich_event(&config(&["header", "a"]), obj(vec![("a", s("b")), ("c", s("d"))]), "t");
    assert!(event.get("header").is_none());
    assert!(event.get("a").is_none());
    assert_eq!(event.get_str("c"), Some("d"));
}

#[test]
fn test_non_object_event_passes_unchanged() {
    let event = sanitize_and_enrich(&config(&["x"]), s("plain"));
    assert_eq!(event.as_str(), Some("plain"));
    let event = sanitize_and_enrich(&config(&[]), JsonValue::Null);
    assert!(matches!(event, JsonValue::Null));
}

#[test]
fn test_collector_steps() {
    let manager = ObservabilityManager::new(config(&[]));
    assert!(matches!(manager.handle(CollectorEvent::Lagged(3)), CollectorAction::Continue));
    assert!(matches!(manager.handle(CollectorEvent::Closed), CollectorAction::Stop));
    let mut disabled = config(&[]);
    disabled.enabled = false;
    assert!(!ObservabilityManager::new(disabled).is_enabled());
}

#[test]
fn test_ndjson_line() {
    assert_eq!(ndjson_line(&obj(vec![("k", JsonValue::Bool(true))])), "{\"k\":true}\n");
    assert_eq!(ndjson_line(&JsonValue::Null), "null\n");
}
