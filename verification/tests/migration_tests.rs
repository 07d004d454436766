use kendra::json::JsonValue;
use kendra::migration::{config_version, migrate_config, needs_migration, CURRENT_CONFIG_VERSION};

fn s(t: &str) -> JsonValue {
    JsonValue::Str(t.to_string())
}

fn n(t: &str) -> JsonValue {
    JsonValue::Number(t.to_string())
}

fn obj(fields: Vec<(&str, JsonValue)>) -> JsonValue {
    JsonValue::Object(fields.into_iter().map(|(k, v)| (k.to_string(), v)).collect())
}

fn text<'a>(v: &'a JsonValue, key: &str) -> &'a str {
    v.get_str(key).expect("string field")
}

fn number<'a>(v: &'a JsonValue, key: &str) -> &'a str {
    match v.get(key) {
        Some(JsonValue::Number(t)) => t.as_str(),
        _ => panic!("number field expected"),
    }
}

#[test]
fn test_current_version() {
    assert!(CURRENT_CONFIG_VERSION >= 1);
}

#[test]
fn test_migrate_unversioned_config() {
    let value = obj(vec![("model_provider", s("openai")), ("model", s("gpt-4"))]);

    assert!(needs_migration(&value));
    assert_eq!(config_version(&value), 0);

    let (migrated, changed) = migrate_config(value);
    assert!(changed);
    assert_eq!(config_version(&migrated), CURRENT_CONFIG_VERSION);

    assert_eq!(text(&migrated, "model_provider"), "openai");
    assert_eq!(text(&migrated, "model"), "gpt-4");
}

#[test]
fn test_migrate_already_current() {
    let value = obj(vec![
        ("config_version", JsonValue::from_u64(CURRENT_CONFIG_VERSION as u64)),
        ("model_provider", s("anthropic")),
        ("model", s("opus-3")),
    ]);

    assert!(!needs_migration(&value));

    let (migrated, changed) = migrate_config(value);
    assert!(!changed);
    assert_eq!(config_version(&migrated), CURRENT_CONFIG_VERSION);
}

#[test]
fn test_migrate_v0_to_v1() {
    let value = obj(vec![
        ("model_provider", s("fireworks")),
        ("temperature", n("0.7")),
        ("verbose", JsonValue::Bool(true)),
    ]);

    let (migrated, changed) = migrate_config(value);
    assert!(changed);
    assert_eq!(config_version(&migrated), 1);
    assert_eq!(text(&migrated, "model_provider"), "fireworks");
    assert_eq!(number(&migrated, "temperature"), "0.7");
    assert!(matches!(migrated.get("verbose"), Some(JsonValue::Bool(true))));
}

#[test]
fn test_needs_migration_empty_object() {
    let value = obj(vec![]);
    assert!(needs_migration(&value));
}

#[test]
fn test_config_version_missing() {
    let value = obj(vec![("model", s("gpt-4"))]);
    assert_eq!(config_version(&value), 0);
}

#[test]
fn test_config_version_present() {
    let value = obj(vec![("config_version", n("1"))]);
    assert_eq!(config_version(&value), 1);
}

#[test]
fn test_migrate_preserves_all_fields() {
    let value = obj(vec![
        ("model_provider", s("openai")),
        ("model", s("gpt-4")),
        ("api_key", s("sk-test")),
        ("max_tokens", n("8192")),
        ("temperature", n("0.5")),
        ("verbose", JsonValue::Bool(true)),
        ("debug_logging", JsonValue::Bool(false)),
        ("custom_field", s("should_survive")),
    ]);

    let (migrated, _) = migrate_config(value);
    assert_eq!(text(&migrated, "model_provider"), "openai");
    assert_eq!(text(&migrated, "api_key"), "sk-test");
    assert_eq!(number(&migrated, "max_tokens"), "8192");
    assert_eq!(text(&migrated, "custom_field"), "should_survive");
}

#[test]
fn test_migration_stamps_field_once() {
    let value = obj(vec![("model", s("m"))]);
    let (once, changed) = migrate_config(value);
    assert!(changed);
    assert_eq!(number(&once, "config_version"), "1");
    let (twice, changed_again) = migrate_config(once.duplicate());
    assert!(!changed_again);
    match (&once, &twice) {
        (JsonValue::Object(a), JsonValue::Object(b)) => assert_eq!(a.len(), b.len()),
        _ => panic!("objects expected"),
    }
}

#[test]
fn test_version_edge_cases() {
    // A version that is not an unsigned integer counts as none.
    assert_eq!(config_version(&obj(vec![("config_version", n("1.0"))])), 0);
    assert_eq!(config_version(&obj(vec![("config_version", n("-1"))])), 0);
    assert_eq!(config_version(&obj(vec![("config_version", s("1"))])), 0);
    // Taken to 32 bits, as the stored value is read.
    assert_eq!(config_version(&obj(vec![("config_version", n("4294967297"))])), 1);
    // A later version is set back to the current one, without a migration.
    let (m, changed) = migrate_config(obj(vec![("config_version", n("7"))]));
    assert!(!changed);
    assert_eq!(number(&m, "config_version"), "1");
    // Values that are not objects stay as they are.
    let (arr, changed) = migrate_config(JsonValue::Array(vec![]));
    assert!(changed);
    assert!(matches!(arr, JsonValue::Array(ref v) if v.is_empty()));
}
