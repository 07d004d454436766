use kendra::cost_tracker::{input_tiers, UsageTotals, OVER_200K_THRESHOLD};
use kendra::json::JsonValue;
use kendra::models::TokenUsage;

fn n(v: u64) -> JsonValue {
    JsonValue::Number(v.to_string())
}

fn obj(fields: Vec<(&str, JsonValue)>) -> JsonValue {
    JsonValue::Object(fields.into_iter().map(|(k, v)| (k.to_string(), v)).collect())
}

fn usage(prompt: u64, completion: u64) -> TokenUsage {
    TokenUsage { prompt_tokens: prompt, completion_tokens: completion, ..Default::default() }
}

#[test]
fn test_token_usage_from_json() {
    let json = obj(vec![
        ("prompt_tokens", n(1500)),
        ("completion_tokens", n(300)),
        ("cache_read_input_tokens", n(800)),
    ]);
    let usage = TokenUsage::from_json(&json);
    assert_eq!(usage.prompt_tokens, 1500);
    assert_eq!(usage.completion_tokens, 300);
    assert_eq!(usage.cache_read_input_tokens, 800);
    assert_eq!(usage.cache_creation_input_tokens, 0);
}

#[test]
fn test_token_usage_from_json_ignores_non_counts() {
    let json = obj(vec![("prompt_tokens", JsonValue::Str("12".to_string())), ("completion_tokens", n(7))]);
    let usage = TokenUsage::from_json(&json);
    assert_eq!(usage.prompt_tokens, 0);
    assert_eq!(usage.completion_tokens, 7);
    let usage = TokenUsage::from_json(&JsonValue::Null);
    assert_eq!(usage, TokenUsage::default());
}

#[test]
fn test_cumulative_tracking() {
    let mut tracker = UsageTotals::new();
    tracker.record(&usage(1000, 200));
    tracker.record(&usage(2000, 300));
    assert_eq!(tracker.total_input_tokens, 3000);
    assert_eq!(tracker.total_output_tokens, 500);
    assert_eq!(tracker.call_count, 2);
}

#[test]
fn test_restore_missing_cost_tracking() {
    let mut tracker = UsageTotals::new();
    tracker.total_input_tokens = 100;
    tracker.restore_from_metadata(&obj(vec![]));
    assert_eq!(tracker.total_input_tokens, 100);
}

#[test]
fn test_totals_metadata_round_trip() {
    let mut tracker = UsageTotals::new();
    tracker.total_input_tokens = 5000;
    tracker.total_output_tokens = 2000;
    tracker.call_count = 3;
    let fields = tracker.to_metadata();
    let meta = JsonValue::Object(vec![("cost_tracking".to_string(), JsonValue::Object(fields))]);
    let mut restored = UsageTotals::new();
    restored.restore_from_metadata(&meta);
    assert_eq!(restored, tracker);
}

#[test]
fn test_restore_defaults_missing_counts_to_zero() {
    let mut tracker = UsageTotals { total_input_tokens: 9, total_output_tokens: 9, call_count: 9 };
    tracker.restore_from_metadata(&obj(vec![("cost_tracking", obj(vec![("api_call_count", n(4))]))]));
    assert_eq!(tracker, UsageTotals { total_input_tokens: 0, total_output_tokens: 0, call_count: 4 });
}

#[test]
fn test_input_tiers() {
    assert_eq!(input_tiers(250_000), (OVER_200K_THRESHOLD, 50_000));
    assert_eq!(input_tiers(200_000), (200_000, 0));
    assert_eq!(input_tiers(1000), (1000, 0));
}
