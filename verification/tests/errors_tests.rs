use kendra::errors::{classify_api_error, StructuredError};
use kendra::models::ErrorCategory;

fn classify(msg: &str, status: Option<u16>, provider: Option<&str>) -> StructuredError {
    classify_api_error(msg, status, provider).unwrap()
}

#[test]
fn test_classify_context_overflow_anthropic() {
    let err = classify("prompt is too long: 250000 tokens", None, Some("anthropic"));
    assert_eq!(err.category, ErrorCategory::ContextOverflow);
    assert!(err.is_retryable);
    assert!(err.should_compact());
}

#[test]
fn test_classify_context_overflow_openai() {
    let err = classify(
        "This model's maximum context length is 128000 tokens",
        None,
        Some("openai"),
    );
    assert_eq!(err.category, ErrorCategory::ContextOverflow);
    assert!(err.is_retryable);
}

#[test]
fn test_classify_context_overflow_google() {
    let err = classify("GenerateContentRequest is too large", None, Some("google"));
    assert_eq!(err.category, ErrorCategory::ContextOverflow);
}

#[test]
fn test_classify_rate_limit() {
    let err = classify("Rate limit exceeded", Some(429), Some("openai"));
    assert_eq!(err.category, ErrorCategory::RateLimit);
    assert!(err.is_retryable);
}

#[test]
fn test_classify_rate_limit_with_retry_after() {
    let err = classify("Too many requests. Retry-After: 30", Some(429), Some("anthropic"));
    assert_eq!(err.category, ErrorCategory::RateLimit);
    assert_eq!(
        err.retry_after.as_deref().map(|s| s.parse::<f64>().unwrap()),
        Some(30.0)
    );
}

#[test]
fn test_classify_auth_by_status_code() {
    let err = classify("Forbidden", Some(401), None);
    assert_eq!(err.category, ErrorCategory::Auth);
    assert!(!err.is_retryable);
}

#[test]
fn test_classify_auth_by_pattern() {
    let err = classify("Invalid API key provided", Some(400), Some("openai"));
    assert_eq!(err.category, ErrorCategory::Auth);
    assert!(!err.is_retryable);
}

#[test]
fn test_classify_gateway_html() {
    let err = classify("<!doctype html><html>502 Bad Gateway</html>", Some(502), None);
    assert_eq!(err.category, ErrorCategory::Gateway);
    assert!(err.is_retryable);
    assert!(err.original_error.is_some());
}

#[test]
fn test_classify_gateway_401_html() {
    let err = classify("<html>Unauthorized</html>", Some(401), None);
    assert_eq!(err.category, ErrorCategory::Gateway);
    assert!(err.message.contains("Authentication failed at gateway"));
}

#[test]
fn classify_gateway_excerpt_is_500_bytes() {
    let page = format!("<html>{}", "x".repeat(600));
    let err = classify(&page, None, None);
    assert_eq!(err.original_error.as_deref(), Some(&page[..500]));
    // A page whose 500th byte falls inside a character cannot be cut there.
    let cut = format!("<html>{}é{}", "x".repeat(493), "y".repeat(10));
    assert!(!cut.is_char_boundary(500));
    assert!(classify_api_error(&cut, None, None).is_none());
}

#[test]
fn test_classify_generic_500() {
    let err = classify("Internal server error", Some(500), None);
    assert_eq!(err.category, ErrorCategory::Api);
    assert!(err.is_retryable);
}

#[test]
fn test_classify_unknown() {
    let err = classify("Something went wrong", None, None);
    assert_eq!(err.category, ErrorCategory::Unknown);
    assert!(!err.is_retryable);
}

#[test]
fn test_structured_error_display() {
    let err = StructuredError::api("test error".to_string(), Some(500));
    let display = err.to_string();
    assert!(display.contains("Api"));
    assert!(display.contains("test error"));
    assert_eq!(display, "[Api] test error");
}
