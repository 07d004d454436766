use kendra::http::{RetryAction, RetryEvent, RetryLoop};
use kendra::http::{
    converts_response, format_http_error, next_step, request_error, retry_delay_ms, status_outcome,
    AttemptOutcome, RetryStep,
};

#[test]
fn test_format_http_error_known_statuses() {
    assert_eq!(
        format_http_error(401),
        "HTTP 401 (Unauthorized): API key is missing or invalid. Please check your configuration."
    );
    assert_eq!(
        format_http_error(503),
        "HTTP 503 (Service Unavailable): The LLM provider is overloaded or down for maintenance."
    );
    assert!(format_http_error(410).starts_with("HTTP 410 (Gone)"));
}

#[test]
fn test_format_http_error_other_status() {
    assert_eq!(format_http_error(418), "HTTP 418");
    assert_eq!(format_http_error(0), "HTTP 0");
}

#[test]
fn test_request_error_uses_body_message() {
    let body = r#"{"error":{"message":"context too long"}}"#;
    assert_eq!(request_error("req-1", body, 400), "[request_id=req-1] context too long");
}

#[test]
fn test_request_error_falls_back_to_status_text() {
    assert_eq!(request_error("r", "not json", 404), format!("[request_id=r] {}", format_http_error(404)));
    assert_eq!(request_error("r", r#"{"error":"plain"}"#, 500), format!("[request_id=r] {}", format_http_error(500)));
}

#[test]
fn test_retry_steps() {
    assert_eq!(next_step(0, 3, AttemptOutcome::RetryableStatus), RetryStep::Retry);
    assert_eq!(next_step(2, 3, AttemptOutcome::RetryableFailure), RetryStep::Retry);
    assert_eq!(next_step(3, 3, AttemptOutcome::RetryableStatus), RetryStep::Finish { success: false });
    assert_eq!(next_step(0, 3, AttemptOutcome::Final { success: true }), RetryStep::Finish { success: true });
    assert_eq!(next_step(0, 3, AttemptOutcome::Failed), RetryStep::Finish { success: false });
    assert_eq!(next_step(0, 0, AttemptOutcome::RetryableFailure), RetryStep::Finish { success: false });
}

#[test]
fn test_retry_delay() {
    assert_eq!(retry_delay_ms(Some(500), 10_000, 2_000), 500);
    assert_eq!(retry_delay_ms(Some(60_000), 10_000, 2_000), 10_000);
    assert_eq!(retry_delay_ms(None, 10_000, 2_000), 2_000);
}

#[test]
fn test_status_outcome() {
    assert_eq!(status_outcome(429, true), AttemptOutcome::RetryableStatus);
    assert_eq!(status_outcome(404, false), AttemptOutcome::Final { success: false });
    assert_eq!(status_outcome(200, false), AttemptOutcome::Final { success: true });
    assert_eq!(status_outcome(399, false), AttemptOutcome::Final { success: true });
}

#[test]
fn test_converts_response() {
    assert!(converts_response(true, true, true));
    assert!(!converts_response(false, true, true));
    assert!(!converts_response(true, false, true));
    assert!(!converts_response(true, true, false));
}

#[test]
fn test_retry_loop_cancellation_and_retries() {
    let mut l = RetryLoop::new(1);
    assert_eq!(l.step(RetryEvent::Start { circuit_open: false }), RetryAction::CheckCancel);
    assert_eq!(l.step(RetryEvent::Ready { cancelled: false }), RetryAction::Attempt);
    assert_eq!(l.step(RetryEvent::Attempted(AttemptOutcome::RetryableStatus)), RetryAction::Wait);
    assert_eq!(l.step(RetryEvent::Waited { cancelled: false }), RetryAction::CheckCancel);
    assert_eq!(l.attempt, 1);
    assert_eq!(l.step(RetryEvent::Ready { cancelled: false }), RetryAction::Attempt);
    assert_eq!(
        l.step(RetryEvent::Attempted(AttemptOutcome::RetryableStatus)),
        RetryAction::Finish { success: false }
    );
    let mut l = RetryLoop::new(3);
    assert_eq!(l.step(RetryEvent::Start { circuit_open: true }), RetryAction::RejectOpenCircuit);
    assert_eq!(l.step(RetryEvent::Ready { cancelled: true }), RetryAction::InterruptedBeforeAttempt);
    assert_eq!(l.step(RetryEvent::Waited { cancelled: true }), RetryAction::InterruptedWhileWaiting);
    assert_eq!(
        l.step(RetryEvent::Attempted(AttemptOutcome::Final { success: true })),
        RetryAction::Finish { success: true }
    );
}
