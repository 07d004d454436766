//! The decisions of the HTTP client around its requests: what an error
//! status means to the user, whether to retry an attempt, how long to wait,
//! and what the error of a failed request says. Sending requests, sleeping
//! and cancelling are the caller's part.
use vstd::prelude::*;

use crate::text::{owned, push_decimal, push_str};

verus! {

/// The message for an HTTP error status.
pub open spec fn http_error_text(status: u16) -> Seq<char> {
    if status == 400 {
        "HTTP 400 (Bad Request): The LLM provider rejected the request. This often means the context is too large or parameters are invalid."@
    } else if status == 401 {
        "HTTP 401 (Unauthorized): API key is missing or invalid. Please check your configuration."@
    } else if status == 403 {
        "HTTP 403 (Forbidden): You do not have permission to access this model or endpoint."@
    } else if status == 404 {
        "HTTP 404 (Not Found): The model endpoint does not exist. The provider may have changed their API."@
    } else if status == 410 {
        "HTTP 410 (Gone): The selected model has been permanently removed or deprecated by the provider. Please select a different model."@
    } else if status == 429 {
        "HTTP 429 (Too Many Requests): Rate limit exceeded. The provider is throttling your requests."@
    } else if status == 500 {
        "HTTP 500 (Internal Server Error): The LLM provider experienced an internal error."@
    } else if status == 502 {
        "HTTP 502 (Bad Gateway): The LLM provider's servers are down or unreachable."@
    } else if status == 503 {
        "HTTP 503 (Service Unavailable): The LLM provider is overloaded or down for maintenance."@
    } else if status == 504 {
        "HTTP 504 (Gateway Timeout): The LLM provider took too long to respond."@
    } else {
        "HTTP "@ + crate::text::decimal(status as nat)
    }
}

/// The message for an HTTP error status.
pub fn format_http_error(status: u16) -> (r: String)
    ensures
        r@ == http_error_text(status),
{
    match status {
        400 => owned("HTTP 400 (Bad Request): The LLM provider rejected the request. This often means the context is too large or parameters are invalid."),
        401 => owned("HTTP 401 (Unauthorized): API key is missing or invalid. Please check your configuration."),
        403 => owned("HTTP 403 (Forbidden): You do not have permission to access this model or endpoint."),
        404 => owned("HTTP 404 (Not Found): The model endpoint does not exist. The provider may have changed their API."),
        410 => owned("HTTP 410 (Gone): The selected model has been permanently removed or deprecated by the provider. Please select a different model."),
        429 => owned("HTTP 429 (Too Many Requests): Rate limit exceeded. The provider is throttling your requests."),
        500 => owned("HTTP 500 (Internal Server Error): The LLM provider experienced an internal error."),
        502 => owned("HTTP 502 (Bad Gateway): The LLM provider's servers are down or unreachable."),
        503 => owned("HTTP 503 (Service Unavailable): The LLM provider is overloaded or down for maintenance."),
        504 => owned("HTTP 504 (Gateway Timeout): The LLM provider took too long to respond."),
        _ => {
            let mut r = owned("HTTP ");
            push_decimal(&mut r, status as u64);
            r
        },
    }
}

/// The `error.message` field of a JSON response body, as serde_json reads
/// it.
pub uninterp spec fn body_error_field(body: Seq<char>) -> Option<Seq<char>>;

/// Calls `serde_json::from_str` on a response body, then
/// `Value::pointer("/error/message")` and `Value::as_str`; the result is
/// named by `body_error_field`, and JSON parsing is not stated here.
#[verifier::external_body]
fn body_error_message(body: &str) -> (r: Option<String>)
    ensures
        crate::message::opt_view(r) == body_error_field(body@),
{
    match serde_json::from_str::<serde_json::Value>(body) {
        Ok(v) => v.pointer("/error/message").and_then(|m| m.as_str()).map(|s| s.to_string()),
        Err(_) => None,
    }
}

/// The error of a request that failed with `status`: tagged with the
/// request id, the body's `error.message` where it has one, else the
/// status's message.
pub open spec fn request_error_text(request_id: Seq<char>, body: Seq<char>, status: u16) -> Seq<char> {
    "[request_id="@ + request_id + "] "@ + match body_error_field(body) {
        Some(m) => m,
        None => http_error_text(status),
    }
}

/// The error of a request that failed with `status`.
pub fn request_error(request_id: &str, body: &str, status: u16) -> (r: String)
    ensures
        r@ == request_error_text(request_id@, body@, status),
{
    let mut r = owned("[request_id=");
    push_str(&mut r, request_id);
    push_str(&mut r, "] ");
    match body_error_message(body) {
        Some(m) => push_str(&mut r, m.as_str()),
        None => push_str(&mut r, format_http_error(status).as_str()),
    }
    r
}

/// What one attempt of a request came to.
#[derive(Debug, Clone, Copy, PartialEq, Eq, Structural)]
pub enum AttemptOutcome {
    /// A response whose status the retry policy retries.
    RetryableStatus,
    /// A transport failure worth retrying (connection, timeout, request).
    RetryableFailure,
    /// A final response; `success` says whether it succeeded.
    Final { success: bool },
    /// A transport failure not worth retrying.
    Failed,
}

/// What the retry loop does after an attempt.
#[derive(Debug, Clone, Copy, PartialEq, Eq, Structural)]
pub enum RetryStep {
    /// Wait, then make the next attempt.
    Retry,
    /// Stop; `success` is what the circuit breaker records.
    Finish { success: bool },
}

/// The step after attempt `attempt` (counting from zero) of at most
/// `max_retries + 1`.
pub open spec fn step_after(attempt: u32, max_retries: u32, outcome: AttemptOutcome) -> RetryStep {
    match outcome {
        AttemptOutcome::RetryableStatus | AttemptOutcome::RetryableFailure => if attempt
            < max_retries {
            RetryStep::Retry
        } else {
            RetryStep::Finish { success: false }
        },
        AttemptOutcome::Final { success } => RetryStep::Finish { success },
        AttemptOutcome::Failed => RetryStep::Finish { success: false },
    }
}

/// Decides whether to retry after an attempt: a retryable outcome is
/// retried while attempts remain; anything else, or running out, finishes.
pub fn next_step(attempt: u32, max_retries: u32, outcome: AttemptOutcome) -> (r: RetryStep)
    ensures
        r == step_after(attempt, max_retries, outcome),
{
    match outcome {
        AttemptOutcome::RetryableStatus | AttemptOutcome::RetryableFailure => {
            if attempt < max_retries {
                RetryStep::Retry
            } else {
                RetryStep::Finish { success: false }
            }
        },
        AttemptOutcome::Final { success } => RetryStep::Finish { success },
        AttemptOutcome::Failed => RetryStep::Finish { success: false },
    }
}

/// The retry loop makes at most `max_retries + 1` attempts: no attempt
/// from the last on is retried, and a final response is never retried.
pub proof fn law_retries_are_bounded(attempt: u32, max_retries: u32, outcome: AttemptOutcome)
    ensures
        attempt >= max_retries ==> step_after(attempt, max_retries, outcome) != RetryStep::Retry,
        outcome matches AttemptOutcome::Final { success } ==> step_after(
            attempt,
            max_retries,
            outcome,
        ) == (RetryStep::Finish { success }),
{
}

/// The delay before the next attempt, in milliseconds: the server's
/// request, capped, where it made one; else the backoff for the attempt.
pub open spec fn delay_ms(server_ms: Option<u64>, max_delay_ms: u64, backoff_ms: u64) -> u64 {
    match server_ms {
        Some(s) => if s < max_delay_ms {
            s
        } else {
            max_delay_ms
        },
        None => backoff_ms,
    }
}

/// The delay before the next attempt, in milliseconds.
pub fn retry_delay_ms(server_ms: Option<u64>, max_delay_ms: u64, backoff_ms: u64) -> (r: u64)
    ensures
        r == delay_ms(server_ms, max_delay_ms, backoff_ms),
{
    match server_ms {
        Some(s) => if s < max_delay_ms {
            s
        } else {
            max_delay_ms
        },
        None => backoff_ms,
    }
}

/// What a response with `status` comes to, where `retryable` says whether
/// the retry policy retries that status: a retryable status, else a final
/// response that succeeded below 400.
pub fn status_outcome(status: u16, retryable: bool) -> (r: AttemptOutcome)
    ensures
        r == (if retryable {
            AttemptOutcome::RetryableStatus
        } else {
            AttemptOutcome::Final { success: status < 400 }
        }),
{
    if retryable {
        AttemptOutcome::RetryableStatus
    } else {
        AttemptOutcome::Final { success: status < 400 }
    }
}

/// Whether a response goes back through the provider's adapter: only a
/// successful one with a body, and only where there is an adapter.
pub fn converts_response(has_adapter: bool, success: bool, has_body: bool) -> (r: bool)
    ensures
        r == (has_adapter && success && has_body),
{
    has_adapter && success && has_body
}

/// What the caller of the request loop reports.
#[derive(Debug, Clone, Copy, PartialEq, Eq, Structural)]
pub enum RetryEvent {
    /// The request starts; whether the circuit breaker is open.
    Start { circuit_open: bool },
    /// Before an attempt: whether the request was cancelled.
    Ready { cancelled: bool },
    /// What the attempt came to.
    Attempted(AttemptOutcome),
    /// The wait before a retry is over; whether it was cancelled.
    Waited { cancelled: bool },
}

/// What the request loop does next.
#[derive(Debug, Clone, Copy, PartialEq, Eq, Structural)]
pub enum RetryAction {
    /// Refuse the request: the circuit breaker is open.
    RejectOpenCircuit,
    /// Check for cancellation and answer `Ready`.
    CheckCancel,
    /// Make the attempt and answer `Attempted`.
    Attempt,
    /// Wait the retry delay and answer `Waited`.
    Wait,
    /// Stop with an interrupted result: cancelled before an attempt.
    InterruptedBeforeAttempt,
    /// Stop with an interruption error: cancelled while waiting.
    InterruptedWhileWaiting,
    /// Stop; `success` is what the circuit breaker records.
    Finish { success: bool },
}

/// The state of a request's retry loop: the attempt under way (counting
/// from zero) and how many retries are allowed.
#[derive(Debug, Clone, Copy, PartialEq, Eq, Structural)]
pub struct RetryLoop {
    pub attempt: u32,
    pub max_retries: u32,
}

/// The loop's next state and action on `ev`: an open circuit refuses the
/// request; a cancellation before an attempt or during a wait interrupts
/// it; an attempt's outcome is retried while attempts remain
/// (`step_after`); a wait that was not cancelled leads to the next
/// attempt's cancellation check. (A wait reported with no retry left ends
/// the request as failed.)
pub open spec fn retry_transition(s: RetryLoop, ev: RetryEvent) -> (RetryLoop, RetryAction) {
    match ev {
        RetryEvent::Start { circuit_open } => if circuit_open {
            (s, RetryAction::RejectOpenCircuit)
        } else {
            (RetryLoop { attempt: 0, ..s }, RetryAction::CheckCancel)
        },
        RetryEvent::Ready { cancelled } => if cancelled {
            (s, RetryAction::InterruptedBeforeAttempt)
        } else {
            (s, RetryAction::Attempt)
        },
        RetryEvent::Attempted(o) => match step_after(s.attempt, s.max_retries, o) {
            RetryStep::Retry => (s, RetryAction::Wait),
            RetryStep::Finish { success } => (s, RetryAction::Finish { success }),
        },
        RetryEvent::Waited { cancelled } => if cancelled {
            (s, RetryAction::InterruptedWhileWaiting)
        } else if s.attempt < s.max_retries {
            (RetryLoop { attempt: (s.attempt + 1) as u32, ..s }, RetryAction::CheckCancel)
        } else {
            (s, RetryAction::Finish { success: false })
        },
    }
}

impl RetryLoop {
    /// A loop allowing `max_retries` retries, before its first attempt.
    pub fn new(max_retries: u32) -> (r: Self)
        ensures
            r == (RetryLoop { attempt: 0, max_retries }),
    {
        RetryLoop { attempt: 0, max_retries }
    }

    /// Takes one event and gives the next action.
    pub fn step(&mut self, ev: RetryEvent) -> (r: RetryAction)
        ensures
            (*final(self), r) == retry_transition(*old(self), ev),
    {
        match ev {
            RetryEvent::Start { circuit_open } => {
                if circuit_open {
                    RetryAction::RejectOpenCircuit
                } else {
                    self.attempt = 0;
                    RetryAction::CheckCancel
                }
            },
            RetryEvent::Ready { cancelled } => {
                if cancelled {
                    RetryAction::InterruptedBeforeAttempt
                } else {
                    RetryAction::Attempt
                }
            },
            RetryEvent::Attempted(o) => match next_step(self.attempt, self.max_retries, o) {
                RetryStep::Retry => RetryAction::Wait,
                RetryStep::Finish { success } => RetryAction::Finish { success },
            },
            RetryEvent::Waited { cancelled } => {
                if cancelled {
                    RetryAction::InterruptedWhileWaiting
                } else if self.attempt < self.max_retries {
                    self.attempt = self.attempt + 1;
                    RetryAction::CheckCancel
                } else {
                    RetryAction::Finish { success: false }
                }
            },
        }
    }
}

/// The loop honours cancellation and bounds its attempts: a cancellation
/// reported before an attempt or during a wait stops the request, an open
/// circuit makes no attempt, and the attempt count never passes the number
/// of retries allowed.
pub proof fn law_retry_loop(s: RetryLoop, ev: RetryEvent)
    requires
        s.attempt <= s.max_retries,
    ensures
        retry_transition(s, ev).0.attempt <= s.max_retries,
        retry_transition(s, ev).0.max_retries == s.max_retries,
        ev == (RetryEvent::Ready { cancelled: true }) ==> retry_transition(s, ev).1
            == RetryAction::InterruptedBeforeAttempt,
        ev == (RetryEvent::Waited { cancelled: true }) ==> retry_transition(s, ev).1
            == RetryAction::InterruptedWhileWaiting,
        ev == (RetryEvent::Start { circuit_open: true }) ==> retry_transition(s, ev).1
            == RetryAction::RejectOpenCircuit,
{
}

} // verus!
