//! Structured errors, and the classification of provider error messages
//! into them (context overflow, rate limiting, authentication, gateway
//! pages, and the rest) across the supported providers.
use vstd::prelude::*;

use crate::models::ErrorCategory;
use crate::text::{byte_len, chars_of, owned, push_str};

verus! {

// ---------------------------------------------------------------------------
// Regular expressions (the regex crate)
// ---------------------------------------------------------------------------

/// Whether `text` matches the regular expression `pattern`, as the regex
/// crate decides it; a pattern that does not compile matches nothing.
pub uninterp spec fn regex_matches(pattern: Seq<char>, text: Seq<char>) -> bool;

/// The text of capture group 1 in the first match of `pattern` in `text`,
/// as the regex crate finds it.
pub uninterp spec fn regex_group1(pattern: Seq<char>, text: Seq<char>) -> Option<Seq<char>>;

/// Calls `Regex::new` and `Regex::is_match`; the result is named by
/// `regex_matches`, and the regular-expression semantics are not stated
/// here.
#[verifier::external_body]
fn pattern_matches(pattern: &str, text: &str) -> (r: bool)
    ensures
        r == regex_matches(pattern@, text@),
{
    match regex::Regex::new(pattern) {
        Ok(re) => re.is_match(text),
        Err(_) => false,
    }
}

/// Calls `Regex::new`, `Regex::captures` and `Captures::get(1)`; the result
/// is named by `regex_group1`, and the semantics are not stated here.
#[verifier::external_body]
fn first_group(pattern: &str, text: &str) -> (r: Option<String>)
    ensures
        crate::message::opt_view(r) == regex_group1(pattern@, text@),
{
    match regex::Regex::new(pattern) {
        Ok(re) => re.captures(text).and_then(|c| c.get(1)).map(|m| m.as_str().to_string()),
        Err(_) => None,
    }
}

// ---------------------------------------------------------------------------
// The pattern library
// ---------------------------------------------------------------------------

/// Messages of context overflow (Anthropic, OpenAI, Google, Azure, generic).
pub open spec fn overflow_patterns() -> Seq<Seq<char>> {
    seq![
        "prompt is too long"@,
        "max_tokens_exceeded"@,
        "context length.*exceeded"@,
        "maximum context length"@,
        "maximum context length.*is \\d+ tokens"@,
        "This model's maximum context length is"@,
        "reduce the length of the messages"@,
        "context_length_exceeded"@,
        "exceeds the maximum.*tokens"@,
        "RESOURCE_EXHAUSTED.*token"@,
        "GenerateContentRequest.*too large"@,
        "Tokens in prompt.*exceed.*limit"@,
        "token limit"@,
        "too many tokens"@,
        "context.*too long"@,
        "input.*too long"@,
        "prompt.*too large"@,
    ]
}

fn overflow_pattern_list() -> (r: Vec<&'static str>)
    ensures
        r@.len() == overflow_patterns().len(),
        forall|i: int| 0 <= i < r@.len() ==> #[trigger] r@[i]@ == overflow_patterns()[i],
{
    vec![
        "prompt is too long",
        "max_tokens_exceeded",
        "context length.*exceeded",
        "maximum context length",
        "maximum context length.*is \\d+ tokens",
        "This model's maximum context length is",
        "reduce the length of the messages",
        "context_length_exceeded",
        "exceeds the maximum.*tokens",
        "RESOURCE_EXHAUSTED.*token",
        "GenerateContentRequest.*too large",
        "Tokens in prompt.*exceed.*limit",
        "token limit",
        "too many tokens",
        "context.*too long",
        "input.*too long",
        "prompt.*too large",
    ]
}

/// Messages of rate limiting.
pub open spec fn rate_limit_patterns() -> Seq<Seq<char>> {
    seq![
        "rate.?limit"@,
        "too many requests"@,
        "429"@,
        "quota exceeded"@,
        "capacity"@,
        "overloaded"@,
    ]
}

fn rate_limit_pattern_list() -> (r: Vec<&'static str>)
    ensures
        r@.len() == rate_limit_patterns().len(),
        forall|i: int| 0 <= i < r@.len() ==> #[trigger] r@[i]@ == rate_limit_patterns()[i],
{
    vec!["rate.?limit", "too many requests", "429", "quota exceeded", "capacity", "overloaded"]
}

/// Messages of authentication failures.
pub open spec fn auth_patterns() -> Seq<Seq<char>> {
    seq![
        "invalid.*api.?key"@,
        "authentication"@,
        "unauthorized"@,
        "invalid.*token"@,
        "api key.*invalid"@,
    ]
}

fn auth_pattern_list() -> (r: Vec<&'static str>)
    ensures
        r@.len() == auth_patterns().len(),
        forall|i: int| 0 <= i < r@.len() ==> #[trigger] r@[i]@ == auth_patterns()[i],
{
    vec![
        "invalid.*api.?key",
        "authentication",
        "unauthorized",
        "invalid.*token",
        "api key.*invalid",
    ]
}

/// HTML pages of gateways and proxies.
pub open spec fn gateway_patterns() -> Seq<Seq<char>> {
    seq![
        "<!doctype html"@,
        "<html"@,
        "502 Bad Gateway"@,
        "503 Service Unavailable"@,
        "504 Gateway Timeout"@,
        "CloudFlare"@,
        "nginx"@,
    ]
}

fn gateway_pattern_list() -> (r: Vec<&'static str>)
    ensures
        r@.len() == gateway_patterns().len(),
        forall|i: int| 0 <= i < r@.len() ==> #[trigger] r@[i]@ == gateway_patterns()[i],
{
    vec![
        "<!doctype html",
        "<html",
        "502 Bad Gateway",
        "503 Service Unavailable",
        "504 Gateway Timeout",
        "CloudFlare",
        "nginx",
    ]
}

/// Whether `text` matches one of `patterns`, each case-insensitively.
pub open spec fn matches_any(patterns: Seq<Seq<char>>, text: Seq<char>) -> bool {
    exists|i: int| 0 <= i < patterns.len() && regex_matches("(?i)"@ + patterns[i], text)
}

/// The pattern that captures a `Retry-After` value.
pub open spec fn retry_after_pattern() -> Seq<char> {
    "(?i)retry.?after[:\\s]+(\\d+\\.?\\d*)"@
}

fn matches_any_of(patterns: &Vec<&'static str>, text: &str) -> (r: bool)
    ensures
        r == matches_any(patterns@.map_values(|p: &'static str| p@), text@),
{
    let ghost ps = patterns@.map_values(|p: &'static str| p@);
    let mut k: usize = 0;
    while k < patterns.len()
        invariant
            k <= patterns@.len(),
            ps == patterns@.map_values(|p: &'static str| p@),
            forall|m: int| 0 <= m < k ==> !regex_matches("(?i)"@ + ps[m], text@),
        decreases patterns@.len() - k,
    {
        let mut full = owned("(?i)");
        push_str(&mut full, patterns[k]);
        if pattern_matches(full.as_str(), text) {
            proof {
                assert(regex_matches("(?i)"@ + ps[k as int], text@));
            }
            return true;
        }
        k = k + 1;
    }
    false
}

/// What the pattern library finds in a message.
#[derive(Debug, Clone)]
pub struct PatternMatches {
    pub gateway: bool,
    pub overflow: bool,
    pub rate_limit: bool,
    pub auth: bool,
    /// The `Retry-After` value that the message states, as text.
    pub retry_after: Option<String>,
}

/// Runs the pattern library over a message.
pub fn match_patterns(error_message: &str) -> (r: PatternMatches)
    ensures
        r.gateway == matches_any(gateway_patterns(), error_message@),
        r.overflow == matches_any(overflow_patterns(), error_message@),
        r.rate_limit == matches_any(rate_limit_patterns(), error_message@),
        r.auth == matches_any(auth_patterns(), error_message@),
        crate::message::opt_view(r.retry_after) == regex_group1(
            retry_after_pattern(),
            error_message@,
        ),
{
    let g = gateway_pattern_list();
    let o = overflow_pattern_list();
    let rl = rate_limit_pattern_list();
    let a = auth_pattern_list();
    assert(g@.map_values(|p: &'static str| p@) =~= gateway_patterns());
    assert(o@.map_values(|p: &'static str| p@) =~= overflow_patterns());
    assert(rl@.map_values(|p: &'static str| p@) =~= rate_limit_patterns());
    assert(a@.map_values(|p: &'static str| p@) =~= auth_patterns());
    PatternMatches {
        gateway: matches_any_of(&g, error_message),
        overflow: matches_any_of(&o, error_message),
        rate_limit: matches_any_of(&rl, error_message),
        auth: matches_any_of(&a, error_message),
        retry_after: first_group("(?i)retry.?after[:\\s]+(\\d+\\.?\\d*)", error_message),
    }
}

// ---------------------------------------------------------------------------
// Structured errors
// ---------------------------------------------------------------------------

/// An error with the fields that retry and recovery decide on.
#[derive(Debug, Clone)]
pub struct StructuredError {
    pub category: ErrorCategory,
    pub message: String,
    pub is_retryable: bool,
    pub status_code: Option<u16>,
    pub provider: Option<String>,
    pub original_error: Option<String>,
    /// For context overflow: how many tokens were in the prompt.
    pub token_count: Option<u64>,
    /// For context overflow: what the model limit is.
    pub token_limit: Option<u64>,
    /// For rate limiting: the seconds to wait before retrying, as the
    /// message states them (digits with an optional fraction).
    pub retry_after: Option<String>,
}

/// Mathematical model of a [`StructuredError`].
pub struct StructuredErrorView {
    pub category: ErrorCategory,
    pub message: Seq<char>,
    pub is_retryable: bool,
    pub status_code: Option<u16>,
    pub provider: Option<Seq<char>>,
    pub original_error: Option<Seq<char>>,
    pub token_count: Option<u64>,
    pub token_limit: Option<u64>,
    pub retry_after: Option<Seq<char>>,
}

impl View for StructuredError {
    type V = StructuredErrorView;

    open spec fn view(&self) -> StructuredErrorView {
        StructuredErrorView {
            category: self.category,
            message: self.message@,
            is_retryable: self.is_retryable,
            status_code: self.status_code,
            provider: crate::message::opt_view(self.provider),
            original_error: crate::message::opt_view(self.original_error),
            token_count: self.token_count,
            token_limit: self.token_limit,
            retry_after: crate::message::opt_view(self.retry_after),
        }
    }
}

/// Whether a status code is a server error worth retrying.
pub open spec fn retryable_status(code: Option<u16>) -> bool {
    code == Some(500u16) || code == Some(502u16) || code == Some(503u16) || code == Some(504u16)
}

/// The name of a category as `Debug` prints it.
pub open spec fn category_name(c: ErrorCategory) -> Seq<char> {
    match c {
        ErrorCategory::ContextOverflow => "ContextOverflow"@,
        ErrorCategory::OutputLength => "OutputLength"@,
        ErrorCategory::RateLimit => "RateLimit"@,
        ErrorCategory::Auth => "Auth"@,
        ErrorCategory::Api => "Api"@,
        ErrorCategory::Gateway => "Gateway"@,
        ErrorCategory::Permission => "Permission"@,
        ErrorCategory::EditMismatch => "EditMismatch"@,
        ErrorCategory::FileNotFound => "FileNotFound"@,
        ErrorCategory::Timeout => "Timeout"@,
        ErrorCategory::Unknown => "Unknown"@,
    }
}

fn category_str(c: ErrorCategory) -> (r: &'static str)
    ensures
        r@ == category_name(c),
{
    match c {
        ErrorCategory::ContextOverflow => "ContextOverflow",
        ErrorCategory::OutputLength => "OutputLength",
        ErrorCategory::RateLimit => "RateLimit",
        ErrorCategory::Auth => "Auth",
        ErrorCategory::Api => "Api",
        ErrorCategory::Gateway => "Gateway",
        ErrorCategory::Permission => "Permission",
        ErrorCategory::EditMismatch => "EditMismatch",
        ErrorCategory::FileNotFound => "FileNotFound",
        ErrorCategory::Timeout => "Timeout",
        ErrorCategory::Unknown => "Unknown",
    }
}

fn copy_opt(o: &Option<String>) -> (r: Option<String>)
    ensures
        crate::message::opt_view(r) == crate::message::opt_view(*o),
{
    match o {
        Some(s) => Some(s.clone()),
        None => None,
    }
}

impl StructuredError {
    /// Whether this error should trigger context compaction.
    pub fn should_compact(&self) -> (r: bool)
        ensures
            r == (self.category == ErrorCategory::ContextOverflow),
    {
        self.category == ErrorCategory::ContextOverflow
    }

    /// Whether the operation should be retried.
    pub fn should_retry(&self) -> (r: bool)
        ensures
            r == self.is_retryable,
    {
        self.is_retryable
    }

    /// A generic API error: unknown without a status code, retryable for a
    /// server error.
    pub fn api(message: String, status_code: Option<u16>) -> (r: Self)
        ensures
            r@ == (StructuredErrorView {
                category: if status_code is Some {
                    ErrorCategory::Api
                } else {
                    ErrorCategory::Unknown
                },
                message: message@,
                is_retryable: retryable_status(status_code),
                status_code: status_code,
                provider: None,
                original_error: None,
                token_count: None,
                token_limit: None,
                retry_after: None,
            }),
    {
        let retryable = match status_code {
            Some(c) => c == 500 || c == 502 || c == 503 || c == 504,
            None => false,
        };
        StructuredError {
            category: if status_code.is_some() {
                ErrorCategory::Api
            } else {
                ErrorCategory::Unknown
            },
            message,
            is_retryable: retryable,
            status_code,
            provider: None,
            original_error: None,
            token_count: None,
            token_limit: None,
            retry_after: None,
        }
    }

    /// A context overflow error (retryable after compaction).
    pub fn context_overflow(
        message: String,
        provider: Option<String>,
        token_count: Option<u64>,
        token_limit: Option<u64>,
    ) -> (r: Self)
        ensures
            r@ == (StructuredErrorView {
                category: ErrorCategory::ContextOverflow,
                message: message@,
                is_retryable: true,
                status_code: None,
                provider: crate::message::opt_view(provider),
                original_error: Some(message@),
                token_count: token_count,
                token_limit: token_limit,
                retry_after: None,
            }),
    {
        let original = message.clone();
        StructuredError {
            category: ErrorCategory::ContextOverflow,
            message,
            is_retryable: true,
            status_code: None,
            provider,
            original_error: Some(original),
            token_count,
            token_limit,
            retry_after: None,
        }
    }

    /// An output length error (retryable).
    pub fn output_length(message: String) -> (r: Self)
        ensures
            r@ == (StructuredErrorView {
                category: ErrorCategory::OutputLength,
                message: message@,
                is_retryable: true,
                status_code: None,
                provider: None,
                original_error: None,
                token_count: None,
                token_limit: None,
                retry_after: None,
            }),
    {
        StructuredError {
            category: ErrorCategory::OutputLength,
            message,
            is_retryable: true,
            status_code: None,
            provider: None,
            original_error: None,
            token_count: None,
            token_limit: None,
            retry_after: None,
        }
    }

    /// A rate limit error (retryable).
    pub fn rate_limit(message: String, provider: Option<String>, retry_after: Option<String>) -> (r: Self)
        ensures
            r@ == (StructuredErrorView {
                category: ErrorCategory::RateLimit,
                message: message@,
                is_retryable: true,
                status_code: None,
                provider: crate::message::opt_view(provider),
                original_error: Some(message@),
                token_count: None,
                token_limit: None,
                retry_after: crate::message::opt_view(retry_after),
            }),
    {
        let original = message.clone();
        StructuredError {
            category: ErrorCategory::RateLimit,
            message,
            is_retryable: true,
            status_code: None,
            provider,
            original_error: Some(original),
            token_count: None,
            token_limit: None,
            retry_after,
        }
    }

    /// An authentication error (not retryable).
    pub fn auth(message: String, status_code: Option<u16>, provider: Option<String>) -> (r: Self)
        ensures
            r@ == (StructuredErrorView {
                category: ErrorCategory::Auth,
                message: message@,
                is_retryable: false,
                status_code: status_code,
                provider: crate::message::opt_view(provider),
                original_error: Some(message@),
                token_count: None,
                token_limit: None,
                retry_after: None,
            }),
    {
        let original = message.clone();
        StructuredError {
            category: ErrorCategory::Auth,
            message,
            is_retryable: false,
            status_code,
            provider,
            original_error: Some(original),
            token_count: None,
            token_limit: None,
            retry_after: None,
        }
    }

    /// A gateway error (retryable).
    pub fn gateway(
        message: String,
        status_code: Option<u16>,
        provider: Option<String>,
        original_error: Option<String>,
    ) -> (r: Self)
        ensures
            r@ == (StructuredErrorView {
                category: ErrorCategory::Gateway,
                message: message@,
                is_retryable: true,
                status_code: status_code,
                provider: crate::message::opt_view(provider),
                original_error: crate::message::opt_view(original_error),
                token_count: None,
                token_limit: None,
                retry_after: None,
            }),
    {
        StructuredError {
            category: ErrorCategory::Gateway,
            message,
            is_retryable: true,
            status_code,
            provider,
            original_error,
            token_count: None,
            token_limit: None,
            retry_after: None,
        }
    }

    /// The error as it is displayed: `[Category] message`.
    pub fn to_string(&self) -> (r: String)
        ensures
            r@ == "["@ + category_name(self.category) + "] "@ + self.message@,
    {
        let mut r = owned("[");
        push_str(&mut r, category_str(self.category));
        push_str(&mut r, "] ");
        push_str(&mut r, self.message.as_str());
        r
    }
}

/// The friendly message for a gateway's HTML page.
pub open spec fn gateway_message(status_code: Option<u16>) -> Seq<char> {
    if status_code == Some(401u16) {
        "Authentication failed at gateway. Check your API key and proxy settings."@
    } else if status_code == Some(403u16) {
        "Access denied at gateway. Check your permissions and proxy settings."@
    } else {
        "API returned an HTML error page. Check your proxy/VPN settings or try again."@
    }
}

/// The model of what the pattern library found.
pub struct PatternMatchesView {
    pub gateway: bool,
    pub overflow: bool,
    pub rate_limit: bool,
    pub auth: bool,
    pub retry_after: Option<Seq<char>>,
}

/// What the pattern library finds in `msg`.
pub open spec fn found_patterns(msg: Seq<char>) -> PatternMatchesView {
    PatternMatchesView {
        gateway: matches_any(gateway_patterns(), msg),
        overflow: matches_any(overflow_patterns(), msg),
        rate_limit: matches_any(rate_limit_patterns(), msg),
        auth: matches_any(auth_patterns(), msg),
        retry_after: regex_group1(retry_after_pattern(), msg),
    }
}

/// The original message kept on a gateway error: its first 500 bytes.
pub open spec fn gateway_excerpt(msg: Seq<char>) -> Seq<char> {
    if byte_len(msg) > 500 {
        msg.take(crate::text::chars_for_bytes(msg, 500, 0))
    } else {
        msg
    }
}

/// Whether keeping the first 500 bytes of a gateway page would cut a
/// character (where classification fails).
pub open spec fn excerpt_cuts(msg: Seq<char>) -> bool {
    byte_len(msg) > 500 && !crate::text::is_boundary(msg, 500)
}

/// The classification of a message, given what the patterns found: a
/// gateway page first, then context overflow, rate limiting,
/// authentication (by status code, then by pattern), else a generic error.
pub open spec fn classified(
    msg: Seq<char>,
    status_code: Option<u16>,
    provider: Option<Seq<char>>,
    m: PatternMatchesView,
) -> StructuredErrorView {
    if m.gateway {
        StructuredErrorView {
            category: ErrorCategory::Gateway,
            message: gateway_message(status_code),
            is_retryable: true,
            status_code: status_code,
            provider: provider,
            original_error: Some(gateway_excerpt(msg)),
            token_count: None,
            token_limit: None,
            retry_after: None,
        }
    } else if m.overflow {
        StructuredErrorView {
            category: ErrorCategory::ContextOverflow,
            message: msg,
            is_retryable: true,
            status_code: None,
            provider: provider,
            original_error: Some(msg),
            token_count: None,
            token_limit: None,
            retry_after: None,
        }
    } else if m.rate_limit {
        StructuredErrorView {
            category: ErrorCategory::RateLimit,
            message: msg,
            is_retryable: true,
            status_code: None,
            provider: provider,
            original_error: Some(msg),
            token_count: None,
            token_limit: None,
            retry_after: m.retry_after,
        }
    } else if status_code == Some(401u16) || status_code == Some(403u16) || m.auth {
        StructuredErrorView {
            category: ErrorCategory::Auth,
            message: msg,
            is_retryable: false,
            status_code: status_code,
            provider: provider,
            original_error: Some(msg),
            token_count: None,
            token_limit: None,
            retry_after: None,
        }
    } else {
        StructuredErrorView {
            category: if status_code is Some {
                ErrorCategory::Api
            } else {
                ErrorCategory::Unknown
            },
            message: msg,
            is_retryable: retryable_status(status_code),
            status_code: status_code,
            provider: provider,
            original_error: Some(msg),
            token_count: None,
            token_limit: None,
            retry_after: None,
        }
    }
}

/// The model of what the pattern library found.
pub open spec fn matches_view(m: PatternMatches) -> PatternMatchesView {
    PatternMatchesView {
        gateway: m.gateway,
        overflow: m.overflow,
        rate_limit: m.rate_limit,
        auth: m.auth,
        retry_after: crate::message::opt_view(m.retry_after),
    }
}

/// The model of an optional text.
pub open spec fn opt_str(o: Option<&str>) -> Option<Seq<char>> {
    match o {
        Some(s) => Some(s@),
        None => None,
    }
}

/// Classifies an error message, given what the pattern library found in it.
pub fn classify_with_matches(
    error_message: &str,
    status_code: Option<u16>,
    provider: Option<&str>,
    m: &PatternMatches,
) -> (r: StructuredError)
    requires
        m.gateway ==> !excerpt_cuts(error_message@),
    ensures
        r@ == classified(error_message@, status_code, opt_str(provider), matches_view(*m)),
{
    let provider_owned = match provider {
        Some(p) => Some(owned(p)),
        None => None,
    };
    if m.gateway {
        let friendly = match status_code {
            Some(401) => owned("Authentication failed at gateway. Check your API key and proxy settings."),
            Some(403) => owned("Access denied at gateway. Check your permissions and proxy settings."),
            _ => owned("API returned an HTML error page. Check your proxy/VPN settings or try again."),
        };
        let n = crate::text::str_byte_len(error_message);
        let excerpt = if n > 500 {
            match crate::text::byte_prefix(error_message, 500) {
                Some(p) => p,
                None => owned(error_message),
            }
        } else {
            owned(error_message)
        };
        return StructuredError::gateway(friendly, status_code, provider_owned, Some(excerpt));
    }
    if m.overflow {
        return StructuredError::context_overflow(owned(error_message), provider_owned, None, None);
    }
    if m.rate_limit {
        return StructuredError::rate_limit(owned(error_message), provider_owned, copy_opt(&m.retry_after));
    }
    let auth_status = match status_code {
        Some(c) => c == 401 || c == 403,
        None => false,
    };
    if auth_status || m.auth {
        return StructuredError::auth(owned(error_message), status_code, provider_owned);
    }
    let retryable = match status_code {
        Some(c) => c == 500 || c == 502 || c == 503 || c == 504,
        None => false,
    };
    StructuredError {
        category: if status_code.is_some() {
            ErrorCategory::Api
        } else {
            ErrorCategory::Unknown
        },
        message: owned(error_message),
        is_retryable: retryable,
        status_code,
        provider: provider_owned,
        original_error: Some(owned(error_message)),
        token_count: None,
        token_limit: None,
        retry_after: None,
    }
}

/// Classifies an API error message into a structured error, checking it
/// against the known patterns for gateway pages, context overflow, rate
/// limiting and authentication failures. `None` where the message is a
/// gateway page whose first 500 bytes end inside a character.
pub fn classify_api_error(error_message: &str, status_code: Option<u16>, provider: Option<&str>) -> (r: Option<StructuredError>)
    ensures
        r is None <==> (found_patterns(error_message@).gateway && excerpt_cuts(error_message@)),
        r matches Some(e) ==> e@ == classified(
            error_message@,
            status_code,
            opt_str(provider),
            found_patterns(error_message@),
        ),
{
    let m = match_patterns(error_message);
    if m.gateway {
        let n = crate::text::str_byte_len(error_message);
        if n > 500 && crate::text::byte_prefix(error_message, 500).is_none() {
            return None;
        }
    }
    Some(classify_with_matches(error_message, status_code, provider, &m))
}

} // verus!
