//! Token accounting for a session's LLM calls: the usage that a response
//! reports, the session's running totals, and their record in the session's
//! metadata. Prices and costs are floating point and stay with the caller;
//! which input tokens are billed at the higher tier is decided here.
use vstd::prelude::*;

use crate::json::{as_u64, field_views, get, lemma_u64_text, Json, JsonValue};
use crate::models::TokenUsage;
use crate::text::owned;

verus! {

/// Prompts above this many tokens are billed at a higher rate for the
/// tokens over it.
pub const OVER_200K_THRESHOLD: u64 = 200_000;

/// The count under `key` in `j`: the unsigned integer there, else 0.
pub open spec fn count_field(j: Json, key: Seq<char>) -> u64 {
    match get(j, key) {
        Some(v) => match as_u64(v) {
            Some(n) => n,
            None => 0,
        },
        None => 0,
    }
}

/// The count under `key` in `value`: the unsigned integer there, else 0.
fn count_of(value: &JsonValue, key: &str) -> (r: u64)
    ensures
        r == count_field(value@, key@),
{
    match value.get(key) {
        Some(v) => match v.as_u64() {
            Some(n) => n,
            None => 0,
        },
        None => 0,
    }
}

impl TokenUsage {
    /// The usage that the `usage` object of an API response reports; a
    /// count that is missing or not an unsigned integer is 0.
    pub fn from_json(value: &JsonValue) -> (r: TokenUsage)
        ensures
            r.prompt_tokens == count_field(value@, "prompt_tokens"@),
            r.completion_tokens == count_field(value@, "completion_tokens"@),
            r.cache_read_input_tokens == count_field(value@, "cache_read_input_tokens"@),
            r.cache_creation_input_tokens == count_field(value@, "cache_creation_input_tokens"@),
    {
        TokenUsage {
            prompt_tokens: count_of(value, "prompt_tokens"),
            completion_tokens: count_of(value, "completion_tokens"),
            cache_read_input_tokens: count_of(value, "cache_read_input_tokens"),
            cache_creation_input_tokens: count_of(value, "cache_creation_input_tokens"),
        }
    }
}

/// How many of a prompt's input tokens are billed at the base rate and how
/// many, those over the threshold, at the higher one.
pub fn input_tiers(prompt_tokens: u64) -> (r: (u64, u64))
    ensures
        r.0 == (if prompt_tokens > OVER_200K_THRESHOLD {
            OVER_200K_THRESHOLD
        } else {
            prompt_tokens
        }),
        r.0 + r.1 == prompt_tokens,
{
    if prompt_tokens > OVER_200K_THRESHOLD {
        (OVER_200K_THRESHOLD, prompt_tokens - OVER_200K_THRESHOLD)
    } else {
        (prompt_tokens, 0)
    }
}

/// A session's running token totals.
#[derive(Debug, Clone, Copy, PartialEq, Eq, Structural)]
pub struct UsageTotals {
    pub total_input_tokens: u64,
    pub total_output_tokens: u64,
    pub call_count: u64,
}

/// The metadata fields that record `t`.
pub open spec fn totals_fields(t: UsageTotals) -> Seq<(Seq<char>, Json)> {
    seq![
        ("total_input_tokens"@, Json::Number(crate::text::decimal(t.total_input_tokens as nat))),
        ("total_output_tokens"@, Json::Number(crate::text::decimal(t.total_output_tokens as nat))),
        ("api_call_count"@, Json::Number(crate::text::decimal(t.call_count as nat))),
    ]
}

/// The totals after restoring `t` from session metadata `m`: unchanged
/// without a `cost_tracking` entry, else each count read from it (0 where
/// missing).
pub open spec fn restored(t: UsageTotals, m: Json) -> UsageTotals {
    match get(m, "cost_tracking"@) {
        None => t,
        Some(c) => UsageTotals {
            total_input_tokens: count_field(c, "total_input_tokens"@),
            total_output_tokens: count_field(c, "total_output_tokens"@),
            call_count: count_field(c, "api_call_count"@),
        },
    }
}

impl UsageTotals {
    /// Totals of no calls.
    pub fn new() -> (r: Self)
        ensures
            r == (UsageTotals { total_input_tokens: 0, total_output_tokens: 0, call_count: 0 }),
    {
        UsageTotals { total_input_tokens: 0, total_output_tokens: 0, call_count: 0 }
    }

    /// Adds one call's usage.
    pub fn record(&mut self, usage: &TokenUsage)
        requires
            old(self).total_input_tokens + usage.prompt_tokens <= u64::MAX,
            old(self).total_output_tokens + usage.completion_tokens <= u64::MAX,
            old(self).call_count < u64::MAX,
        ensures
            final(self).total_input_tokens == old(self).total_input_tokens + usage.prompt_tokens,
            final(self).total_output_tokens == old(self).total_output_tokens + usage.completion_tokens,
            final(self).call_count == old(self).call_count + 1,
    {
        self.total_input_tokens = self.total_input_tokens + usage.prompt_tokens;
        self.total_output_tokens = self.total_output_tokens + usage.completion_tokens;
        self.call_count = self.call_count + 1;
    }

    /// The metadata fields that record the totals (the cost is added by the
    /// caller).
    pub fn to_metadata(&self) -> (r: Vec<(String, JsonValue)>)
        ensures
            field_views(r@) == totals_fields(*self),
    {
        let r = vec![
            (owned("total_input_tokens"), JsonValue::from_u64(self.total_input_tokens)),
            (owned("total_output_tokens"), JsonValue::from_u64(self.total_output_tokens)),
            (owned("api_call_count"), JsonValue::from_u64(self.call_count)),
        ];
        assert(field_views(r@) =~= totals_fields(*self));
        r
    }

    /// Restores the totals from session metadata (for a continued session).
    pub fn restore_from_metadata(&mut self, metadata: &JsonValue)
        ensures
            *final(self) == restored(*old(self), metadata@),
    {
        match metadata.get("cost_tracking") {
            None => {},
            Some(c) => {
                self.total_input_tokens = count_of(c, "total_input_tokens");
                self.total_output_tokens = count_of(c, "total_output_tokens");
                self.call_count = count_of(c, "api_call_count");
            },
        }
    }
}

/// Totals written to metadata and restored from it come back unchanged,
/// whatever the totals restored into were.
pub proof fn law_metadata_round_trip(t: UsageTotals, before: UsageTotals)
    ensures
        restored(before, Json::Object(seq![("cost_tracking"@, Json::Object(totals_fields(t)))])) == t,
{
    let fs = totals_fields(t);
    let m = seq![("cost_tracking"@, Json::Object(fs))];
    reveal_strlit("total_input_tokens");
    reveal_strlit("total_output_tokens");
    reveal_strlit("api_call_count");
    assert("total_input_tokens"@[6] != "total_output_tokens"@[6]);
    assert("total_input_tokens"@[0] != "api_call_count"@[0]);
    assert("total_output_tokens"@[0] != "api_call_count"@[0]);
    crate::json::lemma_field_at(m, "cost_tracking"@, 0);
    crate::json::lemma_field_at(fs, "total_input_tokens"@, 0);
    crate::json::lemma_field_at(fs, "total_output_tokens"@, 1);
    crate::json::lemma_field_at(fs, "api_call_count"@, 2);
    lemma_u64_text(t.total_input_tokens);
    lemma_u64_text(t.total_output_tokens);
    lemma_u64_text(t.call_count);
}

/// Without a `cost_tracking` entry, restoring changes nothing.
pub proof fn law_restore_without_entry(t: UsageTotals, m: Json)
    requires
        get(m, "cost_tracking"@) is None,
    ensures
        restored(t, m) == t,
{
}

} // verus!
