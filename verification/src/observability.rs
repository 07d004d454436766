//! Telemetry: events taken from the bus are stamped with a header, stripped
//! of the keys that governance redacts, and handed to the exporters. The
//! exporters, and the loop that waits for events, are the caller's part.
use vstd::prelude::*;

use crate::debug_logger::now_rfc3339;
use crate::json::{
    field, field_views, get, json_text, lemma_set_field_found, lemma_without_field_gone,
    lemma_without_field_other, put, remove_key, to_json_text, Json, JsonValue,
};
use crate::models::ObservabilityConfig;
use crate::text::{owned, push_str};

verus! {

/// The header stamped on every exported event.
pub open spec fn telemetry_header(timestamp: Seq<char>) -> Json {
    Json::Object(
        seq![
            ("cli_name"@, Json::Str("kendra-cli"@)),
            ("cli_version"@, Json::Str("0.1.0"@)),
            ("timestamp"@, Json::Str(timestamp)),
        ],
    )
}

/// `j` without the keys `keys`, removed one after another.
pub open spec fn redacted(j: Json, keys: Seq<Seq<char>>) -> Json
    decreases keys.len(),
{
    if keys.len() == 0 {
        j
    } else {
        remove_key(redacted(j, keys.drop_last()), keys.last())
    }
}

/// The texts of a list of strings.
pub open spec fn texts(v: Seq<String>) -> Seq<Seq<char>> {
    v.map_values(|s: String| s@)
}

/// What is exported for `event` stamped at `timestamp`: the event with its
/// header, then without the redacted keys. A value that is not an object
/// gets no header.
pub open spec fn enriched(redact_keys: Seq<Seq<char>>, event: Json, timestamp: Seq<char>) -> Json {
    redacted(put(event, "header"@, telemetry_header(timestamp)), redact_keys)
}

/// The header object for `timestamp`.
fn header(timestamp: &str) -> (r: JsonValue)
    ensures
        r@ == telemetry_header(timestamp@),
{
    let fields = vec![
        (owned("cli_name"), JsonValue::string("kendra-cli")),
        (owned("cli_version"), JsonValue::string("0.1.0")),
        (owned("timestamp"), JsonValue::string(timestamp)),
    ];
    let r = JsonValue::object(fields);
    proof {
        assert(field_views(fields@) =~= seq![
            ("cli_name"@, Json::Str("kendra-cli"@)),
            ("cli_version"@, Json::Str("0.1.0"@)),
            ("timestamp"@, Json::Str(timestamp@)),
        ]);
    }
    r
}

/// Stamps `event` with the header for `timestamp` and removes the keys that
/// `config` redacts.
pub fn enrich_event(config: &ObservabilityConfig, event: JsonValue, timestamp: &str) -> (r: JsonValue)
    ensures
        r@ == enriched(texts(config.governance.redact_keys@), event@, timestamp@),
{
    let mut value = event;
    let is_object = match &value {
        JsonValue::Object(_) => true,
        _ => false,
    };
    if is_object {
        value.put("header", header(timestamp));
    }
    let keys = &config.governance.redact_keys;
    let ghost ks = texts(keys@);
    let ghost start = put(event@, "header"@, telemetry_header(timestamp@));
    let mut i: usize = 0;
    while i < keys.len()
        invariant
            i <= keys@.len(),
            ks == texts(keys@),
            value@ == redacted(start, ks.take(i as int)),
        decreases keys@.len() - i,
    {
        value.remove(keys[i].as_str());
        proof {
            assert(ks.take(i + 1).drop_last() =~= ks.take(i as int));
        }
        i = i + 1;
    }
    proof {
        assert(ks.take(i as int) =~= ks);
    }
    value
}

/// Stamps `event` with the header for the present time and removes the
/// keys that `config` redacts. The time is not stated.
pub fn sanitize_and_enrich(config: &ObservabilityConfig, event: JsonValue) -> (r: JsonValue)
    ensures
        exists|t: Seq<char>| r@ == #[trigger] enriched(texts(config.governance.redact_keys@), event@, t),
{
    let now = now_rfc3339();
    enrich_event(config, event, now.as_str())
}

/// The line that the file exporter appends for `event`: its JSON text and a
/// line feed (NDJSON).
pub fn ndjson_line(event: &JsonValue) -> (r: String)
    ensures
        r@ == json_text(event@) + "\n"@,
{
    let mut line = to_json_text(event);
    push_str(&mut line, "\n");
    line
}

/// A key that governance redacts is absent from what is exported.
pub proof fn law_redacted_keys_absent(
    redact_keys: Seq<Seq<char>>,
    event: Json,
    timestamp: Seq<char>,
    k: int,
)
    requires
        0 <= k < redact_keys.len(),
    ensures
        get(enriched(redact_keys, event, timestamp), redact_keys[k]) is None,
{
    lemma_redacted_absent(put(event, "header"@, telemetry_header(timestamp)), redact_keys, k);
}

proof fn lemma_redacted_absent(j: Json, keys: Seq<Seq<char>>, k: int)
    requires
        0 <= k < keys.len(),
    ensures
        get(redacted(j, keys), keys[k]) is None,
    decreases keys.len(),
{
    let prev = redacted(j, keys.drop_last());
    if let Json::Object(fs) = prev {
        if keys[k] == keys.last() {
            lemma_without_field_gone(fs, keys.last());
        } else {
            lemma_redacted_absent(j, keys.drop_last(), k);
            lemma_without_field_other(fs, keys.last(), keys[k]);
        }
    } else {
        lemma_redacted_keeps_kind(j, keys.drop_last());
    }
}

proof fn lemma_redacted_keeps_kind(j: Json, keys: Seq<Seq<char>>)
    ensures
        (redacted(j, keys) is Object) == (j is Object),
        !(j is Object) ==> redacted(j, keys) == j,
    decreases keys.len(),
{
    if keys.len() > 0 {
        lemma_redacted_keeps_kind(j, keys.drop_last());
    }
}

proof fn lemma_redacted_other(j: Json, keys: Seq<Seq<char>>, key: Seq<char>)
    requires
        forall|i: int| 0 <= i < keys.len() ==> keys[i] != key,
    ensures
        get(redacted(j, keys), key) == get(j, key),
    decreases keys.len(),
{
    if keys.len() > 0 {
        lemma_redacted_other(j, keys.drop_last(), key);
        lemma_redacted_keeps_kind(j, keys.drop_last());
        if let Json::Object(fs) = redacted(j, keys.drop_last()) {
            lemma_without_field_other(fs, keys.last(), key);
        }
    }
}

/// An exported object carries the header for its time, unless governance
/// redacts the header itself.
pub proof fn law_header_stamped(redact_keys: Seq<Seq<char>>, event: Json, timestamp: Seq<char>)
    requires
        event is Object,
        forall|i: int| 0 <= i < redact_keys.len() ==> redact_keys[i] != "header"@,
    ensures
        get(enriched(redact_keys, event, timestamp), "header"@) == Some(telemetry_header(timestamp)),
{
    let stamped = put(event, "header"@, telemetry_header(timestamp));
    lemma_set_field_found(event->Object_0, "header"@, telemetry_header(timestamp));
    lemma_redacted_other(stamped, redact_keys, "header"@);
}

/// A value that is not an object is exported as it came.
pub proof fn law_non_object_unchanged(redact_keys: Seq<Seq<char>>, event: Json, timestamp: Seq<char>)
    requires
        !(event is Object),
    ensures
        enriched(redact_keys, event, timestamp) == event,
{
    lemma_redacted_keeps_kind(event, redact_keys);
}

/// What the collector's wait for the next event gave.
pub enum CollectorEvent {
    /// An event, as JSON.
    Received(JsonValue),
    /// The collector fell behind and this many events were lost.
    Lagged(u64),
    /// The bus is gone.
    Closed,
}

/// What the collector does next.
pub enum CollectorAction {
    /// Hand this value to every exporter, then wait again.
    Export(JsonValue),
    /// Wait again.
    Continue,
    /// Stop collecting.
    Stop,
}

/// Decides what telemetry does with the events of the bus.
pub struct ObservabilityManager {
    pub config: ObservabilityConfig,
}

impl ObservabilityManager {
    pub fn new(config: ObservabilityConfig) -> (r: Self)
        ensures
            r.config == config,
    {
        ObservabilityManager { config }
    }

    /// Whether collection starts at all.
    pub fn is_enabled(&self) -> (r: bool)
        ensures
            r == self.config.enabled,
    {
        self.config.enabled
    }

    /// One step of the collection loop.
    pub fn handle(&self, event: CollectorEvent) -> (r: CollectorAction)
        ensures
            match event {
                CollectorEvent::Received(e) => r matches CollectorAction::Export(v) && exists|t: Seq<char>|
                    v@ == #[trigger] enriched(texts(self.config.governance.redact_keys@), e@, t),
                CollectorEvent::Lagged(_) => r is Continue,
                CollectorEvent::Closed => r is Stop,
            },
    {
        match event {
            CollectorEvent::Received(e) => CollectorAction::Export(sanitize_and_enrich(&self.config, e)),
            CollectorEvent::Lagged(_) => CollectorAction::Continue,
            CollectorEvent::Closed => CollectorAction::Stop,
        }
    }
}

} // verus!
