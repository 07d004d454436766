//! Per-session structured debug logging: each event becomes one JSON line
//! `{"component", "data", "elapsed_ms", "event", "ts"}` with long strings
//! of its data cut short. Appending the line to the file is the caller's
//! part.
use vstd::prelude::*;

use crate::json::{json_text, Json, JsonValue};
use crate::text::{byte_len, owned, push_str};

verus! {

/// A monotonic instant of the standard library, carried through unchanged.
#[verifier::external_type_specification]
#[verifier::external_body]
pub struct ExInstant(std::time::Instant);

/// Calls `Instant::now`. The instant is not stated.
#[verifier::external_body]
fn instant_now() -> std::time::Instant {
    std::time::Instant::now()
}

/// Calls `Instant::elapsed` and takes its milliseconds to 64 bits. The
/// time is not stated.
#[verifier::external_body]
fn elapsed_ms(start: &std::time::Instant) -> u64 {
    start.elapsed().as_millis() as u64
}

/// Calls `Utc::now` and `DateTime::to_rfc3339`. The time is not stated.
#[verifier::external_body]
pub(crate) fn now_rfc3339() -> String {
    chrono::Utc::now().to_rfc3339()
}

/// The longest string value kept whole, in bytes.
pub const MAX_PREVIEW_LEN: usize = 200;

/// A long string cut to its first 200 bytes, with its length noted.
pub open spec fn cut_string(s: Seq<char>) -> Seq<char> {
    s.take(crate::text::chars_for_bytes(s, 200, 0)) + "... ("@ + crate::text::decimal(byte_len(s))
        + " chars)"@
}

/// `v` with every string longer than 200 bytes cut short.
pub open spec fn truncated(v: Json) -> Json
    decreases v,
{
    match v {
        Json::Str(s) => if byte_len(s) > 200 {
            Json::Str(cut_string(s))
        } else {
            v
        },
        Json::Array(xs) => Json::Array(truncated_items(xs)),
        Json::Object(fs) => Json::Object(truncated_fields(fs)),
        _ => v,
    }
}

/// The items of an array, truncated.
pub open spec fn truncated_items(xs: Seq<Json>) -> Seq<Json>
    decreases xs,
{
    if xs.len() == 0 {
        Seq::empty()
    } else {
        truncated_items(xs.drop_last()).push(truncated(xs.last()))
    }
}

/// The fields of an object, their values truncated.
pub open spec fn truncated_fields(fs: Seq<(Seq<char>, Json)>) -> Seq<(Seq<char>, Json)>
    decreases fs,
{
    if fs.len() == 0 {
        Seq::empty()
    } else {
        proof {
            assert(decreases_to!(fs => fs[fs.len() - 1]));
        }
        truncated_fields(fs.drop_last()).push((fs.last().0, truncated(fs.last().1)))
    }
}

/// Whether every string of `v` longer than 200 bytes can be cut at byte
/// 200 (it falls between two characters).
pub open spec fn truncatable(v: Json) -> bool
    decreases v,
{
    match v {
        Json::Str(s) => byte_len(s) > 200 ==> crate::text::is_boundary(s, 200),
        Json::Array(xs) => items_truncatable(xs),
        Json::Object(fs) => fields_truncatable(fs),
        _ => true,
    }
}

/// Whether every item of an array is truncatable.
pub open spec fn items_truncatable(xs: Seq<Json>) -> bool
    decreases xs,
{
    if xs.len() == 0 {
        true
    } else {
        items_truncatable(xs.drop_last()) && truncatable(xs.last())
    }
}

/// Whether every field value of an object is truncatable.
pub open spec fn fields_truncatable(fs: Seq<(Seq<char>, Json)>) -> bool
    decreases fs,
{
    if fs.len() == 0 {
        true
    } else {
        proof {
            assert(decreases_to!(fs => fs[fs.len() - 1]));
        }
        fields_truncatable(fs.drop_last()) && truncatable(fs.last().1)
    }
}

proof fn lemma_items_truncatable(xs: Seq<Json>)
    ensures
        items_truncatable(xs) <==> forall|i: int| 0 <= i < xs.len() ==> truncatable(#[trigger] xs[i]),
    decreases xs.len(),
{
    if xs.len() > 0 {
        lemma_items_truncatable(xs.drop_last());
        if items_truncatable(xs) {
            assert forall|i: int| 0 <= i < xs.len() implies truncatable(#[trigger] xs[i]) by {
                if i < xs.len() - 1 {
                    assert(xs[i] == xs.drop_last()[i]);
                }
            }
        }
        if forall|i: int| 0 <= i < xs.len() ==> truncatable(#[trigger] xs[i]) {
            assert forall|i: int| 0 <= i < xs.drop_last().len() implies truncatable(#[trigger] xs.drop_last()[i]) by {
                assert(xs[i] == xs.drop_last()[i]);
            }
            assert(truncatable(xs[xs.len() - 1]));
        }
    }
}

proof fn lemma_fields_truncatable(fs: Seq<(Seq<char>, Json)>)
    ensures
        fields_truncatable(fs) <==> forall|i: int| 0 <= i < fs.len() ==> truncatable(#[trigger] fs[i].1),
    decreases fs.len(),
{
    if fs.len() > 0 {
        lemma_fields_truncatable(fs.drop_last());
        if fields_truncatable(fs) {
            assert forall|i: int| 0 <= i < fs.len() implies truncatable(#[trigger] fs[i].1) by {
                if i < fs.len() - 1 {
                    assert(fs[i] == fs.drop_last()[i]);
                }
            }
        }
        if forall|i: int| 0 <= i < fs.len() ==> truncatable(#[trigger] fs[i].1) {
            assert forall|i: int| 0 <= i < fs.drop_last().len() implies truncatable(#[trigger] fs.drop_last()[i].1) by {
                assert(fs[i] == fs.drop_last()[i]);
            }
            assert(truncatable(fs[fs.len() - 1].1));
        }
    }
}

/// Whether every long string of `v` can be cut at byte 200.
pub fn is_truncatable(v: &JsonValue) -> (r: bool)
    ensures
        r == truncatable(v@),
    decreases v,
{
    match v {
        JsonValue::Str(s) => {
            if crate::text::str_byte_len(s.as_str()) > 200 {
                crate::text::byte_prefix(s.as_str(), 200).is_some()
            } else {
                true
            }
        },
        JsonValue::Array(xs) => {
            proof {
                crate::json::lemma_array_view(*xs);
                lemma_items_truncatable(crate::json::views(xs@));
            }
            let mut i: usize = 0;
            while i < xs.len()
                invariant
                    i <= xs@.len(),
                    *v == JsonValue::Array(*xs),
                    v@ == Json::Array(crate::json::views(xs@)),
                    items_truncatable(crate::json::views(xs@)) <==> forall|k: int|
                        0 <= k < xs@.len() ==> truncatable(#[trigger] crate::json::views(xs@)[k]),
                    forall|k: int| 0 <= k < i ==> truncatable(#[trigger] xs@[k]@),
                decreases xs@.len() - i,
            {
                proof {
                    assert(decreases_to!(*v => v->Array_0));
                    assert(decreases_to!(v->Array_0 => xs@[i as int]));
                }
                if !is_truncatable(&xs[i]) {
                    proof {
                        assert(crate::json::views(xs@)[i as int] == xs@[i as int]@);
                    }
                    return false;
                }
                i = i + 1;
            }
            proof {
                assert forall|k: int| 0 <= k < xs@.len() implies truncatable(#[trigger] crate::json::views(xs@)[k]) by {
                    assert(crate::json::views(xs@)[k] == xs@[k]@);
                }
            }
            true
        },
        JsonValue::Object(fs) => {
            proof {
                crate::json::lemma_object_view(*fs);
                lemma_fields_truncatable(crate::json::field_views(fs@));
            }
            let mut i: usize = 0;
            while i < fs.len()
                invariant
                    i <= fs@.len(),
                    *v == JsonValue::Object(*fs),
                    v@ == Json::Object(crate::json::field_views(fs@)),
                    fields_truncatable(crate::json::field_views(fs@)) <==> forall|k: int|
                        0 <= k < fs@.len() ==> truncatable(#[trigger] crate::json::field_views(fs@)[k].1),
                    forall|k: int| 0 <= k < i ==> truncatable(#[trigger] fs@[k].1@),
                decreases fs@.len() - i,
            {
                proof {
                    assert(decreases_to!(*v => v->Object_0));
                    assert(decreases_to!(v->Object_0 => fs@[i as int]));
                    assert(decreases_to!(fs@[i as int] => fs@[i as int].1));
                }
                if !is_truncatable(&fs[i].1) {
                    proof {
                        assert(crate::json::field_views(fs@)[i as int].1 == fs@[i as int].1@);
                    }
                    return false;
                }
                i = i + 1;
            }
            proof {
                assert forall|k: int| 0 <= k < fs@.len() implies truncatable(#[trigger] crate::json::field_views(fs@)[k].1) by {
                    assert(crate::json::field_views(fs@)[k].1 == fs@[k].1@);
                }
            }
            true
        },
        _ => true,
    }
}

/// `v` with every string longer than 200 bytes cut to its first 200 bytes
/// and its length noted.
pub fn truncate_value(v: &JsonValue) -> (r: JsonValue)
    requires
        truncatable(v@),
    ensures
        r@ == truncated(v@),
    decreases v,
{
    match v {
        JsonValue::Str(s) => {
            let total = crate::text::str_byte_len(s.as_str());
            if total > 200 {
                match crate::text::byte_prefix(s.as_str(), 200) {
                    Some(p) => {
                        let mut t = p;
                        push_str(&mut t, "... (");
                        crate::text::push_decimal(&mut t, total as u64);
                        push_str(&mut t, " chars)");
                        JsonValue::Str(t)
                    },
                    None => JsonValue::Str(s.clone()),
                }
            } else {
                JsonValue::Str(s.clone())
            }
        },
        JsonValue::Array(xs) => {
            proof {
                crate::json::lemma_array_view(*xs);
                lemma_items_truncatable(crate::json::views(xs@));
            }
            let ghost xv = crate::json::views(xs@);
            let mut out: Vec<JsonValue> = Vec::new();
            let mut i: usize = 0;
            assert(xv.take(0) =~= Seq::<Json>::empty());
            while i < xs.len()
                invariant
                    i <= xs@.len(),
                    *v == JsonValue::Array(*xs),
                    xv == crate::json::views(xs@),
                    forall|k: int| 0 <= k < xv.len() ==> truncatable(#[trigger] xv[k]),
                    crate::json::views(out@) == truncated_items(xv.take(i as int)),
                decreases xs@.len() - i,
            {
                proof {
                    assert(decreases_to!(*v => v->Array_0));
                    assert(decreases_to!(v->Array_0 => xs@[i as int]));
                    assert(xv[i as int] == xs@[i as int]@);
                }
                let t = truncate_value(&xs[i]);
                let ghost before = out@;
                out.push(t);
                proof {
                    assert(crate::json::views(out@) =~= crate::json::views(before).push(t@));
                    assert(xv.take(i + 1).drop_last() =~= xv.take(i as int));
                    assert(xv.take(i + 1).last() == xv[i as int]);
                }
                i = i + 1;
            }
            proof {
                assert(xv.take(xs@.len() as int) =~= xv);
            }
            JsonValue::array(out)
        },
        JsonValue::Object(fs) => {
            proof {
                crate::json::lemma_object_view(*fs);
                lemma_fields_truncatable(crate::json::field_views(fs@));
            }
            let ghost fv = crate::json::field_views(fs@);
            let mut out: Vec<(String, JsonValue)> = Vec::new();
            let mut i: usize = 0;
            assert(fv.take(0) =~= Seq::<(Seq<char>, Json)>::empty());
            while i < fs.len()
                invariant
                    i <= fs@.len(),
                    *v == JsonValue::Object(*fs),
                    fv == crate::json::field_views(fs@),
                    forall|k: int| 0 <= k < fv.len() ==> truncatable(#[trigger] fv[k].1),
                    crate::json::field_views(out@) == truncated_fields(fv.take(i as int)),
                decreases fs@.len() - i,
            {
                proof {
                    assert(decreases_to!(*v => v->Object_0));
                    assert(decreases_to!(v->Object_0 => fs@[i as int]));
                    assert(decreases_to!(fs@[i as int] => fs@[i as int].1));
                    assert(fv[i as int] == (fs@[i as int].0@, fs@[i as int].1@));
                    assert(truncatable(fv[i as int].1));
                    assert(truncatable(fs@[i as int].1@));
                }
                let t = truncate_value(&fs[i].1);
                let k = fs[i].0.clone();
                let ghost before = out@;
                out.push((k, t));
                proof {
                    assert(crate::json::field_views(out@) =~= crate::json::field_views(before).push((k@, t@)));
                    assert(fv.take(i + 1).drop_last() =~= fv.take(i as int));
                    assert(fv.take(i + 1).last() == fv[i as int]);
                }
                i = i + 1;
            }
            proof {
                assert(fv.take(fs@.len() as int) =~= fv);
            }
            JsonValue::object(out)
        },
        JsonValue::Null => JsonValue::Null,
        JsonValue::Bool(b) => JsonValue::Bool(*b),
        JsonValue::Number(n) => JsonValue::Number(n.clone()),
    }
}

// ---------------------------------------------------------------------------
// The logger
// ---------------------------------------------------------------------------

/// The JSON line of one event.
pub open spec fn event_entry(ts: Seq<char>, elapsed_ms: u64, event: Seq<char>, component: Seq<char>, data: Json) -> Json {
    Json::Object(
        seq![
            ("ts"@, Json::Str(ts)),
            ("elapsed_ms"@, Json::Number(crate::text::decimal(elapsed_ms as nat))),
            ("event"@, Json::Str(event)),
            ("component"@, Json::Str(component)),
            ("data"@, truncated(data)),
        ],
    )
}

/// The line written for one event: its JSON text and a line break.
pub open spec fn event_line(ts: Seq<char>, elapsed_ms: u64, event: Seq<char>, component: Seq<char>, data: Json) -> Seq<char> {
    json_text(event_entry(ts, elapsed_ms, event, component, data)) + "\n"@
}

/// The line written for an event stamped `ts`, `elapsed_ms` after the
/// logger started.
pub fn log_line(ts: &str, elapsed_ms: u64, event: &str, component: &str, data: &JsonValue) -> (r: String)
    requires
        truncatable(data@),
    ensures
        r@ == event_line(ts@, elapsed_ms, event@, component@, data@),
{
    let d = truncate_value(data);
    let mut fs: Vec<(String, JsonValue)> = Vec::new();
    fs.push((owned("ts"), JsonValue::string(ts)));
    fs.push((owned("elapsed_ms"), JsonValue::from_u64(elapsed_ms)));
    fs.push((owned("event"), JsonValue::string(event)));
    fs.push((owned("component"), JsonValue::string(component)));
    fs.push((owned("data"), d));
    assert(crate::json::field_views(fs@) =~= seq![
        ("ts"@, Json::Str(ts@)),
        ("elapsed_ms"@, Json::Number(crate::text::decimal(elapsed_ms as nat))),
        ("event"@, Json::Str(event@)),
        ("component"@, Json::Str(component@)),
        ("data"@, truncated(data@)),
    ]);
    let entry = JsonValue::object(fs);
    let mut line = crate::json::to_json_text(&entry);
    push_str(&mut line, "\n");
    line
}

/// Where an active logger writes, and when it started.
pub struct LoggerInner {
    file_path: String,
    start_time: std::time::Instant,
}

/// Per-session structured debug logger; a no-op logger discards events.
pub struct SessionDebugLogger {
    inner: Option<LoggerInner>,
}

impl SessionDebugLogger {
    /// Whether the logger is active.
    pub closed spec fn is_active(&self) -> bool {
        self.inner is Some
    }

    /// The log file, when active.
    pub closed spec fn path_view(&self) -> Seq<char> {
        self.inner->0.file_path@
    }

    /// A logger writing to `{session_dir}/{session_id}.debug`, started now.
    pub fn new(session_dir: &str, session_id: &str) -> (r: Self)
        ensures
            r.is_active(),
            r.path_view() == crate::paths::joined(session_dir@, session_id@ + ".debug"@),
    {
        let mut name = owned(session_id);
        push_str(&mut name, ".debug");
        let file_path = crate::paths::join_path(session_dir, name.as_str());
        SessionDebugLogger { inner: Some(LoggerInner { file_path, start_time: instant_now() }) }
    }

    /// A no-op logger that discards all events.
    pub fn noop() -> (r: Self)
        ensures
            !r.is_active(),
    {
        SessionDebugLogger { inner: None }
    }

    /// Whether this logger is active.
    pub fn is_enabled(&self) -> (r: bool)
        ensures
            r == self.is_active(),
    {
        self.inner.is_some()
    }

    /// Path to the debug log file, if active.
    pub fn file_path(&self) -> (r: Option<&str>)
        ensures
            r is Some <==> self.is_active(),
            r is Some ==> r->0@ == self.path_view(),
    {
        match &self.inner {
            Some(i) => Some(i.file_path.as_str()),
            None => None,
        }
    }

    /// The line to append to the log file for an event, stamped now; none
    /// for a no-op logger.
    pub fn log(&self, event: &str, component: &str, data: &JsonValue) -> (r: Option<String>)
        requires
            self.is_active() ==> truncatable(data@),
        ensures
            r is Some <==> self.is_active(),
            r matches Some(l) ==> exists|ts: Seq<char>, ms: u64| l@ == event_line(ts, ms, event@, component@, data@),
    {
        match &self.inner {
            None => None,
            Some(inner) => {
                let ms = elapsed_ms(&inner.start_time);
                let ts = now_rfc3339();
                let line = log_line(ts.as_str(), ms, event, component, data);
                Some(line)
            },
        }
    }
}

} // verus!
