//! The memory of learned strategies: delta operations on the playbook, the
//! batches that the curator emits, the reflector's output, and the reading
//! of such JSON from a model's reply.
use vstd::prelude::*;

use crate::json::{as_i64, get, get_str, int_text, Json, JsonValue};
use crate::message::opt_view;
use crate::text::{is_ascii_text, ascii_upper, owned, push_str, str_eq, uppercase};

verus! {

// ---------------------------------------------------------------------------
// Delta operations
// ---------------------------------------------------------------------------

/// Type of delta operation.
#[derive(Debug, Clone, Copy, PartialEq, Eq, Structural)]
pub enum DeltaOperationType {
    Add,
    Update,
    Tag,
    Remove,
}

/// The display name of a delta operation type.
pub open spec fn delta_type_name(t: DeltaOperationType) -> Seq<char> {
    match t {
        DeltaOperationType::Add => "ADD"@,
        DeltaOperationType::Update => "UPDATE"@,
        DeltaOperationType::Tag => "TAG"@,
        DeltaOperationType::Remove => "REMOVE"@,
    }
}

impl DeltaOperationType {
    /// The display name (`ADD`, `UPDATE`, `TAG`, `REMOVE`).
    pub fn to_string(&self) -> (r: String)
        ensures
            r@ == delta_type_name(*self),
    {
        match self {
            DeltaOperationType::Add => owned("ADD"),
            DeltaOperationType::Update => owned("UPDATE"),
            DeltaOperationType::Tag => owned("TAG"),
            DeltaOperationType::Remove => owned("REMOVE"),
        }
    }
}

/// The operation type that an upper-cased name stands for.
pub open spec fn type_of_name(name: Seq<char>) -> Option<DeltaOperationType> {
    if name == "ADD"@ {
        Some(DeltaOperationType::Add)
    } else if name == "UPDATE"@ {
        Some(DeltaOperationType::Update)
    } else if name == "TAG"@ {
        Some(DeltaOperationType::Tag)
    } else if name == "REMOVE"@ {
        Some(DeltaOperationType::Remove)
    } else {
        None
    }
}

/// The operation type that a `type` field names, in any case: ASCII text
/// by its capitals, other text by its Unicode upper case.
pub open spec fn type_of_field(t: Seq<char>) -> Option<DeltaOperationType> {
    if is_ascii_text(t) {
        type_of_name(t.map_values(|c: char| ascii_upper(c)))
    } else {
        type_of_name(uppercase(t))
    }
}

/// Single mutation to apply to the playbook. `metadata` holds each key once.
#[derive(Debug, Clone)]
pub struct DeltaOperation {
    pub op_type: DeltaOperationType,
    pub section: String,
    pub content: Option<String>,
    pub bullet_id: Option<String>,
    pub metadata: Vec<(String, i64)>,
}

/// The mathematical form of a delta operation.
pub struct DeltaOperationView {
    pub op_type: DeltaOperationType,
    pub section: Seq<char>,
    pub content: Option<Seq<char>>,
    pub bullet_id: Option<Seq<char>>,
    pub metadata: Seq<(Seq<char>, i64)>,
}

/// The form of a metadata list.
pub open spec fn meta_view(m: Seq<(String, i64)>) -> Seq<(Seq<char>, i64)> {
    m.map_values(|e: (String, i64)| (e.0@, e.1))
}

impl View for DeltaOperation {
    type V = DeltaOperationView;

    open spec fn view(&self) -> DeltaOperationView {
        DeltaOperationView {
            op_type: self.op_type,
            section: self.section@,
            content: opt_view(self.content),
            bullet_id: opt_view(self.bullet_id),
            metadata: meta_view(self.metadata@),
        }
    }
}

/// The tags that a `TAG` operation counts.
pub open spec fn is_valid_tag(k: Seq<char>) -> bool {
    k == "helpful"@ || k == "harmful"@ || k == "neutral"@
}

/// The position of key `k` in a metadata list, if there.
pub open spec fn meta_index(m: Seq<(Seq<char>, i64)>, k: Seq<char>) -> Option<int>
    decreases m.len(),
{
    if m.len() == 0 {
        None
    } else if m.last().0 == k {
        Some(m.len() - 1)
    } else {
        meta_index(m.drop_last(), k)
    }
}

/// `m` with `k` mapped to `n` (what `HashMap::insert` leaves).
pub open spec fn meta_insert(m: Seq<(Seq<char>, i64)>, k: Seq<char>, n: i64) -> Seq<(Seq<char>, i64)> {
    match meta_index(m, k) {
        Some(i) => m.update(i, (k, n)),
        None => m.push((k, n)),
    }
}

/// The metadata read from the fields `fs` of a `metadata` object: each
/// integer field, for a `TAG` operation only the valid tags.
pub open spec fn meta_of(fs: Seq<(Seq<char>, Json)>, t: DeltaOperationType) -> Seq<(Seq<char>, i64)>
    decreases fs.len(),
{
    if fs.len() == 0 {
        Seq::empty()
    } else {
        let acc = meta_of(fs.drop_last(), t);
        let (k, v) = fs.last();
        if t == DeltaOperationType::Tag && !is_valid_tag(k) {
            acc
        } else {
            match as_i64(v) {
                Some(n) => meta_insert(acc, k, n),
                None => acc,
            }
        }
    }
}

/// The delta operation that a JSON payload describes, where its `type`
/// names one.
pub open spec fn parsed_operation(p: Json) -> Option<DeltaOperationView> {
    match get_str(p, "type"@) {
        None => None,
        Some(t) => match type_of_field(t) {
            None => None,
            Some(op_type) => Some(
                DeltaOperationView {
                    op_type,
                    section: match get_str(p, "section"@) {
                        Some(s) => s,
                        None => Seq::empty(),
                    },
                    content: get_str(p, "content"@),
                    bullet_id: get_str(p, "bullet_id"@),
                    metadata: match get(p, "metadata"@) {
                        Some(Json::Object(fs)) => meta_of(fs, op_type),
                        _ => Seq::empty(),
                    },
                },
            ),
        },
    }
}

/// The JSON fields of a metadata list.
pub open spec fn meta_json(m: Seq<(Seq<char>, i64)>) -> Seq<(Seq<char>, Json)> {
    m.map_values(|e: (Seq<char>, i64)| (e.0, Json::Number(int_text(e.1 as int))))
}

/// The JSON form of a delta operation.
pub open spec fn operation_json(op: DeltaOperationView) -> Json {
    let base = seq![
        ("type"@, Json::Str(delta_type_name(op.op_type))),
        ("section"@, Json::Str(op.section)),
    ];
    let with_content = match op.content {
        Some(c) => base.push(("content"@, Json::Str(c))),
        None => base,
    };
    let with_id = match op.bullet_id {
        Some(b) => with_content.push(("bullet_id"@, Json::Str(b))),
        None => with_content,
    };
    if op.metadata.len() > 0 {
        Json::Object(with_id.push(("metadata"@, Json::Object(meta_json(op.metadata)))))
    } else {
        Json::Object(with_id)
    }
}

/// The position of key `k` in metadata `m`.
fn find_meta(m: &Vec<(String, i64)>, k: &str) -> (r: Option<usize>)
    ensures
        match r {
            Some(i) => meta_index(meta_view(m@), k@) == Some(i as int) && i < m@.len(),
            None => meta_index(meta_view(m@), k@) is None,
        },
{
    let ghost mv = meta_view(m@);
    let mut j = m.len();
    assert(mv.take(j as int) =~= mv);
    while j > 0
        invariant
            j <= m@.len(),
            mv == meta_view(m@),
            meta_index(mv, k@) == meta_index(mv.take(j as int), k@),
        decreases j,
    {
        proof {
            assert(mv.take(j as int).drop_last() =~= mv.take(j - 1));
            assert(mv.take(j as int).last() == (m@[j - 1].0@, m@[j - 1].1));
        }
        if str_eq(m[j - 1].0.as_str(), k) {
            return Some(j - 1);
        }
        j = j - 1;
    }
    None
}

/// Maps key `k` to `n` in metadata `m`.
fn insert_meta(m: &mut Vec<(String, i64)>, k: &str, n: i64)
    ensures
        meta_view(final(m)@) == meta_insert(meta_view(old(m)@), k@, n),
{
    match find_meta(m, k) {
        Some(i) => {
            m.set(i, (owned(k), n));
            assert(meta_view(m@) =~= meta_view(old(m)@).update(i as int, (k@, n)));
        },
        None => {
            m.push((owned(k), n));
            assert(meta_view(m@) =~= meta_view(old(m)@).push((k@, n)));
        },
    }
}

/// Whether `k` is one of the tags that a `TAG` operation counts.
fn valid_tag(k: &str) -> (r: bool)
    ensures
        r == is_valid_tag(k@),
{
    str_eq(k, "helpful") || str_eq(k, "harmful") || str_eq(k, "neutral")
}

/// The operation type that a `type` field names.
fn type_from_field(t: &str) -> (r: Option<DeltaOperationType>)
    ensures
        r == type_of_field(t@),
{
    let up = crate::text::to_uppercase(t);
    let u = up.as_str();
    proof {
        if is_ascii_text(t@) {
            assert(u@ == t@.map_values(|c: char| ascii_upper(c)));
        }
    }
    if str_eq(u, "ADD") {
        Some(DeltaOperationType::Add)
    } else if str_eq(u, "UPDATE") {
        Some(DeltaOperationType::Update)
    } else if str_eq(u, "TAG") {
        Some(DeltaOperationType::Tag)
    } else if str_eq(u, "REMOVE") {
        Some(DeltaOperationType::Remove)
    } else {
        None
    }
}

/// An owned copy of an optional text.
fn opt_owned(o: Option<&str>) -> (r: Option<String>)
    ensures
        opt_view(r) == match o {
            Some(s) => Some(s@),
            None => None,
        },
{
    match o {
        Some(s) => Some(owned(s)),
        None => None,
    }
}

impl DeltaOperation {
    /// The operation that a JSON payload describes; `None` where its `type`
    /// is missing or names no operation.
    pub fn from_json(payload: &JsonValue) -> (r: Option<DeltaOperation>)
        ensures
            match r {
                Some(op) => parsed_operation(payload@) == Some(op@),
                None => parsed_operation(payload@) is None,
            },
    {
        let t = match payload.get_str("type") {
            Some(t) => t,
            None => return None,
        };
        let op_type = match type_from_field(t) {
            Some(x) => x,
            None => return None,
        };
        let section = match payload.get_str("section") {
            Some(s) => owned(s),
            None => String::new(),
        };
        let content = opt_owned(payload.get_str("content"));
        let bullet_id = opt_owned(payload.get_str("bullet_id"));
        let mut metadata: Vec<(String, i64)> = Vec::new();
        match payload.get("metadata") {
            Some(JsonValue::Object(fs)) => {
                proof {
                    crate::json::lemma_object_view(*fs);
                }
                let ghost fv = crate::json::field_views(fs@);
                let mut i: usize = 0;
                while i < fs.len()
                    invariant
                        i <= fs@.len(),
                        fv == crate::json::field_views(fs@),
                        meta_view(metadata@) == meta_of(fv.take(i as int), op_type),
                    decreases fs@.len() - i,
                {
                    proof {
                        assert(fv.take(i + 1).drop_last() =~= fv.take(i as int));
                        assert(fv.take(i + 1).last() == (fs@[i as int].0@, fs@[i as int].1@));
                    }
                    let k = fs[i].0.as_str();
                    if op_type == DeltaOperationType::Tag && !valid_tag(k) {
                    } else {
                        match fs[i].1.as_i64() {
                            Some(n) => insert_meta(&mut metadata, k, n),
                            None => {},
                        }
                    }
                    i = i + 1;
                }
                proof {
                    assert(fv.take(fs@.len() as int) =~= fv);
                }
            },
            _ => {},
        }
        let r = DeltaOperation { op_type, section, content, bullet_id, metadata };
        let ghost pv = parsed_operation(payload@)->Some_0;
        assert(r@.op_type == pv.op_type);
        assert(r@.section == pv.section);
        assert(r@.content == pv.content);
        assert(r@.bullet_id == pv.bullet_id);
        assert(r@.metadata == pv.metadata);
        Some(r)
    }

    /// The JSON form of the operation: its type and section, its content and
    /// bullet id where set, and its metadata where there is any.
    pub fn to_json(&self) -> (r: JsonValue)
        ensures
            r@ == operation_json(self@),
    {
        let mut fs: Vec<(String, JsonValue)> = Vec::new();
        let name = self.op_type.to_string();
        fs.push((owned("type"), JsonValue::Str(name)));
        fs.push((owned("section"), JsonValue::string(self.section.as_str())));
        let ghost base = seq![
            ("type"@, Json::Str(delta_type_name(self.op_type))),
            ("section"@, Json::Str(self.section@)),
        ];
        assert(crate::json::field_views(fs@) =~= base);
        if let Some(c) = &self.content {
            fs.push((owned("content"), JsonValue::string(c.as_str())));
        }
        let ghost with_content = match self@.content {
            Some(c) => base.push(("content"@, Json::Str(c))),
            None => base,
        };
        assert(crate::json::field_views(fs@) =~= with_content);
        if let Some(b) = &self.bullet_id {
            fs.push((owned("bullet_id"), JsonValue::string(b.as_str())));
        }
        let ghost with_id = match self@.bullet_id {
            Some(b) => with_content.push(("bullet_id"@, Json::Str(b))),
            None => with_content,
        };
        assert(crate::json::field_views(fs@) =~= with_id);
        if self.metadata.len() > 0 {
            let mut ms: Vec<(String, JsonValue)> = Vec::new();
            let mut i: usize = 0;
            while i < self.metadata.len()
                invariant
                    i <= self.metadata@.len(),
                    crate::json::field_views(ms@) == meta_json(meta_view(self.metadata@)).take(
                        i as int,
                    ),
                decreases self.metadata@.len() - i,
            {
                let e = (self.metadata[i].0.clone(), JsonValue::from_i64(self.metadata[i].1));
                let ghost before = ms@;
                ms.push(e);
                proof {
                    assert(crate::json::field_views(ms@) =~= crate::json::field_views(before).push(
                        (e.0@, e.1@),
                    ));
                    assert(meta_json(meta_view(self.metadata@)).take(i + 1) =~= meta_json(
                        meta_view(self.metadata@),
                    ).take(i as int).push(
                        (self.metadata@[i as int].0@, Json::Number(int_text(self.metadata@[i as int].1 as int))),
                    ));
                }
                i = i + 1;
            }
            proof {
                assert(meta_json(meta_view(self.metadata@)).take(self.metadata@.len() as int)
                    =~= meta_json(meta_view(self.metadata@)));
            }
            let meta = JsonValue::object(ms);
            fs.push((owned("metadata"), meta));
            assert(crate::json::field_views(fs@) =~= with_id.push(
                ("metadata"@, Json::Object(meta_json(self@.metadata))),
            ));
        }
        JsonValue::object(fs)
    }
}

/// Bundle of curator reasoning and operations.
#[derive(Debug, Clone)]
pub struct DeltaBatch {
    pub reasoning: String,
    pub operations: Vec<DeltaOperation>,
}

/// The forms of a list of operations.
pub open spec fn ops_view(ops: Seq<DeltaOperation>) -> Seq<DeltaOperationView> {
    ops.map_values(|op: DeltaOperation| op@)
}

/// The operations that the items of an `operations` array describe, those
/// that describe none left out.
pub open spec fn parsed_operations(items: Seq<Json>) -> Seq<DeltaOperationView>
    decreases items.len(),
{
    if items.len() == 0 {
        Seq::empty()
    } else {
        let acc = parsed_operations(items.drop_last());
        match parsed_operation(items.last()) {
            Some(op) => acc.push(op),
            None => acc,
        }
    }
}

/// The reasoning of a batch payload (empty where missing).
pub open spec fn batch_reasoning(p: Json) -> Seq<char> {
    match get_str(p, "reasoning"@) {
        Some(r) => r,
        None => Seq::empty(),
    }
}

/// The operations of a batch payload.
pub open spec fn batch_operations(p: Json) -> Seq<DeltaOperationView> {
    match get(p, "operations"@) {
        Some(Json::Array(items)) => parsed_operations(items),
        _ => Seq::empty(),
    }
}

/// The JSON form of a batch.
pub open spec fn batch_json(reasoning: Seq<char>, ops: Seq<DeltaOperationView>) -> Json {
    Json::Object(
        seq![
            ("reasoning"@, Json::Str(reasoning)),
            ("operations"@, Json::Array(ops.map_values(|op: DeltaOperationView| operation_json(op)))),
        ],
    )
}

impl DeltaBatch {
    /// The batch that a JSON payload describes: its reasoning (empty where
    /// missing) and the operations of its `operations` array that are valid.
    pub fn from_json(payload: &JsonValue) -> (r: DeltaBatch)
        ensures
            r.reasoning@ == batch_reasoning(payload@),
            ops_view(r.operations@) == batch_operations(payload@),
    {
        let reasoning = match payload.get_str("reasoning") {
            Some(s) => owned(s),
            None => String::new(),
        };
        let mut operations: Vec<DeltaOperation> = Vec::new();
        match payload.get("operations") {
            Some(JsonValue::Array(items)) => {
                proof {
                    crate::json::lemma_array_view(*items);
                }
                let ghost iv = crate::json::views(items@);
                let mut i: usize = 0;
                while i < items.len()
                    invariant
                        i <= items@.len(),
                        iv == crate::json::views(items@),
                        ops_view(operations@) == parsed_operations(iv.take(i as int)),
                    decreases items@.len() - i,
                {
                    proof {
                        assert(iv.take(i + 1).drop_last() =~= iv.take(i as int));
                        assert(iv.take(i + 1).last() == items@[i as int]@);
                    }
                    match DeltaOperation::from_json(&items[i]) {
                        Some(op) => {
                            let ghost before = operations@;
                            operations.push(op);
                            proof {
                                assert(ops_view(operations@) =~= ops_view(before).push(op@));
                            }
                        },
                        None => {},
                    }
                    i = i + 1;
                }
                proof {
                    assert(iv.take(items@.len() as int) =~= iv);
                }
            },
            _ => {},
        }
        DeltaBatch { reasoning, operations }
    }

    /// The JSON form of the batch: its reasoning and its operations.
    pub fn to_json(&self) -> (r: JsonValue)
        ensures
            r@ == batch_json(self.reasoning@, ops_view(self.operations@)),
    {
        let mut items: Vec<JsonValue> = Vec::new();
        let ghost ov = ops_view(self.operations@).map_values(|op: DeltaOperationView| operation_json(op));
        let mut i: usize = 0;
        while i < self.operations.len()
            invariant
                i <= self.operations@.len(),
                ov == ops_view(self.operations@).map_values(|op: DeltaOperationView| operation_json(op)),
                crate::json::views(items@) == ov.take(i as int),
            decreases self.operations@.len() - i,
        {
            let j = self.operations[i].to_json();
            let ghost before = items@;
            items.push(j);
            proof {
                assert(crate::json::views(items@) =~= crate::json::views(before).push(j@));
                assert(ov.take(i + 1) =~= ov.take(i as int).push(j@));
            }
            i = i + 1;
        }
        proof {
            assert(ov.take(self.operations@.len() as int) =~= ov);
        }
        let mut fs: Vec<(String, JsonValue)> = Vec::new();
        fs.push((owned("reasoning"), JsonValue::string(self.reasoning.as_str())));
        fs.push((owned("operations"), JsonValue::array(items)));
        assert(crate::json::field_views(fs@) =~= seq![
            ("reasoning"@, Json::Str(self.reasoning@)),
            ("operations"@, Json::Array(ov)),
        ]);
        JsonValue::object(fs)
    }
}

// ---------------------------------------------------------------------------
// Reading JSON from a model's reply
// ---------------------------------------------------------------------------

/// The number of occurrences of `c` in `s`.
pub open spec fn count_char(s: Seq<char>, c: char) -> nat
    decreases s.len(),
{
    if s.len() == 0 {
        0
    } else {
        count_char(s.drop_last(), c) + if s.last() == c {
            1nat
        } else {
            0nat
        }
    }
}

/// The reply with its surrounding whitespace and Markdown code fence
/// (```` ```json ```` or ```` ``` ````, and a closing ```` ``` ````) removed.
pub open spec fn unfenced(text: Seq<char>) -> Seq<char> {
    let t0 = crate::text::trim(text);
    let t1 = if crate::text::has_prefix(t0, "```json"@) {
        crate::text::trim(t0.skip(7))
    } else if crate::text::has_prefix(t0, "```"@) {
        crate::text::trim(t0.skip(3))
    } else {
        t0
    };
    if crate::text::has_suffix(t1, "```"@) {
        crate::text::trim(t1.take(t1.len() - 3))
    } else {
        t1
    }
}

/// What reading a JSON object from a model's reply gives: the object, or
/// why there is none.
pub open spec fn loaded_json(text: Seq<char>) -> Result<Json, Seq<char>> {
    let t = unfenced(text);
    match crate::json::json_parse(t) {
        Ok(v) => if v is Object {
            Ok(v)
        } else {
            Err("Expected a JSON object from LLM."@)
        },
        Err(e) => if count_char(t, '{') > count_char(t, '}') || crate::text::has_suffix(
            crate::text::trim_end(t),
            "\""@,
        ) {
            Err("LLM response appears to be truncated JSON. Original error: "@ + e)
        } else {
            Err("LLM response is not valid JSON: "@ + e)
        },
    }
}

/// The number of occurrences of `c` in `s`.
fn count_chars(s: &[char], c: char) -> (n: usize)
    ensures
        n == count_char(s@, c),
{
    let mut n: usize = 0;
    let mut i: usize = 0;
    while i < s.len()
        invariant
            i <= s@.len(),
            n == count_char(s@.take(i as int), c),
            n <= i,
        decreases s@.len() - i,
    {
        proof {
            assert(s@.take(i + 1).drop_last() =~= s@.take(i as int));
        }
        if s[i] == c {
            n = n + 1;
        }
        i = i + 1;
    }
    proof {
        assert(s@.take(s@.len() as int) =~= s@);
    }
    n
}

/// Reads a JSON object from a model's reply, which may wrap it in a
/// Markdown code fence; the error says whether the JSON looks cut short.
pub fn safe_json_loads(text: &str) -> (r: Result<JsonValue, String>)
    ensures
        match (r, loaded_json(text@)) {
            (Ok(v), Ok(j)) => v@ == j,
            (Err(e), Err(m)) => e@ == m,
            _ => false,
        },
{
    let cs = crate::text::chars_of(text);
    let mut t = crate::text::trim_chars(cs.as_slice());
    let jf = crate::text::chars_of("```json");
    let f = crate::text::chars_of("```");
    proof {
        reveal_strlit("```json");
        reveal_strlit("```");
    }
    if crate::text::chars_has_prefix(t.as_slice(), jf.as_slice()) {
        let rest = crate::text::slice_range(t.as_slice(), 7, t.len());
        t = crate::text::trim_chars(rest.as_slice());
    } else if crate::text::chars_has_prefix(t.as_slice(), f.as_slice()) {
        let rest = crate::text::slice_range(t.as_slice(), 3, t.len());
        t = crate::text::trim_chars(rest.as_slice());
    }
    if crate::text::chars_has_suffix(t.as_slice(), f.as_slice()) {
        let rest = crate::text::slice_range(t.as_slice(), 0, t.len() - 3);
        t = crate::text::trim_chars(rest.as_slice());
    }
    proof {
        let t0 = crate::text::trim(text@);
        let t1 = if crate::text::has_prefix(t0, "```json"@) {
            crate::text::trim(t0.skip(7))
        } else if crate::text::has_prefix(t0, "```"@) {
            crate::text::trim(t0.skip(3))
        } else {
            t0
        };
        assert(t0.skip(7) =~= t0.subrange(7, t0.len() as int));
        assert(t0.skip(3) =~= t0.subrange(3, t0.len() as int));
        assert(t1.take(t1.len() - 3) =~= t1.subrange(0, t1.len() - 3));
    }
    let body = string_of_chars(t.as_slice());
    match crate::json::parse_json(body.as_str()) {
        Ok(v) => {
            if let JsonValue::Object(_) = v {
                Ok(v)
            } else {
                Err(owned("Expected a JSON object from LLM."))
            }
        },
        Err(e) => {
            let opens = count_chars(t.as_slice(), '{');
            let closes = count_chars(t.as_slice(), '}');
            let end = crate::text::trim_end_len(t.as_slice());
            let q = crate::text::chars_of("\"");
            let trimmed = crate::text::slice_range(t.as_slice(), 0, end);
            if opens > closes || crate::text::chars_has_suffix(trimmed.as_slice(), q.as_slice()) {
                let mut m = owned("LLM response appears to be truncated JSON. Original error: ");
                push_str(&mut m, e.as_str());
                Err(m)
            } else {
                let mut m = owned("LLM response is not valid JSON: ");
                push_str(&mut m, e.as_str());
                Err(m)
            }
        },
    }
}

fn string_of_chars(cs: &[char]) -> (r: String)
    ensures
        r@ == cs@,
{
    crate::text::string_of(cs)
}

/// Main agent response for ACE analysis.
#[derive(Debug)]
pub struct AgentResponse {
    pub content: String,
    pub reasoning: Option<String>,
    pub tool_calls: Vec<JsonValue>,
}

impl AgentResponse {
    /// A response with `content` and neither reasoning nor tool calls.
    pub fn new(content: &str) -> (r: Self)
        ensures
            r.content@ == content@,
            r.reasoning is None,
            r.tool_calls@.len() == 0,
    {
        AgentResponse { content: owned(content), reasoning: None, tool_calls: Vec::new() }
    }
}

/// Bullet tagging information from the reflector.
#[derive(Debug, Clone)]
pub struct BulletTag {
    pub id: String,
    pub tag: String,
}

/// The bullet tags that the items of a `bullet_tags` array give: each item
/// with a text `id` and a text `tag`, its tag lower-cased.
pub open spec fn parsed_tags(items: Seq<Json>) -> Seq<(Seq<char>, Seq<char>)>
    decreases items.len(),
{
    if items.len() == 0 {
        Seq::empty()
    } else {
        let acc = parsed_tags(items.drop_last());
        match (get_str(items.last(), "id"@), get_str(items.last(), "tag"@)) {
            (Some(id), Some(tag)) => acc.push((id, crate::text::lowercase(tag))),
            _ => acc,
        }
    }
}

/// The forms of a list of bullet tags.
pub open spec fn tags_view(ts: Seq<BulletTag>) -> Seq<(Seq<char>, Seq<char>)> {
    ts.map_values(|t: BulletTag| (t.id@, t.tag@))
}

/// The text of field `key`, or nothing where it is missing or not text.
pub open spec fn text_field(p: Json, key: Seq<char>) -> Seq<char> {
    match get_str(p, key) {
        Some(s) => s,
        None => Seq::empty(),
    }
}

/// The fields of an object (none for any other value).
pub open spec fn object_fields(p: Json) -> Seq<(Seq<char>, Json)> {
    match p {
        Json::Object(fs) => fs,
        _ => Seq::empty(),
    }
}

/// The text of field `key` of `p`, owned (empty where missing).
fn text_of(p: &JsonValue, key: &str) -> (r: String)
    ensures
        r@ == text_field(p@, key@),
{
    match p.get_str(key) {
        Some(s) => owned(s),
        None => String::new(),
    }
}

/// A copy of the fields of an object (none for any other value).
fn fields_copy(p: &JsonValue) -> (r: Vec<(String, JsonValue)>)
    ensures
        crate::json::field_views(r@) == object_fields(p@),
{
    let mut out: Vec<(String, JsonValue)> = Vec::new();
    match p {
        JsonValue::Object(fs) => {
            proof {
                crate::json::lemma_object_view(*fs);
            }
            let ghost fv = crate::json::field_views(fs@);
            let mut i: usize = 0;
            while i < fs.len()
                invariant
                    i <= fs@.len(),
                    fv == crate::json::field_views(fs@),
                    p@ == Json::Object(fv),
                    crate::json::field_views(out@) == fv.take(i as int),
                decreases fs@.len() - i,
            {
                let e = (fs[i].0.clone(), fs[i].1.duplicate());
                let ghost before = out@;
                out.push(e);
                proof {
                    assert(crate::json::field_views(out@) =~= crate::json::field_views(before).push(
                        (e.0@, e.1@),
                    ));
                    assert(fv.take(i + 1) =~= fv.take(i as int).push(fv[i as int]));
                }
                i = i + 1;
            }
            proof {
                assert(fv.take(fs@.len() as int) =~= fv);
            }
        },
        _ => {
            assert(crate::json::field_views(out@) =~= Seq::<(Seq<char>, Json)>::empty());
        },
    }
    out
}

/// Output from the reflector role. `raw` holds the fields of the reply.
#[derive(Debug)]
pub struct ReflectorOutput {
    pub reasoning: String,
    pub error_identification: String,
    pub root_cause_analysis: String,
    pub correct_approach: String,
    pub key_insight: String,
    pub bullet_tags: Vec<BulletTag>,
    pub raw: Vec<(String, JsonValue)>,
}

impl ReflectorOutput {
    /// The reflector's output that a JSON reply holds; missing texts are
    /// empty.
    pub fn from_json(data: &JsonValue) -> (r: Self)
        ensures
            r.reasoning@ == text_field(data@, "reasoning"@),
            r.error_identification@ == text_field(data@, "error_identification"@),
            r.root_cause_analysis@ == text_field(data@, "root_cause_analysis"@),
            r.correct_approach@ == text_field(data@, "correct_approach"@),
            r.key_insight@ == text_field(data@, "key_insight"@),
            tags_view(r.bullet_tags@) == match get(data@, "bullet_tags"@) {
                Some(Json::Array(items)) => parsed_tags(items),
                _ => Seq::empty(),
            },
            crate::json::field_views(r.raw@) == object_fields(data@),
    {
        let mut bullet_tags: Vec<BulletTag> = Vec::new();
        match data.get("bullet_tags") {
            Some(JsonValue::Array(items)) => {
                proof {
                    crate::json::lemma_array_view(*items);
                }
                let ghost iv = crate::json::views(items@);
                let mut i: usize = 0;
                while i < items.len()
                    invariant
                        i <= items@.len(),
                        iv == crate::json::views(items@),
                        tags_view(bullet_tags@) == parsed_tags(iv.take(i as int)),
                    decreases items@.len() - i,
                {
                    proof {
                        assert(iv.take(i + 1).drop_last() =~= iv.take(i as int));
                        assert(iv.take(i + 1).last() == items@[i as int]@);
                    }
                    match (items[i].get_str("id"), items[i].get_str("tag")) {
                        (Some(id), Some(tag)) => {
                            let t = BulletTag { id: owned(id), tag: crate::text::to_lowercase(tag) };
                            let ghost before = bullet_tags@;
                            bullet_tags.push(t);
                            proof {
                                assert(tags_view(bullet_tags@) =~= tags_view(before).push(
                                    (t.id@, t.tag@),
                                ));
                            }
                        },
                        _ => {},
                    }
                    i = i + 1;
                }
                proof {
                    assert(iv.take(items@.len() as int) =~= iv);
                }
            },
            _ => {
                assert(tags_view(bullet_tags@) =~= Seq::<(Seq<char>, Seq<char>)>::empty());
            },
        }
        ReflectorOutput {
            reasoning: text_of(data, "reasoning"),
            error_identification: text_of(data, "error_identification"),
            root_cause_analysis: text_of(data, "root_cause_analysis"),
            correct_approach: text_of(data, "correct_approach"),
            key_insight: text_of(data, "key_insight"),
            bullet_tags,
            raw: fields_copy(data),
        }
    }
}

/// Output from the curator role. `raw` holds the fields of the reply.
#[derive(Debug)]
pub struct CuratorOutput {
    pub delta: DeltaBatch,
    pub raw: Vec<(String, JsonValue)>,
}

impl CuratorOutput {
    /// The curator's output that a JSON reply holds: the batch it describes
    /// and its fields.
    pub fn from_json(data: &JsonValue) -> (r: Self)
        ensures
            r.delta.reasoning@ == batch_reasoning(data@),
            ops_view(r.delta.operations@) == batch_operations(data@),
            crate::json::field_views(r.raw@) == object_fields(data@),
    {
        let delta = DeltaBatch::from_json(data);
        CuratorOutput { delta, raw: fields_copy(data) }
    }
}

// ---------------------------------------------------------------------------
// What a JSON form reads back as
// ---------------------------------------------------------------------------

/// Whether each metadata key occurs once (what a map holds).
pub open spec fn distinct_keys(m: Seq<(Seq<char>, i64)>) -> bool {
    forall|i: int, j: int| 0 <= i < j < m.len() ==> #[trigger] m[i].0 != #[trigger] m[j].0
}

/// An operation whose JSON form reads back as itself: its metadata keys
/// occur once, and a `TAG` operation holds only the tags it counts.
pub open spec fn round_trips(op: DeltaOperationView) -> bool {
    &&& distinct_keys(op.metadata)
    &&& op.op_type == DeltaOperationType::Tag ==> forall|i: int|
        0 <= i < op.metadata.len() ==> is_valid_tag(#[trigger] op.metadata[i].0)
}

proof fn lemma_meta_index_absent(m: Seq<(Seq<char>, i64)>, k: Seq<char>)
    requires
        forall|i: int| 0 <= i < m.len() ==> #[trigger] m[i].0 != k,
    ensures
        meta_index(m, k) is None,
    decreases m.len(),
{
    if m.len() > 0 {
        assert(m.last().0 != k);
        lemma_meta_index_absent(m.drop_last(), k);
    }
}

proof fn lemma_meta_round_trip(m: Seq<(Seq<char>, i64)>, t: DeltaOperationType)
    requires
        distinct_keys(m),
        t == DeltaOperationType::Tag ==> forall|i: int| 0 <= i < m.len() ==> is_valid_tag(#[trigger] m[i].0),
    ensures
        meta_of(meta_json(m), t) == m,
    decreases m.len(),
{
    if m.len() > 0 {
        let p = m.drop_last();
        assert(meta_json(m).drop_last() =~= meta_json(p));
        lemma_meta_round_trip(p, t);
        let (k, n) = m.last();
        assert(meta_json(m).last() == (k, Json::Number(int_text(n as int))));
        crate::json::lemma_int_text(n);
        assert forall|i: int| 0 <= i < p.len() implies #[trigger] p[i].0 != k by {
            assert(m[i].0 != m[m.len() - 1].0);
        }
        lemma_meta_index_absent(p, k);
        if t == DeltaOperationType::Tag {
            assert(is_valid_tag(m[m.len() - 1].0));
        }
        assert(p.push((k, n)) =~= m);
    } else {
        assert(meta_json(m) =~= Seq::<(Seq<char>, Json)>::empty());
    }
}

proof fn lemma_names()
    ensures
        "type"@ != "section"@,
        "type"@ != "content"@,
        "type"@ != "bullet_id"@,
        "type"@ != "metadata"@,
        "section"@ != "content"@,
        "section"@ != "bullet_id"@,
        "section"@ != "metadata"@,
        "content"@ != "bullet_id"@,
        "content"@ != "metadata"@,
        "bullet_id"@ != "metadata"@,
        "reasoning"@ != "operations"@,
        forall|t: DeltaOperationType| type_of_field(#[trigger] delta_type_name(t)) == Some(t),
{
    reveal_strlit("type");
    reveal_strlit("section");
    reveal_strlit("content");
    reveal_strlit("bullet_id");
    reveal_strlit("metadata");
    reveal_strlit("reasoning");
    reveal_strlit("operations");
    reveal_strlit("ADD");
    reveal_strlit("UPDATE");
    reveal_strlit("TAG");
    reveal_strlit("REMOVE");
    assert("type"@.len() == 4 && "section"@.len() == 7 && "content"@.len() == 7);
    assert("section"@[0] != "content"@[0]);
    assert("bullet_id"@.len() == 9 && "metadata"@.len() == 8);
    assert("reasoning"@.len() == 9 && "operations"@.len() == 10);
    assert("ADD"@[0] != "TAG"@[0]);
    assert("ADD"@.len() == 3 && "UPDATE"@.len() == 6 && "TAG"@.len() == 3 && "REMOVE"@.len() == 6);
    assert("UPDATE"@[0] != "REMOVE"@[0]);
    assert forall|t: DeltaOperationType| type_of_field(#[trigger] delta_type_name(t)) == Some(t) by {
        let n = delta_type_name(t);
        assert forall|i: int| 0 <= i < n.len() implies (#[trigger] n[i] as u32) < 128 by {
            assert('A' <= n[i] && n[i] <= 'Z');
        }
        assert(is_ascii_text(n));
        assert(n.map_values(|c: char| ascii_upper(c)) =~= n);
    }
}

/// A delta operation reads back from its JSON form as itself, where its
/// metadata keys occur once and, for a `TAG` operation, are all counted
/// tags.
pub proof fn law_delta_operation_round_trip(op: DeltaOperationView)
    requires
        round_trips(op),
    ensures
        parsed_operation(operation_json(op)) == Some(op),
{
    lemma_names();
    let base = seq![
        ("type"@, Json::Str(delta_type_name(op.op_type))),
        ("section"@, Json::Str(op.section)),
    ];
    let with_content = match op.content {
        Some(c) => base.push(("content"@, Json::Str(c))),
        None => base,
    };
    let with_id = match op.bullet_id {
        Some(b) => with_content.push(("bullet_id"@, Json::Str(b))),
        None => with_content,
    };
    let fs = if op.metadata.len() > 0 {
        with_id.push(("metadata"@, Json::Object(meta_json(op.metadata))))
    } else {
        with_id
    };
    assert(operation_json(op) == Json::Object(fs));
    crate::json::lemma_field_at(fs, "type"@, 0);
    crate::json::lemma_field_at(fs, "section"@, 1);
    match op.content {
        Some(c) => crate::json::lemma_field_at(fs, "content"@, 2),
        None => crate::json::lemma_field_absent(fs, "content"@),
    }
    let id_at = with_content.len() as int;
    match op.bullet_id {
        Some(b) => crate::json::lemma_field_at(fs, "bullet_id"@, id_at),
        None => crate::json::lemma_field_absent(fs, "bullet_id"@),
    }
    if op.metadata.len() > 0 {
        crate::json::lemma_field_at(fs, "metadata"@, with_id.len() as int);
        lemma_meta_round_trip(op.metadata, op.op_type);
    } else {
        crate::json::lemma_field_absent(fs, "metadata"@);
    }
    let pv = parsed_operation(operation_json(op))->Some_0;
    assert(pv.metadata == op.metadata);
    assert(pv.section == op.section);
}

proof fn lemma_operations_round_trip(ops: Seq<DeltaOperationView>)
    requires
        forall|i: int| 0 <= i < ops.len() ==> round_trips(#[trigger] ops[i]),
    ensures
        parsed_operations(ops.map_values(|op: DeltaOperationView| operation_json(op))) == ops,
    decreases ops.len(),
{
    if ops.len() > 0 {
        let p = ops.drop_last();
        let js = ops.map_values(|op: DeltaOperationView| operation_json(op));
        assert(js.drop_last() =~= p.map_values(|op: DeltaOperationView| operation_json(op)));
        lemma_operations_round_trip(p);
        law_delta_operation_round_trip(ops.last());
        assert(p.push(ops.last()) =~= ops);
    } else {
        assert(ops.map_values(|op: DeltaOperationView| operation_json(op)) =~= Seq::<Json>::empty());
    }
}

/// A batch reads back from its JSON form as itself, where each of its
/// operations does.
pub proof fn law_delta_batch_round_trip(reasoning: Seq<char>, ops: Seq<DeltaOperationView>)
    requires
        forall|i: int| 0 <= i < ops.len() ==> round_trips(#[trigger] ops[i]),
    ensures
        batch_reasoning(batch_json(reasoning, ops)) == reasoning,
        batch_operations(batch_json(reasoning, ops)) == ops,
{
    lemma_names();
    let fs = seq![
        ("reasoning"@, Json::Str(reasoning)),
        ("operations"@, Json::Array(ops.map_values(|op: DeltaOperationView| operation_json(op)))),
    ];
    crate::json::lemma_field_at(fs, "reasoning"@, 0);
    crate::json::lemma_field_at(fs, "operations"@, 1);
    lemma_operations_round_trip(ops);
}

} // verus!
