//! JSON values as the library reads and builds them: messages, memory
//! deltas, configuration documents. A number is kept as the text that
//! `serde_json` writes for it, so no floating point enters the logic.
use vstd::prelude::*;

use crate::text::{owned, str_eq, string_of};

verus! {

/// A JSON value. A number is kept as its JSON text.
#[derive(Debug)]
pub enum JsonValue {
    Null,
    Bool(bool),
    Number(String),
    Str(String),
    Array(Vec<JsonValue>),
    Object(Vec<(String, JsonValue)>),
}

/// The mathematical form of a JSON value.
pub enum Json {
    Null,
    Bool(bool),
    Number(Seq<char>),
    Str(Seq<char>),
    Array(Seq<Json>),
    Object(Seq<(Seq<char>, Json)>),
}

/// The number of items of an array or fields of an object.
pub open spec fn width(v: JsonValue) -> nat {
    match v {
        JsonValue::Array(xs) => xs@.len(),
        JsonValue::Object(m) => m@.len(),
        _ => 0,
    }
}

/// The mathematical form of `v`.
pub open spec fn json_of(v: JsonValue) -> Json
    decreases v, width(v) + 1,
{
    match v {
        JsonValue::Null => Json::Null,
        JsonValue::Bool(b) => Json::Bool(b),
        JsonValue::Number(n) => Json::Number(n@),
        JsonValue::Str(s) => Json::Str(s@),
        JsonValue::Array(_) => Json::Array(items_of(v, 0)),
        JsonValue::Object(_) => Json::Object(fields_of(v, 0)),
    }
}

/// The forms of the items of array `v` from position `i` on.
pub open spec fn items_of(v: JsonValue, i: int) -> Seq<Json>
    decreases v, width(v) - i,
{
    match v {
        JsonValue::Array(xs) => if 0 <= i < xs@.len() {
            proof {
                assert(decreases_to!(v => xs));
                assert(decreases_to!(xs => xs@[i]));
            }
            seq![json_of(xs@[i])] + items_of(v, i + 1)
        } else {
            Seq::empty()
        },
        _ => Seq::empty(),
    }
}

/// The forms of the fields of object `v` from position `i` on.
pub open spec fn fields_of(v: JsonValue, i: int) -> Seq<(Seq<char>, Json)>
    decreases v, width(v) - i,
{
    match v {
        JsonValue::Object(m) => if 0 <= i < m@.len() {
            proof {
                assert(decreases_to!(v => m));
                assert(decreases_to!(m => m@[i]));
                assert(decreases_to!(m@[i] => m@[i].1));
            }
            seq![(m@[i].0@, json_of(m@[i].1))] + fields_of(v, i + 1)
        } else {
            Seq::empty()
        },
        _ => Seq::empty(),
    }
}

impl View for JsonValue {
    type V = Json;

    open spec fn view(&self) -> Json {
        json_of(*self)
    }
}

/// The value of the first field named `key`, if any.
pub open spec fn field(fs: Seq<(Seq<char>, Json)>, key: Seq<char>) -> Option<Json>
    decreases fs.len(),
{
    if fs.len() == 0 {
        None
    } else if fs[0].0 == key {
        Some(fs[0].1)
    } else {
        field(fs.drop_first(), key)
    }
}

/// The index of the first field named `key`, if any.
pub open spec fn field_index(fs: Seq<(Seq<char>, Json)>, key: Seq<char>) -> Option<int>
    decreases fs.len(),
{
    if fs.len() == 0 {
        None
    } else if fs[0].0 == key {
        Some(0)
    } else {
        match field_index(fs.drop_first(), key) {
            Some(i) => Some(i + 1),
            None => None,
        }
    }
}

/// `j[key]` where `j` is an object (what `Value::get` with a key gives).
pub open spec fn get(j: Json, key: Seq<char>) -> Option<Json> {
    match j {
        Json::Object(fs) => field(fs, key),
        _ => None,
    }
}

/// The text of `j[key]`, where that is a string.
pub open spec fn get_str(j: Json, key: Seq<char>) -> Option<Seq<char>> {
    match get(j, key) {
        Some(Json::Str(s)) => Some(s),
        _ => None,
    }
}

/// The object `fs` with field `key` set to `v`: replaced in place where it
/// exists, added at the end where not.
pub open spec fn set_field(fs: Seq<(Seq<char>, Json)>, key: Seq<char>, v: Json) -> Seq<(Seq<char>, Json)> {
    match field_index(fs, key) {
        Some(i) => fs.update(i, (key, v)),
        None => fs.push((key, v)),
    }
}

/// `j` with `j[key] = v`, where `j` is an object.
pub open spec fn put(j: Json, key: Seq<char>, v: Json) -> Json {
    match j {
        Json::Object(fs) => Json::Object(set_field(fs, key, v)),
        _ => j,
    }
}

pub proof fn lemma_field_index(fs: Seq<(Seq<char>, Json)>, key: Seq<char>)
    ensures
        match field_index(fs, key) {
            Some(i) => 0 <= i < fs.len() && fs[i].0 == key && field(fs, key) == Some(fs[i].1)
                && forall|k: int| 0 <= k < i ==> fs[k].0 != key,
            None => field(fs, key) is None && forall|k: int| 0 <= k < fs.len() ==> fs[k].0 != key,
        },
    decreases fs.len(),
{
    if fs.len() > 0 && fs[0].0 != key {
        let t = fs.drop_first();
        lemma_field_index(t, key);
        match field_index(t, key) {
            Some(i) => {
                assert forall|k: int| 0 <= k < i + 1 implies fs[k].0 != key by {
                    if k > 0 {
                        assert(fs[k] == t[k - 1]);
                    }
                }
            },
            None => {
                assert forall|k: int| 0 <= k < fs.len() implies fs[k].0 != key by {
                    if k > 0 {
                        assert(fs[k] == t[k - 1]);
                    }
                }
            },
        }
    }
}

pub proof fn lemma_field_at(fs: Seq<(Seq<char>, Json)>, key: Seq<char>, i: int)
    requires
        0 <= i < fs.len(),
        fs[i].0 == key,
        forall|k: int| 0 <= k < i ==> fs[k].0 != key,
    ensures
        field_index(fs, key) == Some(i),
        field(fs, key) == Some(fs[i].1),
{
    lemma_field_index(fs, key);
}

pub proof fn lemma_field_absent(fs: Seq<(Seq<char>, Json)>, key: Seq<char>)
    requires
        forall|k: int| 0 <= k < fs.len() ==> fs[k].0 != key,
    ensures
        field_index(fs, key) is None,
        field(fs, key) is None,
{
    lemma_field_index(fs, key);
}

/// The views of a list of values.
pub open spec fn views(vs: Seq<JsonValue>) -> Seq<Json> {
    vs.map_values(|v: JsonValue| v@)
}

/// The views of an object's fields.
pub open spec fn field_views(fs: Seq<(String, JsonValue)>) -> Seq<(Seq<char>, Json)> {
    fs.map_values(|f: (String, JsonValue)| (f.0@, f.1@))
}

proof fn lemma_items_of(xs: Vec<JsonValue>, i: int)
    requires
        0 <= i <= xs@.len(),
    ensures
        items_of(JsonValue::Array(xs), i) == views(xs@).skip(i),
    decreases xs@.len() - i,
{
    let v = JsonValue::Array(xs);
    if i < xs@.len() {
        lemma_items_of(xs, i + 1);
        assert(items_of(v, i) =~= views(xs@).skip(i));
    } else {
        assert(items_of(v, i) =~= views(xs@).skip(i));
    }
}

proof fn lemma_fields_of(m: Vec<(String, JsonValue)>, i: int)
    requires
        0 <= i <= m@.len(),
    ensures
        fields_of(JsonValue::Object(m), i) == field_views(m@).skip(i),
    decreases m@.len() - i,
{
    let v = JsonValue::Object(m);
    if i < m@.len() {
        lemma_fields_of(m, i + 1);
        assert(fields_of(v, i) =~= field_views(m@).skip(i));
    } else {
        assert(fields_of(v, i) =~= field_views(m@).skip(i));
    }
}

pub proof fn lemma_object_view(fs: Vec<(String, JsonValue)>)
    ensures
        JsonValue::Object(fs)@ == Json::Object(field_views(fs@)),
{
    lemma_fields_of(fs, 0);
    assert(field_views(fs@).skip(0) =~= field_views(fs@));
}

pub proof fn lemma_array_view(vs: Vec<JsonValue>)
    ensures
        JsonValue::Array(vs)@ == Json::Array(views(vs@)),
{
    lemma_items_of(vs, 0);
    assert(views(vs@).skip(0) =~= views(vs@));
}

/// The value of field `key` of a list of fields.
pub fn fields_get<'a>(fs: &'a Vec<(String, JsonValue)>, key: &str) -> (r: Option<&'a JsonValue>)
    ensures
        match r {
            Some(v) => field(field_views(fs@), key@) == Some(v@),
            None => field(field_views(fs@), key@) is None,
        },
{
    let ghost fv = field_views(fs@);
    let mut i: usize = 0;
    while i < fs.len()
        invariant
            i <= fs@.len(),
            fv == field_views(fs@),
            forall|k: int| 0 <= k < i ==> fv[k].0 != key@,
        decreases fs@.len() - i,
    {
        if str_eq(fs[i].0.as_str(), key) {
            proof {
                assert(fv[i as int] == (fs@[i as int].0@, fs@[i as int].1@));
                lemma_field_at(fv, key@, i as int);
            }
            return Some(&fs[i].1);
        }
        i = i + 1;
    }
    proof {
        lemma_field_absent(fv, key@);
    }
    None
}

/// The text of field `key` of a list of fields, where it is text.
pub fn fields_get_str<'a>(fs: &'a Vec<(String, JsonValue)>, key: &str) -> (r: Option<&'a str>)
    ensures
        match r {
            Some(s) => get_str(Json::Object(field_views(fs@)), key@) == Some(s@),
            None => get_str(Json::Object(field_views(fs@)), key@) is None,
        },
{
    match fields_get(fs, key) {
        Some(v) => v.as_str(),
        None => None,
    }
}

impl JsonValue {
    /// A string value.
    pub fn string(s: &str) -> (r: JsonValue)
        ensures
            r@ == Json::Str(s@),
    {
        JsonValue::Str(owned(s))
    }

    /// An object with the given fields, in order.
    pub fn object(fields: Vec<(String, JsonValue)>) -> (r: JsonValue)
        ensures
            r@ == Json::Object(field_views(fields@)),
    {
        proof {
            lemma_object_view(fields);
        }
        JsonValue::Object(fields)
    }

    /// An array of the given items, in order.
    pub fn array(items: Vec<JsonValue>) -> (r: JsonValue)
        ensures
            r@ == Json::Array(views(items@)),
    {
        proof {
            lemma_array_view(items);
        }
        JsonValue::Array(items)
    }

    /// A copy of the value.
    pub fn duplicate(&self) -> (r: JsonValue)
        ensures
            r@ == self@,
        decreases self,
    {
        match self {
            JsonValue::Null => JsonValue::Null,
            JsonValue::Bool(b) => JsonValue::Bool(*b),
            JsonValue::Number(n) => JsonValue::Number(n.clone()),
            JsonValue::Str(s) => JsonValue::Str(s.clone()),
            JsonValue::Array(v) => {
                let mut out: Vec<JsonValue> = Vec::new();
                let mut i: usize = 0;
                while i < v.len()
                    invariant
                        i <= v@.len(),
                        *self == JsonValue::Array(*v),
                        views(out@) == views(v@).take(i as int),
                    decreases v@.len() - i,
                {
                    proof {
                        assert(decreases_to!(*self => self->Array_0));
                        assert(decreases_to!(self->Array_0 => v@[i as int]));
                    }
                    let c = v[i].duplicate();
                    let ghost before = out@;
                    out.push(c);
                    proof {
                        assert(out@ == before.push(c));
                        assert(views(out@) =~= views(before).push(c@));
                        assert(views(v@).take(i + 1) =~= views(v@).take(i as int).push(v@[i as int]@));
                    }
                    i = i + 1;
                }
                proof {
                    assert(views(v@).take(v@.len() as int) =~= views(v@));
                    lemma_array_view(out);
                    lemma_array_view(*v);
                }
                JsonValue::Array(out)
            },
            JsonValue::Object(m) => {
                let mut out: Vec<(String, JsonValue)> = Vec::new();
                let mut i: usize = 0;
                while i < m.len()
                    invariant
                        i <= m@.len(),
                        *self == JsonValue::Object(*m),
                        field_views(out@) == field_views(m@).take(i as int),
                    decreases m@.len() - i,
                {
                    proof {
                        assert(decreases_to!(*self => self->Object_0));
                        assert(decreases_to!(self->Object_0 => m@[i as int]));
                        assert(decreases_to!(m@[i as int] => m@[i as int].1));
                    }
                    let c = m[i].1.duplicate();
                    let k = m[i].0.clone();
                    let ghost before = out@;
                    out.push((k, c));
                    proof {
                        assert(out@ == before.push((k, c)));
                        assert(field_views(out@) =~= field_views(before).push((k@, c@)));
                        assert(field_views(m@).take(i + 1) =~= field_views(m@).take(i as int).push(
                            (m@[i as int].0@, m@[i as int].1@),
                        ));
                    }
                    i = i + 1;
                }
                proof {
                    assert(field_views(m@).take(m@.len() as int) =~= field_views(m@));
                    lemma_object_view(out);
                    lemma_object_view(*m);
                }
                JsonValue::Object(out)
            },
        }
    }

    /// The position of field `key` in an object.
    fn position(&self, key: &str) -> (r: Option<usize>)
        ensures
            match self@ {
                Json::Object(fs) => match r {
                    Some(i) => field_index(fs, key@) == Some(i as int) && i < fs.len(),
                    None => field_index(fs, key@) is None,
                },
                _ => r is None,
            },
    {
        match self {
            JsonValue::Object(m) => {
                proof {
                    lemma_object_view(*m);
                }
                let ghost fs = field_views(m@);
                let mut i: usize = 0;
                while i < m.len()
                    invariant
                        i <= m@.len(),
                        fs == field_views(m@),
                        self@ == Json::Object(fs),
                        forall|k: int| 0 <= k < i ==> fs[k].0 != key@,
                    decreases m@.len() - i,
                {
                    if str_eq(m[i].0.as_str(), key) {
                        proof {
                            lemma_field_at(fs, key@, i as int);
                        }
                        return Some(i);
                    }
                    i = i + 1;
                }
                proof {
                    lemma_field_absent(fs, key@);
                }
                None
            },
            _ => None,
        }
    }

    /// `self[key]`, where `self` is an object holding that field.
    pub fn get(&self, key: &str) -> (r: Option<&JsonValue>)
        ensures
            match r {
                Some(v) => get(self@, key@) == Some(v@),
                None => get(self@, key@) is None,
            },
    {
        let pos = self.position(key);
        match self {
            JsonValue::Object(m) => {
                proof {
                    lemma_object_view(*m);
                    lemma_field_index(field_views(m@), key@);
                }
                match pos {
                    Some(i) => {
                        assert(field_views(m@)[i as int] == (m@[i as int].0@, m@[i as int].1@));
                        Some(&m[i].1)
                    },
                    None => None,
                }
            },
            _ => None,
        }
    }

    /// The text of a string value.
    pub fn as_str(&self) -> (r: Option<&str>)
        ensures
            match r {
                Some(s) => self@ == Json::Str(s@),
                None => !(self@ is Str),
            },
    {
        match self {
            JsonValue::Str(s) => Some(s.as_str()),
            _ => None,
        }
    }

    /// The text of `self[key]`, where that is a string.
    pub fn get_str(&self, key: &str) -> (r: Option<&str>)
        ensures
            match r {
                Some(s) => get_str(self@, key@) == Some(s@),
                None => get_str(self@, key@) is None,
            },
    {
        match self.get(key) {
            Some(v) => v.as_str(),
            None => None,
        }
    }

    /// Sets `self[key] = v` in an object.
    pub fn put(&mut self, key: &str, v: JsonValue)
        requires
            old(self)@ is Object,
        ensures
            final(self)@ == put(old(self)@, key@, v@),
    {
        let pos = self.position(key);
        let ghost fs = old(self)@->Object_0;
        match self {
            JsonValue::Object(m) => {
                proof {
                    lemma_object_view(*m);
                }
                match pos {
                    Some(i) => {
                        m.set(i, (owned(key), v));
                        proof {
                            assert(field_views(m@) =~= fs.update(i as int, (key@, v@)));
                            lemma_object_view(*m);
                        }
                    },
                    None => {
                        m.push((owned(key), v));
                        proof {
                            assert(field_views(m@) =~= fs.push((key@, v@)));
                            lemma_object_view(*m);
                        }
                    },
                }
            },
            _ => {},
        }
    }
}

/// The fields of `fs` other than those named `key`, in order.
pub open spec fn without_field(fs: Seq<(Seq<char>, Json)>, key: Seq<char>) -> Seq<(Seq<char>, Json)>
    decreases fs.len(),
{
    if fs.len() == 0 {
        Seq::empty()
    } else {
        let r = without_field(fs.drop_last(), key);
        if fs.last().0 == key {
            r
        } else {
            r.push(fs.last())
        }
    }
}

/// `j` without its fields named `key`, where `j` is an object
/// (`Map::remove`); any other value unchanged.
pub open spec fn remove_key(j: Json, key: Seq<char>) -> Json {
    match j {
        Json::Object(fs) => Json::Object(without_field(fs, key)),
        _ => j,
    }
}

/// Looking `k` up after a field is added at the end.
pub proof fn lemma_field_push(fs: Seq<(Seq<char>, Json)>, x: (Seq<char>, Json), k: Seq<char>)
    ensures
        field(fs.push(x), k) == (if field(fs, k) is Some {
            field(fs, k)
        } else if x.0 == k {
            Some(x.1)
        } else {
            None
        }),
    decreases fs.len(),
{
    if fs.len() > 0 {
        assert(fs.push(x)[0] == fs[0]);
        assert(fs.push(x).drop_first() =~= fs.drop_first().push(x));
        lemma_field_push(fs.drop_first(), x, k);
    } else {
        assert(fs.push(x)[0] == x);
        assert(fs.push(x).drop_first() =~= Seq::<(Seq<char>, Json)>::empty());
        assert(field(fs.push(x).drop_first(), k) is None);
    }
}

/// No field named `key` is left once they are removed.
pub proof fn lemma_without_field_gone(fs: Seq<(Seq<char>, Json)>, key: Seq<char>)
    ensures
        field(without_field(fs, key), key) is None,
    decreases fs.len(),
{
    if fs.len() > 0 {
        lemma_without_field_gone(fs.drop_last(), key);
        if fs.last().0 != key {
            lemma_field_push(without_field(fs.drop_last(), key), fs.last(), key);
        }
    }
}

/// Removing the fields named `key` leaves the lookup of any other name as
/// it was.
pub proof fn lemma_without_field_other(fs: Seq<(Seq<char>, Json)>, key: Seq<char>, k: Seq<char>)
    requires
        k != key,
    ensures
        field(without_field(fs, key), k) == field(fs, k),
    decreases fs.len(),
{
    if fs.len() > 0 {
        let s = fs.drop_last();
        let x = fs.last();
        assert(s.push(x) =~= fs);
        lemma_without_field_other(s, key, k);
        lemma_field_push(s, x, k);
        if x.0 != key {
            lemma_field_push(without_field(s, key), x, k);
        }
    }
}

/// Setting a field makes it the value found under its name.
pub proof fn lemma_set_field_found(fs: Seq<(Seq<char>, Json)>, key: Seq<char>, v: Json)
    ensures
        field(set_field(fs, key, v), key) == Some(v),
{
    lemma_field_index(fs, key);
    match field_index(fs, key) {
        Some(i) => {
            let t = fs.update(i, (key, v));
            lemma_field_at(t, key, i);
        },
        None => {
            let t = fs.push((key, v));
            assert forall|k: int| 0 <= k < fs.len() implies t[k].0 != key by {
                assert(t[k] == fs[k]);
            }
            lemma_field_at(t, key, fs.len() as int);
        },
    }
}

impl JsonValue {
    /// Removes the fields named `key` from an object; any other value is
    /// left as it is.
    pub fn remove(&mut self, key: &str)
        ensures
            final(self)@ == remove_key(old(self)@, key@),
    {
        match self {
            JsonValue::Object(m) => {
                proof {
                    lemma_object_view(*m);
                }
                let ghost fs = field_views(m@);
                let mut i: usize = 0;
                let ghost mut j: int = 0;
                while i < m.len()
                    invariant
                        i <= m@.len(),
                        0 <= j <= fs.len(),
                        field_views(m@).take(i as int) == without_field(fs.take(j), key@),
                        field_views(m@).skip(i as int) == fs.skip(j),
                    decreases m@.len() - i,
                {
                    let ghost before = m@;
                    proof {
                        assert(field_views(before).len() == before.len());
                        assert(field_views(before).skip(i as int).len() == before.len() - i);
                        assert(j < fs.len());
                        assert(field_views(before).skip(i as int)[0] == fs.skip(j)[0]);
                        assert(field_views(before)[i as int] == fs[j]);
                        assert(fs.take(j + 1).drop_last() =~= fs.take(j));
                        assert(fs.take(j + 1).last() == fs[j]);
                    }
                    if str_eq(m[i].0.as_str(), key) {
                        m.remove(i);
                        proof {
                            assert(field_views(m@).take(i as int) =~= field_views(before).take(i as int));
                            assert forall|k: int| 0 <= k < field_views(m@).skip(i as int).len() implies
                                #[trigger] field_views(m@).skip(i as int)[k] == fs.skip(j + 1)[k] by {
                                assert(field_views(before).skip(i as int)[k + 1] == fs.skip(j)[k + 1]);
                            }
                            assert(field_views(m@).skip(i as int) =~= fs.skip(j + 1));
                            j = j + 1;
                        }
                    } else {
                        proof {
                            assert(field_views(m@).take(i + 1) =~= field_views(m@).take(i as int).push(fs[j]));
                            assert forall|k: int| 0 <= k < field_views(m@).skip(i + 1).len() implies
                                #[trigger] field_views(m@).skip(i + 1)[k] == fs.skip(j + 1)[k] by {
                                assert(field_views(before).skip(i as int)[k + 1] == fs.skip(j)[k + 1]);
                            }
                            assert(field_views(m@).skip(i + 1) =~= fs.skip(j + 1));
                            j = j + 1;
                        }
                        i = i + 1;
                    }
                }
                proof {
                    assert(field_views(m@) =~= field_views(m@).take(i as int));
                    assert(fs.take(j) =~= fs);
                    lemma_object_view(*m);
                }
            },
            _ => {},
        }
    }
}

/// The unsigned integer that a number's text holds, where it is one that
/// fits in 64 bits (`serde_json` writes such a number as bare digits).
pub open spec fn number_u64(t: Seq<char>) -> Option<u64> {
    if t.len() > 0 && t[0] == '+' {
        None
    } else {
        crate::config_loader::parsed_u64(t)
    }
}

/// The unsigned integer that `v` holds, where it is one (`Value::as_u64`).
pub open spec fn as_u64(v: Json) -> Option<u64> {
    match v {
        Json::Number(t) => number_u64(t),
        _ => None,
    }
}

impl JsonValue {
    /// The unsigned integer that the value holds, where it is one.
    pub fn as_u64(&self) -> (r: Option<u64>)
        ensures
            r == as_u64(self@),
    {
        match self {
            JsonValue::Number(t) => {
                let cs = crate::text::chars_of(t.as_str());
                if cs.len() > 0 && cs[0] == '+' {
                    None
                } else {
                    crate::config_loader::parse_u64(t.as_str())
                }
            },
            _ => None,
        }
    }

    /// A number value holding `n`.
    pub fn from_u64(n: u64) -> (r: JsonValue)
        ensures
            r@ == Json::Number(crate::text::decimal(n as nat)),
    {
        let mut t = String::new();
        crate::text::push_decimal(&mut t, n);
        JsonValue::Number(t)
    }
}

/// The signed integer that a number's text holds, where it is one that fits
/// in 64 bits (`serde_json` writes such a number as digits after an
/// optional `-`).
pub open spec fn number_i64(t: Seq<char>) -> Option<i64> {
    if t.len() > 0 && t[0] == '-' {
        let d = t.skip(1);
        if d.len() > 0 && crate::config_loader::all_digits(d) && crate::config_loader::digits_value(d)
            <= 0x8000_0000_0000_0000 {
            Some((0 - crate::config_loader::digits_value(d)) as i64)
        } else {
            None
        }
    } else {
        match number_u64(t) {
            Some(u) => if u <= 0x7fff_ffff_ffff_ffff {
                Some(u as i64)
            } else {
                None
            },
            None => None,
        }
    }
}

/// The signed integer that `v` holds, where it is one (`Value::as_i64`).
pub open spec fn as_i64(v: Json) -> Option<i64> {
    match v {
        Json::Number(t) => number_i64(t),
        _ => None,
    }
}

/// The text of an integer, as `Display` prints it.
pub open spec fn int_text(n: int) -> Seq<char> {
    if n < 0 {
        seq!['-'] + crate::text::decimal((0 - n) as nat)
    } else {
        crate::text::decimal(n as nat)
    }
}

pub proof fn lemma_decimal_digits(n: nat)
    ensures
        crate::text::decimal(n).len() > 0,
        crate::config_loader::all_digits(crate::text::decimal(n)),
        crate::config_loader::digits_value(crate::text::decimal(n)) == n,
    decreases n,
{
    let d = crate::text::decimal(n);
    if n >= 10 {
        lemma_decimal_digits(n / 10);
        let p = crate::text::decimal(n / 10);
        assert(d == p.push(crate::text::digit(n % 10)));
        assert(d.drop_last() =~= p);
        let k = n % 10;
        assert(crate::text::digit(k) as nat - '0' as nat == k);
        assert(crate::config_loader::digits_value(d) == crate::config_loader::digits_value(p) * 10 + k);
        assert((n / 10) * 10 + k == n);
        assert forall|i: int| 0 <= i < d.len() implies '0' <= #[trigger] d[i] && d[i] <= '9' by {
            if i < p.len() {
                assert(d[i] == p[i]);
            }
        }
    } else {
        assert(d.drop_last() =~= Seq::<char>::empty());
        assert(crate::text::digit(n) as nat - '0' as nat == n);
        reveal_with_fuel(crate::config_loader::digits_value, 2);
    }
}

/// The text of an unsigned integer reads back as that integer.
pub proof fn lemma_u64_text(n: u64)
    ensures
        number_u64(crate::text::decimal(n as nat)) == Some(n),
{
    lemma_decimal_digits(n as nat);
    let t = crate::text::decimal(n as nat);
    assert('0' <= t[0] && t[0] <= '9');
}

pub proof fn lemma_int_text(n: i64)
    ensures
        number_i64(int_text(n as int)) == Some(n),
{
    if n < 0 {
        let m = (0 - n) as nat;
        lemma_decimal_digits(m);
        let t = int_text(n as int);
        assert(t.skip(1) =~= crate::text::decimal(m));
    } else {
        lemma_decimal_digits(n as nat);
        let t = crate::text::decimal(n as nat);
        assert(t[0] != '+');
    }
}

impl JsonValue {
    /// The signed integer that the value holds, where it is one.
    pub fn as_i64(&self) -> (r: Option<i64>)
        ensures
            r == as_i64(self@),
    {
        match self {
            JsonValue::Number(t) => {
                let cs = crate::text::chars_of(t.as_str());
                if cs.len() > 0 && cs[0] == '-' {
                    let rest = crate::text::slice_range(cs.as_slice(), 1, cs.len());
                    proof {
                        assert(rest@ =~= t@.skip(1));
                    }
                    if rest.len() > 0 && rest[0] == '+' {
                        proof {
                            assert(!crate::config_loader::all_digits(rest@));
                        }
                        return None;
                    }
                    let rs = string_of(rest.as_slice());
                    match crate::config_loader::parse_u64(rs.as_str()) {
                        Some(u) => {
                            if u <= 0x8000_0000_0000_0000 {
                                proof {
                                    assert(rs@ == t@.skip(1));
                                }
                                let v: i128 = 0 - (u as i128);
                                Some(v as i64)
                            } else {
                                None
                            }
                        },
                        None => None,
                    }
                } else {
                    match self.as_u64() {
                        Some(u) => {
                            if u <= 0x7fff_ffff_ffff_ffff {
                                Some(u as i64)
                            } else {
                                None
                            }
                        },
                        None => None,
                    }
                }
            },
            _ => None,
        }
    }

    /// A number value holding `n`.
    pub fn from_i64(n: i64) -> (r: JsonValue)
        ensures
            r@ == Json::Number(int_text(n as int)),
    {
        let mut t = String::new();
        if n < 0 {
            crate::text::push_char(&mut t, '-');
            let m: i128 = 0 - (n as i128);
            crate::text::push_decimal(&mut t, m as u64);
            proof {
                assert(t@ =~= seq!['-'] + crate::text::decimal((0 - n) as nat));
            }
        } else {
            crate::text::push_decimal(&mut t, n as u64);
        }
        JsonValue::Number(t)
    }
}

// ---------------------------------------------------------------------------
// JSON text (serde_json)
// ---------------------------------------------------------------------------

/// The JSON text that `serde_json` writes for `v` through `Display`:
/// compact, strings escaped, object keys in the order of its `Map`.
pub uninterp spec fn json_text(v: Json) -> Seq<char>;

/// The `serde_json::Value` that holds the same JSON as `v`; a number whose
/// text `serde_json` does not read as a number becomes `null`. Nothing is
/// stated of the result: it only feeds `serde_json`'s writer below.
#[verifier::external_body]
fn serde_value_of(v: &JsonValue) -> serde_json::Value {
    match v {
        JsonValue::Null => serde_json::Value::Null,
        JsonValue::Bool(b) => serde_json::Value::Bool(*b),
        JsonValue::Number(n) => n.parse::<serde_json::Number>().map(serde_json::Value::Number).unwrap_or(
            serde_json::Value::Null,
        ),
        JsonValue::Str(s) => serde_json::Value::String(s.clone()),
        JsonValue::Array(xs) => serde_json::Value::Array(xs.iter().map(serde_value_of).collect()),
        JsonValue::Object(fs) => serde_json::Value::Object(
            fs.iter().map(|(k, x)| (k.clone(), serde_value_of(x))).collect(),
        ),
    }
}

/// Calls `Value::to_string` (its `Display`) on the `serde_json` form of
/// `v`; the text is named by `json_text` and not stated here.
#[verifier::external_body]
pub(crate) fn to_json_text(v: &JsonValue) -> (r: String)
    ensures
        r@ == json_text(v@),
{
    serde_value_of(v).to_string()
}

/// What `serde_json::from_str::<Value>` gives for `text`: the value read,
/// or the text of its error.
pub uninterp spec fn json_parse(text: Seq<char>) -> Result<Json, Seq<char>>;

/// The library's form of a `serde_json::Value`: the same JSON, numbers
/// kept as the text `serde_json` writes for them, object fields in the
/// order of the `Map`. Nothing is stated of the result: it only carries what
/// `serde_json`'s reader gave back.
#[verifier::external_body]
fn json_value_from_serde(v: &serde_json::Value) -> JsonValue {
    match v {
        serde_json::Value::Null => JsonValue::Null,
        serde_json::Value::Bool(b) => JsonValue::Bool(*b),
        serde_json::Value::Number(n) => JsonValue::Number(n.to_string()),
        serde_json::Value::String(s) => JsonValue::Str(s.clone()),
        serde_json::Value::Array(xs) => JsonValue::Array(xs.iter().map(json_value_from_serde).collect()),
        serde_json::Value::Object(m) => JsonValue::Object(
            m.iter().map(|(k, x)| (k.clone(), json_value_from_serde(x))).collect(),
        ),
    }
}

/// Calls `serde_json::from_str::<Value>`; the outcome, the value or the
/// text of the error, is named by `json_parse` and not stated here.
#[verifier::external_body]
pub(crate) fn parse_json(text: &str) -> (r: Result<JsonValue, String>)
    ensures
        match (r, json_parse(text@)) {
            (Ok(v), Ok(j)) => v@ == j,
            (Err(e), Err(m)) => e@ == m,
            _ => false,
        },
{
    match serde_json::from_str::<serde_json::Value>(text) {
        Ok(v) => Ok(json_value_from_serde(&v)),
        Err(e) => Err(e.to_string()),
    }
}

} // verus!
