//! Query enhancement and message preparation for the REPL:
//! - `@` references are stripped from a query, and injected file text is
//!   appended to it;
//! - the message list for an LLM call is assembled: system prompt, session
//!   history, multimodal image blocks, learned-strategies context.
//! Reading the referenced files is the caller's part.
use vstd::prelude::*;

use crate::json::{get, get_str, put, Json, JsonValue};
use crate::text::{first_index, is_ws, owned, push_chars, push_str, str_eq, string_of};

verus! {

// ---------------------------------------------------------------------------
// `@` references
// ---------------------------------------------------------------------------

/// The characters that an unquoted `@` path is made of.
pub open spec fn is_path_char(c: char) -> bool {
    ('a' <= c && c <= 'z') || ('A' <= c && c <= 'Z') || ('0' <= c && c <= '9') || c == '_'
        || c == '.' || c == '/' || c == '-'
}

fn path_char(c: char) -> (r: bool)
    ensures
        r == is_path_char(c),
{
    ('a' <= c && c <= 'z') || ('A' <= c && c <= 'Z') || ('0' <= c && c <= '9') || c == '_'
        || c == '.' || c == '/' || c == '-'
}

/// The length of the run of path characters that `s` starts with.
pub open spec fn path_run(s: Seq<char>) -> nat
    decreases s.len(),
{
    if s.len() > 0 && is_path_char(s[0]) {
        1 + path_run(s.drop_first())
    } else {
        0
    }
}

pub proof fn lemma_path_run_bound(s: Seq<char>)
    ensures
        path_run(s) <= s.len(),
        forall|i: int| 0 <= i < path_run(s) ==> is_path_char(#[trigger] s[i]),
        path_run(s) < s.len() ==> !is_path_char(s[path_run(s) as int]),
    decreases s.len(),
{
    if s.len() > 0 && is_path_char(s[0]) {
        lemma_path_run_bound(s.drop_first());
        assert forall|i: int| 0 <= i < path_run(s) implies is_path_char(#[trigger] s[i]) by {
            if i > 0 {
                assert(s[i] == s.drop_first()[i - 1]);
            }
        }
        if path_run(s) < s.len() {
            assert(s[path_run(s) as int] == s.drop_first()[path_run(s) - 1]);
        }
    }
}

pub proof fn lemma_first_index_bound(s: Seq<char>, c: char)
    ensures
        first_index(s, c) matches Some(i) ==> 0 <= i < s.len() && s[i] == c,
    decreases s.len(),
{
    if s.len() > 0 && s[0] != c {
        lemma_first_index_bound(s.drop_first(), c);
    }
}

/// The length of the quoted text of `@"…"` at the start of `s`: the
/// characters before the first `"` after `@"`, where there is such a quote
/// and at least one character before it.
pub open spec fn quoted_len(s: Seq<char>) -> Option<nat> {
    if s.len() >= 2 && s[0] == '@' && s[1] == '"' {
        match first_index(s.skip(2), '"') {
            Some(k) => if k > 0 {
                Some(k as nat)
            } else {
                None
            },
            None => None,
        }
    } else {
        None
    }
}

/// `s` with every `@"path"` replaced by `path`, left to right.
pub open spec fn strip_quoted(s: Seq<char>) -> Seq<char>
    decreases s.len(),
{
    if s.len() == 0 {
        s
    } else {
        proof {
            lemma_first_index_bound(s.skip(2), '"');
        }
        match quoted_len(s) {
            Some(k) => s.subrange(2, 2 + k as int) + strip_quoted(s.skip(3 + k as int)),
            None => seq![s[0]] + strip_quoted(s.drop_first()),
        }
    }
}

/// `s` with the `@` dropped from every `@path` that starts the text
/// (`at_start`) or follows whitespace, left to right.
pub open spec fn strip_unquoted(s: Seq<char>, at_start: bool) -> Seq<char>
    decreases s.len(),
{
    if s.len() == 0 {
        s
    } else if at_start && s[0] == '@' && path_run(s.drop_first()) > 0 {
        proof {
            lemma_path_run_bound(s.drop_first());
        }
        let n = path_run(s.drop_first());
        s.subrange(1, 1 + n as int) + strip_unquoted(s.skip(1 + n as int), false)
    } else if is_ws(s[0]) && s.len() >= 2 && s[1] == '@' && path_run(s.skip(2)) > 0 {
        proof {
            lemma_path_run_bound(s.skip(2));
        }
        let n = path_run(s.skip(2));
        seq![s[0]] + s.subrange(2, 2 + n as int) + strip_unquoted(s.skip(2 + n as int), false)
    } else {
        seq![s[0]] + strip_unquoted(s.drop_first(), false)
    }
}

/// A query with its `@` references stripped: quoted ones first, then
/// unquoted ones (an address such as `user@example.com` stays).
pub open spec fn stripped_query(q: Seq<char>) -> Seq<char> {
    strip_unquoted(strip_quoted(q), true)
}

/// The length of the run of path characters at position `i` of `s`.
fn path_run_at(s: &[char], i: usize) -> (n: usize)
    requires
        i <= s@.len(),
    ensures
        n == path_run(s@.skip(i as int)),
        i + n <= s@.len(),
{
    let mut j = i;
    while j < s.len() && path_char(s[j])
        invariant
            i <= j <= s@.len(),
            path_run(s@.skip(i as int)) == (j - i) + path_run(s@.skip(j as int)),
        decreases s@.len() - j,
    {
        proof {
            assert(s@.skip(j as int).drop_first() =~= s@.skip(j + 1));
        }
        j = j + 1;
    }
    proof {
        if j < s@.len() {
            assert(s@.skip(j as int)[0] == s@[j as int]);
        }
    }
    j - i
}

/// Where `s` has `@"…"` at position `i`, the length of the quoted text.
fn quoted_at(s: &[char], i: usize) -> (r: Option<usize>)
    requires
        i <= s@.len(),
    ensures
        match r {
            Some(k) => quoted_len(s@.skip(i as int)) == Some(k as nat) && i + 3 + k <= s@.len(),
            None => quoted_len(s@.skip(i as int)) is None,
        },
{
    let ghost t = s@.skip(i as int);
    if i < s.len() && i + 1 < s.len() && s[i] == '@' && s[i + 1] == '"' {
        let tail = crate::text::slice_range(s, i + 2, s.len());
        proof {
            assert(tail@ =~= t.skip(2));
        }
        match crate::text::find_char(tail.as_slice(), '"') {
            Some(k) => {
                if k > 0 {
                    Some(k)
                } else {
                    None
                }
            },
            None => None,
        }
    } else {
        None
    }
}

/// `strip_quoted(s)`.
fn strip_quoted_chars(s: &[char]) -> (r: Vec<char>)
    ensures
        r@ == strip_quoted(s@),
{
    let mut out: Vec<char> = Vec::new();
    let mut i: usize = 0;
    assert(s@.skip(0) =~= s@);
    while i < s.len()
        invariant
            i <= s@.len(),
            out@ + strip_quoted(s@.skip(i as int)) == strip_quoted(s@),
        decreases s@.len() - i,
    {
        let ghost t = s@.skip(i as int);
        match quoted_at(s, i) {
            Some(k) => {
                let mut j = i + 2;
                let end = i + 2 + k;
                let ghost o = out@;
                while j < end
                    invariant
                        end == i + 2 + k,
                        i + 2 <= j <= i + 2 + k,
                        i + 3 + k <= s@.len(),
                        out@ == o + s@.subrange(i + 2, j as int),
                    decreases i + 2 + k - j,
                {
                    out.push(s[j]);
                    j = j + 1;
                    assert(out@ =~= o + s@.subrange(i + 2, j as int));
                }
                proof {
                    assert(t.subrange(2, 2 + k) =~= s@.subrange(i + 2, i + 2 + k));
                    assert(t.skip(3 + k) =~= s@.skip(i + 3 + k));
                    assert(o + strip_quoted(t) == o + (s@.subrange(i + 2, i + 2 + k) + strip_quoted(
                        s@.skip(i + 3 + k),
                    )));
                    assert(o + (s@.subrange(i + 2, i + 2 + k) + strip_quoted(s@.skip(i + 3 + k)))
                        =~= out@ + strip_quoted(s@.skip(i + 3 + k)));
                }
                i = i + 3 + k;
            },
            None => {
                let ghost o = out@;
                out.push(s[i]);
                proof {
                    assert(t[0] == s@[i as int]);
                    assert(t.drop_first() =~= s@.skip(i + 1));
                    assert(o + (seq![s@[i as int]] + strip_quoted(s@.skip(i + 1))) =~= out@
                        + strip_quoted(s@.skip(i + 1)));
                }
                i = i + 1;
            },
        }
    }
    proof {
        assert(s@.skip(i as int).len() == 0);
        assert(out@ + strip_quoted(s@.skip(i as int)) =~= out@);
    }
    out
}

/// `strip_unquoted(s, true)`.
fn strip_unquoted_chars(s: &[char]) -> (r: Vec<char>)
    ensures
        r@ == strip_unquoted(s@, true),
{
    let mut out: Vec<char> = Vec::new();
    let mut i: usize = 0;
    let mut at_start = true;
    assert(s@.skip(0) =~= s@);
    while i < s.len()
        invariant
            i <= s@.len(),
            at_start ==> i == 0,
            out@ + strip_unquoted(s@.skip(i as int), at_start) == strip_unquoted(s@, true),
        decreases s@.len() - i,
    {
        let ghost t = s@.skip(i as int);
        let ghost o = out@;
        proof {
            assert(t[0] == s@[i as int]);
            assert(t.drop_first() =~= s@.skip(i + 1));
        }
        let n1 = path_run_at(s, i + 1);
        if at_start && s[i] == '@' && n1 > 0 {
            let mut j = i + 1;
            let end = i + 1 + n1;
            while j < end
                invariant
                    end == i + 1 + n1,
                    i + 1 <= j <= i + 1 + n1 <= s@.len(),
                    out@ == o + s@.subrange(i + 1, j as int),
                decreases i + 1 + n1 - j,
            {
                out.push(s[j]);
                j = j + 1;
                assert(out@ =~= o + s@.subrange(i + 1, j as int));
            }
            proof {
                assert(t.subrange(1, 1 + n1) =~= s@.subrange(i + 1, i + 1 + n1));
                assert(t.skip(1 + n1) =~= s@.skip(i + 1 + n1));
                assert(o + (s@.subrange(i + 1, i + 1 + n1) + strip_unquoted(s@.skip(i + 1 + n1), false))
                    =~= out@ + strip_unquoted(s@.skip(i + 1 + n1), false));
            }
            i = i + 1 + n1;
            at_start = false;
        } else if crate::text::char_is_ws(s[i]) && i + 1 < s.len() && s[i + 1] == '@'
            && path_run_at(s, i + 2) > 0 {
            let n2 = path_run_at(s, i + 2);
            proof {
                assert(t[1] == s@[i + 1]);
                assert(t.skip(2) =~= s@.skip(i + 2));
            }
            out.push(s[i]);
            let mut j = i + 2;
            let end = i + 2 + n2;
            while j < end
                invariant
                    end == i + 2 + n2,
                    i + 2 <= j <= i + 2 + n2 <= s@.len(),
                    out@ == o.push(s@[i as int]) + s@.subrange(i + 2, j as int),
                decreases i + 2 + n2 - j,
            {
                out.push(s[j]);
                j = j + 1;
                assert(out@ =~= o.push(s@[i as int]) + s@.subrange(i + 2, j as int));
            }
            proof {
                assert(t.subrange(2, 2 + n2) =~= s@.subrange(i + 2, i + 2 + n2));
                assert(t.skip(2 + n2) =~= s@.skip(i + 2 + n2));
                assert(o + (seq![s@[i as int]] + s@.subrange(i + 2, i + 2 + n2) + strip_unquoted(
                    s@.skip(i + 2 + n2),
                    false,
                )) =~= out@ + strip_unquoted(s@.skip(i + 2 + n2), false));
            }
            i = i + 2 + n2;
            at_start = false;
        } else {
            proof {
                if is_ws(t[0]) && t.len() >= 2 && t[1] == '@' {
                    assert(t[1] == s@[i + 1]);
                    assert(t.skip(2) =~= s@.skip(i + 2));
                }
            }
            out.push(s[i]);
            proof {
                assert(o + (seq![s@[i as int]] + strip_unquoted(s@.skip(i + 1), false)) =~= out@
                    + strip_unquoted(s@.skip(i + 1), false));
            }
            i = i + 1;
            at_start = false;
        }
    }
    proof {
        assert(out@ + strip_unquoted(s@.skip(i as int), at_start) =~= out@);
    }
    out
}

/// Strips the `@` references from a query: `@"a b"` becomes `a b`, and
/// `@path` at the start or after whitespace becomes `path`.
pub fn strip_at_references(query: &str) -> (r: String)
    ensures
        r@ == stripped_query(query@),
{
    let cs = crate::text::chars_of(query);
    let q = strip_quoted_chars(cs.as_slice());
    let u = strip_unquoted_chars(q.as_slice());
    string_of(u.as_slice())
}

// ---------------------------------------------------------------------------
// Message preparation
// ---------------------------------------------------------------------------

/// The instruction put in place of `{thinking_instruction}` when thinking
/// is shown.
pub open spec fn thinking_on_text() -> Seq<char> {
    "Use your thinking/reasoning capabilities to work through complex problems step by step. Show your reasoning process."@
}

/// The instruction put in place of `{thinking_instruction}` when thinking
/// is hidden.
pub open spec fn thinking_off_text() -> Seq<char> {
    "Proceed directly with your response without showing internal reasoning."@
}

/// The placeholder of the thinking instruction in a system prompt.
pub open spec fn thinking_placeholder() -> Seq<char> {
    "{thinking_instruction}"@
}

/// The base64 image that a message carries to the model.
#[derive(Debug, Clone)]
pub struct ImageBlock {
    pub media_type: String,
    pub data: String,
}

/// The role of a message, where it is a string.
pub open spec fn role_of(m: Json) -> Option<Seq<char>> {
    get_str(m, "role"@)
}

/// The position of the last user message, if any.
pub open spec fn last_user(ms: Seq<Json>) -> Option<int>
    decreases ms.len(),
{
    if ms.len() == 0 {
        None
    } else if role_of(ms.last()) == Some("user"@) {
        Some(ms.len() - 1)
    } else {
        last_user(ms.drop_last())
    }
}

/// `ms` with the content of its last user message set to `c`.
pub open spec fn set_last_user_content(ms: Seq<Json>, c: Json) -> Seq<Json> {
    match last_user(ms) {
        Some(i) => ms.update(i, put(ms[i], "content"@, c)),
        None => ms,
    }
}

/// The system prompt with the thinking instruction filled in and the
/// learned strategies, where there are any, appended.
pub open spec fn system_text(prompt: Seq<char>, thinking_visible: bool, playbook: Option<Seq<char>>) -> Seq<char> {
    let instruction = if thinking_visible {
        thinking_on_text()
    } else {
        thinking_off_text()
    };
    let filled = crate::text::replace_all(prompt, thinking_placeholder(), instruction);
    match playbook {
        Some(p) => if p.len() > 0 {
            crate::text::trim_end(filled) + "\n\n## Learned Strategies\n"@ + p
        } else {
            filled
        },
        None => filled,
    }
}

/// A message with a role and text content.
pub open spec fn text_message(role: Seq<char>, content: Seq<char>) -> Json {
    Json::Object(seq![("role"@, Json::Str(role)), ("content"@, Json::Str(content))])
}

/// The text block of a multimodal message.
pub open spec fn text_block(t: Seq<char>) -> Json {
    Json::Object(seq![("type"@, Json::Str("text"@)), ("text"@, Json::Str(t))])
}

/// The block of a base64 image.
pub open spec fn image_block(media_type: Seq<char>, data: Seq<char>) -> Json {
    Json::Object(
        seq![
            ("type"@, Json::Str("image"@)),
            ("source"@, Json::Object(
                seq![
                    ("type"@, Json::Str("base64"@)),
                    ("media_type"@, Json::Str(media_type)),
                    ("data"@, Json::Str(data)),
                ],
            )),
        ],
    )
}

/// The image blocks of `images`.
pub open spec fn image_blocks(images: Seq<ImageBlock>) -> Seq<Json> {
    images.map_values(|b: ImageBlock| image_block(b.media_type@, b.data@))
}

/// The text content of a message, or nothing where its content is not text.
pub open spec fn current_text(m: Json) -> Seq<char> {
    match get_str(m, "content"@) {
        Some(t) => t,
        None => Seq::empty(),
    }
}

/// The multimodal content that replaces a message's text: its text, then
/// the images.
pub open spec fn multimodal_content(m: Json, images: Seq<ImageBlock>) -> Json {
    Json::Array(seq![text_block(current_text(m))] + image_blocks(images))
}

/// The messages for an LLM call.
pub open spec fn prepared_messages(
    query: Seq<char>,
    enhanced: Seq<char>,
    prompt: Seq<char>,
    session: Seq<Json>,
    images: Seq<ImageBlock>,
    thinking_visible: bool,
    playbook: Option<Seq<char>>,
) -> Seq<Json> {
    let ms1 = if enhanced != query {
        set_last_user_content(session, Json::Str(enhanced))
    } else {
        session
    };
    let sys = system_text(prompt, thinking_visible, playbook);
    let ms2 = if ms1.len() == 0 || role_of(ms1[0]) != Some("system"@) {
        seq![text_message("system"@, sys)] + ms1
    } else {
        ms1.update(0, put(ms1[0], "content"@, Json::Str(sys)))
    };
    if images.len() > 0 {
        match last_user(ms2) {
            Some(i) => ms2.update(i, put(ms2[i], "content"@, multimodal_content(ms2[i], images))),
            None => ms2,
        }
    } else {
        ms2
    }
}

proof fn lemma_last_user(ms: Seq<Json>)
    ensures
        last_user(ms) matches Some(i) ==> 0 <= i < ms.len() && role_of(ms[i]) == Some("user"@)
            && ms[i] is Object,
    decreases ms.len(),
{
    if ms.len() > 0 && role_of(ms.last()) != Some("user"@) {
        lemma_last_user(ms.drop_last());
    }
}

/// The position of the last user message, if any.
fn find_last_user(ms: &Vec<JsonValue>) -> (r: Option<usize>)
    ensures
        match r {
            Some(i) => last_user(crate::json::views(ms@)) == Some(i as int) && i < ms@.len(),
            None => last_user(crate::json::views(ms@)) is None,
        },
{
    let ghost vs = crate::json::views(ms@);
    let mut k = ms.len();
    assert(vs.take(k as int) =~= vs);
    while k > 0
        invariant
            k <= ms@.len(),
            vs == crate::json::views(ms@),
            last_user(vs) == last_user(vs.take(k as int)),
        decreases k,
    {
        let r = ms[k - 1].get_str("role");
        proof {
            assert(vs.take(k as int).last() == ms@[k - 1]@);
            assert(vs.take(k as int).drop_last() =~= vs.take(k - 1));
        }
        match r {
            Some(role) => {
                if str_eq(role, "user") {
                    return Some(k - 1);
                }
            },
            None => {},
        }
        k = k - 1;
    }
    None
}

/// The system prompt with the thinking instruction and learned strategies.
fn build_system_text(prompt: &str, thinking_visible: bool, playbook: Option<&str>) -> (r: String)
    ensures
        r@ == system_text(
            prompt@,
            thinking_visible,
            match playbook {
                Some(p) => Some(p@),
                None => None,
            },
        ),
{
    let instruction = if thinking_visible {
        "Use your thinking/reasoning capabilities to work through complex problems step by step. Show your reasoning process."
    } else {
        "Proceed directly with your response without showing internal reasoning."
    };
    let pc = crate::text::chars_of(prompt);
    let ph = crate::text::chars_of("{thinking_instruction}");
    let ic = crate::text::chars_of(instruction);
    proof {
        reveal_strlit("{thinking_instruction}");
    }
    let filled = crate::text::replace_chars(pc.as_slice(), ph.as_slice(), ic.as_slice());
    match playbook {
        Some(p) => {
            if crate::text::chars_of(p).len() > 0 {
                let end = crate::text::trim_end_len(filled.as_slice());
                let mut r = string_of(crate::text::slice_range(filled.as_slice(), 0, end).as_slice());
                push_str(&mut r, "\n\n## Learned Strategies\n");
                push_str(&mut r, p);
                return r;
            }
            string_of(filled.as_slice())
        },
        None => string_of(filled.as_slice()),
    }
}

/// The JSON block of one image.
fn make_image_block(b: &ImageBlock) -> (r: JsonValue)
    ensures
        r@ == image_block(b.media_type@, b.data@),
{
    let mut src: Vec<(String, JsonValue)> = Vec::new();
    src.push((owned("type"), JsonValue::string("base64")));
    src.push((owned("media_type"), JsonValue::string(b.media_type.as_str())));
    src.push((owned("data"), JsonValue::string(b.data.as_str())));
    let source = JsonValue::object(src);
    let mut fs: Vec<(String, JsonValue)> = Vec::new();
    fs.push((owned("type"), JsonValue::string("image")));
    fs.push((owned("source"), source));
    let r = JsonValue::object(fs);
    proof {
        assert(crate::json::field_views(src@) =~= seq![
            ("type"@, Json::Str("base64"@)),
            ("media_type"@, Json::Str(b.media_type@)),
            ("data"@, Json::Str(b.data@)),
        ]);
        assert(crate::json::field_views(fs@) =~= seq![
            ("type"@, Json::Str("image"@)),
            ("source"@, source@),
        ]);
    }
    r
}

/// The multimodal content of a message whose text is `text`.
fn make_multimodal(text: &str, images: &[ImageBlock]) -> (r: JsonValue)
    ensures
        r@ == Json::Array(seq![text_block(text@)] + image_blocks(images@)),
{
    let mut tb: Vec<(String, JsonValue)> = Vec::new();
    tb.push((owned("type"), JsonValue::string("text")));
    tb.push((owned("text"), JsonValue::string(text)));
    proof {
        assert(crate::json::field_views(tb@) =~= seq![
            ("type"@, Json::Str("text"@)),
            ("text"@, Json::Str(text@)),
        ]);
    }
    let mut items: Vec<JsonValue> = Vec::new();
    items.push(JsonValue::object(tb));
    let mut i: usize = 0;
    while i < images.len()
        invariant
            i <= images@.len(),
            crate::json::views(items@) == seq![text_block(text@)] + image_blocks(images@).take(
                i as int,
            ),
        decreases images@.len() - i,
    {
        let blk = make_image_block(&images[i]);
        let ghost before = items@;
        items.push(blk);
        proof {
            assert(crate::json::views(items@) =~= crate::json::views(before).push(blk@));
            assert(image_blocks(images@).take(i + 1) =~= image_blocks(images@).take(i as int).push(
                image_block(images@[i as int].media_type@, images@[i as int].data@),
            ));
        }
        i = i + 1;
    }
    proof {
        assert(image_blocks(images@).take(images@.len() as int) =~= image_blocks(images@));
    }
    JsonValue::array(items)
}

/// Prepares queries and messages for the model, for one working directory.
pub struct QueryEnhancer {
    working_dir: String,
}

impl QueryEnhancer {
    /// The directory that relative `@` paths are resolved against.
    pub closed spec fn working_dir_view(&self) -> Seq<char> {
        self.working_dir@
    }

    /// An enhancer rooted at `working_dir`.
    pub fn new(working_dir: &str) -> (r: Self)
        ensures
            r.working_dir_view() == working_dir@,
    {
        QueryEnhancer { working_dir: owned(working_dir) }
    }

    /// The directory that relative `@` paths are resolved against.
    pub fn working_dir(&self) -> (r: &str)
        ensures
            r@ == self.working_dir_view(),
    {
        self.working_dir.as_str()
    }

    /// The enhanced query: `query` with its `@` references stripped and,
    /// where the referenced files gave any text, that text after a blank
    /// line; and the image blocks of the referenced images.
    pub fn enhance_query(&self, query: &str, injected_text: &str, image_blocks: Vec<ImageBlock>) -> (r: (
        String,
        Vec<ImageBlock>,
    ))
        ensures
            r.0@ == (if injected_text@.len() == 0 {
                stripped_query(query@)
            } else {
                stripped_query(query@) + "\n\n"@ + injected_text@
            }),
            r.1@ == image_blocks@,
    {
        let mut enhanced = strip_at_references(query);
        if crate::text::chars_of(injected_text).len() > 0 {
            push_str(&mut enhanced, "\n\n");
            push_str(&mut enhanced, injected_text);
        }
        (enhanced, image_blocks)
    }

    /// The messages for an LLM call: the session's messages (the last user
    /// message carrying the enhanced query where it differs), headed by the
    /// system message, and the images attached to the last user message.
    pub fn prepare_messages(
        &self,
        query: &str,
        enhanced_query: &str,
        system_prompt: &str,
        session_messages: Option<&[JsonValue]>,
        image_blocks: &[ImageBlock],
        thinking_visible: bool,
        playbook_context: Option<&str>,
    ) -> (r: Vec<JsonValue>)
        ensures
            crate::json::views(r@) == prepared_messages(
                query@,
                enhanced_query@,
                system_prompt@,
                match session_messages {
                    Some(ms) => crate::json::views(ms@),
                    None => Seq::empty(),
                },
                image_blocks@,
                thinking_visible,
                match playbook_context {
                    Some(p) => Some(p@),
                    None => None,
                },
            ),
    {
        let ghost session = match session_messages {
            Some(ms) => crate::json::views(ms@),
            None => Seq::<Json>::empty(),
        };
        let mut messages: Vec<JsonValue> = Vec::new();
        match session_messages {
            Some(ms) => {
                let mut i: usize = 0;
                while i < ms.len()
                    invariant
                        i <= ms@.len(),
                        crate::json::views(messages@) == crate::json::views(ms@).take(i as int),
                    decreases ms@.len() - i,
                {
                    let c = ms[i].duplicate();
                    let ghost before = messages@;
                    messages.push(c);
                    proof {
                        assert(crate::json::views(messages@) =~= crate::json::views(before).push(c@));
                        assert(crate::json::views(ms@).take(i + 1) =~= crate::json::views(ms@).take(
                            i as int,
                        ).push(ms@[i as int]@));
                    }
                    i = i + 1;
                }
                proof {
                    assert(crate::json::views(ms@).take(ms@.len() as int) =~= crate::json::views(
                        ms@,
                    ));
                }
            },
            None => {
                assert(crate::json::views(messages@) =~= Seq::<Json>::empty());
            },
        }
        let ghost ms0 = crate::json::views(messages@);
        assert(ms0 == session);

        // The last user message carries the enhanced query.
        if !str_eq(enhanced_query, query) {
            match find_last_user(&messages) {
                Some(i) => {
                    proof {
                        lemma_last_user(ms0);
                    }
                    let ghost before = messages@;
                    messages[i].put("content", JsonValue::string(enhanced_query));
                    proof {
                        assert(crate::json::views(messages@) =~= ms0.update(
                            i as int,
                            put(ms0[i as int], "content"@, Json::Str(enhanced_query@)),
                        ));
                    }
                },
                None => {},
            }
        }
        let ghost ms1 = crate::json::views(messages@);
        assert(ms1 == (if enhanced_query@ != query@ {
            set_last_user_content(session, Json::Str(enhanced_query@))
        } else {
            session
        }));

        // The system message comes first.
        let sys = build_system_text(system_prompt, thinking_visible, playbook_context);
        let head_is_system = if messages.len() == 0 {
            false
        } else {
            match messages[0].get_str("role") {
                Some(role) => str_eq(role, "system"),
                None => false,
            }
        };
        if head_is_system {
            proof {
                assert(ms1[0] == messages@[0]@);
            }
            messages[0].put("content", JsonValue::string(sys.as_str()));
            proof {
                assert(crate::json::views(messages@) =~= ms1.update(
                    0,
                    put(ms1[0], "content"@, Json::Str(sys@)),
                ));
            }
        } else {
            let mut fs: Vec<(String, JsonValue)> = Vec::new();
            fs.push((owned("role"), JsonValue::string("system")));
            fs.push((owned("content"), JsonValue::Str(sys)));
            proof {
                assert(crate::json::field_views(fs@) =~= seq![
                    ("role"@, Json::Str("system"@)),
                    ("content"@, Json::Str(sys@)),
                ]);
            }
            let m = JsonValue::object(fs);
            messages.insert(0, m);
            proof {
                assert(crate::json::views(messages@) =~= seq![text_message("system"@, sys@)] + ms1);
            }
        }
        let ghost ms2 = crate::json::views(messages@);

        // The images go with the last user message.
        if image_blocks.len() > 0 {
            match find_last_user(&messages) {
                Some(i) => {
                    proof {
                        lemma_last_user(ms2);
                    }
                    let text = match messages[i].get_str("content") {
                        Some(t) => owned(t),
                        None => String::new(),
                    };
                    proof {
                        assert(text@ == current_text(ms2[i as int]));
                    }
                    let content = make_multimodal(text.as_str(), image_blocks);
                    messages[i].put("content", content);
                    proof {
                        assert(crate::json::views(messages@) =~= ms2.update(
                            i as int,
                            put(ms2[i as int], "content"@, multimodal_content(ms2[i as int], image_blocks@)),
                        ));
                    }
                },
                None => {},
            }
        }
        messages
    }
}

// ---------------------------------------------------------------------------
// Message summaries
// ---------------------------------------------------------------------------

/// `s` cut to `max` bytes followed by `...` where longer; `None` where the
/// cut would fall inside a character.
pub open spec fn cut_preview(s: Seq<char>, max: nat) -> Option<Seq<char>> {
    if crate::text::byte_len(s) > max {
        if crate::text::is_boundary(s, max) {
            Some(s.take(crate::text::chars_for_bytes(s, max, 0)) + "..."@)
        } else {
            None
        }
    } else {
        Some(s)
    }
}

/// The preview of a message's content.
pub open spec fn content_preview(m: Json, max: nat) -> Option<Seq<char>> {
    match get(m, "content"@) {
        None => Some(Seq::empty()),
        Some(Json::Str(s)) => cut_preview(s, max),
        Some(Json::Array(items)) => Some("["@ + crate::text::decimal(items.len()) + " blocks]"@),
        Some(other) => cut_preview(crate::json::json_text(other), max),
    }
}

/// The summary line of one message: its role (`unknown` where it has none)
/// and its preview.
pub open spec fn summary_line(m: Json, max: nat) -> Option<Seq<char>> {
    let role = match role_of(m) {
        Some(r) => r,
        None => "unknown"@,
    };
    match content_preview(m, max) {
        Some(p) => Some(role + ": "@ + p),
        None => None,
    }
}

/// The summary lines of `ms`, where every preview can be cut.
pub open spec fn summary_lines(ms: Seq<Json>, max: nat) -> Option<Seq<Seq<char>>>
    decreases ms.len(),
{
    if ms.len() == 0 {
        Some(Seq::empty())
    } else {
        match (summary_lines(ms.drop_last(), max), summary_line(ms.last(), max)) {
            (Some(ls), Some(l)) => Some(ls.push(l)),
            _ => None,
        }
    }
}

/// The debug summary of a message list.
pub open spec fn messages_summary(ms: Seq<Json>, max: nat) -> Option<Seq<char>> {
    if ms.len() == 0 {
        Some("0 messages"@)
    } else {
        match summary_lines(ms, max) {
            Some(ls) => Some(crate::text::decimal(ms.len()) + " messages: "@ + crate::paths::join_sep(
                ls,
                " | "@,
            )),
            None => None,
        }
    }
}

/// `s` cut for a preview.
fn cut_text(s: &str, max: usize) -> (r: Option<String>)
    ensures
        match r {
            Some(t) => cut_preview(s@, max as nat) == Some(t@),
            None => cut_preview(s@, max as nat) is None,
        },
{
    if crate::text::str_byte_len(s) > max {
        match crate::text::byte_prefix(s, max) {
            Some(p) => {
                let mut t = p;
                push_str(&mut t, "...");
                Some(t)
            },
            None => None,
        }
    } else {
        Some(owned(s))
    }
}

/// The summary line of one message.
fn message_line(m: &JsonValue, max: usize) -> (r: Option<String>)
    ensures
        match r {
            Some(t) => summary_line(m@, max as nat) == Some(t@),
            None => summary_line(m@, max as nat) is None,
        },
{
    let mut line = match m.get_str("role") {
        Some(role) => owned(role),
        None => owned("unknown"),
    };
    push_str(&mut line, ": ");
    let preview = match m.get("content") {
        None => Some(String::new()),
        Some(c) => match c {
            JsonValue::Str(s) => cut_text(s.as_str(), max),
            JsonValue::Array(items) => {
                let mut t = owned("[");
                crate::text::push_decimal(&mut t, items.len() as u64);
                push_str(&mut t, " blocks]");
                proof {
                    crate::json::lemma_array_view(*items);
                }
                Some(t)
            },
            _ => {
                let text = crate::json::to_json_text(c);
                cut_text(text.as_str(), max)
            },
        },
    };
    match preview {
        Some(p) => {
            push_str(&mut line, p.as_str());
            Some(line)
        },
        None => None,
    }
}

impl QueryEnhancer {
    /// The debug summary of a message list: the count, then each message's
    /// role and a preview of its content cut to `max_preview` bytes; `None`
    /// where such a cut would fall inside a character.
    pub fn format_messages_summary(messages: &[JsonValue], max_preview: usize) -> (r: Option<String>)
        ensures
            match r {
                Some(t) => messages_summary(crate::json::views(messages@), max_preview as nat) == Some(
                    t@,
                ),
                None => messages_summary(crate::json::views(messages@), max_preview as nat) is None,
            },
    {
        let ghost vs = crate::json::views(messages@);
        if messages.len() == 0 {
            return Some(owned("0 messages"));
        }
        let mut joined = String::new();
        let mut i: usize = 0;
        while i < messages.len()
            invariant
                i <= messages@.len(),
                vs == crate::json::views(messages@),
                summary_lines(vs.take(i as int), max_preview as nat) matches Some(ls) && joined@
                    == crate::paths::join_sep(ls, " | "@),
            decreases messages@.len() - i,
        {
            proof {
                assert(vs.take(i + 1).drop_last() =~= vs.take(i as int));
                assert(vs.take(i + 1).last() == messages@[i as int]@);
            }
            match message_line(&messages[i], max_preview) {
                Some(l) => {
                    if i > 0 {
                        push_str(&mut joined, " | ");
                    }
                    push_str(&mut joined, l.as_str());
                    proof {
                        let ls = summary_lines(vs.take(i as int), max_preview as nat)->Some_0;
                        let ls2 = ls.push(l@);
                        assert(ls2.drop_last() =~= ls);
                        if i == 0 {
                            assert(ls.len() == 0);
                        }
                    }
                },
                None => {
                    proof {
                        lemma_summary_lines_none(vs, i as int, max_preview as nat);
                    }
                    return None;
                },
            }
            i = i + 1;
        }
        proof {
            assert(vs.take(messages@.len() as int) =~= vs);
        }
        let mut r = String::new();
        crate::text::push_decimal(&mut r, messages.len() as u64);
        push_str(&mut r, " messages: ");
        push_str(&mut r, joined.as_str());
        Some(r)
    }
}

proof fn lemma_summary_lines_len(ms: Seq<Json>, max: nat)
    ensures
        summary_lines(ms, max) matches Some(ls) ==> ls.len() == ms.len(),
    decreases ms.len(),
{
    if ms.len() > 0 {
        lemma_summary_lines_len(ms.drop_last(), max);
    }
}

proof fn lemma_summary_lines_none(ms: Seq<Json>, i: int, max: nat)
    requires
        0 <= i < ms.len(),
        summary_line(ms[i], max) is None,
    ensures
        summary_lines(ms, max) is None,
    decreases ms.len(),
{
    if i < ms.len() - 1 {
        lemma_summary_lines_none(ms.drop_last(), i, max);
    }
}

} // verus!
