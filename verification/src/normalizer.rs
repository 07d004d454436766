//! Normalisation of LLM-produced tool parameters before they reach handlers:
//! - key normalisation (camelCase -> snake_case)
//! - whitespace stripping on string values
//! - path resolution (relative -> absolute, `~` expansion)
use vstd::prelude::*;

use crate::paths::normalized_path;
use crate::text::{has_prefix, owned, push_str, str_eq, trim};

verus! {

/// A JSON value of the outside crate, carried through unchanged.
#[verifier::external_type_specification]
#[verifier::external_body]
pub struct ExJsonValue(serde_json::Value);

/// A tool parameter's value: text, or any other JSON value.
#[derive(Debug)]
pub enum ParamValue {
    Text(String),
    Other(serde_json::Value),
}

/// Parameters that hold file or directory paths.
pub open spec fn path_params() -> Seq<Seq<char>> {
    seq!["file_path"@, "notebook_path"@, "output_path"@, "plan_file_path"@, "image_path"@]
}

fn path_param_list() -> (r: Vec<&'static str>)
    ensures
        r@.len() == path_params().len(),
        forall|i: int| 0 <= i < r@.len() ==> #[trigger] r@[i]@ == path_params()[i],
{
    vec!["file_path", "notebook_path", "output_path", "plan_file_path", "image_path"]
}

/// Known camelCase keys and their snake_case forms.
pub open spec fn camel_table() -> Seq<(Seq<char>, Seq<char>)> {
    seq![
        ("filePath"@, "file_path"@),
        ("fileName"@, "file_name"@),
        ("maxResults"@, "max_results"@),
        ("maxLines"@, "max_lines"@),
        ("oldContent"@, "old_content"@),
        ("newContent"@, "new_content"@),
        ("matchAll"@, "match_all"@),
        ("createDirs"@, "create_dirs"@),
        ("extractText"@, "extract_text"@),
        ("maxLength"@, "max_length"@),
        ("includeToolCalls"@, "include_tool_calls"@),
        ("sessionId"@, "session_id"@),
        ("subagentType"@, "subagent_type"@),
        ("detailLevel"@, "detail_level"@),
        ("cellId"@, "cell_id"@),
        ("cellNumber"@, "cell_number"@),
        ("cellType"@, "cell_type"@),
        ("editMode"@, "edit_mode"@),
        ("newSource"@, "new_source"@),
        ("notebookPath"@, "notebook_path"@),
        ("deepCrawl"@, "deep_crawl"@),
        ("crawlStrategy"@, "crawl_strategy"@),
        ("maxDepth"@, "max_depth"@),
        ("includeExternal"@, "include_external"@),
        ("maxPages"@, "max_pages"@),
        ("allowedDomains"@, "allowed_domains"@),
        ("blockedDomains"@, "blocked_domains"@),
        ("urlPatterns"@, "url_patterns"@),
        ("symbolName"@, "symbol_name"@),
        ("newName"@, "new_name"@),
        ("newBody"@, "new_body"@),
        ("preserveSignature"@, "preserve_signature"@),
        ("includeDeclaration"@, "include_declaration"@),
        ("planFilePath"@, "plan_file_path"@),
        ("skillName"@, "skill_name"@),
        ("taskId"@, "task_id"@),
        ("runInBackground"@, "run_in_background"@),
        ("toolCallId"@, "tool_call_id"@),
        ("multiSelect"@, "multi_select"@),
        ("activeForm"@, "active_form"@),
        ("viewportWidth"@, "viewport_width"@),
        ("viewportHeight"@, "viewport_height"@),
        ("timeoutMs"@, "timeout_ms"@),
        ("capturePdf"@, "capture_pdf"@),
        ("outputPath"@, "output_path"@),
        ("imagePath"@, "image_path"@),
        ("imageUrl"@, "image_url"@),
        ("maxTokens"@, "max_tokens"@),
    ]
}

fn camel_table_list() -> (r: Vec<(&'static str, &'static str)>)
    ensures
        r@.len() == camel_table().len(),
        forall|i: int|
            0 <= i < r@.len() ==> (#[trigger] r@[i]).0@ == camel_table()[i].0 && r@[i].1@
                == camel_table()[i].1,
{
    vec![
        ("filePath", "file_path"),
        ("fileName", "file_name"),
        ("maxResults", "max_results"),
        ("maxLines", "max_lines"),
        ("oldContent", "old_content"),
        ("newContent", "new_content"),
        ("matchAll", "match_all"),
        ("createDirs", "create_dirs"),
        ("extractText", "extract_text"),
        ("maxLength", "max_length"),
        ("includeToolCalls", "include_tool_calls"),
        ("sessionId", "session_id"),
        ("subagentType", "subagent_type"),
        ("detailLevel", "detail_level"),
        ("cellId", "cell_id"),
        ("cellNumber", "cell_number"),
        ("cellType", "cell_type"),
        ("editMode", "edit_mode"),
        ("newSource", "new_source"),
        ("notebookPath", "notebook_path"),
        ("deepCrawl", "deep_crawl"),
        ("crawlStrategy", "crawl_strategy"),
        ("maxDepth", "max_depth"),
        ("includeExternal", "include_external"),
        ("maxPages", "max_pages"),
        ("allowedDomains", "allowed_domains"),
        ("blockedDomains", "blocked_domains"),
        ("urlPatterns", "url_patterns"),
        ("symbolName", "symbol_name"),
        ("newName", "new_name"),
        ("newBody", "new_body"),
        ("preserveSignature", "preserve_signature"),
        ("includeDeclaration", "include_declaration"),
        ("planFilePath", "plan_file_path"),
        ("skillName", "skill_name"),
        ("taskId", "task_id"),
        ("runInBackground", "run_in_background"),
        ("toolCallId", "tool_call_id"),
        ("multiSelect", "multi_select"),
        ("activeForm", "active_form"),
        ("viewportWidth", "viewport_width"),
        ("viewportHeight", "viewport_height"),
        ("timeoutMs", "timeout_ms"),
        ("capturePdf", "capture_pdf"),
        ("outputPath", "output_path"),
        ("imagePath", "image_path"),
        ("imageUrl", "image_url"),
        ("maxTokens", "max_tokens"),
    ]
}

/// The snake_case form of `key` in `table`: the first entry for it.
pub open spec fn table_lookup(table: Seq<(Seq<char>, Seq<char>)>, key: Seq<char>) -> Option<
    Seq<char>,
>
    decreases table.len(),
{
    if table.len() == 0 {
        None
    } else if table[0].0 == key {
        Some(table[0].1)
    } else {
        table_lookup(table.drop_first(), key)
    }
}

/// The snake_case form of a known camelCase key.
pub fn camel_to_snake(key: &str) -> (r: Option<&'static str>)
    ensures
        match r {
            Some(s) => table_lookup(camel_table(), key@) == Some(s@),
            None => table_lookup(camel_table(), key@) is None,
        },
{
    let table = camel_table_list();
    let ghost t = camel_table();
    let mut k: usize = 0;
    proof {
        assert(t.subrange(0, t.len() as int) =~= t);
    }
    while k < table.len()
        invariant
            k <= table@.len() == t.len(),
            t == camel_table(),
            forall|i: int|
                0 <= i < table@.len() ==> (#[trigger] table@[i]).0@ == t[i].0 && table@[i].1@
                    == t[i].1,
            table_lookup(t, key@) == table_lookup(t.subrange(k as int, t.len() as int), key@),
        decreases table@.len() - k,
    {
        proof {
            let rest = t.subrange(k as int, t.len() as int);
            assert(rest.drop_first() =~= t.subrange(k + 1, t.len() as int));
            assert(rest[0] == t[k as int]);
        }
        if str_eq(table[k].0, key) {
            return Some(table[k].1);
        }
        k = k + 1;
    }
    None
}

/// The path that `~` expands to under `home`: `rest` appended to it, where
/// `rest` is what follows `~/`, or else `~`.
pub open spec fn expand_home(path: Seq<char>, home: Option<Seq<char>>) -> Seq<char> {
    if path.len() > 0 && path[0] == '~' {
        match home {
            Some(h) => {
                let rest = if has_prefix(path, "~/"@) {
                    path.skip(2)
                } else {
                    path.skip(1)
                };
                if rest.len() > 0 && rest[0] == '/' {
                    rest
                } else {
                    h + "/"@ + rest
                }
            },
            None => path,
        }
    } else {
        path
    }
}

/// The absolute, normalised form of a path: `~` expanded, a relative path
/// resolved against the working directory (or else the process's current
/// directory), `.` and `..` resolved.
pub open spec fn resolved_path(
    path: Seq<char>,
    working_dir: Option<Seq<char>>,
    home: Option<Seq<char>>,
    cwd: Option<Seq<char>>,
) -> Seq<char> {
    let e = expand_home(path, home);
    if e.len() > 0 && e[0] == '/' {
        normalized_path(e)
    } else {
        match working_dir {
            Some(wd) => normalized_path(wd + "/"@ + e),
            None => match cwd {
                Some(c) => normalized_path(c + "/"@ + e),
                None => e,
            },
        }
    }
}

/// The absolute, normalised form of a path, given the user's home directory
/// and the process's current directory as the caller found them.
pub fn resolve_path(
    path_str: &str,
    working_dir: Option<&str>,
    home: Option<&str>,
    cwd: Option<&str>,
) -> (r: String)
    ensures
        r@ == resolved_path(
            path_str@,
            match working_dir {
                Some(w) => Some(w@),
                None => None,
            },
            match home {
                Some(h) => Some(h@),
                None => None,
            },
            match cwd {
                Some(c) => Some(c@),
                None => None,
            },
        ),
{
    proof {
        reveal_strlit("~/");
        reveal_strlit("/");
    }
    let cs = crate::text::chars_of(path_str);
    let expanded = if cs.len() > 0 && cs[0] == '~' {
        match home {
            Some(h) => {
                let tilde = crate::text::chars_of("~/");
                let from: usize = if crate::text::chars_has_prefix(cs.as_slice(), tilde.as_slice()) {
                    2
                } else {
                    1
                };
                let rest = crate::text::slice_range(cs.as_slice(), from, cs.len());
                proof {
                    assert(rest@ =~= path_str@.skip(from as int));
                }
                if rest.len() > 0 && rest[0] == '/' {
                    crate::text::string_of(rest.as_slice())
                } else {
                    let mut e = owned(h);
                    push_str(&mut e, "/");
                    crate::text::push_chars(&mut e, rest.as_slice());
                    e
                }
            },
            None => owned(path_str),
        }
    } else {
        owned(path_str)
    };
    let ec = crate::text::chars_of(expanded.as_str());
    if ec.len() > 0 && ec[0] == '/' {
        return crate::paths::normalize_path(expanded.as_str());
    }
    let base = match working_dir {
        Some(wd) => wd,
        None => match cwd {
            Some(c) => c,
            None => return expanded,
        },
    };
    let mut joined = owned(base);
    push_str(&mut joined, "/");
    push_str(&mut joined, expanded.as_str());
    crate::paths::normalize_path(joined.as_str())
}

/// A parameter's value after normalisation: text trimmed, and, for a path
/// parameter with non-empty text, resolved.
pub open spec fn normalized_text(
    key: Seq<char>,
    text: Seq<char>,
    working_dir: Option<Seq<char>>,
    home: Option<Seq<char>>,
    cwd: Option<Seq<char>>,
) -> Seq<char> {
    let t = trim(text);
    if path_params().contains(key) && t.len() > 0 {
        resolved_path(t, working_dir, home, cwd)
    } else {
        t
    }
}

/// The key a parameter is stored under after normalisation.
pub open spec fn normalized_key(key: Seq<char>) -> Seq<char> {
    match table_lookup(camel_table(), key) {
        Some(s) => s,
        None => key,
    }
}

/// The model of a parameter's value: its text, or the JSON value itself.
pub enum ParamModel {
    Text(Seq<char>),
    Other(serde_json::Value),
}

/// The model of a parameter.
pub open spec fn param_view(p: (String, ParamValue)) -> (Seq<char>, ParamModel) {
    (
        p.0@,
        match p.1 {
            ParamValue::Text(s) => ParamModel::Text(s@),
            ParamValue::Other(j) => ParamModel::Other(j),
        },
    )
}

/// The models of a parameter list.
pub open spec fn params_view(v: Seq<(String, ParamValue)>) -> Seq<(Seq<char>, ParamModel)> {
    v.map_values(|p: (String, ParamValue)| param_view(p))
}

/// One parameter after normalisation.
pub open spec fn normalized_param(
    p: (Seq<char>, ParamModel),
    working_dir: Option<Seq<char>>,
    home: Option<Seq<char>>,
    cwd: Option<Seq<char>>,
) -> (Seq<char>, ParamModel) {
    let k = normalized_key(p.0);
    (
        k,
        match p.1 {
            ParamModel::Text(t) => ParamModel::Text(normalized_text(k, t, working_dir, home, cwd)),
            ParamModel::Other(j) => ParamModel::Other(j),
        },
    )
}

/// The position of the parameter stored under `key`, if any.
pub open spec fn index_of_param(s: Seq<(Seq<char>, ParamModel)>, key: Seq<char>) -> Option<int>
    decreases s.len(),
{
    if s.len() == 0 {
        None
    } else if s.last().0 == key {
        Some(s.len() - 1)
    } else {
        index_of_param(s.drop_last(), key)
    }
}

/// `s` with `e` stored under its key, replacing an earlier entry.
pub open spec fn put_param(s: Seq<(Seq<char>, ParamModel)>, e: (Seq<char>, ParamModel)) -> Seq<
    (Seq<char>, ParamModel),
> {
    match index_of_param(s, e.0) {
        Some(i) => s.update(i, e),
        None => s.push(e),
    }
}

/// The parameters after normalisation, each in turn.
pub open spec fn params_after(
    ps: Seq<(Seq<char>, ParamModel)>,
    working_dir: Option<Seq<char>>,
    home: Option<Seq<char>>,
    cwd: Option<Seq<char>>,
) -> Seq<(Seq<char>, ParamModel)>
    decreases ps.len(),
{
    if ps.len() == 0 {
        Seq::empty()
    } else {
        put_param(
            params_after(ps.drop_last(), working_dir, home, cwd),
            normalized_param(ps.last(), working_dir, home, cwd),
        )
    }
}

/// Whether `key` is a path parameter.
fn is_path_param(key: &str) -> (r: bool)
    ensures
        r == path_params().contains(key@),
{
    let list = path_param_list();
    let mut k: usize = 0;
    while k < list.len()
        invariant
            k <= list@.len() == path_params().len(),
            forall|i: int| 0 <= i < list@.len() ==> #[trigger] list@[i]@ == path_params()[i],
            forall|i: int| 0 <= i < k ==> path_params()[i] != key@,
        decreases list@.len() - k,
    {
        if str_eq(list[k], key) {
            proof {
                assert(path_params()[k as int] == key@);
            }
            return true;
        }
        k = k + 1;
    }
    false
}

/// The model of an optional text.
pub open spec fn opt_str(o: Option<&str>) -> Option<Seq<char>> {
    match o {
        Some(s) => Some(s@),
        None => None,
    }
}

/// Stores `e` under its key, replacing an earlier entry.
fn put_entry(out: &mut Vec<(String, ParamValue)>, e: (String, ParamValue))
    ensures
        params_view(final(out)@) == put_param(params_view(old(out)@), param_view(e)),
{
    let ghost ov = params_view(out@);
    let ghost ev = param_view(e);
    let mut k = out.len();
    proof {
        assert(ov.take(ov.len() as int) =~= ov);
    }
    while k > 0
        invariant
            k <= out@.len(),
            ov == params_view(out@),
            ov == params_view(old(out)@),
            ev == param_view(e),
            index_of_param(ov, ev.0) == index_of_param(ov.take(k as int), ev.0),
        decreases k,
    {
        proof {
            assert(ov.take(k as int).drop_last() =~= ov.take(k - 1));
            assert(ov.take(k as int).last() == param_view(out@[k - 1]));
        }
        if str_eq(out[k - 1].0.as_str(), e.0.as_str()) {
            assert(index_of_param(ov.take(k as int), ev.0) == Some(k - 1));
            out[k - 1] = e;
            proof {
                assert(params_view(out@) =~= ov.update(k - 1, ev));
            }
            return;
        }
        k = k - 1;
    }
    out.push(e);
    proof {
        assert(params_view(out@) =~= ov.push(ev));
    }
}

/// Normalises tool parameters, each in turn: its key to snake_case where
/// it is a known camelCase key, its text trimmed, and a path parameter's
/// non-empty text resolved to an absolute path (given the user's home and
/// the process's current directory as the caller found them). A later
/// parameter replaces an earlier one stored under the same key; values that
/// are not text pass through unchanged.
pub fn normalize_params(
    tool_name: &str,
    args: Vec<(String, ParamValue)>,
    working_dir: Option<&str>,
    home: Option<&str>,
    cwd: Option<&str>,
) -> (r: Vec<(String, ParamValue)>)
    ensures
        params_view(r@) == params_after(
            params_view(args@),
            opt_str(working_dir),
            opt_str(home),
            opt_str(cwd),
        ),
{
    let _ = tool_name;
    let ghost av = params_view(args@);
    let ghost wdv = opt_str(working_dir);
    let ghost hv = opt_str(home);
    let ghost cv = opt_str(cwd);
    let mut out: Vec<(String, ParamValue)> = Vec::new();
    let mut rest = args;
    let ghost mut i: int = 0;
    while rest.len() > 0
        invariant
            0 <= i <= av.len(),
            params_view(rest@) == av.skip(i),
            params_view(out@) == params_after(av.take(i), wdv, hv, cv),
            wdv == opt_str(working_dir),
            hv == opt_str(home),
            cv == opt_str(cwd),
        decreases rest@.len(),
    {
        let ghost rv = rest@;
        let (key, value) = rest.remove(0);
        proof {
            assert(params_view(rv).len() == rv.len());
            assert(i < av.len());
            assert(av.skip(i)[0] == av[i]);
            assert(params_view(rv)[0] == av[i]);
            assert(params_view(rest@) =~= av.skip(i + 1)) by {
                assert(params_view(rest@) =~= params_view(rv).drop_first());
            }
            assert(av.take(i + 1).drop_last() =~= av.take(i));
            assert(av.take(i + 1).last() == av[i]);
        }
        let new_key = match camel_to_snake(key.as_str()) {
            Some(s) => owned(s),
            None => key,
        };
        let new_value = match value {
            ParamValue::Text(s) => {
                let t = crate::text::string_of(crate::text::trim_chars(crate::text::chars_of(s.as_str()).as_slice()).as_slice());
                if is_path_param(new_key.as_str()) && !t.as_str().is_empty() {
                    ParamValue::Text(resolve_path(t.as_str(), working_dir, home, cwd))
                } else {
                    ParamValue::Text(t)
                }
            },
            ParamValue::Other(j) => ParamValue::Other(j),
        };
        proof {
            assert(param_view((new_key, new_value)) == normalized_param(av[i], wdv, hv, cv));
        }
        put_entry(&mut out, (new_key, new_value));
        proof {
            i = i + 1;
        }
    }
    proof {
        assert(av.skip(i).len() == 0);
        assert(av.take(i) =~= av);
    }
    out
}

} // verus!
