//! The response models of the web routes, and how a recorded tool call,
//! with the calls nested in it, becomes one.
use vstd::prelude::*;

use crate::json::{field_views, json_text, to_json_text, Json, JsonValue};
use crate::message::opt_view;
use crate::session::Timestamp;

verus! {

/// A tool call as a session records it.
#[derive(Debug)]
pub struct ToolCall {
    pub id: String,
    pub name: String,
    /// The arguments, by name.
    pub parameters: Vec<(String, JsonValue)>,
    pub result: Option<JsonValue>,
    pub result_summary: Option<String>,
    pub timestamp: Timestamp,
    pub approved: bool,
    pub error: Option<String>,
    /// The calls made on behalf of this one (by a subagent).
    pub nested_tool_calls: Vec<ToolCall>,
}

/// A tool call as the web routes return it.
#[derive(Debug)]
pub struct ToolCallResponse {
    pub id: String,
    pub name: String,
    pub parameters: Vec<(String, JsonValue)>,
    pub result: Option<String>,
    pub error: Option<String>,
    pub result_summary: Option<String>,
    pub approved: Option<bool>,
    pub nested_tool_calls: Option<Vec<ToolCallResponse>>,
}

/// A chat message as the web routes return it.
#[derive(Debug)]
pub struct MessageResponse {
    pub role: String,
    pub content: String,
    pub timestamp: Option<String>,
    pub tool_calls: Option<Vec<ToolCallResponse>>,
    pub thinking_trace: Option<String>,
    pub reasoning_content: Option<String>,
}

/// The text a tool's result is shown as: a string as it is, any other
/// value as its JSON text.
pub open spec fn result_text(v: Json) -> Seq<char> {
    match v {
        Json::Str(s) => s,
        _ => json_text(v),
    }
}

/// Whether `r` is the response for tool call `tc`: the same id, name,
/// arguments, error and summary; the result as text; the approval; and the
/// nested calls' responses in order, absent where there are none.
pub open spec fn responds(tc: ToolCall, r: ToolCallResponse) -> bool
    decreases tc,
{
    &&& r.id@ == tc.id@
    &&& r.name@ == tc.name@
    &&& field_views(r.parameters@) == field_views(tc.parameters@)
    &&& r.result.is_some() == tc.result.is_some()
    &&& (tc.result.is_some() ==> r.result.unwrap()@ == result_text(tc.result.unwrap()@))
    &&& opt_view(r.error) == opt_view(tc.error)
    &&& opt_view(r.result_summary) == opt_view(tc.result_summary)
    &&& r.approved == Some(tc.approved)
    &&& if tc.nested_tool_calls@.len() == 0 {
        r.nested_tool_calls is None
    } else {
        &&& r.nested_tool_calls is Some
        &&& r.nested_tool_calls.unwrap()@.len() == tc.nested_tool_calls@.len()
        &&& forall|i: int|
            0 <= i < tc.nested_tool_calls@.len() ==> {
                proof {
                    assert(decreases_to!(tc => tc.nested_tool_calls));
                    assert(decreases_to!(tc.nested_tool_calls => tc.nested_tool_calls@[i]));
                }
                responds(#[trigger] tc.nested_tool_calls@[i], r.nested_tool_calls.unwrap()@[i])
            }
    }
}

/// A copy of an optional string.
fn copy_opt(o: &Option<String>) -> (r: Option<String>)
    ensures
        opt_view(r) == opt_view(*o),
{
    match o {
        Some(s) => Some(s.clone()),
        None => None,
    }
}

/// A copy of named arguments.
fn copy_parameters(ps: &Vec<(String, JsonValue)>) -> (r: Vec<(String, JsonValue)>)
    ensures
        field_views(r@) == field_views(ps@),
{
    let mut r: Vec<(String, JsonValue)> = Vec::new();
    let mut i: usize = 0;
    while i < ps.len()
        invariant
            i <= ps@.len(),
            r@.len() == i,
            forall|k: int| 0 <= k < i ==> (#[trigger] r@[k]).0@ == ps@[k].0@ && r@[k].1@ == ps@[k].1@,
        decreases ps@.len() - i,
    {
        r.push((ps[i].0.clone(), ps[i].1.duplicate()));
        i = i + 1;
    }
    assert(field_views(r@) =~= field_views(ps@));
    r
}

/// The response for a tool call, with the calls nested in it.
pub fn tool_call_to_response(tc: &ToolCall) -> (r: ToolCallResponse)
    ensures
        responds(*tc, r),
    decreases tc,
{
    let nested = if tc.nested_tool_calls.len() == 0 {
        None
    } else {
        let mut v: Vec<ToolCallResponse> = Vec::new();
        let mut i: usize = 0;
        while i < tc.nested_tool_calls.len()
            invariant
                i <= tc.nested_tool_calls@.len(),
                v@.len() == i,
                forall|k: int| 0 <= k < i ==> responds(#[trigger] tc.nested_tool_calls@[k], v@[k]),
            decreases tc.nested_tool_calls@.len() - i,
        {
            proof {
                assert(decreases_to!(*tc => tc.nested_tool_calls));
                assert(decreases_to!(tc.nested_tool_calls => tc.nested_tool_calls@[i as int]));
            }
            let one = tool_call_to_response(&tc.nested_tool_calls[i]);
            v.push(one);
            i = i + 1;
        }
        Some(v)
    };
    let result = match &tc.result {
        Some(JsonValue::Str(s)) => Some(s.clone()),
        Some(other) => Some(to_json_text(other)),
        None => None,
    };
    ToolCallResponse {
        id: tc.id.clone(),
        name: tc.name.clone(),
        parameters: copy_parameters(&tc.parameters),
        result,
        error: copy_opt(&tc.error),
        result_summary: copy_opt(&tc.result_summary),
        approved: Some(tc.approved),
        nested_tool_calls: nested,
    }
}

} // verus!
