//! Provider-facing conversation messages.
//!
//! A message on the wire is a JSON object; the library keeps, as plain
//! values, the fields that its logic reads. A field that is absent, or whose
//! JSON value is not a string, is `None`.
use vstd::prelude::*;

use crate::text::owned;

verus! {

/// The string view of an optional string.
pub open spec fn opt_view(o: Option<String>) -> Option<Seq<char>> {
    match o {
        Some(s) => Some(s@),
        None => None,
    }
}

/// A copy of an optional string.
fn copy_opt(o: &Option<String>) -> (r: Option<String>)
    ensures
        opt_view(r) == opt_view(*o),
{
    match o {
        Some(s) => Some(s.clone()),
        None => None,
    }
}

/// One entry of an assistant message's `tool_calls` array.
#[derive(Debug, Clone)]
pub struct ApiToolCall {
    /// The `id` field.
    pub id: Option<String>,
    /// The `function.name` field.
    pub name: Option<String>,
    /// The `function.arguments` field.
    pub arguments: Option<String>,
}

/// Mathematical model of an [`ApiToolCall`].
pub struct ApiToolCallView {
    pub id: Option<Seq<char>>,
    pub name: Option<Seq<char>>,
    pub arguments: Option<Seq<char>>,
}

impl View for ApiToolCall {
    type V = ApiToolCallView;

    open spec fn view(&self) -> ApiToolCallView {
        ApiToolCallView {
            id: opt_view(self.id),
            name: opt_view(self.name),
            arguments: opt_view(self.arguments),
        }
    }
}

/// A message of the provider conversation.
#[derive(Debug, Clone)]
pub struct ApiMessage {
    /// The `role` field (`"system"`, `"user"`, `"assistant"` or `"tool"`).
    pub role: Option<String>,
    /// The `content` field.
    pub content: Option<String>,
    /// The `name` field (the tool's name, on tool results).
    pub name: Option<String>,
    /// The `tool_call_id` field (on tool results).
    pub tool_call_id: Option<String>,
    /// The `tool_calls` array (on assistant messages).
    pub tool_calls: Option<Vec<ApiToolCall>>,
}

/// Mathematical model of an [`ApiMessage`].
pub struct ApiMessageView {
    pub role: Option<Seq<char>>,
    pub content: Option<Seq<char>>,
    pub name: Option<Seq<char>>,
    pub tool_call_id: Option<Seq<char>>,
    pub tool_calls: Option<Seq<ApiToolCallView>>,
}

/// The models of a sequence of tool calls.
pub open spec fn tool_calls_view(tcs: Seq<ApiToolCall>) -> Seq<ApiToolCallView> {
    tcs.map_values(|tc: ApiToolCall| tc@)
}

/// The models of a sequence of messages.
pub open spec fn messages_view(ms: Seq<ApiMessage>) -> Seq<ApiMessageView> {
    ms.map_values(|m: ApiMessage| m@)
}

impl View for ApiMessage {
    type V = ApiMessageView;

    open spec fn view(&self) -> ApiMessageView {
        ApiMessageView {
            role: opt_view(self.role),
            content: opt_view(self.content),
            name: opt_view(self.name),
            tool_call_id: opt_view(self.tool_call_id),
            tool_calls: match self.tool_calls {
                Some(v) => Some(tool_calls_view(v@)),
                None => None,
            },
        }
    }
}

/// The text of a message's `content`, or the empty text where it has none.
pub open spec fn content_text(m: ApiMessageView) -> Seq<char> {
    match m.content {
        Some(c) => c,
        None => Seq::empty(),
    }
}

/// The text of a message's `role`, or the empty text where it has none.
pub open spec fn role_text(m: ApiMessageView) -> Seq<char> {
    match m.role {
        Some(r) => r,
        None => Seq::empty(),
    }
}

/// A message with the given role and content and no other field.
pub open spec fn plain_message(role: Seq<char>, content: Seq<char>) -> ApiMessageView {
    ApiMessageView {
        role: Some(role),
        content: Some(content),
        name: None,
        tool_call_id: None,
        tool_calls: None,
    }
}

impl ApiMessage {
    /// A message with the given role and content and no other field.
    pub fn plain(role: &str, content: &str) -> (m: ApiMessage)
        ensures
            m@ == plain_message(role@, content@),
    {
        ApiMessage {
            role: Some(owned(role)),
            content: Some(owned(content)),
            name: None,
            tool_call_id: None,
            tool_calls: None,
        }
    }

    /// A copy of the message.
    pub fn copy(&self) -> (r: ApiMessage)
        ensures
            r@ == self@,
    {
        let tool_calls = match &self.tool_calls {
            Some(tcs) => {
                let mut v: Vec<ApiToolCall> = Vec::new();
                let mut i: usize = 0;
                while i < tcs.len()
                    invariant
                        i <= tcs@.len(),
                        tool_calls_view(v@) == tool_calls_view(tcs@).take(i as int),
                    decreases tcs@.len() - i,
                {
                    let tc = &tcs[i];
                    let c = ApiToolCall { id: copy_opt(&tc.id), name: copy_opt(&tc.name), arguments: copy_opt(&tc.arguments) };
                    let ghost before = v@;
                    v.push(c);
                    proof {
                        assert(tool_calls_view(v@) =~= tool_calls_view(before).push(c@));
                        assert(tool_calls_view(tcs@).take(i + 1) =~= tool_calls_view(tcs@).take(i as int).push(tcs@[i as int]@));
                    }
                    i = i + 1;
                }
                assert(tool_calls_view(tcs@).take(tcs@.len() as int) =~= tool_calls_view(tcs@));
                Some(v)
            },
            None => None,
        };
        ApiMessage {
            role: copy_opt(&self.role),
            content: copy_opt(&self.content),
            name: copy_opt(&self.name),
            tool_call_id: copy_opt(&self.tool_call_id),
            tool_calls,
        }
    }

    /// The message's content as text, empty where there is none.
    pub fn content_str(&self) -> (r: &str)
        ensures
            r@ == content_text(self@),
    {
        match &self.content {
            Some(c) => c.as_str(),
            None => {
                proof {
                    reveal_strlit("");
                }
                ""
            },
        }
    }

    /// The message's role as text, empty where there is none.
    pub fn role_str(&self) -> (r: &str)
        ensures
            r@ == role_text(self@),
    {
        match &self.role {
            Some(r) => r.as_str(),
            None => {
                proof {
                    reveal_strlit("");
                }
                ""
            },
        }
    }
}

} // verus!
