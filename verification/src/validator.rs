//! Validation of session messages before they are saved, and repair of
//! malformed messages when a session is loaded.
use vstd::prelude::*;

use crate::json::{Json, JsonValue};
use crate::text::{chars_of, owned, push_decimal, push_str, str_eq, trim, trim_chars};

verus! {

/// Who wrote a message.
#[derive(Debug, Clone, Copy, PartialEq, Eq, Structural)]
pub enum Role {
    User,
    Assistant,
    System,
}

/// A tool call recorded on an assistant message.
#[derive(Debug)]
pub struct ToolCall {
    pub id: String,
    pub name: String,
    /// The tool's result, as JSON.
    pub result: Option<JsonValue>,
    pub error: Option<String>,
    pub nested_tool_calls: Vec<ToolCall>,
}

/// A message of a session's history: the fields that validation reads.
#[derive(Debug)]
pub struct ChatMessage {
    pub role: Role,
    pub content: String,
    pub tool_calls: Vec<ToolCall>,
    pub thinking_trace: Option<String>,
    pub reasoning_content: Option<String>,
    /// The token usage record, as JSON.
    pub token_usage: Option<JsonValue>,
}

/// Result of message validation.
#[derive(Debug, Clone)]
pub struct ValidationVerdict {
    pub is_valid: bool,
    pub reason: String,
}

/// Whether a text is empty after trimming.
pub open spec fn blank(s: Seq<char>) -> bool {
    trim(s).len() == 0
}

fn is_blank(s: &str) -> (r: bool)
    ensures
        r == blank(s@),
{
    let cs = chars_of(s);
    trim_chars(cs.as_slice()).len() == 0
}

/// Whether a tool call needs a result or an error that it lacks.
pub open spec fn incomplete(tc: ToolCall) -> bool {
    tc.result is None && tc.error is None && tc.name@ != "task_complete"@
}

/// The reason a tool call is invalid, if it is, at path `path`.
pub open spec fn tool_call_reason(tc: ToolCall, path: Seq<char>) -> Option<Seq<char>>
    decreases tc, tc.nested_tool_calls@.len() + 1,
{
    let prefix = path + "tool_call"@;
    if blank(tc.id@) {
        Some(prefix + " has empty id"@)
    } else if blank(tc.name@) {
        Some(prefix + " ["@ + tc.id@ + "] has empty name"@)
    } else if incomplete(tc) {
        Some(prefix + " ["@ + tc.id@ + "] ("@ + tc.name@ + ") has no result and no error"@)
    } else {
        nested_reason(tc, prefix, 0)
    }
}

/// The reason one of the nested tool calls from position `i` on is
/// invalid, if any.
pub open spec fn nested_reason(tc: ToolCall, prefix: Seq<char>, i: int) -> Option<Seq<char>>
    decreases tc, tc.nested_tool_calls@.len() - i,
{
    if i < 0 || i >= tc.nested_tool_calls@.len() {
        None
    } else {
        proof {
            assert(decreases_to!(tc => tc.nested_tool_calls));
        }
        match tool_call_reason(
            tc.nested_tool_calls@[i],
            prefix + "["@ + crate::text::decimal(i as nat) + "]."@,
        ) {
            Some(r) => Some(r),
            None => nested_reason(tc, prefix, i + 1),
        }
    }
}

/// The reason a tool call (and its nested calls, depth first) is invalid,
/// if it is, at path `path`.
fn validate_tool_call(tc: &ToolCall, path: &str) -> (r: Option<String>)
    ensures
        match r {
            Some(s) => tool_call_reason(*tc, path@) == Some(s@),
            None => tool_call_reason(*tc, path@) is None,
        },
    decreases *tc,
{
    let mut prefix = owned(path);
    push_str(&mut prefix, "tool_call");
    if is_blank(tc.id.as_str()) {
        let mut r = prefix;
        push_str(&mut r, " has empty id");
        return Some(r);
    }
    if is_blank(tc.name.as_str()) {
        let mut r = prefix;
        push_str(&mut r, " [");
        push_str(&mut r, tc.id.as_str());
        push_str(&mut r, "] has empty name");
        assert(r@ =~= path@ + "tool_call"@ + " ["@ + tc.id@ + "] has empty name"@);
        return Some(r);
    }
    if tc.result.is_none() && tc.error.is_none() && !str_eq(tc.name.as_str(), "task_complete") {
        let mut r = prefix;
        push_str(&mut r, " [");
        push_str(&mut r, tc.id.as_str());
        push_str(&mut r, "] (");
        push_str(&mut r, tc.name.as_str());
        push_str(&mut r, ") has no result and no error");
        assert(r@ =~= path@ + "tool_call"@ + " ["@ + tc.id@ + "] ("@ + tc.name@
            + ") has no result and no error"@);
        return Some(r);
    }
    let mut i: usize = 0;
    while i < tc.nested_tool_calls.len()
        invariant
            i <= tc.nested_tool_calls@.len(),
            prefix@ == path@ + "tool_call"@,
            tool_call_reason(*tc, path@) == nested_reason(*tc, prefix@, i as int),
        decreases tc.nested_tool_calls@.len() - i,
    {
        let mut nested_path = prefix.clone();
        push_str(&mut nested_path, "[");
        push_decimal(&mut nested_path, i as u64);
        push_str(&mut nested_path, "].");
        proof {
            assert(decreases_to!(*tc => tc.nested_tool_calls));
            assert(nested_path@ =~= prefix@ + "["@ + crate::text::decimal(i as nat) + "]."@);
        }
        let found = validate_tool_call(&tc.nested_tool_calls[i], nested_path.as_str());
        if found.is_some() {
            return found;
        }
        i = i + 1;
    }
    None
}

/// The reason a message is invalid, if it is; `usage_is_object` says
/// whether its token usage record, where it has one, is a JSON object.
pub open spec fn message_reason(m: ChatMessage, usage_is_object: bool) -> Option<Seq<char>> {
    let role_reason: Option<Seq<char>> = match m.role {
        Role::User => if blank(m.content@) {
            Some("user message has empty content"@)
        } else if m.tool_calls@.len() > 0 {
            Some("user message has tool_calls"@)
        } else {
            None
        },
        Role::Assistant => if blank(m.content@) && m.tool_calls@.len() == 0 {
            Some("assistant message has no content and no tool_calls"@)
        } else {
            match first_call_reason(m.tool_calls@, 0) {
                Some(r) => Some(r),
                None => if m.thinking_trace matches Some(t) && blank(t@) {
                    Some("assistant message has empty thinking_trace"@)
                } else if m.reasoning_content matches Some(t) && blank(t@) {
                    Some("assistant message has empty reasoning_content"@)
                } else {
                    None
                },
            }
        },
        Role::System => if blank(m.content@) {
            Some("system message has empty content"@)
        } else {
            None
        },
    };
    match role_reason {
        Some(r) => Some(r),
        None => if m.token_usage is Some && !usage_is_object {
            Some("token_usage is not a dict"@)
        } else {
            None
        },
    }
}

/// The reason of the first invalid top-level tool call from position `i`.
pub open spec fn first_call_reason(tcs: Seq<ToolCall>, i: int) -> Option<Seq<char>>
    decreases tcs.len() - i,
{
    if i < 0 || i >= tcs.len() {
        None
    } else {
        match tool_call_reason(tcs[i], Seq::empty()) {
            Some(r) => Some(r),
            None => first_call_reason(tcs, i + 1),
        }
    }
}

/// The reason of the first invalid top-level tool call, if any.
fn first_invalid_call(tcs: &Vec<ToolCall>) -> (r: Option<String>)
    ensures
        match r {
            Some(s) => first_call_reason(tcs@, 0) == Some(s@),
            None => first_call_reason(tcs@, 0) is None,
        },
{
    let mut i: usize = 0;
    while i < tcs.len()
        invariant
            i <= tcs@.len(),
            first_call_reason(tcs@, 0) == first_call_reason(tcs@, i as int),
        decreases tcs@.len() - i,
    {
        proof {
            reveal_strlit("");
        }
        let reason = validate_tool_call(&tcs[i], "");
        if reason.is_some() {
            return reason;
        }
        i = i + 1;
    }
    None
}

/// The verdict for a message, given whether its token usage record is a
/// JSON object.
pub fn validate_message_with(msg: &ChatMessage, usage_is_object: bool) -> (r: ValidationVerdict)
    ensures
        r.is_valid == (message_reason(*msg, usage_is_object) is None),
        match message_reason(*msg, usage_is_object) {
            Some(reason) => r.reason@ == reason,
            None => r.reason@ == Seq::<char>::empty(),
        },
{
    let role_reason: Option<String> = match msg.role {
        Role::User => {
            if is_blank(msg.content.as_str()) {
                Some(owned("user message has empty content"))
            } else if msg.tool_calls.len() > 0 {
                Some(owned("user message has tool_calls"))
            } else {
                None
            }
        },
        Role::Assistant => {
            if is_blank(msg.content.as_str()) && msg.tool_calls.len() == 0 {
                Some(owned("assistant message has no content and no tool_calls"))
            } else {
                let found = first_invalid_call(&msg.tool_calls);
                if found.is_some() {
                    found
                } else if msg.thinking_trace.is_some() && is_blank(
                    msg.thinking_trace.as_ref().unwrap().as_str(),
                ) {
                    Some(owned("assistant message has empty thinking_trace"))
                } else if msg.reasoning_content.is_some() && is_blank(
                    msg.reasoning_content.as_ref().unwrap().as_str(),
                ) {
                    Some(owned("assistant message has empty reasoning_content"))
                } else {
                    None
                }
            }
        },
        Role::System => {
            if is_blank(msg.content.as_str()) {
                Some(owned("system message has empty content"))
            } else {
                None
            }
        },
    };
    match role_reason {
        Some(reason) => ValidationVerdict { is_valid: false, reason },
        None => {
            if msg.token_usage.is_some() && !usage_is_object {
                ValidationVerdict { is_valid: false, reason: owned("token_usage is not a dict") }
            } else {
                ValidationVerdict { is_valid: true, reason: String::new() }
            }
        },
    }
}

/// Whether a message's token usage record, where it has one, is a JSON
/// object.
pub open spec fn usage_is_object(m: ChatMessage) -> bool {
    match m.token_usage {
        Some(u) => u@ is Object,
        None => true,
    }
}

/// Strict pre-save validation of a message.
pub fn validate_message(msg: &ChatMessage) -> (r: ValidationVerdict)
    ensures
        r.is_valid == (message_reason(*msg, usage_is_object(*msg)) is None),
        match message_reason(*msg, usage_is_object(*msg)) {
            Some(reason) => r.reason@ == reason,
            None => r.reason@ == Seq::<char>::empty(),
        },
{
    let usage_is_object = match &msg.token_usage {
        Some(JsonValue::Object(_)) => true,
        Some(_) => false,
        None => true,
    };
    validate_message_with(msg, usage_is_object)
}

/// The error recorded on a tool call that never completed.
pub open spec fn interrupted_error() -> Seq<char> {
    "Tool execution was interrupted or never completed."@
}

/// Whether `a` is `b` repaired: an incomplete call gets the interrupted
/// error, nested calls are repaired in turn, and nothing else changes.
pub open spec fn tool_call_repaired(b: ToolCall, a: ToolCall) -> bool
    decreases b, b.nested_tool_calls@.len() + 1,
{
    &&& a.id@ == b.id@
    &&& a.name@ == b.name@
    &&& a.result == b.result
    &&& (if incomplete(b) {
        a.error matches Some(e) && e@ == interrupted_error()
    } else {
        crate::message::opt_view(a.error) == crate::message::opt_view(b.error)
    })
    &&& a.nested_tool_calls@.len() == b.nested_tool_calls@.len()
    &&& nested_repaired(b, a, 0)
}

/// Whether the nested calls of `a` from position `i` on are those of `b`
/// repaired.
pub open spec fn nested_repaired(b: ToolCall, a: ToolCall, i: int) -> bool
    decreases b, b.nested_tool_calls@.len() - i,
{
    if i < 0 || i >= b.nested_tool_calls@.len() {
        true
    } else {
        proof {
            assert(decreases_to!(b => b.nested_tool_calls));
        }
        tool_call_repaired(b.nested_tool_calls@[i], a.nested_tool_calls@[i]) && nested_repaired(
            b,
            a,
            i + 1,
        )
    }
}

proof fn lemma_nested_repaired_prefix(b: ToolCall, a: ToolCall, i: int)
    requires
        0 <= i <= b.nested_tool_calls@.len(),
        a.nested_tool_calls@.len() == b.nested_tool_calls@.len(),
        forall|j: int|
            i <= j < b.nested_tool_calls@.len() ==> tool_call_repaired(
                #[trigger] b.nested_tool_calls@[j],
                a.nested_tool_calls@[j],
            ),
    ensures
        nested_repaired(b, a, i),
    decreases b.nested_tool_calls@.len() - i,
{
    if i < b.nested_tool_calls@.len() {
        lemma_nested_repaired_prefix(b, a, i + 1);
    }
}

/// Gives an incomplete tool call the interrupted error, and repairs its
/// nested calls in turn.
fn repair_tool_call(tc: &mut ToolCall)
    ensures
        tool_call_repaired(*old(tc), *final(tc)),
    decreases *old(tc),
{
    let ghost before = *tc;
    if tc.result.is_none() && tc.error.is_none() && !str_eq(tc.name.as_str(), "task_complete") {
        tc.error = Some(owned("Tool execution was interrupted or never completed."));
    }
    let n = tc.nested_tool_calls.len();
    let mut i: usize = 0;
    while i < n
        invariant
            i <= n == tc.nested_tool_calls@.len() == before.nested_tool_calls@.len(),
            tc.id == before.id,
            tc.name == before.name,
            tc.result == before.result,
            if incomplete(before) {
                tc.error matches Some(e) && e@ == interrupted_error()
            } else {
                tc.error == before.error
            },
            forall|j: int| i <= j < n ==> tc.nested_tool_calls@[j] == before.nested_tool_calls@[j],
            forall|j: int|
                0 <= j < i ==> tool_call_repaired(
                    #[trigger] before.nested_tool_calls@[j],
                    tc.nested_tool_calls@[j],
                ),
            before == *old(tc),
        decreases n - i,
    {
        proof {
            assert(decreases_to!(before => before.nested_tool_calls@[i as int]));
            assert(tc.nested_tool_calls@[i as int] == before.nested_tool_calls@[i as int]);
        }
        repair_tool_call(&mut tc.nested_tool_calls[i]);
        i = i + 1;
    }
    proof {
        lemma_nested_repaired_prefix(before, *tc, 0);
    }
}

/// Whether `a` is message `b` repaired: its tool calls repaired, and an
/// empty thinking trace or reasoning content dropped.
pub open spec fn message_repaired(b: ChatMessage, a: ChatMessage) -> bool {
    &&& a.role == b.role
    &&& a.content@ == b.content@
    &&& a.token_usage == b.token_usage
    &&& a.tool_calls@.len() == b.tool_calls@.len()
    &&& forall|j: int|
        0 <= j < b.tool_calls@.len() ==> tool_call_repaired(
            #[trigger] b.tool_calls@[j],
            a.tool_calls@[j],
        )
    &&& crate::message::opt_view(a.thinking_trace) == (match b.thinking_trace {
        Some(t) => if blank(t@) {
            None
        } else {
            Some(t@)
        },
        None => None,
    })
    &&& crate::message::opt_view(a.reasoning_content) == (match b.reasoning_content {
        Some(t) => if blank(t@) {
            None
        } else {
            Some(t@)
        },
        None => None,
    })
}

/// Whether a message is kept on load: it has content or tool calls.
pub open spec fn keepable(m: ChatMessage) -> bool {
    !blank(m.content@) || m.tool_calls@.len() > 0
}

/// Whether repairing a message changes its thinking trace or reasoning
/// content.
pub open spec fn normalizes(m: ChatMessage) -> bool {
    (m.thinking_trace matches Some(t) && blank(t@)) || (m.reasoning_content matches Some(t)
        && blank(t@))
}

/// Repairs a message; `false` where it has neither content nor tool calls
/// and is beyond repair.
pub fn repair_message(msg: &mut ChatMessage) -> (r: bool)
    ensures
        r == keepable(*old(msg)),
        r ==> message_repaired(*old(msg), *final(msg)),
{
    let has_content = !is_blank(msg.content.as_str());
    let has_tools = msg.tool_calls.len() > 0;
    if !has_content && !has_tools {
        return false;
    }
    let ghost before = *msg;
    let n = msg.tool_calls.len();
    let mut i: usize = 0;
    while i < n
        invariant
            i <= n == msg.tool_calls@.len() == before.tool_calls@.len(),
            msg.role == before.role,
            msg.content == before.content,
            msg.token_usage == before.token_usage,
            msg.thinking_trace == before.thinking_trace,
            msg.reasoning_content == before.reasoning_content,
            forall|j: int| i <= j < n ==> msg.tool_calls@[j] == before.tool_calls@[j],
            forall|j: int|
                0 <= j < i ==> tool_call_repaired(
                    #[trigger] before.tool_calls@[j],
                    msg.tool_calls@[j],
                ),
        decreases n - i,
    {
        repair_tool_call(&mut msg.tool_calls[i]);
        i = i + 1;
    }
    let drop_trace = match &msg.thinking_trace {
        Some(t) => is_blank(t.as_str()),
        None => false,
    };
    if drop_trace {
        msg.thinking_trace = None;
    }
    let drop_reasoning = match &msg.reasoning_content {
        Some(t) => is_blank(t.as_str()),
        None => false,
    };
    if drop_reasoning {
        msg.reasoning_content = None;
    }
    true
}

/// Whether `after` is `before` with the unkeepable messages dropped and the
/// rest repaired, in order.
pub open spec fn messages_filtered(before: Seq<ChatMessage>, after: Seq<ChatMessage>) -> bool
    decreases before.len(),
{
    if before.len() == 0 {
        after.len() == 0
    } else if !keepable(before.last()) {
        messages_filtered(before.drop_last(), after)
    } else {
        after.len() > 0 && message_repaired(before.last(), after.last()) && messages_filtered(
            before.drop_last(),
            after.drop_last(),
        )
    }
}

/// The number of messages that cannot be kept.
pub open spec fn dropped_count(ms: Seq<ChatMessage>) -> nat
    decreases ms.len(),
{
    if ms.len() == 0 {
        0
    } else {
        dropped_count(ms.drop_last()) + if keepable(ms.last()) {
            0nat
        } else {
            1nat
        }
    }
}

/// The number of kept messages whose thinking trace or reasoning content is
/// dropped.
pub open spec fn normalized_count(ms: Seq<ChatMessage>) -> nat
    decreases ms.len(),
{
    if ms.len() == 0 {
        0
    } else {
        normalized_count(ms.drop_last()) + if keepable(ms.last()) && normalizes(ms.last()) {
            1nat
        } else {
            0nat
        }
    }
}

proof fn lemma_counts_bounded(ms: Seq<ChatMessage>)
    ensures
        dropped_count(ms) <= ms.len(),
        normalized_count(ms) <= ms.len(),
    decreases ms.len(),
{
    if ms.len() > 0 {
        lemma_counts_bounded(ms.drop_last());
    }
}

/// Bulk load-time cleanup: repairs what it can and drops what it cannot.
/// Returns how many messages were dropped and how many were repaired (had
/// an empty thinking trace or reasoning content removed).
pub fn filter_and_repair_messages(messages: &mut Vec<ChatMessage>) -> (r: (usize, usize))
    ensures
        messages_filtered(old(messages)@, final(messages)@),
        r.0 == dropped_count(old(messages)@),
        r.1 == normalized_count(old(messages)@),
        final(messages)@.len() + r.0 == old(messages)@.len(),
        r.1 <= final(messages)@.len(),
{
    let ghost orig = messages@;
    let n0 = messages.len();
    assert(orig.len() == n0);
    let mut rest: Vec<ChatMessage> = Vec::new();
    std::mem::swap(&mut rest, messages);
    let mut kept: Vec<ChatMessage> = Vec::new();
    let mut dropped: usize = 0;
    let mut repaired: usize = 0;
    let ghost mut i: int = 0;
    proof {
        lemma_counts_bounded(orig);
        assert(orig.take(0) =~= Seq::<ChatMessage>::empty());
    }
    while rest.len() > 0
        invariant
            0 <= i <= orig.len(),
            rest@ == orig.skip(i),
            messages_filtered(orig.take(i), kept@),
            dropped == dropped_count(orig.take(i)),
            repaired == normalized_count(orig.take(i)),
            dropped_count(orig) <= orig.len(),
            normalized_count(orig) <= orig.len(),
            dropped <= i,
            repaired <= i,
            orig.len() <= usize::MAX,
        decreases rest@.len(),
    {
        let ghost rv = rest@;
        let mut msg = rest.remove(0);
        proof {
            assert(orig.skip(i)[0] == orig[i]);
            assert(rest@ =~= orig.skip(i + 1));
            assert(orig.take(i + 1).drop_last() =~= orig.take(i));
            assert(orig.take(i + 1).last() == orig[i]);
            lemma_counts_bounded(orig.take(i + 1));
        }
        let ghost m0 = msg;
        let changes = match &msg.thinking_trace {
            Some(t) => is_blank(t.as_str()),
            None => false,
        } || match &msg.reasoning_content {
            Some(t) => is_blank(t.as_str()),
            None => false,
        };
        if repair_message(&mut msg) {
            if changes {
                repaired = repaired + 1;
            }
            let ghost kv = kept@;
            kept.push(msg);
            proof {
                assert(kept@.drop_last() =~= kv);
            }
        } else {
            dropped = dropped + 1;
        }
        proof {
            i = i + 1;
        }
    }
    proof {
        assert(orig.skip(i).len() == 0);
        assert(orig.take(i) =~= orig);
    }
    proof {
        law_filter_counts(orig, kept@);
    }
    *messages = kept;
    (dropped, repaired)
}

proof fn lemma_repaired_call_fixed(b: ToolCall, a: ToolCall)
    requires
        tool_call_repaired(b, a),
    ensures
        tool_call_repaired(a, a),
    decreases b, b.nested_tool_calls@.len() + 1,
{
    lemma_nested_fixed(b, a, 0);
}

proof fn lemma_nested_fixed(b: ToolCall, a: ToolCall, i: int)
    requires
        nested_repaired(b, a, i),
        a.nested_tool_calls@.len() == b.nested_tool_calls@.len(),
    ensures
        nested_repaired(a, a, i),
    decreases b, b.nested_tool_calls@.len() - i,
{
    if 0 <= i < b.nested_tool_calls@.len() {
        assert(decreases_to!(b => b.nested_tool_calls));
        assert(decreases_to!(b.nested_tool_calls => b.nested_tool_calls@[i]));
        lemma_repaired_call_fixed(b.nested_tool_calls@[i], a.nested_tool_calls@[i]);
        lemma_nested_fixed(b, a, i + 1);
    }
}

proof fn lemma_repaired_message_fixed(b: ChatMessage, a: ChatMessage)
    requires
        keepable(b),
        message_repaired(b, a),
    ensures
        keepable(a),
        !normalizes(a),
        message_repaired(a, a),
{
    assert forall|j: int| 0 <= j < a.tool_calls@.len() implies tool_call_repaired(
        #[trigger] a.tool_calls@[j],
        a.tool_calls@[j],
    ) by {
        lemma_repaired_call_fixed(b.tool_calls@[j], a.tool_calls@[j]);
    }
}

/// Filtering and repairing a second time changes nothing: nothing is
/// dropped or repaired, and the messages are their own repaired form.
pub proof fn law_filter_and_repair_idempotent(before: Seq<ChatMessage>, after: Seq<ChatMessage>)
    requires
        messages_filtered(before, after),
    ensures
        dropped_count(after) == 0,
        normalized_count(after) == 0,
        messages_filtered(after, after),
    decreases before.len(),
{
    if before.len() > 0 {
        if !keepable(before.last()) {
            law_filter_and_repair_idempotent(before.drop_last(), after);
        } else {
            law_filter_and_repair_idempotent(before.drop_last(), after.drop_last());
            lemma_repaired_message_fixed(before.last(), after.last());
        }
    }
}

/// The counts of one filter-and-repair pass: every message is either kept
/// or counted as dropped, and only kept messages are counted as repaired.
pub proof fn law_filter_counts(before: Seq<ChatMessage>, after: Seq<ChatMessage>)
    requires
        messages_filtered(before, after),
    ensures
        after.len() + dropped_count(before) == before.len(),
        normalized_count(before) <= after.len(),
    decreases before.len(),
{
    if before.len() > 0 {
        if !keepable(before.last()) {
            law_filter_counts(before.drop_last(), after);
        } else {
            law_filter_counts(before.drop_last(), after.drop_last());
        }
    }
}

} // verus!
