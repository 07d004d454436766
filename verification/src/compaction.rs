//! Summaries of conversation stretches that compaction replaces.
use vstd::prelude::*;

use crate::json::{field_views, Json, JsonValue};
use crate::message::{content_text, messages_view, plain_message, role_text, ApiMessage, ApiMessageView};
use crate::text::{byte_len, decimal, join_lines, prefix_chars, push_decimal, push_str, str_byte_len, str_eq, take_chars};

verus! {

/// Characters of each message kept by the fallback summary.
pub const SUMMARY_SNIPPET_CHARS: usize = 200;

/// Bytes of snippets after which the fallback summary stops.
pub const SUMMARY_BUDGET_BYTES: usize = 2000;

/// Characters of each message kept for an LLM summarisation request.
pub const SANITIZE_SNIPPET_CHARS: usize = 500;

/// Whether the fallback summary lists a message: a user or assistant message
/// with text content.
pub open spec fn summarised(m: ApiMessageView) -> bool {
    &&& content_text(m).len() > 0
    &&& (role_text(m) == "user"@ || role_text(m) == "assistant"@)
}

/// The snippet of a message that a summary keeps.
pub open spec fn summary_snippet(m: ApiMessageView) -> Seq<char> {
    prefix_chars(content_text(m), SUMMARY_SNIPPET_CHARS as nat)
}

/// The line `- [role] snippet`.
pub open spec fn summary_line(m: ApiMessageView) -> Seq<char> {
    "- ["@ + role_text(m) + "] "@ + summary_snippet(m)
}

/// `n - k`, or zero where `k` exceeds `n`.
pub open spec fn sub_or_zero(n: nat, k: nat) -> nat {
    if n >= k {
        (n - k) as nat
    } else {
        0
    }
}

/// The summary of `ms`, the rest of a list of `n` messages, after `count`
/// lines holding `total` bytes of snippets: one line per summarised message,
/// until the snippets pass the byte budget, where a last line says how many
/// messages were left out.
pub open spec fn summary_from(ms: Seq<ApiMessageView>, total: nat, count: nat, n: nat) -> Seq<
    char,
>
    decreases ms.len(),
{
    if ms.len() == 0 {
        Seq::empty()
    } else if !summarised(ms[0]) {
        summary_from(ms.drop_first(), total, count, n)
    } else {
        let sep = if count > 0 {
            "\n"@
        } else {
            Seq::empty()
        };
        let t = total + byte_len(summary_snippet(ms[0]));
        let line = sep + summary_line(ms[0]);
        if t > SUMMARY_BUDGET_BYTES {
            line + "\n... ("@ + decimal(sub_or_zero(n, count + 1)) + " more messages)"@
        } else {
            line + summary_from(ms.drop_first(), t, count + 1, n)
        }
    }
}

/// The summary of no messages: each section says that nothing is known.
pub open spec fn empty_summary_text() -> Seq<char> {
    "## Goal\nUnknown\n\n## Key Actions\nNone recorded\n\n## Current State\nNo assistant response recorded"@
}

/// The fallback summary of a list of messages: the placeholder summary for
/// none, else one line per summarised message.
pub open spec fn fallback_summary_text(ms: Seq<ApiMessageView>) -> Seq<char> {
    if ms.len() == 0 {
        empty_summary_text()
    } else {
        summary_from(ms, 0, 0, ms.len())
    }
}

/// The role shown for a message in a summarisation request.
pub open spec fn role_or_unknown(m: ApiMessageView) -> Seq<char> {
    match m.role {
        Some(r) => r,
        None => "unknown"@,
    }
}

/// The entries `[role] snippet` of the messages with text content.
pub open spec fn sanitized_parts(ms: Seq<ApiMessageView>) -> Seq<Seq<char>>
    decreases ms.len(),
{
    if ms.len() == 0 {
        Seq::empty()
    } else {
        let prev = sanitized_parts(ms.drop_last());
        let m = ms.last();
        if content_text(m).len() > 0 {
            prev.push(
                "["@ + role_or_unknown(m) + "] "@ + prefix_chars(
                    content_text(m),
                    SANITIZE_SNIPPET_CHARS as nat,
                ),
            )
        } else {
            prev
        }
    }
}

/// The summarisation helpers of the context compactor; they use none of the
/// compactor's state.
pub struct ContextCompactor {}

impl ContextCompactor {
    /// Creates a basic summary without an LLM call.
    #[verifier::rlimit(40)]
    pub fn fallback_summary(messages: &[ApiMessage]) -> (r: String)
        ensures
            r@ == fallback_summary_text(crate::message::messages_view(messages@)),
    {
        let ghost ms = crate::message::messages_view(messages@);
        let n = messages.len();
        if n == 0 {
            return crate::text::owned(
                "## Goal\nUnknown\n\n## Key Actions\nNone recorded\n\n## Current State\nNo assistant response recorded",
            );
        }
        let mut buf = String::new();
        let mut total: usize = 0;
        let mut entry_count: usize = 0;
        let mut i: usize = 0;
        proof {
            assert(ms.subrange(0, ms.len() as int) =~= ms);
        }
        while i < n
            invariant_except_break
                i <= n == messages@.len() == ms.len(),
                ms == crate::message::messages_view(messages@),
                total <= SUMMARY_BUDGET_BYTES,
                entry_count <= i,
                n > 0,
                buf@ + summary_from(ms.subrange(i as int, n as int), total as nat, entry_count as nat, n as nat)
                    == fallback_summary_text(ms),
            ensures
                buf@ == fallback_summary_text(ms),
            decreases n - i,
        {
            proof {
                reveal_strlit("user");
                reveal_strlit("assistant");
            }
            let ghost rest = ms.subrange(i as int, n as int);
            proof {
                assert(rest.drop_first() =~= ms.subrange(i + 1, n as int));
                assert(rest[0] == messages@[i as int]@);
            }
            let msg = &messages[i];
            let content = msg.content_str();
            let role = msg.role_str();
            if !content.is_empty() && (str_eq(role, "user") || str_eq(role, "assistant")) {
                let snippet = take_chars(content, SUMMARY_SNIPPET_CHARS);
                if entry_count > 0 {
                    push_str(&mut buf, "\n");
                } else {
                    proof {
                        assert(buf@ + Seq::<char>::empty() == buf@);
                    }
                }
                push_str(&mut buf, "- [");
                push_str(&mut buf, role);
                push_str(&mut buf, "] ");
                push_str(&mut buf, snippet.as_str());
                let len = str_byte_len(snippet.as_str());
                proof {
                    crate::text::lemma_byte_len_bounds(snippet@);
                }
                total = total + len;
                entry_count = entry_count + 1;
                if total > SUMMARY_BUDGET_BYTES {
                    let remaining = if n >= entry_count {
                        n - entry_count
                    } else {
                        0
                    };
                    push_str(&mut buf, "\n... (");
                    push_decimal(&mut buf, remaining as u64);
                    push_str(&mut buf, " more messages)");
                    proof {
                        assert(buf@ == fallback_summary_text(ms));
                    }
                    break;
                }
            }
            i = i + 1;
        }
        proof {
            assert(ms.subrange(n as int, n as int) =~= Seq::<ApiMessageView>::empty());
        }
        buf
    }

    /// Renders messages for an LLM summarisation request: one line
    /// `[role] snippet` per message with text content.
    pub fn sanitize_for_summarization(messages: &[ApiMessage]) -> (r: String)
        ensures
            r@ == join_lines(sanitized_parts(crate::message::messages_view(messages@))),
    {
        let ghost ms = crate::message::messages_view(messages@);
        let mut out = String::new();
        let mut count: usize = 0;
        let mut i: usize = 0;
        while i < messages.len()
            invariant
                i <= messages@.len() == ms.len(),
                ms == crate::message::messages_view(messages@),
                count == sanitized_parts(ms.take(i as int)).len(),
                count <= i,
                out@ == join_lines(sanitized_parts(ms.take(i as int))),
            decreases messages@.len() - i,
        {
            proof {
                reveal_strlit("unknown");
                assert(ms.take(i + 1).drop_last() =~= ms.take(i as int));
                assert(ms.take(i + 1).last() == messages@[i as int]@);
            }
            let msg = &messages[i];
            let content = msg.content_str();
            if !content.is_empty() {
                let role = match &msg.role {
                    Some(r) => r.as_str(),
                    None => "unknown",
                };
                let snippet = take_chars(content, SANITIZE_SNIPPET_CHARS);
                let ghost parts = sanitized_parts(ms.take(i as int));
                if count > 0 {
                    push_str(&mut out, "\n");
                }
                push_str(&mut out, "[");
                push_str(&mut out, role);
                push_str(&mut out, "] ");
                push_str(&mut out, snippet.as_str());
                proof {
                    let line = "["@ + role@ + "] "@ + snippet@;
                    assert(sanitized_parts(ms.take(i + 1)) == parts.push(line));
                    assert(parts.push(line).drop_last() =~= parts);
                    if count == 0 {
                        assert(out@ =~= line);
                    } else {
                        assert(out@ =~= join_lines(parts) + "\n"@ + line);
                    }
                }
                count = count + 1;
            }
            i = i + 1;
        }
        proof {
            assert(ms.take(i as int) =~= ms);
        }
        out
    }
}

/// Sessions with at least this many messages get sliding-window compaction.
pub const SLIDING_WINDOW_THRESHOLD: usize = 500;

/// The summary message text of a compaction: a heading, the fallback
/// summary of the messages replaced, and the artifact summary where there
/// is one.
pub open spec fn compaction_text(heading: Seq<char>, middle: Seq<ApiMessageView>, artifacts: Seq<char>) -> Seq<char> {
    let base = heading + fallback_summary_text(middle);
    if artifacts.len() == 0 {
        base
    } else {
        base + "\n\n"@ + artifacts
    }
}

/// The heading of a sliding-window summary of `n` messages.
pub open spec fn window_heading(n: nat) -> Seq<char> {
    "[SLIDING WINDOW SUMMARY \u{2014} "@ + decimal(n) + " messages compressed]\n"@
}

/// `ms` with the messages between the first and position `cut` replaced by
/// one user message holding `text(middle)`.
pub open spec fn replaced_middle(ms: Seq<ApiMessageView>, cut: int, text: Seq<char>) -> Seq<ApiMessageView> {
    seq![ms[0]] + seq![plain_message("user"@, text)] + ms.subrange(cut, ms.len() as int)
}

/// What sliding-window compaction makes of `ms`, keeping the `recent`
/// last messages: unchanged below the threshold or where nothing lies
/// between the first message and the recent ones.
pub open spec fn sliding_window_result(ms: Seq<ApiMessageView>, recent: nat, artifacts: Seq<char>) -> Seq<
    ApiMessageView,
> {
    let cut = sub_or_zero(ms.len(), recent);
    if ms.len() < SLIDING_WINDOW_THRESHOLD || cut <= 1 {
        ms
    } else {
        let middle = ms.subrange(1, cut as int);
        replaced_middle(ms, cut as int, compaction_text(window_heading(middle.len()), middle, artifacts))
    }
}

/// How many recent messages compaction keeps: a third, from 2 to 5.
pub open spec fn keep_recent(n: nat) -> nat {
    if n / 3 < 2 {
        2
    } else if n / 3 > 5 {
        5
    } else {
        n / 3
    }
}

/// What compaction makes of `ms`: unchanged with at most four messages
/// (or nothing to replace), else the first message, the summary of the
/// ones before the recent ones, and the recent ones.
pub open spec fn compact_result(ms: Seq<ApiMessageView>, artifacts: Seq<char>) -> Seq<ApiMessageView> {
    let cut = ms.len() - keep_recent(ms.len());
    if ms.len() <= 4 || cut <= 1 {
        ms
    } else {
        let middle = ms.subrange(1, cut);
        replaced_middle(ms, cut, compaction_text("[CONVERSATION SUMMARY]\n"@, middle, artifacts))
    }
}

/// Replaces the messages between the first and position `cut` by a user
/// message of `heading`, their summary and the artifact summary.
fn replace_middle(messages: Vec<ApiMessage>, cut: usize, heading: String, artifacts: &str) -> (r: Vec<ApiMessage>)
    requires
        1 < cut <= messages@.len(),
    ensures
        messages_view(r@) == replaced_middle(
            messages_view(messages@),
            cut as int,
            compaction_text(heading@, messages_view(messages@).subrange(1, cut as int), artifacts@),
        ),
{
    let ghost ms = messages_view(messages@);
    let ghost all = messages@;
    let mut head = messages;
    let mut tail = head.split_off(cut);
    let middle = head.split_off(1);
    proof {
        assert(messages_view(middle@) =~= ms.subrange(1, cut as int));
    }
    let ghost h = heading@;
    let mut text = heading;
    let summary = ContextCompactor::fallback_summary(middle.as_slice());
    push_str(&mut text, summary.as_str());
    if !artifacts.is_empty() {
        push_str(&mut text, "\n\n");
        push_str(&mut text, artifacts);
    }
    assert(text@ == compaction_text(h, ms.subrange(1, cut as int), artifacts@));
    let msg = ApiMessage::plain("user", text.as_str());
    let ghost mv = msg@;
    head.push(msg);
    head.append(&mut tail);
    proof {
        assert(mv == plain_message("user"@, compaction_text(h, ms.subrange(1, cut as int), artifacts@)));
        assert(head@ =~= seq![all[0]] + seq![head@[1]] + all.subrange(cut as int, all.len() as int));
        assert(head@[1]@ == mv);
        assert(messages_view(head@) =~= replaced_middle(
            ms,
            cut as int,
            compaction_text(heading@, ms.subrange(1, cut as int), artifacts@),
        ));
    }
    head
}

impl ContextCompactor {
    /// Sliding-window compaction for very long sessions: keeps the first
    /// message and the `recent` last ones, and replaces everything between
    /// with a summary (followed by `artifacts`, the artifact index's
    /// summary).
    pub fn sliding_window_compact(messages: Vec<ApiMessage>, recent: usize, artifacts: &str) -> (r: Vec<
        ApiMessage,
    >)
        ensures
            messages_view(r@) == sliding_window_result(messages_view(messages@), recent as nat, artifacts@),
    {
        let n = messages.len();
        if n < SLIDING_WINDOW_THRESHOLD {
            return messages;
        }
        let cut = if n >= recent {
            n - recent
        } else {
            0
        };
        if cut <= 1 {
            return messages;
        }
        let mut heading = crate::text::owned("[SLIDING WINDOW SUMMARY \u{2014} ");
        push_decimal(&mut heading, (cut - 1) as u64);
        push_str(&mut heading, " messages compressed]\n");
        replace_middle(messages, cut, heading, artifacts)
    }

    /// Compacts older messages into a summary, keeping the first message
    /// and the recent ones (a third of them, from 2 to 5).
    pub fn compact(messages: Vec<ApiMessage>, artifacts: &str) -> (r: Vec<ApiMessage>)
        ensures
            messages_view(r@) == compact_result(messages_view(messages@), artifacts@),
    {
        let n = messages.len();
        if n <= 4 {
            return messages;
        }
        let third = n / 3;
        let keep = if third < 2 {
            2
        } else if third > 5 {
            5
        } else {
            third
        };
        let cut = n - keep;
        if cut <= 1 {
            return messages;
        }
        replace_middle(messages, cut, crate::text::owned("[CONVERSATION SUMMARY]\n"), artifacts)
    }
}

/// The summary message text of an LLM compaction: the heading, the model's
/// summary, and the artifact summary where there is one.
pub open spec fn llm_summary_text(summary: Seq<char>, artifacts: Seq<char>) -> Seq<char> {
    let base = "[CONVERSATION SUMMARY]\n"@ + summary;
    if artifacts.len() == 0 {
        base
    } else {
        base + "\n\n"@ + artifacts
    }
}

/// A chat message `{"content": ..., "role": ...}` (keys in the order
/// serde_json's map keeps them).
pub open spec fn chat_json(role: Seq<char>, content: Seq<char>) -> Json {
    Json::Object(seq![("content"@, Json::Str(content)), ("role"@, Json::Str(role))])
}

/// The request asking the model to summarise `conversation` with
/// `system_prompt`, for `model`: at most 1024 tokens, temperature 0.2.
pub open spec fn compaction_payload_json(model: Seq<char>, system_prompt: Seq<char>, conversation: Seq<char>) -> Json {
    Json::Object(
        seq![
            ("max_tokens"@, Json::Number("1024"@)),
            ("messages"@, Json::Array(seq![chat_json("system"@, system_prompt), chat_json("user"@, conversation)])),
            ("model"@, Json::Str(model)),
            ("temperature"@, Json::Number("0.2"@)),
        ],
    )
}

/// The chat message object for `role` and `content`.
fn chat_value(role: &str, content: &str) -> (r: JsonValue)
    ensures
        r@ == chat_json(role@, content@),
{
    let fields = vec![
        (crate::text::owned("content"), JsonValue::string(content)),
        (crate::text::owned("role"), JsonValue::string(role)),
    ];
    let r = JsonValue::object(fields);
    assert(field_views(fields@) =~= seq![("content"@, Json::Str(content@)), ("role"@, Json::Str(role@))]);
    r
}

impl ContextCompactor {
    /// The request for an LLM summary of the messages that compaction would
    /// replace, with how many those are and how many recent ones are kept;
    /// `None` where there is nothing to compact.
    pub fn build_compaction_payload(messages: &[ApiMessage], system_prompt: &str, model: &str) -> (r: Option<
        (JsonValue, usize, usize),
    >)
        ensures
            ({
                let ms = messages_view(messages@);
                let cut = ms.len() - keep_recent(ms.len());
                if ms.len() <= 4 || cut <= 1 {
                    r is None
                } else {
                    r matches Some(t) && t.0@ == compaction_payload_json(
                        model@,
                        system_prompt@,
                        join_lines(sanitized_parts(ms.subrange(1, cut))),
                    ) && t.1 == cut - 1 && t.2 == keep_recent(ms.len())
                }
            }),
    {
        let n = messages.len();
        if n <= 4 {
            return None;
        }
        let third = n / 3;
        let keep = if third < 2 {
            2
        } else if third > 5 {
            5
        } else {
            third
        };
        let cut = n - keep;
        if cut <= 1 {
            return None;
        }
        let middle = vstd::slice::slice_subrange(messages, 1, cut);
        proof {
            assert(messages_view(middle@) =~= messages_view(messages@).subrange(1, cut as int));
        }
        let conversation = Self::sanitize_for_summarization(middle);
        let items = vec![chat_value("system", system_prompt), chat_value("user", conversation.as_str())];
        let fields = vec![
            (crate::text::owned("max_tokens"), JsonValue::Number(crate::text::owned("1024"))),
            (crate::text::owned("messages"), JsonValue::array(items)),
            (crate::text::owned("model"), JsonValue::string(model)),
            (crate::text::owned("temperature"), JsonValue::Number(crate::text::owned("0.2"))),
        ];
        proof {
            assert(crate::json::views(items@) =~= seq![
                chat_json("system"@, system_prompt@),
                chat_json("user"@, conversation@),
            ]);
        }
        let payload = JsonValue::object(fields);
        proof {
            assert(field_views(fields@) =~= compaction_payload_json(model@, system_prompt@, conversation@)->Object_0);
        }
        Some((payload, cut - 1, keep))
    }

    /// Replaces the messages after the first and before the `keep_recent`
    /// last ones by one user message holding the model's summary (and the
    /// artifact summary). Where `keep_recent` covers all the messages, the
    /// first message stands both before the summary and among the kept ones.
    pub fn apply_llm_compaction(messages: Vec<ApiMessage>, summary_text: &str, keep_recent: usize, artifacts: &str) -> (r:
        Vec<ApiMessage>)
        requires
            messages@.len() >= 1,
        ensures
            ({
                let ms = messages_view(messages@);
                let cut = sub_or_zero(ms.len(), keep_recent as nat);
                messages_view(r@) == seq![ms[0]] + seq![plain_message("user"@, llm_summary_text(summary_text@, artifacts@))]
                    + ms.subrange(cut as int, ms.len() as int)
            }),
    {
        let ghost ms = messages_view(messages@);
        let ghost all = messages@;
        let n = messages.len();
        let cut = if n >= keep_recent {
            n - keep_recent
        } else {
            0
        };
        let head = messages[0].copy();
        let mut rest = messages;
        let mut tail = rest.split_off(cut);
        let mut text = crate::text::owned("[CONVERSATION SUMMARY]\n");
        push_str(&mut text, summary_text);
        if !artifacts.is_empty() {
            push_str(&mut text, "\n\n");
            push_str(&mut text, artifacts);
        }
        assert(text@ == llm_summary_text(summary_text@, artifacts@));
        let msg = ApiMessage::plain("user", text.as_str());
        let ghost mv = msg@;
        let mut out: Vec<ApiMessage> = Vec::new();
        out.push(head);
        out.push(msg);
        out.append(&mut tail);
        proof {
            assert(out@ =~= seq![out@[0], out@[1]] + all.subrange(cut as int, all.len() as int));
            assert(messages_view(out@) =~= seq![ms[0]] + seq![mv] + ms.subrange(cut as int, ms.len() as int));
        }
        out
    }
}

/// Compaction keeps the first message and the recent ones verbatim and
/// replaces only what lies between by one summary: with `n` messages it
/// keeps the last `n / 3` of them, at least 2 and at most 5; with at most
/// four messages it changes nothing.
pub proof fn law_compact_keeps_recent(ms: Seq<ApiMessageView>, artifacts: Seq<char>)
    ensures
        ms.len() <= 4 ==> compact_result(ms, artifacts) == ms,
        ms.len() > 4 ==> ({
            let n = ms.len() as int;
            let k: int = if n / 3 < 2 {
                2
            } else if n / 3 > 5 {
                5
            } else {
                n / 3
            };
            let r = compact_result(ms, artifacts);
            &&& r.len() == k + 2
            &&& r[0] == ms[0]
            &&& r.subrange(2, k + 2) == ms.subrange(n - k, n)
            &&& r[1].role == Some("user"@)
            &&& r[1].content == Some(
                "[CONVERSATION SUMMARY]\n"@ + fallback_summary_text(ms.subrange(1, n - k)) + (if artifacts.len()
                    == 0 {
                    Seq::<char>::empty()
                } else {
                    "\n\n"@ + artifacts
                }),
            )
        }),
{
    if ms.len() > 4 {
        let n = ms.len() as int;
        let k = keep_recent(ms.len()) as int;
        let r = compact_result(ms, artifacts);
        assert(r.subrange(2, k + 2) =~= ms.subrange(n - k, n));
        if artifacts.len() == 0 {
            assert("[CONVERSATION SUMMARY]\n"@ + fallback_summary_text(ms.subrange(1, n - k)) + Seq::<char>::empty()
                =~= "[CONVERSATION SUMMARY]\n"@ + fallback_summary_text(ms.subrange(1, n - k)));
        } else {
            assert("[CONVERSATION SUMMARY]\n"@ + fallback_summary_text(ms.subrange(1, n - k)) + ("\n\n"@ + artifacts)
                =~= "[CONVERSATION SUMMARY]\n"@ + fallback_summary_text(ms.subrange(1, n - k)) + "\n\n"@ + artifacts);
        }
    }
}

/// Sliding-window compaction keeps the first message and the `recent`
/// last ones verbatim and puts one summary of the rest between them; it
/// changes nothing below 500 messages or when the recent ones reach back
/// to the first.
pub proof fn law_sliding_window_keeps_recent(ms: Seq<ApiMessageView>, recent: nat, artifacts: Seq<char>)
    ensures
        (ms.len() < 500 || recent + 1 >= ms.len()) ==> sliding_window_result(ms, recent, artifacts) == ms,
        (ms.len() >= 500 && recent + 1 < ms.len()) ==> ({
            let n = ms.len() as int;
            let r = sliding_window_result(ms, recent, artifacts);
            &&& r.len() == recent + 2
            &&& r[0] == ms[0]
            &&& r.subrange(2, recent + 2int) == ms.subrange(n - recent, n)
            &&& r[1].role == Some("user"@)
            &&& r[1].content is Some
            &&& r[1].content->0.take(window_heading((n - recent - 1) as nat).len() as int) == window_heading(
                (n - recent - 1) as nat,
            )
        }),
{
    if ms.len() >= 500 && recent + 1 < ms.len() {
        let n = ms.len() as int;
        let r = sliding_window_result(ms, recent, artifacts);
        let h = window_heading((n - recent - 1) as nat);
        assert(r.subrange(2, recent + 2int) =~= ms.subrange(n - recent, n));
        let t = compaction_text(h, ms.subrange(1, n - recent), artifacts);
        assert(t.take(h.len() as int) =~= h);
    }
}

/// The line a fallback summary gives a user or assistant message with
/// text: `- [role] ` and its first 200 characters.
pub open spec fn listed_line(role: Seq<char>, content: Seq<char>) -> Seq<char> {
    "- ["@ + role + "] "@ + (if content.len() <= 200 {
        content
    } else {
        content.take(200)
    })
}

/// Whether a fallback summary lists a message: it is from the user or the
/// assistant and has text.
pub open spec fn listed(m: ApiMessageView) -> bool {
    &&& m.content is Some
    &&& m.content->0.len() > 0
    &&& m.role is Some
    &&& (m.role->0 == "user"@ || m.role->0 == "assistant"@)
}

/// The lines listed for `ms`, in order.
pub open spec fn listed_lines(ms: Seq<ApiMessageView>) -> Seq<Seq<char>>
    decreases ms.len(),
{
    if ms.len() == 0 {
        Seq::empty()
    } else if listed(ms[0]) {
        seq![listed_line(ms[0].role->0, ms[0].content->0)] + listed_lines(ms.drop_first())
    } else {
        listed_lines(ms.drop_first())
    }
}

/// The bytes of the kept text of the listed messages of `ms`.
pub open spec fn listed_bytes(ms: Seq<ApiMessageView>) -> nat
    decreases ms.len(),
{
    if ms.len() == 0 {
        0
    } else if listed(ms[0]) {
        byte_len(prefix_chars(ms[0].content->0, 200)) + listed_bytes(ms.drop_first())
    } else {
        listed_bytes(ms.drop_first())
    }
}

proof fn lemma_join_lines_front(a: Seq<char>, l: Seq<Seq<char>>)
    requires
        l.len() > 0,
    ensures
        join_lines(seq![a] + l) == a + "\n"@ + join_lines(l),
    decreases l.len(),
{
    let s = seq![a] + l;
    if l.len() == 1 {
        assert(s.drop_last() =~= seq![a]);
        assert(s.last() == l[0]);
        assert(join_lines(seq![a]) == a);
        assert(join_lines(l) == l[0]);
    } else {
        lemma_join_lines_front(a, l.drop_last());
        assert(s.drop_last() =~= seq![a] + l.drop_last());
        assert(s.last() == l.last());
        assert(a + "\n"@ + join_lines(l.drop_last()) + "\n"@ + l.last() =~= a + "\n"@ + (join_lines(l.drop_last())
            + "\n"@ + l.last()));
    }
}

proof fn lemma_summary_within_budget(ms: Seq<ApiMessageView>, total: nat, count: nat, n: nat)
    requires
        total + listed_bytes(ms) <= SUMMARY_BUDGET_BYTES,
    ensures
        summary_from(ms, total, count, n) == (if count > 0 && listed_lines(ms).len() > 0 {
            "\n"@
        } else {
            Seq::<char>::empty()
        }) + join_lines(listed_lines(ms)),
    decreases ms.len(),
{
    reveal_strlit("user");
    reveal_strlit("assistant");
    if ms.len() == 0 {
        assert(Seq::<char>::empty() + join_lines(Seq::<Seq<char>>::empty()) =~= Seq::<char>::empty());
    } else {
        let m = ms[0];
        let rest = ms.drop_first();
        assert("user"@.len() == 4);
        assert("assistant"@.len() == 9);
        assert(summarised(m) == listed(m));
        if !listed(m) {
            lemma_summary_within_budget(rest, total, count, n);
        } else {
            let line = listed_line(m.role->0, m.content->0);
            assert(summary_line(m) == line);
            let t = total + byte_len(summary_snippet(m));
            lemma_summary_within_budget(rest, t, count + 1, n);
            let l = listed_lines(rest);
            let sep = if count > 0 {
                "\n"@
            } else {
                Seq::<char>::empty()
            };
            if l.len() == 0 {
                assert(listed_lines(ms) =~= seq![line]);
                assert(sep + line + (Seq::<char>::empty() + join_lines(l)) =~= sep + join_lines(seq![line]));
            } else {
                lemma_join_lines_front(line, l);
                assert(listed_lines(ms) =~= seq![line] + l);
                assert(sep + line + ("\n"@ + join_lines(l)) =~= sep + (line + "\n"@ + join_lines(l)));
            }
        }
    }
}

/// The fallback summary lists, in order, one line `- [role] text` for each
/// user or assistant message with text, the text cut to its first 200
/// characters, while the kept text stays within the 2000-byte budget; for
/// no messages it is the placeholder summary.
pub proof fn law_fallback_summary_lines(ms: Seq<ApiMessageView>)
    ensures
        ms.len() == 0 ==> fallback_summary_text(ms)
            == "## Goal\nUnknown\n\n## Key Actions\nNone recorded\n\n## Current State\nNo assistant response recorded"@,
        (ms.len() > 0 && listed_bytes(ms) <= 2000) ==> fallback_summary_text(ms) == join_lines(listed_lines(ms)),
{
    if ms.len() > 0 && listed_bytes(ms) <= 2000 {
        lemma_summary_within_budget(ms, 0, 0, ms.len());
        assert(Seq::<char>::empty() + join_lines(listed_lines(ms)) =~= join_lines(listed_lines(ms)));
    }
}

} // verus!
