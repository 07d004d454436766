//! A message list that enforces, on every write, that each tool call of an
//! assistant message is answered by a tool result.
//!
//! States:
//!     EXPECT_ANY --add_assistant(tc)--> EXPECT_TOOL_RESULTS{pending_ids}
//!          ^                                    |
//!          |                          add_tool_result(id) removes from pending
//!          |                                    |
//!          +------ all pending satisfied -------+
//!
//! The pending ids are always exactly those that a scan of the whole history
//! leaves open ([`pending_after`]).
use vstd::prelude::*;

use crate::message::{
    role_text,    messages_view, tool_calls_view, ApiMessage, ApiMessageView, ApiToolCall, ApiToolCallView,
};
use crate::text::{owned, push_str, str_eq};

verus! {

/// Synthetic error message for incomplete tool results.
pub const SYNTHETIC_TOOL_RESULT: &'static str =
    "Error: Tool execution result was lost. The tool may have been interrupted or crashed.";

/// The texts of a sequence of strings.
pub open spec fn str_views(v: Seq<String>) -> Seq<Seq<char>> {
    v.map_values(|s: String| s@)
}

/// The non-empty ids among a sequence of tool calls.
pub open spec fn call_ids(tcs: Seq<ApiToolCallView>) -> Set<Seq<char>> {
    Set::new(
        |id: Seq<char>|
            id.len() > 0 && exists|j: int| 0 <= j < tcs.len() && #[trigger] tcs[j].id == Some(id),
    )
}

/// How one message changes the set of tool calls awaiting a result: an
/// assistant message opens the ids of its tool calls, a tool result closes
/// its own id.
pub open spec fn pending_step(p: Set<Seq<char>>, m: ApiMessageView) -> Set<Seq<char>> {
    if m.role == Some("assistant"@) {
        match m.tool_calls {
            Some(tcs) => p.union(call_ids(tcs)),
            None => p,
        }
    } else if m.role == Some("tool"@) {
        match m.tool_call_id {
            Some(id) => p.remove(id),
            None => p,
        }
    } else {
        p
    }
}

/// The tool call ids that a history leaves without a result.
pub open spec fn pending_after(ms: Seq<ApiMessageView>) -> Set<Seq<char>>
    decreases ms.len(),
{
    if ms.len() == 0 {
        Set::empty()
    } else {
        pending_step(pending_after(ms.drop_last()), ms.last())
    }
}

/// A tool result message for `id`.
pub open spec fn tool_result_message(id: Seq<char>, content: Seq<char>) -> ApiMessageView {
    ApiMessageView {
        role: Some("tool"@),
        content: Some(content),
        name: None,
        tool_call_id: Some(id),
        tool_calls: None,
    }
}

/// The synthetic error results that close the given ids, in order.
pub open spec fn synthetic_results(ids: Seq<Seq<char>>) -> Seq<ApiMessageView> {
    ids.map_values(|id: Seq<char>| tool_result_message(id, SYNTHETIC_TOOL_RESULT@))
}

/// The assistant message that `add_assistant` appends.
pub open spec fn assistant_message(
    content: Option<Seq<char>>,
    tool_calls: Option<Seq<ApiToolCallView>>,
) -> ApiMessageView {
    ApiMessageView {
        role: Some("assistant"@),
        content: Some(
            match content {
                Some(c) => c,
                None => Seq::empty(),
            },
        ),
        name: None,
        tool_call_id: None,
        tool_calls: tool_calls,
    }
}

proof fn lemma_role_names()
    ensures
        "assistant"@.len() == 9,
        "tool"@.len() == 4,
        "user"@.len() == 4,
        "user"@ != "tool"@,
{
    reveal_strlit("assistant");
    reveal_strlit("tool");
    reveal_strlit("user");
    assert("user"@[0] != "tool"@[0]);
}

proof fn lemma_pending_push(ms: Seq<ApiMessageView>, m: ApiMessageView)
    ensures
        pending_after(ms.push(m)) == pending_step(pending_after(ms), m),
{
    assert(ms.push(m).drop_last() =~= ms);
}

proof fn lemma_call_ids_take(tv: Seq<ApiToolCallView>, j: int)
    requires
        0 <= j < tv.len(),
    ensures
        call_ids(tv.take(j + 1)) == (match tv[j].id {
            Some(id) => if id.len() > 0 {
                call_ids(tv.take(j)).insert(id)
            } else {
                call_ids(tv.take(j))
            },
            None => call_ids(tv.take(j)),
        }),
{
    let a = tv.take(j + 1);
    let b = tv.take(j);
    assert forall|x: Seq<char>| #[trigger] call_ids(a).contains(x) implies call_ids(b).contains(x)
        || (x.len() > 0 && tv[j].id == Some(x)) by {
        let w = choose|w: int| 0 <= w < a.len() && #[trigger] a[w].id == Some(x);
        if w < j {
            assert(b[w].id == Some(x));
        }
    }
    assert forall|x: Seq<char>| #[trigger] call_ids(b).contains(x) implies call_ids(a).contains(
        x,
    ) by {
        let w = choose|w: int| 0 <= w < b.len() && #[trigger] b[w].id == Some(x);
        assert(a[w].id == Some(x));
    }
    if let Some(id) = tv[j].id {
        if id.len() > 0 {
            assert(a[j].id == Some(id));
            assert(call_ids(a) =~= call_ids(b).insert(id));
        } else {
            assert(call_ids(a) =~= call_ids(b));
        }
    } else {
        assert(call_ids(a) =~= call_ids(b));
    }
}

proof fn lemma_str_views_push(v: Seq<String>, s: String)
    ensures
        str_views(v.push(s)) == str_views(v).push(s@),
{
    assert(str_views(v.push(s)) =~= str_views(v).push(s@));
}

proof fn lemma_messages_push(v: Seq<ApiMessage>, m: ApiMessage)
    ensures
        messages_view(v.push(m)) == messages_view(v).push(m@),
{
    assert(messages_view(v.push(m)) =~= messages_view(v).push(m@));
}

proof fn lemma_set_push(s: Seq<Seq<char>>, x: Seq<char>)
    ensures
        s.push(x).to_set() == s.to_set().insert(x),
        s.no_duplicates() && !s.contains(x) ==> s.push(x).no_duplicates(),
{
    assert forall|y: Seq<char>| s.push(x).contains(y) <==> s.to_set().insert(x).contains(y) by {
        if s.push(x).contains(y) {
            let j = choose|j: int| 0 <= j < s.push(x).len() && s.push(x)[j] == y;
            if j < s.len() {
                assert(s[j] == y);
            }
        }
        if s.contains(y) {
            let j = choose|j: int| 0 <= j < s.len() && s[j] == y;
            assert(s.push(x)[j] == y);
        }
        if y == x {
            assert(s.push(x)[s.len() as int] == y);
        }
    }
    assert(s.push(x).to_set() =~= s.to_set().insert(x));
    if s.no_duplicates() && !s.contains(x) {
        assert forall|i: int, j: int|
            0 <= i < s.push(x).len() && 0 <= j < s.push(x).len() && i != j implies s.push(x)[i]
            != s.push(x)[j] by {
            if i < s.len() && j == s.len() {
                assert(s[i] != x);
            }
            if j < s.len() && i == s.len() {
                assert(s[j] != x);
            }
        }
    }
}

proof fn lemma_set_remove(s: Seq<Seq<char>>, k: int)
    requires
        s.no_duplicates(),
        0 <= k < s.len(),
    ensures
        s.remove(k).no_duplicates(),
        s.remove(k).to_set() == s.to_set().remove(s[k]),
{
    let r = s.remove(k);
    assert forall|y: Seq<char>| r.contains(y) <==> s.to_set().remove(s[k]).contains(y) by {
        if r.contains(y) {
            let j = choose|j: int| 0 <= j < r.len() && r[j] == y;
            if j < k {
                assert(s[j] == y);
            } else {
                assert(s[j + 1] == y);
            }
        }
        if s.contains(y) && y != s[k] {
            let j = choose|j: int| 0 <= j < s.len() && s[j] == y;
            if j < k {
                assert(r[j] == y);
            } else {
                assert(r[j - 1] == y);
            }
        }
    }
    assert(r.to_set() =~= s.to_set().remove(s[k]));
    assert forall|i: int, j: int| 0 <= i < r.len() && 0 <= j < r.len() && i != j implies r[i]
        != r[j] by {
        let a = if i < k {
            i
        } else {
            i + 1
        };
        let b = if j < k {
            j
        } else {
            j + 1
        };
        assert(r[i] == s[a]);
        assert(r[j] == s[b]);
    }
}

/// The position of `id` among `ids`, if it is there.
fn find_id(ids: &Vec<String>, id: &str) -> (r: Option<usize>)
    ensures
        match r {
            Some(k) => k < ids@.len() && ids@[k as int]@ == id@,
            None => !str_views(ids@).contains(id@),
        },
{
    let mut k: usize = 0;
    while k < ids.len()
        invariant
            k <= ids@.len(),
            forall|m: int| 0 <= m < k ==> ids@[m]@ != id@,
        decreases ids@.len() - k,
    {
        if str_eq(ids[k].as_str(), id) {
            return Some(k);
        }
        k = k + 1;
    }
    proof {
        if str_views(ids@).contains(id@) {
            let j = choose|j: int| 0 <= j < str_views(ids@).len() && str_views(ids@)[j] == id@;
            assert(ids@[j]@ == id@);
        }
    }
    None
}

/// Adds `id` to a duplicate-free list of ids, unless it is there already.
fn insert_id(ids: &mut Vec<String>, id: &String)
    requires
        str_views(old(ids)@).no_duplicates(),
    ensures
        str_views(final(ids)@).no_duplicates(),
        str_views(final(ids)@).to_set() == str_views(old(ids)@).to_set().insert(id@),
{
    match find_id(ids, id.as_str()) {
        Some(k) => {
            proof {
                assert(str_views(ids@)[k as int] == id@);
                assert(str_views(ids@).to_set().insert(id@) =~= str_views(ids@).to_set());
            }
        },
        None => {
            let c = id.clone();
            proof {
                lemma_set_push(str_views(ids@), id@);
                lemma_str_views_push(ids@, c);
            }
            ids.push(c);
        },
    }
}

/// The tool call ids that `messages` leaves without a result.
fn rebuild_pending(messages: &Vec<ApiMessage>) -> (r: Vec<String>)
    ensures
        str_views(r@).no_duplicates(),
        str_views(r@).to_set() == pending_after(messages_view(messages@)),
{
    let mut ids: Vec<String> = Vec::new();
    let mut i: usize = 0;
    while i < messages.len()
        invariant
            i <= messages@.len(),
            str_views(ids@).no_duplicates(),
            str_views(ids@).to_set() == pending_after(messages_view(messages@).take(i as int)),
        decreases messages@.len() - i,
    {
        proof {
            reveal_strlit("assistant");
            reveal_strlit("tool");
        }
        let msg = &messages[i];
        let ghost before = str_views(ids@).to_set();
        let ghost mv = messages_view(messages@);
        proof {
            assert(mv.take(i + 1) =~= mv.take(i as int).push(msg@));
            lemma_pending_push(mv.take(i as int), msg@);
        }
        let role = msg.role_str();
        if str_eq(role, "assistant") {
            assert(role_text(msg@).len() == 9);
            assert(msg@.role == Some("assistant"@));
            if let Some(tcs) = &msg.tool_calls {
                let ghost tv = tool_calls_view(tcs@);
                let mut j: usize = 0;
                while j < tcs.len()
                    invariant
                        j <= tcs@.len(),
                        tv == tool_calls_view(tcs@),
                        str_views(ids@).no_duplicates(),
                        str_views(ids@).to_set() == before.union(call_ids(tv.take(j as int))),
                    decreases tcs@.len() - j,
                {
                    proof {
                        lemma_call_ids_take(tv, j as int);
                    }
                    match &tcs[j].id {
                        Some(id) => {
                            if !id.as_str().is_empty() {
                                insert_id(&mut ids, id);
                                assert(str_views(ids@).to_set() =~= before.union(
                                    call_ids(tv.take(j + 1)),
                                ));
                            } else {
                                assert(call_ids(tv.take(j + 1)) == call_ids(tv.take(j as int)));
                            }
                        },
                        None => {},
                    }
                    j = j + 1;
                }
                proof {
                    assert(tv.take(tv.len() as int) =~= tv);
                    assert(msg@.tool_calls == Some(tv));
                }
            }
            assert(str_views(ids@).to_set() == pending_step(before, msg@));
        } else if str_eq(role, "tool") {
            if let Some(id) = &msg.tool_call_id {
                match find_id(&ids, id.as_str()) {
                    Some(k) => {
                        let ghost pre = ids@;
                        proof {
                            lemma_set_remove(str_views(ids@), k as int);
                        }
                        ids.remove(k);
                        proof {
                            assert(str_views(ids@) =~= str_views(pre).remove(k as int));
                        }
                    },
                    None => {
                        assert(before.remove(id@) =~= before);
                    },
                }
            }
            assert(role_text(msg@).len() == 4);
            assert(msg@.role == Some("tool"@));
            assert(str_views(ids@).to_set() == pending_step(before, msg@));
        } else {
            assert(msg@.role != Some("tool"@));
            assert(msg@.role != Some("assistant"@));
            assert(str_views(ids@).to_set() == pending_step(before, msg@));
        }
        i = i + 1;
    }
    proof {
        assert(messages_view(messages@).take(messages@.len() as int) =~= messages_view(
            messages@,
        ));
    }
    ids
}

/// The first value stored under `key`, if any.
pub open spec fn lookup_first(entries: Seq<(Seq<char>, Seq<char>)>, key: Seq<char>) -> Option<
    Seq<char>,
>
    decreases entries.len(),
{
    if entries.len() == 0 {
        None
    } else if entries[0].0 == key {
        Some(entries[0].1)
    } else {
        lookup_first(entries.drop_first(), key)
    }
}

/// The texts of a sequence of string pairs.
pub open spec fn pair_views(v: Seq<(String, String)>) -> Seq<(Seq<char>, Seq<char>)> {
    v.map_values(|p: (String, String)| (p.0@, p.1@))
}

/// The tool results that `add_tool_results_batch` appends: one per tool call
/// with a non-empty id, holding its result, or the synthetic error where
/// there is none.
pub open spec fn batch_results(
    tcs: Seq<ApiToolCallView>,
    results: Seq<(Seq<char>, Seq<char>)>,
) -> Seq<ApiMessageView>
    decreases tcs.len(),
{
    if tcs.len() == 0 {
        Seq::empty()
    } else {
        let prev = batch_results(tcs.drop_last(), results);
        match tcs.last().id {
            Some(id) => if id.len() > 0 {
                prev.push(
                    tool_result_message(
                        id,
                        match lookup_first(results, id) {
                            Some(r) => r,
                            None => SYNTHETIC_TOOL_RESULT@,
                        },
                    ),
                )
            } else {
                prev
            },
            None => prev,
        }
    }
}

/// Looks up the first value stored under `key`.
fn find_result<'a>(entries: &'a [(String, String)], key: &str) -> (r: Option<&'a String>)
    ensures
        match r {
            Some(v) => lookup_first(pair_views(entries@), key@) == Some(v@),
            None => lookup_first(pair_views(entries@), key@) is None,
        },
{
    let ghost all = pair_views(entries@);
    assert(all.subrange(0, all.len() as int) =~= all);
    let mut k: usize = 0;
    while k < entries.len()
        invariant
            k <= entries@.len(),
            all == pair_views(entries@),
            lookup_first(all, key@) == lookup_first(all.subrange(k as int, all.len() as int), key@),
        decreases entries@.len() - k,
    {
        let ghost rest = all.subrange(k as int, all.len() as int);
        proof {
            assert(rest.drop_first() =~= all.subrange(k + 1, all.len() as int));
        }
        if str_eq(entries[k].0.as_str(), key) {
            return Some(&entries[k].1);
        }
        k = k + 1;
    }
    None
}

/// A message list that keeps tool calls and their results paired.
///
/// All reads go through [`ValidatedMessageList::messages`]; every write goes
/// through a method that keeps the pending tool call ids up to date.
pub struct ValidatedMessageList {
    messages: Vec<ApiMessage>,
    pending_tool_ids: Vec<String>,
    strict: bool,
}

impl ValidatedMessageList {
    /// The history, as models.
    pub closed spec fn history(&self) -> Seq<ApiMessageView> {
        messages_view(self.messages@)
    }

    /// The ids awaiting a result, in the order in which they were opened.
    pub closed spec fn pending(&self) -> Seq<Seq<char>> {
        str_views(self.pending_tool_ids@)
    }

    /// Whether orphaned tool results are rejected.
    pub closed spec fn is_strict(&self) -> bool {
        self.strict
    }

    /// The pending ids are distinct and are exactly those that the history
    /// leaves open.
    pub closed spec fn well_formed(&self) -> bool {
        &&& self.pending().no_duplicates()
        &&& self.pending().to_set() == pending_after(self.history())
    }

    /// Creates a list; `initial` is taken as it is, and the pending state is
    /// rebuilt from it.
    pub fn new(initial: Option<Vec<ApiMessage>>, strict: bool) -> (r: Self)
        ensures
            r.well_formed(),
            r.is_strict() == strict,
            r.history() == (match initial {
                Some(v) => messages_view(v@),
                None => Seq::empty(),
            }),
    {
        let messages = match initial {
            Some(v) => v,
            None => Vec::new(),
        };
        let pending_tool_ids = rebuild_pending(&messages);
        let r = ValidatedMessageList { messages, pending_tool_ids, strict };
        assert(r.history() =~= (match initial {
            Some(v) => messages_view(v@),
            None => Seq::empty(),
        }));
        r
    }

    /// The messages, read-only.
    pub fn messages(&self) -> (r: &[ApiMessage])
        ensures
            messages_view(r@) == self.history(),
    {
        self.messages.as_slice()
    }

    /// Consumes the list and returns its messages.
    pub fn into_inner(self) -> (r: Vec<ApiMessage>)
        ensures
            messages_view(r@) == self.history(),
    {
        self.messages
    }

    /// The number of messages.
    pub fn len(&self) -> (r: usize)
        ensures
            r == self.history().len(),
    {
        self.messages.len()
    }

    /// Whether there are no messages.
    pub fn is_empty(&self) -> (r: bool)
        ensures
            r == (self.history().len() == 0),
    {
        self.messages.len() == 0
    }

    /// The tool call ids still awaiting results.
    pub fn pending_tool_ids(&self) -> (r: Vec<String>)
        ensures
            str_views(r@) == self.pending(),
    {
        let mut r: Vec<String> = Vec::new();
        let mut k: usize = 0;
        while k < self.pending_tool_ids.len()
            invariant
                k <= self.pending_tool_ids@.len(),
                str_views(r@) == self.pending().take(k as int),
            decreases self.pending_tool_ids@.len() - k,
        {
            let c = self.pending_tool_ids[k].clone();
            proof {
                lemma_str_views_push(r@, c);
                assert(self.pending().take(k + 1) =~= self.pending().take(k as int).push(c@));
            }
            r.push(c);
            k = k + 1;
        }
        assert(self.pending().take(k as int) =~= self.pending());
        r
    }

    /// Whether some tool call awaits its result.
    pub fn has_pending_tools(&self) -> (r: bool)
        ensures
            r == (self.pending().len() > 0),
    {
        self.pending_tool_ids.len() > 0
    }

    /// Appends a synthetic error result for every pending tool call.
    fn auto_complete_pending(&mut self)
        requires
            old(self).well_formed(),
        ensures
            final(self).well_formed(),
            final(self).is_strict() == old(self).is_strict(),
            final(self).history() == old(self).history() + synthetic_results(old(self).pending()),
            final(self).pending() == Seq::<Seq<char>>::empty(),
    {
        let ghost h0 = self.history();
        let ghost p0 = self.pending();
        let mut ids: Vec<String> = Vec::new();
        std::mem::swap(&mut ids, &mut self.pending_tool_ids);
        let mut k: usize = 0;
        while k < ids.len()
            invariant
                k <= ids@.len(),
                str_views(ids@) == p0,
                p0.no_duplicates(),
                p0.to_set() == pending_after(h0),
                self.pending_tool_ids@.len() == 0,
                self.strict == old(self).strict,
                messages_view(self.messages@) == h0 + synthetic_results(p0.take(k as int)),
                pending_after(messages_view(self.messages@)) == p0.to_set().difference(
                    p0.take(k as int).to_set(),
                ),
            decreases ids@.len() - k,
        {
            proof {
                reveal_strlit("assistant");
                reveal_strlit("tool");
            }
            let m = ApiMessage {
                role: Some(owned("tool")),
                content: Some(owned(SYNTHETIC_TOOL_RESULT)),
                name: None,
                tool_call_id: Some(ids[k].clone()),
                tool_calls: None,
            };
            let ghost before = messages_view(self.messages@);
            proof {
                assert(m@ == tool_result_message(p0[k as int], SYNTHETIC_TOOL_RESULT@));
                lemma_messages_push(self.messages@, m);
                lemma_pending_push(before, m@);
                lemma_set_push(p0.take(k as int), p0[k as int]);
                assert(p0.take(k + 1) =~= p0.take(k as int).push(p0[k as int]));
                assert(synthetic_results(p0.take(k + 1)) =~= synthetic_results(
                    p0.take(k as int),
                ).push(m@));
                assert(p0.to_set().difference(p0.take(k + 1).to_set()) =~= p0.to_set().difference(
                    p0.take(k as int).to_set(),
                ).remove(p0[k as int]));
            }
            self.messages.push(m);
            proof {
                assert(m@.role == Some("tool"@));
                assert("tool"@.len() == 4 && "assistant"@.len() == 9);
                assert(m@.role != Some("assistant"@));
                assert(m@.tool_call_id == Some(p0[k as int]));
                assert(pending_step(pending_after(before), m@) == pending_after(before).remove(p0[k as int]));
                assert(messages_view(self.messages@) == before.push(m@));
            }
            k = k + 1;
        }
        proof {
            assert(p0.take(k as int) =~= p0);
            assert(p0.to_set().difference(p0.to_set()) =~= Set::empty());
            assert(self.pending() =~= Seq::<Seq<char>>::empty());
            assert(Seq::<Seq<char>>::empty().to_set() =~= Set::<Seq<char>>::empty());
        }
    }

    /// Appends a user message, first closing every pending tool call with a
    /// synthetic error result.
    pub fn add_user(&mut self, content: &str)
        requires
            old(self).well_formed(),
        ensures
            final(self).well_formed(),
            final(self).is_strict() == old(self).is_strict(),
            final(self).history() == old(self).history() + synthetic_results(old(self).pending())
                + seq![crate::message::plain_message("user"@, content@)],
            final(self).pending() == Seq::<Seq<char>>::empty(),
    {
        self.auto_complete_pending();
        let m = ApiMessage::plain("user", content);
        proof {
            lemma_role_names();
            lemma_messages_push(self.messages@, m);
            lemma_pending_push(self.history(), m@);
        }
        self.messages.push(m);
    }

    /// Appends an assistant message, first closing every pending tool call
    /// with a synthetic error result; the non-empty ids of its tool calls
    /// become pending.
    pub fn add_assistant(&mut self, content: Option<&str>, tool_calls: Option<Vec<ApiToolCall>>)
        requires
            old(self).well_formed(),
        ensures
            final(self).well_formed(),
            final(self).is_strict() == old(self).is_strict(),
            final(self).history() == old(self).history() + synthetic_results(old(self).pending())
                + seq![
                assistant_message(
                    match content {
                        Some(c) => Some(c@),
                        None => None,
                    },
                    match tool_calls {
                        Some(v) => Some(tool_calls_view(v@)),
                        None => None,
                    },
                ),
            ],
            final(self).pending().to_set() == (match tool_calls {
                Some(v) => call_ids(tool_calls_view(v@)),
                None => Set::empty(),
            }),
    {
        self.auto_complete_pending();
        let text = match content {
            Some(c) => owned(c),
            None => String::new(),
        };
        let mut ids: Vec<String> = Vec::new();
        if let Some(tcs) = &tool_calls {
            let ghost tv = tool_calls_view(tcs@);
            let mut j: usize = 0;
            while j < tcs.len()
                invariant
                    j <= tcs@.len(),
                    tv == tool_calls_view(tcs@),
                    str_views(ids@).no_duplicates(),
                    str_views(ids@).to_set() == call_ids(tv.take(j as int)),
                decreases tcs@.len() - j,
            {
                proof {
                    lemma_call_ids_take(tv, j as int);
                }
                if let Some(id) = &tcs[j].id {
                    if !id.as_str().is_empty() {
                        insert_id(&mut ids, id);
                    }
                }
                j = j + 1;
            }
            proof {
                assert(tv.take(tv.len() as int) =~= tv);
            }
        } else {
            assert(str_views(ids@).to_set() =~= Set::<Seq<char>>::empty());
        }
        let m = ApiMessage {
            role: Some(owned("assistant")),
            content: Some(text),
            name: None,
            tool_call_id: None,
            tool_calls: tool_calls,
        };
        proof {
            lemma_role_names();
            lemma_messages_push(self.messages@, m);
            lemma_pending_push(self.history(), m@);
            assert(Set::<Seq<char>>::empty().union(str_views(ids@).to_set()) =~= str_views(
                ids@,
            ).to_set());
            assert(Seq::<Seq<char>>::empty().to_set() =~= Set::<Seq<char>>::empty());
        }
        self.messages.push(m);
        self.pending_tool_ids = ids;
    }

    /// Appends the result of tool call `tool_call_id`. An id that is not
    /// pending is an orphan: refused in strict mode, accepted otherwise.
    pub fn add_tool_result(&mut self, tool_call_id: &str, content: &str) -> (r: Result<(), String>)
        requires
            old(self).well_formed(),
        ensures
            final(self).well_formed(),
            final(self).is_strict() == old(self).is_strict(),
            r is Err <==> (old(self).is_strict() && !old(self).pending().contains(tool_call_id@)),
            r is Err ==> final(self).history() == old(self).history() && final(self).pending()
                == old(self).pending(),
            r matches Err(e) ==> e@ == "Orphaned tool result for id="@ + tool_call_id@,
            r is Ok ==> final(self).history() == old(self).history().push(
                tool_result_message(tool_call_id@, content@),
            ),
            r is Ok ==> final(self).pending().to_set() == old(self).pending().to_set().remove(
                tool_call_id@,
            ),
    {
        match find_id(&self.pending_tool_ids, tool_call_id) {
            Some(k) => {
                let ghost pre = self.pending_tool_ids@;
                proof {
                    lemma_set_remove(str_views(pre), k as int);
                }
                self.pending_tool_ids.remove(k);
                proof {
                    assert(str_views(self.pending_tool_ids@) =~= str_views(pre).remove(k as int));
                }
            },
            None => {
                if self.strict {
                    let mut detail = owned("Orphaned tool result for id=");
                    push_str(&mut detail, tool_call_id);
                    return Err(detail);
                }
                assert(self.pending().to_set().remove(tool_call_id@) =~= self.pending().to_set());
            },
        }
        let m = ApiMessage {
            role: Some(owned("tool")),
            content: Some(owned(content)),
            name: None,
            tool_call_id: Some(owned(tool_call_id)),
            tool_calls: None,
        };
        proof {
            lemma_role_names();
            lemma_messages_push(self.messages@, m);
            lemma_pending_push(self.history(), m@);
        }
        self.messages.push(m);
        Ok(())
    }

    /// Appends one result per tool call with a non-empty id: the entry of
    /// `results_by_id` stored under its id, or a synthetic error where there
    /// is none. Each such id stops being pending.
    pub fn add_tool_results_batch(
        &mut self,
        tool_calls: &[ApiToolCall],
        results_by_id: &[(String, String)],
    )
        requires
            old(self).well_formed(),
        ensures
            final(self).well_formed(),
            final(self).is_strict() == old(self).is_strict(),
            final(self).history() == old(self).history() + batch_results(
                tool_calls_view(tool_calls@),
                pair_views(results_by_id@),
            ),
            final(self).pending().to_set() == old(self).pending().to_set().difference(
                call_ids(tool_calls_view(tool_calls@)),
            ),
    {
        let ghost h0 = self.history();
        let ghost s0 = self.pending().to_set();
        let ghost tv = tool_calls_view(tool_calls@);
        let ghost rv = pair_views(results_by_id@);
        let mut j: usize = 0;
        while j < tool_calls.len()
            invariant
                j <= tool_calls@.len(),
                tv == tool_calls_view(tool_calls@),
                rv == pair_views(results_by_id@),
                self.well_formed(),
                self.strict == old(self).strict,
                self.history() == h0 + batch_results(tv.take(j as int), rv),
                self.pending().to_set() == s0.difference(call_ids(tv.take(j as int))),
            decreases tool_calls@.len() - j,
        {
            proof {
                lemma_call_ids_take(tv, j as int);
                assert(tv.take(j + 1).drop_last() =~= tv.take(j as int));
                assert(tv.take(j + 1).last() == tv[j as int]);
            }
            if let Some(id) = &tool_calls[j].id {
                if !id.as_str().is_empty() {
                    let text = match find_result(results_by_id, id.as_str()) {
                        Some(v) => v.clone(),
                        None => owned(SYNTHETIC_TOOL_RESULT),
                    };
                    match find_id(&self.pending_tool_ids, id.as_str()) {
                        Some(k) => {
                            let ghost pre = self.pending_tool_ids@;
                            proof {
                                lemma_set_remove(str_views(pre), k as int);
                            }
                            self.pending_tool_ids.remove(k);
                            proof {
                                assert(str_views(self.pending_tool_ids@) =~= str_views(pre).remove(
                                    k as int,
                                ));
                            }
                        },
                        None => {
                            assert(self.pending().to_set().remove(id@) =~= self.pending().to_set());
                        },
                    }
                    let m = ApiMessage {
                        role: Some(owned("tool")),
                        content: Some(text),
                        name: None,
                        tool_call_id: Some(id.clone()),
                        tool_calls: None,
                    };
                    proof {
                        lemma_role_names();
                        lemma_messages_push(self.messages@, m);
                        lemma_pending_push(self.history(), m@);
                        assert(s0.difference(call_ids(tv.take(j + 1))) =~= s0.difference(
                            call_ids(tv.take(j as int)),
                        ).remove(id@));
                    }
                    self.messages.push(m);
                }
            }
            j = j + 1;
        }
        proof {
            assert(tv.take(tv.len() as int) =~= tv);
        }
    }

    /// Replaces all messages and rebuilds the pending state from them.
    pub fn replace_all(&mut self, messages: Vec<ApiMessage>)
        ensures
            final(self).well_formed(),
            final(self).is_strict() == old(self).is_strict(),
            final(self).history() == messages_view(messages@),
    {
        let ids = rebuild_pending(&messages);
        self.messages = messages;
        self.pending_tool_ids = ids;
    }
}

/// Whatever sequence of writes produced it, a well-formed list awaits
/// exactly the tool calls that its history leaves without a result.
pub proof fn law_pending_matches_history(list: &ValidatedMessageList)
    requires
        list.well_formed(),
    ensures
        list.pending().to_set() == pending_after(list.history()),
        list.pending().no_duplicates(),
{
}

} // verus!
