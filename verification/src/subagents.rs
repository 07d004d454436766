//! The decisions made when a subagent is spawned: whether it may run, its
//! model, its tools, its system prompt, its iteration budget and its first
//! messages. Running the subagent's loop is the caller's part.
use vstd::prelude::*;

use crate::message::{messages_view, plain_message, ApiMessage, ApiMessageView};
use crate::paths::join_sep;
use crate::text::{owned, push_str, str_eq};

verus! {

/// What a subagent's definition says of it.
#[derive(Debug, Clone)]
pub struct SubAgentSpec {
    pub name: String,
    pub disable: bool,
    /// The model to use instead of the parent's.
    pub model: Option<String>,
    /// The tools it is restricted to, where `restricts_tools` holds.
    pub tools: Vec<String>,
    pub restricts_tools: bool,
    pub system_prompt: String,
    pub max_steps: Option<u32>,
    pub max_tokens: Option<u32>,
}

/// A project instruction file (such as `AGENTS.md`).
#[derive(Debug, Clone)]
pub struct InstructionFile {
    pub file_name: String,
    pub scope: String,
    pub content: String,
}

/// How a subagent is to be run.
#[derive(Debug)]
pub struct SubagentPlan {
    pub model: String,
    /// The tools it may call (all, where `None`).
    pub allowed_tools: Option<Vec<String>>,
    pub system_prompt: String,
    pub max_iterations: usize,
    pub max_tokens: u64,
    pub messages: Vec<ApiMessage>,
}

/// The texts of a sequence of strings.
pub open spec fn texts(v: Seq<String>) -> Seq<Seq<char>> {
    v.map_values(|s: String| s@)
}

/// `tools` without the denied ones, in order.
pub open spec fn without_denied(tools: Seq<Seq<char>>, denied: Seq<Seq<char>>) -> Seq<Seq<char>>
    decreases tools.len(),
{
    if tools.len() == 0 {
        Seq::empty()
    } else {
        let prev = without_denied(tools.drop_last(), denied);
        if denied.contains(tools.last()) {
            prev
        } else {
            prev.push(tools.last())
        }
    }
}

/// The tools a subagent may call: its restriction (if any), less the tools
/// its permission rules deny outright (taken from all registered tools
/// where it has no restriction).
pub open spec fn allowed_tools_of(
    restricted: Option<Seq<Seq<char>>>,
    registry: Seq<Seq<char>>,
    denied: Seq<Seq<char>>,
) -> Option<Seq<Seq<char>>> {
    if denied.len() == 0 {
        restricted
    } else {
        Some(
            without_denied(
                match restricted {
                    Some(t) => t,
                    None => registry,
                },
                denied,
            ),
        )
    }
}

/// The section of one instruction file.
pub open spec fn instruction_section(file: (Seq<char>, Seq<char>, Seq<char>)) -> Seq<char> {
    "## "@ + file.0 + " ("@ + file.1 + ")\n"@ + file.2
}

/// The system prompt: the subagent's own, then the project instructions.
pub open spec fn subagent_prompt(own: Seq<char>, files: Seq<(Seq<char>, Seq<char>, Seq<char>)>) -> Seq<
    char,
> {
    if files.len() == 0 {
        own
    } else {
        join_sep(
            seq![own, "\n\n# Project Instructions\n"@] + files.map_values(
                |f: (Seq<char>, Seq<char>, Seq<char>)| instruction_section(f),
            ),
            "\n"@,
        )
    }
}

/// The models of the instruction files.
pub open spec fn files_view(v: Seq<InstructionFile>) -> Seq<(Seq<char>, Seq<char>, Seq<char>)> {
    v.map_values(|f: InstructionFile| (f.file_name@, f.scope@, f.content@))
}

/// The message that shows a code explorer the project's structure.
pub open spec fn scout_message(structure: Seq<char>) -> Seq<char> {
    "Here is the project structure to help you navigate:\n\n"@ + structure
        + "\nIMPORTANT: Only use paths that appear in this tree or that you discover via list_files. Do NOT guess or hallucinate paths — if you're unsure whether a directory or file exists, use list_files to check first."@
}

/// The reply that acknowledges the project's structure.
pub open spec fn scout_reply() -> Seq<char> {
    "Thank you for the project structure. I'll only use paths from this tree or ones I discover via list_files — no guessing. Let me now address your task."@
}

/// The first messages of a subagent: the system prompt, the project
/// structure for a code explorer (where there is one), then the task.
pub open spec fn first_messages(prompt: Seq<char>, is_explorer: bool, structure: Seq<char>, task: Seq<char>) -> Seq<
    ApiMessageView,
> {
    seq![plain_message("system"@, prompt)] + (if is_explorer && structure.len() > 0 {
        seq![plain_message("user"@, scout_message(structure)), plain_message("assistant"@, scout_reply())]
    } else {
        Seq::empty()
    }) + seq![plain_message("user"@, task)]
}

/// Whether `x` is among `v`.
fn contains_text(v: &[String], x: &String) -> (r: bool)
    ensures
        r == texts(v@).contains(x@),
{
    let mut k: usize = 0;
    while k < v.len()
        invariant
            k <= v@.len(),
            forall|m: int| 0 <= m < k ==> v@[m]@ != x@,
        decreases v@.len() - k,
    {
        if str_eq(v[k].as_str(), x.as_str()) {
            proof {
                assert(texts(v@)[k as int] == x@);
            }
            return true;
        }
        k = k + 1;
    }
    false
}

fn filter_denied(tools: &Vec<String>, denied: &[String]) -> (r: Vec<String>)
    ensures
        texts(r@) == without_denied(texts(tools@), texts(denied@)),
{
    let mut r: Vec<String> = Vec::new();
    let mut k: usize = 0;
    while k < tools.len()
        invariant
            k <= tools@.len(),
            texts(r@) == without_denied(texts(tools@).take(k as int), texts(denied@)),
        decreases tools@.len() - k,
    {
        proof {
            assert(texts(tools@).take(k + 1).drop_last() =~= texts(tools@).take(k as int));
            assert(texts(tools@).take(k + 1).last() == tools@[k as int]@);
        }
        if !contains_text(denied, &tools[k]) {
            let c = tools[k].clone();
            proof {
                assert(texts(r@.push(c)) =~= texts(r@).push(c@));
            }
            r.push(c);
        }
        k = k + 1;
    }
    assert(texts(tools@).take(tools@.len() as int) =~= texts(tools@));
    r
}

fn copy_texts(v: &[String]) -> (r: Vec<String>)
    ensures
        texts(r@) == texts(v@),
{
    let mut r: Vec<String> = Vec::new();
    let mut k: usize = 0;
    while k < v.len()
        invariant
            k <= v@.len(),
            texts(r@) == texts(v@).take(k as int),
        decreases v@.len() - k,
    {
        let c = v[k].clone();
        proof {
            assert(texts(r@.push(c)) =~= texts(r@).push(c@));
            assert(texts(v@).take(k + 1) =~= texts(v@).take(k as int).push(v@[k as int]@));
        }
        r.push(c);
        k = k + 1;
    }
    assert(texts(v@).take(v@.len() as int) =~= texts(v@));
    r
}

fn build_prompt(own: &String, files: &[InstructionFile]) -> (r: String)
    ensures
        r@ == subagent_prompt(own@, files_view(files@)),
{
    if files.len() == 0 {
        return own.clone();
    }
    let ghost fv = files_view(files@);
    let ghost parts = seq![own@, "\n\n# Project Instructions\n"@] + fv.map_values(
        |f: (Seq<char>, Seq<char>, Seq<char>)| instruction_section(f),
    );
    let mut r = own.clone();
    push_str(&mut r, "\n");
    push_str(&mut r, "\n\n# Project Instructions\n");
    proof {
        assert(parts.take(2).drop_last() =~= seq![own@]);
        assert(join_sep(seq![own@], "\n"@) == own@);
        assert(r@ =~= join_sep(parts.take(2), "\n"@));
    }
    let mut k: usize = 0;
    while k < files.len()
        invariant
            k <= files@.len(),
            fv == files_view(files@),
            parts == seq![own@, "\n\n# Project Instructions\n"@] + fv.map_values(
                |f: (Seq<char>, Seq<char>, Seq<char>)| instruction_section(f),
            ),
            r@ == join_sep(parts.take(k + 2), "\n"@),
        decreases files@.len() - k,
    {
        let f = &files[k];
        push_str(&mut r, "\n");
        push_str(&mut r, "## ");
        push_str(&mut r, f.file_name.as_str());
        push_str(&mut r, " (");
        push_str(&mut r, f.scope.as_str());
        push_str(&mut r, ")\n");
        push_str(&mut r, f.content.as_str());
        proof {
            let t = parts.take(k + 3);
            assert(t.drop_last() =~= parts.take(k + 2));
            assert(t.last() == instruction_section(fv[k as int]));
            assert(r@ =~= join_sep(t, "\n"@));
        }
        k = k + 1;
    }
    assert(parts.take(files@.len() + 2int) =~= parts);
    r
}

/// The error of an unknown subagent.
pub open spec fn unknown_error(name: Seq<char>) -> Seq<char> {
    "Unknown subagent type: "@ + name
}

/// The error of a disabled subagent.
pub open spec fn disabled_error(name: Seq<char>) -> Seq<char> {
    "Agent '"@ + name + "' is disabled"@
}

/// The iteration budget: a code explorer's steps (200 by default), else
/// the subagent's steps (25 by default).
pub open spec fn iteration_budget(max_steps: Option<u32>, is_explorer: bool) -> nat {
    match max_steps {
        Some(s) => s as nat,
        None => if is_explorer {
            200
        } else {
            25
        },
    }
}

/// Plans how to run subagent `subagent_name` (whose definition is `spec`,
/// where one was found) on `task`: refused where it is unknown or disabled.
/// `denied` are the tools its permission rules deny outright; `structure`
/// is the project tree scanned for a code explorer.
pub fn plan_subagent(
    subagent_name: &str,
    spec: Option<&SubAgentSpec>,
    task: &str,
    parent_model: &str,
    parent_max_tokens: u64,
    registry_tools: &[String],
    denied: &[String],
    instructions: &[InstructionFile],
    is_explorer: bool,
    structure: &str,
) -> (r: Result<SubagentPlan, String>)
    ensures
        spec is None ==> (r matches Err(e) && e@ == unknown_error(subagent_name@)),
        spec matches Some(s) ==> (s.disable <==> r is Err),
        spec matches Some(s) ==> (s.disable ==> (r matches Err(e) && e@ == disabled_error(subagent_name@))),
        r matches Ok(p) ==> spec matches Some(s) && p.model@ == (match s.model {
            Some(m) => m@,
            None => parent_model@,
        }) && (match p.allowed_tools {
            Some(t) => Some(texts(t@)),
            None => None,
        }) == allowed_tools_of(
            if s.restricts_tools {
                Some(texts(s.tools@))
            } else {
                None
            },
            texts(registry_tools@),
            texts(denied@),
        ) && p.system_prompt@ == subagent_prompt(s.system_prompt@, files_view(instructions@))
            && p.max_iterations == iteration_budget(s.max_steps, is_explorer) && p.max_tokens == (
        match s.max_tokens {
            Some(t) => t as u64,
            None => (parent_max_tokens as u32) as u64,
        }) && messages_view(p.messages@) == first_messages(
            p.system_prompt@,
            is_explorer,
            structure@,
            task@,
        ),
{
    let s = match spec {
        Some(s) => s,
        None => {
            let mut e = owned("Unknown subagent type: ");
            push_str(&mut e, subagent_name);
            return Err(e);
        },
    };
    if s.disable {
        let mut e = owned("Agent '");
        push_str(&mut e, subagent_name);
        push_str(&mut e, "' is disabled");
        return Err(e);
    }
    let model = match &s.model {
        Some(m) => m.clone(),
        None => owned(parent_model),
    };
    let restricted: Option<Vec<String>> = if s.restricts_tools {
        Some(copy_texts(s.tools.as_slice()))
    } else {
        None
    };
    let allowed_tools = if denied.len() == 0 {
        restricted
    } else {
        let base = match restricted {
            Some(t) => t,
            None => copy_texts(registry_tools),
        };
        Some(filter_denied(&base, denied))
    };
    let system_prompt = build_prompt(&s.system_prompt, instructions);
    let max_iterations: usize = match s.max_steps {
        Some(n) => n as usize,
        None => if is_explorer {
            200
        } else {
            25
        },
    };
    let max_tokens: u64 = match s.max_tokens {
        Some(t) => t as u64,
        None => {
            #[verifier::truncate]
            let t = parent_max_tokens as u32;
            t as u64
        },
    };
    let mut messages: Vec<ApiMessage> = Vec::new();
    messages.push(ApiMessage::plain("system", system_prompt.as_str()));
    let ghost m0 = messages_view(messages@);
    if is_explorer && !structure.is_empty() {
        let mut scout = owned("Here is the project structure to help you navigate:\n\n");
        push_str(&mut scout, structure);
        push_str(&mut scout, "\nIMPORTANT: Only use paths that appear in this tree or that you discover via list_files. Do NOT guess or hallucinate paths — if you're unsure whether a directory or file exists, use list_files to check first.");
        messages.push(ApiMessage::plain("user", scout.as_str()));
        messages.push(ApiMessage::plain("assistant", "Thank you for the project structure. I'll only use paths from this tree or ones I discover via list_files — no guessing. Let me now address your task."));
    }
    messages.push(ApiMessage::plain("user", task));
    proof {
        assert(messages_view(messages@) =~= first_messages(system_prompt@, is_explorer, structure@, task@));
    }
    Ok(SubagentPlan { model, allowed_tools, system_prompt, max_iterations, max_tokens, messages })
}

/// The summary shown when a subagent finishes: its answer, cut to 200
/// bytes with `...` where longer; `None` where the cut would fall inside a
/// character.
pub fn finished_summary(content: &str) -> (r: Option<String>)
    ensures
        crate::text::byte_len(content@) <= 200 ==> (r matches Some(s) && s@ == content@),
        crate::text::byte_len(content@) > 200 ==> (r is None <==> !crate::text::is_boundary(content@, 200)),
        crate::text::byte_len(content@) > 200 ==> (r matches Some(s) ==> s@ == content@.take(
            crate::text::chars_for_bytes(content@, 200, 0),
        ) + "..."@),
{
    let n = crate::text::str_byte_len(content);
    if n <= 200 {
        return Some(owned(content));
    }
    match crate::text::byte_prefix(content, 200) {
        Some(p) => {
            let mut s = p;
            push_str(&mut s, "...");
            Some(s)
        },
        None => None,
    }
}

} // verus!
