//! Built-in slash commands: /help, /clear, /mode, /exit, etc.
//!
//! `dispatch` decides what a command does to the REPL state and what the
//! user is to be told; the telling is described by a `CommandEffect`, which
//! the caller renders.
use vstd::prelude::*;

use crate::constants::{autonomy_from_lower, thinking_from_lower, AutonomyLevel, ThinkingLevel};
use crate::text::{
    chars_eq, chars_of, lowercase, slice_range, split_words, str_eq, string_of, to_lowercase,
    trim, trim_chars, words,
};

verus! {

/// The REPL's operation mode.
#[derive(Debug, Clone, Copy, PartialEq, Eq, Structural)]
pub enum OperationMode {
    Normal,
    Plan,
}

/// The part of the REPL state that built-in commands act on.
#[derive(Debug, Clone, Copy, PartialEq, Eq, Structural)]
pub struct ReplState {
    pub mode: OperationMode,
    pub thinking_level: ThinkingLevel,
    pub autonomy_level: AutonomyLevel,
    pub messages_cleared: bool,
    pub compact_requested: bool,
}

impl Default for ReplState {
    fn default() -> (r: Self)
        ensures
            r == (ReplState {
                mode: OperationMode::Normal,
                thinking_level: ThinkingLevel::Medium,
                autonomy_level: AutonomyLevel::SemiAuto,
                messages_cleared: false,
                compact_requested: false,
            }),
    {
        ReplState {
            mode: OperationMode::Normal,
            thinking_level: ThinkingLevel::Medium,
            autonomy_level: AutonomyLevel::SemiAuto,
            messages_cleared: false,
            compact_requested: false,
        }
    }
}

/// Outcome of dispatching a slash command.
#[derive(Debug, Clone, Copy, PartialEq, Eq, Structural)]
pub enum CommandOutcome {
    /// Command was handled successfully.
    Handled,
    /// The user wants to exit.
    Exit,
    /// Command was not recognized.
    Unknown,
}

/// What `/mcp` was asked to do.
#[derive(Debug, Clone, PartialEq, Eq)]
pub enum McpRequest {
    List,
    AddUsage,
    Add(String),
    RemoveUsage,
    Remove(String),
    EnableUsage,
    Enable(String),
    DisableUsage,
    Disable(String),
    Unknown(String),
}

/// What `/plugins` was asked to do.
#[derive(Debug, Clone, PartialEq, Eq)]
pub enum PluginsRequest {
    List,
    InstallUsage,
    Install(String),
    RemoveUsage,
    Remove(String),
    Unknown(String),
}

/// What `/session-models` was asked to do.
#[derive(Debug, Clone, PartialEq, Eq)]
pub enum SessionModelsRequest {
    Show,
    SetUsage,
    Override(String, String),
    UnknownSlot(String),
    Clear,
    Unknown(String),
}

/// What the user is told after a command.
#[derive(Debug, Clone, PartialEq, Eq)]
pub enum CommandEffect {
    Help,
    Exit,
    Cleared,
    ModeSet(OperationMode),
    ModeUsage,
    CompactRequested,
    Models,
    Mcp(McpRequest),
    AgentsList,
    AgentsUsage,
    SkillsList,
    SkillsUsage,
    Plugins(PluginsRequest),
    SessionModels(SessionModelsRequest),
    ThinkingShown(ThinkingLevel),
    ThinkingSet(ThinkingLevel),
    ThinkingInvalid(String),
    AutonomyShown(AutonomyLevel),
    AutonomySet(AutonomyLevel),
    AutonomyInvalid(String),
    Status(ReplState),
    Init,
    Unknown,
}

// ---------------------------------------------------------------------------
// Splitting arguments
// ---------------------------------------------------------------------------

/// Index of the first space in `s`, if any.
pub open spec fn first_space(s: Seq<char>) -> Option<int> {
    if exists|i: int| 0 <= i < s.len() && s[i] == ' ' {
        Some(choose|i: int| 0 <= i < s.len() && s[i] == ' ' && forall|j: int| 0 <= j < i ==> s[j] != ' ')
    } else {
        None
    }
}

/// `s.splitn(2, ' ')`: the text before the first space and, if there is a
/// space, the text after it.
pub open spec fn split_first_space(s: Seq<char>) -> (Seq<char>, Option<Seq<char>>) {
    match first_space(s) {
        Some(i) => (s.subrange(0, i), Some(s.subrange(i + 1, s.len() as int))),
        None => (s, None),
    }
}

/// `splitn(2, ' ')` on `s`.
pub fn split_at_first_space(s: &[char]) -> (r: (Vec<char>, Option<Vec<char>>))
    ensures
        r.0@ == split_first_space(s@).0,
        r.1 is Some <==> split_first_space(s@).1 is Some,
        r.1 is Some ==> r.1->0@ == split_first_space(s@).1->0,
{
    let mut i: usize = 0;
    while i < s.len()
        invariant
            i <= s@.len(),
            forall|j: int| 0 <= j < i ==> s@[j] != ' ',
        decreases s@.len() - i,
    {
        if s[i] == ' ' {
            let ghost k = choose|k: int|
                0 <= k < s@.len() && s@[k] == ' ' && forall|j: int| 0 <= j < k ==> s@[j] != ' ';
            assert(0 <= i < s@.len() && s@[i as int] == ' ' && forall|j: int|
                0 <= j < i ==> s@[j] != ' ');
            proof {
                if k < i {
                    assert(s@[k] != ' ');
                }
                if k > i {
                    assert(s@[i as int] != ' ');
                }
            }
            assert(k == i);
            return (slice_range(s, 0, i), Some(slice_range(s, i + 1, s.len())));
        }
        i = i + 1;
    }
    (slice_range(s, 0, s.len()), None)
    }

/// The text after the first space of `s`, or nothing (`parts.get(1)` with
/// `""` in its place).
pub open spec fn rest_after_space(s: Seq<char>) -> Seq<char> {
    match split_first_space(s).1 {
        Some(r) => r,
        None => Seq::empty(),
    }
}

/// The first word of `s`, or `dflt` when there is none.
pub open spec fn first_word_or(s: Seq<char>, dflt: Seq<char>) -> Seq<char> {
    if words(s).len() > 0 {
        words(s)[0]
    } else {
        dflt
    }
}

fn first_word_or_exec(s: &[char], dflt: &str) -> (r: Vec<char>)
    ensures
        r@ == first_word_or(s@, dflt@),
{
    let ws = split_words(s);
    if ws.len() > 0 {
        let w = ws[0].clone();
        w
    } else {
        chars_of(dflt)
    }
}

fn is_word(s: &[char], w: &str) -> (r: bool)
    ensures
        r == (s@ == w@),
{
    let c = chars_of(w);
    chars_eq(s, c.as_slice())
}

// ---------------------------------------------------------------------------
// Sub-command parsing
// ---------------------------------------------------------------------------

/// The `/mcp` request for `args`.
pub open spec fn mcp_request_of(args: Seq<char>) -> McpRequestView {
    let t = trim(args);
    let sub = split_first_space(t).0;
    let rest = rest_after_space(t);
    if sub.len() == 0 || sub == "list"@ {
        McpRequestView::List
    } else if sub == "add"@ {
        if rest.len() == 0 {
            McpRequestView::AddUsage
        } else {
            McpRequestView::Add(first_word_or(rest, rest))
        }
    } else if sub == "remove"@ {
        if rest.len() == 0 {
            McpRequestView::RemoveUsage
        } else {
            McpRequestView::Remove(trim(rest))
        }
    } else if sub == "enable"@ {
        if rest.len() == 0 {
            McpRequestView::EnableUsage
        } else {
            McpRequestView::Enable(trim(rest))
        }
    } else if sub == "disable"@ {
        if rest.len() == 0 {
            McpRequestView::DisableUsage
        } else {
            McpRequestView::Disable(trim(rest))
        }
    } else {
        McpRequestView::Unknown(sub)
    }
}

/// `McpRequest` with its strings taken by their views.
pub enum McpRequestView {
    List,
    AddUsage,
    Add(Seq<char>),
    RemoveUsage,
    Remove(Seq<char>),
    EnableUsage,
    Enable(Seq<char>),
    DisableUsage,
    Disable(Seq<char>),
    Unknown(Seq<char>),
}

impl View for McpRequest {
    type V = McpRequestView;

    open spec fn view(&self) -> McpRequestView {
        match self {
            McpRequest::List => McpRequestView::List,
            McpRequest::AddUsage => McpRequestView::AddUsage,
            McpRequest::Add(s) => McpRequestView::Add(s@),
            McpRequest::RemoveUsage => McpRequestView::RemoveUsage,
            McpRequest::Remove(s) => McpRequestView::Remove(s@),
            McpRequest::EnableUsage => McpRequestView::EnableUsage,
            McpRequest::Enable(s) => McpRequestView::Enable(s@),
            McpRequest::DisableUsage => McpRequestView::DisableUsage,
            McpRequest::Disable(s) => McpRequestView::Disable(s@),
            McpRequest::Unknown(s) => McpRequestView::Unknown(s@),
        }
    }
}

/// Parse the arguments of `/mcp`.
pub fn parse_mcp(args: &str) -> (r: McpRequest)
    ensures
        r@ == mcp_request_of(args@),
{
    let a = chars_of(args);
    let t = trim_chars(a.as_slice());
    let (sub, rest_opt) = split_at_first_space(t.as_slice());
    let rest = match rest_opt {
        Some(r) => r,
        None => Vec::new(),
    };
    assert(rest@ == rest_after_space(trim(args@)));
    if sub.len() == 0 || is_word(sub.as_slice(), "list") {
        McpRequest::List
    } else if is_word(sub.as_slice(), "add") {
        if rest.len() == 0 {
            McpRequest::AddUsage
        } else {
            let ws = split_words(rest.as_slice());
            let name = if ws.len() > 0 {
                ws[0].clone()
            } else {
                rest.clone()
            };
            McpRequest::Add(string_of(name.as_slice()))
        }
    } else if is_word(sub.as_slice(), "remove") {
        if rest.len() == 0 {
            McpRequest::RemoveUsage
        } else {
            McpRequest::Remove(string_of(trim_chars(rest.as_slice()).as_slice()))
        }
    } else if is_word(sub.as_slice(), "enable") {
        if rest.len() == 0 {
            McpRequest::EnableUsage
        } else {
            McpRequest::Enable(string_of(trim_chars(rest.as_slice()).as_slice()))
        }
    } else if is_word(sub.as_slice(), "disable") {
        if rest.len() == 0 {
            McpRequest::DisableUsage
        } else {
            McpRequest::Disable(string_of(trim_chars(rest.as_slice()).as_slice()))
        }
    } else {
        McpRequest::Unknown(string_of(sub.as_slice()))
    }
}

/// `PluginsRequest` with its strings taken by their views.
pub enum PluginsRequestView {
    List,
    InstallUsage,
    Install(Seq<char>),
    RemoveUsage,
    Remove(Seq<char>),
    Unknown(Seq<char>),
}

impl View for PluginsRequest {
    type V = PluginsRequestView;

    open spec fn view(&self) -> PluginsRequestView {
        match self {
            PluginsRequest::List => PluginsRequestView::List,
            PluginsRequest::InstallUsage => PluginsRequestView::InstallUsage,
            PluginsRequest::Install(s) => PluginsRequestView::Install(s@),
            PluginsRequest::RemoveUsage => PluginsRequestView::RemoveUsage,
            PluginsRequest::Remove(s) => PluginsRequestView::Remove(s@),
            PluginsRequest::Unknown(s) => PluginsRequestView::Unknown(s@),
        }
    }
}

/// The `/plugins` request for `args`.
pub open spec fn plugins_request_of(args: Seq<char>) -> PluginsRequestView {
    let t = trim(args);
    let sub = split_first_space(t).0;
    let rest = rest_after_space(t);
    if sub.len() == 0 || sub == "list"@ {
        PluginsRequestView::List
    } else if sub == "install"@ {
        if rest.len() == 0 {
            PluginsRequestView::InstallUsage
        } else {
            PluginsRequestView::Install(trim(rest))
        }
    } else if sub == "remove"@ {
        if rest.len() == 0 {
            PluginsRequestView::RemoveUsage
        } else {
            PluginsRequestView::Remove(trim(rest))
        }
    } else {
        PluginsRequestView::Unknown(sub)
    }
}

/// Parse the arguments of `/plugins`.
pub fn parse_plugins(args: &str) -> (r: PluginsRequest)
    ensures
        r@ == plugins_request_of(args@),
{
    let a = chars_of(args);
    let t = trim_chars(a.as_slice());
    let (sub, rest_opt) = split_at_first_space(t.as_slice());
    let rest = match rest_opt {
        Some(r) => r,
        None => Vec::new(),
    };
    assert(rest@ == rest_after_space(trim(args@)));
    if sub.len() == 0 || is_word(sub.as_slice(), "list") {
        PluginsRequest::List
    } else if is_word(sub.as_slice(), "install") {
        if rest.len() == 0 {
            PluginsRequest::InstallUsage
        } else {
            PluginsRequest::Install(string_of(trim_chars(rest.as_slice()).as_slice()))
        }
    } else if is_word(sub.as_slice(), "remove") {
        if rest.len() == 0 {
            PluginsRequest::RemoveUsage
        } else {
            PluginsRequest::Remove(string_of(trim_chars(rest.as_slice()).as_slice()))
        }
    } else {
        PluginsRequest::Unknown(string_of(sub.as_slice()))
    }
}

/// The model slots a session may override.
pub open spec fn session_model_slots() -> Seq<&'static str> {
    seq![
        "model",
        "model_provider",
        "model_thinking",
        "model_thinking_provider",
        "model_vlm",
        "model_vlm_provider",
        "model_critique",
        "model_critique_provider",
        "model_compact",
        "model_compact_provider",
    ]
}

/// The model slots a session may override.
pub fn valid_session_model_slots() -> (r: Vec<&'static str>)
    ensures
        r@ == session_model_slots(),
{
    let r = vec![
        "model",
        "model_provider",
        "model_thinking",
        "model_thinking_provider",
        "model_vlm",
        "model_vlm_provider",
        "model_critique",
        "model_critique_provider",
        "model_compact",
        "model_compact_provider",
    ];
    assert(r@ =~= session_model_slots());
    r
}

/// Whether `slot` names an overridable model slot.
pub open spec fn is_session_model_slot(slot: Seq<char>) -> bool {
    exists|i: int| 0 <= i < session_model_slots().len() && session_model_slots()[i]@ == slot
}

fn slot_is_valid(slot: &[char]) -> (r: bool)
    ensures
        r == is_session_model_slot(slot@),
{
    let slots = valid_session_model_slots();
    let mut k: usize = 0;
    while k < slots.len()
        invariant
            k <= slots@.len(),
            slots@ == session_model_slots(),
            forall|m: int| 0 <= m < k ==> #[trigger] session_model_slots()[m]@ != slot@,
        decreases slots@.len() - k,
    {
        if is_word(slot, slots[k]) {
            return true;
        }
        k = k + 1;
    }
    false
}

/// `SessionModelsRequest` with its strings taken by their views.
pub enum SessionModelsRequestView {
    Show,
    SetUsage,
    Override(Seq<char>, Seq<char>),
    UnknownSlot(Seq<char>),
    Clear,
    Unknown(Seq<char>),
}

impl View for SessionModelsRequest {
    type V = SessionModelsRequestView;

    open spec fn view(&self) -> SessionModelsRequestView {
        match self {
            SessionModelsRequest::Show => SessionModelsRequestView::Show,
            SessionModelsRequest::SetUsage => SessionModelsRequestView::SetUsage,
            SessionModelsRequest::Override(a, b) => SessionModelsRequestView::Override(a@, b@),
            SessionModelsRequest::UnknownSlot(s) => SessionModelsRequestView::UnknownSlot(s@),
            SessionModelsRequest::Clear => SessionModelsRequestView::Clear,
            SessionModelsRequest::Unknown(s) => SessionModelsRequestView::Unknown(s@),
        }
    }
}

/// The `/session-models` request for `args`.
pub open spec fn session_models_request_of(args: Seq<char>) -> SessionModelsRequestView {
    let t = trim(args);
    let sub = split_first_space(t).0;
    let rest = rest_after_space(t);
    if sub.len() == 0 || sub == "show"@ {
        SessionModelsRequestView::Show
    } else if sub == "set"@ {
        let sp = split_first_space(rest);
        match sp.1 {
            None => SessionModelsRequestView::SetUsage,
            Some(value) => if is_session_model_slot(sp.0) {
                SessionModelsRequestView::Override(sp.0, value)
            } else {
                SessionModelsRequestView::UnknownSlot(sp.0)
            },
        }
    } else if sub == "clear"@ {
        SessionModelsRequestView::Clear
    } else {
        SessionModelsRequestView::Unknown(sub)
    }
}

/// Parse the arguments of `/session-models`.
pub fn parse_session_models(args: &str) -> (r: SessionModelsRequest)
    ensures
        r@ == session_models_request_of(args@),
{
    let a = chars_of(args);
    let t = trim_chars(a.as_slice());
    let (sub, rest_opt) = split_at_first_space(t.as_slice());
    let rest = match rest_opt {
        Some(r) => r,
        None => Vec::new(),
    };
    assert(rest@ == rest_after_space(trim(args@)));
    if sub.len() == 0 || is_word(sub.as_slice(), "show") {
        SessionModelsRequest::Show
    } else if is_word(sub.as_slice(), "set") {
        let (slot, value) = split_at_first_space(rest.as_slice());
        match value {
            None => SessionModelsRequest::SetUsage,
            Some(v) => if slot_is_valid(slot.as_slice()) {
                SessionModelsRequest::Override(string_of(slot.as_slice()), string_of(v.as_slice()))
            } else {
                SessionModelsRequest::UnknownSlot(string_of(slot.as_slice()))
            },
        }
    } else if is_word(sub.as_slice(), "clear") {
        SessionModelsRequest::Clear
    } else {
        SessionModelsRequest::Unknown(string_of(sub.as_slice()))
    }
}

// ---------------------------------------------------------------------------
// Dispatch
// ---------------------------------------------------------------------------

/// The mode that `/mode` selects for its (trimmed, lower-cased) argument.
pub open spec fn mode_from_lower(s: Seq<char>) -> Option<OperationMode> {
    if s == "plan"@ {
        Some(OperationMode::Plan)
    } else if s == "normal"@ || s.len() == 0 {
        Some(OperationMode::Normal)
    } else {
        None
    }
}

/// Which built-in command a command name selects; names are tested in the
/// order in which `dispatch` tests them.
#[derive(Debug, Clone, Copy, PartialEq, Eq, Structural)]
pub enum CommandKind {
    Help,
    Exit,
    Clear,
    Mode,
    Compact,
    Models,
    Mcp,
    Agents,
    Skills,
    Plugins,
    SessionModels,
    Thinking,
    Autonomy,
    Status,
    Init,
    Unknown,
}

/// The command that `cmd` names.
pub open spec fn command_kind(cmd: Seq<char>) -> CommandKind {
    if cmd == "/help"@ {
        CommandKind::Help
    } else if cmd == "/exit"@ || cmd == "/quit"@ {
        CommandKind::Exit
    } else if cmd == "/clear"@ {
        CommandKind::Clear
    } else if cmd == "/mode"@ {
        CommandKind::Mode
    } else if cmd == "/compact"@ {
        CommandKind::Compact
    } else if cmd == "/models"@ {
        CommandKind::Models
    } else if cmd == "/mcp"@ {
        CommandKind::Mcp
    } else if cmd == "/agents"@ {
        CommandKind::Agents
    } else if cmd == "/skills"@ {
        CommandKind::Skills
    } else if cmd == "/plugins"@ {
        CommandKind::Plugins
    } else if cmd == "/session-models"@ {
        CommandKind::SessionModels
    } else if cmd == "/thinking"@ {
        CommandKind::Thinking
    } else if cmd == "/autonomy"@ {
        CommandKind::Autonomy
    } else if cmd == "/status"@ {
        CommandKind::Status
    } else if cmd == "/init"@ {
        CommandKind::Init
    } else {
        CommandKind::Unknown
    }
}

/// The outcome of a command name.
pub open spec fn command_outcome(cmd: Seq<char>) -> CommandOutcome {
    match command_kind(cmd) {
        CommandKind::Exit => CommandOutcome::Exit,
        CommandKind::Unknown => CommandOutcome::Unknown,
        _ => CommandOutcome::Handled,
    }
}

/// The thinking level after `/thinking args` from level `l`.
pub open spec fn thinking_after(args: Seq<char>, l: ThinkingLevel) -> ThinkingLevel {
    if trim(args).len() == 0 {
        l
    } else {
        match thinking_from_lower(lowercase(trim(args))) {
            Some(n) => n,
            None => l,
        }
    }
}

/// The autonomy level after `/autonomy args` from level `l`.
pub open spec fn autonomy_after(args: Seq<char>, l: AutonomyLevel) -> AutonomyLevel {
    if trim(args).len() == 0 {
        l
    } else {
        match autonomy_from_lower(lowercase(trim(args))) {
            Some(n) => n,
            None => l,
        }
    }
}

/// The state after command `cmd` with arguments `args` in state `s`.
pub open spec fn state_after(cmd: Seq<char>, args: Seq<char>, s: ReplState) -> ReplState {
    match command_kind(cmd) {
        CommandKind::Clear => ReplState { messages_cleared: true, ..s },
        CommandKind::Mode => match mode_from_lower(lowercase(trim(args))) {
            Some(m) => ReplState { mode: m, ..s },
            None => s,
        },
        CommandKind::Compact => ReplState { compact_requested: true, ..s },
        CommandKind::Thinking => ReplState {
            thinking_level: thinking_after(args, s.thinking_level),
            ..s
        },
        CommandKind::Autonomy => ReplState {
            autonomy_level: autonomy_after(args, s.autonomy_level),
            ..s
        },
        _ => s,
    }
}

/// Handles built-in slash commands.
#[derive(Debug, Clone, Copy)]
pub struct BuiltinCommands;

impl Default for BuiltinCommands {
    fn default() -> (r: Self) {
        BuiltinCommands
    }
}

impl BuiltinCommands {
    /// Create a new command handler.
    pub fn new() -> (r: Self) {
        BuiltinCommands
    }

    /// Dispatch a slash command.
    ///
    /// Returns the outcome indicating how the REPL should proceed; the state
    /// changes as the command asks.
    pub fn dispatch(&self, cmd: &str, args: &str, state: &mut ReplState) -> (r: CommandOutcome)
        ensures
            r == command_outcome(cmd@),
            *final(state) == state_after(cmd@, args@, *old(state)),
    {
        let (r, _effect) = self.dispatch_with_effect(cmd, args, state);
        r
    }

    /// Dispatch a slash command, also returning what the user is to be told.
    pub fn dispatch_with_effect(&self, cmd: &str, args: &str, state: &mut ReplState) -> (r: (
        CommandOutcome,
        CommandEffect,
    ))
        ensures
            r.0 == command_outcome(cmd@),
            *final(state) == state_after(cmd@, args@, *old(state)),
            r.0 == CommandOutcome::Unknown <==> r.1 == CommandEffect::Unknown,
            command_kind(cmd@) == CommandKind::Mcp ==> (r.1 matches CommandEffect::Mcp(m) && m@ == mcp_request_of(args@)),
            command_kind(cmd@) == CommandKind::Plugins ==> (r.1 matches CommandEffect::Plugins(m) && m@
                == plugins_request_of(args@)),
            command_kind(cmd@) == CommandKind::SessionModels ==> (r.1 matches CommandEffect::SessionModels(m) && m@
                == session_models_request_of(args@)),
            command_kind(cmd@) == CommandKind::Status ==> r.1 == CommandEffect::Status(*old(state)),
            command_kind(cmd@) == CommandKind::Agents ==> r.1 == (if first_word_or(trim(args@), "list"@) == "list"@ {
                CommandEffect::AgentsList
            } else {
                CommandEffect::AgentsUsage
            }),
            command_kind(cmd@) == CommandKind::Skills ==> r.1 == (if first_word_or(trim(args@), "list"@) == "list"@ {
                CommandEffect::SkillsList
            } else {
                CommandEffect::SkillsUsage
            }),
            command_kind(cmd@) == CommandKind::Thinking && trim(args@).len() == 0 ==> r.1 == CommandEffect::ThinkingShown(
                old(state).thinking_level,
            ),
            command_kind(cmd@) == CommandKind::Thinking && trim(args@).len() > 0 ==> (match thinking_from_lower(
                lowercase(trim(args@)),
            ) {
                Some(l) => r.1 == CommandEffect::ThinkingSet(l),
                None => (r.1 matches CommandEffect::ThinkingInvalid(t) && t@ == trim(args@)),
            }),
            command_kind(cmd@) == CommandKind::Autonomy && trim(args@).len() == 0 ==> r.1 == CommandEffect::AutonomyShown(
                old(state).autonomy_level,
            ),
            command_kind(cmd@) == CommandKind::Autonomy && trim(args@).len() > 0 ==> (match autonomy_from_lower(
                lowercase(trim(args@)),
            ) {
                Some(l) => r.1 == CommandEffect::AutonomySet(l),
                None => (r.1 matches CommandEffect::AutonomyInvalid(t) && t@ == trim(args@)),
            }),
            command_kind(cmd@) == CommandKind::Mode ==> r.1 == (match mode_from_lower(lowercase(trim(args@))) {
                Some(m) => CommandEffect::ModeSet(m),
                None => CommandEffect::ModeUsage,
            }),
            command_kind(cmd@) == CommandKind::Help ==> r.1 == CommandEffect::Help,
            command_kind(cmd@) == CommandKind::Exit ==> r.1 == CommandEffect::Exit,
            command_kind(cmd@) == CommandKind::Clear ==> r.1 == CommandEffect::Cleared,
            command_kind(cmd@) == CommandKind::Compact ==> r.1 == CommandEffect::CompactRequested,
            command_kind(cmd@) == CommandKind::Models ==> r.1 == CommandEffect::Models,
            command_kind(cmd@) == CommandKind::Init ==> r.1 == CommandEffect::Init,
    {
        if str_eq(cmd, "/help") {
            (CommandOutcome::Handled, CommandEffect::Help)
        } else if str_eq(cmd, "/exit") || str_eq(cmd, "/quit") {
            (CommandOutcome::Exit, CommandEffect::Exit)
        } else if str_eq(cmd, "/clear") {
            state.messages_cleared = true;
            (CommandOutcome::Handled, CommandEffect::Cleared)
        } else if str_eq(cmd, "/mode") {
            let e = Self::handle_mode(args, state);
            (CommandOutcome::Handled, e)
        } else if str_eq(cmd, "/compact") {
            state.compact_requested = true;
            (CommandOutcome::Handled, CommandEffect::CompactRequested)
        } else if str_eq(cmd, "/models") {
            (CommandOutcome::Handled, CommandEffect::Models)
        } else if str_eq(cmd, "/mcp") {
            (CommandOutcome::Handled, CommandEffect::Mcp(parse_mcp(args)))
        } else if str_eq(cmd, "/agents") {
            let a = chars_of(args);
            let t = trim_chars(a.as_slice());
            let w = first_word_or_exec(t.as_slice(), "list");
            if is_word(w.as_slice(), "list") {
                (CommandOutcome::Handled, CommandEffect::AgentsList)
            } else {
                (CommandOutcome::Handled, CommandEffect::AgentsUsage)
            }
        } else if str_eq(cmd, "/skills") {
            let a = chars_of(args);
            let t = trim_chars(a.as_slice());
            let w = first_word_or_exec(t.as_slice(), "list");
            if is_word(w.as_slice(), "list") {
                (CommandOutcome::Handled, CommandEffect::SkillsList)
            } else {
                (CommandOutcome::Handled, CommandEffect::SkillsUsage)
            }
        } else if str_eq(cmd, "/plugins") {
            (CommandOutcome::Handled, CommandEffect::Plugins(parse_plugins(args)))
        } else if str_eq(cmd, "/session-models") {
            (CommandOutcome::Handled, CommandEffect::SessionModels(parse_session_models(args)))
        } else if str_eq(cmd, "/thinking") {
            let e = Self::handle_thinking(args, state);
            (CommandOutcome::Handled, e)
        } else if str_eq(cmd, "/autonomy") {
            let e = Self::handle_autonomy(args, state);
            (CommandOutcome::Handled, e)
        } else if str_eq(cmd, "/status") {
            (CommandOutcome::Handled, CommandEffect::Status(*state))
        } else if str_eq(cmd, "/init") {
            (CommandOutcome::Handled, CommandEffect::Init)
        } else {
            (CommandOutcome::Unknown, CommandEffect::Unknown)
        }
    }

    fn handle_mode(args: &str, state: &mut ReplState) -> (e: CommandEffect)
        ensures
            *final(state) == (match mode_from_lower(lowercase(trim(args@))) {
                Some(m) => ReplState { mode: m, ..*old(state) },
                None => *old(state),
            }),
            e == (match mode_from_lower(lowercase(trim(args@))) {
                Some(m) => CommandEffect::ModeSet(m),
                None => CommandEffect::ModeUsage,
            }),
    {
        let a = chars_of(args);
        let t = trim_chars(a.as_slice());
        let ts = string_of(t.as_slice());
        let lower = to_lowercase(ts.as_str());
        if str_eq(lower.as_str(), "plan") {
            state.mode = OperationMode::Plan;
            CommandEffect::ModeSet(OperationMode::Plan)
        } else if str_eq(lower.as_str(), "normal") || lower.as_str().is_empty() {
            state.mode = OperationMode::Normal;
            CommandEffect::ModeSet(OperationMode::Normal)
        } else {
            CommandEffect::ModeUsage
        }
    }

    fn handle_thinking(args: &str, state: &mut ReplState) -> (e: CommandEffect)
        ensures
            *final(state) == (ReplState {
                thinking_level: thinking_after(args@, old(state).thinking_level),
                ..*old(state)
            }),
            trim(args@).len() == 0 ==> e == CommandEffect::ThinkingShown(old(state).thinking_level),
            trim(args@).len() > 0 ==> (match thinking_from_lower(lowercase(trim(args@))) {
                Some(l) => e == CommandEffect::ThinkingSet(l),
                None => (e matches CommandEffect::ThinkingInvalid(t) && t@ == trim(args@)),
            }),
    {
        let a = chars_of(args);
        let t = trim_chars(a.as_slice());
        if t.len() == 0 {
            return CommandEffect::ThinkingShown(state.thinking_level);
        }
        let ts = string_of(t.as_slice());
        match ThinkingLevel::from_str_loose(ts.as_str()) {
            Some(level) => {
                state.thinking_level = level;
                CommandEffect::ThinkingSet(level)
            },
            None => CommandEffect::ThinkingInvalid(ts),
        }
    }

    fn handle_autonomy(args: &str, state: &mut ReplState) -> (e: CommandEffect)
        ensures
            *final(state) == (ReplState {
                autonomy_level: autonomy_after(args@, old(state).autonomy_level),
                ..*old(state)
            }),
            trim(args@).len() == 0 ==> e == CommandEffect::AutonomyShown(old(state).autonomy_level),
            trim(args@).len() > 0 ==> (match autonomy_from_lower(lowercase(trim(args@))) {
                Some(l) => e == CommandEffect::AutonomySet(l),
                None => (e matches CommandEffect::AutonomyInvalid(t) && t@ == trim(args@)),
            }),
    {
        let a = chars_of(args);
        let t = trim_chars(a.as_slice());
        if t.len() == 0 {
            return CommandEffect::AutonomyShown(state.autonomy_level);
        }
        let ts = string_of(t.as_slice());
        match AutonomyLevel::from_str_loose(ts.as_str()) {
            Some(level) => {
                state.autonomy_level = level;
                CommandEffect::AutonomySet(level)
            },
            None => CommandEffect::AutonomyInvalid(ts),
        }
    }
}

// ---------------------------------------------------------------------------
// /init
// ---------------------------------------------------------------------------

/// The files whose presence in the working directory marks a kind of
/// project, each with that kind.
pub open spec fn project_markers() -> Seq<(Seq<char>, Seq<char>)> {
    seq![
        ("Cargo.toml"@, "Rust"@),
        ("package.json"@, "Node.js"@),
        ("pyproject.toml"@, "Python"@),
        ("go.mod"@, "Go"@),
        ("Makefile"@, "Make"@),
        (".git"@, "Git repo"@),
    ]
}

/// The project markers, in the order `/init` checks them.
pub fn marker_files() -> (r: Vec<(&'static str, &'static str)>)
    ensures
        r@.len() == project_markers().len(),
        forall|i: int|
            0 <= i < r@.len() ==> (#[trigger] r@[i]).0@ == project_markers()[i].0 && r@[i].1@
                == project_markers()[i].1,
{
    let r = vec![
        ("Cargo.toml", "Rust"),
        ("package.json", "Node.js"),
        ("pyproject.toml", "Python"),
        ("go.mod", "Go"),
        ("Makefile", "Make"),
        (".git", "Git repo"),
    ];
    r
}

/// The kinds of project whose marker was found, where `found[i]` says
/// whether the `i`-th marker's file exists.
pub open spec fn detected_kinds(found: Seq<bool>) -> Seq<Seq<char>>
    decreases found.len(),
{
    if found.len() == 0 {
        Seq::empty()
    } else {
        let prev = detected_kinds(found.drop_last());
        if found.last() {
            prev.push(project_markers()[found.len() - 1].1)
        } else {
            prev
        }
    }
}

/// What `/init` reports of the markers found.
pub open spec fn init_report(found: Seq<bool>) -> Seq<char> {
    if detected_kinds(found).len() == 0 {
        "No recognized project markers found."@
    } else {
        "Detected: "@ + crate::paths::join_sep(detected_kinds(found), ", "@)
    }
}

/// What `/init` reports, given which of the markers' files exist.
pub fn init_report_line(found: &[bool]) -> (r: String)
    requires
        found@.len() == project_markers().len(),
    ensures
        r@ == init_report(found@),
{
    let markers = marker_files();
    let mut kinds: Vec<&'static str> = Vec::new();
    let mut i: usize = 0;
    while i < found.len()
        invariant
            i <= found@.len(),
            found@.len() == markers@.len(),
            markers@.len() == project_markers().len(),
            forall|m: int|
                0 <= m < markers@.len() ==> (#[trigger] markers@[m]).0@ == project_markers()[m].0
                    && markers@[m].1@ == project_markers()[m].1,
            kinds@.map_values(|k: &str| k@) == detected_kinds(found@.take(i as int)),
        decreases found@.len() - i,
    {
        proof {
            assert(found@.take(i + 1).drop_last() =~= found@.take(i as int));
        }
        if found[i] {
            kinds.push(markers[i].1);
            proof {
                assert(kinds@.map_values(|k: &str| k@) =~= detected_kinds(found@.take(i as int)).push(
                    project_markers()[i as int].1,
                ));
            }
        }
        i = i + 1;
    }
    proof {
        assert(found@.take(found@.len() as int) =~= found@);
    }
    let ghost kv = kinds@.map_values(|k: &str| k@);
    if kinds.len() == 0 {
        return crate::text::owned("No recognized project markers found.");
    }
    let mut r = crate::text::owned("Detected: ");
    let ghost r0 = r@;
    let mut k: usize = 0;
    while k < kinds.len()
        invariant
            k <= kinds@.len(),
            kv == kinds@.map_values(|k: &str| k@),
            r@ == r0 + crate::paths::join_sep(kv.take(k as int), ", "@),
        decreases kinds@.len() - k,
    {
        if k > 0 {
            crate::text::push_str(&mut r, ", ");
        }
        crate::text::push_str(&mut r, kinds[k]);
        proof {
            let t = kv.take(k + 1);
            assert(t.drop_last() =~= kv.take(k as int));
            assert(t.last() == kinds@[k as int]@);
            if k == 0 {
                assert(crate::paths::join_sep(t, ", "@) == t[0]);
            }
            assert(r@ =~= r0 + crate::paths::join_sep(t, ", "@));
        }
        k = k + 1;
    }
    proof {
        assert(kv.take(kinds@.len() as int) =~= kv);
    }
    r
}

} // verus!
