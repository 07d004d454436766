//! Autonomy levels, thinking levels and the safe-command list of the approval
//! system.
use vstd::prelude::*;

use crate::text::{chars_of, lowercase, owned, str_eq, string_of, to_lowercase, trim, trim_chars};

verus! {

/// Autonomy levels for command approval.
#[derive(Debug, Clone, Copy, PartialEq, Eq, Hash, Structural)]
pub enum AutonomyLevel {
    /// Every command requires manual approval.
    Manual,
    /// Safe commands auto-approved; others require approval.
    SemiAuto,
    /// All commands auto-approved (dangerous still flagged).
    Auto,
}

impl Default for AutonomyLevel {
    fn default() -> (r: Self)
        ensures
            r == AutonomyLevel::SemiAuto,
    {
        AutonomyLevel::SemiAuto
    }
}

/// The display name of an autonomy level.
pub open spec fn autonomy_name(l: AutonomyLevel) -> Seq<char> {
    match l {
        AutonomyLevel::Manual => "Manual"@,
        AutonomyLevel::SemiAuto => "Semi-Auto"@,
        AutonomyLevel::Auto => "Auto"@,
    }
}

/// The autonomy level that an already lower-cased name denotes.
pub open spec fn autonomy_from_lower(s: Seq<char>) -> Option<AutonomyLevel> {
    if s == "manual"@ {
        Some(AutonomyLevel::Manual)
    } else if s == "semi-auto"@ || s == "semiauto"@ || s == "semi"@ {
        Some(AutonomyLevel::SemiAuto)
    } else if s == "auto"@ || s == "full"@ {
        Some(AutonomyLevel::Auto)
    } else {
        None
    }
}

impl AutonomyLevel {
    /// The display name (`Manual`, `Semi-Auto`, `Auto`).
    pub fn to_string(&self) -> (r: String)
        ensures
            r@ == autonomy_name(*self),
    {
        match self {
            AutonomyLevel::Manual => owned("Manual"),
            AutonomyLevel::SemiAuto => owned("Semi-Auto"),
            AutonomyLevel::Auto => owned("Auto"),
        }
    }

    /// Parse an already lower-cased name.
    pub fn from_lowercase(lower: &str) -> (r: Option<Self>)
        ensures
            r == autonomy_from_lower(lower@),
    {
        if str_eq(lower, "manual") {
            Some(AutonomyLevel::Manual)
        } else if str_eq(lower, "semi-auto") || str_eq(lower, "semiauto") || str_eq(lower, "semi") {
            Some(AutonomyLevel::SemiAuto)
        } else if str_eq(lower, "auto") || str_eq(lower, "full") {
            Some(AutonomyLevel::Auto)
        } else {
            None
        }
    }

    /// Parse from string (case-insensitive).
    pub fn from_str_loose(s: &str) -> (r: Option<Self>)
        ensures
            r == autonomy_from_lower(lowercase(s@)),
    {
        let lower = to_lowercase(s);
        Self::from_lowercase(lower.as_str())
    }
}

/// Thinking depth levels.
#[derive(Debug, Clone, Copy, PartialEq, Eq, Hash, Structural)]
pub enum ThinkingLevel {
    Off,
    Low,
    Medium,
    High,
}

impl Default for ThinkingLevel {
    fn default() -> (r: Self)
        ensures
            r == ThinkingLevel::Medium,
    {
        ThinkingLevel::Medium
    }
}

/// The display name of a thinking level.
pub open spec fn thinking_name(l: ThinkingLevel) -> Seq<char> {
    match l {
        ThinkingLevel::Off => "Off"@,
        ThinkingLevel::Low => "Low"@,
        ThinkingLevel::Medium => "Medium"@,
        ThinkingLevel::High => "High"@,
    }
}

/// The thinking level that an already lower-cased name denotes.
pub open spec fn thinking_from_lower(s: Seq<char>) -> Option<ThinkingLevel> {
    if s == "off"@ || s == "none"@ || s == "disabled"@ {
        Some(ThinkingLevel::Off)
    } else if s == "low"@ || s == "lite"@ {
        Some(ThinkingLevel::Low)
    } else if s == "medium"@ || s == "med"@ || s == "default"@ {
        Some(ThinkingLevel::Medium)
    } else if s == "high"@ || s == "full"@ || s == "max"@ {
        Some(ThinkingLevel::High)
    } else {
        None
    }
}

impl ThinkingLevel {
    /// The display name (`Off`, `Low`, `Medium`, `High`).
    pub fn to_string(&self) -> (r: String)
        ensures
            r@ == thinking_name(*self),
    {
        match self {
            ThinkingLevel::Off => owned("Off"),
            ThinkingLevel::Low => owned("Low"),
            ThinkingLevel::Medium => owned("Medium"),
            ThinkingLevel::High => owned("High"),
        }
    }

    /// Parse an already lower-cased name.
    pub fn from_lowercase(lower: &str) -> (r: Option<Self>)
        ensures
            r == thinking_from_lower(lower@),
    {
        if str_eq(lower, "off") || str_eq(lower, "none") || str_eq(lower, "disabled") {
            Some(ThinkingLevel::Off)
        } else if str_eq(lower, "low") || str_eq(lower, "lite") {
            Some(ThinkingLevel::Low)
        } else if str_eq(lower, "medium") || str_eq(lower, "med") || str_eq(lower, "default") {
            Some(ThinkingLevel::Medium)
        } else if str_eq(lower, "high") || str_eq(lower, "full") || str_eq(lower, "max") {
            Some(ThinkingLevel::High)
        } else {
            None
        }
    }

    /// Parse from string (case-insensitive).
    pub fn from_str_loose(s: &str) -> (r: Option<Self>)
        ensures
            r == thinking_from_lower(lowercase(s@)),
    {
        let lower = to_lowercase(s);
        Self::from_lowercase(lower.as_str())
    }

    /// Whether thinking is enabled at all (any level above Off).
    pub fn is_enabled(&self) -> (r: bool)
        ensures
            r == (*self != ThinkingLevel::Off),
    {
        !matches!(self, ThinkingLevel::Off)
    }

    /// Whether critique/refinement is active (High level only).
    pub fn use_critique(&self) -> (r: bool)
        ensures
            r == (*self == ThinkingLevel::High),
    {
        matches!(self, ThinkingLevel::High)
    }
}

/// Safe commands that can be auto-approved in Semi-Auto mode.
pub open spec fn safe_command_list() -> Seq<&'static str> {
    seq![
        "ls",
        "cat",
        "head",
        "tail",
        "grep",
        "find",
        "wc",
        "pwd",
        "echo",
        "which",
        "type",
        "file",
        "stat",
        "du",
        "df",
        "tree",
        "git status",
        "git log",
        "git diff",
        "git branch",
        "git show",
        "git remote",
        "git tag",
        "git stash list",
        "python --version",
        "python3 --version",
        "node --version",
        "npm --version",
        "cargo --version",
        "go version",
    ]
}

/// The safe commands, shared between the TUI and Web approval managers.
pub fn safe_commands() -> (r: Vec<&'static str>)
    ensures
        r@ == safe_command_list(),
{
    let r = vec![
        "ls",
        "cat",
        "head",
        "tail",
        "grep",
        "find",
        "wc",
        "pwd",
        "echo",
        "which",
        "type",
        "file",
        "stat",
        "du",
        "df",
        "tree",
        "git status",
        "git log",
        "git diff",
        "git branch",
        "git show",
        "git remote",
        "git tag",
        "git stash list",
        "python --version",
        "python3 --version",
        "node --version",
        "npm --version",
        "cargo --version",
        "go version",
    ];
    assert(r@ =~= safe_command_list());
    r
}

/// Whether the lower-cased command `c` equals the safe command `safe` or
/// starts with it followed by a space.
pub open spec fn matches_safe(c: Seq<char>, safe: Seq<char>) -> bool {
    c == safe || crate::text::has_prefix(c, safe.push(' '))
}

/// Whether an already trimmed and lower-cased command is on the safe list.
pub open spec fn is_safe_lower(c: Seq<char>) -> bool {
    exists|i: int| 0 <= i < safe_command_list().len() && matches_safe(c, safe_command_list()[i]@)
}

/// Whether an already trimmed and lower-cased command is on the safe list.
pub fn is_safe_lowered(cmd_lower: &str) -> (r: bool)
    ensures
        r == is_safe_lower(cmd_lower@),
{
    let c = chars_of(cmd_lower);
    let safe = safe_commands();
    let mut k: usize = 0;
    while k < safe.len()
        invariant
            k <= safe@.len(),
            safe@ == safe_command_list(),
            c@ == cmd_lower@,
            forall|m: int| 0 <= m < k ==> !matches_safe(c@, #[trigger] safe_command_list()[m]@),
        decreases safe@.len() - k,
    {
        let mut p = chars_of(safe[k]);
        let exact = crate::text::chars_eq(c.as_slice(), p.as_slice());
        p.push(' ');
        let pre = crate::text::chars_has_prefix(c.as_slice(), p.as_slice());
        if exact || pre {
            assert(matches_safe(c@, safe_command_list()[k as int]@));
            return true;
        }
        k = k + 1;
    }
    false
}

/// Check if a command is considered safe for auto-approval.
///
/// The trimmed, lower-cased command must either equal a safe command or start
/// with it followed by a space (so `cat` does not match `catastrophe`).
pub fn is_safe_command(command: &str) -> (r: bool)
    ensures
        r == (command@.len() > 0 && is_safe_lower(lowercase(trim(command@)))),
{
    if command.is_empty() {
        return false;
    }
    let cs = chars_of(command);
    let t = trim_chars(cs.as_slice());
    let ts = string_of(t.as_slice());
    let lower = to_lowercase(ts.as_str());
    is_safe_lowered(lower.as_str())
}

} // verus!
