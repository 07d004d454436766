//! Predefined agent roles for common development tasks.
use vstd::prelude::*;

use crate::text::owned;

verus! {

/// The system prompt of the code role.
pub const CODE_PROMPT: &'static str = "You are a coding agent. Your primary job is to read, write, and edit \
                 source code. Use tools to explore the codebase, make targeted edits, \
                 and verify your changes compile. Focus on correctness and minimal diffs.";

/// The system prompt of the plan role.
pub const PLAN_PROMPT: &'static str = "You are a planning agent. Analyze the user's request and break it into \
                 concrete, ordered steps. Identify files to change, dependencies between \
                 tasks, and potential risks. Do NOT make code changes yourself — produce \
                 a structured plan for execution agents.";

/// The system prompt of the test role.
pub const TEST_PROMPT: &'static str = "You are a testing agent. Your job is to write, run, and verify tests. \
                 Read the relevant source code, write comprehensive tests covering edge \
                 cases, run them, and report results. Fix any failing tests you introduce.";

/// The system prompt of the build role.
pub const BUILD_PROMPT: &'static str = "You are a build agent. Your job is to compile the project, run linters, \
                 and fix any build or lint errors. Focus on making the project build \
                 cleanly with zero warnings.";

/// The system prompt of the security role.
pub const SECURITY_PROMPT: &'static str = "You are a security agent. Your job is to conduct security audits, \
                 identify vulnerabilities (OWASP Top 10, memory safety, etc.), and \
                 recommend remediations. Use tools to analyze source code, dependencies, \
                 and configurations for potential risks.";

/// The system prompt of the frontend role.
pub const FRONTEND_PROMPT: &'static str = "You are a frontend agent. Your expertise is in UI/UX, React, TypeScript, \
                 Vite, and modern CSS. Your job is to implement and polish user interfaces, \
                 ensure responsiveness, and optimize frontend performance. Focus on \
                 clean component architecture and accessibility.";

/// The system prompt of the backend role.
pub const BACKEND_PROMPT: &'static str = "You are a backend agent. Your expertise is in Rust, Axum, database design, \
                 and API development. Your job is to implement robust, scalable backend \
                 services, handle data persistence, and ensure secure communication. \
                 Focus on type safety, error handling, and performance.";

/// Predefined agent roles for common development tasks.
#[derive(Debug, Clone, Copy, PartialEq, Eq, Hash, Structural)]
pub enum AgentRole {
    /// General-purpose coding agent with full tool access.
    Code,
    /// Planning agent focused on architecture and task decomposition.
    Plan,
    /// Testing agent specialized in writing and running tests.
    Test,
    /// Build agent for compilation, linting, and CI tasks.
    Build,
    /// Security agent specialized in vulnerability research and audits.
    Security,
    /// Frontend agent expert in UI/UX, React, and CSS.
    Frontend,
    /// Backend agent expert in Rust, APIs, and systems design.
    Backend,
}

/// The system prompt snippet of a role.
pub open spec fn role_prompt(role: AgentRole) -> &'static str {
    match role {
        AgentRole::Code => CODE_PROMPT,
        AgentRole::Plan => PLAN_PROMPT,
        AgentRole::Test => TEST_PROMPT,
        AgentRole::Build => BUILD_PROMPT,
        AgentRole::Security => SECURITY_PROMPT,
        AgentRole::Frontend => FRONTEND_PROMPT,
        AgentRole::Backend => BACKEND_PROMPT,
    }
}

/// The tool allowlist of a role; empty means every tool.
pub open spec fn role_tools(role: AgentRole) -> Seq<Seq<char>> {
    match role {
        AgentRole::Code => Seq::empty(),
        AgentRole::Plan => seq!["read_file"@, "list_files"@, "grep"@, "find_symbol"@, "find_referencing_symbols"@, "web_search"@, "task_complete"@],
        AgentRole::Test => seq!["read_file"@, "write_file"@, "edit_file"@, "list_files"@, "grep"@, "bash"@, "task_complete"@],
        AgentRole::Build => seq!["read_file"@, "edit_file"@, "bash"@, "list_files"@, "grep"@, "task_complete"@],
        AgentRole::Security => seq!["read_file"@, "list_files"@, "grep"@, "web_search"@, "osv_scan"@, "task_complete"@],
        AgentRole::Frontend => Seq::empty(),
        AgentRole::Backend => Seq::empty(),
    }
}

/// The display name of a role.
pub open spec fn role_name(role: AgentRole) -> Seq<char> {
    match role {
        AgentRole::Code => "Code"@,
        AgentRole::Plan => "Plan"@,
        AgentRole::Test => "Test"@,
        AgentRole::Build => "Build"@,
        AgentRole::Security => "Security"@,
        AgentRole::Frontend => "Frontend"@,
        AgentRole::Backend => "Backend"@,
    }
}

/// The owned strings of `names`.
fn owned_list(names: &[&str]) -> (r: Vec<String>)
    ensures
        r@.len() == names@.len(),
        forall|i: int| 0 <= i < names@.len() ==> #[trigger] r@[i]@ == names@[i]@,
{
    let mut r: Vec<String> = Vec::new();
    let mut k: usize = 0;
    while k < names.len()
        invariant
            k <= names@.len(),
            r@.len() == k,
            forall|i: int| 0 <= i < k ==> #[trigger] r@[i]@ == names@[i]@,
        decreases names@.len() - k,
    {
        r.push(owned(names[k]));
        k = k + 1;
    }
    r
}

impl AgentRole {
    /// Return the default system prompt snippet for this role.
    pub fn default_system_prompt(&self) -> (r: &'static str)
        ensures
            r == role_prompt(*self),
    {
        match self {
            AgentRole::Code => CODE_PROMPT,
            AgentRole::Plan => PLAN_PROMPT,
            AgentRole::Test => TEST_PROMPT,
            AgentRole::Build => BUILD_PROMPT,
            AgentRole::Security => SECURITY_PROMPT,
            AgentRole::Frontend => FRONTEND_PROMPT,
            AgentRole::Backend => BACKEND_PROMPT,
        }
    }

    /// Return the default tool allowlist for this role.
    ///
    /// An empty vec means "all tools" (no restriction).
    pub fn default_tools(&self) -> (r: Vec<String>)
        ensures
            r@.map_values(|s: String| s@) == role_tools(*self),
    {
        let names: Vec<&str> = match self {
            AgentRole::Code => Vec::new(),
            AgentRole::Plan => vec!["read_file", "list_files", "grep", "find_symbol", "find_referencing_symbols", "web_search", "task_complete"],
            AgentRole::Test => vec!["read_file", "write_file", "edit_file", "list_files", "grep", "bash", "task_complete"],
            AgentRole::Build => vec!["read_file", "edit_file", "bash", "list_files", "grep", "task_complete"],
            AgentRole::Security => vec!["read_file", "list_files", "grep", "web_search", "osv_scan", "task_complete"],
            AgentRole::Frontend => Vec::new(),
            AgentRole::Backend => Vec::new(),
        };
        let r = owned_list(names.as_slice());
        assert(r@.map_values(|s: String| s@) =~= role_tools(*self));
        r
    }

    /// The display name of the role.
    pub fn to_string(&self) -> (r: String)
        ensures
            r@ == role_name(*self),
    {
        match self {
            AgentRole::Code => owned("Code"),
            AgentRole::Plan => owned("Plan"),
            AgentRole::Test => owned("Test"),
            AgentRole::Build => owned("Build"),
            AgentRole::Security => owned("Security"),
            AgentRole::Frontend => owned("Frontend"),
            AgentRole::Backend => owned("Backend"),
        }
    }
}

} // verus!
