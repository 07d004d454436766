//! Configuration schemas and shared data models.
use vstd::prelude::*;

use crate::json::{Json, JsonValue};
use crate::text::{owned, push_str};

verus! {

/// Persona/Team configuration schema (`team.json`).
#[derive(Debug, Clone)]
pub struct TeamConfig {
    /// The specialized system prompt for this persona.
    pub system_prompt: String,
    /// List of enabled tool identifiers.
    pub enabled_tools: Vec<String>,
    /// Context scopes to restrict the agent.
    pub context_scopes: Vec<String>,
}

impl Default for TeamConfig {
    fn default() -> (r: Self)
        ensures
            r.system_prompt@ == "You are a helpful coding assistant."@,
            r.enabled_tools@.len() == 2,
            r.enabled_tools@[0]@ == "bash"@,
            r.enabled_tools@[1]@ == "file_system"@,
            r.context_scopes@.len() == 0,
    {
        TeamConfig {
            system_prompt: owned("You are a helpful coding assistant."),
            enabled_tools: vec![owned("bash"), owned("file_system")],
            context_scopes: Vec::new(),
        }
    }
}

/// Telemetry configuration.
#[derive(Debug, Clone)]
pub struct ObservabilityConfig {
    pub enabled: bool,
    pub sinks: Vec<SinkConfig>,
    pub governance: GovernanceConfig,
}

/// Where telemetry goes.
#[derive(Debug, Clone)]
pub enum SinkConfig {
    File { path: String },
    Http { enabled: bool, endpoint: String, auth_header_env: String },
}

/// Telemetry redaction settings.
#[derive(Debug, Clone)]
pub struct GovernanceConfig {
    pub sanitize_pii: bool,
    pub redact_keys: Vec<String>,
}

/// Structural information about the codebase.
#[derive(Debug, Clone)]
pub struct StructuralContext {
    /// High-level overview of the project structure and key components.
    pub overview: String,
    /// Dependencies list.
    pub dependencies: String,
    /// List of critical files (e.g., config, entry points).
    pub key_files: Vec<String>,
}

/// Timeout configuration for HTTP requests, in seconds.
#[derive(Debug, Clone, Copy, PartialEq, Eq, Structural)]
pub struct TimeoutConfig {
    pub connect_secs: u64,
    pub read_secs: u64,
    pub write_secs: u64,
}

impl Default for TimeoutConfig {
    fn default() -> (r: Self)
        ensures
            r == (TimeoutConfig { connect_secs: 10, read_secs: 300, write_secs: 10 }),
    {
        TimeoutConfig { connect_secs: 10, read_secs: 300, write_secs: 10 }
    }
}

/// Session information model.
#[derive(Debug, Clone)]
pub struct SessionResponse {
    pub id: String,
    pub working_dir: String,
    pub created_at: String,
    pub updated_at: String,
    pub message_count: usize,
    pub total_tokens: u64,
    pub title: Option<String>,
    pub has_session_model: bool,
}

/// Token usage from a single LLM call.
#[derive(Debug, Clone, Copy, PartialEq, Eq, Structural)]
pub struct TokenUsage {
    pub prompt_tokens: u64,
    pub completion_tokens: u64,
    /// Prompt-caching: tokens read from cache.
    pub cache_read_input_tokens: u64,
    /// Prompt-caching: tokens written to cache.
    pub cache_creation_input_tokens: u64,
}

impl Default for TokenUsage {
    fn default() -> (r: Self)
        ensures
            r == (TokenUsage {
                prompt_tokens: 0,
                completion_tokens: 0,
                cache_read_input_tokens: 0,
                cache_creation_input_tokens: 0,
            }),
    {
        TokenUsage {
            prompt_tokens: 0,
            completion_tokens: 0,
            cache_read_input_tokens: 0,
            cache_creation_input_tokens: 0,
        }
    }
}

/// High-level error category for classification.
#[derive(Debug, Clone, Copy, PartialEq, Eq, Hash, Structural)]
pub enum ErrorCategory {
    ContextOverflow,
    OutputLength,
    RateLimit,
    Auth,
    Api,
    Gateway,
    Permission,
    EditMismatch,
    FileNotFound,
    Timeout,
    Unknown,
}

/// Errors that can occur during tool execution.
#[derive(Debug, Clone, PartialEq, Eq)]
pub enum ToolError {
    Execution(String),
    InvalidParams(String),
    NotFound(String),
    PermissionDenied(String),
    Interrupted,
    /// An I/O failure, by its message.
    Io(String),
    Other(String),
}

/// The message of a tool error.
pub open spec fn tool_error_message(e: ToolError) -> Seq<char> {
    match e {
        ToolError::Execution(s) => "Tool execution failed: "@ + s@,
        ToolError::InvalidParams(s) => "Invalid parameters: "@ + s@,
        ToolError::NotFound(s) => "Tool not found: "@ + s@,
        ToolError::PermissionDenied(s) => "Permission denied: "@ + s@,
        ToolError::Interrupted => "Interrupted by user"@,
        ToolError::Io(s) => "IO error: "@ + s@,
        ToolError::Other(s) => s@,
    }
}

impl ToolError {
    /// The message of the error.
    pub fn to_string(&self) -> (r: String)
        ensures
            r@ == tool_error_message(*self),
    {
        let mut r = String::new();
        match self {
            ToolError::Execution(s) => {
                push_str(&mut r, "Tool execution failed: ");
                push_str(&mut r, s.as_str());
            },
            ToolError::InvalidParams(s) => {
                push_str(&mut r, "Invalid parameters: ");
                push_str(&mut r, s.as_str());
            },
            ToolError::NotFound(s) => {
                push_str(&mut r, "Tool not found: ");
                push_str(&mut r, s.as_str());
            },
            ToolError::PermissionDenied(s) => {
                push_str(&mut r, "Permission denied: ");
                push_str(&mut r, s.as_str());
            },
            ToolError::Interrupted => {
                push_str(&mut r, "Interrupted by user");
            },
            ToolError::Io(s) => {
                push_str(&mut r, "IO error: ");
                push_str(&mut r, s.as_str());
            },
            ToolError::Other(s) => {
                push_str(&mut r, s.as_str());
            },
        }
        assert(r@ =~= tool_error_message(*self));
        r
    }
}

/// Result of a tool execution. `metadata` holds each key once.
#[derive(Debug)]
pub struct ToolResult {
    pub success: bool,
    pub output: Option<String>,
    pub error: Option<String>,
    pub metadata: Vec<(String, JsonValue)>,
}

impl ToolResult {
    /// A successful result.
    pub fn ok(output: String) -> (r: Self)
        ensures
            r.success,
            r.output == Some(output),
            r.error is None,
            r.metadata@.len() == 0,
    {
        ToolResult { success: true, output: Some(output), error: None, metadata: Vec::new() }
    }

    /// A successful result with metadata.
    pub fn ok_with_metadata(output: String, metadata: Vec<(String, JsonValue)>) -> (r: Self)
        ensures
            r.success,
            r.output == Some(output),
            r.error is None,
            r.metadata == metadata,
    {
        ToolResult { success: true, output: Some(output), error: None, metadata }
    }

    /// A failed result.
    pub fn fail(error: String) -> (r: Self)
        ensures
            !r.success,
            r.output is None,
            r.error == Some(error),
            r.metadata@.len() == 0,
    {
        ToolResult { success: false, output: None, error: Some(error), metadata: Vec::new() }
    }

    /// A failed result carrying the message of `err`.
    pub fn from_error(err: ToolError) -> (r: Self)
        ensures
            !r.success,
            r.output is None,
            r.error is Some && r.error->0@ == tool_error_message(err),
            r.metadata@.len() == 0,
    {
        Self::fail(err.to_string())
    }
}

/// The context passed to tool handlers: where paths are resolved, whether
/// the caller is a sub-agent, the session, and tool-specific values (each
/// key once).
#[derive(Debug)]
pub struct ToolContext {
    pub working_dir: String,
    pub is_subagent: bool,
    pub session_id: Option<String>,
    pub values: Vec<(String, JsonValue)>,
}

/// The entries `m` with `key` mapped to `v` (what `HashMap::insert` leaves):
/// replaced in place where the key is there, added at the end where not.
pub open spec fn with_entry(m: Seq<(Seq<char>, Json)>, key: Seq<char>, v: Json) -> Seq<(Seq<char>, Json)> {
    crate::json::set_field(m, key, v)
}

impl ToolContext {
    /// A context for `working_dir`, of no sub-agent and no session.
    pub fn new(working_dir: &str) -> (r: Self)
        ensures
            r.working_dir@ == working_dir@,
            !r.is_subagent,
            r.session_id is None,
            r.values@.len() == 0,
    {
        ToolContext { working_dir: owned(working_dir), is_subagent: false, session_id: None, values: Vec::new() }
    }

    /// The context with the sub-agent flag set to `is_subagent`.
    pub fn with_subagent(self, is_subagent: bool) -> (r: Self)
        ensures
            r == (ToolContext { is_subagent, ..self }),
    {
        let mut c = self;
        c.is_subagent = is_subagent;
        c
    }

    /// The context with its session set.
    pub fn with_session_id(self, session_id: &str) -> (r: Self)
        ensures
            r.working_dir == self.working_dir,
            r.is_subagent == self.is_subagent,
            r.session_id matches Some(s) && s@ == session_id@,
            r.values == self.values,
    {
        let mut c = self;
        c.session_id = Some(owned(session_id));
        c
    }

    /// The context with value `key` set to `value`.
    pub fn with_value(self, key: &str, value: JsonValue) -> (r: Self)
        ensures
            r.working_dir == self.working_dir,
            r.is_subagent == self.is_subagent,
            r.session_id == self.session_id,
            crate::json::field_views(r.values@) == with_entry(crate::json::field_views(self.values@), key@, value@),
    {
        let mut obj = JsonValue::Object(self.values);
        proof {
            crate::json::lemma_object_view(self.values);
        }
        obj.put(key, value);
        let values = match obj {
            JsonValue::Object(m) => {
                proof {
                    crate::json::lemma_object_view(m);
                }
                m
            },
            _ => Vec::new(),
        };
        ToolContext { working_dir: self.working_dir, is_subagent: self.is_subagent, session_id: self.session_id, values }
    }
}

} // verus!
