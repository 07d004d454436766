//! Command-line arguments of the `kendra` program.
//!
//! The argument parser itself is the program's part; these are the values it
//! produces.
use vstd::prelude::*;

verus! {

/// KendraCLI — AI-powered command-line tool for accelerated development.
#[derive(Debug)]
pub struct Cli {
    /// Execute a single prompt and exit (non-interactive mode).
    pub prompt: Option<String>,

    /// Set working directory (defaults to current directory).
    pub working_dir: Option<String>,

    /// Enable verbose output with detailed logging.
    pub verbose: bool,

    /// Resume the most recent session for the current working directory.
    pub continue_session: bool,

    /// Resume a session (optionally specify ID, or pick interactively).
    pub resume: Option<Option<String>>,

    /// Skip all permission prompts and auto-approve every operation.
    pub dangerously_skip_permissions: bool,

    /// Color theme for the TUI (dark, light, dracula). Auto-detected if not set.
    pub theme: Option<String>,

    /// Configuration profile to use (dev, prod, fast).
    pub profile: Option<String>,

    /// Set the session title (for non-interactive mode).
    pub title: Option<String>,

    /// Select which agent handles the session (e.g. "general", "explore").
    pub agent: Option<String>,

    /// Replay a recorded event JSONL file for debugging.
    /// Record events by setting KENDRA_DEBUG_EVENTS=1.
    pub replay: Option<String>,

    /// Initial message to start the session with (positional).
    pub message: Option<String>,

    pub command: Option<Commands>,
}

/// Top-level subcommands.
#[derive(Debug)]
pub enum Commands {
    /// Run the interactive setup wizard (first-run or re-configure).
    Setup,

    /// Manage KendraCLI configuration.
    Config {
        action: ConfigAction,
    },

    /// Configure and manage MCP servers.
    Mcp {
        action: McpAction,
    },

    /// Run development tools.
    Run {
        action: RunAction,
    },

    /// Manage conversation sessions.
    Session {
        action: SessionAction,
    },

    /// Manage channel integrations (Telegram, etc.).
    Channel {
        action: ChannelAction,
    },

    /// Start a headless remote session (Telegram as primary interface).
    Remote {
        /// Resume the most recent session instead of starting a new one.
        continue_session: bool,

        /// Resume a specific session by ID.
        resume: Option<String>,
    },

    /// Manage marketplaces for plugins and skills.
    Marketplace {
        action: MarketplaceAction,
    },

    /// Manage installed plugins.
    Plugin {
        action: PluginAction,
    },
}

/// Channel subcommands.
#[derive(Debug)]
pub enum ChannelAction {
    /// Add Telegram bot (prompts for token if not provided).
    Add {
        /// Bot token (optional — will prompt interactively if not provided).
        token: Option<String>,
    },
    /// Remove Telegram bot configuration.
    Remove,
    /// Show channel status and paired users.
    Status,
    /// Run Telegram bot (background by default, --foreground to keep in terminal).
    Serve {
        /// Run in foreground instead of background.
        foreground: bool,
    },
    /// Approve a Telegram user by ID.
    Pair {
        /// Telegram user ID to approve.
        user_id: String,
    },
    /// Revoke a Telegram user's access.
    Unpair {
        /// Telegram user ID to remove.
        user_id: String,
    },
}

/// Config subcommands.
#[derive(Debug)]
pub enum ConfigAction {
    /// Run the interactive setup wizard.
    Setup,
    /// Display current configuration.
    Show,
}

/// MCP subcommands.
#[derive(Debug)]
pub enum McpAction {
    /// List all configured MCP servers.
    List,
    /// Show detailed information about a specific server.
    Get {
        /// Server name.
        name: String,
    },
    /// Add a new MCP server.
    Add {
        /// Unique name for the server.
        name: String,
        /// Command to start the server (e.g., "uvx", "node", "python").
        command: String,
        /// Arguments to pass to the command.
        args: Vec<String>,
        /// Environment variables (KEY=VALUE).
        env: Vec<String>,
        /// Don't auto-start this server on launch.
        no_auto_start: bool,
    },
    /// Remove an MCP server.
    Remove {
        /// Server name.
        name: String,
    },
    /// Enable an MCP server.
    Enable {
        /// Server name.
        name: String,
    },
    /// Disable an MCP server.
    Disable {
        /// Server name.
        name: String,
    },
}

/// Session subcommands.
#[derive(Debug)]
pub enum SessionAction {
    /// List recent sessions.
    List {
        /// Include archived sessions.
        archived: bool,
        /// Maximum number of sessions to show.
        max_count: usize,
        /// Output as JSON.
        json: bool,
    },
    /// Delete a session permanently.
    Delete {
        /// Session ID to delete.
        id: String,
    },
    /// Export a session as JSON.
    Export {
        /// Session ID to export. Defaults to the most recent session.
        id: Option<String>,
    },
}

/// Run subcommands.
#[derive(Debug)]
pub enum RunAction {
    /// Start the web UI (backend + frontend).
    Ui {
        /// Port for backend API server.
        ui_port: u16,
        /// Host for backend API server.
        ui_host: String,
    },
}

/// Marketplace subcommands.
#[derive(Debug)]
pub enum MarketplaceAction {
    /// Add a new marketplace.
    Add {
        /// Git URL of the marketplace.
        url: String,
        /// Optional name for the marketplace.
        name: Option<String>,
        /// Git branch to track.
        branch: String,
    },
    /// Remove a marketplace.
    Remove {
        /// Marketplace name.
        name: String,
    },
    /// List all registered marketplaces.
    List,
    /// Sync (git pull) a marketplace.
    Sync {
        /// Optional marketplace name. If not provided, syncs all marketplaces.
        name: Option<String>,
    },
    /// Search for plugins in marketplaces.
    Search {
        /// Search query.
        query: String,
    },
    /// List plugins available in a marketplace.
    Plugins {
        /// Marketplace name.
        name: String,
    },
}

/// Plugin subcommands.
#[derive(Debug)]
pub enum PluginAction {
    /// Install a plugin.
    Install {
        /// Name of the plugin.
        name: String,
        /// Name of the marketplace containing the plugin.
        marketplace: String,
        /// Install globally (~/.kendra/plugins) instead of project-locally.
        global: bool,
    },
    /// Uninstall a plugin.
    Uninstall {
        /// Name of the plugin.
        name: String,
        /// Name of the marketplace the plugin was installed from.
        marketplace: String,
        /// Uninstall from global scope instead of project scope.
        global: bool,
    },
    /// List installed plugins.
    List {
        /// Filter by scope (global/project). If not specified, lists all.
        scope: Option<String>,
    },
    /// Enable a disabled plugin.
    Enable {
        /// Name of the plugin.
        name: String,
        /// Name of the marketplace the plugin was installed from.
        marketplace: String,
        /// Scope of the plugin (global/project).
        global: bool,
    },
    /// Disable a plugin.
    Disable {
        /// Name of the plugin.
        name: String,
        /// Name of the marketplace the plugin was installed from.
        marketplace: String,
        /// Scope of the plugin (global/project).
        global: bool,
    },
}

} // verus!
