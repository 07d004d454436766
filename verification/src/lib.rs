use vstd::prelude::*;

pub mod api;
pub mod audit;
pub mod cli;
pub mod commands;
pub mod config_loader;
pub mod compaction;
pub mod constants;
pub mod cost_tracker;
pub mod debug_logger;
pub mod errors;
pub mod event_bus;
pub mod http;
pub mod input_widget;
pub mod json;
pub mod memory;
pub mod message;
pub mod migration;
pub mod models;
pub mod normalizer;
pub mod observability;
pub mod orchestration;
pub mod paths;
pub mod plugin_cli;
pub mod profile;
pub mod prompts;
pub mod rail_ui;
pub mod query_enhancer;
pub mod roles;
pub mod sanitizer;
pub mod session;
pub mod session_manager;
pub mod skills;
pub mod snapshot;
pub mod subagents;
pub mod text;
pub mod thinking;
pub mod tokens;
pub mod validator;
pub mod validated_list;

verus! {
} // verus!
