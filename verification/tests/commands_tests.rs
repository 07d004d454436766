use kendra::commands::{
    BuiltinCommands, CommandEffect, CommandOutcome, McpRequest, OperationMode, PluginsRequest,
    ReplState, SessionModelsRequest,
};
use kendra::constants::{AutonomyLevel, ThinkingLevel};

#[test]
fn test_exit_commands() {
    let cmds = BuiltinCommands::new();
    let mut state = ReplState::default();

    assert_eq!(cmds.dispatch("/exit", "", &mut state), CommandOutcome::Exit);
    assert_eq!(cmds.dispatch("/quit", "", &mut state), CommandOutcome::Exit);
}

#[test]
fn test_help_command() {
    let cmds = BuiltinCommands::new();
    let mut state = ReplState::default();

    assert_eq!(cmds.dispatch("/help", "", &mut state), CommandOutcome::Handled);
}

#[test]
fn test_mode_switch() {
    let cmds = BuiltinCommands::new();
    let mut state = ReplState::default();
    assert_eq!(state.mode, OperationMode::Normal);

    cmds.dispatch("/mode", "plan", &mut state);
    assert_eq!(state.mode, OperationMode::Plan);

    cmds.dispatch("/mode", "normal", &mut state);
    assert_eq!(state.mode, OperationMode::Normal);

    // Empty arg defaults to normal
    state.mode = OperationMode::Plan;
    cmds.dispatch("/mode", "", &mut state);
    assert_eq!(state.mode, OperationMode::Normal);
}

#[test]
fn test_unknown_command() {
    let cmds = BuiltinCommands::new();
    let mut state = ReplState::default();

    assert_eq!(cmds.dispatch("/foobar", "", &mut state), CommandOutcome::Unknown);
}

#[test]
fn test_clear_command() {
    let cmds = BuiltinCommands::new();
    let mut state = ReplState::default();

    assert_eq!(cmds.dispatch("/clear", "", &mut state), CommandOutcome::Handled);
}

#[test]
fn test_thinking_command() {
    let cmds = BuiltinCommands::new();
    let mut state = ReplState::default();
    assert_eq!(state.thinking_level, ThinkingLevel::Medium);

    cmds.dispatch("/thinking", "high", &mut state);
    assert_eq!(state.thinking_level, ThinkingLevel::High);

    cmds.dispatch("/thinking", "off", &mut state);
    assert_eq!(state.thinking_level, ThinkingLevel::Off);

    cmds.dispatch("/thinking", "low", &mut state);
    assert_eq!(state.thinking_level, ThinkingLevel::Low);

    // Invalid value should not change level
    cmds.dispatch("/thinking", "garbage", &mut state);
    assert_eq!(state.thinking_level, ThinkingLevel::Low);

    // Empty shows current level
    assert_eq!(cmds.dispatch("/thinking", "", &mut state), CommandOutcome::Handled);
}

#[test]
fn test_autonomy_command() {
    let cmds = BuiltinCommands::new();
    let mut state = ReplState::default();
    assert_eq!(state.autonomy_level, AutonomyLevel::SemiAuto);

    cmds.dispatch("/autonomy", "manual", &mut state);
    assert_eq!(state.autonomy_level, AutonomyLevel::Manual);

    cmds.dispatch("/autonomy", "auto", &mut state);
    assert_eq!(state.autonomy_level, AutonomyLevel::Auto);

    cmds.dispatch("/autonomy", "semi-auto", &mut state);
    assert_eq!(state.autonomy_level, AutonomyLevel::SemiAuto);

    // Invalid value should not change level
    cmds.dispatch("/autonomy", "garbage", &mut state);
    assert_eq!(state.autonomy_level, AutonomyLevel::SemiAuto);
}

#[test]
fn test_status_command() {
    let cmds = BuiltinCommands::new();
    let mut state = ReplState::default();

    assert_eq!(cmds.dispatch("/status", "", &mut state), CommandOutcome::Handled);
}

#[test]
fn command_effects_describe_replies() {
    let cmds = BuiltinCommands::new();
    let mut state = ReplState::default();
    let (o, e) = cmds.dispatch_with_effect("/mcp", "  add github npx server ", &mut state);
    assert_eq!(o, CommandOutcome::Handled);
    assert_eq!(e, CommandEffect::Mcp(McpRequest::Add("github".to_string())));
    let (_, e) = cmds.dispatch_with_effect("/mcp", "remove  gh ", &mut state);
    assert_eq!(e, CommandEffect::Mcp(McpRequest::Remove("gh".to_string())));
    let (_, e) = cmds.dispatch_with_effect("/mcp", "add", &mut state);
    assert_eq!(e, CommandEffect::Mcp(McpRequest::AddUsage));
    let (_, e) = cmds.dispatch_with_effect("/mcp", "frob x", &mut state);
    assert_eq!(e, CommandEffect::Mcp(McpRequest::Unknown("frob".to_string())));
    let (_, e) = cmds.dispatch_with_effect("/plugins", "install  foo", &mut state);
    assert_eq!(e, CommandEffect::Plugins(PluginsRequest::Install("foo".to_string())));
    let (_, e) = cmds.dispatch_with_effect("/session-models", "set model gpt-4o", &mut state);
    assert_eq!(
        e,
        CommandEffect::SessionModels(SessionModelsRequest::Override(
            "model".to_string(),
            "gpt-4o".to_string()
        ))
    );
    let (_, e) = cmds.dispatch_with_effect("/session-models", "set bogus x", &mut state);
    assert_eq!(
        e,
        CommandEffect::SessionModels(SessionModelsRequest::UnknownSlot("bogus".to_string()))
    );
    let (_, e) = cmds.dispatch_with_effect("/session-models", "set model", &mut state);
    assert_eq!(e, CommandEffect::SessionModels(SessionModelsRequest::SetUsage));
    let (_, e) = cmds.dispatch_with_effect("/agents", "", &mut state);
    assert_eq!(e, CommandEffect::AgentsList);
    let (_, e) = cmds.dispatch_with_effect("/skills", "other", &mut state);
    assert_eq!(e, CommandEffect::SkillsUsage);
    let (_, e) = cmds.dispatch_with_effect("/thinking", "bogus", &mut state);
    assert_eq!(e, CommandEffect::ThinkingInvalid("bogus".to_string()));
    let (_, e) = cmds.dispatch_with_effect("/mode", "weird", &mut state);
    assert_eq!(e, CommandEffect::ModeUsage);
    let (_, e) = cmds.dispatch_with_effect("/compact", "", &mut state);
    assert_eq!(e, CommandEffect::CompactRequested);
    assert!(state.compact_requested);
    let (_, e) = cmds.dispatch_with_effect("/clear", "", &mut state);
    assert_eq!(e, CommandEffect::Cleared);
    assert!(state.messages_cleared);
}

#[test]
fn test_init_report_lists_detected_kinds() {
    let found = [true, false, false, false, false, true];
    assert_eq!(kendra::commands::init_report_line(&found), "Detected: Rust, Git repo");
    let none = [false; 6];
    assert_eq!(kendra::commands::init_report_line(&none), "No recognized project markers found.");
    let one = [false, false, false, true, false, false];
    assert_eq!(kendra::commands::init_report_line(&one), "Detected: Go");
    let markers = kendra::commands::marker_files();
    assert_eq!(markers.len(), 6);
    assert_eq!(markers[1], ("package.json", "Node.js"));
}
