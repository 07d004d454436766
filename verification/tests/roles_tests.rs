use kendra::roles::AgentRole;

#[test]
fn test_role_tools() {
    assert!(AgentRole::Code.default_tools().is_empty());
    assert!(AgentRole::Frontend.default_tools().is_empty());
    let plan = AgentRole::Plan.default_tools();
    assert_eq!(plan.len(), 7);
    assert_eq!(plan[0], "read_file");
    assert_eq!(plan[6], "task_complete");
    let sec = AgentRole::Security.default_tools();
    assert!(sec.iter().any(|t| t == "osv_scan"));
    assert!(!sec.iter().any(|t| t == "bash"));
    let build = AgentRole::Build.default_tools();
    assert_eq!(build, vec!["read_file", "edit_file", "bash", "list_files", "grep", "task_complete"]);
}

#[test]
fn test_role_names_and_prompts() {
    assert_eq!(AgentRole::Security.to_string(), "Security");
    assert_eq!(AgentRole::Backend.to_string(), "Backend");
    assert!(AgentRole::Backend.default_system_prompt().starts_with("You are a backend agent."));
    assert_ne!(AgentRole::Code.default_system_prompt(), AgentRole::Plan.default_system_prompt());
}
