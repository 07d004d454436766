use kendra::subagents::{finished_summary, plan_subagent, InstructionFile, SubAgentSpec};

fn spec(name: &str) -> SubAgentSpec {
    SubAgentSpec {
        name: name.to_string(),
        disable: false,
        model: None,
        tools: vec![],
        restricts_tools: false,
        system_prompt: "You explore.".to_string(),
        max_steps: None,
        max_tokens: None,
    }
}

fn strings(v: &[&str]) -> Vec<String> {
    v.iter().map(|s| s.to_string()).collect()
}

#[test]
fn test_unknown_subagent_is_refused() {
    let r = plan_subagent("ghost", None, "task", "gpt-4o", 4096, &[], &[], &[], false, "");
    assert_eq!(r.err().unwrap(), "Unknown subagent type: ghost");
}

#[test]
fn test_disabled_subagent_is_refused() {
    let mut s = spec("Planner");
    s.disable = true;
    let r = plan_subagent("Planner", Some(&s), "task", "gpt-4o", 4096, &[], &[], &[], false, "");
    assert_eq!(r.err().unwrap(), "Agent 'Planner' is disabled");
    // The error names the subagent asked for, not the definition's name.
    let mut s = spec("Planner-def");
    s.disable = true;
    let r = plan_subagent("planner", Some(&s), "task", "gpt-4o", 4096, &[], &[], &[], false, "");
    assert_eq!(r.err().unwrap(), "Agent 'planner' is disabled");
}

#[test]
fn test_plan_defaults() {
    let s = spec("Planner");
    let plan = plan_subagent("Planner", Some(&s), "do it", "gpt-4o", 4096, &[], &[], &[], false, "").unwrap();
    assert_eq!(plan.model, "gpt-4o");
    assert!(plan.allowed_tools.is_none());
    assert_eq!(plan.max_iterations, 25);
    assert_eq!(plan.max_tokens, 4096);
    assert_eq!(plan.messages.len(), 2);
    assert_eq!(plan.messages[0].role.as_deref(), Some("system"));
    assert_eq!(plan.messages[1].content.as_deref(), Some("do it"));
}

#[test]
fn test_explorer_gets_structure_and_budget() {
    let mut s = spec("Code-Explorer");
    s.model = Some("small-model".to_string());
    let plan = plan_subagent("Code-Explorer", Some(&s), "find x", "gpt-4o", 4096, &[], &[], &[], true, "src/\n  lib.rs").unwrap();
    assert_eq!(plan.model, "small-model");
    assert_eq!(plan.max_iterations, 200);
    assert_eq!(plan.messages.len(), 4);
    assert!(plan.messages[1].content.as_deref().unwrap().contains("src/\n  lib.rs"));
    assert_eq!(plan.messages[2].role.as_deref(), Some("assistant"));
    assert_eq!(plan.messages[3].content.as_deref(), Some("find x"));
}

#[test]
fn test_denied_tools_are_removed() {
    let mut s = spec("Worker");
    s.restricts_tools = true;
    s.tools = strings(&["read_file", "bash", "grep"]);
    s.max_steps = Some(7);
    s.max_tokens = Some(100);
    let plan = plan_subagent("Worker", Some(&s), "t", "m", 4096, &strings(&["x"]), &strings(&["bash"]), &[], false, "").unwrap();
    assert_eq!(plan.allowed_tools.unwrap(), strings(&["read_file", "grep"]));
    assert_eq!(plan.max_iterations, 7);
    assert_eq!(plan.max_tokens, 100);
    let open = spec("Open");
    let plan = plan_subagent("Open", Some(&open), "t", "m", 1, &strings(&["a", "bash", "b"]), &strings(&["bash"]), &[], false, "").unwrap();
    assert_eq!(plan.allowed_tools.unwrap(), strings(&["a", "b"]));
}

#[test]
fn test_instructions_join_the_prompt() {
    let s = spec("Worker");
    let files = vec![InstructionFile {
        file_name: "AGENTS.md".to_string(),
        scope: "project".to_string(),
        content: "Use tabs.".to_string(),
    }];
    let plan = plan_subagent("Worker", Some(&s), "t", "m", 1, &[], &[], &files, false, "").unwrap();
    assert!(plan.system_prompt.starts_with("You explore."));
    assert!(plan.system_prompt.contains("Use tabs."));
}

#[test]
fn test_finished_summary() {
    assert_eq!(finished_summary("short answer").unwrap(), "short answer");
    let long = "a".repeat(250);
    let s = finished_summary(&long).unwrap();
    assert_eq!(s.len(), 203);
    assert!(s.ends_with("..."));
}
