use kendra::orchestration::{
    state_path_for, GovernedOrchestrator, OrchestrationPhase, OrchestrationState, PlanStep, StepStatus,
};

fn fresh(session: &str) -> GovernedOrchestrator {
    let path = state_path_for("/tmp/state", session);
    GovernedOrchestrator::new(session.to_string(), None, path)
}

fn step(id: &str) -> PlanStep {
    PlanStep { id: id.to_string(), description: "description".to_string(), status: StepStatus::Pending, checkpoint_id: None }
}

#[test]
fn test_orchestrator_initialization() {
    let orchestrator = fresh("test-session");
    assert_eq!(orchestrator.phase(), OrchestrationPhase::Explore);
    assert_eq!(orchestrator.state_path, "/tmp/state/test-session_orchestration.json");
}

#[test]
fn test_orchestrator_transition_keeps_loaded_state() {
    let mut orchestrator = fresh("test-session");
    orchestrator.transition(OrchestrationPhase::Plan);
    assert_eq!(orchestrator.phase(), OrchestrationPhase::Plan);
    let reloaded = GovernedOrchestrator::new(
        "test-session".to_string(),
        Some(orchestrator.state.clone()),
        orchestrator.state_path.clone(),
    );
    assert_eq!(reloaded.phase(), OrchestrationPhase::Plan);
}

#[test]
fn test_orchestrator_step_completion() {
    let mut orchestrator = fresh("test-session");
    orchestrator.state.steps.push(step("step1"));
    orchestrator.complete_current_step();
    assert_eq!(orchestrator.phase(), OrchestrationPhase::Validate);
    assert_eq!(orchestrator.state.steps[0].status, StepStatus::Completed);
}

#[test]
fn test_orchestrator_step_failure_replans() {
    let mut orchestrator = fresh("s");
    orchestrator.state.steps.push(step("a"));
    orchestrator.fail_current_step();
    assert_eq!(orchestrator.phase(), OrchestrationPhase::Plan);
    assert_eq!(orchestrator.state.steps[0].status, StepStatus::Failed);
}

#[test]
fn test_completion_without_steps_only_moves_phase() {
    let mut orchestrator = fresh("s");
    orchestrator.complete_current_step();
    assert_eq!(orchestrator.phase(), OrchestrationPhase::Validate);
    assert!(orchestrator.state.steps.is_empty());
}

#[test]
fn test_checkpoint_and_rollback() {
    let mut orchestrator = fresh("s");
    assert!(!orchestrator.create_checkpoint(Some("abc".to_string())));
    orchestrator.state.steps.push(step("a"));
    assert_eq!(orchestrator.checkpoint_label(), "step_0");
    assert!(orchestrator.rollback_current_step().is_none());
    assert!(!orchestrator.create_checkpoint(None));
    assert!(orchestrator.create_checkpoint(Some("abc".to_string())));
    assert_eq!(orchestrator.state.steps[0].checkpoint_id.as_deref(), Some("abc"));
    assert_eq!(orchestrator.rollback_current_step().as_deref(), Some("abc"));
}

#[test]
fn test_orchestration_state_new() {
    let state = OrchestrationState::new("x".to_string());
    assert_eq!(state.phase, OrchestrationPhase::Explore);
    assert_eq!(state.current_step_index, 0);
    assert!(state.steps.is_empty());
    assert!(state.metadata.is_empty());
}
