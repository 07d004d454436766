//! Governed orchestration loop: Planner -> Worker -> Validator.
//!
//! A durable state machine for agent sessions: every action is planned,
//! executed with checkpoints, and validated. The orchestrator decides; the
//! caller persists the state after each change and takes or restores the
//! snapshots that checkpoints name.
use vstd::prelude::*;

use crate::paths::{join_path, joined};
use crate::text::{decimal, owned, push_decimal, push_str};

verus! {

/// The phase of the governed orchestration loop.
#[derive(Debug, Clone, Copy, PartialEq, Eq, Structural)]
pub enum OrchestrationPhase {
    /// Initial state: understanding the request and exploring the codebase.
    Explore,
    /// Formalizing a step-by-step execution plan.
    Plan,
    /// Executing specific steps of the plan.
    Work,
    /// Verifying that the work performed matches the plan and requirements.
    Validate,
}

/// Status of one plan step.
#[derive(Debug, Clone, Copy, PartialEq, Eq, Structural)]
pub enum StepStatus {
    Pending,
    InProgress,
    Completed,
    Failed,
}

/// A single step in an orchestration plan.
#[derive(Debug, Clone)]
pub struct PlanStep {
    pub id: String,
    pub description: String,
    pub status: StepStatus,
    /// Optional checkpoint ID created before starting this step.
    pub checkpoint_id: Option<String>,
}

/// The durable state of an agent session.
#[derive(Debug, Clone)]
pub struct OrchestrationState {
    pub session_id: String,
    pub phase: OrchestrationPhase,
    pub steps: Vec<PlanStep>,
    pub current_step_index: usize,
    /// Key-value store for session-specific context.
    pub metadata: Vec<(String, String)>,
}

impl OrchestrationState {
    /// A fresh state: exploring, no steps, first step current, no metadata.
    pub fn new(session_id: String) -> (r: Self)
        ensures
            r.session_id == session_id,
            r.phase == OrchestrationPhase::Explore,
            r.steps@.len() == 0,
            r.current_step_index == 0,
            r.metadata@.len() == 0,
    {
        OrchestrationState {
            session_id,
            phase: OrchestrationPhase::Explore,
            steps: Vec::new(),
            current_step_index: 0,
            metadata: Vec::new(),
        }
    }
}

/// The label of the checkpoint for step `i`.
pub open spec fn checkpoint_label_of(i: nat) -> Seq<char> {
    "step_"@ + decimal(i)
}

/// Steps `a` and `b` agree except at position `i`, where `b` has `s`.
pub open spec fn steps_updated(a: Seq<PlanStep>, b: Seq<PlanStep>, i: int, s: PlanStep) -> bool {
    &&& b.len() == a.len()
    &&& 0 <= i < a.len() ==> b[i] == s
    &&& forall|j: int| 0 <= j < a.len() && j != i ==> b[j] == a[j]
}

/// The file under `state_dir` that holds a session's orchestration state.
pub open spec fn state_file(state_dir: Seq<char>, session_id: Seq<char>) -> Seq<char> {
    joined(state_dir, session_id + "_orchestration.json"@)
}

/// The file under `state_dir` that holds a session's orchestration state.
pub fn state_path_for(state_dir: &str, session_id: &str) -> (r: String)
    ensures
        r@ == state_file(state_dir@, session_id@),
{
    let mut name = owned(session_id);
    push_str(&mut name, "_orchestration.json");
    join_path(state_dir, name.as_str())
}

/// The governed orchestrator.
#[derive(Debug, Clone)]
pub struct GovernedOrchestrator {
    pub state: OrchestrationState,
    pub state_path: String,
}

impl GovernedOrchestrator {
    /// An orchestrator over a loaded state, or over a fresh state for the
    /// session when nothing could be loaded.
    pub fn new(session_id: String, loaded: Option<OrchestrationState>, state_path: String) -> (r:
        Self)
        ensures
            r.state_path == state_path,
            loaded is Some ==> r.state == loaded->0,
            loaded is None ==> r.state.session_id == session_id && r.state.phase
                == OrchestrationPhase::Explore && r.state.steps@.len() == 0
                && r.state.current_step_index == 0 && r.state.metadata@.len() == 0,
    {
        let state = match loaded {
            Some(s) => s,
            None => OrchestrationState::new(session_id),
        };
        GovernedOrchestrator { state, state_path }
    }

    /// The label under which the current step's checkpoint is taken.
    pub fn checkpoint_label(&self) -> (r: String)
        ensures
            r@ == checkpoint_label_of(self.state.current_step_index as nat),
    {
        let mut r = String::new();
        push_str(&mut r, "step_");
        push_decimal(&mut r, self.state.current_step_index as u64);
        r
    }

    /// Record the snapshot taken for the current step. Returns whether the
    /// state changed (and is to be persisted): it does when a snapshot was
    /// taken and the current step exists.
    pub fn create_checkpoint(&mut self, snapshot_id: Option<String>) -> (r: bool)
        ensures
            r == (snapshot_id is Some && old(self).state.current_step_index
                < old(self).state.steps@.len()),
            final(self).state.phase == old(self).state.phase,
            final(self).state.current_step_index == old(self).state.current_step_index,
            final(self).state.session_id == old(self).state.session_id,
            final(self).state.metadata == old(self).state.metadata,
            final(self).state_path == old(self).state_path,
            r ==> steps_updated(
                old(self).state.steps@,
                final(self).state.steps@,
                old(self).state.current_step_index as int,
                PlanStep {
                    checkpoint_id: snapshot_id,
                    ..old(self).state.steps@[old(self).state.current_step_index as int]
                },
            ),
            !r ==> final(self).state.steps@ == old(self).state.steps@,
    {
        let i = self.state.current_step_index;
        match snapshot_id {
            Some(id) => {
                if i < self.state.steps.len() {
                    let mut step = self.state.steps[i].clone_step();
                    step.checkpoint_id = Some(id);
                    self.state.steps.set(i, step);
                    true
                } else {
                    false
                }
            },
            None => false,
        }
    }

    /// The checkpoint to roll the current step back to, if the current step
    /// exists and has one.
    pub fn rollback_current_step(&self) -> (r: Option<String>)
        ensures
            (self.state.current_step_index < self.state.steps@.len()
                && self.state.steps@[self.state.current_step_index as int].checkpoint_id is Some)
                ==> r is Some && r->0@ == self.state.steps@[self.state.current_step_index as int].checkpoint_id->0@,
            !(self.state.current_step_index < self.state.steps@.len()
                && self.state.steps@[self.state.current_step_index as int].checkpoint_id is Some)
                ==> r is None,
    {
        let i = self.state.current_step_index;
        if i < self.state.steps.len() {
            match &self.state.steps[i].checkpoint_id {
                Some(id) => Some(crate::text::owned(id.as_str())),
                None => None,
            }
        } else {
            None
        }
    }

    /// The current phase.
    pub fn phase(&self) -> (r: OrchestrationPhase)
        ensures
            r == self.state.phase,
    {
        self.state.phase
    }

    /// Transition to a new orchestration phase.
    pub fn transition(&mut self, new_phase: OrchestrationPhase)
        ensures
            final(self).state.phase == new_phase,
            final(self).state.steps == old(self).state.steps,
            final(self).state.current_step_index == old(self).state.current_step_index,
            final(self).state.session_id == old(self).state.session_id,
            final(self).state.metadata == old(self).state.metadata,
            final(self).state_path == old(self).state_path,
    {
        self.state.phase = new_phase;
    }

    /// Set the current step's status, if the current step exists.
    fn set_current_status(&mut self, status: StepStatus)
        ensures
            final(self).state.phase == old(self).state.phase,
            final(self).state.current_step_index == old(self).state.current_step_index,
            final(self).state.session_id == old(self).state.session_id,
            final(self).state.metadata == old(self).state.metadata,
            final(self).state_path == old(self).state_path,
            old(self).state.current_step_index < old(self).state.steps@.len() ==> steps_updated(
                old(self).state.steps@,
                final(self).state.steps@,
                old(self).state.current_step_index as int,
                PlanStep {
                    status,
                    ..old(self).state.steps@[old(self).state.current_step_index as int]
                },
            ),
            old(self).state.current_step_index >= old(self).state.steps@.len()
                ==> final(self).state.steps@ == old(self).state.steps@,
    {
        let i = self.state.current_step_index;
        if i < self.state.steps.len() {
            let mut step = self.state.steps[i].clone_step();
            step.status = status;
            self.state.steps.set(i, step);
        }
    }

    /// Mark the current step as completed and move to validation.
    pub fn complete_current_step(&mut self)
        ensures
            final(self).state.phase == OrchestrationPhase::Validate,
            final(self).state.current_step_index == old(self).state.current_step_index,
            final(self).state.session_id == old(self).state.session_id,
            final(self).state.metadata == old(self).state.metadata,
            final(self).state_path == old(self).state_path,
            old(self).state.current_step_index < old(self).state.steps@.len() ==> steps_updated(
                old(self).state.steps@,
                final(self).state.steps@,
                old(self).state.current_step_index as int,
                PlanStep {
                    status: StepStatus::Completed,
                    ..old(self).state.steps@[old(self).state.current_step_index as int]
                },
            ),
            old(self).state.current_step_index >= old(self).state.steps@.len()
                ==> final(self).state.steps@ == old(self).state.steps@,
    {
        self.set_current_status(StepStatus::Completed);
        self.transition(OrchestrationPhase::Validate);
    }

    /// Fail the current step and go back to planning.
    pub fn fail_current_step(&mut self)
        ensures
            final(self).state.phase == OrchestrationPhase::Plan,
            final(self).state.current_step_index == old(self).state.current_step_index,
            final(self).state.session_id == old(self).state.session_id,
            final(self).state.metadata == old(self).state.metadata,
            final(self).state_path == old(self).state_path,
            old(self).state.current_step_index < old(self).state.steps@.len() ==> steps_updated(
                old(self).state.steps@,
                final(self).state.steps@,
                old(self).state.current_step_index as int,
                PlanStep {
                    status: StepStatus::Failed,
                    ..old(self).state.steps@[old(self).state.current_step_index as int]
                },
            ),
            old(self).state.current_step_index >= old(self).state.steps@.len()
                ==> final(self).state.steps@ == old(self).state.steps@,
    {
        self.set_current_status(StepStatus::Failed);
        self.transition(OrchestrationPhase::Plan);
    }
}

impl PlanStep {
    /// A field-by-field copy of the step.
    pub fn clone_step(&self) -> (r: Self)
        ensures
            r == *self,
    {
        PlanStep {
            id: self.id.clone(),
            description: self.description.clone(),
            status: self.status,
            checkpoint_id: match &self.checkpoint_id {
                Some(c) => Some(c.clone()),
                None => None,
            },
        }
    }
}

} // verus!
