//! Events the automation engine publishes about workflows, pipelines,
//! steps, verification, recovery and goals.
use vstd::prelude::*;

verus! {

/// What the automation engine reports as it works.
#[derive(Debug)]
pub enum AutomationEventPayload {
    WorkflowCreated {
        workflow_id: String,
        name: String,
    },
    WorkflowUpdated {
        workflow_id: String,
        name: String,
    },
    WorkflowDeleted {
        workflow_id: String,
    },
    WorkflowStarted {
        workflow_id: String,
        execution_id: String,
    },
    WorkflowCompleted {
        workflow_id: String,
        execution_id: String,
        steps_succeeded: usize,
        steps_failed: usize,
        duration_ms: i64,
    },
    WorkflowFailed {
        workflow_id: String,
        execution_id: String,
        error: String,
    },
    TriggerActivated {
        workflow_id: String,
        trigger_type: String,
        reason: String,
    },
    ActionExecuted {
        workflow_id: String,
        execution_id: String,
        step: usize,
        action_type: String,
        success: bool,
    },
    ConditionMatched {
        workflow_id: String,
        execution_id: String,
        condition: String,
        matched: bool,
    },
    AutomationError {
        workflow_id: String,
        error: String,
    },
    PipelineStarted {
        pipeline_id: String,
        goal: String,
        total_steps: usize,
    },
    PipelineCompleted {
        pipeline_id: String,
        goal: String,
        total_steps: usize,
        completed_steps: usize,
        failed_steps: usize,
        duration_ms: i64,
    },
    PipelineFailed {
        pipeline_id: String,
        goal: String,
        error: String,
        failed_steps: usize,
    },
    PipelineCancelled {
        pipeline_id: String,
        goal: String,
        reason: Option<String>,
    },
    StepStarted {
        pipeline_id: String,
        step_id: String,
        step_index: usize,
        description: String,
    },
    StepCompleted {
        pipeline_id: String,
        step_id: String,
        step_index: usize,
        attempts: u32,
        duration_ms: i64,
    },
    StepFailed {
        pipeline_id: String,
        step_id: String,
        step_index: usize,
        error: String,
        attempts: u32,
    },
    StepSkipped {
        pipeline_id: String,
        step_id: String,
        step_index: usize,
        reason: String,
    },
    StepRetried {
        pipeline_id: String,
        step_id: String,
        step_index: usize,
        attempt: u32,
        delay_ms: u64,
    },
    VerificationStarted {
        pipeline_id: String,
        step_id: String,
        strategy: String,
    },
    VerificationCompleted {
        pipeline_id: String,
        step_id: String,
        passed: bool,
        duration_ms: i64,
    },
    VerificationFailed {
        pipeline_id: String,
        step_id: String,
        reason: String,
        suggestion: String,
        duration_ms: i64,
    },
    RecoveryStarted {
        pipeline_id: String,
        step_id: String,
        retry_count: u32,
        reason: String,
    },
    RecoveryCompleted {
        pipeline_id: String,
        step_id: String,
        decision: String,
        strategy: String,
        duration_ms: i64,
    },
    RecoveryFailed {
        pipeline_id: String,
        step_id: String,
        decision: String,
        reason: String,
        duration_ms: i64,
    },
    ReplanStarted {
        pipeline_id: String,
        reason: String,
        from_step_index: usize,
    },
    ReplanCompleted {
        pipeline_id: String,
        new_step_count: usize,
        duration_ms: i64,
    },
    GoalExecutionStarted {
        goal: String,
        execution_id: String,
    },
    GoalExecutionCompleted {
        goal: String,
        execution_id: String,
        success: bool,
        duration_ms: i64,
    },
}

} // verus!
