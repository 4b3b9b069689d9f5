//! What can go wrong in automation, how it reads, and which kind of system
//! error it is.
use vstd::prelude::*;
use crate::text::{decimal, push_decimal, push_str};

verus! {

#[derive(Debug)]
pub enum AutomationError {
    WorkflowNotFound(String),
    WorkflowAlreadyExists(String),
    InvalidWorkflow(String),
    TriggerEvaluationFailed(String),
    ConditionNotMet(String),
    ActionExecutionFailed(String),
    ExecutionTimeout(String),
    ExecutionCancelled(String),
    ScheduleConflict(String),
    PermissionDenied(String),
    SerializationFailed(String),
    MissingDependency(String),
    WorkflowDisabled(String),
    StepExecutionFailed { step: usize, reason: String },
    ElementNotFound { query: String, suggestion: String },
    StepTimeout { step: usize, timeout_ms: u64 },
    Internal(String),
}

/// The kind of system error an automation error is reported as.
#[derive(Debug, Clone, Copy, PartialEq, Eq, Structural)]
pub enum ErrorCategory {
    Kernel,
    ConfigInvalid,
    Inference,
    Internal,
    EgressDenied,
    Storage,
}

/// How an error reads.
pub open spec fn error_text(e: AutomationError) -> Seq<char> {
    match e {
        AutomationError::WorkflowNotFound(id) => "workflow not found: "@ + id@,
        AutomationError::WorkflowAlreadyExists(id) => "workflow already exists: "@ + id@,
        AutomationError::InvalidWorkflow(m) => "invalid workflow: "@ + m@,
        AutomationError::TriggerEvaluationFailed(m) => "trigger evaluation failed: "@ + m@,
        AutomationError::ConditionNotMet(m) => "condition not met: "@ + m@,
        AutomationError::ActionExecutionFailed(m) => "action execution failed: "@ + m@,
        AutomationError::ExecutionTimeout(m) => "execution timeout: "@ + m@,
        AutomationError::ExecutionCancelled(m) => "execution cancelled: "@ + m@,
        AutomationError::ScheduleConflict(m) => "schedule conflict: "@ + m@,
        AutomationError::PermissionDenied(m) => "permission denied: "@ + m@,
        AutomationError::SerializationFailed(m) => "serialization failed: "@ + m@,
        AutomationError::MissingDependency(m) => "missing dependency: "@ + m@,
        AutomationError::WorkflowDisabled(id) => "workflow disabled: "@ + id@,
        AutomationError::StepExecutionFailed { step, reason } =>
            "step "@ + decimal(step as nat) + " failed: "@ + reason@,
        AutomationError::ElementNotFound { query, suggestion } =>
            "element '"@ + query@ + "' not found on screen. "@ + suggestion@,
        AutomationError::StepTimeout { step, timeout_ms } =>
            "step "@ + decimal(step as nat) + " timed out after "@ + decimal(timeout_ms as nat) + "ms"@,
        AutomationError::Internal(m) => "internal error: "@ + m@,
    }
}

pub open spec fn error_category(e: AutomationError) -> ErrorCategory {
    match e {
        AutomationError::WorkflowNotFound(_) => ErrorCategory::Kernel,
        AutomationError::WorkflowAlreadyExists(_) => ErrorCategory::ConfigInvalid,
        AutomationError::InvalidWorkflow(_) => ErrorCategory::ConfigInvalid,
        AutomationError::TriggerEvaluationFailed(_) => ErrorCategory::Inference,
        AutomationError::ConditionNotMet(_) => ErrorCategory::Kernel,
        AutomationError::ActionExecutionFailed(_) => ErrorCategory::Inference,
        AutomationError::ExecutionTimeout(_) => ErrorCategory::Internal,
        AutomationError::ExecutionCancelled(_) => ErrorCategory::Kernel,
        AutomationError::ScheduleConflict(_) => ErrorCategory::ConfigInvalid,
        AutomationError::PermissionDenied(_) => ErrorCategory::EgressDenied,
        AutomationError::SerializationFailed(_) => ErrorCategory::Storage,
        AutomationError::MissingDependency(_) => ErrorCategory::Kernel,
        AutomationError::WorkflowDisabled(_) => ErrorCategory::Kernel,
        AutomationError::StepExecutionFailed { .. } => ErrorCategory::Inference,
        AutomationError::ElementNotFound { .. } => ErrorCategory::Inference,
        AutomationError::StepTimeout { .. } => ErrorCategory::Internal,
        AutomationError::Internal(_) => ErrorCategory::Internal,
    }
}

impl AutomationError {
    /// How the error reads.
    pub fn display_text(&self) -> (r: String)
        ensures
            r@ == error_text(*self),
    {
        let mut s = String::new();
        match self {
            AutomationError::WorkflowNotFound(id) => {
                push_str(&mut s, "workflow not found: ");
                push_str(&mut s, id.as_str());
            },
            AutomationError::WorkflowAlreadyExists(id) => {
                push_str(&mut s, "workflow already exists: ");
                push_str(&mut s, id.as_str());
            },
            AutomationError::InvalidWorkflow(m) => {
                push_str(&mut s, "invalid workflow: ");
                push_str(&mut s, m.as_str());
            },
            AutomationError::TriggerEvaluationFailed(m) => {
                push_str(&mut s, "trigger evaluation failed: ");
                push_str(&mut s, m.as_str());
            },
            AutomationError::ConditionNotMet(m) => {
                push_str(&mut s, "condition not met: ");
                push_str(&mut s, m.as_str());
            },
            AutomationError::ActionExecutionFailed(m) => {
                push_str(&mut s, "action execution failed: ");
                push_str(&mut s, m.as_str());
            },
            AutomationError::ExecutionTimeout(m) => {
                push_str(&mut s, "execution timeout: ");
                push_str(&mut s, m.as_str());
            },
            AutomationError::ExecutionCancelled(m) => {
                push_str(&mut s, "execution cancelled: ");
                push_str(&mut s, m.as_str());
            },
            AutomationError::ScheduleConflict(m) => {
                push_str(&mut s, "schedule conflict: ");
                push_str(&mut s, m.as_str());
            },
            AutomationError::PermissionDenied(m) => {
                push_str(&mut s, "permission denied: ");
                push_str(&mut s, m.as_str());
            },
            AutomationError::SerializationFailed(m) => {
                push_str(&mut s, "serialization failed: ");
                push_str(&mut s, m.as_str());
            },
            AutomationError::MissingDependency(m) => {
                push_str(&mut s, "missing dependency: ");
                push_str(&mut s, m.as_str());
            },
            AutomationError::WorkflowDisabled(id) => {
                push_str(&mut s, "workflow disabled: ");
                push_str(&mut s, id.as_str());
            },
            AutomationError::StepExecutionFailed { step, reason } => {
                push_str(&mut s, "step ");
                push_decimal(&mut s, *step as u64);
                push_str(&mut s, " failed: ");
                push_str(&mut s, reason.as_str());
            },
            AutomationError::ElementNotFound { query, suggestion } => {
                push_str(&mut s, "element '");
                push_str(&mut s, query.as_str());
                push_str(&mut s, "' not found on screen. ");
                push_str(&mut s, suggestion.as_str());
            },
            AutomationError::StepTimeout { step, timeout_ms } => {
                push_str(&mut s, "step ");
                push_decimal(&mut s, *step as u64);
                push_str(&mut s, " timed out after ");
                push_decimal(&mut s, *timeout_ms);
                push_str(&mut s, "ms");
            },
            AutomationError::Internal(m) => {
                push_str(&mut s, "internal error: ");
                push_str(&mut s, m.as_str());
            },
        }
        proof {
            assert(Seq::<char>::empty() + error_text(*self) =~= error_text(*self));
        }
        s
    }

    /// The kind of system error this is reported as.
    pub fn category(&self) -> (c: ErrorCategory)
        ensures
            c == error_category(*self),
    {
        match self {
            AutomationError::WorkflowNotFound(_) => ErrorCategory::Kernel,
            AutomationError::WorkflowAlreadyExists(_) => ErrorCategory::ConfigInvalid,
            AutomationError::InvalidWorkflow(_) => ErrorCategory::ConfigInvalid,
            AutomationError::TriggerEvaluationFailed(_) => ErrorCategory::Inference,
            AutomationError::ConditionNotMet(_) => ErrorCategory::Kernel,
            AutomationError::ActionExecutionFailed(_) => ErrorCategory::Inference,
            AutomationError::ExecutionTimeout(_) => ErrorCategory::Internal,
            AutomationError::ExecutionCancelled(_) => ErrorCategory::Kernel,
            AutomationError::ScheduleConflict(_) => ErrorCategory::ConfigInvalid,
            AutomationError::PermissionDenied(_) => ErrorCategory::EgressDenied,
            AutomationError::SerializationFailed(_) => ErrorCategory::Storage,
            AutomationError::MissingDependency(_) => ErrorCategory::Kernel,
            AutomationError::WorkflowDisabled(_) => ErrorCategory::Kernel,
            AutomationError::StepExecutionFailed { .. } => ErrorCategory::Inference,
            AutomationError::ElementNotFound { .. } => ErrorCategory::Inference,
            AutomationError::StepTimeout { .. } => ErrorCategory::Internal,
            AutomationError::Internal(_) => ErrorCategory::Internal,
        }
    }
}

} // verus!
