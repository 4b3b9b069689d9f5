use automation::error::{AutomationError, ErrorCategory};

#[test]
fn error_test_error_display() {
    let e = AutomationError::WorkflowNotFound("test".into());
    assert_eq!(e.display_text(), "workflow not found: test");
}

#[test]
fn error_category_of_not_found() {
    let e = AutomationError::WorkflowNotFound("w1".into());
    assert_eq!(e.category(), ErrorCategory::Kernel);
    assert!(e.display_text().contains("w1"));
}

#[test]
fn test_all_error_variants() {
    let variants: Vec<AutomationError> = vec![
        AutomationError::WorkflowNotFound("a".into()),
        AutomationError::WorkflowAlreadyExists("a".into()),
        AutomationError::InvalidWorkflow("a".into()),
        AutomationError::TriggerEvaluationFailed("a".into()),
        AutomationError::ConditionNotMet("a".into()),
        AutomationError::ActionExecutionFailed("a".into()),
        AutomationError::ExecutionTimeout("a".into()),
        AutomationError::ExecutionCancelled("a".into()),
        AutomationError::ScheduleConflict("a".into()),
        AutomationError::PermissionDenied("a".into()),
        AutomationError::SerializationFailed("a".into()),
        AutomationError::MissingDependency("a".into()),
        AutomationError::WorkflowDisabled("a".into()),
        AutomationError::StepExecutionFailed { step: 0, reason: "a".into() },
        AutomationError::ElementNotFound {
            query: "btn".into(),
            suggestion: "try a different query".into(),
        },
        AutomationError::StepTimeout { step: 0, timeout_ms: 5000 },
        AutomationError::Internal("a".into()),
    ];
    assert_eq!(variants.len(), 17);
    for v in &variants {
        let s = v.display_text();
        assert!(!s.is_empty());
    }
}

#[test]
fn error_categories() {
    assert_eq!(AutomationError::PermissionDenied("p".into()).category(), ErrorCategory::EgressDenied);
    assert_eq!(AutomationError::SerializationFailed("p".into()).category(), ErrorCategory::Storage);
    assert_eq!(AutomationError::StepTimeout { step: 1, timeout_ms: 2 }.category(), ErrorCategory::Internal);
    assert_eq!(AutomationError::ScheduleConflict("p".into()).category(), ErrorCategory::ConfigInvalid);
}
