use automation::ai_bridge::{
    cancellation_response, capabilities, clarification_for, no_goal_response, planning_failed_response,
    request_text, submission_response, unclear_response, AutomationCapability, AutomationContext,
    AutomationDecision, AutomationIntent, AutomationMetrics, AutomationRequest, AutomationResponse,
    AutomationSession, BridgeError,
};
use automation::ai_bridge::{conclude_request, RequestStage};
use automation::execution_manager::ExecutionPriority;

#[test]
fn test_request_builder() {
    let request = AutomationRequest::new("open chrome")
        .with_session("s1")
        .with_priority(ExecutionPriority::Immediate);
    assert_eq!(request.text, "open chrome");
    assert_eq!(request.session_id, Some("s1".into()));
    assert_eq!(request.priority, Some(ExecutionPriority::Immediate));
}

#[test]
fn ai_bridge_test_error_display() {
    let e = BridgeError::InvalidRequest("bad".into());
    assert_eq!(e.display_text(), "invalid request: bad");

    let e = BridgeError::SessionNotFound("s1".into());
    assert_eq!(e.display_text(), "session not found: s1");
}

#[test]
fn bridge_request_with_context() {
    let mut ctx = AutomationContext::new();
    ctx.active_goal = Some("test goal".into());
    ctx.previous_goals.push("open notepad".into());
    let request = AutomationRequest::new("open chrome").with_context(ctx);
    let c = request.context.unwrap();
    assert_eq!(c.active_goal, Some("test goal".to_string()));
    assert_eq!(c.previous_goals, vec!["open notepad".to_string()]);
    assert_eq!(c.execution_count, 0);
}

#[test]
fn bridge_metrics_counters() {
    let mut m = AutomationMetrics::default();
    assert_eq!(m.total_requests, 0);
    m.record_request();
    m.record_request();
    m.record_success();
    m.record_failure();
    assert_eq!(m.total_requests, 2);
    assert_eq!(m.successful_executions, 1);
    assert_eq!(m.failed_executions, 1);
}

#[test]
fn bridge_plain_enums_compare() {
    assert_eq!(AutomationIntent::Execute, AutomationIntent::Execute);
    assert_ne!(AutomationCapability::NaturalLanguage, AutomationCapability::MultiStep);
}


#[test]
fn test_response_builder() {
    let response = AutomationResponse::success(
        AutomationDecision::Execute { execution_id: "e1".into(), goal: "test".into() },
        "done",
    )
    .with_execution_id("e1")
    .with_suggestion("try something else");
    assert!(response.success);
    assert_eq!(response.execution_id, Some("e1".into()));
    assert!(!response.suggestions.is_empty());
}

#[test]
fn test_error_response_carries_message() {
    let e = AutomationResponse::error("boom");
    assert!(!e.success);
    assert_eq!(e.message, "boom");
    assert!(matches!(e.decision, AutomationDecision::Error { ref message } if message == "boom"));
}

#[test]
fn test_decision_execute_variants() {
    let execute = AutomationDecision::Execute { execution_id: "e1".into(), goal: "open chrome".into() };
    match &execute {
        AutomationDecision::Execute { execution_id, goal } => {
            assert_eq!(execution_id, "e1");
            assert_eq!(goal, "open chrome");
        }
        _ => panic!("wrong variant"),
    }
}

#[test]
fn test_decision_clarify_variants() {
    let clarify = AutomationDecision::Clarify { question: "what?".into(), options: vec!["a".into(), "b".into()] };
    match &clarify {
        AutomationDecision::Clarify { question, options } => {
            assert_eq!(question, "what?");
            assert_eq!(options.len(), 2);
        }
        _ => panic!("wrong variant"),
    }
}

#[test]
fn test_decision_error_variants() {
    let error = AutomationDecision::Error { message: "something went wrong".into() };
    match &error {
        AutomationDecision::Error { message } => assert_eq!(message, "something went wrong"),
        _ => panic!("wrong variant"),
    }
}

#[test]
fn test_clarification_hints_by_first_word() {
    let r = clarification_for("Open", true);
    assert!(r.success);
    assert_eq!(r.message, "clarification needed");
    match &r.decision {
        AutomationDecision::Clarify { question, options } => {
            assert_eq!(question, "I'm not sure what you mean by 'Open'. Could you be more specific?");
            assert_eq!(options, &vec!["Try specifying the application name, e.g. 'open chrome'".to_string()]);
        }
        other => panic!("unexpected {:?}", other),
    }
    assert_eq!(r.suggestions.len(), 2);
    match clarification_for("blorp", true).decision {
        AutomationDecision::Clarify { options, .. } => assert_eq!(options.len(), 2),
        other => panic!("unexpected {:?}", other),
    }
    let off = clarification_for("blorp", false);
    assert!(!off.success);
    assert_eq!(off.message, "unrecognized request: blorp");
}

#[test]
fn test_request_text_trimmed_or_refused() {
    assert_eq!(request_text(&AutomationRequest::new("  open chrome ")).unwrap(), "open chrome");
    match request_text(&AutomationRequest::new("   ")) {
        Err(BridgeError::InvalidRequest(m)) => assert_eq!(m, "request text cannot be empty"),
        other => panic!("unexpected {:?}", other),
    }
}

#[test]
fn test_bridge_responses() {
    assert!(matches!(unclear_response().decision, AutomationDecision::Clarify { .. }));
    assert_eq!(no_goal_response("fly").message, "could not find a matching goal for 'fly'");
    assert_eq!(planning_failed_response("no steps").message, "planning failed: no steps");
    let ok = submission_response("open chrome", 3, Ok("ai_1".to_string()));
    assert!(ok.success);
    assert_eq!(ok.message, "executing: open chrome (3 step(s))");
    assert_eq!(ok.execution_id.as_deref(), Some("ai_1"));
    let bad = submission_response("open chrome", 3, Err("queue full".to_string()));
    assert_eq!(bad.message, "submission failed: queue full");
    assert_eq!(cancellation_response("e9", Ok(())).message, "cancelled execution e9");
    assert_eq!(cancellation_response("e9", Err("gone".to_string())).message, "cancellation failed: gone");
}

#[test]
fn test_capabilities() {
    let caps = capabilities();
    assert!(caps.contains(&AutomationCapability::NaturalLanguage));
    assert!(caps.contains(&AutomationCapability::MultiStep));
    assert!(caps.contains(&AutomationCapability::Cancellation));
    assert!(caps.contains(&AutomationCapability::Clarification));
    assert!(caps.contains(&AutomationCapability::ContextAware));
    assert!(caps.contains(&AutomationCapability::PriorityScheduling));
    assert_eq!(caps.len(), 6);
    assert_eq!(caps[0], AutomationCapability::NaturalLanguage);
    assert_eq!(caps[5], AutomationCapability::PriorityScheduling);
}

#[test]
fn test_session_entries_and_tracking() {
    let mut s = AutomationSession::new_at("s1", 100);
    let r = submission_response("open chrome", 1, Ok("e1".to_string()));
    s.add_entry_at("open chrome".to_string(), r, 150);
    assert_eq!(s.history.len(), 1);
    assert_eq!(s.updated_at, 150);
    assert_eq!(s.context.execution_count, 1);
    assert_eq!(s.context.previous_goals, vec!["open chrome".to_string()]);
    assert_eq!(s.context.last_intent.as_deref(), Some("open chrome"));
    s.track_execution("e1", "open chrome");
    s.track_execution("e2", "search");
    s.track_execution("e1", "open firefox");
    assert_eq!(s.active_executions.len(), 2);
    assert_eq!(s.active_executions[0].0, "e2");
    assert_eq!(s.active_executions[1].0, "e1");
    s.clear_history_at(200);
    assert!(s.history.is_empty());
    assert_eq!(s.context.execution_count, 0);
    assert_eq!(s.active_executions.len(), 2);
}

#[test]
fn test_metrics_observe_average() {
    let mut m = AutomationMetrics::default();
    m.observe(100, true, 3);
    assert_eq!(m.average_processing_time_ms, 100);
    assert_eq!(m.clarifications_requested, 1);
    assert_eq!(m.peak_sessions, 3);
    m.observe(50, false, 2);
    assert_eq!(m.average_processing_time_ms, 75);
    assert_eq!(m.peak_sessions, 3);
}

#[test]
fn test_conclude_unrecognized_counts_clarification_twice() {
    let mut m = AutomationMetrics::default();
    let r = conclude_request(&mut m, "blorp", true, RequestStage::Unrecognized, 40, 3);
    assert!(r.success);
    assert_eq!(r.message, "clarification needed");
    assert_eq!(m.clarifications_requested, 2);
    assert_eq!(m.average_processing_time_ms, 40);
    assert_eq!(m.peak_sessions, 3);
    let r = conclude_request(&mut m, "blorp", false, RequestStage::Unrecognized, 21, 1);
    assert!(!r.success);
    assert_eq!(r.message, "unrecognized request: blorp");
    assert_eq!(m.clarifications_requested, 4);
    assert_eq!(m.average_processing_time_ms, 30);
    assert_eq!(m.peak_sessions, 3);
}

#[test]
fn test_conclude_failures_and_success() {
    let mut m = AutomationMetrics::default();
    let r = conclude_request(&mut m, "open x", true, RequestStage::NoIntent, 5, 1);
    assert_eq!(r.message, "unclear request");
    assert_eq!(m.clarifications_requested, 1);
    assert_eq!(m.average_processing_time_ms, 0);
    let r = conclude_request(&mut m, "open x", true, RequestStage::NoGoal, 5, 1);
    assert_eq!(r.message, "could not find a matching goal for 'open x'");
    let r = conclude_request(&mut m, "open x", true, RequestStage::PlanningFailed("no steps".to_string()), 5, 1);
    assert_eq!(r.message, "planning failed: no steps");
    let stage = RequestStage::Submitted { goal: "open x".to_string(), estimated_steps: 2, result: Err("full".to_string()) };
    let r = conclude_request(&mut m, "open x", true, stage, 5, 1);
    assert_eq!(r.message, "submission failed: full");
    assert_eq!(m.failed_executions, 3);
    let stage = RequestStage::Submitted { goal: "open x".to_string(), estimated_steps: 2, result: Ok("e1".to_string()) };
    let r = conclude_request(&mut m, "open x", true, stage, 8, 2);
    assert!(r.success);
    assert_eq!(r.execution_id.as_deref(), Some("e1"));
    assert_eq!(r.message, "executing: open x (2 step(s))");
    assert_eq!(m.successful_executions, 1);
    assert_eq!(m.average_processing_time_ms, 8);
    assert_eq!(m.peak_sessions, 2);
}
