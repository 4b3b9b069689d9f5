use automation::action::ActionType;
use automation::execution::{action_kind_name, named_executor_for};
use automation::action::{ActionResult, InputInjectionParams};
use automation::condition::ConditionResult;
use automation::consent_gate::{ActionStakes, ConsentDecision};
use automation::events::AutomationEventPayload;
use automation::execution::{
    attempt_verdict, input_command_for, retry_delay_ms, step_gate, step_limits, workflow_finished_event,
    workflow_tally, AttemptVerdict, InputCommand, Modifier, MouseButton, ScreenPoint, StepOutcome,
};
use automation::history::ExecutionStatus;

#[test]
fn test_action_kind_names() {
    assert_eq!(action_kind_name(&ActionType::Wait { duration_ms: 5 }), "wait");
    assert_eq!(action_kind_name(&ActionType::ClickScreenText { text: "OK".to_string() }), "click_screen_text");
    assert_eq!(
        action_kind_name(&ActionType::PluginInvocation {
            plugin_id: "p".to_string(),
            method: "m".to_string(),
            parameters: vec![],
        }),
        "plugin"
    );
}

#[test]
fn test_named_executor_for() {
    assert_eq!(named_executor_for("click_screen_element"), "click");
    assert_eq!(named_executor_for("click_screen_text"), "click");
    assert_eq!(named_executor_for("type_into_screen_element"), "type");
    assert_eq!(named_executor_for("drag_screen_elements"), "drag");
    assert_eq!(named_executor_for("swipe_screen_elements"), "swipe");
    assert_eq!(named_executor_for("speak"), "default");
}

fn injection(kind: &str, params: &[(&str, &str)]) -> InputInjectionParams {
    InputInjectionParams {
        action_type: kind.to_string(),
        params: params.iter().map(|(k, v)| (k.to_string(), v.to_string())).collect(),
    }
}

fn outcome(ok: bool) -> StepOutcome {
    StepOutcome { step_id: "s".to_string(), step_index: 0, success: ok, message: String::new(), data: None }
}

#[test]
fn test_input_click_with_button() {
    let cmd = input_command_for(&injection("click", &[("x", "10"), ("y", "-5"), ("button", "RIGHT"), ("count", "3")]));
    match cmd {
        Ok(InputCommand::Click { point, button, count }) => {
            assert_eq!(point, ScreenPoint { x: 10, y: -5 });
            assert_eq!(button, MouseButton::Right);
            assert_eq!(count, 3);
        }
        other => panic!("unexpected {:?}", other),
    }
}

#[test]
fn test_input_click_defaults() {
    match input_command_for(&injection("click", &[("x", "abc")])) {
        Ok(InputCommand::Click { point, button, count }) => {
            assert_eq!(point, ScreenPoint { x: 0, y: 0 });
            assert_eq!(button, MouseButton::Left);
            assert_eq!(count, 1);
        }
        other => panic!("unexpected {:?}", other),
    }
}

#[test]
fn test_input_key_press_modifiers() {
    match input_command_for(&injection("key_press", &[("key", "c"), ("modifiers", " Ctrl, shift ,cmd,bogus")])) {
        Ok(InputCommand::KeyPress { key, modifiers }) => {
            assert_eq!(key, "c");
            assert_eq!(modifiers, vec![Modifier::Ctrl, Modifier::Shift, Modifier::Meta, Modifier::Ctrl]);
        }
        other => panic!("unexpected {:?}", other),
    }
}

#[test]
fn test_input_hotkey_keys() {
    match input_command_for(&injection("hotkey", &[("keys", "ctrl, alt ,del")])) {
        Ok(InputCommand::Hotkey { keys }) => assert_eq!(keys, vec!["ctrl", "alt", "del"]),
        other => panic!("unexpected {:?}", other),
    }
    match input_command_for(&injection("hotkey", &[])) {
        Ok(InputCommand::Hotkey { keys }) => assert_eq!(keys, vec![""]),
        other => panic!("unexpected {:?}", other),
    }
}

#[test]
fn test_input_swipe_and_wait_defaults() {
    match input_command_for(&injection("swipe", &[("from_x", "1"), ("to_y", "9")])) {
        Ok(InputCommand::Swipe { from, to, duration_ms }) => {
            assert_eq!(from, ScreenPoint { x: 1, y: 0 });
            assert_eq!(to, ScreenPoint { x: 0, y: 9 });
            assert_eq!(duration_ms, 200);
        }
        other => panic!("unexpected {:?}", other),
    }
    match input_command_for(&injection("wait", &[])) {
        Ok(InputCommand::Wait { duration_ms }) => assert_eq!(duration_ms, 1000),
        other => panic!("unexpected {:?}", other),
    }
}

#[test]
fn test_input_navigation_keys() {
    match input_command_for(&injection("home", &[])) {
        Ok(InputCommand::KeyPress { key, modifiers }) => {
            assert_eq!(key, "home");
            assert!(modifiers.is_empty());
        }
        other => panic!("unexpected {:?}", other),
    }
}

#[test]
fn test_input_unsupported() {
    match input_command_for(&injection("teleport", &[])) {
        Err(m) => assert_eq!(m, "unsupported input action: teleport"),
        other => panic!("unexpected {:?}", other),
    }
}

#[test]
fn test_step_limits_and_delay() {
    let l = step_limits(1, 3, 0, 30000);
    assert_eq!(l.max_retries, 3);
    assert_eq!(l.timeout_ms, 30000);
    let l2 = step_limits(4, 2, 500, 30000);
    assert_eq!(l2.max_retries, 4);
    assert_eq!(l2.timeout_ms, 500);
    assert_eq!(retry_delay_ms(100, 1), 200);
    assert_eq!(retry_delay_ms(100, 3), 800);
    assert_eq!(retry_delay_ms(100, 9), 3200);
    assert_eq!(retry_delay_ms(1000, 5), 10000);
}

#[test]
fn test_step_gate_condition_and_consent() {
    let skipped = step_gate("s1", 2, Some(&ConditionResult::not_matched("x is 1".to_string())), None);
    let (o, e) = skipped.unwrap();
    assert!(o.success);
    assert_eq!(o.message, "condition not met: x is 1");
    assert!(e.is_none());

    let blocked = ConsentDecision::Blocked { reason: "no".to_string() };
    let (o, e) = step_gate("s1", 2, Some(&ConditionResult::matched("ok".to_string())), Some(&blocked)).unwrap();
    assert!(!o.success);
    assert_eq!(o.message, "blocked by consent: no");
    assert_eq!(e.unwrap(), "step 2 blocked by consent: no");

    let prompt = ConsentDecision::RequiresPrompt { stakes: ActionStakes::High, description: "send".to_string() };
    let (_, e) = step_gate("s1", 0, None, Some(&prompt)).unwrap();
    assert_eq!(e.unwrap(), "step 0 requires user consent: send");

    assert!(step_gate("s1", 0, None, Some(&ConsentDecision::Allowed)).is_none());
    assert!(step_gate("s1", 0, None, None).is_none());
}

#[test]
fn test_attempt_verdicts() {
    let limits = step_limits(2, 0, 100, 0);
    match attempt_verdict("s", 1, 1, limits, ActionResult::success("done".to_string())) {
        AttemptVerdict::Done(o) => assert_eq!(o.message, "done (retry 1)"),
        other => panic!("unexpected {:?}", other),
    }
    assert!(matches!(
        attempt_verdict("s", 1, 0, limits, ActionResult::failure("boom".to_string())),
        AttemptVerdict::Retry
    ));
    match attempt_verdict("s", 1, 0, limits, ActionResult::failure("request timed out".to_string())) {
        AttemptVerdict::Failed { outcome, error } => {
            assert_eq!(outcome.message, "failed after 2 retries: request timed out");
            assert_eq!(error, "step 1 failed after 2 retries within 100ms: request timed out");
        }
        other => panic!("unexpected {:?}", other),
    }
    assert!(matches!(
        attempt_verdict("s", 1, 2, limits, ActionResult::failure("boom".to_string())),
        AttemptVerdict::Failed { .. }
    ));
}

#[test]
fn test_workflow_tally_and_event() {
    let outs = vec![outcome(true), outcome(false), outcome(true)];
    assert_eq!(workflow_tally(&outs), (2, 1, ExecutionStatus::Partial));
    assert_eq!(workflow_tally(&[]), (0, 0, ExecutionStatus::Completed));
    assert_eq!(workflow_tally(&[outcome(false)]), (0, 1, ExecutionStatus::Failed));
    match workflow_finished_event("w", "e", 0, 2, 10) {
        AutomationEventPayload::WorkflowFailed { error, .. } => assert_eq!(error, "2 steps failed"),
        other => panic!("unexpected {:?}", other),
    }
    match workflow_finished_event("w", "e", 1, 2, 10) {
        AutomationEventPayload::WorkflowCompleted { steps_succeeded, steps_failed, duration_ms, .. } => {
            assert_eq!((steps_succeeded, steps_failed, duration_ms), (1, 2, 10));
        }
        other => panic!("unexpected {:?}", other),
    }
}
