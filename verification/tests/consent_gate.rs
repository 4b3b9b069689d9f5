use automation::action::{ActionType, DeviceControl, InputInjectionParams};
use automation::consent_gate::{
    decide_consent, ActionClassifier, ActionStakes, ConsentDecision, ConsentResolution,
    Reversibility,
};

#[test]
fn test_conservative_blocks_everything_by_default() {
    let action = ActionType::Speak { text: "hi".into() };
    let decision = decide_consent(ConsentResolution::RequiresPrompt, &action, "conservative");
    match decision {
        ConsentDecision::RequiresPrompt { .. } => {}
        other => panic!("expected RequiresPrompt, got {other:?}"),
    }
}

#[test]
fn test_autonomous_allows_low_stakes() {
    let action = ActionType::Speak { text: "hi".into() };
    let decision = decide_consent(ConsentResolution::RequiresPrompt, &action, "autonomous");
    assert!(matches!(decision, ConsentDecision::Allowed));
}

#[test]
fn test_autonomous_blocks_high_stakes() {
    let action = ActionType::DeviceControl { control: DeviceControl::LockScreen };
    let decision = decide_consent(ConsentResolution::RequiresPrompt, &action, "autonomous");
    match decision {
        ConsentDecision::RequiresPrompt { stakes: ActionStakes::High, .. } => {}
        other => panic!("expected RequiresPrompt(High), got {other:?}"),
    }
}

#[test]
fn test_moderate_allows_low_reversible() {
    let action = ActionType::Wait { duration_ms: 100 };
    let decision = decide_consent(ConsentResolution::RequiresPrompt, &action, "moderate");
    assert!(matches!(decision, ConsentDecision::Allowed));
}

#[test]
fn test_granted_action_is_allowed() {
    let action = ActionType::InputInjection(InputInjectionParams {
        action_type: "click".into(),
        params: Vec::new(),
    });
    let decision = decide_consent(ConsentResolution::Granted, &action, "conservative");
    assert!(matches!(decision, ConsentDecision::Allowed));
}

#[test]
fn test_classifier_low_stakes() {
    let c = ActionClassifier::classify(&ActionType::Speak { text: "hello".into() });
    assert_eq!(c.stakes, ActionStakes::Low);
    assert_eq!(c.reversibility, Reversibility::Reversible);
}

#[test]
fn test_classifier_high_stakes() {
    let c = ActionClassifier::classify(&ActionType::DeviceControl {
        control: DeviceControl::LockScreen,
    });
    assert_eq!(c.stakes, ActionStakes::High);
    assert_eq!(c.reversibility, Reversibility::Irreversible);
}

#[test]
fn test_classifier_screen_actions_high() {
    let c = ActionClassifier::classify(&ActionType::ClickScreenElement { query: "btn".into() });
    assert_eq!(c.stakes, ActionStakes::High);
    assert_eq!(c.reversibility, Reversibility::Irreversible);
}

#[test]
fn consent_denied_is_blocked() {
    let action = ActionType::Speak { text: "hi".into() };
    match decide_consent(ConsentResolution::Denied, &action, "autonomous") {
        ConsentDecision::Blocked { reason } => assert_eq!(reason, "user has denied this type of action"),
        other => panic!("expected Blocked, got {other:?}"),
    }
}

#[test]
fn consent_prompt_names_stakes_and_description() {
    let action = ActionType::OpenApp { app_id: "calc".into(), data: None };
    match decide_consent(ConsentResolution::RequiresPrompt, &action, "moderate") {
        ConsentDecision::RequiresPrompt { stakes, description } => {
            assert_eq!(stakes, ActionStakes::Medium);
            assert_eq!(description, "open application");
        }
        other => panic!("expected RequiresPrompt, got {other:?}"),
    }
    assert!(matches!(
        decide_consent(ConsentResolution::RequiresPrompt, &action, "autonomous"),
        ConsentDecision::Allowed
    ));
}
