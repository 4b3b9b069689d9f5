use automation::action::{ActionType, DeviceControl};
use automation::execution_plan_adapter::{ExecutionPlanAdapter, Precondition};
use automation::planner::ExecutionStep;

fn make_sample_step(id: &str, action: ActionType, retry_count: u32) -> ExecutionStep {
    ExecutionStep {
        id: id.to_string(),
        description: format!("step {}", id),
        action,
        dependencies: vec![],
        required_capabilities: vec![],
        timeout_ms: 5000,
        retry_count,
        continue_on_failure: false,
    }
}

#[test]
fn test_adapter_device_control_preconditions() {
    let step = make_sample_step(
        "bright",
        ActionType::DeviceControl { control: DeviceControl::SetBrightness(75) },
        1,
    );
    let preconditions = ExecutionPlanAdapter::derive_preconditions(&step);
    assert!(preconditions.iter().any(|p| matches!(
        p,
        Precondition::DeviceState { field, expected }
            if field == "brightness" && expected == "75"
    )));

    let step = make_sample_step(
        "wifi_on",
        ActionType::DeviceControl { control: DeviceControl::ToggleWiFi(true) },
        0,
    );
    let preconditions = ExecutionPlanAdapter::derive_preconditions(&step);
    assert!(preconditions.iter().any(|p| matches!(
        p,
        Precondition::DeviceState { field, expected }
            if field == "wifi" && expected == "enabled"
    )));

    let step = make_sample_step(
        "wifi_off",
        ActionType::DeviceControl { control: DeviceControl::ToggleWiFi(false) },
        0,
    );
    let preconditions = ExecutionPlanAdapter::derive_preconditions(&step);
    assert!(preconditions.iter().any(|p| matches!(
        p,
        Precondition::DeviceState { field, expected }
            if field == "wifi" && expected == "disabled"
    )));
}

#[test]
fn test_adapter_open_app_precondition() {
    let step = make_sample_step(
        "open_calc",
        ActionType::OpenApp { app_id: "calculator".to_string(), data: None },
        1,
    );
    let preconditions = ExecutionPlanAdapter::derive_preconditions(&step);
    assert!(preconditions.iter().any(|p| matches!(
        p,
        Precondition::AppNotRunning(app) if app == "calculator"
    )));
}

#[test]
fn test_adapter_launch_activity_precondition() {
    let step = make_sample_step(
        "launch",
        ActionType::LaunchActivity {
            package: "com.example".to_string(),
            activity: ".Main".to_string(),
            data: None,
        },
        0,
    );
    let preconditions = ExecutionPlanAdapter::derive_preconditions(&step);
    assert!(preconditions.iter().any(|p| matches!(
        p,
        Precondition::AppNotRunning(app) if app == "com.example"
    )));
}

#[test]
fn adapter_screen_and_other_preconditions() {
    let step = make_sample_step("click", ActionType::ClickScreenElement { query: "OK".into() }, 0);
    let p = ExecutionPlanAdapter::derive_preconditions(&step);
    assert_eq!(p.len(), 1);
    assert!(matches!(&p[0], Precondition::ScreenContains(q) if q == "OK"));

    let step = make_sample_step(
        "swipe",
        ActionType::SwipeScreenElements { from_query: "a".into(), to_query: "b".into() },
        0,
    );
    let p = ExecutionPlanAdapter::derive_preconditions(&step);
    assert!(matches!(&p[0], Precondition::ScreenContains(q) if q == "a"));

    let step = make_sample_step("speak", ActionType::Speak { text: "hi".into() }, 0);
    assert!(ExecutionPlanAdapter::derive_preconditions(&step).is_empty());

    let step = make_sample_step("lock", ActionType::DeviceControl { control: DeviceControl::LockScreen }, 0);
    let p = ExecutionPlanAdapter::derive_preconditions(&step);
    assert!(matches!(p[0], Precondition::NoPrecondition));

    let step = make_sample_step(
        "profile",
        ActionType::DeviceControl { control: DeviceControl::SetProfile("work".into()) },
        0,
    );
    let p = ExecutionPlanAdapter::derive_preconditions(&step);
    assert!(matches!(&p[0], Precondition::DeviceState { field, expected } if field == "profile" && expected == "work"));
}
