use automation::action::{
    ActionExecutor, ActionResult, ActionType, ClipboardAction, DefaultActionExecutor,
    DeviceControl, InputInjectionParams, NotifyPriority,
};

#[test]
fn test_default_executor_all_types() {
    let executor = DefaultActionExecutor;
    let actions = vec![
        ActionType::Speak { text: "hello".into() },
        ActionType::Notify {
            title: "Test".into(),
            body: "body".into(),
            priority: NotifyPriority::Normal,
        },
        ActionType::OpenApp { app_id: "calc".into(), data: None },
        ActionType::LaunchActivity {
            package: "com.test".into(),
            activity: ".Main".into(),
            data: None,
        },
        ActionType::Clipboard { action: ClipboardAction::Copy, text: Some("data".into()) },
        ActionType::CreateMemory {
            title: "t".into(),
            content: "c".into(),
            category: "general".into(),
            tags: vec![],
            importance: 5,
        },
        ActionType::SearchMemory { query: "q".into(), max_results: 5 },
        ActionType::RunAI { prompt: "p".into(), session_id: None },
        ActionType::CaptureVoice { duration_secs: Some(10) },
        ActionType::AnalyzeImage {
            image_path: "/img.jpg".into(),
            analysis_type: "general".into(),
        },
        ActionType::DeviceControl { control: DeviceControl::SetBrightness(50) },
        ActionType::PluginInvocation {
            plugin_id: "p".into(),
            method: "exec".into(),
            parameters: Vec::new(),
        },
        ActionType::Wait { duration_ms: 1 },
        ActionType::SubWorkflow { workflow_id: "sub1".into() },
    ];
    for action in &actions {
        let result = executor.execute(action);
        assert!(result.success, "Action {:?} should succeed", action);
    }
}

#[test]
fn test_action_result_success() {
    let r = ActionResult::success("ok".to_string());
    assert!(r.success);
    assert_eq!(r.message, "ok");
}

#[test]
fn test_action_result_failure() {
    let r = ActionResult::failure("fail".to_string());
    assert!(!r.success);
    assert_eq!(r.message, "fail");
}

#[test]
fn action_default_executor_messages() {
    let executor = DefaultActionExecutor;
    let r = executor.execute(&ActionType::Speak { text: "hi".into() });
    assert_eq!(r.message, "speak: hi");
    let r = executor.execute(&ActionType::ClickScreenElement { query: "OK".into() });
    assert!(!r.success);
    assert_eq!(executor.kind(), "default");
}

#[test]
fn action_input_params_parse_numbers() {
    let p = InputInjectionParams {
        action_type: "click".into(),
        params: vec![
            ("x".to_string(), "-42".to_string()),
            ("y".to_string(), "+7".to_string()),
            ("bad".to_string(), "12a".to_string()),
            ("big".to_string(), "99999999999".to_string()),
        ],
    };
    assert_eq!(p.get_i32("x", 0), -42);
    assert_eq!(p.get_i32("y", 0), 7);
    assert_eq!(p.get_i32("bad", 5), 5);
    assert_eq!(p.get_i32("big", 5), 5);
    assert_eq!(p.get_u64("big", 0), 99_999_999_999);
    assert_eq!(p.get_u64("x", 3), 3);
    assert_eq!(p.get_u64("missing", 9), 9);
}
