use automation::feedback_generator::{
    FeedbackConfig, FeedbackContext, FeedbackEvent, FeedbackGenerator, FeedbackLevel, FeedbackStyle,
};

fn make_generator() -> FeedbackGenerator {
    FeedbackGenerator::new()
}

fn make_config() -> FeedbackConfig {
    FeedbackConfig {
        default_style: FeedbackStyle::Normal,
        enable_emoji: true,
        show_timestamps: true,
        max_history: 50,
        structured_summary: true,
    }
}

fn completed(id: &str, goal: &str, ok: usize, bad: usize, ms: u64, secs: &str) -> FeedbackEvent {
    FeedbackEvent::ExecutionCompleted {
        execution_id: id.to_string(),
        goal: goal.to_string(),
        steps_succeeded: ok,
        steps_failed: bad,
        duration_ms: ms,
        elapsed_seconds: secs.to_string(),
    }
}

#[test]
fn test_level_labels() {
    assert_eq!(FeedbackLevel::Debug.label(), "DEBUG");
    assert_eq!(FeedbackLevel::Info.label(), "INFO");
    assert_eq!(FeedbackLevel::Success.label(), "SUCCESS");
    assert_eq!(FeedbackLevel::Warning.label(), "WARNING");
    assert_eq!(FeedbackLevel::Error.label(), "ERROR");
}

#[test]
fn test_level_emoji() {
    assert!(!FeedbackLevel::Debug.emoji().is_empty());
    assert!(!FeedbackLevel::Info.emoji().is_empty());
    assert!(!FeedbackLevel::Success.emoji().is_empty());
    assert!(!FeedbackLevel::Warning.emoji().is_empty());
    assert!(!FeedbackLevel::Error.emoji().is_empty());
}

#[test]
fn test_config_default() {
    let cfg = FeedbackConfig::default();
    assert_eq!(cfg.default_style, FeedbackStyle::Normal);
    assert!(cfg.enable_emoji);
    assert_eq!(cfg.max_history, 100);
}

#[test]
fn test_feedback_context_default() {
    let ctx = FeedbackContext::default();
    assert!(ctx.execution_id.is_none());
    assert_eq!(ctx.total_steps, 0);
}

#[test]
fn test_generator_create() {
    let gen = make_generator();
    assert_eq!(gen.metrics().counts().total_messages, 0);
}

#[test]
fn test_generator_with_config() {
    let cfg = make_config();
    let gen = FeedbackGenerator::with_config(cfg);
    let retrieved = gen.config();
    assert_eq!(retrieved.default_style, cfg.default_style);
    assert_eq!(retrieved.max_history, cfg.max_history);
}

#[test]
fn test_set_config() {
    let mut gen = make_generator();
    let mut cfg = make_config();
    cfg.enable_emoji = false;
    gen.set_config(cfg);
    assert_eq!(gen.config().enable_emoji, false);
}

#[test]
fn test_generate_goal_accepted() {
    let mut gen = make_generator();
    let event = FeedbackEvent::GoalAccepted { goal: "open chrome".to_string(), confidence_percent: 95 };
    let msg = gen.generate(&event);
    assert_eq!(msg.level, FeedbackLevel::Info);
    assert_eq!(msg.event, "goal_accepted");
    assert!(msg.message.contains("open chrome"));
    assert!(msg.detail.contains("95%"));
}

#[test]
fn test_generate_planning_started() {
    let mut gen = make_generator();
    let msg = gen.generate(&FeedbackEvent::PlanningStarted { goal: "set brightness to 50".to_string() });
    assert_eq!(msg.level, FeedbackLevel::Info);
    assert_eq!(msg.event, "planning_started");
}

#[test]
fn test_generate_planning_finished_success() {
    let mut gen = make_generator();
    let msg = gen.generate(&FeedbackEvent::PlanningFinished {
        goal: "open chrome".to_string(),
        steps: 3,
        success: true,
    });
    assert_eq!(msg.level, FeedbackLevel::Success);
    assert!(msg.detail.contains("3 step(s)"));
}

#[test]
fn test_generate_planning_finished_warning() {
    let mut gen = make_generator();
    let msg = gen.generate(&FeedbackEvent::PlanningFinished {
        goal: "complex task".to_string(),
        steps: 0,
        success: false,
    });
    assert_eq!(msg.level, FeedbackLevel::Warning);
}

#[test]
fn test_generate_execution_started() {
    let mut gen = make_generator();
    let msg = gen.generate(&FeedbackEvent::ExecutionStarted {
        execution_id: "exec-1".to_string(),
        goal: "open chrome".to_string(),
        total_steps: 5,
    });
    assert_eq!(msg.level, FeedbackLevel::Info);
    assert_eq!(msg.event, "execution_started");
    assert!(msg.message.contains("exec-1"));
}

#[test]
fn test_generate_step_started() {
    let mut gen = make_generator();
    let msg = gen.generate(&FeedbackEvent::StepStarted {
        execution_id: "exec-1".to_string(),
        goal: "open chrome".to_string(),
        step: "launch browser".to_string(),
        index: 0,
        total: 3,
    });
    assert_eq!(msg.level, FeedbackLevel::Debug);
    assert!(msg.message.contains("Step 1/3"));
}

#[test]
fn test_generate_step_completed_success() {
    let mut gen = make_generator();
    let msg = gen.generate(&FeedbackEvent::StepCompleted {
        execution_id: "exec-1".to_string(),
        goal: "open chrome".to_string(),
        step: "launch browser".to_string(),
        index: 0,
        total: 3,
        success: true,
    });
    assert_eq!(msg.level, FeedbackLevel::Success);
}

#[test]
fn test_generate_step_completed_failed() {
    let mut gen = make_generator();
    let msg = gen.generate(&FeedbackEvent::StepCompleted {
        execution_id: "exec-1".to_string(),
        goal: "open chrome".to_string(),
        step: "launch browser".to_string(),
        index: 0,
        total: 3,
        success: false,
    });
    assert_eq!(msg.level, FeedbackLevel::Error);
}

#[test]
fn test_generate_verification_passed() {
    let mut gen = make_generator();
    let msg = gen.generate(&FeedbackEvent::VerificationPassed {
        execution_id: "exec-1".to_string(),
        details: "brightness set to 50".to_string(),
    });
    assert_eq!(msg.level, FeedbackLevel::Success);
    assert_eq!(msg.event, "verification_passed");
}

#[test]
fn test_generate_verification_failed() {
    let mut gen = make_generator();
    let msg = gen.generate(&FeedbackEvent::VerificationFailed {
        execution_id: "exec-1".to_string(),
        details: "brightness mismatch".to_string(),
        expected: "50".to_string(),
        actual: "75".to_string(),
    });
    assert_eq!(msg.level, FeedbackLevel::Error);
    assert!(msg.detail.contains("Expected: 50"));
    assert!(msg.detail.contains("Actual: 75"));
}

#[test]
fn test_generate_recovery_started() {
    let mut gen = make_generator();
    let msg = gen.generate(&FeedbackEvent::RecoveryStarted {
        execution_id: "exec-1".to_string(),
        reason: "step failed".to_string(),
        attempt: 1,
    });
    assert_eq!(msg.level, FeedbackLevel::Warning);
    assert!(msg.message.contains("attempt #1"));
}

#[test]
fn test_generate_recovery_completed_success() {
    let mut gen = make_generator();
    let msg = gen.generate(&FeedbackEvent::RecoveryCompleted {
        execution_id: "exec-1".to_string(),
        success: true,
        result: "recovered by retry".to_string(),
    });
    assert_eq!(msg.level, FeedbackLevel::Success);
}

#[test]
fn test_generate_recovery_completed_failed() {
    let mut gen = make_generator();
    let msg = gen.generate(&FeedbackEvent::RecoveryCompleted {
        execution_id: "exec-1".to_string(),
        success: false,
        result: "all retries exhausted".to_string(),
    });
    assert_eq!(msg.level, FeedbackLevel::Error);
}

#[test]
fn test_generate_execution_completed() {
    let mut gen = make_generator();
    let msg = gen.generate(&completed("exec-1", "open chrome", 3, 0, 1500, "1.5"));
    assert_eq!(msg.level, FeedbackLevel::Success);
    assert!(msg.detail.contains("3 succeeded"));
    assert!(msg.detail.contains("0 failed"));
    assert_eq!(msg.detail, "3 succeeded, 0 failed, 1.5s elapsed");
}

#[test]
fn test_generate_execution_cancelled() {
    let mut gen = make_generator();
    let msg = gen.generate(&FeedbackEvent::ExecutionCancelled {
        execution_id: "exec-1".to_string(),
        goal: "open chrome".to_string(),
        reason: "user requested".to_string(),
        steps_completed: 2,
    });
    assert_eq!(msg.level, FeedbackLevel::Warning);
    assert!(msg.detail.contains("user requested"));
}

#[test]
fn test_generate_execution_failed() {
    let mut gen = make_generator();
    let msg = gen.generate(&FeedbackEvent::ExecutionFailed {
        execution_id: "exec-1".to_string(),
        goal: "open chrome".to_string(),
        error: "app not found".to_string(),
        steps_succeeded: 1,
        steps_failed: 2,
    });
    assert_eq!(msg.level, FeedbackLevel::Error);
    assert!(msg.detail.contains("app not found"));
}

#[test]
fn test_generate_summary_completed() {
    let gen = make_generator();
    let summary = gen.generate_summary("exec-1", "open chrome", "completed", 5, 5, 0, 2000);
    assert_eq!(summary.level, FeedbackLevel::Success);
    assert!(summary.is_success());
}

#[test]
fn test_generate_summary_cancelled() {
    let gen = make_generator();
    let summary = gen.generate_summary("exec-1", "open chrome", "cancelled", 5, 3, 2, 1000);
    assert_eq!(summary.level, FeedbackLevel::Warning);
    assert!(!summary.is_success());
}

#[test]
fn test_generate_summary_failed() {
    let gen = make_generator();
    let summary = gen.generate_summary("exec-1", "open chrome", "failed", 5, 1, 4, 3000);
    assert_eq!(summary.level, FeedbackLevel::Error);
    assert_eq!(summary.steps_succeeded, 1);
    assert_eq!(summary.steps_failed, 4);
}

#[test]
fn test_generate_completion_helper() {
    let mut gen = make_generator();
    let msg = gen.generate_completion("exec-1", "open chrome", 3, 0, 1000, "1.0");
    assert_eq!(msg.level, FeedbackLevel::Success);
    assert_eq!(msg.event, "execution_completed");
}

#[test]
fn test_generate_failure_helper() {
    let mut gen = make_generator();
    let msg = gen.generate_failure("exec-1", "open chrome", "app not found", 1, 2);
    assert_eq!(msg.level, FeedbackLevel::Error);
    assert_eq!(msg.event, "execution_failed");
}

#[test]
fn test_generate_recovery_helper() {
    let mut gen = make_generator();
    let msg = gen.generate_recovery("exec-1", "step failed", 2);
    assert_eq!(msg.level, FeedbackLevel::Warning);
    assert!(msg.message.contains("attempt #2"));
}

#[test]
fn test_format_plain_concise() {
    let mut gen = make_generator();
    let mut cfg = gen.config();
    cfg.default_style = FeedbackStyle::Concise;
    cfg.enable_emoji = false;
    cfg.show_timestamps = false;
    gen.set_config(cfg);
    let msg = gen.generate(&FeedbackEvent::GoalAccepted { goal: "test".to_string(), confidence_percent: 100 });
    let plain = gen.format_plain(&msg);
    assert!(plain.contains("Goal accepted"));
}

#[test]
fn test_format_plain_normal() {
    let mut gen = make_generator();
    let mut cfg = gen.config();
    cfg.default_style = FeedbackStyle::Normal;
    cfg.enable_emoji = false;
    cfg.show_timestamps = false;
    gen.set_config(cfg);
    let msg = gen.generate(&completed("e1", "test", 1, 0, 100, "0.1"));
    let plain = gen.format_plain(&msg);
    assert!(plain.contains("[SUCCESS]"));
}

#[test]
fn test_format_plain_detailed() {
    let mut gen = make_generator();
    let mut cfg = gen.config();
    cfg.default_style = FeedbackStyle::Detailed;
    cfg.enable_emoji = false;
    cfg.show_timestamps = false;
    gen.set_config(cfg);
    let msg = gen.generate(&FeedbackEvent::VerificationFailed {
        execution_id: "e1".to_string(),
        details: "mismatch".to_string(),
        expected: "50".to_string(),
        actual: "75".to_string(),
    });
    let plain = gen.format_plain(&msg);
    assert!(plain.contains("→"));
    assert!(plain.contains("Expected: 50"));
}

#[test]
fn test_format_markdown() {
    let mut gen = make_generator();
    let msg = gen.generate(&completed("e1", "test", 2, 0, 500, "0.5"));
    let md = gen.format_markdown(&msg);
    assert!(md.contains("`SUCCESS`") || md.contains("✅"));
}

#[test]
fn test_format_plain_with_emoji() {
    let mut gen = make_generator();
    let mut cfg = gen.config();
    cfg.enable_emoji = true;
    cfg.show_timestamps = false;
    gen.set_config(cfg);
    let msg = gen.generate(&FeedbackEvent::GoalAccepted { goal: "test".to_string(), confidence_percent: 100 });
    let plain = gen.format_plain(&msg);
    assert!(
        plain.contains("🔍")
            || plain.contains("ℹ️")
            || plain.contains("✅")
            || plain.contains("⚠️")
            || plain.contains("❌")
    );
}

#[test]
fn test_format_plain_with_timestamp() {
    let mut gen = make_generator();
    let mut cfg = gen.config();
    cfg.show_timestamps = true;
    cfg.enable_emoji = false;
    gen.set_config(cfg);
    let msg = gen.generate(&FeedbackEvent::GoalAccepted { goal: "test".to_string(), confidence_percent: 100 });
    let plain = gen.format_plain(&msg);
    assert!(plain.contains('['));
    assert!(plain.contains(']'));
}

#[test]
fn test_metrics_after_generation() {
    let mut gen = make_generator();
    gen.generate(&FeedbackEvent::GoalAccepted { goal: "test".to_string(), confidence_percent: 80 });
    let c = gen.metrics().counts();
    assert_eq!(c.total_messages, 1);
    assert_eq!(c.info_count, 1);
}

#[test]
fn test_metrics_multiple_generations() {
    let mut gen = make_generator();
    gen.generate(&FeedbackEvent::PlanningStarted { goal: "a".to_string() });
    gen.generate(&completed("e1", "a", 1, 0, 100, "0.1"));
    gen.generate(&FeedbackEvent::ExecutionFailed {
        execution_id: "e2".to_string(),
        goal: "b".to_string(),
        error: "err".to_string(),
        steps_succeeded: 0,
        steps_failed: 1,
    });
    assert_eq!(gen.metrics().counts().total_messages, 3);
}

#[test]
fn test_metrics_event_counts() {
    let mut gen = make_generator();
    gen.generate(&completed("e1", "a", 1, 0, 100, "0.1"));
    gen.generate(&FeedbackEvent::ExecutionFailed {
        execution_id: "e2".to_string(),
        goal: "b".to_string(),
        error: "err".to_string(),
        steps_succeeded: 0,
        steps_failed: 1,
    });
    gen.generate(&FeedbackEvent::RecoveryStarted {
        execution_id: "e2".to_string(),
        reason: "err".to_string(),
        attempt: 1,
    });
    let c = gen.metrics().counts();
    assert_eq!(c.success_events, 1);
    assert_eq!(c.failure_events, 2);
}

#[test]
fn test_history_tracking() {
    let mut gen = make_generator();
    gen.generate(&FeedbackEvent::GoalAccepted { goal: "g1".to_string(), confidence_percent: 90 });
    gen.generate(&FeedbackEvent::PlanningStarted { goal: "g1".to_string() });
    assert_eq!(gen.history().len(), 2);
}

#[test]
fn test_clear_history() {
    let mut gen = make_generator();
    gen.generate(&FeedbackEvent::GoalAccepted { goal: "g1".to_string(), confidence_percent: 90 });
    assert_eq!(gen.history().len(), 1);
    gen.clear_history();
    assert_eq!(gen.history().len(), 0);
}

#[test]
fn test_history_max_entries() {
    let mut cfg = FeedbackConfig::default();
    cfg.max_history = 3;
    let mut gen = FeedbackGenerator::with_config(cfg);
    for i in 0..10 {
        gen.generate(&FeedbackEvent::GoalAccepted { goal: format!("g{}", i), confidence_percent: 50 });
    }
    assert_eq!(gen.history().len(), 3);
    assert!(gen.history()[2].message.contains("g9"));
    assert!(gen.history()[0].message.contains("g7"));
}

#[test]
fn test_summary_counts_history() {
    let mut gen = make_generator();
    gen.generate(&FeedbackEvent::PlanningStarted { goal: "a".to_string() });
    gen.generate(&FeedbackEvent::PlanningStarted { goal: "b".to_string() });
    let s = gen.generate_summary("e1", "test", "completed", 10, 7, 3, 1000);
    assert_eq!(s.feedback_count, 2);
    assert_eq!(s.messages.len(), 2);
    assert!(!s.is_success());
    let s2 = gen.generate_summary("e2", "test", "completed", 10, 10, 0, 1000);
    assert!(s2.is_success());
}

#[test]
fn test_average_generation_time_without_messages() {
    let gen = make_generator();
    assert_eq!(gen.metrics().average_generation_time_ms(), 0);
}

#[test]
fn test_generate_all_event_types() {
    let mut gen = make_generator();
    let events: Vec<FeedbackEvent> = vec![
        FeedbackEvent::GoalAccepted { goal: "g".into(), confidence_percent: 100 },
        FeedbackEvent::PlanningStarted { goal: "g".into() },
        FeedbackEvent::PlanningFinished { goal: "g".into(), steps: 3, success: true },
        FeedbackEvent::ExecutionStarted { execution_id: "e".into(), goal: "g".into(), total_steps: 3 },
        FeedbackEvent::StepStarted { execution_id: "e".into(), goal: "g".into(), step: "s1".into(), index: 0, total: 3 },
        FeedbackEvent::StepCompleted {
            execution_id: "e".into(),
            goal: "g".into(),
            step: "s1".into(),
            index: 0,
            total: 3,
            success: true,
        },
        FeedbackEvent::VerificationPassed { execution_id: "e".into(), details: "ok".into() },
        FeedbackEvent::VerificationFailed {
            execution_id: "e".into(),
            details: "bad".into(),
            expected: "a".into(),
            actual: "b".into(),
        },
        FeedbackEvent::RecoveryStarted { execution_id: "e".into(), reason: "fail".into(), attempt: 1 },
        FeedbackEvent::RecoveryCompleted { execution_id: "e".into(), success: true, result: "ok".into() },
        completed("e", "g", 3, 0, 100, "0.1"),
        FeedbackEvent::ExecutionCancelled {
            execution_id: "e".into(),
            goal: "g".into(),
            reason: "manual".into(),
            steps_completed: 1,
        },
        FeedbackEvent::ExecutionFailed {
            execution_id: "e".into(),
            goal: "g".into(),
            error: "err".into(),
            steps_succeeded: 1,
            steps_failed: 2,
        },
    ];
    for event in &events {
        let msg = gen.generate(event);
        assert!(!msg.message.is_empty());
    }
    assert_eq!(gen.metrics().counts().total_messages, events.len() as u64);
}

#[test]
fn test_message_timestamp() {
    let mut gen = make_generator();
    let msg = gen.generate(&FeedbackEvent::GoalAccepted { goal: "g".into(), confidence_percent: 50 });
    assert!(msg.timestamp_ms > 0);
}

#[test]
fn test_style_default() {
    let gen = make_generator();
    assert_eq!(gen.config().default_style, FeedbackStyle::Normal);
}

#[test]
fn test_generate_counts_the_message() {
    let mut gen = make_generator();
    let ok = FeedbackEvent::GoalAccepted { goal: "open chrome".to_string(), confidence_percent: 95 };
    gen.generate(&ok);
    gen.generate(&ok);
    let c = gen.metrics().counts();
    assert_eq!(c.total_messages, 2);
    assert_eq!(c.generation_count, 2);
    assert_eq!(c.info_count, 2);
    assert_eq!(c.success_events, 2);
    assert_eq!(c.failure_events, 0);
}
