use automation::config::AutomationConfig;

#[test]
fn test_default_config() {
    let cfg = AutomationConfig::default();
    assert!(cfg.scheduler_tick_ms >= 100);
    assert!(cfg.enable_scheduler);
}

#[test]
fn test_config_clone() {
    let cfg = AutomationConfig::default();
    let cloned = cfg.clone();
    assert_eq!(cfg.scheduler_tick_ms, cloned.scheduler_tick_ms);
}

#[test]
fn config_default_values() {
    let cfg = AutomationConfig::default();
    assert_eq!(cfg.scheduler_tick_ms, 10_000);
    assert_eq!(cfg.default_workflow_timeout_ms, 30_000);
    assert_eq!(cfg.max_retries, 3);
}
