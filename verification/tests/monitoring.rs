use automation::monitoring::{format_duration, format_secs, health_from, RuntimeHealth, RuntimeMonitor};
use std::time::Duration;

#[test]
fn test_runtime_health_display() {
    assert_eq!(RuntimeHealth::Healthy.display_text(), "healthy");
    assert_eq!(RuntimeHealth::Degraded.display_text(), "degraded");
    assert_eq!(RuntimeHealth::Busy.display_text(), "busy");
    assert_eq!(RuntimeHealth::Recovering.display_text(), "recovering");
    assert_eq!(RuntimeHealth::Failed.display_text(), "failed");
}

#[test]
fn test_runtime_monitor_new() {
    let m = RuntimeMonitor::new();
    assert_eq!(m.total_sessions_created(), 0);
    assert_eq!(m.total_errors(), 0);
    assert_eq!(m.total_events_published(), 0);
}

#[test]
fn test_runtime_monitor_record_session() {
    let mut m = RuntimeMonitor::new();
    m.record_session_created();
    assert_eq!(m.total_sessions_created(), 1);
    m.record_session_created();
    assert_eq!(m.total_sessions_created(), 2);
}

#[test]
fn test_runtime_monitor_record_error() {
    let mut m = RuntimeMonitor::new();
    m.record_error();
    assert_eq!(m.total_errors(), 1);
}

#[test]
fn test_runtime_monitor_record_event() {
    let mut m = RuntimeMonitor::new();
    m.record_event("SessionCreated");
    m.record_event("SessionCreated");
    m.record_event("RuntimeStarted");
    assert_eq!(m.total_events_published(), 3);
    let counts = m.event_counts();
    assert_eq!(counts.total_events_published, 3);
    assert!(counts.events_by_type.len() >= 2);
}

#[test]
fn test_runtime_monitor_event_counts_empty() {
    let m = RuntimeMonitor::new();
    let counts = m.event_counts();
    assert_eq!(counts.total_events_published, 0);
    assert!(counts.events_by_type.is_empty());
}

#[test]
fn test_runtime_monitor_event_counts_ordering() {
    let mut m = RuntimeMonitor::new();
    m.record_event("A");
    m.record_event("A");
    m.record_event("B");
    let counts = m.event_counts();
    assert_eq!(counts.events_by_type[0].1, 2);
}

#[test]
fn test_format_duration_seconds() {
    assert_eq!(format_duration(&Duration::from_secs(30)), "30s");
}

#[test]
fn test_format_duration_minutes() {
    assert_eq!(format_duration(&Duration::from_secs(125)), "2m 5s");
}

#[test]
fn test_format_duration_hours() {
    assert_eq!(format_duration(&Duration::from_secs(3725)), "1h 2m 5s");
}

#[test]
fn test_format_duration_zero() {
    assert_eq!(format_duration(&Duration::from_secs(0)), "0s");
}

#[test]
fn test_runtime_monitor_default() {
    let m = RuntimeMonitor::default();
    assert_eq!(m.total_sessions_created(), 0);
}

#[test]
fn test_health_ladder() {
    assert_eq!(health_from(1, 0, false, false), RuntimeHealth::Healthy);
    assert_eq!(health_from(25, 0, false, false), RuntimeHealth::Busy);
    assert_eq!(health_from(1, 60, false, false), RuntimeHealth::Degraded);
    assert_eq!(health_from(1, 150, false, false), RuntimeHealth::Failed);
    assert_eq!(health_from(1, 0, true, false), RuntimeHealth::Degraded);
    assert_eq!(health_from(1, 0, false, true), RuntimeHealth::Degraded);
    assert_eq!(health_from(21, 0, true, false), RuntimeHealth::Busy);
}

#[test]
fn test_health_boundaries() {
    assert_eq!(health_from(20, 50, false, false), RuntimeHealth::Healthy);
    assert_eq!(health_from(0, 51, false, false), RuntimeHealth::Degraded);
    assert_eq!(health_from(0, 100, false, false), RuntimeHealth::Degraded);
    assert_eq!(health_from(0, 101, false, false), RuntimeHealth::Failed);
}

#[test]
fn test_format_secs_exact() {
    assert_eq!(format_secs(59), "59s");
    assert_eq!(format_secs(60), "1m 0s");
    assert_eq!(format_secs(3600), "1h 0m 0s");
}

#[test]
fn test_event_counts_sorted_desc() {
    let mut m = RuntimeMonitor::new();
    m.record_event("X");
    m.record_event("Y");
    m.record_event("Y");
    m.record_event("Z");
    m.record_event("Z");
    m.record_event("Z");
    let counts = m.event_counts();
    assert_eq!(counts.events_by_type[0], ("Z".to_string(), 3));
    assert_eq!(counts.events_by_type[1], ("Y".to_string(), 2));
    assert_eq!(counts.events_by_type[2], ("X".to_string(), 1));
}

#[test]
fn test_event_counts_add_up_to_total() {
    let mut m = RuntimeMonitor::new();
    for name in ["A", "B", "A", "C", "A"] {
        m.record_event(name);
    }
    let c = m.event_counts();
    let sum: u64 = c.events_by_type.iter().map(|(_, n)| *n).sum();
    assert_eq!(sum, c.total_events_published);
    assert_eq!(c.total_events_published, 5);
}

#[test]
fn test_event_counts_names_distinct() {
    let mut m = RuntimeMonitor::new();
    for name in ["X", "Y", "X", "Y", "Z", "X"] {
        m.record_event(name);
    }
    let c = m.event_counts();
    for i in 0..c.events_by_type.len() {
        for j in (i + 1)..c.events_by_type.len() {
            assert_ne!(c.events_by_type[i].0, c.events_by_type[j].0);
        }
    }
    assert_eq!(c.events_by_type[0], ("X".to_string(), 3));
}
