use automation::execution_manager::{
    ExecutionHistory, ExecutionHistoryEntry, ExecutionPolicy, ExecutionPriority, ExecutionQueue,
    ExecutionQueueConfig, ExecutionStatistics, QueuedRequest,
};
use automation::history::ExecutionStatus;
use std::time::Duration;

fn entry(id: &str, status: ExecutionStatus) -> ExecutionHistoryEntry {
    ExecutionHistoryEntry {
        execution_id: id.to_string(),
        goal_id: "g".into(),
        intent: None,
        start_time: 0,
        end_time: None,
        duration: None,
        status,
        failure_reason: None,
        retry_count: 0,
        priority: ExecutionPriority::Normal,
        policy: ExecutionPolicy::Sequential,
    }
}

fn req(id: &str, priority: ExecutionPriority, policy: ExecutionPolicy) -> QueuedRequest {
    QueuedRequest { id: id.to_string(), priority, policy }
}

#[test]
fn execution_manager_test_priority_as_u8() {
    assert_eq!(ExecutionPriority::Immediate.as_u8(), 0);
    assert_eq!(ExecutionPriority::High.as_u8(), 1);
    assert_eq!(ExecutionPriority::Normal.as_u8(), 2);
    assert_eq!(ExecutionPriority::Low.as_u8(), 3);
    assert_eq!(ExecutionPriority::Background.as_u8(), 4);
}

#[test]
fn test_priority_default() {
    assert_eq!(ExecutionPriority::default(), ExecutionPriority::Normal);
}

#[test]
fn test_policy_default() {
    assert_eq!(ExecutionPolicy::default(), ExecutionPolicy::Sequential);
}

#[test]
fn test_status_is_terminal() {
    assert!(ExecutionStatus::Completed.is_terminal());
    assert!(ExecutionStatus::Failed.is_terminal());
    assert!(ExecutionStatus::Cancelled.is_terminal());
    assert!(ExecutionStatus::TimedOut.is_terminal());
    assert!(!ExecutionStatus::Pending.is_terminal());
    assert!(!ExecutionStatus::Running.is_terminal());
}

#[test]
fn test_status_is_active() {
    assert!(ExecutionStatus::Queued.is_active());
    assert!(ExecutionStatus::Running.is_active());
    assert!(ExecutionStatus::Waiting.is_active());
    assert!(ExecutionStatus::Paused.is_active());
    assert!(!ExecutionStatus::Completed.is_active());
    assert!(!ExecutionStatus::Failed.is_active());
}

#[test]
fn test_execution_history_push_and_entries() {
    let mut history = ExecutionHistory::new().with_max_entries(5);
    assert!(history.is_empty());
    for i in 0..3 {
        history.push(ExecutionHistoryEntry {
            execution_id: format!("e{}", i),
            goal_id: format!("g{}", i),
            intent: None,
            start_time: 0,
            end_time: Some(100),
            duration: Some(Duration::from_millis(100)),
            status: ExecutionStatus::Completed,
            failure_reason: None,
            retry_count: 0,
            priority: ExecutionPriority::Normal,
            policy: ExecutionPolicy::Sequential,
        });
    }
    assert_eq!(history.len(), 3);
    history.clear();
    assert!(history.is_empty());
}

#[test]
fn test_execution_history_max_entries() {
    let mut history = ExecutionHistory::new().with_max_entries(2);
    for i in 0..5 {
        history.push(entry(&format!("e{}", i), ExecutionStatus::Pending));
    }
    assert_eq!(history.len(), 2);
}

#[test]
fn test_statistics_snapshot() {
    let mut stats = ExecutionStatistics::new();
    stats.record_submitted();
    stats.record_completed();
    stats.record_failed();
    stats.record_cancelled();
    stats.record_retry();
    let snap = stats.snapshot();
    assert_eq!(snap.submitted, 1);
    assert_eq!(snap.completed, 1);
    assert_eq!(snap.failed, 1);
    assert_eq!(snap.cancelled, 1);
    assert_eq!(snap.total_retries, 1);
}

#[test]
fn test_statistics_update_duration() {
    let mut stats = ExecutionStatistics::new();
    stats.update_duration(100);
    assert_eq!(stats.average_duration_ms, 100);
    stats.update_duration(200);
    assert_eq!(stats.average_duration_ms, 150);
}

#[test]
fn test_statistics_peak_concurrency() {
    let mut stats = ExecutionStatistics::new();
    stats.update_concurrency(5);
    assert_eq!(stats.peak_concurrency, 5);
    stats.update_concurrency(3);
    assert_eq!(stats.peak_concurrency, 5);
    stats.update_concurrency(10);
    assert_eq!(stats.peak_concurrency, 10);
}

#[test]
fn test_statistics_initial_state() {
    let stats = ExecutionStatistics::new();
    let snap = stats.snapshot();
    assert_eq!(snap.submitted, 0);
    assert_eq!(snap.completed, 0);
    assert_eq!(snap.failed, 0);
    assert_eq!(snap.cancelled, 0);
    assert_eq!(snap.running, 0);
    assert_eq!(snap.queued, 0);
}

#[test]
fn test_execution_queue_config_default() {
    let config = ExecutionQueueConfig::default();
    assert_eq!(config.max_size, 100);
    assert_eq!(config.max_concurrent, 5);
    assert!(config.enable_background_queue);
    assert_eq!(config.default_timeout_ms, 300_000);
}

// ---- further cases

#[test]
fn exec_history_drops_oldest() {
    let mut history = ExecutionHistory::new().with_max_entries(2);
    history.push(entry("a", ExecutionStatus::Completed));
    history.push(entry("b", ExecutionStatus::Completed));
    history.push(entry("c", ExecutionStatus::Failed));
    let ids: Vec<&str> = history.entries().iter().map(|e| e.execution_id.as_str()).collect();
    assert_eq!(ids, vec!["b", "c"]);
}

#[test]
fn exec_queue_priority_then_fifo() {
    let mut q = ExecutionQueue::new();
    q.enqueue(req("low", ExecutionPriority::Low, ExecutionPolicy::Sequential), 10).unwrap();
    q.enqueue(req("n1", ExecutionPriority::Normal, ExecutionPolicy::Sequential), 10).unwrap();
    q.enqueue(req("n2", ExecutionPriority::Normal, ExecutionPolicy::Sequential), 10).unwrap();
    q.enqueue(req("imm", ExecutionPriority::Immediate, ExecutionPolicy::Sequential), 10).unwrap();
    assert_eq!(q.total_pending(), 4);
    let order: Vec<String> = (0..4).map(|_| q.dequeue().unwrap().id).collect();
    assert_eq!(order, vec!["imm", "n1", "n2", "low"]);
    assert!(q.dequeue().is_none());
}

#[test]
fn exec_queue_full_error() {
    let mut q = ExecutionQueue::new();
    q.enqueue(req("a", ExecutionPriority::Normal, ExecutionPolicy::Sequential), 1).unwrap();
    let e = q.enqueue(req("b", ExecutionPriority::Normal, ExecutionPolicy::Sequential), 1).unwrap_err();
    assert_eq!(e, "execution queue is full");
}

#[test]
fn exec_queue_remove_and_clear() {
    let mut q = ExecutionQueue::new();
    q.enqueue(req("a", ExecutionPriority::High, ExecutionPolicy::Sequential), 10).unwrap();
    q.enqueue(req("b", ExecutionPriority::Background, ExecutionPolicy::Sequential), 10).unwrap();
    assert_eq!(q.remove("a").map(|r| r.id), Some("a".to_string()));
    assert!(q.remove("a").is_none());
    q.clear();
    assert_eq!(q.total_pending(), 0);
}

#[test]
fn test_next_to_start_takes_most_urgent_below_limit() {
    let mut q = ExecutionQueue::new();
    q.enqueue(req("low", ExecutionPriority::Low, ExecutionPolicy::Parallel), 10).unwrap();
    q.enqueue(req("high", ExecutionPriority::High, ExecutionPolicy::Parallel), 10).unwrap();
    assert!(q.next_to_start(0).is_none());
    assert_eq!(q.total_pending(), 2);
    assert_eq!(q.next_to_start(1).unwrap().id, "high");
    assert_eq!(q.next_to_start(1).unwrap().id, "low");
    assert!(q.next_to_start(1).is_none());
}
