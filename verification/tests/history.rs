use automation::history::{run_status_of, ExecutionRecord, ExecutionStatus, InMemoryHistory};

fn make_record(execution_id: &str, workflow_id: &str, status: ExecutionStatus) -> ExecutionRecord {
    ExecutionRecord {
        execution_id: execution_id.to_string(),
        workflow_id: workflow_id.to_string(),
        workflow_name: workflow_id.to_string(),
        status,
        started_at: 1_700_000_000_000,
        duration_ms: 0,
        steps_succeeded: 0,
        steps_failed: 0,
        steps_total: 0,
        error: None,
    }
}

#[test]
fn test_record_creation() {
    let r = make_record("exec1", "wf1", ExecutionStatus::Running);
    assert_eq!(r.execution_id, "exec1");
    assert_eq!(r.status, ExecutionStatus::Running);
}

#[test]
fn test_in_memory_store_and_retrieve() {
    let mut history = InMemoryHistory::new();
    history.store(make_record("exec1", "wf1", ExecutionStatus::Running));
    history.store(make_record("exec2", "wf1", ExecutionStatus::Completed));
    let records = history.by_workflow("wf1", 10);
    assert_eq!(records.len(), 2);
    assert_eq!(records[0].status, ExecutionStatus::Completed);
}

#[test]
fn test_recent() {
    let mut history = InMemoryHistory::new();
    for i in 0..3 {
        history.store(make_record(&format!("e{}", i), "w1", ExecutionStatus::Running));
    }
    let recent = history.recent(2);
    assert_eq!(recent.len(), 2);
    assert_eq!(recent[0].execution_id, "e2");
    assert_eq!(recent[1].execution_id, "e1");
}

#[test]
fn test_count() {
    let mut history = InMemoryHistory::new();
    assert_eq!(history.count(), 0);
    history.store(make_record("e1", "w1", ExecutionStatus::Running));
    assert_eq!(history.count(), 1);
}

#[test]
fn test_max_entries() {
    let mut history = InMemoryHistory::with_max(2);
    for i in 0..5 {
        history.store(make_record(&format!("e{}", i), "w1", ExecutionStatus::Running));
    }
    assert_eq!(history.count(), 2);
    let recent = history.recent(10);
    assert_eq!(recent[0].execution_id, "e4");
    assert_eq!(recent[1].execution_id, "e3");
}

#[test]
fn test_by_workflow_nonexistent() {
    let history = InMemoryHistory::new();
    let records = history.by_workflow("nonexistent", 10);
    assert!(records.is_empty());
}

#[test]
fn test_by_status_filters() {
    let mut history = InMemoryHistory::new();
    history.store(make_record("a", "w1", ExecutionStatus::Failed));
    history.store(make_record("b", "w2", ExecutionStatus::Completed));
    history.store(make_record("c", "w1", ExecutionStatus::Failed));
    let failed = history.by_status(&ExecutionStatus::Failed, 10);
    assert_eq!(failed.len(), 2);
    assert_eq!(failed[0].execution_id, "c");
    let one = history.by_status(&ExecutionStatus::Failed, 1);
    assert_eq!(one.len(), 1);
}

#[test]
fn test_clear_history_store() {
    let mut history = InMemoryHistory::new();
    history.store(make_record("a", "w1", ExecutionStatus::Failed));
    history.clear();
    assert_eq!(history.count(), 0);
}

#[test]
fn test_status_predicates() {
    assert!(ExecutionStatus::Completed.is_terminal());
    assert!(ExecutionStatus::TimedOut.is_terminal());
    assert!(!ExecutionStatus::Partial.is_terminal());
    assert!(ExecutionStatus::Paused.is_active());
    assert!(!ExecutionStatus::Pending.is_active());
}

#[test]
fn test_run_status_of() {
    assert_eq!(run_status_of(3, 0), ExecutionStatus::Completed);
    assert_eq!(run_status_of(0, 2), ExecutionStatus::Failed);
    assert_eq!(run_status_of(1, 1), ExecutionStatus::Partial);
    assert_eq!(run_status_of(0, 0), ExecutionStatus::Completed);
}
