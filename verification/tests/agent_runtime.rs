use automation::agent_runtime::{
    AgentRuntime, AgentRuntimeConfig, AgentSession, AgentState, JobType, PlanningOutcome,
    RuntimeMetrics, ScheduledJob, SessionMetrics,
};
use automation::planner::{ExecutionPlan, Goal};

fn plan_for(desc: &str) -> ExecutionPlan {
    ExecutionPlan {
        id: format!("plan-{}", desc),
        goal_description: desc.to_string(),
        steps: Vec::new(),
        created_at: 0,
        estimated_steps: 0,
    }
}

fn planned(desc: &str) -> PlanningOutcome {
    PlanningOutcome::Planned(plan_for(desc))
}

fn with_state(id: &str, desc: &str, state: AgentState) -> AgentSession {
    let mut s = AgentSession::fresh(id.to_string(), Goal::new(desc), 1_000);
    s.state = state;
    s
}

#[test]
fn test_agent_state_terminal() {
    assert!(AgentState::Completed.is_terminal());
    assert!(AgentState::Failed("err".into()).is_terminal());
    assert!(AgentState::Cancelled.is_terminal());
    assert!(AgentState::TimedOut.is_terminal());
    assert!(!AgentState::Created.is_terminal());
    assert!(!AgentState::Executing.is_terminal());
}

#[test]
fn test_agent_state_active() {
    assert!(AgentState::Planning.is_active());
    assert!(AgentState::Executing.is_active());
    assert!(AgentState::Waiting.is_active());
    assert!(AgentState::Recovering.is_active());
    assert!(!AgentState::Paused.is_active());
    assert!(!AgentState::Created.is_active());
    assert!(!AgentState::Completed.is_active());
}

#[test]
fn test_agent_state_valid_transitions() {
    assert!(AgentState::Created.can_transition_to(&AgentState::Planning));
    assert!(AgentState::Planning.can_transition_to(&AgentState::Executing));
    assert!(AgentState::Executing.can_transition_to(&AgentState::Completed));
    assert!(AgentState::Executing.can_transition_to(&AgentState::Failed("".into())));
    assert!(AgentState::Executing.can_transition_to(&AgentState::Cancelled));
    assert!(AgentState::Executing.can_transition_to(&AgentState::Paused));
    assert!(AgentState::Executing.can_transition_to(&AgentState::Waiting));
    assert!(AgentState::Executing.can_transition_to(&AgentState::Recovering));
    assert!(AgentState::Paused.can_transition_to(&AgentState::Executing));
    assert!(AgentState::Paused.can_transition_to(&AgentState::Cancelled));
    assert!(AgentState::Paused.can_transition_to(&AgentState::TimedOut));
    assert!(AgentState::Waiting.can_transition_to(&AgentState::Executing));
    assert!(AgentState::Recovering.can_transition_to(&AgentState::Planning));
}

#[test]
fn test_agent_state_invalid_transitions() {
    assert!(!AgentState::Created.can_transition_to(&AgentState::Completed));
    assert!(AgentState::Created.can_transition_to(&AgentState::Cancelled));
    assert!(!AgentState::Completed.can_transition_to(&AgentState::Executing));
    assert!(AgentState::Cancelled.can_transition_to(&AgentState::Created));
    assert!(!AgentState::Paused.can_transition_to(&AgentState::Planning));
    assert!(!AgentState::Executing.can_transition_to(&AgentState::Created));
}

#[test]
fn test_session_creation() {
    let goal = Goal::new("open calculator");
    let session = AgentSession::new("sess_1", goal);
    assert_eq!(session.session_id, "sess_1");
    assert_eq!(session.goal.description, "open calculator");
    assert_eq!(session.state, AgentState::Created);
    assert!(session.created_at > 0);
    assert!(session.started_at.is_none());
}

#[test]
fn test_session_transition_valid() {
    let mut session = AgentSession::new("s1", Goal::new("test"));
    assert!(session.transition_to(AgentState::Planning).is_ok());
    assert_eq!(session.state, AgentState::Planning);
    assert!(session.transition_to(AgentState::Executing).is_ok());
    assert_eq!(session.state, AgentState::Executing);
    assert!(session.transition_to(AgentState::Completed).is_ok());
    assert_eq!(session.state, AgentState::Completed);
}

#[test]
fn test_session_transition_invalid() {
    let mut session = AgentSession::new("s1", Goal::new("test"));
    assert!(session.transition_to(AgentState::Completed).is_err());
    assert_eq!(session.state, AgentState::Created);
}

#[test]
fn test_runtime_create_session() {
    let mut runtime = AgentRuntime::new();
    let id = runtime.create_session(Goal::new("open chrome")).unwrap();
    assert!(!id.is_empty());
    let session = runtime.session(&id).unwrap();
    assert_eq!(session.state, AgentState::Created);
}

#[test]
fn test_runtime_create_session_duplicate_goal() {
    let mut runtime = AgentRuntime::new();
    let _id1 = runtime.create_session(Goal::new("open chrome")).unwrap();
    let result = runtime.create_session(Goal::new("open chrome"));
    assert!(result.is_err());
}

#[test]
fn test_runtime_create_session_max_limit() {
    let config = AgentRuntimeConfig {
        max_sessions: 2,
        ..Default::default()
    };
    let mut runtime = AgentRuntime::new().with_config(config);
    let _id1 = runtime.create_session(Goal::new("g1")).unwrap();
    let _id2 = runtime.create_session(Goal::new("g2")).unwrap();
    let result = runtime.create_session(Goal::new("g3"));
    assert!(result.is_err());
}

#[test]
fn test_runtime_start_session_known_goal() {
    let mut runtime = AgentRuntime::new();
    let id = runtime.create_session(Goal::new("open calculator")).unwrap();
    assert!(runtime.start_session(&id, planned("open calculator")).is_ok());
    let session = runtime.session(&id).unwrap();
    assert!(session.state.is_active() || session.state == AgentState::Completed);
}

#[test]
fn test_runtime_start_session_twice_fails() {
    let mut runtime = AgentRuntime::new();
    let id = runtime.create_session(Goal::new("open calculator")).unwrap();
    assert!(runtime.start_session(&id, planned("open calculator")).is_ok());
    assert!(runtime.start_session(&id, planned("open calculator")).is_err());
}

#[test]
fn test_runtime_pause_resume_session() {
    let mut runtime = AgentRuntime::new();
    let id = runtime.create_session(Goal::new("open calculator")).unwrap();
    runtime.start_session(&id, planned("open calculator")).unwrap();
    assert!(runtime.pause_session(&id).is_ok());
    let session = runtime.session(&id).unwrap();
    assert_eq!(session.state, AgentState::Paused);
    assert!(runtime.resume_session(&id).is_ok());
    let session = runtime.session(&id).unwrap();
    assert!(session.state.is_active() || session.state == AgentState::Completed);
}

#[test]
fn test_runtime_pause_invalid_state() {
    let mut runtime = AgentRuntime::new();
    let id = runtime.create_session(Goal::new("g1")).unwrap();
    assert!(runtime.pause_session(&id).is_err());
}

#[test]
fn test_runtime_resume_invalid_state() {
    let mut runtime = AgentRuntime::new();
    let id = runtime.create_session(Goal::new("g1")).unwrap();
    assert!(runtime.resume_session(&id).is_err());
}

#[test]
fn test_runtime_cancel_session() {
    let mut runtime = AgentRuntime::new();
    let id = runtime.create_session(Goal::new("open calculator")).unwrap();
    runtime.start_session(&id, planned("open calculator")).unwrap();
    assert!(runtime.cancel_session(&id).is_ok());
    let session = runtime.session(&id).unwrap();
    assert_eq!(session.state, AgentState::Cancelled);
}

#[test]
fn test_runtime_cancel_session_twice_fails() {
    let mut runtime = AgentRuntime::new();
    let id = runtime.create_session(Goal::new("open calculator")).unwrap();
    runtime.start_session(&id, planned("open calculator")).unwrap();
    assert!(runtime.cancel_session(&id).is_ok());
    assert!(runtime.cancel_session(&id).is_err());
}

#[test]
fn test_runtime_session_not_found() {
    let mut runtime = AgentRuntime::new();
    assert!(runtime.start_session("nonexistent", planned("x")).is_err());
    assert!(runtime.pause_session("nonexistent").is_err());
    assert!(runtime.resume_session("nonexistent").is_err());
    assert!(runtime.cancel_session("nonexistent").is_err());
    assert!(runtime.session("nonexistent").is_none());
}

#[test]
fn test_runtime_running_sessions() {
    let mut runtime = AgentRuntime::new();
    let id1 = runtime.create_session(Goal::new("open calculator")).unwrap();
    let id2 = runtime.create_session(Goal::new("set brightness")).unwrap();
    runtime.start_session(&id1, planned("open calculator")).unwrap();
    runtime.start_session(&id2, planned("set brightness")).unwrap();
    let running = runtime.running_sessions();
    assert!(!running.is_empty());
}

#[test]
fn test_runtime_completed_sessions() {
    let mut runtime = AgentRuntime::new();
    let id = runtime.create_session(Goal::new("open calculator")).unwrap();
    runtime.start_session(&id, planned("open calculator")).unwrap();
    runtime.cancel_session(&id).unwrap();
    let completed = runtime.completed_sessions();
    assert!(!completed.is_empty());
}

#[test]
fn test_runtime_metrics_initial() {
    let runtime = AgentRuntime::new();
    let m = runtime.metrics();
    assert_eq!(m.total_sessions_created, 0);
    assert_eq!(m.active_sessions, 0);
}

#[test]
fn test_runtime_metrics_after_sessions() {
    let mut runtime = AgentRuntime::new();
    let id = runtime.create_session(Goal::new("open calculator")).unwrap();
    let m = runtime.metrics();
    assert_eq!(m.total_sessions_created, 1);
    runtime.start_session(&id, planned("open calculator")).unwrap();
    runtime.cancel_session(&id).unwrap();
    let m = runtime.metrics();
    assert_eq!(m.cancelled_sessions, 1);
}

#[test]
fn test_runtime_prune_completed() {
    let mut runtime = AgentRuntime::new();
    let id1 = runtime.create_session(Goal::new("g1")).unwrap();
    let id2 = runtime.create_session(Goal::new("g2")).unwrap();
    runtime.start_session(&id1, planned("g1")).unwrap();
    runtime.cancel_session(&id1).unwrap();
    runtime.cancel_session(&id2).unwrap();
    let pruned = runtime.prune_completed(1);
    assert_eq!(pruned, 1);
    assert_eq!(runtime.sessions().len(), 1);
}

#[test]
fn test_session_with_tag() {
    let session = AgentSession::new("s1", Goal::new("test"))
        .with_tag("source", "cli")
        .with_tag("user", "admin");
    let get = |k: &str| session.tags.iter().find(|(a, _)| a == k).map(|(_, v)| v.clone());
    assert_eq!(get("source").unwrap(), "cli");
    assert_eq!(get("user").unwrap(), "admin");
}

#[test]
fn test_runtime_sessions_list() {
    let mut runtime = AgentRuntime::new();
    runtime.create_session(Goal::new("g1")).unwrap();
    runtime.create_session(Goal::new("g2")).unwrap();
    assert_eq!(runtime.sessions().len(), 2);
}

#[test]
fn test_runtime_unknown_goal_fallback() {
    let mut runtime = AgentRuntime::new();
    let id = runtime
        .create_session(Goal::new("do something completely unheard of"))
        .unwrap();
    let result = runtime.start_session(&id, PlanningOutcome::NoPlanner);
    if let Err(ref e) = result {
        assert!(!e.is_empty());
    }
}

#[test]
fn test_session_metrics_default() {
    let metrics = SessionMetrics::default();
    assert_eq!(metrics.total_steps, 0);
    assert_eq!(metrics.completed_steps, 0);
    assert_eq!(metrics.failed_steps, 0);
}

#[test]
fn test_runtime_config() {
    let config = AgentRuntimeConfig {
        max_concurrent_sessions: 10,
        session_timeout_ms: 600_000,
        ..Default::default()
    };
    let runtime = AgentRuntime::new().with_config(config.clone());
    let retrieved = runtime.config();
    assert_eq!(retrieved.max_concurrent_sessions, 10);
    assert_eq!(retrieved.session_timeout_ms, 600_000);
}

#[test]
fn test_runtime_session_has_timestamps() {
    let mut runtime = AgentRuntime::new();
    let id = runtime.create_session(Goal::new("open calculator")).unwrap();
    runtime.start_session(&id, planned("open calculator")).unwrap();
    let session = runtime.session(&id).unwrap();
    assert!(session.created_at > 0);
    assert!(session.started_at.is_some());
    assert!(session.updated_at >= session.created_at);
}

#[test]
fn test_schedule_one_shot_immediate() {
    let mut runtime = AgentRuntime::new();
    let id = runtime.schedule(Goal::new("open calculator")).unwrap();
    assert!(!id.is_empty());
    assert_eq!(runtime.due_job_ids(i64::MAX).len(), 1);
}

#[test]
fn test_schedule_max_jobs_limit() {
    let config = AgentRuntimeConfig {
        max_scheduled_jobs: 2,
        ..Default::default()
    };
    let mut runtime = AgentRuntime::new().with_config(config);
    runtime.schedule(Goal::new("g1")).unwrap();
    runtime.schedule(Goal::new("g2")).unwrap();
    let result = runtime.schedule(Goal::new("g3"));
    assert!(result.is_err());
}

#[test]
fn test_schedule_job_is_due_and_exhausted() {
    let now = 1_700_000_000_000i64;
    let job = ScheduledJob::new("j1", Goal::new("test"), JobType::OneShot, now - 1000);
    assert!(job.is_due(now));
    assert!(!job.is_exhausted());
    let mut exhausted = ScheduledJob::new("j1", Goal::new("test"), JobType::OneShot, now - 1000);
    exhausted.run_count = 1;
    exhausted.max_runs = Some(1);
    assert!(exhausted.is_exhausted());
}

#[test]
fn test_schedule_next_occurrence_recurring() {
    let now = 1_700_000_000_000i64;
    let mut job = ScheduledJob::new(
        "j1",
        Goal::new("poll"),
        JobType::Recurring { interval_ms: 1000 },
        now,
    );
    job.last_run_at = Some(now + 5000);
    let next = job.next_occurrence();
    assert_eq!(next, Some(now + 5000 + 1000));
}

#[test]
fn test_schedule_next_occurrence_one_shot() {
    let job = ScheduledJob::new("j1", Goal::new("test"), JobType::OneShot, 0);
    assert!(job.next_occurrence().is_none());
}

#[test]
fn test_scheduled_job_has_priority_default() {
    let job = ScheduledJob::new("j1", Goal::new("test"), JobType::OneShot, 0);
    assert_eq!(job.priority, 0);
}

#[test]
fn test_scheduled_job_with_priority() {
    let job = ScheduledJob::new("j1", Goal::new("test"), JobType::OneShot, 0).with_priority(10);
    assert_eq!(job.priority, 10);
}

#[test]
fn test_scheduled_job_with_tag() {
    let job =
        ScheduledJob::new("j1", Goal::new("test"), JobType::OneShot, 0).with_tag("env", "prod");
    let env = job.tags.iter().find(|(k, _)| k == "env").map(|(_, v)| v.clone());
    assert_eq!(env.unwrap(), "prod");
}

#[test]
fn test_runtime_metrics_has_s2_fields() {
    let metrics = RuntimeMetrics::default();
    assert_eq!(metrics.scheduled_jobs, 0);
    assert_eq!(metrics.resumed_sessions, 0);
    assert_eq!(metrics.recovered_sessions, 0);
    assert_eq!(metrics.persistence_failures, 0);
    assert_eq!(metrics.cleaned_up_sessions, 0);
    assert_eq!(metrics.recurring_jobs_completed, 0);
}

#[test]
fn test_restart_completed_session() {
    let mut runtime = AgentRuntime::new();
    let mut s = with_state("r1", "g1", AgentState::Completed);
    s.started_at = Some(1_100);
    s.completed_at = Some(1_200);
    s.metrics.completed_steps = 4;
    runtime.restore_sessions(vec![s]);
    assert!(runtime.restart_session("r1").is_ok());
    let session = runtime.session("r1").unwrap();
    assert_eq!(session.state, AgentState::Created);
    assert!(session.started_at.is_none());
    assert!(session.completed_at.is_none());
    assert_eq!(session.retry_count, 0);
    assert_eq!(session.metrics.completed_steps, 0);
}

#[test]
fn test_restart_failed_session() {
    let mut runtime = AgentRuntime::new();
    let mut s = with_state("r1", "g1", AgentState::Failed("error".into()));
    s.retry_count = 3;
    s.metrics.failed_steps = 2;
    runtime.restore_sessions(vec![s]);
    assert!(runtime.restart_session("r1").is_ok());
    let session = runtime.session("r1").unwrap();
    assert_eq!(session.state, AgentState::Created);
    assert_eq!(session.retry_count, 0);
    assert_eq!(session.metrics.failed_steps, 0);
}

#[test]
fn test_restart_cancelled_session() {
    let mut runtime = AgentRuntime::new();
    let id = runtime.create_session(Goal::new("g1")).unwrap();
    runtime.start_session(&id, planned("g1")).unwrap();
    runtime.cancel_session(&id).unwrap();
    assert!(runtime.restart_session(&id).is_ok());
    let session = runtime.session(&id).unwrap();
    assert_eq!(session.state, AgentState::Created);
}

#[test]
fn test_restart_timedout_session() {
    let mut runtime = AgentRuntime::new();
    runtime.restore_sessions(vec![with_state("r1", "g1", AgentState::TimedOut)]);
    assert!(runtime.restart_session("r1").is_ok());
    assert_eq!(runtime.session("r1").unwrap().state, AgentState::Created);
}

#[test]
fn test_restart_active_session_fails() {
    let mut runtime = AgentRuntime::new();
    let id = runtime.create_session(Goal::new("g1")).unwrap();
    runtime.start_session(&id, planned("g1")).unwrap();
    assert_eq!(runtime.session(&id).unwrap().state, AgentState::Executing);
    assert!(runtime.restart_session(&id).is_err());
}

#[test]
fn test_restart_nonexistent_session() {
    let mut runtime = AgentRuntime::new();
    assert!(runtime.restart_session("nonexistent").is_err());
}

#[test]
fn test_cancel_created_session() {
    let mut runtime = AgentRuntime::new();
    let id = runtime.create_session(Goal::new("g1")).unwrap();
    assert!(runtime.cancel_session(&id).is_ok());
    let session = runtime.session(&id).unwrap();
    assert_eq!(session.state, AgentState::Cancelled);
}

#[test]
fn test_cancel_paused_session() {
    let mut runtime = AgentRuntime::new();
    let id = runtime.create_session(Goal::new("g1")).unwrap();
    runtime.start_session(&id, planned("g1")).unwrap();
    runtime.pause_session(&id).unwrap();
    assert!(runtime.cancel_session(&id).is_ok());
    let session = runtime.session(&id).unwrap();
    assert_eq!(session.state, AgentState::Cancelled);
}

#[test]
fn test_cancel_planning_session() {
    let mut runtime = AgentRuntime::new();
    let mut s = AgentSession::fresh("c1".to_string(), Goal::new("g1"), 1_000);
    let _ = s.transition_to(AgentState::Planning);
    runtime.restore_sessions(vec![s]);
    assert!(runtime.cancel_session("c1").is_ok());
    assert_eq!(runtime.session("c1").unwrap().state, AgentState::Cancelled);
}

#[test]
fn test_cancel_recovering_session() {
    let mut runtime = AgentRuntime::new();
    let mut s = AgentSession::fresh("c1".to_string(), Goal::new("g1"), 1_000);
    let _ = s.transition_to(AgentState::Planning);
    let _ = s.transition_to(AgentState::Executing);
    let _ = s.transition_to(AgentState::Recovering);
    runtime.restore_sessions(vec![s]);
    assert!(runtime.cancel_session("c1").is_ok());
    assert_eq!(runtime.session("c1").unwrap().state, AgentState::Cancelled);
}

#[test]
fn test_cancel_waiting_session() {
    let mut runtime = AgentRuntime::new();
    let mut s = AgentSession::fresh("c1".to_string(), Goal::new("g1"), 1_000);
    let _ = s.transition_to(AgentState::Planning);
    let _ = s.transition_to(AgentState::Executing);
    let _ = s.transition_to(AgentState::Waiting);
    runtime.restore_sessions(vec![s]);
    assert!(runtime.cancel_session("c1").is_ok());
    assert_eq!(runtime.session("c1").unwrap().state, AgentState::Cancelled);
}

#[test]
fn test_multiple_pause_resume_cycles() {
    let mut runtime = AgentRuntime::new();
    let id = runtime.create_session(Goal::new("g1")).unwrap();
    runtime.start_session(&id, planned("g1")).unwrap();
    for _ in 0..5 {
        assert!(runtime.pause_session(&id).is_ok());
        let s = runtime.session(&id).unwrap();
        assert_eq!(s.state, AgentState::Paused);
        assert!(runtime.resume_session(&id).is_ok());
    }
}

#[test]
fn test_runtime_max_concurrent_sessions_enforced() {
    let config = AgentRuntimeConfig {
        max_concurrent_sessions: 2,
        ..Default::default()
    };
    let mut runtime = AgentRuntime::new().with_config(config);
    let id1 = runtime.create_session(Goal::new("g1")).unwrap();
    let id2 = runtime.create_session(Goal::new("g2")).unwrap();
    runtime.start_session(&id1, planned("g1")).unwrap();
    runtime.start_session(&id2, planned("g2")).unwrap();
    assert_eq!(runtime.running_sessions().len(), 2);
}

#[test]
fn test_session_recovery_count_tracked() {
    let goal = Goal::new("test");
    let mut session = AgentSession::new("s1", goal);
    session.recovery_count = 5;
    assert_eq!(session.recovery_count, 5);
    session.recovery_count += 1;
    assert_eq!(session.recovery_count, 6);
}

#[test]
fn test_session_retry_replan_counts() {
    let goal = Goal::new("test");
    let mut session = AgentSession::new("s1", goal);
    session.retry_count = 3;
    session.replan_count = 2;
    assert_eq!(session.retry_count, 3);
    assert_eq!(session.replan_count, 2);
}

#[test]
fn test_runtime_metrics_consistent_after_ops() {
    let mut runtime = AgentRuntime::new();
    let id1 = runtime.create_session(Goal::new("g1")).unwrap();
    let id2 = runtime.create_session(Goal::new("g2")).unwrap();
    runtime.start_session(&id1, planned("g1")).unwrap();
    runtime.start_session(&id2, planned("g2")).unwrap();
    runtime.pause_session(&id1).unwrap();
    runtime.cancel_session(&id2).unwrap();
    let m = runtime.metrics();
    assert_eq!(m.total_sessions_created, 2);
}

#[test]
fn test_runtime_metrics_active_count_correct() {
    let mut runtime = AgentRuntime::new();
    assert_eq!(runtime.running_sessions().len(), 0);
    let id = runtime.create_session(Goal::new("g1")).unwrap();
    runtime.start_session(&id, planned("g1")).unwrap();
    let running = runtime.running_sessions();
    assert!(running.len() == 1 || running.is_empty());
}

#[test]
fn test_runtime_metrics_duration_positive() {
    let mut runtime = AgentRuntime::new();
    runtime.create_session(Goal::new("g1")).unwrap();
    let m = runtime.metrics();
    assert!(m.runtime_started_at.is_some());
    assert!(m.runtime_duration_ms >= 0);
}

#[test]
fn test_session_failed_state_contains_reason() {
    let mut session = AgentSession::new("s1", Goal::new("test"));
    session.state = AgentState::Failed("permission denied".into());
    match &session.state {
        AgentState::Failed(reason) => assert_eq!(reason, "permission denied"),
        _ => panic!("expected Failed state"),
    }
}

#[test]
fn test_runtime_restart_affects_metrics() {
    let mut runtime = AgentRuntime::new();
    runtime.restore_sessions(vec![with_state("r1", "g1", AgentState::Completed)]);
    let m_before = runtime.metrics();
    assert!(runtime.restart_session("r1").is_ok());
    let m_after = runtime.metrics();
    assert_eq!(m_after.resumed_sessions, m_before.resumed_sessions + 1);
}

#[test]
fn test_runtime_create_session_with_tags() {
    let mut runtime = AgentRuntime::new();
    let goal = Goal::new("test")
        .with_context("user".to_string(), "alice".to_string())
        .with_context("env".to_string(), "dev".to_string());
    let id = runtime.create_session(goal).unwrap();
    let session = runtime.session(&id).unwrap();
    let get = |k: &str| session.goal.context.iter().find(|(a, _)| a == k).map(|(_, v)| v.clone());
    assert_eq!(get("user").unwrap(), "alice");
    assert_eq!(get("env").unwrap(), "dev");
}

#[test]
fn test_runtime_sessions_list_unsorted() {
    let mut runtime = AgentRuntime::new();
    runtime.create_session(Goal::new("g1")).unwrap();
    runtime.create_session(Goal::new("g2")).unwrap();
    runtime.create_session(Goal::new("g3")).unwrap();
    let all = runtime.sessions();
    assert_eq!(all.len(), 3);
}

#[test]
fn test_runtime_completed_sessions_includes_failed() {
    let mut runtime = AgentRuntime::new();
    let id = runtime.create_session(Goal::new("g1")).unwrap();
    runtime.start_session(&id, planned("g1")).unwrap();
    runtime.cancel_session(&id).unwrap();
    let completed = runtime.completed_sessions();
    assert!(completed.iter().any(|s| s.state == AgentState::Cancelled));
}

#[test]
fn test_invalid_transition_from_completed() {
    let mut session = AgentSession::new("s1", Goal::new("test"));
    session.state = AgentState::Completed;
    assert!(!session.state.can_transition_to(&AgentState::Executing));
    assert!(!session.state.can_transition_to(&AgentState::Paused));
    assert!(session.state.can_transition_to(&AgentState::Created));
}

#[test]
fn test_invalid_transition_from_failed() {
    let mut session = AgentSession::new("s1", Goal::new("test"));
    session.state = AgentState::Failed("err".into());
    assert!(session.state.can_transition_to(&AgentState::Created));
    assert!(!session.state.can_transition_to(&AgentState::Executing));
}

#[test]
fn test_invalid_transition_from_cancelled() {
    let mut session = AgentSession::new("s1", Goal::new("test"));
    session.state = AgentState::Cancelled;
    assert!(session.state.can_transition_to(&AgentState::Created));
    assert!(!session.state.can_transition_to(&AgentState::Planning));
}

#[test]
fn test_invalid_transition_from_timedout() {
    let mut session = AgentSession::new("s1", Goal::new("test"));
    session.state = AgentState::TimedOut;
    assert!(session.state.can_transition_to(&AgentState::Created));
    assert!(!session.state.can_transition_to(&AgentState::Executing));
}

#[test]
fn test_recovering_can_transition_to_executing() {
    let mut session = AgentSession::new("s1", Goal::new("test"));
    let _ = session.transition_to(AgentState::Planning);
    let _ = session.transition_to(AgentState::Executing);
    let _ = session.transition_to(AgentState::Recovering);
    assert!(session.state.can_transition_to(&AgentState::Executing));
}

#[test]
fn test_running_sessions_empty_when_none() {
    let runtime = AgentRuntime::new();
    assert!(runtime.running_sessions().is_empty());
}

#[test]
fn test_completed_sessions_empty_when_none() {
    let runtime = AgentRuntime::new();
    assert!(runtime.completed_sessions().is_empty());
}

// ---- further cases

#[test]
fn runtime_start_with_clarification_fails_session() {
    let mut runtime = AgentRuntime::new();
    let id = runtime.create_session(Goal::new("book it")).unwrap();
    let r = runtime.start_session(&id, PlanningOutcome::Clarification("which day?".into()));
    assert_eq!(r.unwrap_err(), "clarification needed: which day?");
    assert_eq!(
        runtime.session(&id).unwrap().state,
        AgentState::Failed("needs clarification: which day?".into())
    );
}

#[test]
fn runtime_transition_at_stamps_time() {
    let mut s = AgentSession::fresh("t".to_string(), Goal::new("x"), 100);
    assert!(s.transition_at(AgentState::Planning, 150).is_ok());
    assert_eq!(s.updated_at, 150);
    let e = s.transition_at(AgentState::Created, 160).unwrap_err();
    assert!(e.contains("Planning"));
    assert_eq!(s.updated_at, 150);
}

#[test]
fn runtime_prune_keeps_most_recent_terminal() {
    let mut runtime = AgentRuntime::new();
    runtime.restore_sessions(vec![
        with_state("a", "ga", AgentState::Completed),
        with_state("b", "gb", AgentState::Executing),
        with_state("c", "gc", AgentState::Cancelled),
        with_state("d", "gd", AgentState::TimedOut),
    ]);
    assert_eq!(runtime.prune_completed(1), 2);
    let ids: Vec<&str> = runtime.sessions().iter().map(|s| s.session_id.as_str()).collect();
    assert_eq!(ids, vec!["b", "d"]);
}

#[test]
fn runtime_cleanup_removes_expired_terminal() {
    let config = AgentRuntimeConfig { retention_window_ms: 1_000, ..Default::default() };
    let mut runtime = AgentRuntime::new().with_config(config);
    let mut old = with_state("old", "g1", AgentState::Completed);
    old.completed_at = Some(1_000);
    let mut recent = with_state("recent", "g2", AgentState::Completed);
    recent.completed_at = Some(9_500);
    let active = with_state("active", "g3", AgentState::Executing);
    runtime.restore_sessions(vec![old, recent, active]);
    assert_eq!(runtime.cleanup_sessions_at(10_000), 1);
    assert!(runtime.session("old").is_none());
    assert!(runtime.session("recent").is_some());
    assert!(runtime.session("active").is_some());
    assert_eq!(runtime.metrics().cleaned_up_sessions, 1);
}

#[test]
fn runtime_schedule_after_and_recurring() {
    let mut runtime = AgentRuntime::new();
    runtime.schedule_after(Goal::new("later"), 1_000_000).unwrap();
    assert!(runtime.due_job_ids(0).is_empty());
    runtime.schedule_recurring(Goal::new("poll"), 5_000, Some(3)).unwrap();
    assert_eq!(runtime.due_job_ids(i64::MAX).len(), 2);
}

fn now_ms() -> i64 {
    std::time::SystemTime::now()
        .duration_since(std::time::UNIX_EPOCH)
        .unwrap()
        .as_millis() as i64
}

#[test]
fn test_schedule_after_delayed() {
    let mut runtime = AgentRuntime::new();
    let _id = runtime.schedule_after(Goal::new("open calculator"), 5000).unwrap();
    let now = now_ms();
    let jobs = runtime.scheduled_jobs();
    assert_eq!(jobs.len(), 1);
    assert!(jobs[0].scheduled_at > now - 100);
}

#[test]
fn test_schedule_at_timestamp() {
    let mut runtime = AgentRuntime::new();
    let future = now_ms() + 10000;
    let _id = runtime.schedule_at(Goal::new("test"), future).unwrap();
    let jobs = runtime.scheduled_jobs();
    assert_eq!(jobs[0].scheduled_at, future);
}

#[test]
fn test_schedule_recurring_no_max() {
    let mut runtime = AgentRuntime::new();
    let _id = runtime.schedule_recurring(Goal::new("poll"), 5000, None).unwrap();
    let jobs = runtime.scheduled_jobs();
    assert_eq!(jobs.len(), 1);
    assert_eq!(jobs[0].max_runs, None);
    assert!(matches!(jobs[0].job_type, JobType::Recurring { .. }));
}

#[test]
fn test_schedule_recurring_with_max_runs() {
    let mut runtime = AgentRuntime::new();
    let _id = runtime.schedule_recurring(Goal::new("poll"), 5000, Some(3)).unwrap();
    let jobs = runtime.scheduled_jobs();
    assert_eq!(jobs[0].max_runs, Some(3));
}

#[test]
fn test_cleanup_preserves_recent() {
    let mut config = AgentRuntimeConfig::default();
    config.retention_window_ms = 86_400_000;
    let mut runtime = AgentRuntime::new().with_config(config);
    let id = runtime.create_session(Goal::new("g1")).unwrap();
    runtime.start_session(&id, planned("g1")).unwrap();
    runtime.cancel_session(&id).unwrap();
    let cleaned = runtime.cleanup_sessions();
    assert_eq!(cleaned, 0);
}

#[test]
fn test_cleanup_skips_active_sessions() {
    let mut runtime = AgentRuntime::new();
    runtime.create_session(Goal::new("g1")).unwrap();
    let cleaned = runtime.cleanup_sessions();
    assert_eq!(cleaned, 0);
}

#[test]
fn test_resume_pending_active_sessions() {
    let mut runtime = AgentRuntime::new();
    let mut s = with_state("s1", "open calculator", AgentState::Executing);
    s.execution_plan = Some(plan_for("open calculator"));
    runtime.restore_sessions(vec![s]);
    let resumed = runtime.resume_pending();
    assert_eq!(resumed, 1);
}

#[test]
fn test_resume_pending_skips_terminal() {
    let mut runtime = AgentRuntime::new();
    runtime.restore_sessions(vec![with_state("s1", "g1", AgentState::Completed)]);
    let resumed = runtime.resume_pending();
    assert_eq!(resumed, 0);
}

#[test]
fn test_resume_pending_no_sessions() {
    let mut runtime = AgentRuntime::new();
    let resumed = runtime.resume_pending();
    assert_eq!(resumed, 0);
}

#[test]
fn test_restart_clears_execution_plan() {
    let mut runtime = AgentRuntime::new();
    let mut s = with_state("s1", "g1", AgentState::Completed);
    s.execution_plan = Some(plan_for("old"));
    runtime.restore_sessions(vec![s]);
    runtime.restart_session("s1").unwrap();
    let session = runtime.session("s1").unwrap();
    assert!(session.execution_plan.is_none());
}

#[test]
fn test_restart_clears_report() {
    let mut runtime = AgentRuntime::new();
    let mut s = with_state("s1", "g1", AgentState::Failed("err".into()));
    s.report = Some(automation::planner::GoalExecutionReport {
        success: false,
        completed_steps: 0,
        failed_steps: 1,
        total_steps: 1,
        execution_duration_ms: 0,
        abort_reason: Some("err".into()),
    });
    runtime.restore_sessions(vec![s]);
    runtime.restart_session("s1").unwrap();
    let session = runtime.session("s1").unwrap();
    assert!(session.report.is_none());
}

#[test]
fn test_scheduler_does_not_advance_paused() {
    let mut runtime = AgentRuntime::new();
    let id = runtime.create_session(Goal::new("g1")).unwrap();
    runtime.start_session(&id, planned("g1")).unwrap();
    runtime.pause_session(&id).unwrap();
    let now = now_ms();
    let work = runtime.work_for_session(0, now);
    assert!(matches!(work, automation::agent_runtime::StepWork::Idle));
    runtime.tick_session_at(0, now, None);
    let session = runtime.session(&id).unwrap();
    assert_eq!(session.state, AgentState::Paused);
}
