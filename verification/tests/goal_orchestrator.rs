use automation::goal_orchestrator::{
    copy_goal_state, AdjustedPriority, GoalOrchestrator, GoalOrchestratorConfig, GoalPriority,
    GoalQueue, OrchestratedGoal, OrchestratedGoalState, Resource, ResourceLock,
};
use automation::planner::Goal;

fn make_goal(desc: &str) -> Goal {
    Goal::new(desc)
}

fn default_orch() -> GoalOrchestrator {
    GoalOrchestrator::new(GoalOrchestratorConfig::default())
}

#[test]
fn goal_orchestrator_test_priority_as_u8() {
    assert_eq!(GoalPriority::Critical.as_u8(), 0);
    assert_eq!(GoalPriority::High.as_u8(), 1);
    assert_eq!(GoalPriority::Normal.as_u8(), 2);
    assert_eq!(GoalPriority::Low.as_u8(), 3);
    assert_eq!(GoalPriority::Background.as_u8(), 4);
}

#[test]
fn goal_orchestrator_test_priority_ordering() {
    assert!(GoalPriority::Critical < GoalPriority::High);
    assert!(GoalPriority::High < GoalPriority::Normal);
    assert!(GoalPriority::Normal < GoalPriority::Low);
    assert!(GoalPriority::Low < GoalPriority::Background);
}

#[test]
fn test_goal_state_terminal() {
    assert!(OrchestratedGoalState::Completed.is_terminal());
    assert!(OrchestratedGoalState::Failed("err".into()).is_terminal());
    assert!(OrchestratedGoalState::Cancelled.is_terminal());
    assert!(!OrchestratedGoalState::Running.is_terminal());
}

#[test]
fn test_goal_state_active() {
    assert!(OrchestratedGoalState::Running.is_active());
    assert!(OrchestratedGoalState::Paused.is_active());
    assert!(!OrchestratedGoalState::Queued.is_active());
}

#[test]
fn test_goal_state_queued() {
    assert!(OrchestratedGoalState::Queued.is_queued());
    assert!(OrchestratedGoalState::Delayed { until: 0 }.is_queued());
    assert!(OrchestratedGoalState::WaitingForDependencies.is_queued());
    assert!(!OrchestratedGoalState::Running.is_queued());
}

#[test]
fn test_orchestrated_goal_creation() {
    let g = OrchestratedGoal::new("g1", make_goal("test"), GoalPriority::Normal);
    assert_eq!(g.id, "g1");
    assert_eq!(g.goal.description, "test");
    assert_eq!(g.priority, GoalPriority::Normal);
    assert_eq!(g.state, OrchestratedGoalState::Queued);
    assert!(g.created_at > 0);
}

#[test]
fn test_orchestrated_goal_builder() {
    let g = OrchestratedGoal::new("g1", make_goal("test"), GoalPriority::High)
        .with_dependency("dep1")
        .with_deadline(9999)
        .with_resource(Resource::Screen)
        .with_exclusive()
        .with_tag("env", "prod");
    assert_eq!(g.dependencies, vec!["dep1"]);
    assert_eq!(g.deadline, Some(9999));
    assert_eq!(g.required_resources, vec![Resource::Screen]);
    assert!(g.exclusive);
    let env = g.tags.iter().find(|(k, _)| k == "env").map(|(_, v)| v.clone());
    assert_eq!(env.unwrap(), "prod");
}

#[test]
fn test_resource_lock_acquire_release() {
    let mut lock = ResourceLock::new();
    assert!(lock.acquire(&[Resource::Screen]).is_ok());
    assert!(lock.is_held(&Resource::Screen));
    assert!(!lock.is_held(&Resource::Keyboard));
    lock.release(&[Resource::Screen]);
    assert!(!lock.is_held(&Resource::Screen));
}

#[test]
fn test_resource_lock_conflict() {
    let mut lock = ResourceLock::new();
    lock.acquire(&[Resource::Screen]).unwrap();
    assert!(lock.acquire(&[Resource::Screen]).is_err());
    assert!(lock.acquire(&[Resource::Keyboard]).is_ok());
}

#[test]
fn test_resource_lock_has_conflict() {
    let mut lock = ResourceLock::new();
    lock.acquire(&[Resource::Mouse]).unwrap();
    assert!(lock.has_conflict(&[Resource::Mouse]));
    assert!(!lock.has_conflict(&[Resource::Keyboard]));
}

#[test]
fn test_resource_lock_held_resources() {
    let mut lock = ResourceLock::new();
    lock.acquire(&[Resource::Screen, Resource::Audio]).unwrap();
    let held = lock.held_resources();
    assert_eq!(held.len(), 2);
    assert!(held.contains(&Resource::Screen));
    assert!(held.contains(&Resource::Audio));
}

#[test]
fn test_resource_lock_release_multiple() {
    let mut lock = ResourceLock::new();
    lock.acquire(&[Resource::Screen, Resource::Keyboard, Resource::Mouse])
        .unwrap();
    lock.release(&[Resource::Screen, Resource::Mouse]);
    assert!(!lock.is_held(&Resource::Screen));
    assert!(lock.is_held(&Resource::Keyboard));
    assert!(!lock.is_held(&Resource::Mouse));
}

#[test]
fn test_resource_lock_multiple_acquire_same_denied() {
    let mut lock = ResourceLock::new();
    assert!(lock.acquire(&[Resource::Clipboard]).is_ok());
    let result = lock.acquire(&[Resource::Clipboard, Resource::Audio]);
    assert!(result.is_err());
}

#[test]
fn test_queue_enqueue_dequeue_fifo() {
    let mut q = GoalQueue::new();
    q.enqueue("a", GoalPriority::Normal, 100, 0);
    q.enqueue("b", GoalPriority::Normal, 200, 0);
    assert_eq!(q.dequeue(), Some("a".to_string()));
    assert_eq!(q.dequeue(), Some("b".to_string()));
    assert!(q.dequeue().is_none());
}

#[test]
fn test_queue_priority_ordering() {
    let mut q = GoalQueue::new();
    q.enqueue("low", GoalPriority::Low, 300, 0);
    q.enqueue("high", GoalPriority::High, 100, 0);
    q.enqueue("critical", GoalPriority::Critical, 200, 0);
    assert_eq!(q.dequeue(), Some("critical".to_string()));
    assert_eq!(q.dequeue(), Some("high".to_string()));
    assert_eq!(q.dequeue(), Some("low".to_string()));
}

#[test]
fn test_queue_fifo_within_same_priority() {
    let mut q = GoalQueue::new();
    q.enqueue("first", GoalPriority::Normal, 100, 0);
    q.enqueue("second", GoalPriority::Normal, 200, 0);
    q.enqueue("third", GoalPriority::Normal, 300, 0);
    assert_eq!(q.dequeue(), Some("first".to_string()));
    assert_eq!(q.dequeue(), Some("second".to_string()));
    assert_eq!(q.dequeue(), Some("third".to_string()));
}

#[test]
fn test_queue_delayed_not_ready() {
    let mut q = GoalQueue::new();
    q.enqueue("delayed", GoalPriority::Normal, 100, 60_000);
    assert!(q.dequeue().is_none());
    assert_eq!(q.delayed_ids().len(), 1);
}

#[test]
fn test_queue_pop_due_delayed() {
    let mut q = GoalQueue::new();
    q.enqueue("now", GoalPriority::Normal, 100, 0);
    q.enqueue("later", GoalPriority::Normal, 200, 60_000);
    let due = q.pop_due_delayed();
    assert!(due.is_empty());
    assert_eq!(q.delayed_ids().len(), 1);
    assert_eq!(q.all_ids().len(), 1);
}

#[test]
fn test_queue_remove() {
    let mut q = GoalQueue::new();
    q.enqueue("a", GoalPriority::Normal, 100, 0);
    q.enqueue("b", GoalPriority::Normal, 200, 0);
    q.remove("a");
    assert_eq!(q.dequeue(), Some("b".to_string()));
    assert_eq!(q.len(), 0);
}

#[test]
fn test_queue_peek() {
    let mut q = GoalQueue::new();
    assert!(q.peek().is_none());
    q.enqueue("a", GoalPriority::Low, 100, 0);
    q.enqueue("b", GoalPriority::High, 200, 0);
    assert_eq!(q.peek(), Some("b".to_string()));
    assert_eq!(q.len(), 2);
}

#[test]
fn test_queue_empty() {
    let mut q = GoalQueue::new();
    assert!(q.is_empty());
    q.enqueue("a", GoalPriority::Normal, 100, 0);
    assert!(!q.is_empty());
}

#[test]
fn test_queue_all_ids() {
    let mut q = GoalQueue::new();
    q.enqueue("x", GoalPriority::High, 100, 0);
    q.enqueue("y", GoalPriority::Low, 200, 0);
    let ids = q.all_ids();
    assert_eq!(ids[0], "x");
    assert_eq!(ids[1], "y");
}

#[test]
fn test_submit_goal() {
    let mut orch = default_orch();
    let id = orch
        .submit_goal(make_goal("test"), GoalPriority::Normal, 0)
        .unwrap();
    assert!(!id.is_empty());
    assert_eq!(orch.queue_depth(), 1);
}

#[test]
fn test_submit_goal_max_limit() {
    let config = GoalOrchestratorConfig {
        max_queued_goals: 2,
        ..Default::default()
    };
    let mut orch = GoalOrchestrator::new(config);
    orch.submit_goal(make_goal("g1"), GoalPriority::Normal, 0)
        .unwrap();
    orch.submit_goal(make_goal("g2"), GoalPriority::Normal, 0)
        .unwrap();
    let result = orch.submit_goal(make_goal("g3"), GoalPriority::Normal, 0);
    assert!(result.is_err());
}

#[test]
fn test_submit_goal_with_delay() {
    let mut orch = default_orch();
    let id = orch
        .submit_goal(make_goal("delayed"), GoalPriority::Normal, 60_000)
        .unwrap();
    let status = orch.goal_status(&id).unwrap();
    assert_eq!(status, OrchestratedGoalState::Queued);
}

#[test]
fn test_goal_status_not_found() {
    let orch = default_orch();
    assert!(orch.goal_status("nonexistent").is_none());
}

#[test]
fn test_cancel_goal() {
    let mut orch = default_orch();
    let id = orch
        .submit_goal(make_goal("cancel-me"), GoalPriority::Normal, 0)
        .unwrap();
    assert!(orch.cancel_goal(&id).is_ok());
    assert_eq!(
        orch.goal_status(&id),
        Some(OrchestratedGoalState::Cancelled)
    );
}

#[test]
fn test_cancel_goal_nonexistent() {
    let mut orch = default_orch();
    assert!(orch.cancel_goal("idontexist").is_err());
}

#[test]
fn test_cancel_goal_twice_fails() {
    let mut orch = default_orch();
    let id = orch
        .submit_goal(make_goal("g1"), GoalPriority::Normal, 0)
        .unwrap();
    orch.cancel_goal(&id).unwrap();
    assert!(orch.cancel_goal(&id).is_err());
}

#[test]
fn test_goal_status_after_submit() {
    let mut orch = default_orch();
    let id = orch
        .submit_goal(make_goal("g1"), GoalPriority::Normal, 0)
        .unwrap();
    assert_eq!(orch.goal_status(&id), Some(OrchestratedGoalState::Queued));
}

#[test]
fn test_priorities_api() {
    let mut orch = default_orch();
    let id = orch
        .submit_goal(make_goal("g1"), GoalPriority::Critical, 0)
        .unwrap();
    assert_eq!(orch.priority(&id), Some(GoalPriority::Critical));
}

#[test]
fn test_priority_nonexistent() {
    let orch = default_orch();
    assert!(orch.priority("nope").is_none());
}

#[test]
fn test_submit_goal_with_dependencies() {
    let mut orch = default_orch();
    let dep_id = orch
        .submit_goal(make_goal("dependency"), GoalPriority::Normal, 0)
        .unwrap();
    let id = orch
        .submit_goal_with_deps(
            make_goal("dependent"),
            GoalPriority::Normal,
            vec![dep_id.clone()],
            0,
        )
        .unwrap();
    let deps = orch.dependencies(&id).unwrap();
    assert_eq!(deps, vec![dep_id]);
    assert_eq!(
        orch.goal_status(&id),
        Some(OrchestratedGoalState::WaitingForDependencies)
    );
}

#[test]
fn test_submit_goal_empty_dependencies_is_queued() {
    let mut orch = default_orch();
    let id = orch
        .submit_goal_with_deps(make_goal("independent"), GoalPriority::Normal, vec![], 0)
        .unwrap();
    assert_eq!(orch.goal_status(&id), Some(OrchestratedGoalState::Queued));
}

#[test]
fn test_submit_goal_unknown_dependency_rejected() {
    let mut orch = default_orch();
    let result = orch.submit_goal_with_deps(
        make_goal("g1"),
        GoalPriority::Normal,
        vec!["nonexistent".into()],
        0,
    );
    assert!(result.is_err());
}

#[test]
fn test_submit_goal_self_dependency_rejected() {
    let mut orch = default_orch();
    let result = orch.submit_goal_with_deps(
        make_goal("self-dep"),
        GoalPriority::Normal,
        vec!["self".into()],
        0,
    );
    assert!(result.is_err());
}

#[test]
fn test_detect_cycle_direct() {
    let mut orch = default_orch();
    let _a = orch
        .submit_goal(make_goal("A"), GoalPriority::Normal, 0)
        .unwrap();
    let b = orch
        .submit_goal(make_goal("B"), GoalPriority::Normal, 0)
        .unwrap();
    assert!(orch
        .submit_goal_with_deps(make_goal("AB"), GoalPriority::Normal, vec![b.clone()], 0)
        .is_ok());

    let g_a =
        OrchestratedGoal::new("a", make_goal("A"), GoalPriority::Normal).with_dependency("b");
    let g_b =
        OrchestratedGoal::new("b", make_goal("B"), GoalPriority::Normal).with_dependency("a");
    let graph = vec![g_a, g_b];
    assert!(GoalOrchestrator::detect_cycle_for("a", &graph));
    assert!(GoalOrchestrator::detect_cycle_for("b", &graph));
}

#[test]
fn test_detect_cycle_indirect() {
    let g_a =
        OrchestratedGoal::new("a", make_goal("A"), GoalPriority::Normal).with_dependency("b");
    let g_b =
        OrchestratedGoal::new("b", make_goal("B"), GoalPriority::Normal).with_dependency("c");
    let g_c =
        OrchestratedGoal::new("c", make_goal("C"), GoalPriority::Normal).with_dependency("a");
    let graph = vec![g_a, g_b, g_c];
    assert!(GoalOrchestrator::detect_cycle_for("a", &graph));
    assert!(GoalOrchestrator::detect_cycle_for("b", &graph));
    assert!(GoalOrchestrator::detect_cycle_for("c", &graph));
}

#[test]
fn test_dependencies_list() {
    let mut orch = default_orch();
    let dep = orch
        .submit_goal(make_goal("dep"), GoalPriority::Normal, 0)
        .unwrap();
    let id = orch
        .submit_goal_with_deps(make_goal("main"), GoalPriority::High, vec![dep.clone()], 0)
        .unwrap();
    let deps = orch.dependencies(&id).unwrap();
    assert_eq!(deps.len(), 1);
    assert_eq!(deps[0], dep);
}

#[test]
fn test_dependencies_nonexistent() {
    let orch = default_orch();
    assert!(orch.dependencies("nope").is_none());
}

#[test]
fn test_max_concurrent_goals() {
    let config = GoalOrchestratorConfig {
        max_concurrent_goals: 2,
        ..Default::default()
    };
    let mut orch = GoalOrchestrator::new(config);
    orch.submit_goal(make_goal("g1"), GoalPriority::Critical, 0).unwrap();
    orch.submit_goal(make_goal("g2"), GoalPriority::High, 0).unwrap();
    orch.submit_goal(make_goal("g3"), GoalPriority::Normal, 0).unwrap();
    let changed = orch.tick();
    assert!(changed.len() <= 2);
    let running = orch.running_goals();
    assert!(running.len() <= 2);
}

#[test]
fn test_background_goal_limit() {
    let config = GoalOrchestratorConfig {
        max_background_goals: 1,
        max_concurrent_goals: 5,
        ..Default::default()
    };
    let mut orch = GoalOrchestrator::new(config);
    orch.submit_goal(make_goal("bg1"), GoalPriority::Background, 0).unwrap();
    orch.submit_goal(make_goal("bg2"), GoalPriority::Background, 0).unwrap();
    orch.submit_goal(make_goal("bg3"), GoalPriority::Background, 0).unwrap();
    orch.tick();
    let running = orch.running_goals();
    assert!(running.len() <= 1);
}

#[test]
fn goal_orchestrator_test_metrics_initial() {
    let orch = default_orch();
    let m = orch.metrics();
    assert_eq!(m.total_submitted, 0);
    assert_eq!(m.total_completed, 0);
    assert_eq!(m.total_failed, 0);
    assert_eq!(m.total_cancelled, 0);
}

#[test]
fn test_metrics_after_submit() {
    let mut orch = default_orch();
    orch.submit_goal(make_goal("g1"), GoalPriority::Normal, 0).unwrap();
    let m = orch.metrics();
    assert_eq!(m.total_submitted, 1);
}

#[test]
fn test_metrics_after_cancel() {
    let mut orch = default_orch();
    let id = orch.submit_goal(make_goal("g1"), GoalPriority::Normal, 0).unwrap();
    orch.cancel_goal(&id).unwrap();
    let m = orch.metrics();
    assert_eq!(m.total_cancelled, 1);
}

#[test]
fn test_metrics_after_complete() {
    let mut orch = default_orch();
    let id = orch.submit_goal(make_goal("g1"), GoalPriority::Normal, 0).unwrap();
    orch.tick();
    assert_eq!(orch.goal_status(&id), Some(OrchestratedGoalState::Running));
    orch.complete_goal(&id, true, None).unwrap();
    let m = orch.metrics();
    assert_eq!(m.total_completed, 1);
}

#[test]
fn test_metrics_after_failure() {
    let mut orch = default_orch();
    let id = orch.submit_goal(make_goal("g1"), GoalPriority::Normal, 0).unwrap();
    orch.tick();
    orch.complete_goal(&id, false, Some("error".into())).unwrap();
    let m = orch.metrics();
    assert_eq!(m.total_failed, 1);
}

#[test]
fn test_metrics_retry_and_recovery() {
    let mut orch = default_orch();
    let id = orch.submit_goal(make_goal("g1"), GoalPriority::Normal, 0).unwrap();
    orch.record_retry(&id).unwrap();
    orch.record_recovery(&id).unwrap();
    let m = orch.metrics();
    assert_eq!(m.total_retries, 1);
    assert_eq!(m.total_recoveries, 1);
}

#[test]
fn test_metrics_peak_concurrent() {
    let config = GoalOrchestratorConfig {
        max_concurrent_goals: 10,
        ..Default::default()
    };
    let mut orch = GoalOrchestrator::new(config);
    orch.submit_goal(make_goal("g1"), GoalPriority::Critical, 0).unwrap();
    orch.submit_goal(make_goal("g2"), GoalPriority::High, 0).unwrap();
    let changed = orch.tick();
    assert_eq!(changed.len(), 2);
    let m = orch.metrics();
    assert!(m.peak_concurrent >= 2);
}

#[test]
fn test_queued_goals_filter() {
    let mut orch = default_orch();
    orch.submit_goal(make_goal("g1"), GoalPriority::Normal, 0).unwrap();
    let queued = orch.queued_goals();
    assert_eq!(queued.len(), 1);
}

#[test]
fn test_running_goals_filter() {
    let mut orch = default_orch();
    orch.submit_goal(make_goal("g1"), GoalPriority::Normal, 0).unwrap();
    orch.tick();
    let running = orch.running_goals();
    assert_eq!(running.len(), 1);
}

#[test]
fn test_completed_goals_filter() {
    let mut orch = default_orch();
    let id = orch.submit_goal(make_goal("g1"), GoalPriority::Normal, 0).unwrap();
    orch.tick();
    orch.complete_goal(&id, true, None).unwrap();
    let completed = orch.completed_goals();
    assert_eq!(completed.len(), 1);
}

#[test]
fn test_failed_goals_filter() {
    let mut orch = default_orch();
    let id = orch.submit_goal(make_goal("g1"), GoalPriority::Normal, 0).unwrap();
    orch.tick();
    orch.complete_goal(&id, false, Some("err".into())).unwrap();
    let failed = orch.failed_goals();
    assert_eq!(failed.len(), 1);
}

#[test]
fn test_pause_goal() {
    let mut orch = default_orch();
    let id = orch.submit_goal(make_goal("g1"), GoalPriority::Normal, 0).unwrap();
    orch.tick();
    assert!(orch.pause_goal(&id).is_ok());
    assert_eq!(orch.goal_status(&id), Some(OrchestratedGoalState::Paused));
}

#[test]
fn test_pause_not_running_fails() {
    let mut orch = default_orch();
    let id = orch.submit_goal(make_goal("g1"), GoalPriority::Normal, 0).unwrap();
    assert!(orch.pause_goal(&id).is_err());
}

#[test]
fn goal_orchestrator_test_pause_nonexistent() {
    let mut orch = default_orch();
    assert!(orch.pause_goal("nope").is_err());
}

#[test]
fn test_resume_goal() {
    let mut orch = default_orch();
    let id = orch.submit_goal(make_goal("g1"), GoalPriority::Normal, 0).unwrap();
    orch.tick();
    orch.pause_goal(&id).unwrap();
    assert!(orch.resume_goal(&id).is_ok());
    assert_eq!(orch.goal_status(&id), Some(OrchestratedGoalState::Queued));
}

#[test]
fn test_resume_not_paused_fails() {
    let mut orch = default_orch();
    let id = orch.submit_goal(make_goal("g1"), GoalPriority::Normal, 0).unwrap();
    assert!(orch.resume_goal(&id).is_err());
}

#[test]
fn test_pause_resume_multiple_cycles() {
    let mut orch = default_orch();
    let id = orch.submit_goal(make_goal("g1"), GoalPriority::Normal, 0).unwrap();
    for _ in 0..3 {
        orch.tick();
        assert_eq!(orch.goal_status(&id), Some(OrchestratedGoalState::Running));
        orch.pause_goal(&id).unwrap();
        assert_eq!(orch.goal_status(&id), Some(OrchestratedGoalState::Paused));
        orch.resume_goal(&id).unwrap();
        assert_eq!(orch.goal_status(&id), Some(OrchestratedGoalState::Queued));
    }
}

#[test]
fn test_starvation_reprioritization() {
    let config = GoalOrchestratorConfig {
        starvation_check_interval_ms: 1,
        enable_dynamic_priority: true,
        ..Default::default()
    };
    let mut orch = GoalOrchestrator::new(config);
    let old_id = orch.submit_goal(make_goal("old"), GoalPriority::Low, 0).unwrap();
    orch.reprioritize_aging_goals_at(orch.get_goal(&old_id).unwrap().created_at + 3_600_000);
    assert_eq!(orch.queue_depth(), 1);
    assert_eq!(orch.goal_status(&old_id), Some(OrchestratedGoalState::Queued));
}

#[test]
fn test_complete_goal_success() {
    let mut orch = default_orch();
    let id = orch.submit_goal(make_goal("g1"), GoalPriority::Normal, 0).unwrap();
    orch.tick();
    assert!(orch.complete_goal(&id, true, None).is_ok());
    assert_eq!(
        orch.goal_status(&id),
        Some(OrchestratedGoalState::Completed)
    );
}

#[test]
fn test_complete_goal_failure() {
    let mut orch = default_orch();
    let id = orch.submit_goal(make_goal("g1"), GoalPriority::Normal, 0).unwrap();
    orch.tick();
    assert!(orch.complete_goal(&id, false, Some("oops".into())).is_ok());
    match orch.goal_status(&id) {
        Some(OrchestratedGoalState::Failed(reason)) => assert_eq!(reason, "oops"),
        _ => panic!("expected Failed state"),
    }
}

#[test]
fn test_complete_goal_not_running_fails() {
    let mut orch = default_orch();
    let id = orch.submit_goal(make_goal("g1"), GoalPriority::Normal, 0).unwrap();
    assert!(orch.complete_goal(&id, true, None).is_err());
}

#[test]
fn test_complete_goal_nonexistent() {
    let mut orch = default_orch();
    assert!(orch.complete_goal("nope", true, None).is_err());
}

#[test]
fn test_record_retry() {
    let mut orch = default_orch();
    let id = orch.submit_goal(make_goal("g1"), GoalPriority::Normal, 0).unwrap();
    orch.record_retry(&id).unwrap();
    let goal = orch.get_goal(&id).unwrap();
    assert_eq!(goal.retry_count, 1);
}

#[test]
fn test_record_recovery() {
    let mut orch = default_orch();
    let id = orch.submit_goal(make_goal("g1"), GoalPriority::Normal, 0).unwrap();
    orch.record_recovery(&id).unwrap();
    let goal = orch.get_goal(&id).unwrap();
    assert_eq!(goal.recovery_count, 1);
}

#[test]
fn test_all_goals() {
    let mut orch = default_orch();
    orch.submit_goal(make_goal("g1"), GoalPriority::Normal, 0).unwrap();
    orch.submit_goal(make_goal("g2"), GoalPriority::High, 0).unwrap();
    assert_eq!(orch.all_goals().len(), 2);
}

#[test]
fn goal_orchestrator_test_get_goal_by_id() {
    let mut orch = default_orch();
    let id = orch.submit_goal(make_goal("find-me"), GoalPriority::Normal, 0).unwrap();
    let goal = orch.get_goal(&id).unwrap();
    assert_eq!(goal.goal.description, "find-me");
}

#[test]
fn test_get_goal_nonexistent() {
    let orch = default_orch();
    assert!(orch.get_goal("nope").is_none());
}

#[test]
fn test_orchestrator_config_default() {
    let config = GoalOrchestratorConfig::default();
    assert_eq!(config.max_concurrent_goals, 5);
    assert_eq!(config.max_background_goals, 2);
    assert_eq!(config.max_queued_goals, 100);
    assert!(config.enable_dynamic_priority);
}

#[test]
fn test_orchestrator_with_config() {
    let config = GoalOrchestratorConfig {
        max_concurrent_goals: 3,
        max_background_goals: 1,
        max_queued_goals: 50,
        ..Default::default()
    };
    let orch = GoalOrchestrator::new(config.clone());
    let retrieved = orch.config();
    assert_eq!(retrieved.max_concurrent_goals, 3);
    assert_eq!(retrieved.max_background_goals, 1);
    assert_eq!(retrieved.max_queued_goals, 50);
}

#[test]
fn test_queue_empty_initial() {
    let mut q = GoalQueue::new();
    assert!(q.is_empty());
    assert_eq!(q.len(), 0);
    assert!(q.dequeue().is_none());
    assert!(q.peek().is_none());
}

#[test]
fn test_submit_goal_empty_description() {
    let mut orch = default_orch();
    let result = orch.submit_goal(make_goal(""), GoalPriority::Normal, 0);
    assert!(result.is_ok());
}

#[test]
fn test_tick_with_no_goals() {
    let mut orch = default_orch();
    let changed = orch.tick();
    assert!(changed.is_empty());
}

#[test]
fn test_dependency_chain_completes_goal() {
    let mut orch = default_orch();
    let dep = orch.submit_goal(make_goal("dependency"), GoalPriority::Normal, 0).unwrap();
    let main = orch
        .submit_goal_with_deps(make_goal("main"), GoalPriority::Normal, vec![dep.clone()], 0)
        .unwrap();
    assert_eq!(
        orch.goal_status(&main),
        Some(OrchestratedGoalState::WaitingForDependencies)
    );
    orch.tick();
    orch.complete_goal(&dep, true, None).unwrap();
    orch.tick();
    let status = orch.goal_status(&main).unwrap();
    assert!(
        status == OrchestratedGoalState::Queued || status == OrchestratedGoalState::Running
    );
}

#[test]
fn test_dependency_not_completed_still_waiting() {
    let mut orch = default_orch();
    let dep = orch.submit_goal(make_goal("dependency"), GoalPriority::Normal, 0).unwrap();
    let main = orch
        .submit_goal_with_deps(make_goal("main"), GoalPriority::Normal, vec![dep.clone()], 0)
        .unwrap();
    orch.tick();
    orch.complete_goal(&dep, false, Some("err".into())).unwrap();
    orch.tick();
    assert_eq!(
        orch.goal_status(&main),
        Some(OrchestratedGoalState::WaitingForDependencies)
    );
}

#[test]
fn test_record_retry_nonexistent() {
    let mut orch = default_orch();
    assert!(orch.record_retry("nope").is_err());
}

#[test]
fn test_record_recovery_nonexistent() {
    let mut orch = default_orch();
    assert!(orch.record_recovery("nope").is_err());
}

#[test]
fn test_queue_depth() {
    let mut orch = default_orch();
    assert_eq!(orch.queue_depth(), 0);
    orch.submit_goal(make_goal("g1"), GoalPriority::Normal, 0).unwrap();
    assert_eq!(orch.queue_depth(), 1);
    orch.submit_goal(make_goal("g2"), GoalPriority::Normal, 0).unwrap();
    assert_eq!(orch.queue_depth(), 2);
}

// ---- further cases

#[test]
fn orchestrator_clamped_score_floor() {
    assert_eq!(AdjustedPriority::clamped(-5000).score(), -2000);
    assert_eq!(AdjustedPriority::clamped(1500).score(), 1500);
    assert_eq!(AdjustedPriority::clamped(-2000).score(), -2000);
}

#[test]
fn orchestrator_lock_error_names_first_held() {
    let mut lock = ResourceLock::new();
    lock.acquire(&[Resource::Audio, Resource::Mouse]).unwrap();
    let err = lock
        .acquire(&[Resource::Keyboard, Resource::Mouse, Resource::Audio])
        .unwrap_err();
    assert_eq!(err, "resource 'Mouse' is already locked");
    // nothing of the refused request was taken
    assert!(!lock.is_held(&Resource::Keyboard));
}

#[test]
fn orchestrator_release_undoes_acquire() {
    let mut lock = ResourceLock::new();
    lock.acquire(&[Resource::Screen]).unwrap();
    lock.acquire(&[Resource::Keyboard, Resource::Clipboard]).unwrap();
    lock.release(&[Resource::Keyboard, Resource::Clipboard]);
    assert_eq!(lock.held_resources(), vec![Resource::Screen]);
}

#[test]
fn orchestrator_queue_duplicate_entry_kept_once() {
    let mut q = GoalQueue::new();
    q.enqueue("a", GoalPriority::Normal, 100, 0);
    q.enqueue("a", GoalPriority::Normal, 100, 0);
    assert_eq!(q.len(), 1);
    q.enqueue("a", GoalPriority::Normal, 50, 0);
    assert_eq!(q.len(), 2);
}

#[test]
fn orchestrator_queue_ties_broken_by_id() {
    let mut q = GoalQueue::new();
    q.enqueue("b", GoalPriority::High, 100, 0);
    q.enqueue("a", GoalPriority::High, 100, 0);
    assert_eq!(q.all_ids(), vec!["a".to_string(), "b".to_string()]);
}

#[test]
fn orchestrator_queue_due_delayed_pops_in_due_order() {
    let mut q = GoalQueue::new();
    q.enqueue_at("late", GoalPriority::Normal, 0, 500, 1_000);
    q.enqueue_at("early", GoalPriority::Normal, 0, 100, 1_000);
    q.enqueue_at("never", GoalPriority::Normal, 0, 10_000, 1_000);
    let due = q.pop_due_delayed_at(1_600);
    assert_eq!(due, vec!["early".to_string(), "late".to_string()]);
    assert_eq!(q.delayed_ids(), vec!["never".to_string()]);
}

#[test]
fn orchestrator_error_messages() {
    let mut orch = default_orch();
    assert_eq!(orch.cancel_goal("x").unwrap_err(), "goal 'x' not found");
    let id = orch.submit_goal_at(make_goal("g"), GoalPriority::Normal, 0, "g1".to_string(), 10).unwrap();
    assert_eq!(id, "g1");
    assert_eq!(orch.pause_goal("g1").unwrap_err(), "cannot pause goal in state Queued");
    assert_eq!(orch.resume_goal("g1").unwrap_err(), "cannot resume goal in state Queued");
    assert_eq!(orch.complete_goal_at("g1", true, None, 20).unwrap_err(), "goal 'g1' is not running");
    orch.cancel_goal_at("g1", 30).unwrap();
    assert_eq!(
        orch.cancel_goal_at("g1", 40).unwrap_err(),
        "goal 'g1' already in terminal state Cancelled"
    );
}

#[test]
fn orchestrator_dependency_error_messages() {
    let mut orch = default_orch();
    orch.submit_goal_at(make_goal("d"), GoalPriority::Normal, 0, "d1".to_string(), 5).unwrap();
    let e = orch
        .submit_goal_with_deps_at(make_goal("m"), GoalPriority::Normal, vec!["".to_string()], 0, "m1".to_string(), 6)
        .unwrap_err();
    assert_eq!(e, "dependency ID cannot be empty");
    let e = orch
        .submit_goal_with_deps_at(make_goal("m"), GoalPriority::Normal, vec!["m1".to_string()], 0, "m1".to_string(), 6)
        .unwrap_err();
    assert_eq!(e, "goal cannot depend on itself: 'm1'");
    let e = orch
        .submit_goal_with_deps_at(
            make_goal("m"),
            GoalPriority::Normal,
            vec!["d1".to_string(), "zz".to_string()],
            0,
            "m1".to_string(),
            6,
        )
        .unwrap_err();
    assert_eq!(e, "dependency 'zz' does not exist");
}

#[test]
fn orchestrator_tick_at_promotes_delayed_and_starts() {
    let mut orch = default_orch();
    orch.submit_goal_at(make_goal("later"), GoalPriority::Normal, 1_000, "d".to_string(), 100).unwrap();
    assert_eq!(orch.queue_depth(), 0);
    let changed = orch.tick_at(500);
    assert!(changed.is_empty());
    let changed = orch.tick_at(1_100);
    assert_eq!(changed, vec!["d".to_string(), "d".to_string()]);
    assert_eq!(orch.goal_status("d"), Some(OrchestratedGoalState::Running));
    assert_eq!(orch.metrics().cumulative_queue_wait_ms, 1_000);
}

#[test]
fn orchestrator_start_goal_takes_resources_and_cancel_releases() {
    let mut orch = default_orch();
    orch.submit_goal_at(make_goal("g"), GoalPriority::Normal, 0, "g1".to_string(), 10).unwrap();
    assert_eq!(orch.start_goal_at("g1", 25).unwrap(), "g1");
    assert_eq!(orch.get_goal("g1").unwrap().started_at, Some(25));
    assert_eq!(orch.metrics().cumulative_queue_wait_ms, 15);
    assert_eq!(orch.metrics().peak_concurrent, 1);
    orch.cancel_goal_at("g1", 30).unwrap();
    assert_eq!(orch.get_goal("g1").unwrap().completed_at, Some(30));
    assert!(orch.resource_lock().held_resources().is_empty());
}

#[test]
fn orchestrator_complete_counts_execution_time() {
    let mut orch = default_orch();
    orch.submit_goal_at(make_goal("g"), GoalPriority::Normal, 0, "g1".to_string(), 10).unwrap();
    orch.start_goal_at("g1", 20).unwrap();
    orch.complete_goal_at("g1", false, None, 70).unwrap();
    assert_eq!(orch.metrics().cumulative_execution_ms, 50);
    assert_eq!(
        orch.goal_status("g1"),
        Some(OrchestratedGoalState::Failed("unknown error".to_string()))
    );
}

#[test]
fn orchestrator_attach_session_outcomes() {
    let mut orch = default_orch();
    orch.submit_goal_at(make_goal("a"), GoalPriority::Normal, 0, "a".to_string(), 1).unwrap();
    orch.submit_goal_at(make_goal("b"), GoalPriority::Normal, 0, "b".to_string(), 1).unwrap();
    orch.start_goal_at("a", 2).unwrap();
    orch.start_goal_at("b", 2).unwrap();
    assert!(orch.attach_session("a", Ok("s-1".to_string())).is_ok());
    assert_eq!(orch.get_goal("a").unwrap().session_id, Some("s-1".to_string()));
    let e = orch.attach_session("b", Err("boom".to_string())).unwrap_err();
    assert_eq!(e, "boom");
    assert_eq!(
        orch.goal_status("b"),
        Some(OrchestratedGoalState::Failed("session creation failed: boom".to_string()))
    );
    assert_eq!(orch.metrics().total_failed, 1);
    assert_eq!(orch.running_goals().len(), 1);
}

#[test]
fn orchestrator_tick_respects_concurrency_limit_exactly() {
    let config = GoalOrchestratorConfig { max_concurrent_goals: 2, ..Default::default() };
    let mut orch = GoalOrchestrator::new(config);
    for (i, p) in [GoalPriority::Low, GoalPriority::Critical, GoalPriority::High].iter().enumerate() {
        orch.submit_goal_at(make_goal("g"), *p, 0, format!("g{}", i), 10 + i as i64).unwrap();
    }
    let changed = orch.tick_at(100);
    assert_eq!(changed, vec!["g1".to_string(), "g2".to_string()]);
    assert_eq!(orch.goal_status("g0"), Some(OrchestratedGoalState::Queued));
}

#[test]
fn orchestrator_copy_goal_state_is_equal() {
    let s = OrchestratedGoalState::Delayed { until: 7 };
    assert_eq!(copy_goal_state(&s), s);
}
