use vstd::prelude::*;
use vstd::string::StringExecFns;
use crate::clock::now_millis;
use crate::keyed::{id_listed, listed, pair_map, put_pair, string_views};
use crate::planner::{ExecutionPlan, Goal, GoalExecutionReport};
use crate::text::{debug_quoted, debug_str, push_str};

verus! {

/// Session-level state for an autonomous agent session.
#[derive(Debug, Clone)]
pub enum AgentState {
    Created,
    Planning,
    Executing,
    Waiting,
    Recovering,
    Paused,
    Completed,
    Failed(String),
    Cancelled,
    TimedOut,
}

/// Two states are equal when they are the same variant and, for `Failed`,
/// carry the same message.
pub open spec fn agent_state_eq(a: AgentState, b: AgentState) -> bool {
    match (a, b) {
        (AgentState::Failed(x), AgentState::Failed(y)) => x@ == y@,
        (AgentState::Created, AgentState::Created) => true,
        (AgentState::Planning, AgentState::Planning) => true,
        (AgentState::Executing, AgentState::Executing) => true,
        (AgentState::Waiting, AgentState::Waiting) => true,
        (AgentState::Recovering, AgentState::Recovering) => true,
        (AgentState::Paused, AgentState::Paused) => true,
        (AgentState::Completed, AgentState::Completed) => true,
        (AgentState::Cancelled, AgentState::Cancelled) => true,
        (AgentState::TimedOut, AgentState::TimedOut) => true,
        _ => false,
    }
}

impl PartialEq for AgentState {
    fn eq(&self, other: &Self) -> (r: bool) {
        match (self, other) {
            (AgentState::Failed(x), AgentState::Failed(y)) => x.eq(y),
            (AgentState::Created, AgentState::Created) => true,
            (AgentState::Planning, AgentState::Planning) => true,
            (AgentState::Executing, AgentState::Executing) => true,
            (AgentState::Waiting, AgentState::Waiting) => true,
            (AgentState::Recovering, AgentState::Recovering) => true,
            (AgentState::Paused, AgentState::Paused) => true,
            (AgentState::Completed, AgentState::Completed) => true,
            (AgentState::Cancelled, AgentState::Cancelled) => true,
            (AgentState::TimedOut, AgentState::TimedOut) => true,
            _ => false,
        }
    }
}

impl vstd::std_specs::cmp::PartialEqSpecImpl for AgentState {
    open spec fn obeys_eq_spec() -> bool {
        true
    }

    open spec fn eq_spec(&self, other: &Self) -> bool {
        agent_state_eq(*self, *other)
    }
}

impl AgentState {
    pub open spec fn spec_is_terminal(self) -> bool {
        self is Completed || self is Failed || self is Cancelled || self is TimedOut
    }

    pub open spec fn spec_is_active(self) -> bool {
        self is Planning || self is Executing || self is Waiting || self is Recovering
    }

    /// The lifecycle graph: which state may follow which.
    pub open spec fn spec_can_transition_to(self, next: AgentState) -> bool {
        match (self, next) {
            (AgentState::Created, AgentState::Planning) => true,
            (AgentState::Created, AgentState::Cancelled) => true,
            (AgentState::Planning, AgentState::Executing) => true,
            (AgentState::Planning, AgentState::Failed(_)) => true,
            (AgentState::Planning, AgentState::Cancelled) => true,
            (AgentState::Executing, AgentState::Waiting) => true,
            (AgentState::Executing, AgentState::Recovering) => true,
            (AgentState::Executing, AgentState::Completed) => true,
            (AgentState::Executing, AgentState::Failed(_)) => true,
            (AgentState::Executing, AgentState::Cancelled) => true,
            (AgentState::Executing, AgentState::Paused) => true,
            (AgentState::Executing, AgentState::TimedOut) => true,
            (AgentState::Waiting, AgentState::Executing) => true,
            (AgentState::Waiting, AgentState::Failed(_)) => true,
            (AgentState::Waiting, AgentState::Cancelled) => true,
            (AgentState::Recovering, AgentState::Planning) => true,
            (AgentState::Recovering, AgentState::Executing) => true,
            (AgentState::Recovering, AgentState::Failed(_)) => true,
            (AgentState::Recovering, AgentState::Cancelled) => true,
            (AgentState::Paused, AgentState::Executing) => true,
            (AgentState::Paused, AgentState::Cancelled) => true,
            (AgentState::Paused, AgentState::TimedOut) => true,
            (AgentState::Completed, AgentState::Created) => true,
            (AgentState::Failed(_), AgentState::Created) => true,
            (AgentState::Cancelled, AgentState::Created) => true,
            (AgentState::TimedOut, AgentState::Created) => true,
            _ => false,
        }
    }

    pub fn is_terminal(&self) -> (r: bool)
        ensures
            r == self.spec_is_terminal(),
    {
        match self {
            AgentState::Completed | AgentState::Failed(_) | AgentState::Cancelled
            | AgentState::TimedOut => true,
            _ => false,
        }
    }

    pub fn is_active(&self) -> (r: bool)
        ensures
            r == self.spec_is_active(),
    {
        match self {
            AgentState::Planning | AgentState::Executing | AgentState::Waiting
            | AgentState::Recovering => true,
            _ => false,
        }
    }

    pub fn can_transition_to(&self, next: &AgentState) -> (r: bool)
        ensures
            r == self.spec_can_transition_to(*next),
    {
        match (self, next) {
            (AgentState::Created, AgentState::Planning) => true,
            (AgentState::Created, AgentState::Cancelled) => true,
            (AgentState::Planning, AgentState::Executing) => true,
            (AgentState::Planning, AgentState::Failed(_)) => true,
            (AgentState::Planning, AgentState::Cancelled) => true,
            (AgentState::Executing, AgentState::Waiting) => true,
            (AgentState::Executing, AgentState::Recovering) => true,
            (AgentState::Executing, AgentState::Completed) => true,
            (AgentState::Executing, AgentState::Failed(_)) => true,
            (AgentState::Executing, AgentState::Cancelled) => true,
            (AgentState::Executing, AgentState::Paused) => true,
            (AgentState::Executing, AgentState::TimedOut) => true,
            (AgentState::Waiting, AgentState::Executing) => true,
            (AgentState::Waiting, AgentState::Failed(_)) => true,
            (AgentState::Waiting, AgentState::Cancelled) => true,
            (AgentState::Recovering, AgentState::Planning) => true,
            (AgentState::Recovering, AgentState::Executing) => true,
            (AgentState::Recovering, AgentState::Failed(_)) => true,
            (AgentState::Recovering, AgentState::Cancelled) => true,
            (AgentState::Paused, AgentState::Executing) => true,
            (AgentState::Paused, AgentState::Cancelled) => true,
            (AgentState::Paused, AgentState::TimedOut) => true,
            (AgentState::Completed, AgentState::Created) => true,
            (AgentState::Failed(_), AgentState::Created) => true,
            (AgentState::Cancelled, AgentState::Created) => true,
            (AgentState::TimedOut, AgentState::Created) => true,
            _ => false,
        }
    }
}

/// A terminal state can only be left by a restart, back to `Created`.
pub proof fn lemma_terminal_exits_only_to_created(s: AgentState, next: AgentState)
    requires
        s.spec_is_terminal(),
        s.spec_can_transition_to(next),
    ensures
        next is Created,
{
}

/// How `{:?}` renders a state.
pub open spec fn state_debug(s: AgentState) -> Seq<char> {
    match s {
        AgentState::Created => "Created"@,
        AgentState::Planning => "Planning"@,
        AgentState::Executing => "Executing"@,
        AgentState::Waiting => "Waiting"@,
        AgentState::Recovering => "Recovering"@,
        AgentState::Paused => "Paused"@,
        AgentState::Completed => "Completed"@,
        AgentState::Failed(m) => "Failed("@ + debug_quoted(m@) + ")"@,
        AgentState::Cancelled => "Cancelled"@,
        AgentState::TimedOut => "TimedOut"@,
    }
}

/// Appends the `{:?}` rendering of a state.
pub fn push_state_debug(out: &mut String, s: &AgentState)
    ensures
        final(out)@ == old(out)@ + state_debug(*s),
{
    match s {
        AgentState::Created => push_str(out, "Created"),
        AgentState::Planning => push_str(out, "Planning"),
        AgentState::Executing => push_str(out, "Executing"),
        AgentState::Waiting => push_str(out, "Waiting"),
        AgentState::Recovering => push_str(out, "Recovering"),
        AgentState::Paused => push_str(out, "Paused"),
        AgentState::Completed => push_str(out, "Completed"),
        AgentState::Failed(m) => {
            push_str(out, "Failed(");
            let q = debug_str(m.as_str());
            push_str(out, q.as_str());
            push_str(out, ")");
        },
        AgentState::Cancelled => push_str(out, "Cancelled"),
        AgentState::TimedOut => push_str(out, "TimedOut"),
    }
}

/// A fresh copy of a state.
pub fn copy_state(s: &AgentState) -> (r: AgentState)
    ensures
        r == *s,
{
    match s {
        AgentState::Created => AgentState::Created,
        AgentState::Planning => AgentState::Planning,
        AgentState::Executing => AgentState::Executing,
        AgentState::Waiting => AgentState::Waiting,
        AgentState::Recovering => AgentState::Recovering,
        AgentState::Paused => AgentState::Paused,
        AgentState::Completed => AgentState::Completed,
        AgentState::Failed(m) => AgentState::Failed(m.clone()),
        AgentState::Cancelled => AgentState::Cancelled,
        AgentState::TimedOut => AgentState::TimedOut,
    }
}

/// Per-session metrics.
#[derive(Debug, Clone, Copy, PartialEq, Eq, Structural)]
pub struct SessionMetrics {
    pub total_steps: u64,
    pub completed_steps: u64,
    pub failed_steps: u64,
    pub retries: u64,
    pub recoveries: u64,
    pub replans: u64,
    pub execution_duration_ms: i64,
}

/// All counters at zero.
pub open spec fn zero_session_metrics() -> SessionMetrics {
    SessionMetrics {
        total_steps: 0,
        completed_steps: 0,
        failed_steps: 0,
        retries: 0,
        recoveries: 0,
        replans: 0,
        execution_duration_ms: 0,
    }
}

impl Default for SessionMetrics {
    fn default() -> (m: Self)
        ensures
            m == zero_session_metrics(),
    {
        SessionMetrics {
            total_steps: 0,
            completed_steps: 0,
            failed_steps: 0,
            retries: 0,
            recoveries: 0,
            replans: 0,
            execution_duration_ms: 0,
        }
    }
}

/// A single autonomous agent session.
#[derive(Debug)]
pub struct AgentSession {
    pub session_id: String,
    pub goal: Goal,
    pub execution_plan: Option<ExecutionPlan>,
    pub current_step_index: usize,
    pub state: AgentState,
    pub created_at: i64,
    pub started_at: Option<i64>,
    pub updated_at: i64,
    pub completed_at: Option<i64>,
    pub retry_count: u32,
    pub recovery_count: u32,
    pub replan_count: u32,
    pub report: Option<GoalExecutionReport>,
    pub metrics: SessionMetrics,
    pub tags: Vec<(String, String)>,
}

/// `s` is a session just made for `goal` under `id` at time `now`.
pub open spec fn fresh_session(s: AgentSession, id: Seq<char>, goal: Goal, now: i64) -> bool {
    &&& s.session_id@ == id
    &&& s.goal == goal
    &&& s.execution_plan is None
    &&& s.current_step_index == 0
    &&& s.state == AgentState::Created
    &&& s.created_at == now
    &&& s.started_at is None
    &&& s.updated_at == now
    &&& s.completed_at is None
    &&& s.retry_count == 0
    &&& s.recovery_count == 0
    &&& s.replan_count == 0
    &&& s.report is None
    &&& s.metrics == zero_session_metrics()
    &&& s.tags@.len() == 0
}

/// The message of a refused transition.
pub open spec fn transition_error_text(from: AgentState, to: AgentState) -> Seq<char> {
    "invalid state transition: "@ + state_debug(from) + " -> "@ + state_debug(to)
}

/// What a session looks like after an accepted transition at time `now`.
pub open spec fn moved(s: AgentSession, next: AgentState, now: i64) -> AgentSession {
    AgentSession { state: next, updated_at: now, ..s }
}

impl AgentSession {
    /// A fresh session in `Created`, stamped with the current time.
    pub fn new(session_id: &str, goal: Goal) -> (s: Self)
        ensures
            s.session_id@ == session_id@,
            s.goal == goal,
            s.execution_plan is None,
            s.current_step_index == 0,
            s.state == AgentState::Created,
            s.started_at is None,
            s.updated_at == s.created_at,
            s.completed_at is None,
            s.retry_count == 0,
            s.recovery_count == 0,
            s.replan_count == 0,
            s.report is None,
            s.metrics == zero_session_metrics(),
            s.tags@.len() == 0,
    {
        let now = now_millis();
        Self::fresh(String::from_str(session_id), goal, now)
    }

    /// A fresh session in `Created`, stamped with `now`.
    pub fn fresh(session_id: String, goal: Goal, now: i64) -> (s: Self)
        ensures
            fresh_session(s, session_id@, goal, now),
    {
        AgentSession {
            session_id,
            goal,
            execution_plan: None,
            current_step_index: 0,
            state: AgentState::Created,
            created_at: now,
            started_at: None,
            updated_at: now,
            completed_at: None,
            retry_count: 0,
            recovery_count: 0,
            replan_count: 0,
            report: None,
            metrics: SessionMetrics::default(),
            tags: Vec::new(),
        }
    }

    /// Sets a tag; a tag of the same key is replaced.
    pub fn with_tag(self, key: &str, value: &str) -> (s: Self)
        ensures
            pair_map(s.tags@) == pair_map(self.tags@).insert(key@, value@),
            s == (AgentSession { tags: s.tags, ..self }),
    {
        let mut s = self;
        put_pair(&mut s.tags, String::from_str(key), String::from_str(value));
        s
    }

    /// Moves to `next` if the lifecycle allows it, stamping `updated_at`
    /// with `now`; otherwise leaves the session as it was and says why.
    pub fn transition_at(&mut self, next: AgentState, now: i64) -> (r: Result<(), String>)
        ensures
            r is Ok <==> old(self).state.spec_can_transition_to(next),
            r is Ok ==> *final(self) == moved(*old(self), next, now),
            r is Err ==> *final(self) == *old(self) && r->Err_0@ == transition_error_text(old(self).state, next),
    {
        if !self.state.can_transition_to(&next) {
            let mut msg = String::new();
            push_str(&mut msg, "invalid state transition: ");
            push_state_debug(&mut msg, &self.state);
            push_str(&mut msg, " -> ");
            push_state_debug(&mut msg, &next);
            return Err(msg);
        }
        self.state = next;
        self.updated_at = now;
        Ok(())
    }

    /// Moves to `next` if the lifecycle allows it, stamping `updated_at`
    /// with the current time; otherwise leaves the session as it was.
    pub fn transition_to(&mut self, next: AgentState) -> (r: Result<(), String>)
        ensures
            r is Ok <==> old(self).state.spec_can_transition_to(next),
            r is Ok ==> *final(self) == moved(*old(self), next, final(self).updated_at),
            r is Err ==> *final(self) == *old(self) && r->Err_0@ == transition_error_text(old(self).state, next),
    {
        let now = now_millis();
        self.transition_at(next, now)
    }
}

/// How a scheduled job recurs.
#[derive(Debug, Clone, Copy, PartialEq, Eq, Structural)]
pub enum JobType {
    OneShot,
    Delayed { delay_ms: u64 },
    Recurring { interval_ms: u64 },
}

/// `j` is a job just made under `id` for `goal`, due at `scheduled_at`,
/// created at `now`, that has not run.
pub open spec fn fresh_job(j: ScheduledJob, id: Seq<char>, goal: Goal, job_type: JobType, scheduled_at: i64, now: i64) -> bool {
    &&& j.id@ == id
    &&& j.goal == goal
    &&& j.job_type == job_type
    &&& j.created_at == now
    &&& j.scheduled_at == scheduled_at
    &&& j.last_run_at is None
    &&& j.run_count == 0
    &&& j.max_runs is None
    &&& j.priority == 0
    &&& j.session_id is None
    &&& j.tags@.len() == 0
}

/// A job scheduled for future or recurring execution.
#[derive(Debug)]
pub struct ScheduledJob {
    pub id: String,
    pub goal: Goal,
    pub job_type: JobType,
    pub created_at: i64,
    pub scheduled_at: i64,
    pub last_run_at: Option<i64>,
    pub run_count: u64,
    pub max_runs: Option<u64>,
    pub priority: u8,
    pub session_id: Option<String>,
    pub tags: Vec<(String, String)>,
}

impl ScheduledJob {
    pub open spec fn spec_is_due(&self, now: i64) -> bool {
        now >= self.scheduled_at
    }

    pub open spec fn spec_is_exhausted(&self) -> bool {
        match self.max_runs {
            Some(max) => self.run_count >= max,
            None => false,
        }
    }

    /// Where a recurring job's next run starts from: its last run, or its
    /// scheduled time if it never ran.
    pub open spec fn recurrence_base(&self) -> int {
        match self.last_run_at {
            Some(t) => t as int,
            None => self.scheduled_at as int,
        }
    }

    /// The next run of a recurring job fits in an `i64`.
    pub open spec fn next_fits(&self) -> bool {
        match self.job_type {
            JobType::Recurring { interval_ms } => i64::MIN <= self.recurrence_base() + (interval_ms as i64) <= i64::MAX,
            _ => true,
        }
    }

    pub open spec fn spec_next_occurrence(&self) -> Option<i64> {
        match self.job_type {
            JobType::Recurring { interval_ms } => Some((self.recurrence_base() + (interval_ms as i64)) as i64),
            _ => None,
        }
    }

    /// A job that has not run yet, created now.
    pub fn new(id: &str, goal: Goal, job_type: JobType, scheduled_at: i64) -> (j: Self)
        ensures
            j.id@ == id@,
            j.goal == goal,
            j.job_type == job_type,
            j.scheduled_at == scheduled_at,
            j.last_run_at is None,
            j.run_count == 0,
            j.max_runs is None,
            j.priority == 0,
            j.session_id is None,
            j.tags@.len() == 0,
    {
        let created_at = now_millis();
        Self::fresh(String::from_str(id), goal, job_type, scheduled_at, created_at)
    }

    /// A job that has not run yet, created at `now`.
    pub fn fresh(id: String, goal: Goal, job_type: JobType, scheduled_at: i64, now: i64) -> (j: Self)
        ensures
            fresh_job(j, id@, goal, job_type, scheduled_at, now),
    {
        let created_at = now;
        ScheduledJob {
            id,
            goal,
            job_type,
            created_at,
            scheduled_at,
            last_run_at: None,
            run_count: 0,
            max_runs: None,
            priority: 0,
            session_id: None,
            tags: Vec::new(),
        }
    }

    pub fn with_priority(self, priority: u8) -> (j: Self)
        ensures
            j == (ScheduledJob { priority, ..self }),
    {
        let mut j = self;
        j.priority = priority;
        j
    }

    pub fn with_max_runs(self, max: u64) -> (j: Self)
        ensures
            j == (ScheduledJob { max_runs: Some(max), ..self }),
    {
        let mut j = self;
        j.max_runs = Some(max);
        j
    }

    /// Sets a tag; a tag of the same key is replaced.
    pub fn with_tag(self, key: &str, value: &str) -> (j: Self)
        ensures
            pair_map(j.tags@) == pair_map(self.tags@).insert(key@, value@),
            j == (ScheduledJob { tags: j.tags, ..self }),
    {
        let mut j = self;
        put_pair(&mut j.tags, String::from_str(key), String::from_str(value));
        j
    }

    /// Whether the job is due at `now`.
    pub fn is_due(&self, now: i64) -> (r: bool)
        ensures
            r == self.spec_is_due(now),
    {
        now >= self.scheduled_at
    }

    /// Whether the job has reached its maximum number of runs.
    pub fn is_exhausted(&self) -> (r: bool)
        ensures
            r == self.spec_is_exhausted(),
    {
        match self.max_runs {
            Some(max) => self.run_count >= max,
            None => false,
        }
    }

    /// The next scheduled time of a recurring job: an interval after its
    /// last run, or after its scheduled time if it never ran.
    pub fn next_occurrence(&self) -> (r: Option<i64>)
        requires
            self.next_fits(),
        ensures
            r == self.spec_next_occurrence(),
    {
        match &self.job_type {
            JobType::Recurring { interval_ms } => {
                let base = match self.last_run_at {
                    Some(t) => t,
                    None => self.scheduled_at,
                };
                let step = *interval_ms as i64;
                Some(base + step)
            },
            _ => None,
        }
    }
}

/// Runtime-level metrics.
#[derive(Debug, Clone, Copy, PartialEq, Eq, Structural)]
pub struct RuntimeMetrics {
    pub total_sessions_created: u64,
    pub active_sessions: u64,
    pub completed_sessions: u64,
    pub failed_sessions: u64,
    pub cancelled_sessions: u64,
    pub timed_out_sessions: u64,
    pub total_steps_executed: u64,
    pub total_recoveries: u64,
    pub total_replans: u64,
    pub scheduled_jobs: u64,
    pub resumed_sessions: u64,
    pub recovered_sessions: u64,
    pub queue_latency_ms: i64,
    pub persistence_failures: u64,
    pub persistence_saves: u64,
    pub persistence_loads: u64,
    pub cleaned_up_sessions: u64,
    pub recurring_jobs_completed: u64,
    /// Set when the first session is created.
    pub runtime_started_at: Option<i64>,
    /// Milliseconds since `runtime_started_at`, filled in by a snapshot.
    pub runtime_duration_ms: i64,
}

pub open spec fn zero_runtime_metrics() -> RuntimeMetrics {
    RuntimeMetrics {
        total_sessions_created: 0,
        active_sessions: 0,
        completed_sessions: 0,
        failed_sessions: 0,
        cancelled_sessions: 0,
        timed_out_sessions: 0,
        total_steps_executed: 0,
        total_recoveries: 0,
        total_replans: 0,
        scheduled_jobs: 0,
        resumed_sessions: 0,
        recovered_sessions: 0,
        queue_latency_ms: 0,
        persistence_failures: 0,
        persistence_saves: 0,
        persistence_loads: 0,
        cleaned_up_sessions: 0,
        recurring_jobs_completed: 0,
        runtime_started_at: None,
        runtime_duration_ms: 0,
    }
}

impl Default for RuntimeMetrics {
    fn default() -> (m: Self)
        ensures
            m == zero_runtime_metrics(),
    {
        RuntimeMetrics {
            total_sessions_created: 0,
            active_sessions: 0,
            completed_sessions: 0,
            failed_sessions: 0,
            cancelled_sessions: 0,
            timed_out_sessions: 0,
            total_steps_executed: 0,
            total_recoveries: 0,
            total_replans: 0,
            scheduled_jobs: 0,
            resumed_sessions: 0,
            recovered_sessions: 0,
            queue_latency_ms: 0,
            persistence_failures: 0,
            persistence_saves: 0,
            persistence_loads: 0,
            cleaned_up_sessions: 0,
            recurring_jobs_completed: 0,
            runtime_started_at: None,
            runtime_duration_ms: 0,
        }
    }
}

/// Limits and intervals of the runtime.
#[derive(Debug, Clone, Copy, PartialEq, Eq, Structural)]
pub struct AgentRuntimeConfig {
    pub max_concurrent_sessions: usize,
    pub max_sessions: usize,
    pub session_timeout_ms: u64,
    pub schedule_interval_ms: u64,
    pub default_step_timeout_ms: u64,
    pub max_retries_per_step: u32,
    pub max_replans_per_session: u32,
    pub retention_window_ms: u64,
    pub cleanup_interval_ms: u64,
    pub max_concurrent_scheduled_jobs: usize,
    pub enable_persistence: bool,
    pub max_scheduled_jobs: usize,
}

pub open spec fn default_runtime_config() -> AgentRuntimeConfig {
    AgentRuntimeConfig {
        max_concurrent_sessions: 5,
        max_sessions: 100,
        session_timeout_ms: 300_000,
        schedule_interval_ms: 500,
        default_step_timeout_ms: 30_000,
        max_retries_per_step: 3,
        max_replans_per_session: 5,
        retention_window_ms: 86_400_000,
        cleanup_interval_ms: 3_600_000,
        max_concurrent_scheduled_jobs: 10,
        enable_persistence: true,
        max_scheduled_jobs: 1000,
    }
}

impl Default for AgentRuntimeConfig {
    fn default() -> (c: Self)
        ensures
            c == default_runtime_config(),
    {
        AgentRuntimeConfig {
            max_concurrent_sessions: 5,
            max_sessions: 100,
            session_timeout_ms: 300_000,
            schedule_interval_ms: 500,
            default_step_timeout_ms: 30_000,
            max_retries_per_step: 3,
            max_replans_per_session: 5,
            retention_window_ms: 86_400_000,
            cleanup_interval_ms: 3_600_000,
            max_concurrent_scheduled_jobs: 10,
            enable_persistence: true,
            max_scheduled_jobs: 1000,
        }
    }
}

/// Drives active sessions forward, one step per tick.
#[derive(Debug)]
pub struct AgentScheduler {
    pub config: AgentRuntimeConfig,
}

/// What a session needs from the plan executor at a tick.
#[derive(Debug, Clone, Copy, PartialEq, Eq, Structural)]
pub enum StepWork {
    /// Nothing to run.
    Idle,
    /// Every step is done: run the whole plan once more for its report.
    RunPlan,
    /// Run the step at this index on its own.
    RunStep(usize),
}

/// A session whose start lies more than the timeout before `now`.
pub open spec fn timed_out(cfg: AgentRuntimeConfig, s: AgentSession, now: i64) -> bool {
    match s.started_at {
        Some(started) => now - started > (cfg.session_timeout_ms as i64),
        None => false,
    }
}

/// The step counters can each take one more.
pub open spec fn counters_have_room(s: AgentSession) -> bool {
    &&& s.metrics.completed_steps < u64::MAX
    &&& s.metrics.failed_steps < u64::MAX
    &&& s.metrics.retries < u64::MAX
    &&& s.metrics.replans < u64::MAX
}

/// A transition that is made when the lifecycle allows it and skipped
/// otherwise.
pub open spec fn try_move(s: AgentSession, next: AgentState, now: i64) -> AgentSession {
    if s.state.spec_can_transition_to(next) {
        moved(s, next, now)
    } else {
        s
    }
}

pub open spec fn work_spec(cfg: AgentRuntimeConfig, s: AgentSession, now: i64) -> StepWork {
    if !s.state.spec_is_active() || timed_out(cfg, s, now) {
        StepWork::Idle
    } else if s.state is Executing && s.execution_plan is Some {
        if s.current_step_index >= s.execution_plan->Some_0.steps@.len() {
            StepWork::RunPlan
        } else {
            StepWork::RunStep(s.current_step_index)
        }
    } else {
        StepWork::Idle
    }
}

/// The failure message a tick writes when there is no plan, or when a step
/// failed for good without a reason of its own.
pub open spec fn fallback_text(s: AgentSession) -> Seq<char> {
    if s.execution_plan is None {
        "no plan"@
    } else {
        "step failed"@
    }
}

/// Whether a tick of this session writes `fallback_text`.
pub open spec fn uses_fallback(cfg: AgentRuntimeConfig, s: AgentSession, now: i64, rep: Option<GoalExecutionReport>) -> bool {
    &&& s.state is Executing
    &&& !timed_out(cfg, s, now)
    &&& match s.execution_plan {
        None => true,
        Some(plan) => {
            &&& s.current_step_index < plan.steps@.len()
            &&& !rep->Some_0.success
            &&& s.retry_count >= cfg.max_retries_per_step
            &&& s.replan_count >= cfg.max_replans_per_session
            &&& rep->Some_0.abort_reason is None
        },
    }
}

/// One tick of one session: the session afterwards, and whether it changed.
/// `rep` is what the plan executor gave for `work_spec`; `msg` is the
/// string that holds `fallback_text(s)`.
pub open spec fn tick_session(
    cfg: AgentRuntimeConfig,
    s: AgentSession,
    now: i64,
    rep: Option<GoalExecutionReport>,
    msg: String,
) -> (AgentSession, bool) {
    if !s.state.spec_is_active() {
        (s, false)
    } else if timed_out(cfg, s, now) {
        (AgentSession { completed_at: Some(now), ..try_move(s, AgentState::TimedOut, now) }, true)
    } else {
        match s.state {
            AgentState::Executing => {
                match s.execution_plan {
                    None => (try_move(s, AgentState::Failed(msg), now), true),
                    Some(plan) => {
                        let r = rep->Some_0;
                        if s.current_step_index >= plan.steps@.len() {
                            let m = SessionMetrics {
                                completed_steps: r.completed_steps as u64,
                                failed_steps: r.failed_steps as u64,
                                total_steps: r.total_steps as u64,
                                execution_duration_ms: r.execution_duration_ms as i64,
                                ..s.metrics
                            };
                            let s1 = AgentSession { metrics: m, report: rep, ..s };
                            (AgentSession { completed_at: Some(now), ..try_move(s1, AgentState::Completed, now) }, true)
                        } else if r.success {
                            let idx = (s.current_step_index + 1) as usize;
                            let m = SessionMetrics {
                                completed_steps: (s.metrics.completed_steps + 1) as u64,
                                total_steps: idx as u64,
                                ..s.metrics
                            };
                            (AgentSession { current_step_index: idx, metrics: m, ..s }, true)
                        } else if s.retry_count < cfg.max_retries_per_step {
                            let m = SessionMetrics {
                                failed_steps: (s.metrics.failed_steps + 1) as u64,
                                retries: (s.metrics.retries + 1) as u64,
                                total_steps: s.current_step_index as u64,
                                ..s.metrics
                            };
                            (AgentSession { retry_count: (s.retry_count + 1) as u32, metrics: m, ..s }, true)
                        } else if s.replan_count < cfg.max_replans_per_session {
                            let m = SessionMetrics {
                                failed_steps: (s.metrics.failed_steps + 1) as u64,
                                replans: (s.metrics.replans + 1) as u64,
                                ..s.metrics
                            };
                            let s1 = try_move(s, AgentState::Recovering, now);
                            (AgentSession { replan_count: (s.replan_count + 1) as u32, metrics: m, ..s1 }, true)
                        } else {
                            let err = match r.abort_reason {
                                Some(e) => e,
                                None => msg,
                            };
                            let m = SessionMetrics { failed_steps: (s.metrics.failed_steps + 1) as u64, ..s.metrics };
                            let s1 = AgentSession { metrics: m, ..s };
                            (AgentSession { completed_at: Some(now), ..try_move(s1, AgentState::Failed(err), now) }, true)
                        }
                    },
                }
            },
            AgentState::Recovering => (try_move(s, AgentState::Planning, now), true),
            _ => (s, false),
        }
    }
}

impl AgentScheduler {
    pub fn new(config: &AgentRuntimeConfig) -> (s: Self)
        ensures
            s.config == *config,
    {
        AgentScheduler { config: *config }
    }

    /// What the plan executor must run for this session at `now`.
    pub fn work_for(&self, session: &AgentSession, now: i64) -> (w: StepWork)
        ensures
            w == work_spec(self.config, *session, now),
    {
        if !session.state.is_active() || self.is_timed_out(session, now) {
            return StepWork::Idle;
        }
        match (&session.state, &session.execution_plan) {
            (AgentState::Executing, Some(plan)) => {
                if session.current_step_index >= plan.steps.len() {
                    StepWork::RunPlan
                } else {
                    StepWork::RunStep(session.current_step_index)
                }
            },
            _ => StepWork::Idle,
        }
    }

    fn is_timed_out(&self, session: &AgentSession, now: i64) -> (r: bool)
        ensures
            r == timed_out(self.config, *session, now),
    {
        match session.started_at {
            Some(started) => {
                let limit = self.config.session_timeout_ms as i64;
                (now as i128) - (started as i128) > limit as i128
            },
            None => false,
        }
    }

    /// Advances one session by one tick, given what the plan executor gave
    /// for `work_for`; says whether the session changed.
    pub fn advance(&self, session: &mut AgentSession, now: i64, report: Option<GoalExecutionReport>) -> (changed: bool)
        requires
            counters_have_room(*old(session)),
            work_spec(self.config, *old(session), now) !is Idle ==> report is Some,
        ensures
            exists|msg: String|
                #![trigger tick_session(self.config, *old(session), now, report, msg)]
                (uses_fallback(self.config, *old(session), now, report) ==> msg@ == fallback_text(*old(session)))
                && (*final(session), changed) == tick_session(self.config, *old(session), now, report, msg),
    {
        let (changed, Ghost(msg)) = self.advance_with(session, now, report);
        proof {
            assert((uses_fallback(self.config, *old(session), now, report) ==> msg@ == fallback_text(*old(session)))
                && (*session, changed) == tick_session(self.config, *old(session), now, report, msg));
        }
        changed
    }

    fn advance_with(&self, session: &mut AgentSession, now: i64, report: Option<GoalExecutionReport>) -> (r: (bool, Ghost<String>))
        requires
            counters_have_room(*old(session)),
            work_spec(self.config, *old(session), now) !is Idle ==> report is Some,
        ensures
            uses_fallback(self.config, *old(session), now, report) ==> r.1@@ == fallback_text(*old(session)),
            (*final(session), r.0) == tick_session(self.config, *old(session), now, report, r.1@),
    {
        if !session.state.is_active() {
            return (false, Ghost(vstd::pervasive::arbitrary()));
        }
        if self.is_timed_out(session, now) {
            let _ = session.transition_at(AgentState::TimedOut, now);
            session.completed_at = Some(now);
            return (true, Ghost(vstd::pervasive::arbitrary()));
        }
        match session.state {
            AgentState::Executing => {},
            AgentState::Recovering => {
                let _ = session.transition_at(AgentState::Planning, now);
                return (true, Ghost(vstd::pervasive::arbitrary()));
            },
            _ => {
                return (false, Ghost(vstd::pervasive::arbitrary()));
            },
        }
        let n_steps = match &session.execution_plan {
            None => {
                let msg = String::from_str("no plan");
                proof {
                    reveal_strlit("no plan");
                }
                let ghost g = msg;
                let _ = session.transition_at(AgentState::Failed(msg), now);
                return (true, Ghost(g));
            },
            Some(plan) => plan.steps.len(),
        };
        let rep = match report {
            Some(r) => r,
            None => {
                return (false, Ghost(vstd::pervasive::arbitrary()));
            },
        };
        if session.current_step_index >= n_steps {
            session.metrics.completed_steps = rep.completed_steps as u64;
            session.metrics.failed_steps = rep.failed_steps as u64;
            session.metrics.total_steps = rep.total_steps as u64;
            session.metrics.execution_duration_ms = rep.execution_duration_ms as i64;
            session.report = Some(rep);
            let _ = session.transition_at(AgentState::Completed, now);
            session.completed_at = Some(now);
            return (true, Ghost(vstd::pervasive::arbitrary()));
        }
        if rep.success {
            session.current_step_index = session.current_step_index + 1;
            session.metrics.completed_steps = session.metrics.completed_steps + 1;
        } else {
            session.metrics.failed_steps = session.metrics.failed_steps + 1;
            if session.retry_count < self.config.max_retries_per_step {
                session.retry_count = session.retry_count + 1;
                session.metrics.retries = session.metrics.retries + 1;
            } else if session.replan_count < self.config.max_replans_per_session {
                let _ = session.transition_at(AgentState::Recovering, now);
                session.replan_count = session.replan_count + 1;
                session.metrics.replans = session.metrics.replans + 1;
                return (true, Ghost(vstd::pervasive::arbitrary()));
            } else {
                let err = match rep.abort_reason {
                    Some(e) => e,
                    None => {
                        proof {
                            reveal_strlit("step failed");
                        }
                        String::from_str("step failed")
                    },
                };
                let ghost g = err;
                let _ = session.transition_at(AgentState::Failed(err), now);
                session.completed_at = Some(now);
                return (true, Ghost(g));
            }
        }
        session.metrics.total_steps = session.current_step_index as u64;
        (true, Ghost(vstd::pervasive::arbitrary()))
    }
}

/// What planning a goal gave, as the runtime needs to know it.
#[derive(Debug)]
pub enum PlanningOutcome {
    /// A plan to execute.
    Planned(ExecutionPlan),
    /// The planner asks the user this question first.
    Clarification(String),
    /// Planning failed for this reason.
    Failed(String),
    /// The heuristic planner could not decompose the goal and no AI planner
    /// is configured.
    NoPlanner,
}

/// Whether a heuristic planning error asks for AI planning.
pub open spec fn asks_for_ai(err: Seq<char>) -> bool {
    crate::text::has_sub(err, "needs_ai_planning"@) || crate::text::has_sub(err, "could not decompose"@)
}

/// Whether a heuristic planning error asks for AI planning.
pub fn needs_ai_planning(err: &str) -> (r: bool)
    ensures
        r == asks_for_ai(err@),
{
    crate::text::str_contains(err, "needs_ai_planning") || crate::text::str_contains(err, "could not decompose")
}

/// No two sessions share an id.
pub open spec fn ids_unique(s: Seq<AgentSession>) -> bool {
    forall|i: int, j: int| 0 <= i < j < s.len() ==> s[i].session_id@ != s[j].session_id@
}

/// Where the session with this id stands, or -1.
pub open spec fn index_of(s: Seq<AgentSession>, id: Seq<char>) -> int {
    if exists|i: int| 0 <= i < s.len() && s[i].session_id@ == id {
        choose|i: int| 0 <= i < s.len() && s[i].session_id@ == id
    } else {
        -1
    }
}

/// Sessions that count as pending or running for the duplicate check.
pub open spec fn blocks_duplicate(st: AgentState) -> bool {
    st.spec_is_active() || st is Created
}

pub open spec fn not_found_text(id: Seq<char>) -> Seq<char> {
    "session '"@ + id + "' not found"@
}

pub open spec fn duplicate_text(goal: Seq<char>) -> Seq<char> {
    "an active session for goal '"@ + goal + "' already exists"@
}

/// `st` is `Failed` with this message.
pub open spec fn failed_with(st: AgentState, msg: Seq<char>) -> bool {
    st is Failed && st->Failed_0@ == msg
}

fn not_found(id: &str) -> (r: String)
    ensures
        r@ == not_found_text(id@),
{
    let mut m = String::new();
    push_str(&mut m, "session '");
    push_str(&mut m, id);
    push_str(&mut m, "' not found");
    m
}

fn state_message(prefix: &str, st: &AgentState) -> (r: String)
    ensures
        r@ == prefix@ + state_debug(*st),
{
    let mut m = String::new();
    push_str(&mut m, prefix);
    push_state_debug(&mut m, st);
    m
}

/// Jobs run in order of scheduled time, then of priority value.
pub open spec fn job_key_le(a: ScheduledJob, b: ScheduledJob) -> bool {
    a.scheduled_at < b.scheduled_at || (a.scheduled_at == b.scheduled_at && a.priority <= b.priority)
}

/// The job list is ordered by `job_key_le`.
pub open spec fn jobs_sorted(s: Seq<ScheduledJob>) -> bool {
    forall|i: int, j: int| 0 <= i < j < s.len() ==> job_key_le(s[i], s[j])
}

/// Many long-running agent sessions and the jobs scheduled to start more.
#[derive(Debug)]
pub struct AgentRuntime {
    sessions: Vec<AgentSession>,
    config: AgentRuntimeConfig,
    metrics: RuntimeMetrics,
    scheduled_jobs: Vec<ScheduledJob>,
}

impl AgentRuntime {
    pub closed spec fn sessions_v(&self) -> Seq<AgentSession> {
        self.sessions@
    }

    pub closed spec fn config_v(&self) -> AgentRuntimeConfig {
        self.config
    }

    pub closed spec fn metrics_v(&self) -> RuntimeMetrics {
        self.metrics
    }

    pub closed spec fn jobs_v(&self) -> Seq<ScheduledJob> {
        self.scheduled_jobs@
    }

    /// Session ids are unique and the job list is ordered.
    pub open spec fn wf(&self) -> bool {
        &&& ids_unique(self.sessions_v())
        &&& jobs_sorted(self.jobs_v())
    }

    /// Everything but the sessions is as in `other`.
    pub open spec fn same_but_sessions(&self, other: &Self) -> bool {
        &&& self.config_v() == other.config_v()
        &&& self.metrics_v() == other.metrics_v()
        &&& self.jobs_v() == other.jobs_v()
    }

    /// A runtime with no sessions, no jobs and the default configuration.
    pub fn new() -> (r: Self)
        ensures
            r.wf(),
            r.sessions_v().len() == 0,
            r.jobs_v().len() == 0,
            r.config_v() == default_runtime_config(),
            r.metrics_v() == zero_runtime_metrics(),
    {
        AgentRuntime {
            sessions: Vec::new(),
            config: AgentRuntimeConfig::default(),
            metrics: RuntimeMetrics::default(),
            scheduled_jobs: Vec::new(),
        }
    }

    pub fn with_config(self, config: AgentRuntimeConfig) -> (r: Self)
        ensures
            r.config_v() == config,
            r.sessions_v() == self.sessions_v(),
            r.metrics_v() == self.metrics_v(),
            r.jobs_v() == self.jobs_v(),
    {
        let mut r = self;
        r.config = config;
        r
    }

    pub fn config(&self) -> (c: AgentRuntimeConfig)
        ensures
            c == self.config_v(),
    {
        self.config
    }

    /// Where the session with this id stands.
    pub fn find_session(&self, session_id: &str) -> (r: Option<usize>)
        requires
            self.wf(),
        ensures
            match r {
                Some(i) => i == index_of(self.sessions_v(), session_id@) && i < self.sessions_v().len(),
                None => index_of(self.sessions_v(), session_id@) == -1,
            },
    {
        let n = self.sessions.len();
        let mut i: usize = 0;
        while i < n
            invariant
                n == self.sessions@.len(),
                i <= n,
                self.wf(),
                forall|j: int| 0 <= j < i ==> self.sessions@[j].session_id@ != session_id@,
            decreases n - i,
        {
            if crate::text::str_eq(self.sessions[i].session_id.as_str(), session_id) {
                proof {
                    let k = choose|k: int| 0 <= k < self.sessions@.len() && self.sessions@[k].session_id@ == session_id@;
                    assert(k == i as int);
                }
                return Some(i);
            }
            i = i + 1;
        }
        None
    }

    /// The session with this id.
    pub fn session(&self, session_id: &str) -> (r: Option<&AgentSession>)
        requires
            self.wf(),
        ensures
            index_of(self.sessions_v(), session_id@) == -1 ==> r is None,
            index_of(self.sessions_v(), session_id@) >= 0 ==> r == Some(&self.sessions_v()[index_of(self.sessions_v(), session_id@)]),
    {
        match self.find_session(session_id) {
            Some(i) => Some(&self.sessions[i]),
            None => None,
        }
    }

    /// All sessions.
    pub fn sessions(&self) -> (r: &[AgentSession])
        ensures
            r@ == self.sessions_v(),
    {
        self.sessions.as_slice()
    }
}

/// Some pending or running session already pursues this goal.
pub open spec fn has_blocking_duplicate(s: Seq<AgentSession>, goal: Seq<char>) -> bool {
    exists|i: int| 0 <= i < s.len() && blocks_duplicate(s[i].state) && s[i].goal.description@ == goal
}

/// The sessions with `x` put under its id: replacing a session of that id,
/// or appended.
pub open spec fn insert_session(s: Seq<AgentSession>, x: AgentSession) -> Seq<AgentSession> {
    let i = index_of(s, x.session_id@);
    if i >= 0 {
        s.update(i, x)
    } else {
        s.push(x)
    }
}

proof fn lemma_index_of_unique(s: Seq<AgentSession>, i: int)
    requires
        ids_unique(s),
        0 <= i < s.len(),
    ensures
        index_of(s, s[i].session_id@) == i,
{
    let k = choose|k: int| 0 <= k < s.len() && s[k].session_id@ == s[i].session_id@;
    assert(k == i);
}

proof fn lemma_insert_session(s: Seq<AgentSession>, x: AgentSession)
    requires
        ids_unique(s),
    ensures
        ids_unique(insert_session(s, x)),
        index_of(insert_session(s, x), x.session_id@) >= 0,
        insert_session(s, x)[index_of(insert_session(s, x), x.session_id@)] == x,
{
    let t = insert_session(s, x);
    let i = index_of(s, x.session_id@);
    if i >= 0 {
        assert(s[i].session_id@ == x.session_id@);
        assert(t[i] == x);
        lemma_index_of_unique(t, i);
    } else {
        assert forall|j: int| 0 <= j < s.len() implies s[j].session_id@ != x.session_id@ by {
        }
        assert(t[s.len() as int] == x);
        lemma_index_of_unique(t, s.len() as int);
    }
}

/// The runtime metrics after one more session was created at `now`.
pub open spec fn metrics_after_create(m: RuntimeMetrics, now: i64) -> RuntimeMetrics {
    RuntimeMetrics {
        total_sessions_created: (m.total_sessions_created + 1) as u64,
        active_sessions: (m.active_sessions + 1) as u64,
        runtime_started_at: match m.runtime_started_at {
            Some(t) => Some(t),
            None => Some(now),
        },
        ..m
    }
}

impl AgentRuntime {
    /// Creates a session for `goal` under `session_id` at time `now`, unless
    /// the session limit is reached or a pending or running session already
    /// pursues the same goal description.
    pub fn create_session_at(&mut self, goal: Goal, session_id: String, now: i64) -> (r: Result<String, String>)
        requires
            old(self).wf(),
            old(self).metrics_v().total_sessions_created < u64::MAX,
            old(self).metrics_v().active_sessions < u64::MAX,
        ensures
            final(self).wf(),
            old(self).sessions_v().len() >= old(self).config_v().max_sessions ==> {
                &&& r is Err
                &&& r->Err_0@ == "maximum number of sessions reached"@
                &&& final(self).sessions_v() == old(self).sessions_v()
                &&& final(self).same_but_sessions(old(self))
            },
            old(self).sessions_v().len() < old(self).config_v().max_sessions
                && has_blocking_duplicate(old(self).sessions_v(), goal.description@) ==> {
                &&& r is Err
                &&& r->Err_0@ == duplicate_text(goal.description@)
                &&& final(self).sessions_v() == old(self).sessions_v()
                &&& final(self).same_but_sessions(old(self))
            },
            old(self).sessions_v().len() < old(self).config_v().max_sessions
                && !has_blocking_duplicate(old(self).sessions_v(), goal.description@) ==> {
                let x = final(self).sessions_v()[index_of(final(self).sessions_v(), session_id@)];
                &&& r is Ok
                &&& r->Ok_0@ == session_id@
                &&& index_of(final(self).sessions_v(), session_id@) >= 0
                &&& fresh_session(x, session_id@, goal, now)
                &&& final(self).sessions_v() == insert_session(old(self).sessions_v(), x)
                &&& final(self).metrics_v() == metrics_after_create(old(self).metrics_v(), now)
                &&& final(self).jobs_v() == old(self).jobs_v()
                &&& final(self).config_v() == old(self).config_v()
            },
    {
        if self.sessions.len() >= self.config.max_sessions {
            proof {
                reveal_strlit("maximum number of sessions reached");
            }
            return Err(String::from_str("maximum number of sessions reached"));
        }
        let n = self.sessions.len();
        let mut i: usize = 0;
        while i < n
            invariant
                n == self.sessions@.len(),
                i <= n,
                *self == *old(self),
                self.wf(),
                n < self.config.max_sessions,
                forall|j: int| 0 <= j < i ==> !(blocks_duplicate(self.sessions@[j].state)
                    && self.sessions@[j].goal.description@ == goal.description@),
            decreases n - i,
        {
            let st = &self.sessions[i].state;
            let blocking = st.is_active() || match st {
                AgentState::Created => true,
                _ => false,
            };
            if blocking && crate::text::str_eq(self.sessions[i].goal.description.as_str(), goal.description.as_str()) {
                let mut m = String::new();
                push_str(&mut m, "an active session for goal '");
                push_str(&mut m, goal.description.as_str());
                push_str(&mut m, "' already exists");
                proof {
                    assert(blocks_duplicate(self.sessions@[i as int].state));
                }
                return Err(m);
            }
            i = i + 1;
        }
        let id_copy = session_id.clone();
        let session = AgentSession::fresh(session_id, goal, now);
        self.metrics.total_sessions_created = self.metrics.total_sessions_created + 1;
        self.metrics.active_sessions = self.metrics.active_sessions + 1;
        if self.metrics.runtime_started_at.is_none() {
            self.metrics.runtime_started_at = Some(now);
        }
        let ghost old_s = self.sessions@;
        proof {
            lemma_insert_session(old_s, session);
        }
        match self.find_session(id_copy.as_str()) {
            Some(k) => {
                self.sessions.set(k, session);
            },
            None => {
                self.sessions.push(session);
            },
        }
        proof {
            assert(self.sessions@ == insert_session(old_s, session));
        }
        Ok(id_copy)
    }

    /// Creates a session for `goal` under a fresh random id, stamped with the
    /// current time, unless the session limit is reached or a pending or
    /// running session already pursues the same goal description.
    pub fn create_session(&mut self, goal: Goal) -> (r: Result<String, String>)
        requires
            old(self).wf(),
            old(self).metrics_v().total_sessions_created < u64::MAX,
            old(self).metrics_v().active_sessions < u64::MAX,
        ensures
            final(self).wf(),
            r is Err <==> old(self).sessions_v().len() >= old(self).config_v().max_sessions
                || has_blocking_duplicate(old(self).sessions_v(), goal.description@),
            r is Err ==> final(self).sessions_v() == old(self).sessions_v() && final(self).same_but_sessions(old(self)),
            old(self).sessions_v().len() >= old(self).config_v().max_sessions ==> r->Err_0@ == "maximum number of sessions reached"@,
            old(self).sessions_v().len() < old(self).config_v().max_sessions
                && has_blocking_duplicate(old(self).sessions_v(), goal.description@) ==> r->Err_0@ == duplicate_text(goal.description@),
            r is Ok ==> {
                let i = index_of(final(self).sessions_v(), r->Ok_0@);
                let x = final(self).sessions_v()[i];
                &&& r->Ok_0@.len() == 36
                &&& i >= 0
                &&& fresh_session(x, r->Ok_0@, goal, x.created_at)
                &&& final(self).sessions_v() == insert_session(old(self).sessions_v(), x)
                &&& final(self).metrics_v() == metrics_after_create(old(self).metrics_v(), x.created_at)
                &&& final(self).jobs_v() == old(self).jobs_v()
                &&& final(self).config_v() == old(self).config_v()
            },
    {
        let id = crate::clock::new_uuid();
        let now = now_millis();
        self.create_session_at(goal, id, now)
    }
}

/// The session as `start_session` leaves it before the plan is looked at.
pub open spec fn started(s: AgentSession, now: i64) -> AgentSession {
    AgentSession { started_at: Some(now), updated_at: now, ..s }
}

/// `x` is `base` in a `Failed` state with this message.
pub open spec fn failed_from(x: AgentSession, base: AgentSession, msg: Seq<char>) -> bool {
    x == (AgentSession { state: x.state, ..base }) && failed_with(x.state, msg)
}

/// What `start_session` does to the session it starts, and what it answers.
pub open spec fn start_result(base: AgentSession, planned: PlanningOutcome, x: AgentSession, r: Result<(), String>) -> bool {
    match planned {
        PlanningOutcome::Planned(p) => r is Ok && x == (AgentSession {
            execution_plan: Some(p),
            state: AgentState::Executing,
            ..base
        }),
        PlanningOutcome::Clarification(q) => r is Err && r->Err_0@ == "clarification needed: "@ + q@
            && failed_from(x, base, "needs clarification: "@ + q@),
        PlanningOutcome::Failed(reason) => r is Err && r->Err_0@ == reason@ && failed_from(x, base, reason@),
        PlanningOutcome::NoPlanner => r is Err
            && r->Err_0@ == "planning failed: heuristic could not handle goal and no AI is available"@
            && failed_from(x, base, "heuristic planner could not decompose goal and no AI provider is configured"@),
    }
}

/// The session as `restart_session` leaves it.
pub open spec fn restarted(s: AgentSession, x: AgentSession, now: i64) -> bool {
    &&& x.session_id == s.session_id
    &&& x.goal == s.goal
    &&& x.tags == s.tags
    &&& x.created_at == s.created_at
    &&& x.state == AgentState::Created
    &&& x.execution_plan is None
    &&& x.current_step_index == 0
    &&& x.started_at is None
    &&& x.completed_at is None
    &&& x.updated_at == now
    &&& x.retry_count == 0
    &&& x.recovery_count == 0
    &&& x.replan_count == 0
    &&& x.report is None
    &&& x.metrics == zero_session_metrics()
}

/// What `start_session_at` does, for time `now`.
pub open spec fn start_post(pre: AgentRuntime, post: AgentRuntime, session_id: Seq<char>, planned: PlanningOutcome, now: i64, r: Result<(), String>) -> bool {
    &&& (post.same_but_sessions(&pre))
    &&& (index_of(pre.sessions_v(), session_id) == -1 ==> {
        &&& r is Err
        &&& r->Err_0@ == not_found_text(session_id)
        &&& post.sessions_v() == pre.sessions_v()
    })
    &&& (index_of(pre.sessions_v(), session_id) >= 0 ==> {
        let i = index_of(pre.sessions_v(), session_id);
        let s = pre.sessions_v()[i];
        if s.state is Created {
            &&& post.only_session_changed(&pre, i)
            &&& start_result(started(s, now), planned, post.sessions_v()[i], r)
        } else {
            &&& r is Err
            &&& r->Err_0@ == "cannot start session in state "@ + state_debug(s.state)
            &&& post.sessions_v() == pre.sessions_v()
        }
    })
}

impl AgentRuntime {
    /// Only the session at `i` differs from `old`.
    pub open spec fn only_session_changed(&self, old: &Self, i: int) -> bool {
        &&& 0 <= i < old.sessions_v().len()
        &&& self.sessions_v() == old.sessions_v().update(i, self.sessions_v()[i])
        &&& self.sessions_v()[i].session_id == old.sessions_v()[i].session_id
    }

    /// Starts the session with this id, which must be in `Created`: it is
    /// stamped as started at `now`, moves to `Planning`, and then to
    /// `Executing` with the plan, or to `Failed` when planning gave none.
    pub fn start_session_at(&mut self, session_id: &str, planned: PlanningOutcome, now: i64) -> (r: Result<(), String>)
        requires
            old(self).wf(),
        ensures
            final(self).wf(),
            start_post(*old(self), *final(self), session_id@, planned, now, r),

    {
        let i = match self.find_session(session_id) {
            Some(i) => i,
            None => {
                return Err(not_found(session_id));
            },
        };
        match self.sessions[i].state {
            AgentState::Created => {},
            _ => {
                return Err(state_message("cannot start session in state ", &self.sessions[i].state));
            },
        }
        let ghost old_s = self.sessions@;
        let mut session = self.take_session(i);
        session.started_at = Some(now);
        let _ = session.transition_at(AgentState::Planning, now);
        let r = match planned {
            PlanningOutcome::Planned(plan) => {
                session.execution_plan = Some(plan);
                let _ = session.transition_at(AgentState::Executing, now);
                Ok(())
            },
            PlanningOutcome::Clarification(q) => {
                let mut m = String::new();
                push_str(&mut m, "needs clarification: ");
                push_str(&mut m, q.as_str());
                let _ = session.transition_at(AgentState::Failed(m), now);
                let mut e = String::new();
                push_str(&mut e, "clarification needed: ");
                push_str(&mut e, q.as_str());
                Err(e)
            },
            PlanningOutcome::Failed(reason) => {
                let _ = session.transition_at(AgentState::Failed(reason.clone()), now);
                Err(reason)
            },
            PlanningOutcome::NoPlanner => {
                proof {
                    reveal_strlit("heuristic planner could not decompose goal and no AI provider is configured");
                    reveal_strlit("planning failed: heuristic could not handle goal and no AI is available");
                }
                let m = String::from_str("heuristic planner could not decompose goal and no AI provider is configured");
                let _ = session.transition_at(AgentState::Failed(m), now);
                Err(String::from_str("planning failed: heuristic could not handle goal and no AI is available"))
            },
        };
        self.put_session(i, session);
        proof {
            assert(self.sessions@ == old_s.update(i as int, self.sessions@[i as int]));
            lemma_update_keeps_unique(old_s, i as int, self.sessions@[i as int]);
        }
        r
    }

    /// Takes the session at `i` out, leaving a placeholder with the same id.
    fn take_session(&mut self, i: usize) -> (s: AgentSession)
        requires
            i < old(self).sessions_v().len(),
        ensures
            s == old(self).sessions_v()[i as int],
            final(self).sessions_v() == old(self).sessions_v().update(i as int, final(self).sessions_v()[i as int]),
            final(self).same_but_sessions(old(self)),
    {
        let id = self.sessions[i].session_id.clone();
        let placeholder = AgentSession::fresh(id, Goal::new(""), 0);
        let mut s = placeholder;
        std::mem::swap(&mut s, &mut self.sessions[i]);
        s
    }

    /// Puts a session back at `i`.
    fn put_session(&mut self, i: usize, s: AgentSession)
        requires
            i < old(self).sessions_v().len(),
        ensures
            final(self).sessions_v() == old(self).sessions_v().update(i as int, s),
            final(self).same_but_sessions(old(self)),
    {
        self.sessions.set(i, s);
    }
}

proof fn lemma_update_keeps_unique(s: Seq<AgentSession>, i: int, x: AgentSession)
    requires
        ids_unique(s),
        0 <= i < s.len(),
        x.session_id@ == s[i].session_id@,
    ensures
        ids_unique(s.update(i, x)),
{
}

/// What `pause_session_at` does, for time `now`.
pub open spec fn pause_post(pre: AgentRuntime, post: AgentRuntime, session_id: Seq<char>, now: i64, r: Result<(), String>) -> bool {
    &&& (post.jobs_v() == pre.jobs_v())
    &&& (post.config_v() == pre.config_v())
    &&& (index_of(pre.sessions_v(), session_id) == -1 ==> {
        &&& r is Err
        &&& r->Err_0@ == not_found_text(session_id)
        &&& post.sessions_v() == pre.sessions_v()
        &&& post.metrics_v() == pre.metrics_v()
    })
    &&& (index_of(pre.sessions_v(), session_id) >= 0 ==> {
        let i = index_of(pre.sessions_v(), session_id);
        let s = pre.sessions_v()[i];
        if s.state is Executing {
            &&& r is Ok
            &&& post.sessions_v() == pre.sessions_v().update(i, moved(s, AgentState::Paused, now))
            &&& post.metrics_v() == (RuntimeMetrics {
                active_sessions: if pre.metrics_v().active_sessions > 0 {
                    (pre.metrics_v().active_sessions - 1) as u64
                } else {
                    0
                },
                ..pre.metrics_v()
            })
        } else if s.state is Waiting {
            &&& r is Err
            &&& r->Err_0@ == transition_error_text(s.state, AgentState::Paused)
            &&& post.sessions_v() == pre.sessions_v()
            &&& post.metrics_v() == pre.metrics_v()
        } else {
            &&& r is Err
            &&& r->Err_0@ == "cannot pause session in state "@ + state_debug(s.state)
            &&& post.sessions_v() == pre.sessions_v()
            &&& post.metrics_v() == pre.metrics_v()
        }
    })
}

/// What `resume_session_at` does, for time `now`.
pub open spec fn resume_post(pre: AgentRuntime, post: AgentRuntime, session_id: Seq<char>, now: i64, r: Result<(), String>) -> bool {
    &&& (post.jobs_v() == pre.jobs_v())
    &&& (post.config_v() == pre.config_v())
    &&& (index_of(pre.sessions_v(), session_id) == -1 ==> {
        &&& r is Err
        &&& r->Err_0@ == not_found_text(session_id)
        &&& post.sessions_v() == pre.sessions_v()
        &&& post.metrics_v() == pre.metrics_v()
    })
    &&& (index_of(pre.sessions_v(), session_id) >= 0 ==> {
        let i = index_of(pre.sessions_v(), session_id);
        let s = pre.sessions_v()[i];
        if s.state is Paused {
            &&& r is Ok
            &&& post.sessions_v() == pre.sessions_v().update(i, moved(s, AgentState::Executing, now))
            &&& post.metrics_v() == (RuntimeMetrics {
                active_sessions: (pre.metrics_v().active_sessions + 1) as u64,
                ..pre.metrics_v()
            })
        } else {
            &&& r is Err
            &&& r->Err_0@ == "cannot resume session in state "@ + state_debug(s.state)
            &&& post.sessions_v() == pre.sessions_v()
            &&& post.metrics_v() == pre.metrics_v()
        }
    })
}

/// What `cancel_session_at` does, for time `now`.
pub open spec fn cancel_post(pre: AgentRuntime, post: AgentRuntime, session_id: Seq<char>, now: i64, r: Result<(), String>) -> bool {
    &&& (post.jobs_v() == pre.jobs_v())
    &&& (post.config_v() == pre.config_v())
    &&& (index_of(pre.sessions_v(), session_id) == -1 ==> {
        &&& r is Err
        &&& r->Err_0@ == not_found_text(session_id)
        &&& post.sessions_v() == pre.sessions_v()
        &&& post.metrics_v() == pre.metrics_v()
    })
    &&& (index_of(pre.sessions_v(), session_id) >= 0 ==> {
        let i = index_of(pre.sessions_v(), session_id);
        let s = pre.sessions_v()[i];
        let m = pre.metrics_v();
        if s.state.spec_is_terminal() {
            &&& r is Err
            &&& r->Err_0@ == "session already in terminal state "@ + state_debug(s.state)
            &&& post.sessions_v() == pre.sessions_v()
            &&& post.metrics_v() == m
        } else {
            &&& r is Ok
            &&& post.sessions_v() == pre.sessions_v().update(i,
                AgentSession { completed_at: Some(now), ..moved(s, AgentState::Cancelled, now) })
            &&& post.metrics_v() == (RuntimeMetrics {
                active_sessions: if s.state.spec_is_active() && m.active_sessions > 0 {
                    (m.active_sessions - 1) as u64
                } else if s.state.spec_is_active() {
                    0
                } else {
                    m.active_sessions
                },
                cancelled_sessions: (m.cancelled_sessions + 1) as u64,
                ..m
            })
        }
    })
}

/// What `restart_session_at` does, for time `now`.
pub open spec fn restart_post(pre: AgentRuntime, post: AgentRuntime, session_id: Seq<char>, now: i64, r: Result<(), String>) -> bool {
    &&& (post.jobs_v() == pre.jobs_v())
    &&& (post.config_v() == pre.config_v())
    &&& (index_of(pre.sessions_v(), session_id) == -1 ==> {
        &&& r is Err
        &&& r->Err_0@ == not_found_text(session_id)
        &&& post.sessions_v() == pre.sessions_v()
        &&& post.metrics_v() == pre.metrics_v()
    })
    &&& (index_of(pre.sessions_v(), session_id) >= 0 ==> {
        let i = index_of(pre.sessions_v(), session_id);
        let s = pre.sessions_v()[i];
        if s.state.spec_is_terminal() {
            &&& r is Ok
            &&& post.only_session_changed(&pre, i)
            &&& restarted(s, post.sessions_v()[i], now)
            &&& post.metrics_v() == (RuntimeMetrics {
                resumed_sessions: (pre.metrics_v().resumed_sessions + 1) as u64,
                ..pre.metrics_v()
            })
        } else {
            &&& r is Err
            &&& r->Err_0@ == "cannot restart session in non-terminal state "@ + state_debug(s.state)
            &&& post.sessions_v() == pre.sessions_v()
            &&& post.metrics_v() == pre.metrics_v()
        }
    })
}

impl AgentRuntime {
    /// `start_session_at` stamped with the current time.
    pub fn start_session(&mut self, session_id: &str, planned: PlanningOutcome) -> (r: Result<(), String>)
        requires
            old(self).wf(),
        ensures
            final(self).wf(),
            exists|now: i64| start_post(*old(self), *final(self), session_id@, planned, now, r),
    {
        let now = now_millis();
        self.start_session_at(session_id, planned, now)
    }

    /// Pauses an executing session. A waiting session is let through the
    /// state check but refused by the lifecycle.
    pub fn pause_session_at(&mut self, session_id: &str, now: i64) -> (r: Result<(), String>)
        requires
            old(self).wf(),
        ensures
            final(self).wf(),
            pause_post(*old(self), *final(self), session_id@, now, r),

    {
        let i = match self.find_session(session_id) {
            Some(i) => i,
            None => {
                return Err(not_found(session_id));
            },
        };
        match self.sessions[i].state {
            AgentState::Executing | AgentState::Waiting => {},
            _ => {
                return Err(state_message("cannot pause session in state ", &self.sessions[i].state));
            },
        }
        let ghost old_s = self.sessions@;
        let mut session = self.take_session(i);
        let t = session.transition_at(AgentState::Paused, now);
        self.put_session(i, session);
        proof {
            assert(self.sessions@ =~= old_s.update(i as int, self.sessions@[i as int]));
            lemma_update_keeps_unique(old_s, i as int, self.sessions@[i as int]);
        }
        match t {
            Ok(()) => {},
            Err(e) => {
                proof {
                    assert(self.sessions@ =~= old_s);
                }
                return Err(e);
            },
        }
        self.metrics.active_sessions = self.metrics.active_sessions.saturating_sub(1);
        Ok(())
    }

    /// Resumes a paused session.
    pub fn resume_session_at(&mut self, session_id: &str, now: i64) -> (r: Result<(), String>)
        requires
            old(self).wf(),
            old(self).metrics_v().active_sessions < u64::MAX,
        ensures
            final(self).wf(),
            resume_post(*old(self), *final(self), session_id@, now, r),

    {
        let i = match self.find_session(session_id) {
            Some(i) => i,
            None => {
                return Err(not_found(session_id));
            },
        };
        match self.sessions[i].state {
            AgentState::Paused => {},
            _ => {
                return Err(state_message("cannot resume session in state ", &self.sessions[i].state));
            },
        }
        let ghost old_s = self.sessions@;
        let mut session = self.take_session(i);
        let _ = session.transition_at(AgentState::Executing, now);
        self.put_session(i, session);
        proof {
            assert(self.sessions@ =~= old_s.update(i as int, self.sessions@[i as int]));
            lemma_update_keeps_unique(old_s, i as int, self.sessions@[i as int]);
        }
        self.metrics.active_sessions = self.metrics.active_sessions + 1;
        Ok(())
    }

    /// Cancels a session that is not yet in a terminal state.
    pub fn cancel_session_at(&mut self, session_id: &str, now: i64) -> (r: Result<(), String>)
        requires
            old(self).wf(),
            old(self).metrics_v().cancelled_sessions < u64::MAX,
        ensures
            final(self).wf(),
            cancel_post(*old(self), *final(self), session_id@, now, r),

    {
        let i = match self.find_session(session_id) {
            Some(i) => i,
            None => {
                return Err(not_found(session_id));
            },
        };
        if self.sessions[i].state.is_terminal() {
            return Err(state_message("session already in terminal state ", &self.sessions[i].state));
        }
        let ghost old_s = self.sessions@;
        let mut session = self.take_session(i);
        let was_active = session.state.is_active();
        let _ = session.transition_at(AgentState::Cancelled, now);
        session.completed_at = Some(now);
        self.put_session(i, session);
        proof {
            assert(self.sessions@ =~= old_s.update(i as int, self.sessions@[i as int]));
            lemma_update_keeps_unique(old_s, i as int, self.sessions@[i as int]);
        }
        if was_active {
            self.metrics.active_sessions = self.metrics.active_sessions.saturating_sub(1);
        }
        self.metrics.cancelled_sessions = self.metrics.cancelled_sessions + 1;
        Ok(())
    }

    /// Resets a session in a terminal state to `Created` with fresh counters,
    /// keeping its id, goal, tags and creation time.
    pub fn restart_session_at(&mut self, session_id: &str, now: i64) -> (r: Result<(), String>)
        requires
            old(self).wf(),
            old(self).metrics_v().resumed_sessions < u64::MAX,
        ensures
            final(self).wf(),
            restart_post(*old(self), *final(self), session_id@, now, r),

    {
        let i = match self.find_session(session_id) {
            Some(i) => i,
            None => {
                return Err(not_found(session_id));
            },
        };
        if !self.sessions[i].state.is_terminal() {
            return Err(state_message("cannot restart session in non-terminal state ", &self.sessions[i].state));
        }
        let ghost old_s = self.sessions@;
        let mut session = self.take_session(i);
        session.state = AgentState::Created;
        session.execution_plan = None;
        session.current_step_index = 0;
        session.started_at = None;
        session.completed_at = None;
        session.updated_at = now;
        session.retry_count = 0;
        session.recovery_count = 0;
        session.replan_count = 0;
        session.report = None;
        session.metrics = SessionMetrics::default();
        self.put_session(i, session);
        proof {
            assert(self.sessions@ =~= old_s.update(i as int, self.sessions@[i as int]));
            lemma_update_keeps_unique(old_s, i as int, self.sessions@[i as int]);
        }
        self.metrics.resumed_sessions = self.metrics.resumed_sessions + 1;
        Ok(())
    }
}

impl AgentRuntime {
    /// `pause_session_at` stamped with the current time.
    pub fn pause_session(&mut self, session_id: &str) -> (r: Result<(), String>)
        requires
            old(self).wf(),
        ensures
            final(self).wf(),
            exists|now: i64| pause_post(*old(self), *final(self), session_id@, now, r),
    {
        let now = now_millis();
        self.pause_session_at(session_id, now)
    }

    /// `resume_session_at` stamped with the current time.
    pub fn resume_session(&mut self, session_id: &str) -> (r: Result<(), String>)
        requires
            old(self).wf(),
            old(self).metrics_v().active_sessions < u64::MAX,
        ensures
            final(self).wf(),
            exists|now: i64| resume_post(*old(self), *final(self), session_id@, now, r),
    {
        let now = now_millis();
        self.resume_session_at(session_id, now)
    }

    /// `cancel_session_at` stamped with the current time.
    pub fn cancel_session(&mut self, session_id: &str) -> (r: Result<(), String>)
        requires
            old(self).wf(),
            old(self).metrics_v().cancelled_sessions < u64::MAX,
        ensures
            final(self).wf(),
            exists|now: i64| cancel_post(*old(self), *final(self), session_id@, now, r),
    {
        let now = now_millis();
        self.cancel_session_at(session_id, now)
    }

    /// `restart_session_at` stamped with the current time.
    pub fn restart_session(&mut self, session_id: &str) -> (r: Result<(), String>)
        requires
            old(self).wf(),
            old(self).metrics_v().resumed_sessions < u64::MAX,
        ensures
            final(self).wf(),
            exists|now: i64| restart_post(*old(self), *final(self), session_id@, now, r),
    {
        let now = now_millis();
        self.restart_session_at(session_id, now)
    }
}

/// The sessions a list of references points at.
pub open spec fn deref_all(s: Seq<&AgentSession>) -> Seq<AgentSession> {
    s.map_values(|p: &AgentSession| *p)
}

/// The sessions that satisfy `pred`, in order.
pub open spec fn sessions_where(s: Seq<AgentSession>, pred: spec_fn(AgentState) -> bool) -> Seq<AgentSession>
    decreases s.len(),
{
    if s.len() == 0 {
        Seq::empty()
    } else if pred(s.last().state) {
        sessions_where(s.drop_last(), pred).push(s.last())
    } else {
        sessions_where(s.drop_last(), pred)
    }
}

pub open spec fn is_active_state(st: AgentState) -> bool {
    st.spec_is_active()
}

pub open spec fn is_terminal_state(st: AgentState) -> bool {
    st.spec_is_terminal()
}

impl AgentRuntime {
    fn collect_where(&self, terminal: bool) -> (r: Vec<&AgentSession>)
        ensures
            deref_all(r@) == sessions_where(
                self.sessions_v(),
                if terminal { |st: AgentState| is_terminal_state(st) } else { |st: AgentState| is_active_state(st) },
            ),
    {
        let ghost pred = if terminal { |st: AgentState| is_terminal_state(st) } else { |st: AgentState| is_active_state(st) };
        let mut out: Vec<&AgentSession> = Vec::new();
        let n = self.sessions.len();
        let mut i: usize = 0;
        while i < n
            invariant
                n == self.sessions@.len(),
                i <= n,
                pred == (if terminal { |st: AgentState| is_terminal_state(st) } else { |st: AgentState| is_active_state(st) }),
                deref_all(out@) == sessions_where(self.sessions@.take(i as int), pred),
            decreases n - i,
        {
            let s = &self.sessions[i];
            let keep = if terminal { s.state.is_terminal() } else { s.state.is_active() };
            proof {
                assert(self.sessions@.take(i + 1).drop_last() =~= self.sessions@.take(i as int));
            }
            if keep {
                out.push(s);
                proof {
                    assert(deref_all(out@) =~= sessions_where(self.sessions@.take(i + 1), pred));
                }
            }
            i = i + 1;
        }
        proof {
            assert(self.sessions@.take(n as int) =~= self.sessions@);
        }
        out
    }

    /// The sessions that are planning, executing, waiting or recovering.
    pub fn running_sessions(&self) -> (r: Vec<&AgentSession>)
        ensures
            deref_all(r@) == sessions_where(self.sessions_v(), |st: AgentState| is_active_state(st)),
    {
        self.collect_where(false)
    }

    /// The sessions in a terminal state.
    pub fn completed_sessions(&self) -> (r: Vec<&AgentSession>)
        ensures
            deref_all(r@) == sessions_where(self.sessions_v(), |st: AgentState| is_terminal_state(st)),
    {
        self.collect_where(true)
    }
}

/// The sessions whose mark is not set, in order.
pub open spec fn keep_unmarked(s: Seq<AgentSession>, m: Seq<bool>) -> Seq<AgentSession>
    decreases s.len(),
{
    if s.len() == 0 {
        s
    } else if m[s.len() - 1] {
        keep_unmarked(s.drop_last(), m)
    } else {
        keep_unmarked(s.drop_last(), m).push(s.last())
    }
}

proof fn lemma_keep_unmarked(s: Seq<AgentSession>, m: Seq<bool>)
    ensures
        keep_unmarked(s, m).len() <= s.len(),
        forall|k: int| 0 <= k < keep_unmarked(s, m).len() ==>
            exists|j: int| 0 <= j < s.len() && #[trigger] keep_unmarked(s, m)[k] == s[j],
        ids_unique(s) ==> ids_unique(keep_unmarked(s, m)),
    decreases s.len(),
{
    if s.len() > 0 {
        let d = s.drop_last();
        lemma_keep_unmarked(d, m);
        let r = keep_unmarked(d, m);
        assert forall|k: int| 0 <= k < r.len() implies exists|j: int| 0 <= j < s.len() && #[trigger] r[k] == s[j] by {
            let j = choose|j: int| 0 <= j < d.len() && r[k] == d[j];
            assert(r[k] == s[j]);
        }
        if !m[s.len() - 1] {
            let t = r.push(s.last());
            assert forall|k: int| 0 <= k < t.len() implies exists|j: int| 0 <= j < s.len() && #[trigger] t[k] == s[j] by {
                if k < r.len() {
                    assert(t[k] == r[k]);
                } else {
                    assert(t[k] == s[s.len() - 1]);
                }
            }
            if ids_unique(s) {
                assert forall|a: int, b: int| 0 <= a < b < t.len() implies t[a].session_id@ != t[b].session_id@ by {
                    if b == t.len() - 1 {
                        let j = choose|j: int| 0 <= j < d.len() && r[a] == d[j];
                        assert(t[a] == s[j]);
                    } else {
                        assert(t[a] == r[a] && t[b] == r[b]);
                    }
                }
            }
        }
    }
}

/// How many of the sessions are in a terminal state.
pub open spec fn count_terminal(s: Seq<AgentSession>) -> nat {
    sessions_where(s, |st: AgentState| is_terminal_state(st)).len()
}

/// `prune_completed` removes the first `k` terminal sessions.
pub open spec fn prune_marks(s: Seq<AgentSession>, k: nat) -> Seq<bool> {
    Seq::new(s.len(), |i: int| s[i].state.spec_is_terminal() && count_terminal(s.take(i)) < k)
}

/// A terminal session that finished (or last changed) more than the
/// retention window before `now`.
pub open spec fn expired(s: AgentSession, now: i64, retention_ms: u64) -> bool {
    let completed = match s.completed_at {
        Some(t) => t,
        None => s.updated_at,
    };
    s.state.spec_is_terminal() && now - completed > (retention_ms as i64)
}

pub open spec fn cleanup_marks(s: Seq<AgentSession>, now: i64, retention_ms: u64) -> Seq<bool> {
    Seq::new(s.len(), |i: int| expired(s[i], now, retention_ms))
}

/// How many marks are set.
pub open spec fn count_marked(m: Seq<bool>) -> nat
    decreases m.len(),
{
    if m.len() == 0 {
        0
    } else {
        count_marked(m.drop_last()) + if m.last() { 1nat } else { 0nat }
    }
}

impl AgentRuntime {
    /// Removes the sessions whose mark is set, keeping the others in order.
    fn remove_marked(&mut self, marks: &Vec<bool>)
        requires
            old(self).wf(),
            marks@.len() == old(self).sessions_v().len(),
        ensures
            final(self).wf(),
            final(self).same_but_sessions(old(self)),
            final(self).sessions_v() == keep_unmarked(old(self).sessions_v(), marks@),
    {
        let ghost orig = self.sessions@;
        let mut rest = Vec::new();
        std::mem::swap(&mut rest, &mut self.sessions);
        let mut kept: Vec<AgentSession> = Vec::new();
        let n = rest.len();
        let mut i: usize = 0;
        while i < n
            invariant
                n == orig.len(),
                marks@.len() == n,
                i <= n,
                rest@ == orig.skip(i as int),
                kept@ == keep_unmarked(orig.take(i as int), marks@),
                self.sessions@.len() == 0,
                self.config == old(self).config,
                self.metrics == old(self).metrics,
                self.scheduled_jobs == old(self).scheduled_jobs,
            decreases n - i,
        {
            let s = rest.remove(0);
            proof {
                assert(orig.take(i + 1).drop_last() =~= orig.take(i as int));
                assert(s == orig[i as int]);
                assert(rest@ =~= orig.skip(i + 1));
            }
            if !marks[i] {
                kept.push(s);
            }
            i = i + 1;
        }
        proof {
            assert(orig.take(n as int) =~= orig);
            lemma_keep_unmarked(orig, marks@);
        }
        self.sessions = kept;
    }

    /// Counts the terminal sessions among the first `i`.
    fn terminal_before(&self) -> (r: Vec<bool>)
        ensures
            r@.len() == self.sessions_v().len(),
            forall|i: int| 0 <= i < r@.len() ==> r@[i] == self.sessions_v()[i].state.spec_is_terminal(),
    {
        let mut r: Vec<bool> = Vec::new();
        let n = self.sessions.len();
        let mut i: usize = 0;
        while i < n
            invariant
                n == self.sessions@.len(),
                i <= n,
                r@.len() == i,
                forall|j: int| 0 <= j < i ==> r@[j] == self.sessions@[j].state.spec_is_terminal(),
            decreases n - i,
        {
            r.push(self.sessions[i].state.is_terminal());
            i = i + 1;
        }
        r
    }

    /// Removes the oldest terminal sessions so that at most `max_to_keep`
    /// remain; answers how many were removed.
    pub fn prune_completed(&mut self, max_to_keep: usize) -> (removed: u64)
        requires
            old(self).wf(),
        ensures
            final(self).wf(),
            final(self).same_but_sessions(old(self)),
            count_terminal(old(self).sessions_v()) <= max_to_keep ==> removed == 0
                && final(self).sessions_v() == old(self).sessions_v(),
            count_terminal(old(self).sessions_v()) > max_to_keep ==> {
                let k = (count_terminal(old(self).sessions_v()) - max_to_keep) as nat;
                &&& removed == k
                &&& final(self).sessions_v() == keep_unmarked(old(self).sessions_v(), prune_marks(old(self).sessions_v(), k))
            },
    {
        let term = self.terminal_before();
        let n = term.len();
        let ghost s = self.sessions@;
        let mut total: usize = 0;
        let mut i: usize = 0;
        while i < n
            invariant
                n == s.len(),
                s == self.sessions@,
                term@.len() == n,
                forall|j: int| 0 <= j < n ==> term@[j] == s[j].state.spec_is_terminal(),
                i <= n,
                total == count_terminal(s.take(i as int)),
                total <= i,
            decreases n - i,
        {
            proof {
                assert(s.take(i + 1).drop_last() =~= s.take(i as int));
                reveal_with_fuel(sessions_where, 2);
            }
            if term[i] {
                total = total + 1;
            }
            i = i + 1;
        }
        proof {
            assert(s.take(n as int) =~= s);
        }
        if total <= max_to_keep {
            return 0;
        }
        let to_remove = total - max_to_keep;
        let mut marks: Vec<bool> = Vec::new();
        let mut seen: usize = 0;
        let mut j: usize = 0;
        while j < n
            invariant
                n == s.len(),
                s == self.sessions@,
                term@.len() == n,
                forall|q: int| 0 <= q < n ==> term@[q] == s[q].state.spec_is_terminal(),
                j <= n,
                seen == count_terminal(s.take(j as int)),
                seen <= j,
                marks@.len() == j,
                forall|q: int| 0 <= q < j ==> marks@[q] == prune_marks(s, to_remove as nat)[q],
            decreases n - j,
        {
            proof {
                assert(s.take(j + 1).drop_last() =~= s.take(j as int));
                reveal_with_fuel(sessions_where, 2);
            }
            marks.push(term[j] && seen < to_remove);
            if term[j] {
                seen = seen + 1;
            }
            j = j + 1;
        }
        proof {
            assert(marks@ =~= prune_marks(s, to_remove as nat));
        }
        self.remove_marked(&marks);
        to_remove as u64
    }
}

impl AgentRuntime {
    /// Removes terminal sessions that finished more than the retention
    /// window before `now`; answers how many were removed.
    pub fn cleanup_sessions_at(&mut self, now: i64) -> (removed: u64)
        requires
            old(self).wf(),
            old(self).metrics_v().cleaned_up_sessions + old(self).sessions_v().len() <= u64::MAX,
        ensures
            final(self).wf(),
            final(self).jobs_v() == old(self).jobs_v(),
            final(self).config_v() == old(self).config_v(),
            ({
                let m = cleanup_marks(old(self).sessions_v(), now, old(self).config_v().retention_window_ms);
                &&& removed == count_marked(m)
                &&& final(self).sessions_v() == keep_unmarked(old(self).sessions_v(), m)
                &&& final(self).metrics_v() == (RuntimeMetrics {
                    cleaned_up_sessions: (old(self).metrics_v().cleaned_up_sessions + removed) as u64,
                    ..old(self).metrics_v()
                })
            }),
    {
        let ghost s = self.sessions@;
        let retention = self.config.retention_window_ms as i64;
        let mut marks: Vec<bool> = Vec::new();
        let mut count: u64 = 0;
        let n = self.sessions.len();
        let mut i: usize = 0;
        while i < n
            invariant
                n == s.len(),
                s == self.sessions@,
                retention == (self.config.retention_window_ms as i64),
                i <= n,
                marks@.len() == i,
                forall|q: int| 0 <= q < i ==> marks@[q] == cleanup_marks(s, now, self.config.retention_window_ms)[q],
                count == count_marked(marks@),
                count <= i,
            decreases n - i,
        {
            let sess = &self.sessions[i];
            let completed = match sess.completed_at {
                Some(t) => t,
                None => sess.updated_at,
            };
            let gone = sess.state.is_terminal() && (now as i128) - (completed as i128) > retention as i128;
            let ghost pm = marks@;
            marks.push(gone);
            proof {
                assert(marks@.drop_last() =~= pm);
            }
            if gone {
                count = count + 1;
            }
            i = i + 1;
        }
        proof {
            assert(marks@ =~= cleanup_marks(s, now, self.config.retention_window_ms));
        }
        self.remove_marked(&marks);
        self.metrics.cleaned_up_sessions = self.metrics.cleaned_up_sessions + count;
        count
    }

    /// `cleanup_sessions_at` with the current time.
    pub fn cleanup_sessions(&mut self) -> (removed: u64)
        requires
            old(self).wf(),
            old(self).metrics_v().cleaned_up_sessions + old(self).sessions_v().len() <= u64::MAX,
        ensures
            final(self).wf(),
            final(self).jobs_v() == old(self).jobs_v(),
            final(self).config_v() == old(self).config_v(),
            exists|now: i64|
                #![trigger cleanup_marks(old(self).sessions_v(), now, old(self).config_v().retention_window_ms)]
            {
                let m = cleanup_marks(old(self).sessions_v(), now, old(self).config_v().retention_window_ms);
                &&& removed == count_marked(m)
                &&& final(self).sessions_v() == keep_unmarked(old(self).sessions_v(), m)
                &&& final(self).metrics_v() == (RuntimeMetrics {
                    cleaned_up_sessions: (old(self).metrics_v().cleaned_up_sessions + removed) as u64,
                    ..old(self).metrics_v()
                })
            },
    {
        let now = now_millis();
        self.cleanup_sessions_at(now)
    }
}

/// A session that `resume_pending` picks up again.
pub open spec fn resumable(s: AgentSession) -> bool {
    s.state is Planning || s.state is Waiting || s.state is Recovering
        || (s.state is Executing && s.execution_plan is Some)
}

/// A resumable session that is also counted as recovered.
pub open spec fn recoverable(s: AgentSession) -> bool {
    s.state is Recovering || (s.state is Executing && s.execution_plan is Some)
}

pub open spec fn count_resumable(s: Seq<AgentSession>) -> nat
    decreases s.len(),
{
    if s.len() == 0 {
        0
    } else {
        count_resumable(s.drop_last()) + if resumable(s.last()) { 1nat } else { 0nat }
    }
}

pub open spec fn count_recoverable(s: Seq<AgentSession>) -> nat
    decreases s.len(),
{
    if s.len() == 0 {
        0
    } else {
        count_recoverable(s.drop_last()) + if recoverable(s.last()) { 1nat } else { 0nat }
    }
}

proof fn lemma_counts_bounded(s: Seq<AgentSession>)
    ensures
        count_resumable(s) <= s.len(),
        count_recoverable(s) <= s.len(),
    decreases s.len(),
{
    if s.len() > 0 {
        lemma_counts_bounded(s.drop_last());
    }
}

/// The sessions after `resume_pending`: a recovering session goes back to
/// planning, the others stay as they are.
pub open spec fn resumed_sessions(s: Seq<AgentSession>, now: i64) -> Seq<AgentSession> {
    Seq::new(s.len(), |i: int| if s[i].state is Recovering { moved(s[i], AgentState::Planning, now) } else { s[i] })
}

impl AgentRuntime {
    /// Picks up the sessions that were running when the runtime stopped: a
    /// recovering session goes back to planning; answers how many were
    /// picked up.
    pub fn resume_pending_at(&mut self, now: i64) -> (count: u64)
        requires
            old(self).wf(),
            old(self).metrics_v().resumed_sessions + old(self).sessions_v().len() <= u64::MAX,
            old(self).metrics_v().recovered_sessions + old(self).sessions_v().len() <= u64::MAX,
        ensures
            final(self).wf(),
            final(self).jobs_v() == old(self).jobs_v(),
            final(self).config_v() == old(self).config_v(),
            count == count_resumable(old(self).sessions_v()),
            final(self).sessions_v() == resumed_sessions(old(self).sessions_v(), now),
            final(self).metrics_v() == (RuntimeMetrics {
                resumed_sessions: (old(self).metrics_v().resumed_sessions + count_resumable(old(self).sessions_v())) as u64,
                recovered_sessions: (old(self).metrics_v().recovered_sessions + count_recoverable(old(self).sessions_v())) as u64,
                ..old(self).metrics_v()
            }),
    {
        let ghost s0 = self.sessions@;
        let n = self.sessions.len();
        let mut count: u64 = 0;
        let mut recovered: u64 = 0;
        let mut i: usize = 0;
        proof {
            lemma_counts_bounded(s0);
        }
        while i < n
            invariant
                n == s0.len(),
                self.sessions@.len() == n,
                i <= n,
                ids_unique(self.sessions@),
                forall|q: int| 0 <= q < i ==> self.sessions@[q] == resumed_sessions(s0, now)[q],
                forall|q: int| i <= q < n ==> self.sessions@[q] == s0[q],
                count == count_resumable(s0.take(i as int)),
                recovered == count_recoverable(s0.take(i as int)),
                count_resumable(s0) <= n,
                count_recoverable(s0) <= n,
                count_resumable(s0.take(i as int)) <= i,
                count_recoverable(s0.take(i as int)) <= i,
                self.same_but_sessions(old(self)),
            decreases n - i,
        {
            proof {
                assert(s0.take(i + 1).drop_last() =~= s0.take(i as int));
            }
            let st_kind: u8 = match &self.sessions[i].state {
                AgentState::Planning | AgentState::Waiting => 1,
                AgentState::Executing => if self.sessions[i].execution_plan.is_some() { 2 } else { 0 },
                AgentState::Recovering => 3,
                _ => 0,
            };
            if st_kind == 3 {
                let ghost before = self.sessions@;
                let mut sess = self.take_session(i);
                let _ = sess.transition_at(AgentState::Planning, now);
                self.put_session(i, sess);
                proof {
                    assert(self.sessions@ =~= before.update(i as int, self.sessions@[i as int]));
                    lemma_update_keeps_unique(before, i as int, self.sessions@[i as int]);
                }
            }
            if st_kind != 0 {
                count = count + 1;
            }
            if st_kind >= 2 {
                recovered = recovered + 1;
            }
            i = i + 1;
        }
        proof {
            assert(s0.take(n as int) =~= s0);
            assert(self.sessions@ =~= resumed_sessions(s0, now));
        }
        self.metrics.resumed_sessions = self.metrics.resumed_sessions + count;
        self.metrics.recovered_sessions = self.metrics.recovered_sessions + recovered;
        count
    }
}

/// The sessions after the stored ones are put back one by one under their
/// ids.
pub open spec fn restored(s: Seq<AgentSession>, t: Seq<AgentSession>) -> Seq<AgentSession>
    decreases t.len(),
{
    if t.len() == 0 {
        s
    } else {
        insert_session(restored(s, t.drop_last()), t.last())
    }
}

/// The runtime metrics after a tick changed a session into `after`.
pub open spec fn metrics_after_tick(m: RuntimeMetrics, after: AgentSession) -> RuntimeMetrics {
    let m1 = RuntimeMetrics {
        total_steps_executed: (m.total_steps_executed + after.metrics.completed_steps) as u64,
        total_recoveries: (m.total_recoveries + after.metrics.recoveries) as u64,
        total_replans: (m.total_replans + after.metrics.replans) as u64,
        ..m
    };
    let active = if m1.active_sessions > 0 { (m1.active_sessions - 1) as u64 } else { 0 };
    match after.state {
        AgentState::Completed => RuntimeMetrics {
            completed_sessions: (m1.completed_sessions + 1) as u64,
            active_sessions: active,
            ..m1
        },
        AgentState::Failed(_) => RuntimeMetrics {
            failed_sessions: (m1.failed_sessions + 1) as u64,
            active_sessions: active,
            ..m1
        },
        AgentState::TimedOut => RuntimeMetrics {
            timed_out_sessions: (m1.timed_out_sessions + 1) as u64,
            active_sessions: active,
            ..m1
        },
        _ => m1,
    }
}

/// The runtime counters can take the most a tick of `s` with `rep` adds,
/// and the session's own step counters have room.
pub open spec fn tick_room(m: RuntimeMetrics, s: AgentSession, rep: Option<GoalExecutionReport>) -> bool {
    &&& counters_have_room(s)
    &&& m.completed_sessions < u64::MAX
    &&& m.failed_sessions < u64::MAX
    &&& m.timed_out_sessions < u64::MAX
    &&& m.total_steps_executed + s.metrics.completed_steps + 1 <= u64::MAX
    &&& match rep {
        Some(r) => m.total_steps_executed + r.completed_steps <= u64::MAX,
        None => true,
    }
    &&& m.total_recoveries + s.metrics.recoveries <= u64::MAX
    &&& m.total_replans + s.metrics.replans + 1 <= u64::MAX
}

/// The runtime counters can take what a tick of `after` adds.
pub open spec fn tick_metrics_fit(m: RuntimeMetrics, after: AgentSession) -> bool {
    &&& m.total_steps_executed + after.metrics.completed_steps <= u64::MAX
    &&& m.total_recoveries + after.metrics.recoveries <= u64::MAX
    &&& m.total_replans + after.metrics.replans <= u64::MAX
    &&& m.completed_sessions < u64::MAX
    &&& m.failed_sessions < u64::MAX
    &&& m.timed_out_sessions < u64::MAX
}

impl AgentRuntime {
    /// `resume_pending_at` with the current time.
    pub fn resume_pending(&mut self) -> (count: u64)
        requires
            old(self).wf(),
            old(self).metrics_v().resumed_sessions + old(self).sessions_v().len() <= u64::MAX,
            old(self).metrics_v().recovered_sessions + old(self).sessions_v().len() <= u64::MAX,
        ensures
            final(self).wf(),
            final(self).jobs_v() == old(self).jobs_v(),
            final(self).config_v() == old(self).config_v(),
            count == count_resumable(old(self).sessions_v()),
            exists|now: i64| final(self).sessions_v() == #[trigger] resumed_sessions(old(self).sessions_v(), now),
            final(self).metrics_v() == (RuntimeMetrics {
                resumed_sessions: (old(self).metrics_v().resumed_sessions + count_resumable(old(self).sessions_v())) as u64,
                recovered_sessions: (old(self).metrics_v().recovered_sessions + count_recoverable(old(self).sessions_v())) as u64,
                ..old(self).metrics_v()
            }),
    {
        let now = now_millis();
        self.resume_pending_at(now)
    }

    /// Puts stored sessions back, each under its id; answers how many.
    pub fn restore_sessions(&mut self, stored: Vec<AgentSession>) -> (count: u64)
        requires
            old(self).wf(),
            old(self).metrics_v().persistence_loads + stored@.len() <= u64::MAX,
        ensures
            final(self).wf(),
            final(self).jobs_v() == old(self).jobs_v(),
            final(self).config_v() == old(self).config_v(),
            count == stored@.len(),
            final(self).sessions_v() == restored(old(self).sessions_v(), stored@),
            final(self).metrics_v() == (RuntimeMetrics {
                persistence_loads: (old(self).metrics_v().persistence_loads + stored@.len()) as u64,
                ..old(self).metrics_v()
            }),
    {
        let ghost t = stored@;
        let mut rest = stored;
        let n = rest.len();
        let mut i: usize = 0;
        while i < n
            invariant
                n == t.len(),
                i <= n,
                rest@ == t.skip(i as int),
                self.wf(),
                self.sessions_v() == restored(old(self).sessions_v(), t.take(i as int)),
                self.same_but_sessions(old(self)),
            decreases n - i,
        {
            let x = rest.remove(0);
            proof {
                assert(x == t[i as int]);
                assert(rest@ =~= t.skip(i + 1));
                assert(t.take(i + 1).drop_last() =~= t.take(i as int));
                lemma_insert_session(self.sessions@, x);
            }
            let ghost before = self.sessions@;
            let id = x.session_id.clone();
            match self.find_session(id.as_str()) {
                Some(k) => {
                    self.sessions.set(k, x);
                },
                None => {
                    self.sessions.push(x);
                },
            }
            proof {
                assert(self.sessions@ == insert_session(before, x));
            }
            i = i + 1;
        }
        proof {
            assert(t.take(n as int) =~= t);
        }
        self.metrics.persistence_loads = self.metrics.persistence_loads + n as u64;
        n as u64
    }

    /// The runtime metrics, with `runtime_duration_ms` measured up to `now`.
    pub fn metrics_at(&self, now: i64) -> (m: RuntimeMetrics)
        requires
            self.metrics_v().runtime_started_at matches Some(t) ==> i64::MIN <= now - t <= i64::MAX,
        ensures
            m == (match self.metrics_v().runtime_started_at {
                Some(t) => RuntimeMetrics { runtime_duration_ms: (now - t) as i64, ..self.metrics_v() },
                None => self.metrics_v(),
            }),
    {
        let mut m = self.metrics;
        if let Some(started) = m.runtime_started_at {
            m.runtime_duration_ms = now - started;
        }
        m
    }

    /// The runtime metrics, with `runtime_duration_ms` measured up to the
    /// current time; when that span does not fit in an `i64` the duration
    /// is left as it was.
    pub fn metrics(&self) -> (m: RuntimeMetrics)
        ensures
            m == (RuntimeMetrics { runtime_duration_ms: m.runtime_duration_ms, ..self.metrics_v() }),
            self.metrics_v().runtime_started_at is None ==> m == self.metrics_v(),
    {
        let now = now_millis();
        if let Some(started) = self.metrics.runtime_started_at {
            let d = (now as i128) - (started as i128);
            if d < i64::MIN as i128 || d > i64::MAX as i128 {
                return self.metrics;
            }
        }
        self.metrics_at(now)
    }

    /// Whether a tick of the session at `i` at `now`, with what the plan
    /// executor gave, can be taken in: the report is there when work was
    /// asked for, and no counter could overflow (tested against the most a
    /// tick can add).
    pub fn tick_fits(&self, i: usize, now: i64, report: &Option<GoalExecutionReport>) -> (r: bool)
        requires
            i < self.sessions_v().len(),
        ensures
            r == (tick_room(self.metrics_v(), self.sessions_v()[i as int], *report)
                && (work_spec(self.config_v(), self.sessions_v()[i as int], now) !is Idle ==> report is Some)),
            r ==> forall|msg: String|
                #[trigger] tick_metrics_fit(self.metrics_v(), tick_session(self.config_v(), self.sessions_v()[i as int], now, *report, msg).0),
    {
        let work = self.work_for_session(i, now);
        let reported = match work {
            StepWork::Idle => true,
            _ => report.is_some(),
        };
        let s = &self.sessions[i];
        let m = &self.metrics;
        let max = u64::MAX as u128;
        let report_fits = match report {
            Some(rep) => (m.total_steps_executed as u128) + (rep.completed_steps as u128) <= max,
            None => true,
        };
        let r = reported
            && s.metrics.completed_steps < u64::MAX
            && s.metrics.failed_steps < u64::MAX
            && s.metrics.retries < u64::MAX
            && s.metrics.replans < u64::MAX
            && m.completed_sessions < u64::MAX
            && m.failed_sessions < u64::MAX
            && m.timed_out_sessions < u64::MAX
            && (m.total_steps_executed as u128) + (s.metrics.completed_steps as u128) + 1 <= max
            && report_fits
            && (m.total_recoveries as u128) + (s.metrics.recoveries as u128) <= max
            && (m.total_replans as u128) + (s.metrics.replans as u128) + 1 <= max;
        proof {
            if r {
                assert forall|msg: String|
                    #[trigger] tick_metrics_fit(self.metrics_v(), tick_session(self.config_v(), self.sessions_v()[i as int], now, *report, msg).0) by {
                }
            }
        }
        r
    }

    /// What the plan executor must run for the session at `i`.
    pub fn work_for_session(&self, i: usize, now: i64) -> (w: StepWork)
        requires
            i < self.sessions_v().len(),
        ensures
            w == work_spec(self.config_v(), self.sessions_v()[i as int], now),
    {
        let sched = AgentScheduler::new(&self.config);
        sched.work_for(&self.sessions[i], now)
    }

    /// One scheduler tick of the session at `i`, given what the plan
    /// executor gave for `work_for_session`; the runtime metrics take in
    /// what the tick changed. Says whether the session changed.
    pub fn tick_session_at(&mut self, i: usize, now: i64, report: Option<GoalExecutionReport>) -> (changed: bool)
        requires
            old(self).wf(),
            i < old(self).sessions_v().len(),
            counters_have_room(old(self).sessions_v()[i as int]),
            work_spec(old(self).config_v(), old(self).sessions_v()[i as int], now) !is Idle ==> report is Some,
            tick_metrics_fit(old(self).metrics_v(),
                tick_session(old(self).config_v(), old(self).sessions_v()[i as int], now, report, vstd::pervasive::arbitrary()).0),
        ensures
            final(self).wf(),
            final(self).jobs_v() == old(self).jobs_v(),
            final(self).config_v() == old(self).config_v(),
            exists|msg: String|
                #![trigger tick_session(old(self).config_v(), old(self).sessions_v()[i as int], now, report, msg)]
            {
                let (after, c) = tick_session(old(self).config_v(), old(self).sessions_v()[i as int], now, report, msg);
                &&& (uses_fallback(old(self).config_v(), old(self).sessions_v()[i as int], now, report)
                    ==> msg@ == fallback_text(old(self).sessions_v()[i as int]))
                &&& changed == c
                &&& final(self).sessions_v() == old(self).sessions_v().update(i as int, after)
                &&& final(self).metrics_v() == if c { metrics_after_tick(old(self).metrics_v(), after) } else { old(self).metrics_v() }
            },
    {
        let ghost old_s = self.sessions@;
        let ghost s = self.sessions@[i as int];
        let sched = AgentScheduler::new(&self.config);
        let mut sess = self.take_session(i);
        let changed = sched.advance(&mut sess, now, report);
        let ghost msg = choose|msg: String|
            #![trigger tick_session(self.config, s, now, report, msg)]
            (uses_fallback(self.config, s, now, report) ==> msg@ == fallback_text(s))
            && (sess, changed) == tick_session(self.config, s, now, report, msg);
        proof {
            assert(sess.metrics == tick_session(self.config, s, now, report, vstd::pervasive::arbitrary()).0.metrics);
            assert(sess.session_id == s.session_id);
        }
        if changed {
            self.metrics.total_steps_executed = self.metrics.total_steps_executed + sess.metrics.completed_steps;
            self.metrics.total_recoveries = self.metrics.total_recoveries + sess.metrics.recoveries;
            self.metrics.total_replans = self.metrics.total_replans + sess.metrics.replans;
            match &sess.state {
                AgentState::Completed => {
                    self.metrics.completed_sessions = self.metrics.completed_sessions + 1;
                    self.metrics.active_sessions = self.metrics.active_sessions.saturating_sub(1);
                },
                AgentState::Failed(_) => {
                    self.metrics.failed_sessions = self.metrics.failed_sessions + 1;
                    self.metrics.active_sessions = self.metrics.active_sessions.saturating_sub(1);
                },
                AgentState::TimedOut => {
                    self.metrics.timed_out_sessions = self.metrics.timed_out_sessions + 1;
                    self.metrics.active_sessions = self.metrics.active_sessions.saturating_sub(1);
                },
                _ => {},
            }
        }
        self.put_session(i, sess);
        proof {
            assert(self.sessions@ =~= old_s.update(i as int, self.sessions@[i as int]));
            lemma_update_keeps_unique(old_s, i as int, self.sessions@[i as int]);
        }
        changed
    }
}

/// `t` is `s` with `j` put after every job that runs no later than it and
/// before every job that runs after it.
pub open spec fn inserted_in_order(s: Seq<ScheduledJob>, j: ScheduledJob, t: Seq<ScheduledJob>) -> bool {
    exists|p: int|
        #![trigger s.insert(p, j)]
        0 <= p <= s.len()
        && (forall|q: int| 0 <= q < p ==> job_key_le(s[q], j))
        && (forall|q: int| p <= q < s.len() ==> !job_key_le(s[q], j))
        && t == s.insert(p, j)
}

proof fn lemma_insert_sorted(s: Seq<ScheduledJob>, j: ScheduledJob, p: int)
    requires
        jobs_sorted(s),
        0 <= p <= s.len(),
        forall|q: int| 0 <= q < p ==> job_key_le(s[q], j),
        forall|q: int| p <= q < s.len() ==> !job_key_le(s[q], j),
    ensures
        jobs_sorted(s.insert(p, j)),
{
    let t = s.insert(p, j);
    assert forall|a: int, b: int| 0 <= a < b < t.len() implies job_key_le(t[a], t[b]) by {
        if b < p {
            assert(t[a] == s[a] && t[b] == s[b]);
        } else if b == p {
            assert(t[a] == s[a]);
        } else if a < p {
            assert(t[a] == s[a] && t[b] == s[b - 1]);
        } else if a == p {
            assert(t[b] == s[b - 1]);
        } else {
            assert(t[a] == s[a - 1] && t[b] == s[b - 1]);
        }
    }
}

/// Puts `j` into the ordered list after every job that runs no later.
fn insert_job(v: &mut Vec<ScheduledJob>, j: ScheduledJob)
    requires
        jobs_sorted(old(v)@),
    ensures
        jobs_sorted(final(v)@),
        inserted_in_order(old(v)@, j, final(v)@),
        final(v)@.to_multiset() == old(v)@.to_multiset().insert(j),
{
    let n = v.len();
    let mut p = n;
    while p > 0
        invariant
            p <= n,
            n == v@.len(),
            *v == *old(v),
            jobs_sorted(v@),
            forall|q: int| p <= q < n ==> !job_key_le(v@[q], j),
        ensures
            p <= n,
            *v == *old(v),
            forall|q: int| p <= q < n ==> !job_key_le(v@[q], j),
            p == 0 || job_key_le(v@[p - 1], j),
        decreases p,
    {
        let a = &v[p - 1];
        if a.scheduled_at < j.scheduled_at || (a.scheduled_at == j.scheduled_at && a.priority <= j.priority) {
            break;
        }
        p = p - 1;
    }
    proof {
        assert forall|q: int| 0 <= q < p implies job_key_le(v@[q], j) by {
            assert(job_key_le(v@[p - 1], j));
            if q < p - 1 {
                assert(job_key_le(v@[q], v@[p - 1]));
            }
        }
        lemma_insert_sorted(v@, j, p as int);
        vstd::seq_lib::to_multiset_insert(v@, p as int, j);
    }
    let ghost before = v@;
    v.insert(p, j);
    proof {
        assert(v@ == before.insert(p as int, j));
    }
}

pub open spec fn max_jobs_text() -> Seq<char> {
    "maximum number of scheduled jobs reached"@
}

impl AgentRuntime {
    /// Schedules `goal` under `id`, due at `scheduled_at`, created at `now`,
    /// keeping the job list ordered; refused when the job limit is reached.
    /// The public `schedule*` functions reach this with a fresh random id and
    /// the current time.
    pub fn schedule_job_at(
        &mut self,
        goal: Goal,
        job_type: JobType,
        scheduled_at: i64,
        priority: u8,
        max_runs: Option<u64>,
        id: String,
        now: i64,
    ) -> (r: Result<String, String>)
        requires
            old(self).wf(),
        ensures
            final(self).wf(),
            final(self).sessions_v() == old(self).sessions_v(),
            final(self).metrics_v() == old(self).metrics_v(),
            final(self).config_v() == old(self).config_v(),
            old(self).jobs_v().len() >= old(self).config_v().max_scheduled_jobs ==> {
                &&& r is Err
                &&& r->Err_0@ == max_jobs_text()
                &&& final(self).jobs_v() == old(self).jobs_v()
            },
            old(self).jobs_v().len() < old(self).config_v().max_scheduled_jobs ==> {
                &&& r is Ok
                &&& r->Ok_0@ == id@
                &&& exists|j: ScheduledJob|
                    #[trigger] fresh_job(ScheduledJob { priority: 0, max_runs: None, ..j }, id@, goal, job_type, scheduled_at, now)
                    && j.priority == priority
                    && j.max_runs == max_runs
                    && inserted_in_order(old(self).jobs_v(), j, final(self).jobs_v())
            },
    {
        let id_copy = id.clone();
        let mut job = ScheduledJob::fresh(id, goal, job_type, scheduled_at, now).with_priority(priority);
        job.max_runs = max_runs;
        if self.scheduled_jobs.len() >= self.config.max_scheduled_jobs {
            proof {
                reveal_strlit("maximum number of scheduled jobs reached");
            }
            return Err(String::from_str("maximum number of scheduled jobs reached"));
        }
        let ghost j = job;
        insert_job(&mut self.scheduled_jobs, job);
        proof {
            assert(fresh_job(ScheduledJob { priority: 0, max_runs: None, ..j }, id@, goal, job_type, scheduled_at, now));
        }
        Ok(id_copy)
    }
}

/// The job list after `schedule_job_at` put in a job of this kind.
pub open spec fn scheduled_post(
    pre: AgentRuntime,
    post: AgentRuntime,
    goal: Goal,
    job_type: JobType,
    scheduled_at: i64,
    max_runs: Option<u64>,
    now: i64,
    r: Result<String, String>,
) -> bool {
    &&& post.sessions_v() == pre.sessions_v()
    &&& post.config_v() == pre.config_v()
    &&& (pre.jobs_v().len() >= pre.config_v().max_scheduled_jobs ==> {
        &&& r is Err
        &&& r->Err_0@ == max_jobs_text()
        &&& post.jobs_v() == pre.jobs_v()
    })
    &&& (pre.jobs_v().len() < pre.config_v().max_scheduled_jobs ==> {
        &&& r is Ok
        &&& r->Ok_0@.len() == 36
        &&& exists|j: ScheduledJob|
            #[trigger] fresh_job(ScheduledJob { max_runs: None, ..j }, r->Ok_0@, goal, job_type, scheduled_at, now)
            && j.max_runs == max_runs
            && inserted_in_order(pre.jobs_v(), j, post.jobs_v())
    })
}

/// The time from `now` to `timestamp_ms`, or 0 for a time in the past.
pub open spec fn delay_until(timestamp_ms: i64, now: i64) -> u64 {
    if timestamp_ms - now > 0 {
        (timestamp_ms - now) as u64
    } else {
        0
    }
}

/// What `schedule_after` does when the clock reads `now`.
pub open spec fn schedule_after_post(
    pre: AgentRuntime,
    post: AgentRuntime,
    goal: Goal,
    delay_ms: u64,
    now: i64,
    r: Result<String, String>,
) -> bool {
    if i64::MIN <= now + (delay_ms as i64) <= i64::MAX {
        scheduled_post(pre, post, goal, JobType::Delayed { delay_ms }, (now + (delay_ms as i64)) as i64, None, now, r)
    } else {
        r is Err && r->Err_0@ == "scheduled time out of range"@ && post == pre
    }
}

impl AgentRuntime {
    /// Schedules `goal` to run as soon as the jobs are next processed.
    pub fn schedule(&mut self, goal: Goal) -> (r: Result<String, String>)
        requires
            old(self).wf(),
        ensures
            final(self).wf(),
            final(self).metrics_v() == old(self).metrics_v(),
            exists|now: i64| #[trigger] scheduled_post(*old(self), *final(self), goal, JobType::OneShot, now, None, now, r),
    {
        let now = now_millis();
        let id = crate::clock::new_uuid();
        let r = self.schedule_job_at(goal, JobType::OneShot, now, 0, None, id, now);
        proof {
            assert(scheduled_post(*old(self), *self, goal, JobType::OneShot, now, None, now, r));
        }
        r
    }

    /// Schedules `goal` to run `delay_ms` after now. Refused, with the
    /// message "scheduled time out of range", when that time does not fit
    /// in an `i64`.
    pub fn schedule_after(&mut self, goal: Goal, delay_ms: u64) -> (r: Result<String, String>)
        requires
            old(self).wf(),
        ensures
            final(self).wf(),
            final(self).metrics_v() == old(self).metrics_v(),
            exists|now: i64| #[trigger] schedule_after_post(*old(self), *final(self), goal, delay_ms, now, r),
    {
        let now = now_millis();
        let step = delay_ms as i64;
        let at = (now as i128) + (step as i128);
        if at < i64::MIN as i128 || at > i64::MAX as i128 {
            proof {
                reveal_strlit("scheduled time out of range");
            }
            let e = String::from_str("scheduled time out of range");
            proof {
                assert(schedule_after_post(*old(self), *self, goal, delay_ms, now, Err(e)));
            }
            return Err(e);
        }
        let at = now + step;
        let id = crate::clock::new_uuid();
        let r = self.schedule_job_at(goal, JobType::Delayed { delay_ms }, at, 0, None, id, now);
        proof {
            assert(schedule_after_post(*old(self), *self, goal, delay_ms, now, r));
        }
        r
    }

    /// Schedules `goal` to run at `timestamp_ms`; its delay is the time
    /// from now to then, or 0 for a time in the past.
    pub fn schedule_at(&mut self, goal: Goal, timestamp_ms: i64) -> (r: Result<String, String>)
        requires
            old(self).wf(),
        ensures
            final(self).wf(),
            final(self).metrics_v() == old(self).metrics_v(),
            exists|now: i64| #[trigger] scheduled_post(*old(self), *final(self), goal,
                JobType::Delayed { delay_ms: delay_until(timestamp_ms, now) }, timestamp_ms, None, now, r),
    {
        let now = now_millis();
        let d = (timestamp_ms as i128) - (now as i128);
        let delay: u64 = if d > 0 { d as u64 } else { 0 };
        let id = crate::clock::new_uuid();
        let r = self.schedule_job_at(goal, JobType::Delayed { delay_ms: delay }, timestamp_ms, 0, None, id, now);
        proof {
            assert(scheduled_post(*old(self), *self, goal,
                JobType::Delayed { delay_ms: delay_until(timestamp_ms, now) }, timestamp_ms, None, now, r));
        }
        r
    }

    /// Schedules `goal` to recur every `interval_ms`, starting now, at most
    /// `max_runs` times when given; counts the job in the metrics.
    pub fn schedule_recurring(&mut self, goal: Goal, interval_ms: u64, max_runs: Option<u64>) -> (r: Result<String, String>)
        requires
            old(self).wf(),
            old(self).metrics_v().scheduled_jobs < u64::MAX,
        ensures
            final(self).wf(),
            r is Err ==> final(self).metrics_v() == old(self).metrics_v(),
            r is Ok ==> final(self).metrics_v() == (RuntimeMetrics {
                scheduled_jobs: (old(self).metrics_v().scheduled_jobs + 1) as u64,
                ..old(self).metrics_v()
            }),
            exists|now: i64| #[trigger] scheduled_post(*old(self), *final(self), goal,
                JobType::Recurring { interval_ms }, now, max_runs, now, r),
    {
        let now = now_millis();
        let id = crate::clock::new_uuid();
        let ghost pre = *self;
        let r = self.schedule_job_at(goal, JobType::Recurring { interval_ms }, now, 0, max_runs, id, now);
        if r.is_ok() {
            self.metrics.scheduled_jobs = self.metrics.scheduled_jobs + 1;
        }
        proof {
            assert(scheduled_post(pre, *self, goal,
                JobType::Recurring { interval_ms }, now, max_runs, now, r));
        }
        r
    }
}

/// The ids of the jobs due at `now` that are not exhausted, in order.
pub open spec fn due_ids(s: Seq<ScheduledJob>, now: i64) -> Seq<Seq<char>>
    decreases s.len(),
{
    if s.len() == 0 {
        Seq::empty()
    } else if s.last().spec_is_due(now) && !s.last().spec_is_exhausted() {
        due_ids(s.drop_last(), now).push(s.last().id@)
    } else {
        due_ids(s.drop_last(), now)
    }
}

/// A job that a round of processing drops: it is exhausted, or it was due
/// and does not recur.
pub open spec fn dropped_in_round(j: ScheduledJob, due: Seq<String>) -> bool {
    j.spec_is_exhausted() || (id_listed(due, j.id@) && !(j.job_type is Recurring))
}

/// A job that a round of processing moves to its next occurrence.
pub open spec fn rescheduled_in_round(j: ScheduledJob, due: Seq<String>) -> bool {
    &&& id_listed(due, j.id@)
    &&& j.run_count > 0
    &&& !j.spec_is_exhausted()
    &&& j.job_type is Recurring
}

pub open spec fn round_job(j: ScheduledJob, due: Seq<String>) -> ScheduledJob {
    if rescheduled_in_round(j, due) {
        ScheduledJob { scheduled_at: j.spec_next_occurrence()->Some_0, ..j }
    } else {
        j
    }
}

/// The jobs that a round keeps, in their old order, with the recurring
/// ones that ran moved to their next occurrence.
pub open spec fn after_round(s: Seq<ScheduledJob>, due: Seq<String>) -> Seq<ScheduledJob>
    decreases s.len(),
{
    if s.len() == 0 {
        s
    } else if dropped_in_round(s.last(), due) {
        after_round(s.drop_last(), due)
    } else {
        after_round(s.drop_last(), due).push(round_job(s.last(), due))
    }
}

pub open spec fn count_rescheduled(s: Seq<ScheduledJob>, due: Seq<String>) -> nat
    decreases s.len(),
{
    if s.len() == 0 {
        0
    } else {
        count_rescheduled(s.drop_last(), due) + if !dropped_in_round(s.last(), due)
            && rescheduled_in_round(s.last(), due) { 1nat } else { 0nat }
    }
}

proof fn lemma_count_rescheduled_bounded(s: Seq<ScheduledJob>, due: Seq<String>)
    ensures
        count_rescheduled(s, due) <= s.len(),
    decreases s.len(),
{
    if s.len() > 0 {
        lemma_count_rescheduled_bounded(s.drop_last(), due);
    }
}

/// The next occurrence of every recurring job that a round moves fits in an
/// `i64`.
pub open spec fn round_fits(s: Seq<ScheduledJob>, due: Seq<String>) -> bool {
    forall|k: int| 0 <= k < s.len() && rescheduled_in_round(s[k], due) ==> #[trigger] s[k].next_fits()
}

/// Sessions in a state that counts against the scheduled-job limit.
pub open spec fn count_active(s: Seq<AgentSession>) -> nat {
    sessions_where(s, |st: AgentState| is_active_state(st)).len()
}

impl AgentRuntime {
    /// The scheduled jobs, in the order they run.
    pub fn scheduled_jobs(&self) -> (r: &[ScheduledJob])
        ensures
            r@ == self.jobs_v(),
    {
        self.scheduled_jobs.as_slice()
    }

    /// The ids of the jobs due at `now` that are not exhausted, in order.
    pub fn due_job_ids(&self, now: i64) -> (r: Vec<String>)
        ensures
            string_views(r@) == due_ids(self.jobs_v(), now),
    {
        let mut r: Vec<String> = Vec::new();
        let n = self.scheduled_jobs.len();
        let mut i: usize = 0;
        while i < n
            invariant
                n == self.scheduled_jobs@.len(),
                i <= n,
                string_views(r@) == due_ids(self.scheduled_jobs@.take(i as int), now),
            decreases n - i,
        {
            proof {
                assert(self.scheduled_jobs@.take(i + 1).drop_last() =~= self.scheduled_jobs@.take(i as int));
            }
            let j = &self.scheduled_jobs[i];
            if j.is_due(now) && !j.is_exhausted() {
                r.push(j.id.clone());
                proof {
                    assert(string_views(r@) =~= due_ids(self.scheduled_jobs@.take(i + 1), now));
                }
            }
            i = i + 1;
        }
        proof {
            assert(self.scheduled_jobs@.take(n as int) =~= self.scheduled_jobs@);
        }
        r
    }

    /// Whether fewer sessions are running than scheduled jobs may start.
    pub fn can_dispatch_scheduled(&self) -> (r: bool)
        ensures
            r == (count_active(self.sessions_v()) < self.config_v().max_concurrent_scheduled_jobs),
    {
        let running = self.collect_where(false);
        proof {
            assert(deref_all(running@).len() == running@.len());
        }
        running.len() < self.config.max_concurrent_scheduled_jobs
    }

    /// The goal of the first job with this id.
    pub fn job_goal(&self, job_id: &str) -> (r: Option<&Goal>)
        ensures
            match r {
                Some(g) => exists|q: int| 0 <= q < self.jobs_v().len() && self.jobs_v()[q].id@ == job_id@
                    && #[trigger] self.jobs_v()[q].goal == *g,
                None => forall|q: int| 0 <= q < self.jobs_v().len() ==> #[trigger] self.jobs_v()[q].id@ != job_id@,
            },
    {
        let n = self.scheduled_jobs.len();
        let mut i: usize = 0;
        while i < n
            invariant
                n == self.scheduled_jobs@.len(),
                i <= n,
                forall|q: int| 0 <= q < i ==> #[trigger] self.scheduled_jobs@[q].id@ != job_id@,
            decreases n - i,
        {
            if crate::text::str_eq(self.scheduled_jobs[i].id.as_str(), job_id) {
                return Some(&self.scheduled_jobs[i].goal);
            }
            i = i + 1;
        }
        None
    }
}

/// A queue latency as recorded: never below zero, at most `i64::MAX`.
pub open spec fn clamp_latency(d: int) -> i64 {
    if d < 0 {
        0
    } else if d > i64::MAX {
        i64::MAX
    } else {
        d as i64
    }
}

/// The job after it was dispatched into session `sid` at `now`.
pub open spec fn ran_job(j: ScheduledJob, sid: String, now: i64) -> ScheduledJob {
    ScheduledJob { last_run_at: Some(now), run_count: (j.run_count + 1) as u64, session_id: Some(sid), ..j }
}

impl AgentRuntime {
    /// Records that the first job with this id was dispatched into session
    /// `session_id` at `now`: its run is counted and the time it waited
    /// past its scheduled time becomes the queue latency. A latency beyond
    /// `i64::MAX` is recorded as `i64::MAX`.
    pub fn record_job_run(&mut self, job_id: &str, session_id: String, now: i64)
        requires
            old(self).wf(),
            forall|q: int| 0 <= q < old(self).jobs_v().len() && old(self).jobs_v()[q].id@ == job_id@
                ==> #[trigger] old(self).jobs_v()[q].run_count < u64::MAX,
        ensures
            final(self).wf(),
            final(self).sessions_v() == old(self).sessions_v(),
            final(self).config_v() == old(self).config_v(),
            (forall|q: int| 0 <= q < old(self).jobs_v().len() ==> #[trigger] old(self).jobs_v()[q].id@ != job_id@)
                ==> *final(self) == *old(self),
            (exists|q: int| 0 <= q < old(self).jobs_v().len() && #[trigger] old(self).jobs_v()[q].id@ == job_id@)
                ==> exists|k: int|
                    0 <= k < old(self).jobs_v().len()
                    && #[trigger] old(self).jobs_v()[k].id@ == job_id@
                    && (forall|q: int| 0 <= q < k ==> old(self).jobs_v()[q].id@ != job_id@)
                    && final(self).jobs_v() == old(self).jobs_v().update(k, ran_job(old(self).jobs_v()[k], session_id, now))
                    && final(self).metrics_v() == (RuntimeMetrics {
                        queue_latency_ms: clamp_latency(now - old(self).jobs_v()[k].scheduled_at),
                        ..old(self).metrics_v()
                    }),
    {
        let n = self.scheduled_jobs.len();
        let mut i: usize = 0;
        while i < n
            invariant
                n == self.scheduled_jobs@.len(),
                i <= n,
                forall|q: int| 0 <= q < i ==> #[trigger] self.scheduled_jobs@[q].id@ != job_id@,
                *self == *old(self),
                self.wf(),
                forall|q: int| 0 <= q < self.jobs_v().len() && self.jobs_v()[q].id@ == job_id@
                    ==> #[trigger] self.jobs_v()[q].run_count < u64::MAX,
            decreases n - i,
        {
            if crate::text::str_eq(self.scheduled_jobs[i].id.as_str(), job_id) {
                let d = (now as i128) - (self.scheduled_jobs[i].scheduled_at as i128);
                let lat: i64 = if d < 0 {
                    0
                } else if d > i64::MAX as i128 {
                    i64::MAX
                } else {
                    d as i64
                };
                self.metrics.queue_latency_ms = lat;
                let ghost old_jobs = self.scheduled_jobs@;
                let mut job = self.scheduled_jobs.remove(i);
                job.last_run_at = Some(now);
                job.run_count = job.run_count + 1;
                job.session_id = Some(session_id);
                self.scheduled_jobs.insert(i, job);
                proof {
                    assert(self.scheduled_jobs@ =~= old_jobs.update(i as int, ran_job(old_jobs[i as int], session_id, now)));
                    assert forall|a: int, b: int| 0 <= a < b < self.scheduled_jobs@.len()
                        implies job_key_le(self.scheduled_jobs@[a], self.scheduled_jobs@[b]) by {
                        assert(job_key_le(old_jobs[a], old_jobs[b]));
                    }
                }
                return;
            }
            i = i + 1;
        }
    }
}

impl AgentRuntime {
    /// Whether a round over the jobs `due` can be settled: every recurring
    /// job it moves has a next run that fits in an `i64`, and the count of
    /// moved jobs cannot overflow.
    pub fn round_can_settle(&self, due: &[String]) -> (r: bool)
        ensures
            r == (round_fits(self.jobs_v(), due@)
                && self.metrics_v().recurring_jobs_completed + self.jobs_v().len() <= u64::MAX),
    {
        let n = self.scheduled_jobs.len();
        if self.metrics.recurring_jobs_completed as u128 + n as u128 > u64::MAX as u128 {
            return false;
        }
        let mut i: usize = 0;
        while i < n
            invariant
                n == self.scheduled_jobs@.len(),
                i <= n,
                forall|k: int| 0 <= k < i && rescheduled_in_round(self.scheduled_jobs@[k], due@)
                    ==> #[trigger] self.scheduled_jobs@[k].next_fits(),
            decreases n - i,
        {
            let j = &self.scheduled_jobs[i];
            let recurring_step: Option<u64> = match j.job_type {
                JobType::Recurring { interval_ms } => Some(interval_ms),
                _ => None,
            };
            match recurring_step {
                Some(interval_ms) => {
                    if listed(due, j.id.as_str()) && j.run_count > 0 && !j.is_exhausted() {
                        let base: i64 = match j.last_run_at {
                            Some(t) => t,
                            None => j.scheduled_at,
                        };
                        let step: i64 = interval_ms as i64;
                        let next = base as i128 + step as i128;
                        if next < i64::MIN as i128 || next > i64::MAX as i128 {
                            proof {
                                let jj = self.scheduled_jobs@[i as int];
                                assert(jj.recurrence_base() == base);
                                assert(rescheduled_in_round(jj, due@));
                                assert(!jj.next_fits());
                            }
                            return false;
                        }
                    }
                },
                None => {},
            }
            i = i + 1;
        }
        true
    }
}

impl AgentRuntime {
    /// Ends a round of job processing over the jobs that were due: drops the
    /// exhausted jobs and the due jobs that do not recur, moves each due
    /// recurring job that has run to its next occurrence (counting it in the
    /// metrics), and puts the list back in order.
    pub fn settle_scheduled_jobs(&mut self, due: &[String])
        requires
            old(self).wf(),
            round_fits(old(self).jobs_v(), due@),
            old(self).metrics_v().recurring_jobs_completed + old(self).jobs_v().len() <= u64::MAX,
        ensures
            final(self).wf(),
            final(self).sessions_v() == old(self).sessions_v(),
            final(self).config_v() == old(self).config_v(),
            final(self).jobs_v().to_multiset() == after_round(old(self).jobs_v(), due@).to_multiset(),
            final(self).metrics_v() == (RuntimeMetrics {
                recurring_jobs_completed: (old(self).metrics_v().recurring_jobs_completed
                    + count_rescheduled(old(self).jobs_v(), due@)) as u64,
                ..old(self).metrics_v()
            }),
    {
        let ghost orig = self.scheduled_jobs@;
        let mut rest: Vec<ScheduledJob> = Vec::new();
        std::mem::swap(&mut rest, &mut self.scheduled_jobs);
        let mut kept: Vec<ScheduledJob> = Vec::new();
        let mut moved_count: u64 = 0;
        let n = rest.len();
        let mut i: usize = 0;
        proof {
            lemma_count_rescheduled_bounded(orig, due@);
        }
        while i < n
            invariant
                n == orig.len(),
                i <= n,
                rest@ == orig.skip(i as int),
                kept@ == after_round(orig.take(i as int), due@),
                moved_count == count_rescheduled(orig.take(i as int), due@),
                moved_count <= i,
                round_fits(orig, due@),
            decreases n - i,
        {
            let mut job = rest.remove(0);
            proof {
                assert(job == orig[i as int]);
                assert(rest@ =~= orig.skip(i + 1));
                assert(orig.take(i + 1).drop_last() =~= orig.take(i as int));
                lemma_count_rescheduled_bounded(orig.take(i as int), due@);
            }
            let listed_now = listed(due, job.id.as_str());
            let exhausted = job.is_exhausted();
            let recurring = match job.job_type {
                JobType::Recurring { .. } => true,
                _ => false,
            };
            if !(exhausted || (listed_now && !recurring)) {
                if listed_now && job.run_count > 0 && recurring {
                    proof {
                        assert(rescheduled_in_round(orig[i as int], due@));
                        assert(orig[i as int].next_fits());
                    }
                    match job.next_occurrence() {
                        Some(next) => {
                            job.scheduled_at = next;
                        },
                        None => {},
                    }
                    moved_count = moved_count + 1;
                }
                kept.push(job);
            }
            i = i + 1;
        }
        proof {
            assert(orig.take(n as int) =~= orig);
        }
        let ghost k = kept@;
        let mut sorted: Vec<ScheduledJob> = Vec::new();
        let m = kept.len();
        let mut q: usize = 0;
        proof {
            assert(sorted@ =~= k.take(0));
        }
        while q < m
            invariant
                m == k.len(),
                q <= m,
                kept@ == k.skip(q as int),
                jobs_sorted(sorted@),
                sorted@.to_multiset() == k.take(q as int).to_multiset(),
            decreases m - q,
        {
            let job = kept.remove(0);
            proof {
                assert(job == k[q as int]);
                assert(kept@ =~= k.skip(q + 1));
                assert(k.take(q + 1) =~= k.take(q as int).push(job));
                vstd::seq_lib::to_multiset_build(k.take(q as int), job);
            }
            insert_job(&mut sorted, job);
            q = q + 1;
        }
        proof {
            assert(k.take(m as int) =~= k);
        }
        self.scheduled_jobs = sorted;
        self.metrics.recurring_jobs_completed = self.metrics.recurring_jobs_completed + moved_count;
    }
}

/// A tick leaves a session that is not running (created, paused, or in a
/// terminal state) exactly as it was, and reports no change.
pub proof fn law_tick_leaves_idle_sessions(
    cfg: AgentRuntimeConfig,
    s: AgentSession,
    now: i64,
    rep: Option<GoalExecutionReport>,
    msg: String,
)
    requires
        !s.state.spec_is_active(),
    ensures
        tick_session(cfg, s, now, rep, msg) == (s, false),
{
}

/// Every state change a tick makes is an edge of the lifecycle graph.
pub proof fn law_tick_follows_lifecycle(
    cfg: AgentRuntimeConfig,
    s: AgentSession,
    now: i64,
    rep: Option<GoalExecutionReport>,
    msg: String,
)
    requires
        s.state.spec_is_active(),
        work_spec(cfg, s, now) !is Idle ==> rep is Some,
    ensures
        tick_session(cfg, s, now, rep, msg).0.state != s.state
            ==> s.state.spec_can_transition_to(tick_session(cfg, s, now, rep, msg).0.state),
{
}

/// A tick never takes a session's retries or replans past the configured
/// limits, when they were within them before.
pub proof fn law_tick_respects_retry_limits(
    cfg: AgentRuntimeConfig,
    s: AgentSession,
    now: i64,
    rep: Option<GoalExecutionReport>,
    msg: String,
)
    requires
        s.retry_count <= cfg.max_retries_per_step,
        s.replan_count <= cfg.max_replans_per_session,
    ensures
        tick_session(cfg, s, now, rep, msg).0.retry_count <= cfg.max_retries_per_step,
        tick_session(cfg, s, now, rep, msg).0.replan_count <= cfg.max_replans_per_session,
{
}

/// A tick never moves a session backwards through its plan.
pub proof fn law_tick_step_index_monotone(
    cfg: AgentRuntimeConfig,
    s: AgentSession,
    now: i64,
    rep: Option<GoalExecutionReport>,
    msg: String,
)
    requires
        s.current_step_index < usize::MAX,
    ensures
        tick_session(cfg, s, now, rep, msg).0.current_step_index >= s.current_step_index,
        tick_session(cfg, s, now, rep, msg).0.session_id == s.session_id,
        tick_session(cfg, s, now, rep, msg).0.goal == s.goal,
{
}

/// Cancelling a session and then restarting it gives back a session in
/// `Created` with the same id, goal and tags and fresh counters.
pub proof fn law_cancel_then_restart(
    a: AgentRuntime,
    b: AgentRuntime,
    c: AgentRuntime,
    id: Seq<char>,
    t1: i64,
    t2: i64,
)
    requires
        a.wf(),
        b.wf(),
        cancel_post(a, b, id, t1, Ok(())),
        restart_post(b, c, id, t2, Ok(())),
    ensures
        index_of(a.sessions_v(), id) >= 0,
        index_of(c.sessions_v(), id) == index_of(a.sessions_v(), id),
        ({
            let i = index_of(a.sessions_v(), id);
            let x = c.sessions_v()[i];
            let s = a.sessions_v()[i];
            &&& x.state == AgentState::Created
            &&& x.session_id == s.session_id
            &&& x.goal == s.goal
            &&& x.tags == s.tags
            &&& x.created_at == s.created_at
            &&& x.retry_count == 0 && x.replan_count == 0 && x.recovery_count == 0
            &&& x.metrics == zero_session_metrics()
            &&& x.execution_plan is None
        }),
{
    let i = index_of(a.sessions_v(), id);
    assert(i >= 0);
    let s = a.sessions_v()[i];
    assert(!s.state.spec_is_terminal());
    assert(b.sessions_v()[i].session_id == s.session_id);
    lemma_index_of_unique(b.sessions_v(), i);
    assert(index_of(b.sessions_v(), id) == i);
    lemma_index_of_unique(c.sessions_v(), i);
}

/// After a round of job processing no exhausted job is left, and no due job
/// that does not recur.
pub proof fn law_round_drops_finished_jobs(s: Seq<ScheduledJob>, due: Seq<String>)
    ensures
        forall|k: int| 0 <= k < after_round(s, due).len() ==> !(#[trigger] after_round(s, due)[k]).spec_is_exhausted(),
        forall|k: int| 0 <= k < after_round(s, due).len() ==> !(id_listed(due, (#[trigger] after_round(s, due)[k]).id@)
            && !(after_round(s, due)[k].job_type is Recurring)),
    decreases s.len(),
{
    if s.len() > 0 {
        law_round_drops_finished_jobs(s.drop_last(), due);
        let r = after_round(s.drop_last(), due);
        if !dropped_in_round(s.last(), due) {
            let t = r.push(round_job(s.last(), due));
            assert forall|k: int| 0 <= k < t.len() implies !(#[trigger] t[k]).spec_is_exhausted() by {
                if k < r.len() {
                    assert(t[k] == r[k]);
                }
            }
            assert forall|k: int| 0 <= k < t.len() implies !(id_listed(due, (#[trigger] t[k]).id@)
                && !(t[k].job_type is Recurring)) by {
                if k < r.len() {
                    assert(t[k] == r[k]);
                }
            }
        }
    }
}

/// Creating a session adds at most one session to the runtime.
pub proof fn law_insert_adds_at_most_one(s: Seq<AgentSession>, x: AgentSession)
    ensures
        insert_session(s, x).len() <= s.len() + 1,
        index_of(s, x.session_id@) >= 0 ==> insert_session(s, x).len() == s.len(),
{
}


/// A state that is not terminal.
pub open spec fn is_live_state(st: AgentState) -> bool {
    !st.spec_is_terminal()
}

proof fn lemma_keep_unmarked_prefix(s: Seq<AgentSession>, m1: Seq<bool>, m2: Seq<bool>)
    requires
        forall|i: int| 0 <= i < s.len() ==> m1[i] == m2[i],
    ensures
        keep_unmarked(s, m1) == keep_unmarked(s, m2),
    decreases s.len(),
{
    if s.len() > 0 {
        lemma_keep_unmarked_prefix(s.drop_last(), m1, m2);
    }
}

proof fn lemma_prune_marks_prefix(s: Seq<AgentSession>, k: nat)
    requires
        s.len() > 0,
    ensures
        keep_unmarked(s.drop_last(), prune_marks(s, k)) == keep_unmarked(s.drop_last(), prune_marks(s.drop_last(), k)),
{
    let d = s.drop_last();
    assert forall|i: int| 0 <= i < d.len() implies prune_marks(s, k)[i] == prune_marks(d, k)[i] by {
        assert(s.take(i) =~= d.take(i));
    }
    lemma_keep_unmarked_prefix(d, prune_marks(s, k), prune_marks(d, k));
}

proof fn lemma_where_push(x: Seq<AgentSession>, y: AgentSession, pred: spec_fn(AgentState) -> bool)
    ensures
        sessions_where(x.push(y), pred) == if pred(y.state) { sessions_where(x, pred).push(y) } else { sessions_where(x, pred) },
{
    assert(x.push(y).drop_last() =~= x);
}

/// Pruning down to `keep` terminal sessions leaves exactly that many when
/// there were more, removes none otherwise, and keeps every session that is
/// still live, in order.
pub proof fn law_prune_keeps_limit(s: Seq<AgentSession>, k: nat)
    ensures
        count_terminal(keep_unmarked(s, prune_marks(s, k))) == count_terminal(s) - (if k < count_terminal(s) { k } else { count_terminal(s) }),
        sessions_where(keep_unmarked(s, prune_marks(s, k)), |st: AgentState| is_live_state(st))
            == sessions_where(s, |st: AgentState| is_live_state(st)),
    decreases s.len(),
{
    let live = |st: AgentState| is_live_state(st);
    let term = |st: AgentState| is_terminal_state(st);
    if s.len() > 0 {
        let d = s.drop_last();
        let y = s.last();
        law_prune_keeps_limit(d, k);
        lemma_prune_marks_prefix(s, k);
        assert(d.push(y) =~= s);
        assert(s.take(s.len() - 1) =~= d);
        let kd = keep_unmarked(d, prune_marks(d, k));
        lemma_where_push(d, y, term);
        lemma_where_push(d, y, live);
        if !prune_marks(s, k)[s.len() - 1] {
            assert(keep_unmarked(s, prune_marks(s, k)) == kd.push(y));
            lemma_where_push(kd, y, term);
            lemma_where_push(kd, y, live);
        } else {
            assert(keep_unmarked(s, prune_marks(s, k)) == kd);
        }
    }
}


/// A tick that ran step `k` advances the session by exactly that one step
/// when the step succeeded, counting it, so the steps of a plan run one
/// after another, each in turn; a failed step leaves the session at the
/// same step, to be retried or replanned.
pub proof fn law_step_advances_by_one(
    cfg: AgentRuntimeConfig,
    s: AgentSession,
    now: i64,
    rep: GoalExecutionReport,
    msg: String,
    k: usize,
)
    requires
        work_spec(cfg, s, now) == StepWork::RunStep(k),
        counters_have_room(s),
    ensures
        rep.success ==> tick_session(cfg, s, now, Some(rep), msg).0.current_step_index == k + 1,
        rep.success ==> tick_session(cfg, s, now, Some(rep), msg).0.metrics.completed_steps == s.metrics.completed_steps + 1,
        !rep.success ==> tick_session(cfg, s, now, Some(rep), msg).0.current_step_index == k,
        tick_session(cfg, s, now, Some(rep), msg).1,
{
    let plan = s.execution_plan->Some_0;
    assert(plan.steps.len() == plan.steps@.len());
}


/// Once every step of its plan has run, a tick runs the plan once more for
/// its report and completes the session at `now`, taking the report's step
/// counts.
pub proof fn law_finished_plan_completes(
    cfg: AgentRuntimeConfig,
    s: AgentSession,
    now: i64,
    rep: GoalExecutionReport,
    msg: String,
)
    requires
        work_spec(cfg, s, now) == StepWork::RunPlan,
    ensures
        tick_session(cfg, s, now, Some(rep), msg).0.state == AgentState::Completed,
        tick_session(cfg, s, now, Some(rep), msg).0.completed_at == Some(now),
        tick_session(cfg, s, now, Some(rep), msg).0.metrics.completed_steps == rep.completed_steps as u64,
        tick_session(cfg, s, now, Some(rep), msg).0.metrics.failed_steps == rep.failed_steps as u64,
        tick_session(cfg, s, now, Some(rep), msg).0.report == Some(rep),
{
}

} // verus!
