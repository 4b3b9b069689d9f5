//! Messages for people about what the automation is doing: one per event,
//! rendered plain or as markdown, with counts of what was said.
use vstd::prelude::*;
use vstd::string::StringExecFns;
use crate::text::{decimal, push_decimal, push_signed, push_str, signed_decimal};

verus! {

/// How serious a message is.
#[derive(Debug, Clone, Copy, PartialEq, Eq, Structural, Hash)]
pub enum FeedbackLevel {
    Debug,
    Info,
    Success,
    Warning,
    Error,
}

pub open spec fn level_label(l: FeedbackLevel) -> Seq<char> {
    match l {
        FeedbackLevel::Debug => "DEBUG"@,
        FeedbackLevel::Info => "INFO"@,
        FeedbackLevel::Success => "SUCCESS"@,
        FeedbackLevel::Warning => "WARNING"@,
        FeedbackLevel::Error => "ERROR"@,
    }
}

pub open spec fn level_emoji(l: FeedbackLevel) -> Seq<char> {
    match l {
        FeedbackLevel::Debug => "🔍"@,
        FeedbackLevel::Info => "ℹ️"@,
        FeedbackLevel::Success => "✅"@,
        FeedbackLevel::Warning => "⚠️"@,
        FeedbackLevel::Error => "❌"@,
    }
}

impl FeedbackLevel {
    pub fn label(&self) -> (r: &'static str)
        ensures
            r@ == level_label(*self),
    {
        match self {
            FeedbackLevel::Debug => "DEBUG",
            FeedbackLevel::Info => "INFO",
            FeedbackLevel::Success => "SUCCESS",
            FeedbackLevel::Warning => "WARNING",
            FeedbackLevel::Error => "ERROR",
        }
    }

    pub fn emoji(&self) -> (r: &'static str)
        ensures
            r@ == level_emoji(*self),
    {
        match self {
            FeedbackLevel::Debug => "🔍",
            FeedbackLevel::Info => "ℹ️",
            FeedbackLevel::Success => "✅",
            FeedbackLevel::Warning => "⚠️",
            FeedbackLevel::Error => "❌",
        }
    }
}

/// How much a rendered message says.
#[derive(Debug, Clone, Copy, PartialEq, Eq, Structural, Hash)]
pub enum FeedbackStyle {
    Concise,
    Normal,
    Detailed,
}

impl Default for FeedbackStyle {
    fn default() -> (s: Self)
        ensures
            s == FeedbackStyle::Normal,
    {
        FeedbackStyle::Normal
    }
}

#[derive(Debug, Clone, Copy, PartialEq, Eq, Structural)]
pub struct FeedbackConfig {
    pub default_style: FeedbackStyle,
    pub enable_emoji: bool,
    pub show_timestamps: bool,
    pub max_history: usize,
    pub structured_summary: bool,
}

pub open spec fn default_feedback_config() -> FeedbackConfig {
    FeedbackConfig {
        default_style: FeedbackStyle::Normal,
        enable_emoji: true,
        show_timestamps: false,
        max_history: 100,
        structured_summary: true,
    }
}

impl Default for FeedbackConfig {
    fn default() -> (c: Self)
        ensures
            c == default_feedback_config(),
    {
        FeedbackConfig {
            default_style: FeedbackStyle::Normal,
            enable_emoji: true,
            show_timestamps: false,
            max_history: 100,
            structured_summary: true,
        }
    }
}

/// Where an execution stands, for messages about it.
#[derive(Debug)]
pub struct FeedbackContext {
    pub execution_id: Option<String>,
    pub goal: Option<String>,
    pub current_step: Option<String>,
    pub step_index: usize,
    pub total_steps: usize,
    pub elapsed_ms: u64,
}

impl Default for FeedbackContext {
    fn default() -> (c: Self)
        ensures
            c.execution_id is None,
            c.goal is None,
            c.current_step is None,
            c.step_index == 0,
            c.total_steps == 0,
            c.elapsed_ms == 0,
    {
        FeedbackContext {
            execution_id: None,
            goal: None,
            current_step: None,
            step_index: 0,
            total_steps: 0,
            elapsed_ms: 0,
        }
    }
}

/// Something that happened, as a message is made of it. A confidence comes
/// as a whole percentage, and an elapsed time in seconds as text already
/// rounded to one decimal.
#[derive(Debug)]
pub enum FeedbackEvent {
    GoalAccepted { goal: String, confidence_percent: u32 },
    PlanningStarted { goal: String },
    PlanningFinished { goal: String, steps: usize, success: bool },
    ExecutionStarted { execution_id: String, goal: String, total_steps: usize },
    StepStarted { execution_id: String, goal: String, step: String, index: usize, total: usize },
    StepCompleted { execution_id: String, goal: String, step: String, index: usize, total: usize, success: bool },
    VerificationPassed { execution_id: String, details: String },
    VerificationFailed { execution_id: String, details: String, expected: String, actual: String },
    RecoveryStarted { execution_id: String, reason: String, attempt: u32 },
    RecoveryCompleted { execution_id: String, success: bool, result: String },
    ExecutionCompleted {
        execution_id: String,
        goal: String,
        steps_succeeded: usize,
        steps_failed: usize,
        duration_ms: u64,
        elapsed_seconds: String,
    },
    ExecutionCancelled { execution_id: String, goal: String, reason: String, steps_completed: usize },
    ExecutionFailed { execution_id: String, goal: String, error: String, steps_succeeded: usize, steps_failed: usize },
}

/// One message about an event.
#[derive(Debug)]
pub struct FeedbackMessage {
    pub level: FeedbackLevel,
    pub event: String,
    pub message: String,
    pub detail: String,
    pub timestamp_ms: i64,
    pub style: FeedbackStyle,
}

impl Clone for FeedbackMessage {
    fn clone(&self) -> (r: Self)
        ensures
            r == *self,
    {
        FeedbackMessage {
            level: self.level,
            event: self.event.clone(),
            message: self.message.clone(),
            detail: self.detail.clone(),
            timestamp_ms: self.timestamp_ms,
            style: self.style,
        }
    }
}

/// The outcome of an execution with the messages it produced.
#[derive(Debug)]
pub struct FeedbackSummary {
    pub execution_id: String,
    pub goal: String,
    pub status: String,
    pub total_steps: usize,
    pub steps_succeeded: usize,
    pub steps_failed: usize,
    pub duration_ms: u64,
    pub feedback_count: usize,
    pub messages: Vec<FeedbackMessage>,
    pub level: FeedbackLevel,
}

impl FeedbackSummary {
    /// No step failed and the status is "completed".
    pub fn is_success(&self) -> (r: bool)
        ensures
            r == (self.steps_failed == 0 && self.status@ == "completed"@),
    {
        self.steps_failed == 0 && crate::text::str_eq(self.status.as_str(), "completed")
    }
}

/// A named message template.
#[derive(Debug)]
pub struct FeedbackTemplate {
    pub name: String,
    pub template: String,
}

/// Counts of the messages made, by level, and of the events that went well
/// or badly.
#[derive(Debug)]
pub struct FeedbackMetrics {
    total_messages: u64,
    total_generation_time_ms: u64,
    generation_count: u64,
    debug_count: u64,
    info_count: u64,
    success_count: u64,
    warning_count: u64,
    error_count: u64,
    success_events: u64,
    failure_events: u64,
}

/// A counter after an atomic add: it wraps around.
pub open spec fn wrap_add(x: u64, y: u64) -> u64 {
    if x + y > u64::MAX {
        (x + y - 0x1_0000_0000_0000_0000) as u64
    } else {
        (x + y) as u64
    }
}

/// The metrics as plain numbers: total messages, total generation time,
/// generations, the five level counts, successes and failures.
pub struct FeedbackCounts {
    pub total_messages: u64,
    pub total_generation_time_ms: u64,
    pub generation_count: u64,
    pub debug_count: u64,
    pub info_count: u64,
    pub success_count: u64,
    pub warning_count: u64,
    pub error_count: u64,
    pub success_events: u64,
    pub failure_events: u64,
}

pub open spec fn zero_counts() -> FeedbackCounts {
    FeedbackCounts {
        total_messages: 0,
        total_generation_time_ms: 0,
        generation_count: 0,
        debug_count: 0,
        info_count: 0,
        success_count: 0,
        warning_count: 0,
        error_count: 0,
        success_events: 0,
        failure_events: 0,
    }
}

impl FeedbackMetrics {
    pub closed spec fn view_counts(&self) -> FeedbackCounts {
        FeedbackCounts {
            total_messages: self.total_messages,
            total_generation_time_ms: self.total_generation_time_ms,
            generation_count: self.generation_count,
            debug_count: self.debug_count,
            info_count: self.info_count,
            success_count: self.success_count,
            warning_count: self.warning_count,
            error_count: self.error_count,
            success_events: self.success_events,
            failure_events: self.failure_events,
        }
    }

    /// All counts at zero.
    pub fn new() -> (m: Self)
        ensures
            m.view_counts() == zero_counts(),
    {
        FeedbackMetrics {
            total_messages: 0,
            total_generation_time_ms: 0,
            generation_count: 0,
            debug_count: 0,
            info_count: 0,
            success_count: 0,
            warning_count: 0,
            error_count: 0,
            success_events: 0,
            failure_events: 0,
        }
    }

    /// Counts one message of this level that took `elapsed_ms` to make.
    pub fn record(&mut self, level: &FeedbackLevel, elapsed_ms: u64)
        ensures
            ({
                let a = old(self).view_counts();
                let b = final(self).view_counts();
                &&& b.total_messages == wrap_add(a.total_messages, 1)
                &&& b.total_generation_time_ms == wrap_add(a.total_generation_time_ms, elapsed_ms)
                &&& b.generation_count == wrap_add(a.generation_count, 1)
                &&& b.debug_count == if *level == FeedbackLevel::Debug { wrap_add(a.debug_count, 1) } else { a.debug_count }
                &&& b.info_count == if *level == FeedbackLevel::Info { wrap_add(a.info_count, 1) } else { a.info_count }
                &&& b.success_count == if *level == FeedbackLevel::Success { wrap_add(a.success_count, 1) } else { a.success_count }
                &&& b.warning_count == if *level == FeedbackLevel::Warning { wrap_add(a.warning_count, 1) } else { a.warning_count }
                &&& b.error_count == if *level == FeedbackLevel::Error { wrap_add(a.error_count, 1) } else { a.error_count }
                &&& b.success_events == a.success_events
                &&& b.failure_events == a.failure_events
            }),
    {
        self.total_messages = self.total_messages.wrapping_add(1);
        self.total_generation_time_ms = self.total_generation_time_ms.wrapping_add(elapsed_ms);
        self.generation_count = self.generation_count.wrapping_add(1);
        match level {
            FeedbackLevel::Debug => self.debug_count = self.debug_count.wrapping_add(1),
            FeedbackLevel::Info => self.info_count = self.info_count.wrapping_add(1),
            FeedbackLevel::Success => self.success_count = self.success_count.wrapping_add(1),
            FeedbackLevel::Warning => self.warning_count = self.warning_count.wrapping_add(1),
            FeedbackLevel::Error => self.error_count = self.error_count.wrapping_add(1),
        }
    }

    /// Counts an event that went well, or one that went badly.
    pub fn record_event(&mut self, is_success: bool)
        ensures
            ({
                let a = old(self).view_counts();
                let b = final(self).view_counts();
                &&& b == (FeedbackCounts {
                    success_events: if is_success { wrap_add(a.success_events, 1) } else { a.success_events },
                    failure_events: if is_success { a.failure_events } else { wrap_add(a.failure_events, 1) },
                    ..a
                })
            }),
    {
        if is_success {
            self.success_events = self.success_events.wrapping_add(1);
        } else {
            self.failure_events = self.failure_events.wrapping_add(1);
        }
    }

    /// The counts as they stand.
    pub fn counts(&self) -> (c: FeedbackCounts)
        ensures
            c == self.view_counts(),
    {
        FeedbackCounts {
            total_messages: self.total_messages,
            total_generation_time_ms: self.total_generation_time_ms,
            generation_count: self.generation_count,
            debug_count: self.debug_count,
            info_count: self.info_count,
            success_count: self.success_count,
            warning_count: self.warning_count,
            error_count: self.error_count,
            success_events: self.success_events,
            failure_events: self.failure_events,
        }
    }

    /// The mean generation time in whole milliseconds, 0 before any
    /// generation.
    pub fn average_generation_time_ms(&self) -> (r: u64)
        ensures
            r == if self.view_counts().generation_count == 0 {
                0
            } else {
                self.view_counts().total_generation_time_ms / self.view_counts().generation_count
            },
    {
        match self.total_generation_time_ms.checked_div(self.generation_count) {
            Some(a) => a,
            None => 0,
        }
    }
}

impl Default for FeedbackMetrics {
    fn default() -> (m: Self)
        ensures
            m.view_counts() == zero_counts(),
    {
        FeedbackMetrics::new()
    }
}

pub open spec fn event_level(e: FeedbackEvent) -> FeedbackLevel {
    match e {
        FeedbackEvent::GoalAccepted { .. } => FeedbackLevel::Info,
        FeedbackEvent::PlanningStarted { .. } => FeedbackLevel::Info,
        FeedbackEvent::PlanningFinished { success, .. } => if success { FeedbackLevel::Success } else { FeedbackLevel::Warning },
        FeedbackEvent::ExecutionStarted { .. } => FeedbackLevel::Info,
        FeedbackEvent::StepStarted { .. } => FeedbackLevel::Debug,
        FeedbackEvent::StepCompleted { success, .. } => if success { FeedbackLevel::Success } else { FeedbackLevel::Error },
        FeedbackEvent::VerificationPassed { .. } => FeedbackLevel::Success,
        FeedbackEvent::VerificationFailed { .. } => FeedbackLevel::Error,
        FeedbackEvent::RecoveryStarted { .. } => FeedbackLevel::Warning,
        FeedbackEvent::RecoveryCompleted { success, .. } => if success { FeedbackLevel::Success } else { FeedbackLevel::Error },
        FeedbackEvent::ExecutionCompleted { .. } => FeedbackLevel::Success,
        FeedbackEvent::ExecutionCancelled { .. } => FeedbackLevel::Warning,
        FeedbackEvent::ExecutionFailed { .. } => FeedbackLevel::Error,
    }
}

pub open spec fn event_name(e: FeedbackEvent) -> Seq<char> {
    match e {
        FeedbackEvent::GoalAccepted { .. } => "goal_accepted"@,
        FeedbackEvent::PlanningStarted { .. } => "planning_started"@,
        FeedbackEvent::PlanningFinished { .. } => "planning_finished"@,
        FeedbackEvent::ExecutionStarted { .. } => "execution_started"@,
        FeedbackEvent::StepStarted { .. } => "step_started"@,
        FeedbackEvent::StepCompleted { .. } => "step_completed"@,
        FeedbackEvent::VerificationPassed { .. } => "verification_passed"@,
        FeedbackEvent::VerificationFailed { .. } => "verification_failed"@,
        FeedbackEvent::RecoveryStarted { .. } => "recovery_started"@,
        FeedbackEvent::RecoveryCompleted { .. } => "recovery_completed"@,
        FeedbackEvent::ExecutionCompleted { .. } => "execution_completed"@,
        FeedbackEvent::ExecutionCancelled { .. } => "execution_cancelled"@,
        FeedbackEvent::ExecutionFailed { .. } => "execution_failed"@,
    }
}

/// "Step i/n" for a zero-based index `i`.
pub open spec fn step_of(index: usize, total: usize) -> Seq<char> {
    "Step "@ + decimal((index + 1) as nat) + "/"@ + decimal(total as nat)
}

pub open spec fn event_message(e: FeedbackEvent) -> Seq<char> {
    match e {
        FeedbackEvent::GoalAccepted { goal, .. } => "Goal accepted: "@ + goal@,
        FeedbackEvent::PlanningStarted { goal } => "Planning started for: "@ + goal@,
        FeedbackEvent::PlanningFinished { goal, success, .. } => if success {
            "Planning complete for: "@ + goal@
        } else {
            "Planning finished with issues for: "@ + goal@
        },
        FeedbackEvent::ExecutionStarted { execution_id, goal, .. } => "Execution started: "@ + execution_id@ + " — "@ + goal@,
        FeedbackEvent::StepStarted { step, index, total, .. } => step_of(index, total) + ": "@ + step@,
        FeedbackEvent::StepCompleted { step, index, total, success, .. } => if success {
            step_of(index, total) + " completed: "@ + step@
        } else {
            step_of(index, total) + " failed: "@ + step@
        },
        FeedbackEvent::VerificationPassed { .. } => "Verification passed"@,
        FeedbackEvent::VerificationFailed { details, .. } => "Verification failed: "@ + details@,
        FeedbackEvent::RecoveryStarted { attempt, .. } => "Recovery attempt #"@ + decimal(attempt as nat),
        FeedbackEvent::RecoveryCompleted { success, .. } => if success { "Recovery completed"@ } else { "Recovery failed"@ },
        FeedbackEvent::ExecutionCompleted { execution_id, goal, .. } => "Execution completed: "@ + execution_id@ + " — "@ + goal@,
        FeedbackEvent::ExecutionCancelled { execution_id, goal, .. } => "Execution cancelled: "@ + execution_id@ + " — "@ + goal@,
        FeedbackEvent::ExecutionFailed { execution_id, goal, .. } => "Execution failed: "@ + execution_id@ + " — "@ + goal@,
    }
}

pub open spec fn event_detail(e: FeedbackEvent) -> Seq<char> {
    match e {
        FeedbackEvent::GoalAccepted { confidence_percent, .. } => "Confidence: "@ + decimal(confidence_percent as nat) + "%"@,
        FeedbackEvent::PlanningStarted { .. } => "Decomposing goal into actionable steps"@,
        FeedbackEvent::PlanningFinished { steps, success, .. } => if success {
            "Plan created with "@ + decimal(steps as nat) + " step(s)"@
        } else {
            "Plan may be incomplete or requires refinement"@
        },
        FeedbackEvent::ExecutionStarted { total_steps, .. } => "Total steps: "@ + decimal(total_steps as nat),
        FeedbackEvent::StepStarted { .. } => "Executing step..."@,
        FeedbackEvent::StepCompleted { success, .. } => if success {
            "Step executed successfully"@
        } else {
            "Step execution encountered an error"@
        },
        FeedbackEvent::VerificationPassed { details, .. } => details@,
        FeedbackEvent::VerificationFailed { expected, actual, .. } => "Expected: "@ + expected@ + " | Actual: "@ + actual@,
        FeedbackEvent::RecoveryStarted { reason, .. } => "Reason: "@ + reason@,
        FeedbackEvent::RecoveryCompleted { result, .. } => "Result: "@ + result@,
        FeedbackEvent::ExecutionCompleted { steps_succeeded, steps_failed, elapsed_seconds, .. } =>
            decimal(steps_succeeded as nat) + " succeeded, "@ + decimal(steps_failed as nat) + " failed, "@
                + elapsed_seconds@ + "s elapsed"@,
        FeedbackEvent::ExecutionCancelled { reason, steps_completed, .. } =>
            "Reason: "@ + reason@ + " ("@ + decimal(steps_completed as nat) + " step(s) completed)"@,
        FeedbackEvent::ExecutionFailed { error, steps_succeeded, steps_failed, .. } =>
            "Error: "@ + error@ + " ("@ + decimal(steps_succeeded as nat) + " succeeded, "@
                + decimal(steps_failed as nat) + " failed)"@,
    }
}

/// Events that count as going well.
pub open spec fn is_success_event(e: FeedbackEvent) -> bool {
    match e {
        FeedbackEvent::GoalAccepted { .. } => true,
        FeedbackEvent::PlanningFinished { success, .. } => success,
        FeedbackEvent::StepCompleted { success, .. } => success,
        FeedbackEvent::VerificationPassed { .. } => true,
        FeedbackEvent::RecoveryCompleted { success, .. } => success,
        FeedbackEvent::ExecutionCompleted { .. } => true,
        _ => false,
    }
}

/// The step numbers of the event fit in a `usize`.
pub open spec fn event_fits(e: FeedbackEvent) -> bool {
    match e {
        FeedbackEvent::StepStarted { index, .. } => index < usize::MAX,
        FeedbackEvent::StepCompleted { index, .. } => index < usize::MAX,
        _ => true,
    }
}

fn push_step_of(m: &mut String, index: usize, total: usize)
    requires
        index < usize::MAX,
    ensures
        final(m)@ == old(m)@ + step_of(index, total),
{
    push_str(m, "Step ");
    push_decimal(m, (index + 1) as u64);
    push_str(m, "/");
    push_decimal(m, total as u64);
}

/// Whether an event counts as going well.
pub fn event_is_success(e: &FeedbackEvent) -> (r: bool)
    ensures
        r == is_success_event(*e),
{
    match e {
        FeedbackEvent::GoalAccepted { .. } => true,
        FeedbackEvent::PlanningFinished { success, .. } => *success,
        FeedbackEvent::StepCompleted { success, .. } => *success,
        FeedbackEvent::VerificationPassed { .. } => true,
        FeedbackEvent::RecoveryCompleted { success, .. } => *success,
        FeedbackEvent::ExecutionCompleted { .. } => true,
        _ => false,
    }
}

/// The level, event name, message and detail of an event.
pub fn format_event(event: &FeedbackEvent) -> (r: (FeedbackLevel, String, String, String))
    requires
        event_fits(*event),
    ensures
        r.0 == event_level(*event),
        r.1@ == event_name(*event),
        r.2@ == event_message(*event),
        r.3@ == event_detail(*event),
{
    let mut name = String::new();
    let mut msg = String::new();
    let mut det = String::new();
    let level = match event {
        FeedbackEvent::GoalAccepted { goal, confidence_percent } => {
            push_str(&mut name, "goal_accepted");
            push_str(&mut msg, "Goal accepted: ");
            push_str(&mut msg, goal.as_str());
            push_str(&mut det, "Confidence: ");
            push_decimal(&mut det, *confidence_percent as u64);
            push_str(&mut det, "%");
            FeedbackLevel::Info
        },
        FeedbackEvent::PlanningStarted { goal } => {
            push_str(&mut name, "planning_started");
            push_str(&mut msg, "Planning started for: ");
            push_str(&mut msg, goal.as_str());
            push_str(&mut det, "Decomposing goal into actionable steps");
            FeedbackLevel::Info
        },
        FeedbackEvent::PlanningFinished { goal, steps, success } => {
            push_str(&mut name, "planning_finished");
            if *success {
                push_str(&mut msg, "Planning complete for: ");
                push_str(&mut msg, goal.as_str());
                push_str(&mut det, "Plan created with ");
                push_decimal(&mut det, *steps as u64);
                push_str(&mut det, " step(s)");
                FeedbackLevel::Success
            } else {
                push_str(&mut msg, "Planning finished with issues for: ");
                push_str(&mut msg, goal.as_str());
                push_str(&mut det, "Plan may be incomplete or requires refinement");
                FeedbackLevel::Warning
            }
        },
        FeedbackEvent::ExecutionStarted { execution_id, goal, total_steps } => {
            push_str(&mut name, "execution_started");
            push_str(&mut msg, "Execution started: ");
            push_str(&mut msg, execution_id.as_str());
            push_str(&mut msg, " — ");
            push_str(&mut msg, goal.as_str());
            push_str(&mut det, "Total steps: ");
            push_decimal(&mut det, *total_steps as u64);
            FeedbackLevel::Info
        },
        FeedbackEvent::StepStarted { step, index, total, .. } => {
            push_str(&mut name, "step_started");
            push_step_of(&mut msg, *index, *total);
            push_str(&mut msg, ": ");
            push_str(&mut msg, step.as_str());
            push_str(&mut det, "Executing step...");
            FeedbackLevel::Debug
        },
        FeedbackEvent::StepCompleted { step, index, total, success, .. } => {
            push_str(&mut name, "step_completed");
            push_step_of(&mut msg, *index, *total);
            if *success {
                push_str(&mut msg, " completed: ");
                push_str(&mut msg, step.as_str());
                push_str(&mut det, "Step executed successfully");
                FeedbackLevel::Success
            } else {
                push_str(&mut msg, " failed: ");
                push_str(&mut msg, step.as_str());
                push_str(&mut det, "Step execution encountered an error");
                FeedbackLevel::Error
            }
        },
        FeedbackEvent::VerificationPassed { details, .. } => {
            push_str(&mut name, "verification_passed");
            push_str(&mut msg, "Verification passed");
            push_str(&mut det, details.as_str());
            FeedbackLevel::Success
        },
        FeedbackEvent::VerificationFailed { details, expected, actual, .. } => {
            push_str(&mut name, "verification_failed");
            push_str(&mut msg, "Verification failed: ");
            push_str(&mut msg, details.as_str());
            push_str(&mut det, "Expected: ");
            push_str(&mut det, expected.as_str());
            push_str(&mut det, " | Actual: ");
            push_str(&mut det, actual.as_str());
            FeedbackLevel::Error
        },
        FeedbackEvent::RecoveryStarted { reason, attempt, .. } => {
            push_str(&mut name, "recovery_started");
            push_str(&mut msg, "Recovery attempt #");
            push_decimal(&mut msg, *attempt as u64);
            push_str(&mut det, "Reason: ");
            push_str(&mut det, reason.as_str());
            FeedbackLevel::Warning
        },
        FeedbackEvent::RecoveryCompleted { success, result, .. } => {
            push_str(&mut name, "recovery_completed");
            push_str(&mut det, "Result: ");
            push_str(&mut det, result.as_str());
            if *success {
                push_str(&mut msg, "Recovery completed");
                FeedbackLevel::Success
            } else {
                push_str(&mut msg, "Recovery failed");
                FeedbackLevel::Error
            }
        },
        FeedbackEvent::ExecutionCompleted { execution_id, goal, steps_succeeded, steps_failed, elapsed_seconds, .. } => {
            push_str(&mut name, "execution_completed");
            push_str(&mut msg, "Execution completed: ");
            push_str(&mut msg, execution_id.as_str());
            push_str(&mut msg, " — ");
            push_str(&mut msg, goal.as_str());
            push_decimal(&mut det, *steps_succeeded as u64);
            push_str(&mut det, " succeeded, ");
            push_decimal(&mut det, *steps_failed as u64);
            push_str(&mut det, " failed, ");
            push_str(&mut det, elapsed_seconds.as_str());
            push_str(&mut det, "s elapsed");
            FeedbackLevel::Success
        },
        FeedbackEvent::ExecutionCancelled { execution_id, goal, reason, steps_completed } => {
            push_str(&mut name, "execution_cancelled");
            push_str(&mut msg, "Execution cancelled: ");
            push_str(&mut msg, execution_id.as_str());
            push_str(&mut msg, " — ");
            push_str(&mut msg, goal.as_str());
            push_str(&mut det, "Reason: ");
            push_str(&mut det, reason.as_str());
            push_str(&mut det, " (");
            push_decimal(&mut det, *steps_completed as u64);
            push_str(&mut det, " step(s) completed)");
            FeedbackLevel::Warning
        },
        FeedbackEvent::ExecutionFailed { execution_id, goal, error, steps_succeeded, steps_failed } => {
            push_str(&mut name, "execution_failed");
            push_str(&mut msg, "Execution failed: ");
            push_str(&mut msg, execution_id.as_str());
            push_str(&mut msg, " — ");
            push_str(&mut msg, goal.as_str());
            push_str(&mut det, "Error: ");
            push_str(&mut det, error.as_str());
            push_str(&mut det, " (");
            push_decimal(&mut det, *steps_succeeded as u64);
            push_str(&mut det, " succeeded, ");
            push_decimal(&mut det, *steps_failed as u64);
            push_str(&mut det, " failed)");
            FeedbackLevel::Error
        },
    };
    (level, name, msg, det)
}

/// The history after one more message, keeping only the newest `max`.
pub open spec fn bounded_push(h: Seq<FeedbackMessage>, m: FeedbackMessage, max: usize) -> Seq<FeedbackMessage> {
    let h2 = h.push(m);
    if h2.len() > max {
        h2.skip(h2.len() - max)
    } else {
        h2
    }
}

pub open spec fn emoji_prefix(cfg: FeedbackConfig, l: FeedbackLevel) -> Seq<char> {
    if cfg.enable_emoji { level_emoji(l) + " "@ } else { Seq::empty() }
}

pub open spec fn plain_text(cfg: FeedbackConfig, m: FeedbackMessage) -> Seq<char> {
    let ts = if cfg.show_timestamps { "["@ + signed_decimal(m.timestamp_ms as int) + "] "@ } else { Seq::empty() };
    let em = emoji_prefix(cfg, m.level);
    match m.style {
        FeedbackStyle::Concise => ts + em + m.message@,
        FeedbackStyle::Normal => ts + em + "["@ + level_label(m.level) + "] "@ + m.message@,
        FeedbackStyle::Detailed => ts + em + "["@ + level_label(m.level) + "] "@ + m.message@ + "\n  → "@ + m.detail@,
    }
}

pub open spec fn level_badge(l: FeedbackLevel) -> Seq<char> {
    match l {
        FeedbackLevel::Debug => "`DEBUG`"@,
        FeedbackLevel::Info => "`INFO`"@,
        FeedbackLevel::Success => "`SUCCESS`"@,
        FeedbackLevel::Warning => "`WARN`"@,
        FeedbackLevel::Error => "`ERROR`"@,
    }
}

pub open spec fn markdown_text(cfg: FeedbackConfig, m: FeedbackMessage) -> Seq<char> {
    let ts = if cfg.show_timestamps { "_`"@ + signed_decimal(m.timestamp_ms as int) + "`_ "@ } else { Seq::empty() };
    let em = emoji_prefix(cfg, m.level);
    match m.style {
        FeedbackStyle::Concise => ts + em + m.message@,
        FeedbackStyle::Normal => ts + em + level_badge(m.level) + " "@ + m.message@,
        FeedbackStyle::Detailed => ts + em + level_badge(m.level) + " "@ + m.message@ + "\n> "@ + m.detail@,
    }
}

/// The level of a summary for an execution status.
pub open spec fn status_level(status: Seq<char>) -> FeedbackLevel {
    if status == "completed"@ {
        FeedbackLevel::Success
    } else if status == "cancelled"@ {
        FeedbackLevel::Warning
    } else {
        FeedbackLevel::Error
    }
}

/// Makes messages from events, keeps the newest ones, and counts them.
#[derive(Debug)]
pub struct FeedbackGenerator {
    config: FeedbackConfig,
    metrics: FeedbackMetrics,
    history: Vec<FeedbackMessage>,
}

/// The counters `b` after `a` took in one message for `event` that took
/// `elapsed_ms` to make; every counter wraps.
pub open spec fn counted_message(a: FeedbackCounts, b: FeedbackCounts, event: FeedbackEvent, elapsed_ms: u64) -> bool {
    let l = event_level(event);
    let ok = is_success_event(event);
    &&& b.total_messages == wrap_add(a.total_messages, 1)
    &&& b.total_generation_time_ms == wrap_add(a.total_generation_time_ms, elapsed_ms)
    &&& b.generation_count == wrap_add(a.generation_count, 1)
    &&& b.debug_count == if l == FeedbackLevel::Debug { wrap_add(a.debug_count, 1) } else { a.debug_count }
    &&& b.info_count == if l == FeedbackLevel::Info { wrap_add(a.info_count, 1) } else { a.info_count }
    &&& b.success_count == if l == FeedbackLevel::Success { wrap_add(a.success_count, 1) } else { a.success_count }
    &&& b.warning_count == if l == FeedbackLevel::Warning { wrap_add(a.warning_count, 1) } else { a.warning_count }
    &&& b.error_count == if l == FeedbackLevel::Error { wrap_add(a.error_count, 1) } else { a.error_count }
    &&& b.success_events == if ok { wrap_add(a.success_events, 1) } else { a.success_events }
    &&& b.failure_events == if ok { a.failure_events } else { wrap_add(a.failure_events, 1) }
}

/// Generator `post` and message `m` are what `pre` gives for `event` at
/// time `now` when making the message took `elapsed_ms`: the message, its
/// place at the end of the history, and the counters that took it in.
pub open spec fn generated(pre: FeedbackGenerator, post: FeedbackGenerator, event: FeedbackEvent, m: FeedbackMessage, now: i64, elapsed_ms: u64) -> bool {
    &&& m.level == event_level(event)
    &&& m.event@ == event_name(event)
    &&& m.message@ == event_message(event)
    &&& m.detail@ == event_detail(event)
    &&& m.timestamp_ms == now
    &&& m.style == pre.config_v().default_style
    &&& post.config_v() == pre.config_v()
    &&& post.history_v() == bounded_push(pre.history_v(), m, pre.config_v().max_history)
    &&& counted_message(pre.counts_v(), post.counts_v(), event, elapsed_ms)
}

impl FeedbackGenerator {
    pub closed spec fn config_v(&self) -> FeedbackConfig {
        self.config
    }

    pub closed spec fn history_v(&self) -> Seq<FeedbackMessage> {
        self.history@
    }

    pub closed spec fn counts_v(&self) -> FeedbackCounts {
        self.metrics.view_counts()
    }

    pub fn new() -> (g: Self)
        ensures
            g.config_v() == default_feedback_config(),
            g.history_v().len() == 0,
            g.counts_v() == zero_counts(),
    {
        FeedbackGenerator { config: FeedbackConfig::default(), metrics: FeedbackMetrics::new(), history: Vec::new() }
    }

    pub fn with_config(config: FeedbackConfig) -> (g: Self)
        ensures
            g.config_v() == config,
            g.history_v().len() == 0,
            g.counts_v() == zero_counts(),
    {
        FeedbackGenerator { config, metrics: FeedbackMetrics::new(), history: Vec::new() }
    }

    pub fn config(&self) -> (c: FeedbackConfig)
        ensures
            c == self.config_v(),
    {
        self.config
    }

    pub fn set_config(&mut self, config: FeedbackConfig)
        ensures
            final(self).config_v() == config,
            final(self).history_v() == old(self).history_v(),
            final(self).counts_v() == old(self).counts_v(),
    {
        self.config = config;
    }

    /// The counters behind the metrics.
    pub fn metrics(&self) -> (m: &FeedbackMetrics)
        ensures
            m.view_counts() == self.counts_v(),
    {
        &self.metrics
    }

    /// The kept messages, oldest first.
    pub fn history(&self) -> (h: &[FeedbackMessage])
        ensures
            h@ == self.history_v(),
    {
        self.history.as_slice()
    }

    pub fn clear_history(&mut self)
        ensures
            final(self).history_v().len() == 0,
            final(self).config_v() == old(self).config_v(),
            final(self).counts_v() == old(self).counts_v(),
    {
        self.history.clear();
    }

    fn push_history(&mut self, msg: FeedbackMessage)
        ensures
            final(self).history_v() == bounded_push(old(self).history_v(), msg, old(self).config_v().max_history),
            final(self).config_v() == old(self).config_v(),
            final(self).counts_v() == old(self).counts_v(),
    {
        let ghost h2 = self.history@.push(msg);
        self.history.push(msg);
        let max = self.config.max_history;
        while self.history.len() > max
            invariant
                max == self.config.max_history,
                self.config == old(self).config,
                self.metrics == old(self).metrics,
                self.history@.len() <= h2.len(),
                self.history@ == h2.skip(h2.len() - self.history@.len()),
                h2.len() > max ==> self.history@.len() >= max,
                h2.len() <= max ==> self.history@.len() == h2.len(),
            decreases self.history@.len(),
        {
            let ghost before = self.history@;
            self.history.remove(0);
            proof {
                assert(self.history@ =~= h2.skip(h2.len() - self.history@.len()));
            }
        }
        proof {
            if h2.len() <= max {
                assert(h2.skip(0) =~= h2);
            }
        }
    }

    /// The message for `event`, stamped `now`, that took `elapsed_ms` to
    /// make; it is counted and kept in the history.
    pub fn generate_at(&mut self, event: &FeedbackEvent, now: i64, elapsed_ms: u64) -> (m: FeedbackMessage)
        requires
            event_fits(*event),
        ensures
            generated(*old(self), *final(self), *event, m, now, elapsed_ms),
    {
        let msg = self.message_for(event, now);
        self.take_in(event, &msg, elapsed_ms);
        msg
    }

    fn message_for(&self, event: &FeedbackEvent, now: i64) -> (m: FeedbackMessage)
        requires
            event_fits(*event),
        ensures
            m.level == event_level(*event),
            m.event@ == event_name(*event),
            m.message@ == event_message(*event),
            m.detail@ == event_detail(*event),
            m.timestamp_ms == now,
            m.style == self.config_v().default_style,
    {
        let (level, name, message, detail) = format_event(event);
        FeedbackMessage {
            level,
            event: name,
            message,
            detail,
            timestamp_ms: now,
            style: self.config.default_style,
        }
    }

    fn take_in(&mut self, event: &FeedbackEvent, msg: &FeedbackMessage, elapsed_ms: u64)
        requires
            msg.level == event_level(*event),
        ensures
            final(self).config_v() == old(self).config_v(),
            final(self).history_v() == bounded_push(old(self).history_v(), *msg, old(self).config_v().max_history),
            counted_message(old(self).counts_v(), final(self).counts_v(), *event, elapsed_ms),
    {
        let level = msg.level;
        self.metrics.record(&level, elapsed_ms);
        let ok = event_is_success(event);
        self.metrics.record_event(ok);
        let kept = msg.clone();
        self.push_history(kept);
    }

    /// The message for `event`, stamped with the current time; it is counted
    /// with the time its making took and kept in the history.
    pub fn generate(&mut self, event: &FeedbackEvent) -> (m: FeedbackMessage)
        requires
            event_fits(*event),
        ensures
            exists|now: i64, elapsed_ms: u64| #[trigger] generated(*old(self), *final(self), *event, m, now, elapsed_ms),
    {
        let start = crate::clock::instant_now();
        let now = crate::clock::now_millis();
        let msg = self.message_for(event, now);
        let elapsed = crate::clock::elapsed_millis(&start);
        self.take_in(event, &msg, elapsed);
        assert(generated(*old(self), *self, *event, msg, now, elapsed));
        msg
    }

    /// The message for a finished execution.
    pub fn generate_completion(
        &mut self,
        execution_id: &str,
        goal: &str,
        steps_succeeded: usize,
        steps_failed: usize,
        duration_ms: u64,
        elapsed_seconds: &str,
    ) -> (m: FeedbackMessage)
        ensures
            m.level == FeedbackLevel::Success,
            m.event@ == "execution_completed"@,
            m.message@ == "Execution completed: "@ + execution_id@ + " — "@ + goal@,
            m.detail@ == decimal(steps_succeeded as nat) + " succeeded, "@ + decimal(steps_failed as nat)
                + " failed, "@ + elapsed_seconds@ + "s elapsed"@,
    {
        let e = FeedbackEvent::ExecutionCompleted {
            execution_id: String::from_str(execution_id),
            goal: String::from_str(goal),
            steps_succeeded,
            steps_failed,
            duration_ms,
            elapsed_seconds: String::from_str(elapsed_seconds),
        };
        self.generate(&e)
    }

    /// The message for a failed execution.
    pub fn generate_failure(
        &mut self,
        execution_id: &str,
        goal: &str,
        error: &str,
        steps_succeeded: usize,
        steps_failed: usize,
    ) -> (m: FeedbackMessage)
        ensures
            m.level == FeedbackLevel::Error,
            m.event@ == "execution_failed"@,
            m.message@ == "Execution failed: "@ + execution_id@ + " — "@ + goal@,
            m.detail@ == "Error: "@ + error@ + " ("@ + decimal(steps_succeeded as nat) + " succeeded, "@
                + decimal(steps_failed as nat) + " failed)"@,
    {
        let e = FeedbackEvent::ExecutionFailed {
            execution_id: String::from_str(execution_id),
            goal: String::from_str(goal),
            error: String::from_str(error),
            steps_succeeded,
            steps_failed,
        };
        self.generate(&e)
    }

    /// The message for a recovery attempt.
    pub fn generate_recovery(&mut self, execution_id: &str, reason: &str, attempt: u32) -> (m: FeedbackMessage)
        ensures
            m.level == FeedbackLevel::Warning,
            m.event@ == "recovery_started"@,
            m.message@ == "Recovery attempt #"@ + decimal(attempt as nat),
            m.detail@ == "Reason: "@ + reason@,
    {
        let e = FeedbackEvent::RecoveryStarted {
            execution_id: String::from_str(execution_id),
            reason: String::from_str(reason),
            attempt,
        };
        self.generate(&e)
    }

    /// The summary of an execution, with every kept message.
    pub fn generate_summary(
        &self,
        execution_id: &str,
        goal: &str,
        status: &str,
        total_steps: usize,
        steps_succeeded: usize,
        steps_failed: usize,
        duration_ms: u64,
    ) -> (r: FeedbackSummary)
        ensures
            r.execution_id@ == execution_id@,
            r.goal@ == goal@,
            r.status@ == status@,
            r.total_steps == total_steps,
            r.steps_succeeded == steps_succeeded,
            r.steps_failed == steps_failed,
            r.duration_ms == duration_ms,
            r.feedback_count == self.history_v().len(),
            r.messages@ == self.history_v(),
            r.level == status_level(status@),
    {
        let level = if crate::text::str_eq(status, "completed") {
            FeedbackLevel::Success
        } else if crate::text::str_eq(status, "cancelled") {
            FeedbackLevel::Warning
        } else {
            FeedbackLevel::Error
        };
        let mut messages: Vec<FeedbackMessage> = Vec::new();
        let n = self.history.len();
        let mut i: usize = 0;
        while i < n
            invariant
                n == self.history@.len(),
                i <= n,
                messages@ == self.history@.take(i as int),
            decreases n - i,
        {
            messages.push(self.history[i].clone());
            proof {
                assert(messages@ =~= self.history@.take(i + 1));
            }
            i = i + 1;
        }
        proof {
            assert(self.history@.take(n as int) =~= self.history@);
        }
        FeedbackSummary {
            execution_id: String::from_str(execution_id),
            goal: String::from_str(goal),
            status: String::from_str(status),
            total_steps,
            steps_succeeded,
            steps_failed,
            duration_ms,
            feedback_count: n,
            messages,
            level,
        }
    }

    fn push_prefixes(&self, out: &mut String, msg: &FeedbackMessage, markdown: bool)
        ensures
            final(out)@ == old(out)@ + (if self.config_v().show_timestamps {
                if markdown {
                    "_`"@ + signed_decimal(msg.timestamp_ms as int) + "`_ "@
                } else {
                    "["@ + signed_decimal(msg.timestamp_ms as int) + "] "@
                }
            } else {
                Seq::empty()
            }) + emoji_prefix(self.config_v(), msg.level),
    {
        let ghost o = out@;
        if self.config.show_timestamps {
            if markdown {
                push_str(out, "_`");
                push_signed(out, msg.timestamp_ms);
                push_str(out, "`_ ");
            } else {
                push_str(out, "[");
                push_signed(out, msg.timestamp_ms);
                push_str(out, "] ");
            }
        }
        let ghost o2 = out@;
        if self.config.enable_emoji {
            push_str(out, msg.level.emoji());
            push_str(out, " ");
        }
        proof {
            assert(out@ =~= o2 + emoji_prefix(self.config, msg.level));
        }
    }

    /// A message as one line of plain text, or two in the detailed style.
    pub fn format_plain(&self, msg: &FeedbackMessage) -> (r: String)
        ensures
            r@ == plain_text(self.config_v(), *msg),
    {
        let mut out = String::new();
        self.push_prefixes(&mut out, msg, false);
        match msg.style {
            FeedbackStyle::Concise => {
                push_str(&mut out, msg.message.as_str());
            },
            FeedbackStyle::Normal => {
                push_str(&mut out, "[");
                push_str(&mut out, msg.level.label());
                push_str(&mut out, "] ");
                push_str(&mut out, msg.message.as_str());
            },
            FeedbackStyle::Detailed => {
                push_str(&mut out, "[");
                push_str(&mut out, msg.level.label());
                push_str(&mut out, "] ");
                push_str(&mut out, msg.message.as_str());
                push_str(&mut out, "\n  → ");
                push_str(&mut out, msg.detail.as_str());
            },
        }
        out
    }

    /// A message as markdown.
    pub fn format_markdown(&self, msg: &FeedbackMessage) -> (r: String)
        ensures
            r@ == markdown_text(self.config_v(), *msg),
    {
        let mut out = String::new();
        self.push_prefixes(&mut out, msg, true);
        let badge = match msg.level {
            FeedbackLevel::Debug => "`DEBUG`",
            FeedbackLevel::Info => "`INFO`",
            FeedbackLevel::Success => "`SUCCESS`",
            FeedbackLevel::Warning => "`WARN`",
            FeedbackLevel::Error => "`ERROR`",
        };
        match msg.style {
            FeedbackStyle::Concise => {
                push_str(&mut out, msg.message.as_str());
            },
            FeedbackStyle::Normal => {
                push_str(&mut out, badge);
                push_str(&mut out, " ");
                push_str(&mut out, msg.message.as_str());
            },
            FeedbackStyle::Detailed => {
                push_str(&mut out, badge);
                push_str(&mut out, " ");
                push_str(&mut out, msg.message.as_str());
                push_str(&mut out, "\n> ");
                push_str(&mut out, msg.detail.as_str());
            },
        }
        out
    }
}

impl Default for FeedbackGenerator {
    fn default() -> (g: Self)
        ensures
            g.config_v() == default_feedback_config(),
            g.history_v().len() == 0,
            g.counts_v() == zero_counts(),
    {
        FeedbackGenerator::new()
    }
}

} // verus!
