//! Settings of the automation engine and their defaults.
use vstd::prelude::*;
use vstd::string::StringExecFns;

verus! {

#[derive(Debug, Clone)]
pub struct AutomationConfig {
    pub scheduler_tick_ms: u64,
    pub default_workflow_timeout_ms: u64,
    pub max_retries: u32,
    pub retry_delay_ms: u64,
    pub step_timeout_ms: u64,
    pub max_concurrent_workflows: usize,
    pub history_max_entries: usize,
    pub enable_scheduler: bool,
    pub enable_voice_triggers: bool,
    pub enable_vision_triggers: bool,
    pub enable_memory_triggers: bool,
    pub enable_device_triggers: bool,
    pub verification_timeout_ms: u64,
    pub default_retry_policy: String,
    pub max_pipeline_duration_ms: u64,
    pub enable_metrics: bool,
    pub enable_event_stream: bool,
    pub enable_verification: bool,
    pub enable_recovery: bool,
    pub enable_replanning: bool,
    pub max_replans: u32,
    pub metrics_retention: usize,
}

impl Default for AutomationConfig {
    fn default() -> (c: Self)
        ensures
            c.scheduler_tick_ms == 10_000,
            c.default_workflow_timeout_ms == 30_000,
            c.max_retries == 3,
            c.retry_delay_ms == 1_000,
            c.step_timeout_ms == 30_000,
            c.max_concurrent_workflows == 10,
            c.history_max_entries == 500,
            c.enable_scheduler,
            !c.enable_voice_triggers,
            !c.enable_vision_triggers,
            !c.enable_memory_triggers,
            !c.enable_device_triggers,
            c.verification_timeout_ms == 10_000,
            c.default_retry_policy@ == "exponential"@,
            c.max_pipeline_duration_ms == 300_000,
            c.enable_metrics,
            c.enable_event_stream,
            c.enable_verification,
            c.enable_recovery,
            c.enable_replanning,
            c.max_replans == 3,
            c.metrics_retention == 1000,
    {
        AutomationConfig {
            scheduler_tick_ms: 10_000,
            default_workflow_timeout_ms: 30_000,
            max_retries: 3,
            retry_delay_ms: 1_000,
            step_timeout_ms: 30_000,
            max_concurrent_workflows: 10,
            history_max_entries: 500,
            enable_scheduler: true,
            enable_voice_triggers: false,
            enable_vision_triggers: false,
            enable_memory_triggers: false,
            enable_device_triggers: false,
            verification_timeout_ms: 10_000,
            default_retry_policy: String::from_str("exponential"),
            max_pipeline_duration_ms: 300_000,
            enable_metrics: true,
            enable_event_stream: true,
            enable_verification: true,
            enable_recovery: true,
            enable_replanning: true,
            max_replans: 3,
            metrics_retention: 1000,
        }
    }
}

} // verus!
