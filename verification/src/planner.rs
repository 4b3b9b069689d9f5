//! Goals, plans and plan reports as the rest of the library sees them.
use vstd::prelude::*;
use vstd::string::StringExecFns;
use crate::action::ActionType;
use crate::keyed::{pair_map, put_pair, unique_keys};

verus! {

/// A goal in words, with named context values.
#[derive(Debug)]
pub struct Goal {
    pub description: String,
    pub context: Vec<(String, String)>,
}

impl Goal {
    pub fn new(description: &str) -> (g: Self)
        ensures
            g.description@ == description@,
            g.context@.len() == 0,
    {
        Goal { description: String::from_str(description), context: Vec::new() }
    }

    /// Sets a context value; a value under the same key is replaced.
    pub fn with_context(self, key: String, value: String) -> (g: Self)
        ensures
            g.description == self.description,
            pair_map(g.context@) == pair_map(self.context@).insert(key@, value@),
            unique_keys(self.context@) ==> unique_keys(g.context@),
    {
        let mut g = self;
        put_pair(&mut g.context, key, value);
        g
    }
}

/// One step of a plan.
#[derive(Debug)]
pub struct ExecutionStep {
    pub id: String,
    pub description: String,
    pub action: ActionType,
    pub dependencies: Vec<String>,
    pub required_capabilities: Vec<String>,
    pub timeout_ms: u64,
    pub retry_count: u32,
    pub continue_on_failure: bool,
}

/// An ordered plan of steps for a goal.
#[derive(Debug)]
pub struct ExecutionPlan {
    pub id: String,
    pub goal_description: String,
    pub steps: Vec<ExecutionStep>,
    pub created_at: i64,
    pub estimated_steps: usize,
}

/// What running (part of) a plan gave.
#[derive(Debug)]
pub struct GoalExecutionReport {
    pub success: bool,
    pub completed_steps: usize,
    pub failed_steps: usize,
    pub total_steps: usize,
    pub execution_duration_ms: u64,
    pub abort_reason: Option<String>,
}

} // verus!
