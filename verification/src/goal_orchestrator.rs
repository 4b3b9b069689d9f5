//! Scheduling of many goals at once: priorities, delays, dependencies
//! between goals, resources that one goal at a time may hold, and limits on
//! how many goals run together.
use vstd::prelude::*;
use vstd::string::StringExecFns;
use crate::clock::now_millis;
use crate::keyed::{pair_map, put_pair, string_views, unique_keys};
use crate::planner::Goal;
use crate::text::{
    debug_quoted, debug_str, lemma_seq_lt_irreflexive, lemma_seq_lt_total,
    lemma_seq_lt_transitive, push_signed, push_str, seq_lt, signed_decimal, str_eq, str_lt,
};

verus! {

/// How urgent a goal is; an earlier variant is more urgent.
#[derive(Debug, Clone, Copy, PartialEq, Eq, Structural, PartialOrd, Ord, Hash)]
pub enum GoalPriority {
    Critical,
    High,
    Normal,
    Low,
    Background,
}

impl GoalPriority {
    /// The rank of the priority, 0 for the most urgent.
    pub open spec fn rank(self) -> nat {
        match self {
            GoalPriority::Critical => 0,
            GoalPriority::High => 1,
            GoalPriority::Normal => 2,
            GoalPriority::Low => 3,
            GoalPriority::Background => 4,
        }
    }

    pub fn as_u8(self) -> (r: u8)
        ensures
            r == self.rank(),
    {
        match self {
            GoalPriority::Critical => 0,
            GoalPriority::High => 1,
            GoalPriority::Normal => 2,
            GoalPriority::Low => 3,
            GoalPriority::Background => 4,
        }
    }
}

/// The score a goal enters the ready queue with: its rank in thousands,
/// which is what adjustment gives a goal of no age, no retries and no
/// deadline.
pub open spec fn base_score(p: GoalPriority) -> int {
    (p.rank() * 1000) as int
}

fn base_score_of(p: GoalPriority) -> (s: i64)
    ensures
        s == base_score(p),
{
    (p.as_u8() as i64) * 1000
}

/// The floor that no adjusted score goes below.
pub open spec fn clamp_score(score: int) -> int {
    if score < -2000 {
        -2000
    } else {
        score
    }
}

/// A priority score after adjustment; the lower, the more urgent.
#[derive(Debug, Clone, Copy, PartialEq, Eq, Structural, PartialOrd, Ord)]
pub struct AdjustedPriority {
    score: i64,
}

impl AdjustedPriority {
    pub closed spec fn value(self) -> int {
        self.score as int
    }

    /// The adjusted priority of `score`, raised to the floor of -2000.
    pub fn clamped(score: i64) -> (a: Self)
        ensures
            a.value() == clamp_score(score as int),
    {
        AdjustedPriority { score: if score < -2000 { -2000 } else { score } }
    }

    pub fn score(&self) -> (s: i64)
        ensures
            s == self.value(),
    {
        self.score
    }
}

/// Something on the machine that one goal at a time may hold.
#[derive(Debug, Clone, Copy, PartialEq, Eq, Structural, Hash)]
pub enum Resource {
    Screen,
    Keyboard,
    Mouse,
    Clipboard,
    Audio,
}

/// How `{:?}` renders a resource.
pub open spec fn resource_name(r: Resource) -> Seq<char> {
    match r {
        Resource::Screen => "Screen"@,
        Resource::Keyboard => "Keyboard"@,
        Resource::Mouse => "Mouse"@,
        Resource::Clipboard => "Clipboard"@,
        Resource::Audio => "Audio"@,
    }
}

fn push_resource_name(out: &mut String, r: Resource)
    ensures
        final(out)@ == old(out)@ + resource_name(r),
{
    match r {
        Resource::Screen => push_str(out, "Screen"),
        Resource::Keyboard => push_str(out, "Keyboard"),
        Resource::Mouse => push_str(out, "Mouse"),
        Resource::Clipboard => push_str(out, "Clipboard"),
        Resource::Audio => push_str(out, "Audio"),
    }
}

/// Where a goal stands.
#[derive(Debug, Clone)]
pub enum OrchestratedGoalState {
    Queued,
    Delayed { until: i64 },
    WaitingForDependencies,
    Running,
    Paused,
    Completed,
    Failed(String),
    Cancelled,
}

/// Two states are equal when they are the same variant with the same data.
pub open spec fn goal_state_eq(a: OrchestratedGoalState, b: OrchestratedGoalState) -> bool {
    match (a, b) {
        (OrchestratedGoalState::Failed(x), OrchestratedGoalState::Failed(y)) => x@ == y@,
        (
            OrchestratedGoalState::Delayed { until: x },
            OrchestratedGoalState::Delayed { until: y },
        ) => x == y,
        (OrchestratedGoalState::Queued, OrchestratedGoalState::Queued) => true,
        (
            OrchestratedGoalState::WaitingForDependencies,
            OrchestratedGoalState::WaitingForDependencies,
        ) => true,
        (OrchestratedGoalState::Running, OrchestratedGoalState::Running) => true,
        (OrchestratedGoalState::Paused, OrchestratedGoalState::Paused) => true,
        (OrchestratedGoalState::Completed, OrchestratedGoalState::Completed) => true,
        (OrchestratedGoalState::Cancelled, OrchestratedGoalState::Cancelled) => true,
        _ => false,
    }
}

impl PartialEq for OrchestratedGoalState {
    fn eq(&self, other: &Self) -> (r: bool) {
        match (self, other) {
            (OrchestratedGoalState::Failed(x), OrchestratedGoalState::Failed(y)) => x.eq(y),
            (
                OrchestratedGoalState::Delayed { until: x },
                OrchestratedGoalState::Delayed { until: y },
            ) => *x == *y,
            (OrchestratedGoalState::Queued, OrchestratedGoalState::Queued) => true,
            (
                OrchestratedGoalState::WaitingForDependencies,
                OrchestratedGoalState::WaitingForDependencies,
            ) => true,
            (OrchestratedGoalState::Running, OrchestratedGoalState::Running) => true,
            (OrchestratedGoalState::Paused, OrchestratedGoalState::Paused) => true,
            (OrchestratedGoalState::Completed, OrchestratedGoalState::Completed) => true,
            (OrchestratedGoalState::Cancelled, OrchestratedGoalState::Cancelled) => true,
            _ => false,
        }
    }
}

impl vstd::std_specs::cmp::PartialEqSpecImpl for OrchestratedGoalState {
    open spec fn obeys_eq_spec() -> bool {
        true
    }

    open spec fn eq_spec(&self, other: &Self) -> bool {
        goal_state_eq(*self, *other)
    }
}

impl OrchestratedGoalState {
    pub open spec fn spec_is_terminal(self) -> bool {
        self is Completed || self is Failed || self is Cancelled
    }

    pub open spec fn spec_is_active(self) -> bool {
        self is Running || self is Paused
    }

    pub open spec fn spec_is_queued(self) -> bool {
        self is Queued || self is Delayed || self is WaitingForDependencies
    }

    pub fn is_terminal(&self) -> (r: bool)
        ensures
            r == self.spec_is_terminal(),
    {
        match self {
            OrchestratedGoalState::Completed
            | OrchestratedGoalState::Failed(_)
            | OrchestratedGoalState::Cancelled => true,
            _ => false,
        }
    }

    pub fn is_active(&self) -> (r: bool)
        ensures
            r == self.spec_is_active(),
    {
        match self {
            OrchestratedGoalState::Running | OrchestratedGoalState::Paused => true,
            _ => false,
        }
    }

    pub fn is_queued(&self) -> (r: bool)
        ensures
            r == self.spec_is_queued(),
    {
        match self {
            OrchestratedGoalState::Queued
            | OrchestratedGoalState::Delayed { .. }
            | OrchestratedGoalState::WaitingForDependencies => true,
            _ => false,
        }
    }
}

/// How `{:?}` renders a goal state.
pub open spec fn goal_state_debug(s: OrchestratedGoalState) -> Seq<char> {
    match s {
        OrchestratedGoalState::Queued => "Queued"@,
        OrchestratedGoalState::Delayed { until } => "Delayed { until: "@ + signed_decimal(
            until as int,
        ) + " }"@,
        OrchestratedGoalState::WaitingForDependencies => "WaitingForDependencies"@,
        OrchestratedGoalState::Running => "Running"@,
        OrchestratedGoalState::Paused => "Paused"@,
        OrchestratedGoalState::Completed => "Completed"@,
        OrchestratedGoalState::Failed(m) => "Failed("@ + debug_quoted(m@) + ")"@,
        OrchestratedGoalState::Cancelled => "Cancelled"@,
    }
}

/// Appends the `{:?}` rendering of a goal state.
pub fn push_goal_state_debug(out: &mut String, s: &OrchestratedGoalState)
    ensures
        final(out)@ == old(out)@ + goal_state_debug(*s),
{
    match s {
        OrchestratedGoalState::Queued => push_str(out, "Queued"),
        OrchestratedGoalState::Delayed { until } => {
            push_str(out, "Delayed { until: ");
            push_signed(out, *until);
            push_str(out, " }");
        },
        OrchestratedGoalState::WaitingForDependencies => push_str(out, "WaitingForDependencies"),
        OrchestratedGoalState::Running => push_str(out, "Running"),
        OrchestratedGoalState::Paused => push_str(out, "Paused"),
        OrchestratedGoalState::Completed => push_str(out, "Completed"),
        OrchestratedGoalState::Failed(m) => {
            push_str(out, "Failed(");
            let q = debug_str(m.as_str());
            push_str(out, q.as_str());
            push_str(out, ")");
        },
        OrchestratedGoalState::Cancelled => push_str(out, "Cancelled"),
    }
}

/// A fresh copy of a goal state.
pub fn copy_goal_state(s: &OrchestratedGoalState) -> (r: OrchestratedGoalState)
    ensures
        r == *s,
{
    match s {
        OrchestratedGoalState::Queued => OrchestratedGoalState::Queued,
        OrchestratedGoalState::Delayed { until } => OrchestratedGoalState::Delayed { until: *until },
        OrchestratedGoalState::WaitingForDependencies => OrchestratedGoalState::WaitingForDependencies,
        OrchestratedGoalState::Running => OrchestratedGoalState::Running,
        OrchestratedGoalState::Paused => OrchestratedGoalState::Paused,
        OrchestratedGoalState::Completed => OrchestratedGoalState::Completed,
        OrchestratedGoalState::Failed(m) => OrchestratedGoalState::Failed(m.clone()),
        OrchestratedGoalState::Cancelled => OrchestratedGoalState::Cancelled,
    }
}

/// A goal under orchestration, with what the scheduler needs to know of it.
#[derive(Debug)]
pub struct OrchestratedGoal {
    pub id: String,
    pub goal: Goal,
    pub priority: GoalPriority,
    pub dependencies: Vec<String>,
    pub state: OrchestratedGoalState,
    pub created_at: i64,
    pub started_at: Option<i64>,
    pub completed_at: Option<i64>,
    pub deadline: Option<i64>,
    pub retry_count: u32,
    pub recovery_count: u32,
    pub required_resources: Vec<Resource>,
    pub exclusive: bool,
    pub session_id: Option<String>,
    pub tags: Vec<(String, String)>,
}

/// `g` is a goal just made under `id` for `goal` at time `now`: queued, with
/// no dependencies, resources, tags or counts.
pub open spec fn fresh_goal(
    g: OrchestratedGoal,
    id: Seq<char>,
    goal: Goal,
    priority: GoalPriority,
    now: i64,
) -> bool {
    &&& g.id@ == id
    &&& g.goal == goal
    &&& g.priority == priority
    &&& g.dependencies@.len() == 0
    &&& g.state is Queued
    &&& g.created_at == now
    &&& g.started_at is None
    &&& g.completed_at is None
    &&& g.deadline is None
    &&& g.retry_count == 0
    &&& g.recovery_count == 0
    &&& g.required_resources@.len() == 0
    &&& !g.exclusive
    &&& g.session_id is None
    &&& g.tags@.len() == 0
}

/// The fields that the builders leave alone are those of `b`.
pub open spec fn same_core(a: OrchestratedGoal, b: OrchestratedGoal) -> bool {
    &&& a.id == b.id
    &&& a.goal == b.goal
    &&& a.priority == b.priority
    &&& a.state == b.state
    &&& a.created_at == b.created_at
    &&& a.started_at == b.started_at
    &&& a.completed_at == b.completed_at
    &&& a.retry_count == b.retry_count
    &&& a.recovery_count == b.recovery_count
    &&& a.session_id == b.session_id
}

impl OrchestratedGoal {
    /// A goal made under `id` at time `now`.
    pub fn fresh(id: String, goal: Goal, priority: GoalPriority, now: i64) -> (g: Self)
        ensures
            fresh_goal(g, id@, goal, priority, now),
    {
        OrchestratedGoal {
            id,
            goal,
            priority,
            dependencies: Vec::new(),
            state: OrchestratedGoalState::Queued,
            created_at: now,
            started_at: None,
            completed_at: None,
            deadline: None,
            retry_count: 0,
            recovery_count: 0,
            required_resources: Vec::new(),
            exclusive: false,
            session_id: None,
            tags: Vec::new(),
        }
    }

    /// A goal made under `id`, stamped with the current time.
    pub fn new(id: &str, goal: Goal, priority: GoalPriority) -> (g: Self)
        ensures
            fresh_goal(g, id@, goal, priority, g.created_at),
            g.created_at >= 0,
    {
        Self::fresh(String::from_str(id), goal, priority, now_millis())
    }

    pub fn with_dependency(self, dep_id: &str) -> (g: Self)
        ensures
            same_core(g, self),
            string_views(g.dependencies@) == string_views(self.dependencies@).push(dep_id@),
            g.deadline == self.deadline,
            g.required_resources == self.required_resources,
            g.exclusive == self.exclusive,
            g.tags == self.tags,
    {
        let mut g = self;
        let ghost before = g.dependencies@;
        g.dependencies.push(String::from_str(dep_id));
        proof {
            assert(string_views(g.dependencies@) =~= string_views(before).push(dep_id@));
        }
        g
    }

    pub fn with_deadline(self, deadline_ms: i64) -> (g: Self)
        ensures
            same_core(g, self),
            g.dependencies == self.dependencies,
            g.deadline == Some(deadline_ms),
            g.required_resources == self.required_resources,
            g.exclusive == self.exclusive,
            g.tags == self.tags,
    {
        let mut g = self;
        g.deadline = Some(deadline_ms);
        g
    }

    pub fn with_resource(self, resource: Resource) -> (g: Self)
        ensures
            same_core(g, self),
            g.dependencies == self.dependencies,
            g.deadline == self.deadline,
            g.required_resources@ == self.required_resources@.push(resource),
            g.exclusive == self.exclusive,
            g.tags == self.tags,
    {
        let mut g = self;
        g.required_resources.push(resource);
        g
    }

    pub fn with_exclusive(self) -> (g: Self)
        ensures
            same_core(g, self),
            g.dependencies == self.dependencies,
            g.deadline == self.deadline,
            g.required_resources == self.required_resources,
            g.exclusive,
            g.tags == self.tags,
    {
        let mut g = self;
        g.exclusive = true;
        g
    }

    /// Sets a tag; a tag under the same key is replaced.
    pub fn with_tag(self, key: &str, value: &str) -> (g: Self)
        ensures
            same_core(g, self),
            g.dependencies == self.dependencies,
            g.deadline == self.deadline,
            g.required_resources == self.required_resources,
            g.exclusive == self.exclusive,
            pair_map(g.tags@) == pair_map(self.tags@).insert(key@, value@),
            unique_keys(self.tags@) ==> unique_keys(g.tags@),
    {
        let mut g = self;
        put_pair(&mut g.tags, String::from_str(key), String::from_str(value));
        g
    }
}

// ---------------------------------------------------------------------------
// Resource locks
// ---------------------------------------------------------------------------

/// The first of `rs` that `held` holds.
pub open spec fn first_conflict(rs: Seq<Resource>, held: Set<Resource>) -> Option<Resource>
    decreases rs.len(),
{
    if rs.len() == 0 {
        None
    } else if held.contains(rs[0]) {
        Some(rs[0])
    } else {
        first_conflict(rs.drop_first(), held)
    }
}

/// Some resource of `rs` is held.
pub open spec fn conflicts(rs: Seq<Resource>, held: Set<Resource>) -> bool {
    exists|i: int| 0 <= i < rs.len() && held.contains(#[trigger] rs[i])
}

proof fn lemma_first_conflict(rs: Seq<Resource>, held: Set<Resource>)
    ensures
        first_conflict(rs, held) is Some <==> conflicts(rs, held),
        first_conflict(rs, held) is Some ==> held.contains(first_conflict(rs, held)->0),
    decreases rs.len(),
{
    if rs.len() > 0 {
        lemma_first_conflict(rs.drop_first(), held);
        if conflicts(rs, held) && !held.contains(rs[0]) {
            let i = choose|i: int| 0 <= i < rs.len() && held.contains(#[trigger] rs[i]);
            assert(rs.drop_first()[i - 1] == rs[i]);
        }
        if conflicts(rs.drop_first(), held) {
            let i = choose|i: int| 0 <= i < rs.len() - 1 && held.contains(#[trigger] rs.drop_first()[i]);
            assert(rs[i + 1] == rs.drop_first()[i]);
        }
    }
}

pub open spec fn locked_text(r: Resource) -> Seq<char> {
    "resource '"@ + resource_name(r) + "' is already locked"@
}

fn holds_resource(held: &Vec<Resource>, r: Resource) -> (b: bool)
    ensures
        b == held@.contains(r),
{
    let n = held.len();
    let mut i: usize = 0;
    while i < n
        invariant
            n == held@.len(),
            i <= n,
            forall|j: int| 0 <= j < i ==> held@[j] != r,
        decreases n - i,
    {
        if held[i] == r {
            return true;
        }
        i = i + 1;
    }
    false
}

/// The resources that goals currently hold, each at most once.
#[derive(Debug)]
pub struct ResourceLock {
    held: Vec<Resource>,
}

impl ResourceLock {
    pub closed spec fn held_v(&self) -> Seq<Resource> {
        self.held@
    }

    pub open spec fn held_set(&self) -> Set<Resource> {
        self.held_v().to_set()
    }

    pub open spec fn holds(&self, r: Resource) -> bool {
        self.held_v().contains(r)
    }

    /// No resource is listed twice.
    pub open spec fn wf(&self) -> bool {
        self.held_v().no_duplicates()
    }

    pub fn new() -> (l: Self)
        ensures
            l.wf(),
            l.held_v().len() == 0,
    {
        ResourceLock { held: Vec::new() }
    }

    /// Takes all of `resources`, or none of them when one is already held:
    /// the first such one is named in the error.
    pub fn acquire(&mut self, resources: &[Resource]) -> (r: Result<(), String>)
        requires
            old(self).wf(),
        ensures
            final(self).wf(),
            r is Err <==> conflicts(resources@, old(self).held_set()),
            r is Err ==> {
                &&& r->Err_0@ == locked_text(first_conflict(resources@, old(self).held_set())->0)
                &&& final(self).held_v() == old(self).held_v()
            },
            r is Ok ==> final(self).held_set() == old(self).held_set() + resources@.to_set(),
    {
        proof {
            lemma_first_conflict(resources@, self.held@.to_set());
            assert(resources@.skip(0) =~= resources@);
        }
        let n = resources.len();
        let mut i: usize = 0;
        while i < n
            invariant
                n == resources@.len(),
                i <= n,
                *self == *old(self),
                self.held@.no_duplicates(),
                first_conflict(resources@, self.held@.to_set()) == first_conflict(resources@.skip(i as int), self.held@.to_set()),
                forall|j: int| 0 <= j < i ==> !self.held@.contains(resources@[j]),
            decreases n - i,
        {
            let c = resources[i];
            if holds_resource(&self.held, c) {
                let mut m = String::new();
                push_str(&mut m, "resource '");
                push_resource_name(&mut m, c);
                push_str(&mut m, "' is already locked");
                proof {
                    assert(resources@.skip(i as int)[0] == c);
                }
                return Err(m);
            }
            proof {
                assert(resources@.skip(i as int).drop_first() =~= resources@.skip(i + 1));
            }
            i = i + 1;
        }
        let ghost before = self.held@;
        let mut k: usize = 0;
        proof {
            assert(resources@.take(0).to_set() =~= Set::<Resource>::empty());
            assert(before.to_set() + Set::<Resource>::empty() =~= before.to_set());
        }
        while k < n
            invariant
                n == resources@.len(),
                k <= n,
                self.held@.no_duplicates(),
                self.held@.to_set() == before.to_set() + resources@.take(k as int).to_set(),
            decreases n - k,
        {
            let c = resources[k];
            let ghost prev = self.held@;
            proof {
                assert(resources@.take(k + 1) =~= resources@.take(k as int).push(c));
                resources@.take(k as int).lemma_push_to_set_commute(c);
                prev.lemma_push_to_set_commute(c);
            }
            if !holds_resource(&self.held, c) {
                self.held.push(c);
                proof {
                    assert(self.held@ == prev.push(c));
                    assert forall|a: int, b: int| 0 <= a < b < self.held@.len()
                        implies self.held@[a] != self.held@[b] by {
                        if b == prev.len() {
                            assert(prev.contains(prev[a]));
                        }
                    }
                    assert(self.held@.to_set() =~= before.to_set() + resources@.take(k + 1).to_set());
                }
            } else {
                proof {
                    assert(prev.to_set().contains(c));
                    assert(self.held@.to_set() =~= before.to_set() + resources@.take(k + 1).to_set());
                }
            }
            k = k + 1;
        }
        proof {
            assert(resources@.take(n as int) =~= resources@);
        }
        Ok(())
    }

    /// Gives up all of `resources`.
    pub fn release(&mut self, resources: &[Resource])
        requires
            old(self).wf(),
        ensures
            final(self).wf(),
            final(self).held_set() == old(self).held_set().difference(resources@.to_set()),
    {
        let n = self.held.len();
        let mut kept: Vec<Resource> = Vec::new();
        let mut i: usize = 0;
        proof {
            assert(self.held@.take(0).to_set() =~= Set::<Resource>::empty());
            assert(kept@.to_set() =~= Set::<Resource>::empty().difference(resources@.to_set()));
        }
        while i < n
            invariant
                n == self.held@.len(),
                i <= n,
                self.held@.no_duplicates(),
                kept@.no_duplicates(),
                kept@.to_set() == self.held@.take(i as int).to_set().difference(resources@.to_set()),
            decreases n - i,
        {
            let c = self.held[i];
            let mut found = false;
            let mut j: usize = 0;
            while j < resources.len()
                invariant
                    j <= resources@.len(),
                    !found ==> forall|q: int| 0 <= q < j ==> resources@[q] != c,
                    found ==> resources@.contains(c),
                decreases resources@.len() - j,
            {
                if resources[j] == c {
                    found = true;
                }
                j = j + 1;
            }
            let ghost prev = kept@;
            let ghost a = self.held@.take(i as int);
            proof {
                assert(self.held@.take(i + 1) =~= a.push(c));
                a.lemma_push_to_set_commute(c);
                prev.lemma_push_to_set_commute(c);
                assert(!a.contains(c)) by {
                    if a.contains(c) {
                        let q = choose|q: int| 0 <= q < a.len() && a[q] == c;
                        assert(self.held@[q] == self.held@[i as int]);
                    }
                }
            }
            if !found {
                kept.push(c);
                proof {
                    assert(kept@ == prev.push(c));
                    assert(!prev.contains(c)) by {
                        if prev.contains(c) {
                            assert(prev.to_set().contains(c));
                        }
                    }
                    assert forall|x: int, y: int| 0 <= x < y < kept@.len()
                        implies kept@[x] != kept@[y] by {
                        if y == prev.len() {
                            assert(prev.contains(prev[x]));
                        }
                    }
                }
            }
            proof {
                assert(kept@.to_set() =~= self.held@.take(i + 1).to_set().difference(resources@.to_set()));
            }
            i = i + 1;
        }
        proof {
            assert(self.held@.take(n as int) =~= self.held@);
        }
        self.held = kept;
    }

    pub fn is_held(&self, resource: &Resource) -> (b: bool)
        ensures
            b == self.holds(*resource),
    {
        holds_resource(&self.held, *resource)
    }

    /// The resources held, each once.
    pub fn held_resources(&self) -> (v: Vec<Resource>)
        ensures
            v@ == self.held_v(),
    {
        let mut v: Vec<Resource> = Vec::new();
        let n = self.held.len();
        let mut i: usize = 0;
        while i < n
            invariant
                n == self.held@.len(),
                i <= n,
                v@ == self.held@.take(i as int),
            decreases n - i,
        {
            v.push(self.held[i]);
            proof {
                assert(self.held@.take(i + 1) =~= self.held@.take(i as int).push(self.held@[i as int]));
            }
            i = i + 1;
        }
        proof {
            assert(self.held@.take(n as int) =~= self.held@);
        }
        v
    }

    /// Whether any of `resources` is held.
    pub fn has_conflict(&self, resources: &[Resource]) -> (b: bool)
        ensures
            b == conflicts(resources@, self.held_set()),
    {
        let n = resources.len();
        let mut i: usize = 0;
        while i < n
            invariant
                n == resources@.len(),
                i <= n,
                forall|j: int| 0 <= j < i ==> !self.held@.contains(resources@[j]),
            decreases n - i,
        {
            if holds_resource(&self.held, resources[i]) {
                return true;
            }
            i = i + 1;
        }
        false
    }
}

impl Default for ResourceLock {
    fn default() -> (l: Self)
        ensures
            l.wf(),
            l.held_v().len() == 0,
    {
        Self::new()
    }
}

// ---------------------------------------------------------------------------
// The goal queue
// ---------------------------------------------------------------------------

/// A place in a queue: a score (or, for delayed goals, the due time), a
/// creation time (0 for delayed goals) and a goal id, ordered in that
/// sequence.
pub type QueueKey = (int, int, Seq<char>);

/// `a` comes strictly before `b`.
pub open spec fn key_lt(a: QueueKey, b: QueueKey) -> bool {
    a.0 < b.0 || (a.0 == b.0 && (a.1 < b.1 || (a.1 == b.1 && seq_lt(a.2, b.2))))
}

/// The keys are strictly ordered, so none occurs twice.
pub open spec fn keys_sorted(s: Seq<QueueKey>) -> bool {
    forall|i: int, j: int| 0 <= i < j < s.len() ==> key_lt(s[i], s[j])
}

/// `s` with `k` put before the first key that does not come before it,
/// unless `k` is there already.
pub open spec fn sorted_insert(s: Seq<QueueKey>, k: QueueKey) -> Seq<QueueKey>
    decreases s.len(),
{
    if s.len() == 0 {
        seq![k]
    } else if key_lt(s[0], k) {
        seq![s[0]] + sorted_insert(s.drop_first(), k)
    } else if s[0] == k {
        s
    } else {
        seq![k] + s
    }
}

/// `s` without the keys of goal `id`.
pub open spec fn without_goal(s: Seq<QueueKey>, id: Seq<char>) -> Seq<QueueKey>
    decreases s.len(),
{
    if s.len() == 0 {
        s
    } else if s.last().2 == id {
        without_goal(s.drop_last(), id)
    } else {
        without_goal(s.drop_last(), id).push(s.last())
    }
}

/// The goal ids of the keys, in order.
pub open spec fn key_ids(s: Seq<QueueKey>) -> Seq<Seq<char>> {
    s.map_values(|k: QueueKey| k.2)
}

/// How many keys from the front are due at `now`.
pub open spec fn due_count(s: Seq<QueueKey>, now: int) -> nat
    decreases s.len(),
{
    if s.len() == 0 || s[0].0 > now {
        0
    } else {
        1 + due_count(s.drop_first(), now)
    }
}

pub proof fn lemma_key_lt_irreflexive(a: QueueKey)
    ensures
        !key_lt(a, a),
{
    lemma_seq_lt_irreflexive(a.2);
}

pub proof fn lemma_key_lt_transitive(a: QueueKey, b: QueueKey, c: QueueKey)
    requires
        key_lt(a, b),
        key_lt(b, c),
    ensures
        key_lt(a, c),
{
    if a.0 == b.0 && b.0 == c.0 && a.1 == b.1 && b.1 == c.1 {
        lemma_seq_lt_transitive(a.2, b.2, c.2);
    }
}

pub proof fn lemma_key_lt_total(a: QueueKey, b: QueueKey)
    ensures
        a == b || key_lt(a, b) || key_lt(b, a),
{
    lemma_seq_lt_total(a.2, b.2);
}

/// Where the insertion lands: after every key that comes before `k`.
proof fn lemma_sorted_insert_at(s: Seq<QueueKey>, k: QueueKey, p: int)
    requires
        0 <= p <= s.len(),
        forall|q: int| 0 <= q < p ==> key_lt(s[q], k),
        p == s.len() || !key_lt(s[p], k),
    ensures
        sorted_insert(s, k) == (if p < s.len() && s[p] == k { s } else { s.insert(p, k) }),
    decreases p,
{
    if p == 0 {
        if s.len() == 0 {
            assert(seq![k] =~= s.insert(0, k));
        } else if s[0] != k {
            assert(seq![k] + s =~= s.insert(0, k));
        }
    } else {
        let t = s.drop_first();
        assert forall|q: int| 0 <= q < p - 1 implies key_lt(t[q], k) by {
            assert(t[q] == s[q + 1]);
        }
        lemma_sorted_insert_at(t, k, p - 1);
        if p < s.len() && s[p] == k {
            assert(t[p - 1] == s[p]);
            assert(seq![s[0]] + t =~= s);
        } else {
            if p < s.len() {
                assert(t[p - 1] == s[p]);
            }
            assert(seq![s[0]] + t.insert(p - 1, k) =~= s.insert(p, k));
        }
    }
}

/// Insertion keeps the keys ordered, and adds `k` to them.
pub proof fn lemma_sorted_insert_sorted(s: Seq<QueueKey>, k: QueueKey)
    requires
        keys_sorted(s),
    ensures
        keys_sorted(sorted_insert(s, k)),
        sorted_insert(s, k).to_set() == s.to_set().insert(k),
    decreases s.len(),
{
    if s.len() == 0 {
        assert(seq![k].to_set() =~= s.to_set().insert(k)) by {
            assert(seq![k][0] == k);
        }
    } else {
        let t = s.drop_first();
        assert(keys_sorted(t)) by {
            assert forall|i: int, j: int| 0 <= i < j < t.len() implies key_lt(t[i], t[j]) by {
                assert(t[i] == s[i + 1] && t[j] == s[j + 1]);
            }
        }
        assert(s =~= seq![s[0]] + t);
        if key_lt(s[0], k) {
            lemma_sorted_insert_sorted(t, k);
            let u = sorted_insert(t, k);
            let r = seq![s[0]] + u;
            assert forall|i: int, j: int| 0 <= i < j < r.len() implies key_lt(r[i], r[j]) by {
                if i == 0 {
                    assert(r[j] == u[j - 1]);
                    assert(u.to_set().contains(u[j - 1]));
                    if u[j - 1] != k {
                        assert(t.to_set().contains(u[j - 1]));
                        let q = choose|q: int| 0 <= q < t.len() && t[q] == u[j - 1];
                        assert(s[q + 1] == t[q]);
                    }
                } else {
                    assert(r[i] == u[i - 1] && r[j] == u[j - 1]);
                }
            }
            assert(r.to_set() =~= s.to_set().insert(k)) by {
                assert forall|x: QueueKey| r.to_set().contains(x) <==> s.to_set().insert(k).contains(x) by {
                    if r.contains(x) {
                        let i = choose|i: int| 0 <= i < r.len() && r[i] == x;
                        if i > 0 {
                            assert(u[i - 1] == x);
                            assert(u.to_set().contains(x));
                            if x != k {
                                let q = choose|q: int| 0 <= q < t.len() && t[q] == x;
                                assert(s[q + 1] == x);
                            }
                        } else {
                            assert(s[0] == x);
                        }
                    }
                    if s.contains(x) {
                        let i = choose|i: int| 0 <= i < s.len() && s[i] == x;
                        if i == 0 {
                            assert(r[0] == x);
                        } else {
                            assert(t[i - 1] == x);
                            assert(t.to_set().contains(x));
                            assert(u.to_set().contains(x));
                            let q = choose|q: int| 0 <= q < u.len() && u[q] == x;
                            assert(r[q + 1] == x);
                        }
                    }
                    if x == k {
                        assert(u.to_set().contains(k));
                        let q = choose|q: int| 0 <= q < u.len() && u[q] == k;
                        assert(r[q + 1] == k);
                    }
                }
            }
        } else if s[0] == k {
            assert(s.to_set() =~= s.to_set().insert(k)) by {
                assert(s.contains(s[0]));
            }
        } else {
            lemma_key_lt_total(s[0], k);
            let r = seq![k] + s;
            assert forall|i: int, j: int| 0 <= i < j < r.len() implies key_lt(r[i], r[j]) by {
                if i == 0 {
                    assert(r[j] == s[j - 1]);
                    if j - 1 > 0 {
                        lemma_key_lt_transitive(k, s[0], s[j - 1]);
                    }
                } else {
                    assert(r[i] == s[i - 1] && r[j] == s[j - 1]);
                }
            }
            assert(r.to_set() =~= s.to_set().insert(k)) by {
                assert forall|x: QueueKey| r.contains(x) <==> s.to_set().insert(k).contains(x) by {
                    if r.contains(x) {
                        let i = choose|i: int| 0 <= i < r.len() && r[i] == x;
                        if i > 0 {
                            assert(s[i - 1] == x);
                        }
                    }
                    if s.contains(x) {
                        let i = choose|i: int| 0 <= i < s.len() && s[i] == x;
                        assert(r[i + 1] == x);
                    }
                    if x == k {
                        assert(r[0] == k);
                    }
                }
            }
        }
    }
}

/// Dropping a goal's keys keeps the rest in order; every key left was there.
pub proof fn lemma_without_goal(s: Seq<QueueKey>, id: Seq<char>)
    requires
        keys_sorted(s),
    ensures
        keys_sorted(without_goal(s, id)),
        forall|x: QueueKey| without_goal(s, id).contains(x) <==> (s.contains(x) && x.2 != id),
    decreases s.len(),
{
    if s.len() > 0 {
        let d = s.drop_last();
        assert(keys_sorted(d)) by {
            assert forall|i: int, j: int| 0 <= i < j < d.len() implies key_lt(d[i], d[j]) by {
                assert(d[i] == s[i] && d[j] == s[j]);
            }
        }
        lemma_without_goal(d, id);
        let w = without_goal(d, id);
        assert forall|x: QueueKey| s.contains(x) <==> (d.contains(x) || x == s.last()) by {
            if s.contains(x) {
                let i = choose|i: int| 0 <= i < s.len() && s[i] == x;
                if i < s.len() - 1 {
                    assert(d[i] == x);
                }
            }
            if d.contains(x) {
                let i = choose|i: int| 0 <= i < d.len() && d[i] == x;
                assert(s[i] == x);
            }
            if x == s.last() {
                assert(s[s.len() - 1] == x);
            }
        }
        if s.last().2 != id {
            let r = w.push(s.last());
            assert forall|i: int, j: int| 0 <= i < j < r.len() implies key_lt(r[i], r[j]) by {
                if j == r.len() - 1 {
                    assert(r[i] == w[i]);
                    assert(w.contains(w[i]));
                    assert(d.contains(w[i]));
                    let q = choose|q: int| 0 <= q < d.len() && d[q] == w[i];
                    assert(s[q] == d[q]);
                    assert(key_lt(s[q], s[s.len() - 1]));
                } else {
                    assert(r[i] == w[i] && r[j] == w[j]);
                }
            }
            assert forall|x: QueueKey| r.contains(x) <==> (s.contains(x) && x.2 != id) by {
                if r.contains(x) {
                    let i = choose|i: int| 0 <= i < r.len() && r[i] == x;
                    if i < w.len() {
                        assert(w[i] == x);
                        assert(w.contains(x));
                    }
                }
                if s.contains(x) && x.2 != id {
                    if x == s.last() {
                        assert(r[r.len() - 1] == x);
                    } else {
                        assert(w.contains(x));
                        let i = choose|i: int| 0 <= i < w.len() && w[i] == x;
                        assert(r[i] == x);
                    }
                }
            }
        }
    }
}

/// The due keys form a prefix; in an ordered queue no key after it is due.
pub proof fn lemma_due_count(s: Seq<QueueKey>, now: int)
    ensures
        due_count(s, now) <= s.len(),
        forall|q: int| 0 <= q < due_count(s, now) ==> s[q].0 <= now,
        due_count(s, now) < s.len() ==> s[due_count(s, now) as int].0 > now,
        keys_sorted(s) ==> forall|q: int| due_count(s, now) <= q < s.len() ==> s[q].0 > now,
    decreases s.len(),
{
    if s.len() > 0 && s[0].0 <= now {
        let t = s.drop_first();
        lemma_due_count(t, now);
        assert forall|q: int| 0 <= q < due_count(s, now) implies s[q].0 <= now by {
            if q > 0 {
                assert(s[q] == t[q - 1]);
            }
        }
        if due_count(s, now) < s.len() {
            assert(s[due_count(s, now) as int] == t[due_count(t, now) as int]);
        }
        if keys_sorted(s) {
            assert(keys_sorted(t)) by {
                assert forall|i: int, j: int| 0 <= i < j < t.len() implies key_lt(t[i], t[j]) by {
                    assert(t[i] == s[i + 1] && t[j] == s[j + 1]);
                }
            }
            assert forall|q: int| due_count(s, now) <= q < s.len() implies s[q].0 > now by {
                assert(s[q] == t[q - 1]);
            }
        }
    } else if s.len() > 0 && keys_sorted(s) {
        assert forall|q: int| 0 <= q < s.len() implies s[q].0 > now by {
            if q > 0 {
                assert(key_lt(s[0], s[q]));
            }
        }
    }
}

/// One queue entry; see `QueueKey` for the meaning of the numbers.
#[derive(Debug)]
struct QueueEntry {
    primary: i64,
    secondary: i64,
    goal_id: String,
}

spec fn entry_key(e: QueueEntry) -> QueueKey {
    (e.primary as int, e.secondary as int, e.goal_id@)
}

spec fn entry_keys(s: Seq<QueueEntry>) -> Seq<QueueKey> {
    s.map_values(|e: QueueEntry| entry_key(e))
}

fn entry_lt(a: &QueueEntry, b: &QueueEntry) -> (r: bool)
    ensures
        r == key_lt(entry_key(*a), entry_key(*b)),
{
    if a.primary != b.primary {
        a.primary < b.primary
    } else if a.secondary != b.secondary {
        a.secondary < b.secondary
    } else {
        str_lt(a.goal_id.as_str(), b.goal_id.as_str())
    }
}

fn entry_same(a: &QueueEntry, b: &QueueEntry) -> (r: bool)
    ensures
        r == (entry_key(*a) == entry_key(*b)),
{
    a.primary == b.primary && a.secondary == b.secondary && str_eq(a.goal_id.as_str(), b.goal_id.as_str())
}

/// Puts `e` in its place in the ordered list, unless an equal entry is there.
fn insert_entry(v: &mut Vec<QueueEntry>, e: QueueEntry)
    ensures
        entry_keys(final(v)@) == sorted_insert(entry_keys(old(v)@), entry_key(e)),
{
    let n = v.len();
    let mut p: usize = 0;
    while p < n && entry_lt(&v[p], &e)
        invariant
            n == v@.len(),
            p <= n,
            *v == *old(v),
            forall|q: int| 0 <= q < p ==> key_lt(entry_key(v@[q]), entry_key(e)),
        decreases n - p,
    {
        p = p + 1;
    }
    let ghost s = entry_keys(v@);
    proof {
        assert forall|q: int| 0 <= q < p implies key_lt(s[q], entry_key(e)) by {
            assert(s[q] == entry_key(v@[q]));
        }
        if p < n {
            assert(s[p as int] == entry_key(v@[p as int]));
        }
        lemma_sorted_insert_at(s, entry_key(e), p as int);
    }
    if p < n && entry_same(&v[p], &e) {
        return;
    }
    let ghost k = entry_key(e);
    v.insert(p, e);
    proof {
        assert(entry_keys(v@) =~= s.insert(p as int, k));
    }
}

/// Keeps the entries of other goals than `id`, in order.
fn drop_goal_entries(v: &mut Vec<QueueEntry>, id: &str)
    ensures
        entry_keys(final(v)@) == without_goal(entry_keys(old(v)@), id@),
{
    let n = v.len();
    let ghost s = entry_keys(v@);
    let mut kept: Vec<QueueEntry> = Vec::new();
    let mut i: usize = 0;
    proof {
        assert(s.take(0) =~= Seq::<QueueKey>::empty());
        assert(entry_keys(kept@) =~= Seq::<QueueKey>::empty());
    }
    while i < n
        invariant
            n == v@.len(),
            i <= n,
            *v == *old(v),
            s == entry_keys(v@),
            entry_keys(kept@) == without_goal(s.take(i as int), id@),
        decreases n - i,
    {
        let ghost before = kept@;
        proof {
            assert(s.take(i + 1).drop_last() =~= s.take(i as int));
            assert(s.take(i + 1).last() == s[i as int]);
            assert(s[i as int] == entry_key(v@[i as int]));
        }
        if !str_eq(v[i].goal_id.as_str(), id) {
            let e = QueueEntry { primary: v[i].primary, secondary: v[i].secondary, goal_id: v[i].goal_id.clone() };
            kept.push(e);
            proof {
                assert(entry_keys(kept@) =~= entry_keys(before).push(s[i as int]));
            }
        }
        i = i + 1;
    }
    proof {
        assert(s.take(n as int) =~= s);
    }
    *v = kept;
}

/// The entries ready to start, most urgent first, and the delayed ones,
/// earliest due first.
#[derive(Debug)]
pub struct GoalQueue {
    ready: Vec<QueueEntry>,
    delayed: Vec<QueueEntry>,
}

impl GoalQueue {
    /// The ready entries as keys (score, creation time, id).
    pub closed spec fn ready_v(&self) -> Seq<QueueKey> {
        entry_keys(self.ready@)
    }

    /// The delayed entries as keys (due time, 0, id).
    pub closed spec fn delayed_v(&self) -> Seq<QueueKey> {
        entry_keys(self.delayed@)
    }

    /// Both lists are ordered.
    pub open spec fn wf(&self) -> bool {
        keys_sorted(self.ready_v()) && keys_sorted(self.delayed_v())
    }

    pub fn new() -> (q: Self)
        ensures
            q.wf(),
            q.ready_v().len() == 0,
            q.delayed_v().len() == 0,
    {
        let q = GoalQueue { ready: Vec::new(), delayed: Vec::new() };
        proof {
            assert(q.ready_v() =~= Seq::<QueueKey>::empty());
            assert(q.delayed_v() =~= Seq::<QueueKey>::empty());
        }
        q
    }

    /// Enqueues goal `goal_id` at time `now`: with a delay, among the delayed
    /// entries, due `delay_ms` after `now`; without one, among the ready
    /// entries, under its priority's base score and `created_at`.
    pub fn enqueue_at(&mut self, goal_id: &str, priority: GoalPriority, created_at: i64, delay_ms: u64, now: i64)
        requires
            old(self).wf(),
            delay_ms <= i64::MAX,
            delay_ms > 0 ==> now + delay_ms <= i64::MAX,
        ensures
            final(self).wf(),
            delay_ms > 0 ==> {
                &&& final(self).delayed_v() == sorted_insert(old(self).delayed_v(), (now + delay_ms, 0int, goal_id@))
                &&& final(self).ready_v() == old(self).ready_v()
            },
            delay_ms == 0 ==> {
                &&& final(self).ready_v() == sorted_insert(
                    old(self).ready_v(),
                    (base_score(priority), created_at as int, goal_id@),
                )
                &&& final(self).delayed_v() == old(self).delayed_v()
            },
    {
        if delay_ms > 0 {
            let d = delay_ms as i64;
            let e = QueueEntry { primary: now + d, secondary: 0, goal_id: String::from_str(goal_id) };
            proof {
                lemma_sorted_insert_sorted(entry_keys(self.delayed@), entry_key(e));
            }
            insert_entry(&mut self.delayed, e);
        } else {
            let e = QueueEntry { primary: base_score_of(priority), secondary: created_at, goal_id: String::from_str(goal_id) };
            proof {
                lemma_sorted_insert_sorted(entry_keys(self.ready@), entry_key(e));
            }
            insert_entry(&mut self.ready, e);
        }
    }

    /// Enqueues goal `goal_id` as `enqueue_at` does, at the current time.
    pub fn enqueue(&mut self, goal_id: &str, priority: GoalPriority, created_at: i64, delay_ms: u64)
        requires
            old(self).wf(),
            delay_ms <= i64::MAX - 10_000_000_000_000_000,
        ensures
            final(self).wf(),
            delay_ms > 0 ==> {
                &&& exists|t: int| #![trigger sorted_insert(old(self).delayed_v(), (t + delay_ms, 0int, goal_id@))]
                    0 <= t && final(self).delayed_v() == sorted_insert(
                        old(self).delayed_v(), (t + delay_ms, 0int, goal_id@))
                &&& final(self).ready_v() == old(self).ready_v()
            },
            delay_ms == 0 ==> {
                &&& final(self).ready_v() == sorted_insert(
                    old(self).ready_v(),
                    (base_score(priority), created_at as int, goal_id@),
                )
                &&& final(self).delayed_v() == old(self).delayed_v()
            },
    {
        let now = now_millis();
        self.enqueue_at(goal_id, priority, created_at, delay_ms, now);
    }

    /// Drops every entry of goal `goal_id`, ready or delayed.
    pub fn remove(&mut self, goal_id: &str)
        requires
            old(self).wf(),
        ensures
            final(self).wf(),
            final(self).ready_v() == without_goal(old(self).ready_v(), goal_id@),
            final(self).delayed_v() == without_goal(old(self).delayed_v(), goal_id@),
    {
        proof {
            lemma_without_goal(self.ready_v(), goal_id@);
            lemma_without_goal(self.delayed_v(), goal_id@);
        }
        drop_goal_entries(&mut self.ready, goal_id);
        drop_goal_entries(&mut self.delayed, goal_id);
    }

    /// The id of the most urgent ready goal.
    pub fn peek(&self) -> (r: Option<String>)
        ensures
            r is None <==> self.ready_v().len() == 0,
            r is Some ==> r->0@ == self.ready_v()[0].2,
    {
        if self.ready.len() == 0 {
            None
        } else {
            proof {
                assert(self.ready_v()[0] == entry_key(self.ready@[0]));
            }
            Some(self.ready[0].goal_id.clone())
        }
    }

    /// Takes the most urgent ready goal off the queue.
    pub fn dequeue(&mut self) -> (r: Option<String>)
        requires
            old(self).wf(),
        ensures
            final(self).wf(),
            final(self).delayed_v() == old(self).delayed_v(),
            old(self).ready_v().len() == 0 ==> r is None && final(self).ready_v() == old(self).ready_v(),
            old(self).ready_v().len() > 0 ==> {
                &&& r is Some
                &&& r->0@ == old(self).ready_v()[0].2
                &&& final(self).ready_v() == old(self).ready_v().drop_first()
            },
    {
        if self.ready.len() == 0 {
            return None;
        }
        let ghost before = self.ready@;
        let e = self.ready.remove(0);
        proof {
            assert(before[0] == e);
            assert(entry_keys(self.ready@) =~= entry_keys(before).drop_first());
            assert forall|i: int, j: int| 0 <= i < j < self.ready_v().len()
                implies key_lt(self.ready_v()[i], self.ready_v()[j]) by {
                assert(self.ready_v()[i] == entry_keys(before)[i + 1]);
                assert(self.ready_v()[j] == entry_keys(before)[j + 1]);
            }
        }
        Some(e.goal_id)
    }

    /// Takes the delayed goals due at `now` off the queue and gives their
    /// ids, earliest due first.
    pub fn pop_due_delayed_at(&mut self, now: i64) -> (r: Vec<String>)
        requires
            old(self).wf(),
        ensures
            final(self).wf(),
            final(self).ready_v() == old(self).ready_v(),
            string_views(r@) == key_ids(old(self).delayed_v().take(due_count(old(self).delayed_v(), now as int) as int)),
            final(self).delayed_v() == old(self).delayed_v().skip(due_count(old(self).delayed_v(), now as int) as int),
            forall|q: int| 0 <= q < final(self).delayed_v().len() ==> final(self).delayed_v()[q].0 > now,
            forall|q: int| 0 <= q < r@.len() ==> old(self).delayed_v()[q].0 <= now,
    {
        let ghost s = self.delayed_v();
        proof {
            lemma_due_count(s, now as int);
        }
        let n = self.delayed.len();
        let mut out: Vec<String> = Vec::new();
        let mut p: usize = 0;
        while p < n && self.delayed[p].primary <= now
            invariant
                n == self.delayed@.len(),
                p <= n,
                s == entry_keys(self.delayed@),
                forall|q: int| 0 <= q < p ==> s[q].0 <= now,
                string_views(out@) == key_ids(s.take(p as int)),
            decreases n - p,
        {
            proof {
                assert(s[p as int] == entry_key(self.delayed@[p as int]));
            }
            let id = self.delayed[p].goal_id.clone();
            let ghost before = out@;
            out.push(id);
            proof {
                assert(s.take(p + 1) =~= s.take(p as int).push(s[p as int]));
                assert(string_views(out@) =~= string_views(before).push(s[p as int].2));
                assert(key_ids(s.take(p + 1)) =~= key_ids(s.take(p as int)).push(s[p as int].2));
            }
            p = p + 1;
        }
        proof {
            if p < n {
                assert(s[p as int] == entry_key(self.delayed@[p as int]));
            }
            lemma_due_prefix_is(s, now as int, p as int);
        }
        let mut rest: Vec<QueueEntry> = Vec::new();
        let mut k: usize = p;
        while k < n
            invariant
                n == self.delayed@.len(),
                p <= k <= n,
                s == entry_keys(self.delayed@),
                entry_keys(rest@) == s.subrange(p as int, k as int),
            decreases n - k,
        {
            let e = QueueEntry {
                primary: self.delayed[k].primary,
                secondary: self.delayed[k].secondary,
                goal_id: self.delayed[k].goal_id.clone(),
            };
            let ghost before = rest@;
            rest.push(e);
            proof {
                assert(s[k as int] == entry_key(self.delayed@[k as int]));
                assert(entry_keys(rest@) =~= entry_keys(before).push(s[k as int]));
                assert(s.subrange(p as int, k + 1) =~= s.subrange(p as int, k as int).push(s[k as int]));
            }
            k = k + 1;
        }
        self.delayed = rest;
        proof {
            assert(s.subrange(p as int, n as int) =~= s.skip(p as int));
            assert forall|i: int, j: int| 0 <= i < j < self.delayed_v().len()
                implies key_lt(self.delayed_v()[i], self.delayed_v()[j]) by {
                assert(self.delayed_v()[i] == s[i + p] && self.delayed_v()[j] == s[j + p]);
            }
            assert forall|q: int| 0 <= q < self.delayed_v().len() implies self.delayed_v()[q].0 > now by {
                assert(self.delayed_v()[q] == s[q + p]);
            }
        }
        out
    }

    /// Takes the delayed goals due now off the queue, as `pop_due_delayed_at`
    /// does at the current time.
    pub fn pop_due_delayed(&mut self) -> (r: Vec<String>)
        requires
            old(self).wf(),
        ensures
            final(self).wf(),
            final(self).ready_v() == old(self).ready_v(),
            exists|t: int| #![trigger due_count(old(self).delayed_v(), t)]
                0 <= t && {
                &&& string_views(r@) == key_ids(old(self).delayed_v().take(due_count(old(self).delayed_v(), t) as int))
                &&& final(self).delayed_v() == old(self).delayed_v().skip(due_count(old(self).delayed_v(), t) as int)
            },
    {
        let now = now_millis();
        self.pop_due_delayed_at(now)
    }

    /// The number of ready entries; delayed ones do not count.
    pub fn len(&self) -> (n: usize)
        ensures
            n == self.ready_v().len(),
    {
        self.ready.len()
    }

    pub fn is_empty(&self) -> (b: bool)
        ensures
            b == (self.ready_v().len() == 0),
    {
        self.ready.len() == 0
    }

    /// The ids of the ready entries, most urgent first.
    pub fn all_ids(&self) -> (r: Vec<String>)
        ensures
            string_views(r@) == key_ids(self.ready_v()),
    {
        entry_ids(&self.ready)
    }

    /// The ids of the delayed entries, earliest due first.
    pub fn delayed_ids(&self) -> (r: Vec<String>)
        ensures
            string_views(r@) == key_ids(self.delayed_v()),
    {
        entry_ids(&self.delayed)
    }
}

impl Default for GoalQueue {
    fn default() -> (q: Self)
        ensures
            q.wf(),
            q.ready_v().len() == 0,
            q.delayed_v().len() == 0,
    {
        Self::new()
    }
}

/// The prefix that the scan stopped at is the due prefix.
proof fn lemma_due_prefix_is(s: Seq<QueueKey>, now: int, p: int)
    requires
        0 <= p <= s.len(),
        forall|q: int| 0 <= q < p ==> s[q].0 <= now,
        p == s.len() || s[p].0 > now,
    ensures
        due_count(s, now) == p,
    decreases p,
{
    if p > 0 {
        let t = s.drop_first();
        assert forall|q: int| 0 <= q < p - 1 implies t[q].0 <= now by {
            assert(t[q] == s[q + 1]);
        }
        if p < s.len() {
            assert(t[p - 1] == s[p]);
        }
        lemma_due_prefix_is(t, now, p - 1);
    }
}

fn entry_ids(v: &Vec<QueueEntry>) -> (r: Vec<String>)
    ensures
        string_views(r@) == key_ids(entry_keys(v@)),
{
    let n = v.len();
    let ghost s = entry_keys(v@);
    let mut out: Vec<String> = Vec::new();
    let mut i: usize = 0;
    while i < n
        invariant
            n == v@.len(),
            i <= n,
            s == entry_keys(v@),
            string_views(out@) == key_ids(s.take(i as int)),
        decreases n - i,
    {
        let ghost before = out@;
        out.push(v[i].goal_id.clone());
        proof {
            assert(s[i as int] == entry_key(v@[i as int]));
            assert(s.take(i + 1) =~= s.take(i as int).push(s[i as int]));
            assert(string_views(out@) =~= string_views(before).push(s[i as int].2));
            assert(key_ids(s.take(i + 1)) =~= key_ids(s.take(i as int)).push(s[i as int].2));
        }
        i = i + 1;
    }
    proof {
        assert(s.take(n as int) =~= s);
    }
    out
}

// ---------------------------------------------------------------------------
// Metrics and configuration
// ---------------------------------------------------------------------------

/// Counts of goals by outcome, and the time they spent queued and running.
#[derive(Debug, Clone, Copy, PartialEq, Eq, Structural)]
pub struct OrchestratorMetrics {
    pub total_submitted: u64,
    pub total_completed: u64,
    pub total_failed: u64,
    pub total_cancelled: u64,
    pub total_retries: u64,
    pub total_recoveries: u64,
    pub cumulative_queue_wait_ms: i64,
    pub cumulative_execution_ms: i64,
    pub peak_concurrent: usize,
}

pub open spec fn zero_orchestrator_metrics() -> OrchestratorMetrics {
    OrchestratorMetrics {
        total_submitted: 0,
        total_completed: 0,
        total_failed: 0,
        total_cancelled: 0,
        total_retries: 0,
        total_recoveries: 0,
        cumulative_queue_wait_ms: 0,
        cumulative_execution_ms: 0,
        peak_concurrent: 0,
    }
}

impl Default for OrchestratorMetrics {
    fn default() -> (m: Self)
        ensures
            m == zero_orchestrator_metrics(),
    {
        OrchestratorMetrics {
            total_submitted: 0,
            total_completed: 0,
            total_failed: 0,
            total_cancelled: 0,
            total_retries: 0,
            total_recoveries: 0,
            cumulative_queue_wait_ms: 0,
            cumulative_execution_ms: 0,
            peak_concurrent: 0,
        }
    }
}

/// Limits of the orchestrator.
#[derive(Debug, Clone, Copy, PartialEq, Eq, Structural)]
pub struct GoalOrchestratorConfig {
    pub max_concurrent_goals: usize,
    pub max_background_goals: usize,
    pub max_queued_goals: usize,
    pub starvation_check_interval_ms: u64,
    pub enable_dynamic_priority: bool,
}

pub open spec fn default_orchestrator_config() -> GoalOrchestratorConfig {
    GoalOrchestratorConfig {
        max_concurrent_goals: 5,
        max_background_goals: 2,
        max_queued_goals: 100,
        starvation_check_interval_ms: 30_000,
        enable_dynamic_priority: true,
    }
}

impl Default for GoalOrchestratorConfig {
    fn default() -> (c: Self)
        ensures
            c == default_orchestrator_config(),
    {
        GoalOrchestratorConfig {
            max_concurrent_goals: 5,
            max_background_goals: 2,
            max_queued_goals: 100,
            starvation_check_interval_ms: 30_000,
            enable_dynamic_priority: true,
        }
    }
}

// ---------------------------------------------------------------------------
// The orchestrator's state as plain values
// ---------------------------------------------------------------------------

/// Everything an orchestrator holds: its goals in the order they came, the
/// ready and delayed queue keys, the resources held, the ids of the goals
/// counted as running, its metrics and its limits.
#[verifier::ext_equal]
pub struct OrchModel {
    pub goals: Seq<OrchestratedGoal>,
    pub ready: Seq<QueueKey>,
    pub delayed: Seq<QueueKey>,
    pub held: Set<Resource>,
    pub running: Set<Seq<char>>,
    pub metrics: OrchestratorMetrics,
    pub config: GoalOrchestratorConfig,
}

/// No two goals share an id.
pub open spec fn goal_ids_unique(s: Seq<OrchestratedGoal>) -> bool {
    forall|i: int, j: int| 0 <= i < j < s.len() ==> s[i].id@ != s[j].id@
}

/// Where the goal with this id stands, or -1.
pub open spec fn goal_index(s: Seq<OrchestratedGoal>, id: Seq<char>) -> int {
    if exists|i: int| 0 <= i < s.len() && s[i].id@ == id {
        choose|i: int| 0 <= i < s.len() && s[i].id@ == id
    } else {
        -1
    }
}

/// Timestamps are milliseconds since the epoch, as the clock gives them.
pub open spec fn times_valid(s: Seq<OrchestratedGoal>) -> bool {
    forall|i: int| 0 <= i < s.len() ==> {
        &&& s[i].created_at >= 0
        &&& (s[i].started_at matches Some(t) ==> t >= 0)
    }
}

/// The goals with `g` put under its id: replacing a goal of that id, or
/// appended.
pub open spec fn put_goal(s: Seq<OrchestratedGoal>, g: OrchestratedGoal) -> Seq<OrchestratedGoal> {
    let i = goal_index(s, g.id@);
    if i >= 0 {
        s.update(i, g)
    } else {
        s.push(g)
    }
}

/// The ready-queue key a goal enters under.
pub open spec fn goal_key(g: OrchestratedGoal) -> QueueKey {
    (base_score(g.priority), g.created_at as int, g.id@)
}

pub open spec fn goal_not_found_text(id: Seq<char>) -> Seq<char> {
    "goal '"@ + id + "' not found"@
}

proof fn lemma_goal_index_unique(s: Seq<OrchestratedGoal>, i: int)
    requires
        goal_ids_unique(s),
        0 <= i < s.len(),
    ensures
        goal_index(s, s[i].id@) == i,
{
    let k = choose|k: int| 0 <= k < s.len() && s[k].id@ == s[i].id@;
    assert(k == i);
}

proof fn lemma_put_goal(s: Seq<OrchestratedGoal>, g: OrchestratedGoal)
    requires
        goal_ids_unique(s),
    ensures
        goal_ids_unique(put_goal(s, g)),
        goal_index(put_goal(s, g), g.id@) >= 0,
        put_goal(s, g)[goal_index(put_goal(s, g), g.id@)] == g,
{
    let t = put_goal(s, g);
    let i = goal_index(s, g.id@);
    if i >= 0 {
        assert(s[i].id@ == g.id@);
        assert(t[i] == g);
        lemma_goal_index_unique(t, i);
    } else {
        assert forall|j: int| 0 <= j < s.len() implies s[j].id@ != g.id@ by {}
        assert(t[s.len() as int] == g);
        lemma_goal_index_unique(t, s.len() as int);
    }
}

/// The goals whose state satisfies `pred`, in order.
pub open spec fn goals_where(s: Seq<OrchestratedGoal>, pred: spec_fn(OrchestratedGoalState) -> bool) -> Seq<OrchestratedGoal>
    decreases s.len(),
{
    if s.len() == 0 {
        Seq::empty()
    } else if pred(s.last().state) {
        goals_where(s.drop_last(), pred).push(s.last())
    } else {
        goals_where(s.drop_last(), pred)
    }
}

pub open spec fn deref_goals(s: Seq<&OrchestratedGoal>) -> Seq<OrchestratedGoal> {
    s.map_values(|g: &OrchestratedGoal| *g)
}

pub open spec fn is_queued_state(st: OrchestratedGoalState) -> bool {
    st.spec_is_queued()
}

pub open spec fn is_active_state(st: OrchestratedGoalState) -> bool {
    st.spec_is_active()
}

pub open spec fn is_completed_state(st: OrchestratedGoalState) -> bool {
    st is Completed
}

pub open spec fn is_failed_state(st: OrchestratedGoalState) -> bool {
    st is Failed
}

/// `m` with its goal at `i` replaced by `g`.
pub open spec fn with_goal_at(m: OrchModel, i: int, g: OrchestratedGoal) -> OrchModel {
    OrchModel { goals: m.goals.update(i, g), ..m }
}

// ---------------------------------------------------------------------------
// The orchestrator
// ---------------------------------------------------------------------------

/// Keeps many goals: takes them in, orders them, starts as many as the
/// limits and resources allow, and follows them to their end.
#[derive(Debug)]
pub struct GoalOrchestrator {
    goals: Vec<OrchestratedGoal>,
    queue: GoalQueue,
    resource_lock: ResourceLock,
    metrics: OrchestratorMetrics,
    config: GoalOrchestratorConfig,
    running_ids: Vec<String>,
}

/// Adds `id` to a list of distinct ids, unless it is there.
fn add_id(v: &mut Vec<String>, id: &str)
    requires
        string_views(old(v)@).no_duplicates(),
    ensures
        string_views(final(v)@).no_duplicates(),
        string_views(final(v)@).to_set() == string_views(old(v)@).to_set().insert(id@),
{
    let ghost before = string_views(v@);
    proof {
        before.lemma_push_to_set_commute(id@);
    }
    if crate::keyed::listed(v.as_slice(), id) {
        proof {
            let k = choose|k: int| 0 <= k < v@.len() && v@[k]@ == id@;
            assert(before[k] == id@);
            assert(before.to_set().insert(id@) =~= before.to_set());
        }
        return;
    }
    v.push(String::from_str(id));
    proof {
        assert(string_views(v@) =~= before.push(id@));
        assert forall|a: int, b: int| 0 <= a < b < string_views(v@).len()
            implies string_views(v@)[a] != string_views(v@)[b] by {
            if b == before.len() {
                assert(v@[a]@ == before[a]);
            }
        }
    }
}

/// Drops `id` from a list of distinct ids.
fn drop_id(v: &mut Vec<String>, id: &str)
    requires
        string_views(old(v)@).no_duplicates(),
    ensures
        string_views(final(v)@).no_duplicates(),
        string_views(final(v)@).to_set() == string_views(old(v)@).to_set().remove(id@),
{
    let n = v.len();
    let ghost s = string_views(v@);
    let mut kept: Vec<String> = Vec::new();
    let mut i: usize = 0;
    while i < n
        invariant
            n == v@.len(),
            i <= n,
            s == string_views(v@),
            s.no_duplicates(),
            string_views(kept@).no_duplicates(),
            forall|x: Seq<char>| string_views(kept@).contains(x) <==> (s.take(i as int).contains(x) && x != id@),
        decreases n - i,
    {
        let ghost before = string_views(kept@);
        let ghost t0 = s.take(i as int);
        let ghost t1 = s.take(i + 1);
        proof {
            assert(s[i as int] == v@[i as int]@);
            assert forall|x: Seq<char>| t1.contains(x) <==> (t0.contains(x) || x == s[i as int]) by {
                if t1.contains(x) {
                    let k = choose|k: int| 0 <= k < t1.len() && t1[k] == x;
                    if k < i {
                        assert(t0[k] == x);
                    }
                }
                if t0.contains(x) {
                    let k = choose|k: int| 0 <= k < t0.len() && t0[k] == x;
                    assert(t1[k] == x);
                }
                if x == s[i as int] {
                    assert(t1[i as int] == x);
                }
            }
        }
        if !str_eq(v[i].as_str(), id) {
            kept.push(v[i].clone());
            proof {
                assert(string_views(kept@) =~= before.push(s[i as int]));
                assert(!t0.contains(s[i as int])) by {
                    if t0.contains(s[i as int]) {
                        let k = choose|k: int| 0 <= k < t0.len() && t0[k] == s[i as int];
                        assert(s[k] == s[i as int]);
                    }
                }
                assert forall|a: int, b: int| 0 <= a < b < string_views(kept@).len()
                    implies string_views(kept@)[a] != string_views(kept@)[b] by {
                    if b == before.len() {
                        assert(before.contains(before[a]));
                    }
                }
                assert forall|x: Seq<char>| string_views(kept@).contains(x) <==> (t1.contains(x) && x != id@) by {
                    if string_views(kept@).contains(x) && x != s[i as int] {
                        let k = choose|k: int| 0 <= k < string_views(kept@).len() && string_views(kept@)[k] == x;
                        assert(before[k] == x);
                    }
                    if x == s[i as int] {
                        assert(string_views(kept@)[before.len() as int] == x);
                    }
                    if before.contains(x) {
                        let k = choose|k: int| 0 <= k < before.len() && before[k] == x;
                        assert(string_views(kept@)[k] == x);
                    }
                }
            }
        }
        i = i + 1;
    }
    proof {
        assert(s.take(n as int) =~= s);
        assert(string_views(kept@).to_set() =~= s.to_set().remove(id@));
    }
    *v = kept;
}

/// Appends the ids of the goals that `pred` picks, as references.
fn goals_matching(goals: &Vec<OrchestratedGoal>, which: u8) -> (r: Vec<&OrchestratedGoal>)
    requires
        which < 4,
    ensures
        deref_goals(r@) == goals_where(goals@, state_filter(which)),
{
    let n = goals.len();
    let mut out: Vec<&OrchestratedGoal> = Vec::new();
    let mut i: usize = 0;
    proof {
        assert(goals@.take(0) =~= Seq::<OrchestratedGoal>::empty());
        assert(deref_goals(out@) =~= Seq::<OrchestratedGoal>::empty());
    }
    while i < n
        invariant
            n == goals@.len(),
            i <= n,
            which < 4,
            deref_goals(out@) == goals_where(goals@.take(i as int), state_filter(which)),
        decreases n - i,
    {
        let g = &goals[i];
        let keep = match which {
            0 => g.state.is_queued(),
            1 => g.state.is_active(),
            2 => match g.state {
                OrchestratedGoalState::Completed => true,
                _ => false,
            },
            _ => match g.state {
                OrchestratedGoalState::Failed(_) => true,
                _ => false,
            },
        };
        let ghost before = out@;
        proof {
            assert(goals@.take(i + 1).drop_last() =~= goals@.take(i as int));
            assert(goals@.take(i + 1).last() == goals@[i as int]);
            assert(keep == (state_filter(which))(g.state));
        }
        if keep {
            out.push(g);
            proof {
                assert(deref_goals(out@) =~= deref_goals(before).push(*g));
            }
        }
        i = i + 1;
    }
    proof {
        assert(goals@.take(n as int) =~= goals@);
    }
    out
}

/// The state test behind each of the goal listings.
pub open spec fn state_filter(which: u8) -> spec_fn(OrchestratedGoalState) -> bool {
    if which == 0 {
        |st: OrchestratedGoalState| is_queued_state(st)
    } else if which == 1 {
        |st: OrchestratedGoalState| is_active_state(st)
    } else if which == 2 {
        |st: OrchestratedGoalState| is_completed_state(st)
    } else {
        |st: OrchestratedGoalState| is_failed_state(st)
    }
}

impl GoalOrchestrator {
    pub closed spec fn model(&self) -> OrchModel {
        OrchModel {
            goals: self.goals@,
            ready: self.queue.ready_v(),
            delayed: self.queue.delayed_v(),
            held: self.resource_lock.held_v().to_set(),
            running: string_views(self.running_ids@).to_set(),
            metrics: self.metrics,
            config: self.config,
        }
    }

    /// The parts hidden behind the model are consistent with it.
    pub closed spec fn inner_ok(&self) -> bool {
        &&& self.queue.wf()
        &&& self.resource_lock.wf()
        &&& string_views(self.running_ids@).no_duplicates()
    }

    /// Goal ids are unique, the queues are ordered and timestamps are epoch
    /// milliseconds.
    pub open spec fn wf(&self) -> bool {
        &&& goal_ids_unique(self.model().goals)
        &&& keys_sorted(self.model().ready)
        &&& keys_sorted(self.model().delayed)
        &&& times_valid(self.model().goals)
        &&& self.inner_ok()
    }

    /// How many goals count as running.
    pub closed spec fn running_count(&self) -> nat {
        self.running_ids@.len()
    }

    pub fn new(config: GoalOrchestratorConfig) -> (o: Self)
        ensures
            o.wf(),
            o.model().goals.len() == 0,
            o.model().ready.len() == 0,
            o.model().delayed.len() == 0,
            o.model().held == Set::<Resource>::empty(),
            o.model().running == Set::<Seq<char>>::empty(),
            o.model().metrics == zero_orchestrator_metrics(),
            o.model().config == config,
    {
        let o = GoalOrchestrator {
            goals: Vec::new(),
            queue: GoalQueue::new(),
            resource_lock: ResourceLock::new(),
            metrics: OrchestratorMetrics::default(),
            config,
            running_ids: Vec::new(),
        };
        proof {
            assert(o.model().held =~= Set::<Resource>::empty());
            assert(string_views(o.running_ids@) =~= Seq::<Seq<char>>::empty());
            assert(o.model().running =~= Set::<Seq<char>>::empty());
        }
        o
    }

    /// The resources currently held by running goals.
    pub fn resource_lock(&self) -> (l: &ResourceLock)
        ensures
            l.held_v().to_set() == self.model().held,
            l.wf() <== self.wf(),
    {
        &self.resource_lock
    }

    pub fn config(&self) -> (c: GoalOrchestratorConfig)
        ensures
            c == self.model().config,
    {
        self.config
    }

    pub fn metrics(&self) -> (m: OrchestratorMetrics)
        ensures
            m == self.model().metrics,
    {
        self.metrics
    }

    /// Where the goal with this id stands.
    fn find_goal(&self, goal_id: &str) -> (r: Option<usize>)
        requires
            self.wf(),
        ensures
            match r {
                Some(i) => i == goal_index(self.model().goals, goal_id@) && i < self.model().goals.len(),
                None => goal_index(self.model().goals, goal_id@) == -1,
            },
    {
        let n = self.goals.len();
        let mut i: usize = 0;
        while i < n
            invariant
                n == self.goals@.len(),
                i <= n,
                self.wf(),
                forall|j: int| 0 <= j < i ==> self.goals@[j].id@ != goal_id@,
            decreases n - i,
        {
            if str_eq(self.goals[i].id.as_str(), goal_id) {
                proof {
                    lemma_goal_index_unique(self.goals@, i as int);
                }
                return Some(i);
            }
            i = i + 1;
        }
        None
    }

    /// Takes the goal at `i` out, leaving a placeholder with the same id.
    fn take_goal(&mut self, i: usize) -> (g: OrchestratedGoal)
        requires
            i < old(self).goals@.len(),
        ensures
            g == old(self).goals@[i as int],
            final(self).goals@.len() == old(self).goals@.len(),
            final(self).goals@[i as int].id@ == g.id@,
            final(self).goals@[i as int].created_at == 0,
            final(self).goals@[i as int].started_at is None,
            forall|j: int| 0 <= j < old(self).goals@.len() && j != i ==> final(self).goals@[j] == old(self).goals@[j],
            final(self).queue == old(self).queue,
            final(self).resource_lock == old(self).resource_lock,
            final(self).metrics == old(self).metrics,
            final(self).config == old(self).config,
            final(self).running_ids == old(self).running_ids,
    {
        let id = self.goals[i].id.clone();
        let mut g = OrchestratedGoal::fresh(id, Goal::new(""), GoalPriority::Normal, 0);
        std::mem::swap(&mut g, &mut self.goals[i]);
        g
    }

    /// Puts a goal back at `i`.
    fn put_goal_at(&mut self, i: usize, g: OrchestratedGoal)
        requires
            i < old(self).goals@.len(),
        ensures
            final(self).goals@ == old(self).goals@.update(i as int, g),
            final(self).queue == old(self).queue,
            final(self).resource_lock == old(self).resource_lock,
            final(self).metrics == old(self).metrics,
            final(self).config == old(self).config,
            final(self).running_ids == old(self).running_ids,
    {
        self.goals.set(i, g);
    }
}

// ---------------------------------------------------------------------------
// What each operation does to the model
// ---------------------------------------------------------------------------

pub open spec fn terminal_text(id: Seq<char>, st: OrchestratedGoalState) -> Seq<char> {
    "goal '"@ + id + "' already in terminal state "@ + goal_state_debug(st)
}

pub open spec fn cannot_pause_text(st: OrchestratedGoalState) -> Seq<char> {
    "cannot pause goal in state "@ + goal_state_debug(st)
}

pub open spec fn cannot_resume_text(st: OrchestratedGoalState) -> Seq<char> {
    "cannot resume goal in state "@ + goal_state_debug(st)
}

pub open spec fn not_running_text(id: Seq<char>) -> Seq<char> {
    "goal '"@ + id + "' is not running"@
}

/// A total of milliseconds with `d` more added when `d` is positive; the
/// total wraps around on overflow, as `+=` does in a release build.
pub open spec fn add_time(total: i64, d: int) -> i64 {
    if d > 0 {
        vstd::wrapping::i64_specs::wrapping_add(total, d as i64)
    } else {
        total
    }
}

/// What `cancel_goal_at` does.
pub open spec fn cancel_post(pre: OrchModel, post: OrchModel, id: Seq<char>, now: i64, r: Result<(), String>) -> bool {
    let i = goal_index(pre.goals, id);
    if i < 0 {
        &&& r is Err
        &&& r->Err_0@ == goal_not_found_text(id)
        &&& post == pre
    } else if pre.goals[i].state.spec_is_terminal() {
        &&& r is Err
        &&& r->Err_0@ == terminal_text(id, pre.goals[i].state)
        &&& post == pre
    } else {
        let g = pre.goals[i];
        &&& r is Ok
        &&& post == OrchModel {
            goals: pre.goals.update(
                i,
                OrchestratedGoal { state: OrchestratedGoalState::Cancelled, completed_at: Some(now), ..g },
            ),
            ready: without_goal(pre.ready, id),
            delayed: without_goal(pre.delayed, id),
            held: pre.held.difference(g.required_resources@.to_set()),
            running: pre.running.remove(id),
            metrics: OrchestratorMetrics {
                total_cancelled: (pre.metrics.total_cancelled + 1) as u64,
                ..pre.metrics
            },
            config: pre.config,
        }
    }
}

/// What `pause_goal` does.
pub open spec fn pause_post(pre: OrchModel, post: OrchModel, id: Seq<char>, r: Result<(), String>) -> bool {
    let i = goal_index(pre.goals, id);
    if i < 0 {
        &&& r is Err
        &&& r->Err_0@ == goal_not_found_text(id)
        &&& post == pre
    } else if !(pre.goals[i].state is Running) {
        &&& r is Err
        &&& r->Err_0@ == cannot_pause_text(pre.goals[i].state)
        &&& post == pre
    } else {
        &&& r is Ok
        &&& post == OrchModel {
            goals: pre.goals.update(i, OrchestratedGoal { state: OrchestratedGoalState::Paused, ..pre.goals[i] }),
            running: pre.running.remove(id),
            ..pre
        }
    }
}

/// What `resume_goal_at` does.
pub open spec fn resume_post(pre: OrchModel, post: OrchModel, id: Seq<char>, now: i64, r: Result<(), String>) -> bool {
    let i = goal_index(pre.goals, id);
    if i < 0 {
        &&& r is Err
        &&& r->Err_0@ == goal_not_found_text(id)
        &&& post == pre
    } else if !(pre.goals[i].state is Paused) {
        &&& r is Err
        &&& r->Err_0@ == cannot_resume_text(pre.goals[i].state)
        &&& post == pre
    } else {
        &&& r is Ok
        &&& post == OrchModel {
            goals: pre.goals.update(i, OrchestratedGoal { state: OrchestratedGoalState::Queued, ..pre.goals[i] }),
            ready: sorted_insert(pre.ready, (base_score(pre.goals[i].priority), now as int, id)),
            ..pre
        }
    }
}

/// The model after goal `i` was started at `now`.
pub open spec fn started_model(pre: OrchModel, i: int, now: i64) -> OrchModel {
    let g = pre.goals[i];
    let running = pre.running.insert(g.id@);
    OrchModel {
        goals: pre.goals.update(
            i,
            OrchestratedGoal { state: OrchestratedGoalState::Running, started_at: Some(now), ..g },
        ),
        held: pre.held + g.required_resources@.to_set(),
        running,
        metrics: OrchestratorMetrics {
            peak_concurrent: if running.len() > pre.metrics.peak_concurrent {
                running.len() as usize
            } else {
                pre.metrics.peak_concurrent
            },
            cumulative_queue_wait_ms: add_time(pre.metrics.cumulative_queue_wait_ms, now - g.created_at),
            ..pre.metrics
        },
        ..pre
    }
}

pub open spec fn lock_failed_text(r: Resource) -> Seq<char> {
    "resource lock failed: "@ + locked_text(r)
}

/// Goal `id` can be started now: it exists and none of its resources is held.
pub open spec fn can_start(pre: OrchModel, id: Seq<char>) -> bool {
    let i = goal_index(pre.goals, id);
    i >= 0 && !conflicts(pre.goals[i].required_resources@, pre.held)
}

/// What `start_goal_at` does.
pub open spec fn start_post(pre: OrchModel, post: OrchModel, id: Seq<char>, now: i64, r: Result<String, String>) -> bool {
    let i = goal_index(pre.goals, id);
    if i < 0 {
        &&& r is Err
        &&& r->Err_0@ == goal_not_found_text(id)
        &&& post == pre
    } else if conflicts(pre.goals[i].required_resources@, pre.held) {
        &&& r is Err
        &&& r->Err_0@ == lock_failed_text(first_conflict(pre.goals[i].required_resources@, pre.held)->0)
        &&& post == pre
    } else {
        &&& r is Ok
        &&& r->Ok_0@ == id
        &&& post == started_model(pre, i, now)
    }
}

/// The state a finished goal ends in.
pub open spec fn finished_state(st: OrchestratedGoalState, success: bool, error: Option<String>) -> bool {
    if success {
        st is Completed
    } else {
        &&& st is Failed
        &&& st->Failed_0@ == (match error {
            Some(e) => e@,
            None => "unknown error"@,
        })
    }
}

/// What `complete_goal_at` does.
pub open spec fn complete_post(
    pre: OrchModel,
    post: OrchModel,
    id: Seq<char>,
    success: bool,
    error: Option<String>,
    now: i64,
    r: Result<(), String>,
) -> bool {
    let i = goal_index(pre.goals, id);
    if i < 0 {
        &&& r is Err
        &&& r->Err_0@ == goal_not_found_text(id)
        &&& post == pre
    } else if !(pre.goals[i].state is Running) {
        &&& r is Err
        &&& r->Err_0@ == not_running_text(id)
        &&& post == pre
    } else {
        let g = pre.goals[i];
        let x = post.goals[i];
        let m = pre.metrics;
        let m1 = OrchestratorMetrics {
            cumulative_execution_ms: match g.started_at {
                Some(t) => add_time(m.cumulative_execution_ms, now - t),
                None => m.cumulative_execution_ms,
            },
            ..m
        };
        &&& r is Ok
        &&& x == OrchestratedGoal { state: x.state, completed_at: Some(now), ..g }
        &&& finished_state(x.state, success, error)
        &&& post == OrchModel {
            goals: pre.goals.update(i, x),
            held: pre.held.difference(g.required_resources@.to_set()),
            running: pre.running.remove(id),
            metrics: if success {
                OrchestratorMetrics { total_completed: (m.total_completed + 1) as u64, ..m1 }
            } else {
                OrchestratorMetrics { total_failed: (m.total_failed + 1) as u64, ..m1 }
            },
            ..pre
        }
    }
}

pub open spec fn session_failed_text(e: Seq<char>) -> Seq<char> {
    "session creation failed: "@ + e
}

/// What `attach_session` does with the result of creating a runtime
/// session for goal `id`.
pub open spec fn attach_post(pre: OrchModel, post: OrchModel, id: Seq<char>, created: Result<String, String>, r: Result<(), String>) -> bool {
    let i = goal_index(pre.goals, id);
    if i < 0 {
        &&& r is Err
        &&& r->Err_0@ == goal_not_found_text(id)
        &&& post == pre
    } else {
        let g = pre.goals[i];
        match created {
            Ok(sid) => {
                &&& r is Ok
                &&& post == with_goal_at(pre, i, OrchestratedGoal { session_id: Some(sid), ..g })
            },
            Err(e) => {
                let x = post.goals[i];
                &&& r is Err
                &&& r->Err_0@ == e@
                &&& x == OrchestratedGoal { state: x.state, ..g }
                &&& x.state is Failed
                &&& x.state->Failed_0@ == session_failed_text(e@)
                &&& post == OrchModel {
                    goals: pre.goals.update(i, x),
                    held: pre.held.difference(g.required_resources@.to_set()),
                    running: pre.running.remove(id),
                    metrics: OrchestratorMetrics { total_failed: (pre.metrics.total_failed + 1) as u64, ..pre.metrics },
                    ..pre
                }
            },
        }
    }
}

fn goal_not_found(id: &str) -> (r: String)
    ensures
        r@ == goal_not_found_text(id@),
{
    let mut m = String::new();
    push_str(&mut m, "goal '");
    push_str(&mut m, id);
    push_str(&mut m, "' not found");
    m
}

/// Owned copies of a list of strings.
fn copy_strings(v: &Vec<String>) -> (r: Vec<String>)
    ensures
        string_views(r@) == string_views(v@),
{
    let n = v.len();
    let mut out: Vec<String> = Vec::new();
    let mut i: usize = 0;
    while i < n
        invariant
            n == v@.len(),
            i <= n,
            string_views(out@) == string_views(v@.take(i as int)),
        decreases n - i,
    {
        let ghost before = out@;
        out.push(v[i].clone());
        proof {
            assert(v@.take(i + 1) =~= v@.take(i as int).push(v@[i as int]));
            assert(string_views(out@) =~= string_views(before).push(v@[i as int]@));
            assert(string_views(v@.take(i + 1)) =~= string_views(v@.take(i as int)).push(v@[i as int]@));
        }
        i = i + 1;
    }
    proof {
        assert(v@.take(n as int) =~= v@);
    }
    out
}

impl GoalOrchestrator {
    /// Cancels goal `goal_id` at time `now`, unless it is unknown or
    /// already ended: its resources are released and it leaves the queues.
    pub fn cancel_goal_at(&mut self, goal_id: &str, now: i64) -> (r: Result<(), String>)
        requires
            old(self).wf(),
            old(self).model().metrics.total_cancelled < u64::MAX,
        ensures
            final(self).wf(),
            cancel_post(old(self).model(), final(self).model(), goal_id@, now, r),
    {
        let found = self.find_goal(goal_id);
        let i = match found {
            None => {
                return Err(goal_not_found(goal_id));
            },
            Some(i) => i,
        };
        if self.goals[i].state.is_terminal() {
            let mut m = String::new();
            push_str(&mut m, "goal '");
            push_str(&mut m, goal_id);
            push_str(&mut m, "' already in terminal state ");
            push_goal_state_debug(&mut m, &self.goals[i].state);
            return Err(m);
        }
        let ghost pre = self.model();
        let mut g = self.take_goal(i);
        g.state = OrchestratedGoalState::Cancelled;
        g.completed_at = Some(now);
        if g.required_resources.len() > 0 {
            self.resource_lock.release(g.required_resources.as_slice());
        } else {
            proof {
                assert(pre.held.difference(g.required_resources@.to_set()) =~= pre.held);
            }
        }
        self.put_goal_at(i, g);
        self.queue.remove(goal_id);
        drop_id(&mut self.running_ids, goal_id);
        self.metrics.total_cancelled = self.metrics.total_cancelled + 1;
        proof {
            assert(self.goals@ =~= pre.goals.update(i as int, self.goals@[i as int]));
            assert(self.model() =~= OrchModel {
                goals: pre.goals.update(
                    i as int,
                    OrchestratedGoal { state: OrchestratedGoalState::Cancelled, completed_at: Some(now), ..pre.goals[i as int] },
                ),
                ready: without_goal(pre.ready, goal_id@),
                delayed: without_goal(pre.delayed, goal_id@),
                held: pre.held.difference(pre.goals[i as int].required_resources@.to_set()),
                running: pre.running.remove(goal_id@),
                metrics: OrchestratorMetrics {
                    total_cancelled: (pre.metrics.total_cancelled + 1) as u64,
                    ..pre.metrics
                },
                config: pre.config,
            });
            assert forall|a: int, b: int| 0 <= a < b < self.goals@.len()
                implies self.goals@[a].id@ != self.goals@[b].id@ by {
                assert(pre.goals[a].id@ != pre.goals[b].id@);
            }
            assert forall|a: int| 0 <= a < self.goals@.len() implies {
                &&& self.goals@[a].created_at >= 0
                &&& (self.goals@[a].started_at matches Some(t) ==> t >= 0)
            } by {
                assert(pre.goals[a].created_at >= 0);
            }
        }
        Ok(())
    }

    /// Cancels goal `goal_id`, as `cancel_goal_at` does at the current time.
    pub fn cancel_goal(&mut self, goal_id: &str) -> (r: Result<(), String>)
        requires
            old(self).wf(),
            old(self).model().metrics.total_cancelled < u64::MAX,
        ensures
            final(self).wf(),
            exists|t: i64| 0 <= t && cancel_post(old(self).model(), final(self).model(), goal_id@, t, r),
    {
        let now = now_millis();
        self.cancel_goal_at(goal_id, now)
    }
}

proof fn lemma_update_goal(s: Seq<OrchestratedGoal>, i: int, x: OrchestratedGoal)
    requires
        goal_ids_unique(s),
        times_valid(s),
        0 <= i < s.len(),
        x.id@ == s[i].id@,
        x.created_at >= 0,
        (x.started_at matches Some(t) ==> t >= 0),
    ensures
        goal_ids_unique(s.update(i, x)),
        times_valid(s.update(i, x)),
        forall|id: Seq<char>| goal_index(s.update(i, x), id) == goal_index(s, id),
{
    let t = s.update(i, x);
    assert forall|a: int, b: int| 0 <= a < b < t.len() implies t[a].id@ != t[b].id@ by {
        assert(s[a].id@ != s[b].id@);
    }
    assert forall|id: Seq<char>| goal_index(t, id) == goal_index(s, id) by {
        if exists|k: int| 0 <= k < s.len() && s[k].id@ == id {
            let k = choose|k: int| 0 <= k < s.len() && s[k].id@ == id;
            assert(t[k].id@ == id);
            lemma_goal_index_unique(s, k);
            lemma_goal_index_unique(t, k);
        } else {
            assert forall|k: int| 0 <= k < t.len() implies t[k].id@ != id by {
                assert(t[k].id@ == s[k].id@);
            }
        }
    }
}

impl GoalOrchestrator {
    /// Pauses goal `goal_id` if it is running; it no longer counts as
    /// running.
    pub fn pause_goal(&mut self, goal_id: &str) -> (r: Result<(), String>)
        requires
            old(self).wf(),
        ensures
            final(self).wf(),
            pause_post(old(self).model(), final(self).model(), goal_id@, r),
    {
        let i = match self.find_goal(goal_id) {
            None => {
                return Err(goal_not_found(goal_id));
            },
            Some(i) => i,
        };
        let running = match self.goals[i].state {
            OrchestratedGoalState::Running => true,
            _ => false,
        };
        if !running {
            let mut m = String::new();
            push_str(&mut m, "cannot pause goal in state ");
            push_goal_state_debug(&mut m, &self.goals[i].state);
            return Err(m);
        }
        let ghost pre = self.model();
        let mut g = self.take_goal(i);
        g.state = OrchestratedGoalState::Paused;
        proof {
            lemma_update_goal(pre.goals, i as int, g);
        }
        self.put_goal_at(i, g);
        drop_id(&mut self.running_ids, goal_id);
        proof {
            assert(self.model() =~= OrchModel {
                goals: pre.goals.update(i as int, OrchestratedGoal { state: OrchestratedGoalState::Paused, ..pre.goals[i as int] }),
                running: pre.running.remove(goal_id@),
                ..pre
            });
        }
        Ok(())
    }

    /// Puts a paused goal `goal_id` back in the ready queue, created anew at
    /// `now`.
    pub fn resume_goal_at(&mut self, goal_id: &str, now: i64) -> (r: Result<(), String>)
        requires
            old(self).wf(),
        ensures
            final(self).wf(),
            resume_post(old(self).model(), final(self).model(), goal_id@, now, r),
    {
        let i = match self.find_goal(goal_id) {
            None => {
                return Err(goal_not_found(goal_id));
            },
            Some(i) => i,
        };
        let paused = match self.goals[i].state {
            OrchestratedGoalState::Paused => true,
            _ => false,
        };
        if !paused {
            let mut m = String::new();
            push_str(&mut m, "cannot resume goal in state ");
            push_goal_state_debug(&mut m, &self.goals[i].state);
            return Err(m);
        }
        let ghost pre = self.model();
        let mut g = self.take_goal(i);
        g.state = OrchestratedGoalState::Queued;
        let priority = g.priority;
        proof {
            lemma_update_goal(pre.goals, i as int, g);
        }
        self.put_goal_at(i, g);
        self.queue.enqueue_at(goal_id, priority, now, 0, now);
        proof {
            assert(self.model() =~= OrchModel {
                goals: pre.goals.update(i as int, OrchestratedGoal { state: OrchestratedGoalState::Queued, ..pre.goals[i as int] }),
                ready: sorted_insert(pre.ready, (base_score(pre.goals[i as int].priority), now as int, goal_id@)),
                ..pre
            });
        }
        Ok(())
    }

    /// Resumes goal `goal_id`, as `resume_goal_at` does at the current time.
    pub fn resume_goal(&mut self, goal_id: &str) -> (r: Result<(), String>)
        requires
            old(self).wf(),
        ensures
            final(self).wf(),
            exists|t: i64| 0 <= t && resume_post(old(self).model(), final(self).model(), goal_id@, t, r),
    {
        let now = now_millis();
        self.resume_goal_at(goal_id, now)
    }

    /// The state of goal `goal_id`.
    pub fn goal_status(&self, goal_id: &str) -> (r: Option<OrchestratedGoalState>)
        requires
            self.wf(),
        ensures
            goal_index(self.model().goals, goal_id@) < 0 ==> r is None,
            goal_index(self.model().goals, goal_id@) >= 0 ==> r == Some(
                self.model().goals[goal_index(self.model().goals, goal_id@)].state,
            ),
    {
        match self.find_goal(goal_id) {
            None => None,
            Some(i) => Some(copy_goal_state(&self.goals[i].state)),
        }
    }

    /// The goals waiting to run: queued, delayed or waiting for dependencies.
    pub fn queued_goals(&self) -> (r: Vec<&OrchestratedGoal>)
        ensures
            deref_goals(r@) == goals_where(self.model().goals, state_filter(0)),
    {
        goals_matching(&self.goals, 0)
    }

    /// The goals running or paused.
    pub fn running_goals(&self) -> (r: Vec<&OrchestratedGoal>)
        ensures
            deref_goals(r@) == goals_where(self.model().goals, state_filter(1)),
    {
        goals_matching(&self.goals, 1)
    }

    pub fn completed_goals(&self) -> (r: Vec<&OrchestratedGoal>)
        ensures
            deref_goals(r@) == goals_where(self.model().goals, state_filter(2)),
    {
        goals_matching(&self.goals, 2)
    }

    pub fn failed_goals(&self) -> (r: Vec<&OrchestratedGoal>)
        ensures
            deref_goals(r@) == goals_where(self.model().goals, state_filter(3)),
    {
        goals_matching(&self.goals, 3)
    }

    /// The goals that goal `goal_id` depends on.
    pub fn dependencies(&self, goal_id: &str) -> (r: Option<Vec<String>>)
        requires
            self.wf(),
        ensures
            goal_index(self.model().goals, goal_id@) < 0 ==> r is None,
            goal_index(self.model().goals, goal_id@) >= 0 ==> {
                &&& r is Some
                &&& string_views(r->0@) == string_views(
                    self.model().goals[goal_index(self.model().goals, goal_id@)].dependencies@,
                )
            },
    {
        match self.find_goal(goal_id) {
            None => None,
            Some(i) => Some(copy_strings(&self.goals[i].dependencies)),
        }
    }

    pub fn priority(&self, goal_id: &str) -> (r: Option<GoalPriority>)
        requires
            self.wf(),
        ensures
            goal_index(self.model().goals, goal_id@) < 0 ==> r is None,
            goal_index(self.model().goals, goal_id@) >= 0 ==> r == Some(
                self.model().goals[goal_index(self.model().goals, goal_id@)].priority,
            ),
    {
        match self.find_goal(goal_id) {
            None => None,
            Some(i) => Some(self.goals[i].priority),
        }
    }

    /// Counts one more retry for goal `goal_id`.
    pub fn record_retry(&mut self, goal_id: &str) -> (r: Result<(), String>)
        requires
            old(self).wf(),
            old(self).model().metrics.total_retries < u64::MAX,
            goal_index(old(self).model().goals, goal_id@) >= 0 ==> old(self).model().goals[goal_index(
                old(self).model().goals,
                goal_id@,
            )].retry_count < u32::MAX,
        ensures
            final(self).wf(),
            goal_index(old(self).model().goals, goal_id@) < 0 ==> {
                &&& r is Err
                &&& r->Err_0@ == goal_not_found_text(goal_id@)
                &&& final(self).model() == old(self).model()
            },
            goal_index(old(self).model().goals, goal_id@) >= 0 ==> {
                let pre = old(self).model();
                let i = goal_index(pre.goals, goal_id@);
                &&& r is Ok
                &&& final(self).model() == OrchModel {
                    goals: pre.goals.update(i, OrchestratedGoal { retry_count: (pre.goals[i].retry_count + 1) as u32, ..pre.goals[i] }),
                    metrics: OrchestratorMetrics { total_retries: (pre.metrics.total_retries + 1) as u64, ..pre.metrics },
                    ..pre
                }
            },
    {
        let i = match self.find_goal(goal_id) {
            None => {
                return Err(goal_not_found(goal_id));
            },
            Some(i) => i,
        };
        let ghost pre = self.model();
        let mut g = self.take_goal(i);
        g.retry_count = g.retry_count + 1;
        proof {
            lemma_update_goal(pre.goals, i as int, g);
        }
        self.put_goal_at(i, g);
        self.metrics.total_retries = self.metrics.total_retries + 1;
        proof {
            assert(self.model() =~= OrchModel {
                goals: pre.goals.update(i as int, OrchestratedGoal { retry_count: (pre.goals[i as int].retry_count + 1) as u32, ..pre.goals[i as int] }),
                metrics: OrchestratorMetrics { total_retries: (pre.metrics.total_retries + 1) as u64, ..pre.metrics },
                ..pre
            });
        }
        Ok(())
    }

    /// Counts one more recovery for goal `goal_id`.
    pub fn record_recovery(&mut self, goal_id: &str) -> (r: Result<(), String>)
        requires
            old(self).wf(),
            old(self).model().metrics.total_recoveries < u64::MAX,
            goal_index(old(self).model().goals, goal_id@) >= 0 ==> old(self).model().goals[goal_index(
                old(self).model().goals,
                goal_id@,
            )].recovery_count < u32::MAX,
        ensures
            final(self).wf(),
            goal_index(old(self).model().goals, goal_id@) < 0 ==> {
                &&& r is Err
                &&& r->Err_0@ == goal_not_found_text(goal_id@)
                &&& final(self).model() == old(self).model()
            },
            goal_index(old(self).model().goals, goal_id@) >= 0 ==> {
                let pre = old(self).model();
                let i = goal_index(pre.goals, goal_id@);
                &&& r is Ok
                &&& final(self).model() == OrchModel {
                    goals: pre.goals.update(i, OrchestratedGoal { recovery_count: (pre.goals[i].recovery_count + 1) as u32, ..pre.goals[i] }),
                    metrics: OrchestratorMetrics { total_recoveries: (pre.metrics.total_recoveries + 1) as u64, ..pre.metrics },
                    ..pre
                }
            },
    {
        let i = match self.find_goal(goal_id) {
            None => {
                return Err(goal_not_found(goal_id));
            },
            Some(i) => i,
        };
        let ghost pre = self.model();
        let mut g = self.take_goal(i);
        g.recovery_count = g.recovery_count + 1;
        proof {
            lemma_update_goal(pre.goals, i as int, g);
        }
        self.put_goal_at(i, g);
        self.metrics.total_recoveries = self.metrics.total_recoveries + 1;
        proof {
            assert(self.model() =~= OrchModel {
                goals: pre.goals.update(i as int, OrchestratedGoal { recovery_count: (pre.goals[i as int].recovery_count + 1) as u32, ..pre.goals[i as int] }),
                metrics: OrchestratorMetrics { total_recoveries: (pre.metrics.total_recoveries + 1) as u64, ..pre.metrics },
                ..pre
            });
        }
        Ok(())
    }

    /// Every goal, in the order they came.
    pub fn all_goals(&self) -> (r: Vec<&OrchestratedGoal>)
        ensures
            deref_goals(r@) == self.model().goals,
    {
        let n = self.goals.len();
        let mut out: Vec<&OrchestratedGoal> = Vec::new();
        let mut i: usize = 0;
        while i < n
            invariant
                n == self.goals@.len(),
                i <= n,
                deref_goals(out@) == self.goals@.take(i as int),
            decreases n - i,
        {
            let ghost before = out@;
            out.push(&self.goals[i]);
            proof {
                assert(deref_goals(out@) =~= deref_goals(before).push(self.goals@[i as int]));
                assert(self.goals@.take(i + 1) =~= self.goals@.take(i as int).push(self.goals@[i as int]));
            }
            i = i + 1;
        }
        proof {
            assert(self.goals@.take(n as int) =~= self.goals@);
        }
        out
    }

    /// The goal with this id.
    pub fn get_goal(&self, goal_id: &str) -> (r: Option<&OrchestratedGoal>)
        requires
            self.wf(),
        ensures
            goal_index(self.model().goals, goal_id@) < 0 ==> r is None,
            goal_index(self.model().goals, goal_id@) >= 0 ==> r is Some && *r->0 == self.model().goals[goal_index(
                self.model().goals,
                goal_id@,
            )],
    {
        match self.find_goal(goal_id) {
            None => None,
            Some(i) => Some(&self.goals[i]),
        }
    }

    /// How many goals are ready in the queue.
    pub fn queue_depth(&self) -> (n: usize)
        ensures
            n == self.model().ready.len(),
    {
        self.queue.len()
    }
}

impl GoalOrchestrator {
    /// Starts goal `goal_id` at time `now`: takes its resources, or fails
    /// naming the first one already held, marks it running and counts its
    /// time in the queue.
    pub fn start_goal_at(&mut self, goal_id: &str, now: i64) -> (r: Result<String, String>)
        requires
            old(self).wf(),
            0 <= now,
        ensures
            final(self).wf(),
            start_post(old(self).model(), final(self).model(), goal_id@, now, r),
    {
        let i = match self.find_goal(goal_id) {
            None => {
                return Err(goal_not_found(goal_id));
            },
            Some(i) => i,
        };
        let ghost pre = self.model();
        if self.goals[i].required_resources.len() > 0 {
            let acquired = self.resource_lock.acquire(self.goals[i].required_resources.as_slice());
            match acquired {
                Err(e) => {
                    let mut m = String::new();
                    push_str(&mut m, "resource lock failed: ");
                    push_str(&mut m, e.as_str());
                    proof {
                        assert(self.model() =~= pre);
                    }
                    return Err(m);
                },
                Ok(()) => {},
            }
        } else {
            proof {
                assert(pre.held + self.goals@[i as int].required_resources@.to_set() =~= pre.held);
                assert(!conflicts(self.goals@[i as int].required_resources@, pre.held));
            }
        }
        let ghost held_after = self.model().held;
        let mut g = self.take_goal(i);
        g.state = OrchestratedGoalState::Running;
        g.started_at = Some(now);
        let wait = now - g.created_at;
        proof {
            lemma_update_goal(pre.goals, i as int, g);
        }
        self.put_goal_at(i, g);
        add_id(&mut self.running_ids, goal_id);
        let running_count = self.running_ids.len();
        proof {
            string_views(self.running_ids@).unique_seq_to_set();
        }
        if running_count > self.metrics.peak_concurrent {
            self.metrics.peak_concurrent = running_count;
        }
        if wait > 0 {
            self.metrics.cumulative_queue_wait_ms = self.metrics.cumulative_queue_wait_ms.wrapping_add(wait);
        }
        proof {
            assert(self.model() =~= started_model(pre, i as int, now));
        }
        Ok(String::from_str(goal_id))
    }

    /// Starts goal `goal_id`, as `start_goal_at` does at the current time.
    pub fn start_goal(&mut self, goal_id: &str) -> (r: Result<String, String>)
        requires
            old(self).wf(),
        ensures
            final(self).wf(),
            exists|t: i64| 0 <= t && start_post(old(self).model(), final(self).model(), goal_id@, t, r),
    {
        let now = now_millis();
        self.start_goal_at(goal_id, now)
    }

    /// Records what creating a runtime session for the started goal
    /// `goal_id` gave: its id, or an error that fails the goal, releases
    /// its resources and is handed back.
    pub fn attach_session(&mut self, goal_id: &str, created: Result<String, String>) -> (r: Result<(), String>)
        requires
            old(self).wf(),
            old(self).model().metrics.total_failed < u64::MAX,
        ensures
            final(self).wf(),
            attach_post(old(self).model(), final(self).model(), goal_id@, created, r),
    {
        let i = match self.find_goal(goal_id) {
            None => {
                return Err(goal_not_found(goal_id));
            },
            Some(i) => i,
        };
        let ghost pre = self.model();
        match created {
            Ok(sid) => {
                let mut g = self.take_goal(i);
                g.session_id = Some(sid);
                proof {
                    lemma_update_goal(pre.goals, i as int, g);
                }
                self.put_goal_at(i, g);
                proof {
                    assert(self.model() =~= with_goal_at(pre, i as int, g));
                }
                Ok(())
            },
            Err(e) => {
                let mut g = self.take_goal(i);
                let mut m = String::new();
                push_str(&mut m, "session creation failed: ");
                push_str(&mut m, e.as_str());
                g.state = OrchestratedGoalState::Failed(m);
                self.resource_lock.release(g.required_resources.as_slice());
                proof {
                    lemma_update_goal(pre.goals, i as int, g);
                }
                self.put_goal_at(i, g);
                drop_id(&mut self.running_ids, goal_id);
                self.metrics.total_failed = self.metrics.total_failed + 1;
                proof {
                    assert(self.model() =~= OrchModel {
                        goals: pre.goals.update(i as int, g),
                        held: pre.held.difference(pre.goals[i as int].required_resources@.to_set()),
                        running: pre.running.remove(goal_id@),
                        metrics: OrchestratorMetrics { total_failed: (pre.metrics.total_failed + 1) as u64, ..pre.metrics },
                        ..pre
                    });
                }
                Err(e)
            },
        }
    }

    /// Ends the running goal `goal_id` at time `now`, completed or failed
    /// with `error` (or "unknown error"); its resources are released.
    pub fn complete_goal_at(&mut self, goal_id: &str, success: bool, error: Option<String>, now: i64) -> (r: Result<(), String>)
        requires
            old(self).wf(),
            0 <= now,
            old(self).model().metrics.total_completed < u64::MAX,
            old(self).model().metrics.total_failed < u64::MAX,
        ensures
            final(self).wf(),
            complete_post(old(self).model(), final(self).model(), goal_id@, success, error, now, r),
    {
        let i = match self.find_goal(goal_id) {
            None => {
                return Err(goal_not_found(goal_id));
            },
            Some(i) => i,
        };
        let running = match self.goals[i].state {
            OrchestratedGoalState::Running => true,
            _ => false,
        };
        if !running {
            let mut m = String::new();
            push_str(&mut m, "goal '");
            push_str(&mut m, goal_id);
            push_str(&mut m, "' is not running");
            return Err(m);
        }
        let ghost pre = self.model();
        let mut g = self.take_goal(i);
        g.completed_at = Some(now);
        match g.started_at {
            Some(started) => {
                let exec = now - started;
                if exec > 0 {
                    self.metrics.cumulative_execution_ms = self.metrics.cumulative_execution_ms.wrapping_add(exec);
                }
            },
            None => {},
        }
        let ghost m1 = self.metrics;
        if success {
            g.state = OrchestratedGoalState::Completed;
            self.metrics.total_completed = self.metrics.total_completed + 1;
        } else {
            let msg = match error {
                Some(e) => e,
                None => {
                    proof {
                        reveal_strlit("unknown error");
                    }
                    String::from_str("unknown error")
                },
            };
            g.state = OrchestratedGoalState::Failed(msg);
            self.metrics.total_failed = self.metrics.total_failed + 1;
        }
        drop_id(&mut self.running_ids, goal_id);
        self.resource_lock.release(g.required_resources.as_slice());
        proof {
            lemma_update_goal(pre.goals, i as int, g);
        }
        self.put_goal_at(i, g);
        proof {
            assert(self.model().goals[i as int] == g);
            assert(self.model() =~= OrchModel {
                goals: pre.goals.update(i as int, g),
                held: pre.held.difference(pre.goals[i as int].required_resources@.to_set()),
                running: pre.running.remove(goal_id@),
                metrics: if success {
                    OrchestratorMetrics { total_completed: (pre.metrics.total_completed + 1) as u64, ..m1 }
                } else {
                    OrchestratorMetrics { total_failed: (pre.metrics.total_failed + 1) as u64, ..m1 }
                },
                ..pre
            });
        }
        Ok(())
    }

    /// Ends goal `goal_id`, as `complete_goal_at` does at the current time.
    pub fn complete_goal(&mut self, goal_id: &str, success: bool, error: Option<String>) -> (r: Result<(), String>)
        requires
            old(self).wf(),
            old(self).model().metrics.total_completed < u64::MAX,
            old(self).model().metrics.total_failed < u64::MAX,
        ensures
            final(self).wf(),
            exists|t: i64| 0 <= t && complete_post(old(self).model(), final(self).model(), goal_id@, success, error, t, r),
    {
        let now = now_millis();
        self.complete_goal_at(goal_id, success, error, now)
    }
}

// ---------------------------------------------------------------------------
// Submission
// ---------------------------------------------------------------------------

pub open spec fn max_goals_text() -> Seq<char> {
    "maximum queued goals reached"@
}

/// Where a goal submitted at `now` with this delay is queued.
pub open spec fn queued_after_submit(pre: OrchModel, post: OrchModel, id: Seq<char>, priority: GoalPriority, delay_ms: u64, now: i64) -> bool {
    if delay_ms > 0 {
        &&& post.ready == pre.ready
        &&& post.delayed == sorted_insert(pre.delayed, (now + delay_ms, 0int, id))
    } else {
        &&& post.ready == sorted_insert(pre.ready, (base_score(priority), now as int, id))
        &&& post.delayed == pre.delayed
    }
}

/// What `submit_goal_at` does.
pub open spec fn submit_post(
    pre: OrchModel,
    post: OrchModel,
    goal: Goal,
    priority: GoalPriority,
    delay_ms: u64,
    id: Seq<char>,
    now: i64,
    r: Result<String, String>,
) -> bool {
    if pre.goals.len() >= pre.config.max_queued_goals {
        &&& r is Err
        &&& r->Err_0@ == max_goals_text()
        &&& post == pre
    } else {
        let k = goal_index(post.goals, id);
        &&& r is Ok
        &&& r->Ok_0@ == id
        &&& k >= 0
        &&& fresh_goal(post.goals[k], id, goal, priority, now)
        &&& post.goals == put_goal(pre.goals, post.goals[k])
        &&& queued_after_submit(pre, post, id, priority, delay_ms, now)
        &&& post.held == pre.held
        &&& post.running == pre.running
        &&& post.config == pre.config
        &&& post.metrics == OrchestratorMetrics { total_submitted: (pre.metrics.total_submitted + 1) as u64, ..pre.metrics }
    }
}

impl GoalOrchestrator {
    /// Puts `g` under its id, replacing a goal of that id or appended.
    fn insert_goal(&mut self, g: OrchestratedGoal)
        requires
            old(self).wf(),
            g.created_at >= 0,
            (g.started_at matches Some(t) ==> t >= 0),
        ensures
            final(self).wf(),
            final(self).model() == (OrchModel { goals: put_goal(old(self).model().goals, g), ..old(self).model() }),
    {
        let ghost pre = self.model();
        proof {
            lemma_put_goal(pre.goals, g);
        }
        match self.find_goal(g.id.as_str()) {
            Some(i) => {
                self.goals.set(i, g);
            },
            None => {
                self.goals.push(g);
            },
        }
        proof {
            assert(self.goals@ == put_goal(pre.goals, g));
            assert forall|a: int| 0 <= a < self.goals@.len() implies {
                &&& self.goals@[a].created_at >= 0
                &&& (self.goals@[a].started_at matches Some(t) ==> t >= 0)
            } by {
                if self.goals@[a] != g {
                    assert(pre.goals.contains(self.goals@[a])) by {
                        if a < pre.goals.len() {
                            assert(pre.goals[a] == self.goals@[a]);
                        }
                    }
                }
            }
            assert(self.model() =~= OrchModel { goals: put_goal(pre.goals, g), ..pre });
        }
    }

    /// Takes in `goal` under `goal_id` at time `now`, queued after
    /// `delay_ms`, unless the orchestrator already holds its limit of goals.
    pub fn submit_goal_at(&mut self, goal: Goal, priority: GoalPriority, delay_ms: u64, goal_id: String, now: i64) -> (r: Result<String, String>)
        requires
            old(self).wf(),
            0 <= now,
            delay_ms <= i64::MAX,
            delay_ms > 0 ==> now + delay_ms <= i64::MAX,
            old(self).model().metrics.total_submitted < u64::MAX,
        ensures
            final(self).wf(),
            submit_post(old(self).model(), final(self).model(), goal, priority, delay_ms, goal_id@, now, r),
    {
        if self.goals.len() >= self.config.max_queued_goals {
            proof {
                reveal_strlit("maximum queued goals reached");
            }
            return Err(String::from_str("maximum queued goals reached"));
        }
        let ghost pre = self.model();
        let id = goal_id.clone();
        let og = OrchestratedGoal::fresh(goal_id, goal, priority, now);
        proof {
            lemma_put_goal(pre.goals, og);
        }
        self.insert_goal(og);
        self.queue.enqueue_at(id.as_str(), priority, now, delay_ms, now);
        self.metrics.total_submitted = self.metrics.total_submitted + 1;
        Ok(id)
    }

    /// Takes in `goal` under a fresh random id at the current time, as
    /// `submit_goal_at` does.
    pub fn submit_goal(&mut self, goal: Goal, priority: GoalPriority, delay_ms: u64) -> (r: Result<String, String>)
        requires
            old(self).wf(),
            delay_ms <= i64::MAX - 10_000_000_000_000_000,
            old(self).model().metrics.total_submitted < u64::MAX,
        ensures
            final(self).wf(),
            exists|id: Seq<char>, t: i64|
                id.len() == 36 && 0 <= t && submit_post(old(self).model(), final(self).model(), goal, priority, delay_ms, id, t, r),
    {
        let id = crate::clock::new_uuid();
        let now = now_millis();
        let ghost idv = id@;
        let r = self.submit_goal_at(goal, priority, delay_ms, id, now);
        proof {
            assert(idv.len() == 36 && 0 <= now);
        }
        r
    }
}

// ---------------------------------------------------------------------------
// Dependencies between goals
// ---------------------------------------------------------------------------

/// What is wrong with dependency `dep` of a goal to be submitted as `id`.
pub open spec fn dep_problem(dep: Seq<char>, id: Seq<char>, goals: Seq<OrchestratedGoal>) -> Option<Seq<char>> {
    if dep.len() == 0 {
        Some("dependency ID cannot be empty"@)
    } else if dep == id {
        Some("goal cannot depend on itself: '"@ + dep + "'"@)
    } else if goal_index(goals, dep) < 0 {
        Some("dependency '"@ + dep + "' does not exist"@)
    } else {
        None
    }
}

/// The problem with the first dependency that has one.
pub open spec fn first_dep_problem(deps: Seq<Seq<char>>, id: Seq<char>, goals: Seq<OrchestratedGoal>) -> Option<Seq<char>>
    decreases deps.len(),
{
    if deps.len() == 0 {
        None
    } else if dep_problem(deps[0], id, goals) is Some {
        dep_problem(deps[0], id, goals)
    } else {
        first_dep_problem(deps.drop_first(), id, goals)
    }
}

/// Goals as nodes: each id with the ids it depends on.
pub type DepGraph = Seq<(Seq<char>, Seq<Seq<char>>)>;

pub open spec fn dep_graph(goals: Seq<OrchestratedGoal>) -> DepGraph {
    goals.map_values(|g: OrchestratedGoal| (g.id@, string_views(g.dependencies@)))
}

/// Where the node with this id stands, or -1.
pub open spec fn node_index(gr: DepGraph, id: Seq<char>) -> int {
    if exists|i: int| 0 <= i < gr.len() && gr[i].0 == id {
        choose|i: int| 0 <= i < gr.len() && gr[i].0 == id
    } else {
        -1
    }
}

/// The graph with node `id` given the edges `deps`.
pub open spec fn graph_put(gr: DepGraph, id: Seq<char>, deps: Seq<Seq<char>>) -> DepGraph {
    let i = node_index(gr, id);
    if i >= 0 {
        gr.update(i, (id, deps))
    } else {
        gr.push((id, deps))
    }
}

/// From `x` a walk of `k` steps along dependencies exists.
pub open spec fn walk_from(gr: DepGraph, x: Seq<char>, k: nat) -> bool
    decreases k,
{
    if k == 0 {
        true
    } else {
        exists|i: int, j: int|
            #![trigger gr[i].1[j]]
            0 <= i < gr.len() && gr[i].0 == x && 0 <= j < gr[i].1.len() && walk_from(gr, gr[i].1[j], (k - 1) as nat)
    }
}

/// Submitting goal `id` with `deps` would close a cycle through it: with it
/// added, a walk from it longer than the graph has nodes exists, which only
/// a cycle allows.
pub open spec fn would_cycle(goals: Seq<OrchestratedGoal>, id: Seq<char>, deps: Seq<Seq<char>>) -> bool {
    let gr = graph_put(dep_graph(goals), id, deps);
    walk_from(gr, id, gr.len() + 1)
}

/// From `a` a walk of exactly `len` steps reaches `b`.
pub open spec fn path(gr: DepGraph, a: Seq<char>, b: Seq<char>, len: nat) -> bool
    decreases len,
{
    if len == 0 {
        a == b
    } else {
        exists|i: int, j: int|
            #![trigger gr[i].1[j]]
            0 <= i < gr.len() && gr[i].0 == a && 0 <= j < gr[i].1.len() && path(gr, gr[i].1[j], b, (len - 1) as nat)
    }
}

proof fn lemma_walk_shorter(gr: DepGraph, x: Seq<char>, k: nat, m: nat)
    requires
        walk_from(gr, x, k),
        m <= k,
    ensures
        walk_from(gr, x, m),
    decreases m,
{
    if m > 0 {
        let (i, j) = choose|i: int, j: int|
            #![trigger gr[i].1[j]]
            0 <= i < gr.len() && gr[i].0 == x && 0 <= j < gr[i].1.len() && walk_from(gr, gr[i].1[j], (k - 1) as nat);
        lemma_walk_shorter(gr, gr[i].1[j], (k - 1) as nat, (m - 1) as nat);
    }
}

proof fn lemma_path_then_walk(gr: DepGraph, a: Seq<char>, b: Seq<char>, len: nat, m: nat)
    requires
        path(gr, a, b, len),
        walk_from(gr, b, m),
    ensures
        walk_from(gr, a, len + m),
    decreases len,
{
    if len > 0 {
        let (i, j) = choose|i: int, j: int|
            #![trigger gr[i].1[j]]
            0 <= i < gr.len() && gr[i].0 == a && 0 <= j < gr[i].1.len() && path(gr, gr[i].1[j], b, (len - 1) as nat);
        lemma_path_then_walk(gr, gr[i].1[j], b, (len - 1) as nat, m);
        assert(walk_from(gr, gr[i].1[j], ((len + m) - 1) as nat));
    }
}

proof fn lemma_cycle_walks(gr: DepGraph, y: Seq<char>, l: nat, n: nat)
    requires
        path(gr, y, y, l),
        l >= 1,
    ensures
        walk_from(gr, y, n * l),
    decreases n,
{
    if n > 0 {
        lemma_cycle_walks(gr, y, l, (n - 1) as nat);
        let prev: nat = ((n - 1) * l) as nat;
        assert((n - 1) * l >= 0) by (nonlinear_arith)
            requires
                n >= 1,
        ;
        assert(prev == (n - 1) * l);
        lemma_path_then_walk(gr, y, y, l, prev);
        assert(l + (n - 1) * l == n * l) by (nonlinear_arith);
    } else {
        assert(n * l == 0) by (nonlinear_arith)
            requires
                n == 0,
        ;
    }
}

/// A goal from which a cycle of dependencies can be reached has walks of
/// every length, so the cycle check reports it.
pub proof fn law_reachable_cycle_is_detected(gr: DepGraph, x: Seq<char>, y: Seq<char>, to_cycle: nat, cycle_len: nat, k: nat)
    requires
        path(gr, x, y, to_cycle),
        path(gr, y, y, cycle_len),
        cycle_len >= 1,
    ensures
        walk_from(gr, x, k),
{
    lemma_cycle_walks(gr, y, cycle_len, k);
    assert(k <= k * cycle_len) by (nonlinear_arith)
        requires
            cycle_len >= 1,
    ;
    lemma_path_then_walk(gr, x, y, to_cycle, k * cycle_len);
    lemma_walk_shorter(gr, x, to_cycle + k * cycle_len, k);
}

/// Node `s[t]` of `gr` lists the id of node `s[t + 1]` among its dependencies.
pub open spec fn step_at(gr: DepGraph, s: Seq<int>, t: int) -> bool {
    exists|j: int|
        #![trigger gr[s[t]].1[j]]
        0 <= j < gr[s[t]].1.len() && gr[s[t]].1[j] == gr[s[t + 1]].0
}

/// `s` lists nodes of `gr` each of which depends on the next.
pub open spec fn node_walk(gr: DepGraph, s: Seq<int>) -> bool {
    &&& forall|t: int| 0 <= t < s.len() ==> 0 <= #[trigger] s[t] < gr.len()
    &&& forall|t: int| 0 <= t < s.len() - 1 ==> #[trigger] step_at(gr, s, t)
}

proof fn lemma_walk_nodes(gr: DepGraph, x: Seq<char>, k: nat) -> (s: Seq<int>)
    requires
        walk_from(gr, x, k),
        k >= 1,
    ensures
        s.len() == k,
        node_walk(gr, s),
        gr[s[0]].0 == x,
    decreases k,
{
    let (i, j) = choose|i: int, j: int|
        #![trigger gr[i].1[j]]
        0 <= i < gr.len() && gr[i].0 == x && 0 <= j < gr[i].1.len() && walk_from(gr, gr[i].1[j], (k - 1) as nat);
    if k == 1 {
        seq![i]
    } else {
        let rest = lemma_walk_nodes(gr, gr[i].1[j], (k - 1) as nat);
        let s = seq![i] + rest;
        assert forall|t: int| 0 <= t < s.len() implies 0 <= #[trigger] s[t] < gr.len() by {
            if t > 0 {
                assert(s[t] == rest[t - 1]);
            }
        }
        assert forall|t: int| 0 <= t < s.len() - 1 implies #[trigger] step_at(gr, s, t) by {
            if t == 0 {
                assert(s[1] == rest[0]);
                assert(gr[s[0]].1[j] == gr[s[1]].0);
            } else {
                assert(s[t] == rest[t - 1]);
                assert(s[t + 1] == rest[t]);
                assert(step_at(gr, rest, t - 1));
            }
        }
        s
    }
}

proof fn lemma_walk_segment_path(gr: DepGraph, s: Seq<int>, a: int, b: int)
    requires
        node_walk(gr, s),
        0 <= a <= b < s.len(),
    ensures
        path(gr, gr[s[a]].0, gr[s[b]].0, (b - a) as nat),
    decreases b - a,
{
    if a < b {
        lemma_walk_segment_path(gr, s, a + 1, b);
        assert(0 <= s[a] < gr.len());
        assert(step_at(gr, s, a));
        let j = choose|j: int|
            #![trigger gr[s[a]].1[j]]
            0 <= j < gr[s[a]].1.len() && gr[s[a]].1[j] == gr[s[a + 1]].0;
        assert(path(gr, gr[s[a]].1[j], gr[s[b]].0, ((b - a) - 1) as nat));
    }
}

proof fn lemma_pigeonhole(s: Seq<int>, n: int)
    requires
        n >= 0,
        s.len() > n,
        forall|t: int| 0 <= t < s.len() ==> 0 <= #[trigger] s[t] < n,
    ensures
        exists|p: int, q: int| 0 <= p < q < s.len() && s[p] == s[q],
{
    if s.no_duplicates() {
        s.unique_seq_to_set();
        vstd::set_lib::lemma_int_range(0, n);
        assert(s.to_set().subset_of(vstd::set_lib::set_int_range(0, n)));
        vstd::set_lib::lemma_len_subset(s.to_set(), vstd::set_lib::set_int_range(0, n));
        assert(false);
    } else {
        let (p, q) = choose|p: int, q: int| 0 <= p < s.len() && 0 <= q < s.len() && p != q && s[p] == s[q];
        if p < q {
            assert(s[p] == s[q]);
        } else {
            assert(s[q] == s[p]);
        }
    }
}

/// A walk longer than the graph has nodes passes some node twice: the cycle
/// check reports only cycles that can be reached.
pub proof fn law_detected_cycle_is_real(gr: DepGraph, x: Seq<char>)
    requires
        walk_from(gr, x, gr.len() + 1),
    ensures
        exists|y: Seq<char>, to_cycle: nat, cycle_len: nat|
            #![trigger path(gr, x, y, to_cycle), path(gr, y, y, cycle_len)]
            cycle_len >= 1 && path(gr, x, y, to_cycle) && path(gr, y, y, cycle_len),
{
    let s = lemma_walk_nodes(gr, x, (gr.len() + 1) as nat);
    lemma_pigeonhole(s, gr.len() as int);
    let (p, q) = choose|p: int, q: int| 0 <= p < q < s.len() && s[p] == s[q];
    lemma_walk_segment_path(gr, s, 0, p);
    lemma_walk_segment_path(gr, s, p, q);
    let y = gr[s[p]].0;
    assert(gr[s[q]].0 == y);
    assert(path(gr, x, y, p as nat));
    assert(path(gr, y, y, (q - p) as nat));
}

/// Some id of `f` has a walk of `m` steps.
pub open spec fn reach_any(gr: DepGraph, f: Set<Seq<char>>, m: nat) -> bool {
    exists|y: Seq<char>| f.contains(y) && walk_from(gr, y, m)
}

/// The ids that the ids of `f` depend on, taking nodes before `i`.
pub open spec fn successors_upto(gr: DepGraph, f: Set<Seq<char>>, i: int) -> Set<Seq<char>> {
    Set::new(|z: Seq<char>| exists|a: int, b: int|
        #![trigger gr[a].1[b]]
        0 <= a < i && a < gr.len() && f.contains(gr[a].0) && 0 <= b < gr[a].1.len() && gr[a].1[b] == z)
}

proof fn lemma_step(gr: DepGraph, f: Set<Seq<char>>, m: nat)
    ensures
        reach_any(gr, f, m + 1) == reach_any(gr, successors_upto(gr, f, gr.len() as int), m),
{
    let g = successors_upto(gr, f, gr.len() as int);
    if reach_any(gr, f, m + 1) {
        let y = choose|y: Seq<char>| f.contains(y) && walk_from(gr, y, m + 1);
        let (i, j) = choose|i: int, j: int|
            #![trigger gr[i].1[j]]
            0 <= i < gr.len() && gr[i].0 == y && 0 <= j < gr[i].1.len() && walk_from(gr, gr[i].1[j], m);
        assert(g.contains(gr[i].1[j]));
    }
    if reach_any(gr, g, m) {
        let z = choose|z: Seq<char>| g.contains(z) && walk_from(gr, z, m);
        let (a, b) = choose|a: int, b: int|
            #![trigger gr[a].1[b]]
            0 <= a < gr.len() && a < gr.len() && f.contains(gr[a].0) && 0 <= b < gr[a].1.len() && gr[a].1[b] == z;
        assert(walk_from(gr, gr[a].0, m + 1));
    }
}

/// A list of dependency edges read as a graph.
pub open spec fn adj_view(v: Seq<(String, Vec<String>)>) -> DepGraph {
    v.map_values(|p: (String, Vec<String>)| (p.0@, string_views(p.1@)))
}

/// The ids that the ids of `frontier` depend on, each once.
fn step_frontier(gr: &Vec<(String, Vec<String>)>, frontier: &Vec<String>) -> (r: Vec<String>)
    ensures
        string_views(r@).to_set() == successors_upto(adj_view(gr@), string_views(frontier@).to_set(), gr@.len() as int),
{
    let ghost g = adj_view(gr@);
    let ghost f = string_views(frontier@).to_set();
    let mut out: Vec<String> = Vec::new();
    let n = gr.len();
    let mut i: usize = 0;
    proof {
        assert(string_views(out@).to_set() =~= successors_upto(g, f, 0));
    }
    while i < n
        invariant
            n == gr@.len(),
            g == adj_view(gr@),
            f == string_views(frontier@).to_set(),
            i <= n,
            string_views(out@).to_set() == successors_upto(g, f, i as int),
        decreases n - i,
    {
        let src_in = crate::keyed::listed(frontier.as_slice(), gr[i].0.as_str());
        proof {
            assert(g[i as int] == (gr@[i as int].0@, string_views(gr@[i as int].1@)));
            if src_in {
                let k = choose|k: int| 0 <= k < frontier@.len() && frontier@[k]@ == gr@[i as int].0@;
                assert(string_views(frontier@)[k] == frontier@[k]@);
            } else {
                assert(!f.contains(g[i as int].0)) by {
                    if f.contains(g[i as int].0) {
                        let k = choose|k: int| 0 <= k < string_views(frontier@).len() && string_views(frontier@)[k] == g[i as int].0;
                        assert(frontier@[k]@ == gr@[i as int].0@);
                    }
                }
            }
        }
        if src_in {
            let deps = &gr[i].1;
            let m = deps.len();
            let mut j: usize = 0;
            while j < m
                invariant
                    n == gr@.len(),
                    g == adj_view(gr@),
                    f == string_views(frontier@).to_set(),
                    i < n,
                    *deps == gr@[i as int].1,
                    m == deps@.len(),
                    j <= m,
                    f.contains(g[i as int].0),
                    g[i as int].1 == string_views(deps@),
                    string_views(out@).to_set() == successors_upto(g, f, i as int) + string_views(deps@).take(j as int).to_set(),
                decreases m - j,
            {
                let ghost before = string_views(out@);
                let ghost sv = string_views(deps@);
                proof {
                    assert(sv.take(j + 1) =~= sv.take(j as int).push(sv[j as int]));
                    sv.take(j as int).lemma_push_to_set_commute(sv[j as int]);
                    before.lemma_push_to_set_commute(sv[j as int]);
                }
                if !crate::keyed::listed(out.as_slice(), deps[j].as_str()) {
                    out.push(deps[j].clone());
                    proof {
                        assert(string_views(out@) =~= before.push(sv[j as int]));
                    }
                } else {
                    proof {
                        let k = choose|k: int| 0 <= k < out@.len() && out@[k]@ == deps@[j as int]@;
                        assert(before[k] == sv[j as int]);
                        assert(before.to_set().contains(sv[j as int]));
                    }
                }
                proof {
                    assert(string_views(out@).to_set() =~= successors_upto(g, f, i as int) + sv.take(j + 1).to_set());
                }
                j = j + 1;
            }
            proof {
                let sv = string_views(deps@);
                assert(sv.take(m as int) =~= sv);
                assert forall|z: Seq<char>| successors_upto(g, f, i + 1).contains(z)
                    <==> (successors_upto(g, f, i as int) + sv.to_set()).contains(z) by {
                    if successors_upto(g, f, i + 1).contains(z) && !successors_upto(g, f, i as int).contains(z) {
                        let (a, b) = choose|a: int, b: int|
                            #![trigger g[a].1[b]]
                            0 <= a < i + 1 && a < g.len() && f.contains(g[a].0) && 0 <= b < g[a].1.len() && g[a].1[b] == z;
                        assert(a == i);
                        assert(sv[b] == z);
                    }
                    if sv.to_set().contains(z) {
                        let b = choose|b: int| 0 <= b < sv.len() && sv[b] == z;
                        assert(g[i as int].1[b] == z);
                    }
                }
                assert(string_views(out@).to_set() =~= successors_upto(g, f, i + 1));
            }
        } else {
            proof {
                assert forall|z: Seq<char>| successors_upto(g, f, i + 1).contains(z)
                    <==> successors_upto(g, f, i as int).contains(z) by {
                    if successors_upto(g, f, i + 1).contains(z) {
                        let (a, b) = choose|a: int, b: int|
                            #![trigger g[a].1[b]]
                            0 <= a < i + 1 && a < g.len() && f.contains(g[a].0) && 0 <= b < g[a].1.len() && g[a].1[b] == z;
                        assert(a != i);
                    }
                }
                assert(string_views(out@).to_set() =~= successors_upto(g, f, i + 1));
            }
        }
        i = i + 1;
    }
    out
}

/// Whether a walk of `k + 1` steps starts at `x`.
fn has_long_walk(gr: &Vec<(String, Vec<String>)>, x: &str, k: usize) -> (r: bool)
    ensures
        r == walk_from(adj_view(gr@), x@, (k + 1) as nat),
{
    let ghost g = adj_view(gr@);
    let mut frontier: Vec<String> = Vec::new();
    frontier.push(String::from_str(x));
    proof {
        let f = string_views(frontier@).to_set();
        assert(string_views(frontier@) =~= seq![x@]);
        assert(f.contains(x@)) by {
            assert(string_views(frontier@)[0] == x@);
        }
        assert(reach_any(g, f, (k + 1) as nat) == walk_from(g, x@, (k + 1) as nat)) by {
            if reach_any(g, f, (k + 1) as nat) {
                let y = choose|y: Seq<char>| f.contains(y) && walk_from(g, y, (k + 1) as nat);
                assert(string_views(frontier@)[0] == y);
            }
        }
    }
    let mut t: usize = 0;
    while t <= k
        invariant
            g == adj_view(gr@),
            t <= k,
            walk_from(g, x@, (k + 1) as nat) == reach_any(g, string_views(frontier@).to_set(), (k + 1 - t) as nat),
        decreases k + 1 - t,
    {
        if frontier.len() == 0 {
            proof {
                assert(string_views(frontier@).to_set() =~= Set::<Seq<char>>::empty());
            }
            return false;
        }
        proof {
            lemma_step(g, string_views(frontier@).to_set(), (k - t) as nat);
        }
        frontier = step_frontier(gr, &frontier);
        if t == k {
            proof {
                assert(reach_any(g, string_views(frontier@).to_set(), 0) == (frontier@.len() > 0)) by {
                    if frontier@.len() > 0 {
                        assert(string_views(frontier@).to_set().contains(frontier@[0]@)) by {
                            assert(string_views(frontier@)[0] == frontier@[0]@);
                        }
                    } else {
                        assert(string_views(frontier@).to_set() =~= Set::<Seq<char>>::empty());
                    }
                }
            }
            return frontier.len() > 0;
        }
        t = t + 1;
    }
    false
}

/// The dependency edges of a list of goals.
fn goal_edges(goals: &[OrchestratedGoal]) -> (r: Vec<(String, Vec<String>)>)
    ensures
        adj_view(r@) == dep_graph(goals@),
{
    let n = goals.len();
    let mut out: Vec<(String, Vec<String>)> = Vec::new();
    let mut i: usize = 0;
    while i < n
        invariant
            n == goals@.len(),
            i <= n,
            adj_view(out@) == dep_graph(goals@.take(i as int)),
        decreases n - i,
    {
        let ghost before = out@;
        let e = (goals[i].id.clone(), copy_strings(&goals[i].dependencies));
        out.push(e);
        proof {
            assert(goals@.take(i + 1) =~= goals@.take(i as int).push(goals@[i as int]));
            assert(adj_view(out@) =~= adj_view(before).push((goals@[i as int].id@, string_views(goals@[i as int].dependencies@))));
            assert(dep_graph(goals@.take(i + 1)) =~= dep_graph(goals@.take(i as int)).push((goals@[i as int].id@, string_views(goals@[i as int].dependencies@))));
        }
        i = i + 1;
    }
    proof {
        assert(goals@.take(n as int) =~= goals@);
    }
    out
}

impl GoalOrchestrator {
    /// Whether a cycle of dependencies can be reached from goal `goal_id`:
    /// whether a walk longer than the graph has nodes starts there.
    pub fn detect_cycle_for(goal_id: &str, all_goals: &[OrchestratedGoal]) -> (r: bool)
        ensures
            r == walk_from(dep_graph(all_goals@), goal_id@, all_goals@.len() + 1),
    {
        let edges = goal_edges(all_goals);
        has_long_walk(&edges, goal_id, edges.len())
    }
}

/// No two nodes share an id.
pub open spec fn node_ids_unique(gr: DepGraph) -> bool {
    forall|i: int, j: int| 0 <= i < j < gr.len() ==> gr[i].0 != gr[j].0
}

/// Gives node `id` the edges `deps`, replacing its node or appended.
fn put_edges(edges: &mut Vec<(String, Vec<String>)>, id: &str, deps: Vec<String>)
    requires
        node_ids_unique(adj_view(old(edges)@)),
    ensures
        adj_view(final(edges)@) == graph_put(adj_view(old(edges)@), id@, string_views(deps@)),
{
    let ghost g = adj_view(edges@);
    let n = edges.len();
    let mut i: usize = 0;
    while i < n
        invariant
            n == edges@.len(),
            i <= n,
            *edges == *old(edges),
            g == adj_view(edges@),
            node_ids_unique(g),
            forall|q: int| 0 <= q < i ==> g[q].0 != id@,
        decreases n - i,
    {
        proof {
            assert(g[i as int].0 == edges@[i as int].0@);
        }
        if str_eq(edges[i].0.as_str(), id) {
            proof {
                let k = choose|k: int| 0 <= k < g.len() && g[k].0 == id@;
                assert(k == i as int);
            }
            let ghost before = edges@;
            edges.set(i, (String::from_str(id), deps));
            proof {
                assert(adj_view(edges@) =~= g.update(i as int, (id@, string_views(deps@))));
            }
            return;
        }
        i = i + 1;
    }
    let ghost before = edges@;
    let ghost dv = string_views(deps@);
    edges.push((String::from_str(id), deps));
    proof {
        assert forall|q: int| 0 <= q < g.len() implies g[q].0 != id@ by {}
        assert(adj_view(edges@) =~= g.push((id@, dv)));
    }
}

pub open spec fn cycle_text() -> Seq<char> {
    "submitting this goal would create a cycle in the dependency graph"@
}

/// `g` is a goal just made under `id` for `goal` at time `now` with the
/// dependencies `deps`: waiting for them, or queued when there are none.
pub open spec fn fresh_dependent_goal(
    g: OrchestratedGoal,
    id: Seq<char>,
    goal: Goal,
    priority: GoalPriority,
    now: i64,
    deps: Seq<Seq<char>>,
) -> bool {
    &&& g.id@ == id
    &&& g.goal == goal
    &&& g.priority == priority
    &&& string_views(g.dependencies@) == deps
    &&& (if deps.len() == 0 { g.state is Queued } else { g.state is WaitingForDependencies })
    &&& g.created_at == now
    &&& g.started_at is None
    &&& g.completed_at is None
    &&& g.deadline is None
    &&& g.retry_count == 0
    &&& g.recovery_count == 0
    &&& g.required_resources@.len() == 0
    &&& !g.exclusive
    &&& g.session_id is None
    &&& g.tags@.len() == 0
}

/// What `submit_goal_with_deps_at` does.
pub open spec fn submit_deps_post(
    pre: OrchModel,
    post: OrchModel,
    goal: Goal,
    priority: GoalPriority,
    deps: Seq<Seq<char>>,
    delay_ms: u64,
    id: Seq<char>,
    now: i64,
    r: Result<String, String>,
) -> bool {
    if first_dep_problem(deps, id, pre.goals) is Some {
        &&& r is Err
        &&& r->Err_0@ == first_dep_problem(deps, id, pre.goals)->0
        &&& post == pre
    } else if would_cycle(pre.goals, id, deps) {
        &&& r is Err
        &&& r->Err_0@ == cycle_text()
        &&& post == pre
    } else if pre.goals.len() >= pre.config.max_queued_goals {
        &&& r is Err
        &&& r->Err_0@ == max_goals_text()
        &&& post == pre
    } else {
        let k = goal_index(post.goals, id);
        &&& r is Ok
        &&& r->Ok_0@ == id
        &&& k >= 0
        &&& fresh_dependent_goal(post.goals[k], id, goal, priority, now, deps)
        &&& post.goals == put_goal(pre.goals, post.goals[k])
        &&& (deps.len() == 0 ==> queued_after_submit(pre, post, id, priority, delay_ms, now))
        &&& (deps.len() > 0 ==> post.ready == pre.ready && post.delayed == pre.delayed)
        &&& post.held == pre.held
        &&& post.running == pre.running
        &&& post.config == pre.config
        &&& post.metrics == OrchestratorMetrics { total_submitted: (pre.metrics.total_submitted + 1) as u64, ..pre.metrics }
    }
}

impl GoalOrchestrator {
    /// Checks each dependency in turn: not empty, not the goal itself, and
    /// a goal that exists.
    fn validate_dependencies(&self, dependencies: &Vec<String>, exclude_id: &str) -> (r: Result<(), String>)
        requires
            self.wf(),
        ensures
            r is Err <==> first_dep_problem(string_views(dependencies@), exclude_id@, self.model().goals) is Some,
            r is Err ==> r->Err_0@ == first_dep_problem(string_views(dependencies@), exclude_id@, self.model().goals)->0,
    {
        let ghost sv = string_views(dependencies@);
        let ghost goals = self.model().goals;
        let n = dependencies.len();
        let mut i: usize = 0;
        proof {
            assert(sv.skip(0) =~= sv);
        }
        while i < n
            invariant
                n == dependencies@.len(),
                sv == string_views(dependencies@),
                goals == self.model().goals,
                self.wf(),
                i <= n,
                first_dep_problem(sv, exclude_id@, goals) == first_dep_problem(sv.skip(i as int), exclude_id@, goals),
            decreases n - i,
        {
            let dep = dependencies[i].as_str();
            proof {
                assert(sv.skip(i as int)[0] == dep@);
                assert(sv.skip(i as int).drop_first() =~= sv.skip(i + 1));
            }
            if dep.unicode_len() == 0 {
                proof {
                    reveal_strlit("dependency ID cannot be empty");
                }
                return Err(String::from_str("dependency ID cannot be empty"));
            }
            if str_eq(dep, exclude_id) {
                let mut m = String::new();
                push_str(&mut m, "goal cannot depend on itself: '");
                push_str(&mut m, dep);
                push_str(&mut m, "'");
                return Err(m);
            }
            if self.find_goal(dep).is_none() {
                let mut m = String::new();
                push_str(&mut m, "dependency '");
                push_str(&mut m, dep);
                push_str(&mut m, "' does not exist");
                return Err(m);
            }
            i = i + 1;
        }
        proof {
            assert(sv.skip(n as int).len() == 0);
        }
        Ok(())
    }

    /// Takes in `goal` under `goal_id` at time `now`, depending on the goals
    /// listed: refused when a dependency is empty, is the goal itself or is
    /// unknown, when it would close a cycle, or when the orchestrator holds
    /// its limit of goals. With dependencies it waits for them; without, it
    /// is queued after `delay_ms`.
    pub fn submit_goal_with_deps_at(
        &mut self,
        goal: Goal,
        priority: GoalPriority,
        dependencies: Vec<String>,
        delay_ms: u64,
        goal_id: String,
        now: i64,
    ) -> (r: Result<String, String>)
        requires
            old(self).wf(),
            0 <= now,
            delay_ms <= i64::MAX,
            delay_ms > 0 ==> now + delay_ms <= i64::MAX,
            old(self).model().metrics.total_submitted < u64::MAX,
        ensures
            final(self).wf(),
            submit_deps_post(
                old(self).model(),
                final(self).model(),
                goal,
                priority,
                string_views(dependencies@),
                delay_ms,
                goal_id@,
                now,
                r,
            ),
    {
        let ghost pre = self.model();
        let ghost dv = string_views(dependencies@);
        match self.validate_dependencies(&dependencies, goal_id.as_str()) {
            Err(e) => {
                return Err(e);
            },
            Ok(()) => {},
        }
        let mut edges = goal_edges(self.goals.as_slice());
        proof {
            assert forall|a: int, b: int| 0 <= a < b < adj_view(edges@).len()
                implies adj_view(edges@)[a].0 != adj_view(edges@)[b].0 by {
                assert(adj_view(edges@)[a].0 == pre.goals[a].id@);
                assert(adj_view(edges@)[b].0 == pre.goals[b].id@);
            }
        }
        let copied = copy_strings(&dependencies);
        put_edges(&mut edges, goal_id.as_str(), copied);
        let n = edges.len();
        if has_long_walk(&edges, goal_id.as_str(), n) {
            proof {
                reveal_strlit("submitting this goal would create a cycle in the dependency graph");
            }
            return Err(String::from_str("submitting this goal would create a cycle in the dependency graph"));
        }
        if self.goals.len() >= self.config.max_queued_goals {
            proof {
                reveal_strlit("maximum queued goals reached");
            }
            return Err(String::from_str("maximum queued goals reached"));
        }
        let has_deps = dependencies.len() > 0;
        let id = goal_id.clone();
        let mut og = OrchestratedGoal::fresh(goal_id, goal, priority, now);
        og.dependencies = dependencies;
        if has_deps {
            og.state = OrchestratedGoalState::WaitingForDependencies;
        }
        proof {
            lemma_put_goal(pre.goals, og);
        }
        self.insert_goal(og);
        if !has_deps {
            self.queue.enqueue_at(id.as_str(), priority, now, delay_ms, now);
        }
        self.metrics.total_submitted = self.metrics.total_submitted + 1;
        Ok(id)
    }

    /// Takes in `goal` with dependencies under a fresh random id at the
    /// current time, as `submit_goal_with_deps_at` does.
    pub fn submit_goal_with_deps(
        &mut self,
        goal: Goal,
        priority: GoalPriority,
        dependencies: Vec<String>,
        delay_ms: u64,
    ) -> (r: Result<String, String>)
        requires
            old(self).wf(),
            delay_ms <= i64::MAX - 10_000_000_000_000_000,
            old(self).model().metrics.total_submitted < u64::MAX,
        ensures
            final(self).wf(),
            exists|id: Seq<char>, t: i64|
                id.len() == 36 && 0 <= t && submit_deps_post(
                    old(self).model(),
                    final(self).model(),
                    goal,
                    priority,
                    string_views(dependencies@),
                    delay_ms,
                    id,
                    t,
                    r,
                ),
    {
        let id = crate::clock::new_uuid();
        let now = now_millis();
        let ghost idv = id@;
        let ghost dv = string_views(dependencies@);
        let r = self.submit_goal_with_deps_at(goal, priority, dependencies, delay_ms, id, now);
        proof {
            assert(idv.len() == 36 && 0 <= now);
        }
        r
    }
}

// ---------------------------------------------------------------------------
// One scheduler tick, step by step
// ---------------------------------------------------------------------------

/// The ready keys after the goals `ids` came back from the delayed queue,
/// in order; ids without a goal are passed over.
pub open spec fn promote_ready(ready: Seq<QueueKey>, ids: Seq<Seq<char>>, goals: Seq<OrchestratedGoal>) -> Seq<QueueKey>
    decreases ids.len(),
{
    if ids.len() == 0 {
        ready
    } else {
        let r = promote_ready(ready, ids.drop_last(), goals);
        let i = goal_index(goals, ids.last());
        if i >= 0 {
            sorted_insert(r, goal_key(goals[i]))
        } else {
            r
        }
    }
}

/// Step one: the delayed goals due at `now` move to the ready queue; all
/// of them count as changed.
pub open spec fn promoted(m: OrchModel, now: i64) -> (OrchModel, Seq<Seq<char>>) {
    let p = due_count(m.delayed, now as int);
    let due = key_ids(m.delayed.take(p as int));
    (OrchModel { ready: promote_ready(m.ready, due, m.goals), delayed: m.delayed.skip(p as int), ..m }, due)
}

proof fn lemma_promote_ready_sorted(ready: Seq<QueueKey>, ids: Seq<Seq<char>>, goals: Seq<OrchestratedGoal>)
    requires
        keys_sorted(ready),
    ensures
        keys_sorted(promote_ready(ready, ids, goals)),
    decreases ids.len(),
{
    if ids.len() > 0 {
        lemma_promote_ready_sorted(ready, ids.drop_last(), goals);
        let i = goal_index(goals, ids.last());
        if i >= 0 {
            lemma_sorted_insert_sorted(promote_ready(ready, ids.drop_last(), goals), goal_key(goals[i]));
        }
    }
}

impl GoalOrchestrator {
    /// Moves the delayed goals due at `now` into the ready queue.
    fn promote_delayed_at(&mut self, now: i64) -> (changed: Vec<String>)
        requires
            old(self).wf(),
        ensures
            final(self).wf(),
            final(self).model() == promoted(old(self).model(), now).0,
            string_views(changed@) == promoted(old(self).model(), now).1,
    {
        let ghost pre = self.model();
        let due = self.queue.pop_due_delayed_at(now);
        let ghost ids = string_views(due@);
        let n = due.len();
        let mut k: usize = 0;
        proof {
            assert(ids.take(0) =~= Seq::<Seq<char>>::empty());
        }
        while k < n
            invariant
                n == due@.len(),
                ids == string_views(due@),
                k <= n,
                self.wf(),
                self.model() == (OrchModel {
                    ready: promote_ready(pre.ready, ids.take(k as int), pre.goals),
                    delayed: self.model().delayed,
                    ..pre
                }),
                self.model().delayed == pre.delayed.skip(due_count(pre.delayed, now as int) as int),
            decreases n - k,
        {
            let ghost before = self.model();
            proof {
                assert(ids.take(k + 1).drop_last() =~= ids.take(k as int));
                assert(ids.take(k + 1).last() == due@[k as int]@);
            }
            match self.find_goal(due[k].as_str()) {
                Some(i) => {
                    let priority = self.goals[i].priority;
                    let created = self.goals[i].created_at;
                    self.queue.enqueue_at(due[k].as_str(), priority, created, 0, now);
                    proof {
                        assert(self.model() =~= OrchModel {
                            ready: promote_ready(pre.ready, ids.take(k + 1), pre.goals),
                            delayed: before.delayed,
                            ..pre
                        });
                    }
                },
                None => {
                    proof {
                        assert(self.model() =~= OrchModel {
                            ready: promote_ready(pre.ready, ids.take(k + 1), pre.goals),
                            delayed: before.delayed,
                            ..pre
                        });
                    }
                },
            }
            k = k + 1;
        }
        proof {
            assert(ids.take(n as int) =~= ids);
            assert(self.model() =~= promoted(pre, now).0);
        }
        due
    }
}

/// Every listed dependency is a goal that completed.
pub open spec fn all_completed(goals: Seq<OrchestratedGoal>, deps: Seq<Seq<char>>) -> bool {
    forall|j: int| 0 <= j < deps.len() ==> {
        let k = #[trigger] goal_index(goals, deps[j]);
        k >= 0 && goals[k].state is Completed
    }
}

/// A goal waiting for dependencies that have all completed.
pub open spec fn releasable(goals: Seq<OrchestratedGoal>, g: OrchestratedGoal) -> bool {
    g.state is WaitingForDependencies && all_completed(goals, string_views(g.dependencies@))
}

pub open spec fn release_goal(goals: Seq<OrchestratedGoal>, g: OrchestratedGoal) -> OrchestratedGoal {
    if releasable(goals, g) {
        OrchestratedGoal { state: OrchestratedGoalState::Queued, ..g }
    } else {
        g
    }
}

/// The ids of the releasable goals among the first `k`, in order.
pub open spec fn released_ids(goals: Seq<OrchestratedGoal>, k: int) -> Seq<Seq<char>>
    decreases k,
{
    if k <= 0 {
        Seq::empty()
    } else if releasable(goals, goals[k - 1]) {
        released_ids(goals, k - 1).push(goals[k - 1].id@)
    } else {
        released_ids(goals, k - 1)
    }
}

/// The ready keys after the releasable goals among the first `k` entered.
pub open spec fn released_ready(ready: Seq<QueueKey>, goals: Seq<OrchestratedGoal>, k: int) -> Seq<QueueKey>
    decreases k,
{
    if k <= 0 {
        ready
    } else if releasable(goals, goals[k - 1]) {
        sorted_insert(released_ready(ready, goals, k - 1), goal_key(goals[k - 1]))
    } else {
        released_ready(ready, goals, k - 1)
    }
}

/// Step two: the goals whose dependencies all completed are queued.
pub open spec fn released(m: OrchModel) -> (OrchModel, Seq<Seq<char>>) {
    (
        OrchModel {
            goals: Seq::new(m.goals.len(), |i: int| release_goal(m.goals, m.goals[i])),
            ready: released_ready(m.ready, m.goals, m.goals.len() as int),
            ..m
        },
        released_ids(m.goals, m.goals.len() as int),
    )
}

proof fn lemma_released_ready_sorted(ready: Seq<QueueKey>, goals: Seq<OrchestratedGoal>, k: int)
    requires
        keys_sorted(ready),
    ensures
        keys_sorted(released_ready(ready, goals, k)),
    decreases k,
{
    if k > 0 {
        lemma_released_ready_sorted(ready, goals, k - 1);
        if releasable(goals, goals[k - 1]) {
            lemma_sorted_insert_sorted(released_ready(ready, goals, k - 1), goal_key(goals[k - 1]));
        }
    }
}

/// Two goal lists with the same ids at each place and the same completed
/// goals agree on which dependencies completed.
proof fn lemma_same_completion(a: Seq<OrchestratedGoal>, b: Seq<OrchestratedGoal>, deps: Seq<Seq<char>>)
    requires
        a.len() == b.len(),
        goal_ids_unique(a),
        forall|q: int| 0 <= q < a.len() ==> a[q].id@ == b[q].id@,
        forall|q: int| 0 <= q < a.len() ==> (a[q].state is Completed <==> b[q].state is Completed),
    ensures
        all_completed(a, deps) == all_completed(b, deps),
        forall|x: Seq<char>| goal_index(a, x) == goal_index(b, x),
{
    assert(goal_ids_unique(b)) by {
        assert forall|i: int, j: int| 0 <= i < j < b.len() implies b[i].id@ != b[j].id@ by {
            assert(a[i].id@ != a[j].id@);
        }
    }
    assert forall|x: Seq<char>| goal_index(a, x) == goal_index(b, x) by {
        if exists|k: int| 0 <= k < a.len() && a[k].id@ == x {
            let k = choose|k: int| 0 <= k < a.len() && a[k].id@ == x;
            lemma_goal_index_unique(a, k);
            lemma_goal_index_unique(b, k);
        } else {
            assert forall|k: int| 0 <= k < b.len() implies b[k].id@ != x by {
                assert(a[k].id@ == b[k].id@);
            }
        }
    }
}

impl GoalOrchestrator {
    /// Whether every listed dependency is a goal that completed.
    fn deps_completed(&self, deps: &Vec<String>) -> (r: bool)
        requires
            self.wf(),
        ensures
            r == all_completed(self.model().goals, string_views(deps@)),
    {
        let ghost dv = string_views(deps@);
        let n = deps.len();
        let mut j: usize = 0;
        while j < n
            invariant
                n == deps@.len(),
                dv == string_views(deps@),
                self.wf(),
                j <= n,
                forall|q: int| 0 <= q < j ==> {
                    let k = #[trigger] goal_index(self.model().goals, dv[q]);
                    k >= 0 && self.model().goals[k].state is Completed
                },
            decreases n - j,
        {
            proof {
                assert(dv[j as int] == deps@[j as int]@);
            }
            match self.find_goal(deps[j].as_str()) {
                None => {
                    return false;
                },
                Some(k) => {
                    let done = match self.goals[k].state {
                        OrchestratedGoalState::Completed => true,
                        _ => false,
                    };
                    if !done {
                        return false;
                    }
                },
            }
            j = j + 1;
        }
        true
    }

    /// Queues the goals whose dependencies all completed.
    fn release_waiting(&mut self) -> (changed: Vec<String>)
        requires
            old(self).wf(),
        ensures
            final(self).wf(),
            final(self).model() == released(old(self).model()).0,
            string_views(changed@) == released(old(self).model()).1,
    {
        let ghost pre = self.model();
        let ghost orig = pre.goals;
        let n = self.goals.len();
        let mut changed: Vec<String> = Vec::new();
        let mut i: usize = 0;
        while i < n
            invariant
                n == orig.len(),
                i <= n,
                self.wf(),
                self.model().goals.len() == n,
                forall|q: int| 0 <= q < i ==> self.model().goals[q] == release_goal(orig, orig[q]),
                forall|q: int| i <= q < n ==> self.model().goals[q] == orig[q],
                self.model() == (OrchModel {
                    goals: self.model().goals,
                    ready: released_ready(pre.ready, orig, i as int),
                    ..pre
                }),
                string_views(changed@) == released_ids(orig, i as int),
                goal_ids_unique(orig),
            decreases n - i,
        {
            let ghost cur = self.model().goals;
            proof {
                assert forall|q: int| 0 <= q < n implies cur[q].id@ == orig[q].id@ && (cur[q].state is Completed <==> orig[q].state is Completed) by {
                    if q < i {
                        assert(cur[q] == release_goal(orig, orig[q]));
                    }
                }
                lemma_same_completion(orig, cur, string_views(cur[i as int].dependencies@));
            }
            let waiting = match self.goals[i].state {
                OrchestratedGoalState::WaitingForDependencies => true,
                _ => false,
            };
            if waiting && self.deps_completed(&self.goals[i].dependencies) {
                let ghost before = self.model();
                let ghost before_changed = changed@;
                let id = self.goals[i].id.clone();
                let priority = self.goals[i].priority;
                let created = self.goals[i].created_at;
                let mut g = self.take_goal(i);
                g.state = OrchestratedGoalState::Queued;
                proof {
                    lemma_update_goal(cur, i as int, g);
                }
                self.put_goal_at(i, g);
                self.queue.enqueue_at(id.as_str(), priority, created, 0, 0);
                changed.push(id);
                proof {
                    assert(string_views(changed@) =~= string_views(before_changed).push(orig[i as int].id@));
                    assert(self.model() =~= OrchModel {
                        goals: self.model().goals,
                        ready: released_ready(pre.ready, orig, i + 1),
                        ..pre
                    });
                }
            } else {
                proof {
                    assert(!releasable(orig, orig[i as int]));
                }
            }
            i = i + 1;
        }
        proof {
            assert(self.model().goals =~= Seq::new(orig.len(), |q: int| release_goal(orig, orig[q])));
            assert(self.model() =~= released(pre).0);
        }
        changed
    }
}

/// How many goals are running background work.
pub open spec fn bg_running_count(goals: Seq<OrchestratedGoal>) -> nat
    decreases goals.len(),
{
    if goals.len() == 0 {
        0
    } else {
        bg_running_count(goals.drop_last()) + (if goals.last().state is Running
            && goals.last().priority == GoalPriority::Background { 1nat } else { 0nat })
    }
}

/// Goal `id` exists and is marked exclusive.
pub open spec fn is_exclusive_goal(goals: Seq<OrchestratedGoal>, id: Seq<char>) -> bool {
    let i = goal_index(goals, id);
    i >= 0 && goals[i].exclusive
}

/// Some goal counted as running is marked exclusive. While one is, a tick
/// starts no further goal; the tick that starts it may already have started
/// other goals before it (see `law_exclusive_goal_picked_last`).
pub open spec fn exclusive_running(m: OrchModel) -> bool {
    exists|id: Seq<char>| m.running.contains(id) && is_exclusive_goal(m.goals, id)
}

/// How many goals a tick may start: the free places below the limit, none
/// while an exclusive goal is running.
pub open spec fn start_budget(m: OrchModel) -> nat {
    if m.config.max_concurrent_goals > m.running.len() && !exclusive_running(m) {
        (m.config.max_concurrent_goals - m.running.len()) as nat
    } else {
        0
    }
}

/// Goal `id` may start after `n_picked` others were picked in this tick:
/// it is queued, its resources are free, and a background goal stays
/// within the background limit.
pub open spec fn selectable(m: OrchModel, id: Seq<char>, n_picked: nat) -> bool {
    let i = goal_index(m.goals, id);
    &&& i >= 0
    &&& m.goals[i].state is Queued
    &&& !conflicts(m.goals[i].required_resources@, m.held)
    &&& (m.goals[i].priority != GoalPriority::Background
        || bg_running_count(m.goals) + n_picked < m.config.max_background_goals)
}

/// Some picked goal is marked exclusive.
pub open spec fn picked_exclusive(goals: Seq<OrchestratedGoal>, picked: Seq<Seq<char>>) -> bool {
    exists|q: int| 0 <= q < picked.len() && is_exclusive_goal(goals, #[trigger] picked[q])
}

/// The goals taken from the head of the ready queue: while the budget
/// lasts, no picked goal is exclusive, and the head can start.
pub open spec fn select_from(m: OrchModel, ready: Seq<QueueKey>, budget: nat, picked: Seq<Seq<char>>) -> Seq<Seq<char>>
    decreases budget,
{
    if budget == 0 || picked_exclusive(m.goals, picked) || ready.len() == 0 || !selectable(
        m,
        ready[0].2,
        picked.len(),
    ) {
        picked
    } else {
        select_from(m, ready.drop_first(), (budget - 1) as nat, picked.push(ready[0].2))
    }
}

/// The goals a tick picks to start.
pub open spec fn picked_goals(m: OrchModel) -> Seq<Seq<char>> {
    select_from(m, m.ready, start_budget(m), Seq::empty())
}

proof fn lemma_select_len(m: OrchModel, ready: Seq<QueueKey>, budget: nat, picked: Seq<Seq<char>>)
    ensures
        picked.len() <= select_from(m, ready, budget, picked).len() <= picked.len() + ready.len(),
        select_from(m, ready, budget, picked).len() <= picked.len() + budget,
        forall|q: int| 0 <= q < picked.len() ==> select_from(m, ready, budget, picked)[q] == picked[q],
        forall|q: int| 0 <= q < select_from(m, ready, budget, picked).len() - picked.len()
            ==> select_from(m, ready, budget, picked)[picked.len() + q] == ready[q].2,
    decreases budget,
{
    if !(budget == 0 || picked_exclusive(m.goals, picked) || ready.len() == 0 || !selectable(
        m,
        ready[0].2,
        picked.len(),
    )) {
        lemma_select_len(m, ready.drop_first(), (budget - 1) as nat, picked.push(ready[0].2));
        let r = select_from(m, ready, budget, picked);
        assert forall|q: int| 0 <= q < picked.len() implies r[q] == picked[q] by {
            assert(picked.push(ready[0].2)[q] == picked[q]);
        }
        assert forall|q: int| 0 <= q < r.len() - picked.len() implies r[picked.len() + q] == ready[q].2 by {
            if q == 0 {
                assert(r[picked.len() as int] == picked.push(ready[0].2)[picked.len() as int]);
                assert(picked.push(ready[0].2)[picked.len() as int] == ready[0].2);
            } else {
                assert(r[picked.push(ready[0].2).len() + (q - 1)] == ready.drop_first()[q - 1].2);
            }
        }
    }
}

/// Goal `id` started as `start_goal_at` starts it, and whether it did.
pub open spec fn start_one(m: OrchModel, id: Seq<char>, now: i64) -> (OrchModel, bool) {
    let i = goal_index(m.goals, id);
    if i < 0 || conflicts(m.goals[i].required_resources@, m.held) {
        (m, false)
    } else {
        (started_model(m, i, now), true)
    }
}

/// The goals `ids` started in order, and the ids of those that started.
pub open spec fn start_all(m: OrchModel, ids: Seq<Seq<char>>, now: i64) -> (OrchModel, Seq<Seq<char>>)
    decreases ids.len(),
{
    if ids.len() == 0 {
        (m, Seq::empty())
    } else {
        let (m1, ch) = start_all(m, ids.drop_last(), now);
        let (m2, ok) = start_one(m1, ids.last(), now);
        (m2, if ok { ch.push(ids.last()) } else { ch })
    }
}

/// Goal `id` has waited longer than the starvation interval.
pub open spec fn aged(m: OrchModel, id: Seq<char>, now: i64) -> bool {
    let i = goal_index(m.goals, id);
    i >= 0 && now - m.goals[i].created_at > (m.config.starvation_check_interval_ms as i64) as int
}

/// The ids among `ids` of goals that have aged, in order.
pub open spec fn aged_ids(m: OrchModel, ids: Seq<Seq<char>>, now: i64) -> Seq<Seq<char>>
    decreases ids.len(),
{
    if ids.len() == 0 {
        Seq::empty()
    } else if aged(m, ids.last(), now) {
        aged_ids(m, ids.drop_last(), now).push(ids.last())
    } else {
        aged_ids(m, ids.drop_last(), now)
    }
}

/// The queues after each goal of `ids` was taken out of them and put back
/// under its base key.
pub open spec fn requeue_all(m: OrchModel, ids: Seq<Seq<char>>) -> OrchModel
    decreases ids.len(),
{
    if ids.len() == 0 {
        m
    } else {
        let m1 = requeue_all(m, ids.drop_last());
        let id = ids.last();
        let i = goal_index(m1.goals, id);
        let ready = without_goal(m1.ready, id);
        OrchModel {
            ready: if i >= 0 { sorted_insert(ready, goal_key(m1.goals[i])) } else { ready },
            delayed: without_goal(m1.delayed, id),
            ..m1
        }
    }
}

/// Step four: the goals in the ready queue that waited too long are put
/// back under their base key, dropping any later entry they had.
pub open spec fn reprioritized(m: OrchModel, now: i64) -> OrchModel {
    requeue_all(m, aged_ids(m, key_ids(m.ready), now))
}

/// One tick: due delayed goals come back, goals whose dependencies
/// completed are queued, as many goals as allowed start, and, when
/// enabled, goals that waited too long are re-queued. Gives the new model
/// and the ids of the goals whose state changed.
pub open spec fn tick_model(m: OrchModel, now: i64) -> (OrchModel, Seq<Seq<char>>) {
    let (m1, c1) = promoted(m, now);
    let (m2, c2) = released(m1);
    let picked = picked_goals(m2);
    let m3 = OrchModel { ready: m2.ready.skip(picked.len() as int), ..m2 };
    let (m4, c3) = start_all(m3, picked, now);
    let m5 = if m4.config.enable_dynamic_priority { reprioritized(m4, now) } else { m4 };
    (m5, c1 + c2 + c3)
}

impl GoalOrchestrator {
    /// How many goals are running background work.
    fn bg_running(&self) -> (n: usize)
        ensures
            n == bg_running_count(self.model().goals),
    {
        let n = self.goals.len();
        let mut count: usize = 0;
        let mut i: usize = 0;
        while i < n
            invariant
                n == self.goals@.len(),
                i <= n,
                count == bg_running_count(self.goals@.take(i as int)),
                count <= i,
            decreases n - i,
        {
            proof {
                assert(self.goals@.take(i + 1).drop_last() =~= self.goals@.take(i as int));
                assert(self.goals@.take(i + 1).last() == self.goals@[i as int]);
            }
            let counts = match self.goals[i].state {
                OrchestratedGoalState::Running => self.goals[i].priority == GoalPriority::Background,
                _ => false,
            };
            if counts {
                count = count + 1;
            }
            i = i + 1;
        }
        proof {
            assert(self.goals@.take(n as int) =~= self.goals@);
        }
        count
    }

    /// Whether goal `id` exists and is marked exclusive.
    fn exclusive_goal(&self, id: &str) -> (b: bool)
        requires
            self.wf(),
        ensures
            b == is_exclusive_goal(self.model().goals, id@),
    {
        match self.find_goal(id) {
            Some(i) => self.goals[i].exclusive,
            None => false,
        }
    }

    /// Whether a goal counted as running is marked exclusive.
    fn exclusive_is_running(&self) -> (b: bool)
        requires
            self.wf(),
        ensures
            b == exclusive_running(self.model()),
    {
        let ghost sv = string_views(self.running_ids@);
        let n = self.running_ids.len();
        let mut k: usize = 0;
        while k < n
            invariant
                n == self.running_ids@.len(),
                sv == string_views(self.running_ids@),
                self.wf(),
                k <= n,
                forall|q: int| 0 <= q < k ==> !is_exclusive_goal(self.model().goals, sv[q]),
            decreases n - k,
        {
            proof {
                assert(sv[k as int] == self.running_ids@[k as int]@);
            }
            if self.exclusive_goal(self.running_ids[k].as_str()) {
                proof {
                    assert(self.model().running.contains(sv[k as int]));
                }
                return true;
            }
            k = k + 1;
        }
        proof {
            assert forall|id: Seq<char>| self.model().running.contains(id) implies !is_exclusive_goal(self.model().goals, id) by {
                let q = choose|q: int| 0 <= q < sv.len() && sv[q] == id;
            }
        }
        false
    }

    /// Whether some picked goal is marked exclusive.
    fn any_exclusive(&self, picked: &Vec<String>) -> (b: bool)
        requires
            self.wf(),
        ensures
            b == picked_exclusive(self.model().goals, string_views(picked@)),
    {
        let ghost sv = string_views(picked@);
        let n = picked.len();
        let mut k: usize = 0;
        while k < n
            invariant
                n == picked@.len(),
                sv == string_views(picked@),
                self.wf(),
                k <= n,
                forall|q: int| 0 <= q < k ==> !is_exclusive_goal(self.model().goals, sv[q]),
            decreases n - k,
        {
            proof {
                assert(sv[k as int] == picked@[k as int]@);
            }
            if self.exclusive_goal(picked[k].as_str()) {
                return true;
            }
            k = k + 1;
        }
        false
    }

    /// Whether goal `id` may start after `n_picked` others, `bg` being the
    /// number of running background goals.
    fn is_selectable(&self, id: &str, n_picked: usize, bg: usize) -> (b: bool)
        requires
            self.wf(),
            bg == bg_running_count(self.model().goals),
        ensures
            b == selectable(self.model(), id@, n_picked as nat),
    {
        match self.find_goal(id) {
            None => false,
            Some(i) => {
                let queued = match self.goals[i].state {
                    OrchestratedGoalState::Queued => true,
                    _ => false,
                };
                if !queued {
                    return false;
                }
                if self.resource_lock.has_conflict(self.goals[i].required_resources.as_slice()) {
                    return false;
                }
                if self.goals[i].priority != GoalPriority::Background {
                    return true;
                }
                let max_bg = self.config.max_background_goals;
                n_picked < max_bg && bg < max_bg - n_picked
            },
        }
    }

    /// Takes the goals to start off the head of the ready queue.
    fn select_to_start(&mut self) -> (picked: Vec<String>)
        requires
            old(self).wf(),
        ensures
            final(self).wf(),
            string_views(picked@) == picked_goals(old(self).model()),
            final(self).model() == (OrchModel {
                ready: old(self).model().ready.skip(picked@.len() as int),
                ..old(self).model()
            }),
    {
        let ghost m = self.model();
        let running = self.running_ids.len();
        proof {
            string_views(self.running_ids@).unique_seq_to_set();
        }
        let mut budget: usize = if self.config.max_concurrent_goals > running {
            self.config.max_concurrent_goals - running
        } else {
            0
        };
        if budget > 0 && self.exclusive_is_running() {
            budget = 0;
        }
        let bg = self.bg_running();
        let mut picked: Vec<String> = Vec::new();
        let mut n: usize = 0;
        proof {
            assert(m.ready.skip(0) =~= m.ready);
            assert(string_views(picked@) =~= Seq::<Seq<char>>::empty());
            lemma_select_len(m, m.ready, budget as nat, Seq::empty());
        }
        while n < budget
            invariant_except_break
                n <= budget,
            invariant
                self.wf(),
                budget == start_budget(m),
                bg == bg_running_count(m.goals),
                picked@.len() == n,
                n <= m.ready.len(),
                self.model() == (OrchModel { ready: m.ready.skip(n as int), ..m }),
                picked_goals(m) == select_from(m, m.ready.skip(n as int), (budget - n) as nat, string_views(picked@)),
            ensures
                self.wf(),
                picked@.len() == n,
                n <= m.ready.len(),
                self.model() == (OrchModel { ready: m.ready.skip(n as int), ..m }),
                picked_goals(m) == string_views(picked@),
            decreases budget - n,
        {
            if self.any_exclusive(&picked) {
                break;
            }
            let head = self.queue.peek();
            match head {
                None => {
                    break;
                },
                Some(id) => {
                    if !self.is_selectable(id.as_str(), picked.len(), bg) {
                        break;
                    }
                    let ghost before = string_views(picked@);
                    let _ = self.queue.dequeue();
                    picked.push(id);
                    proof {
                        assert(m.ready.skip(n as int)[0] == m.ready[n as int]);
                        assert(m.ready.skip(n as int).drop_first() =~= m.ready.skip(n + 1));
                        assert(string_views(picked@) =~= before.push(m.ready.skip(n as int)[0].2));
                    }
                },
            }
            n = n + 1;
        }
        picked
    }

    /// Starts the goals `ids` in order; gives the ids of those that started.
    fn start_each(&mut self, ids: &Vec<String>, now: i64) -> (changed: Vec<String>)
        requires
            old(self).wf(),
            0 <= now,
        ensures
            final(self).wf(),
            final(self).model() == start_all(old(self).model(), string_views(ids@), now).0,
            string_views(changed@) == start_all(old(self).model(), string_views(ids@), now).1,
    {
        let ghost m = self.model();
        let ghost sv = string_views(ids@);
        let n = ids.len();
        let mut changed: Vec<String> = Vec::new();
        let mut k: usize = 0;
        proof {
            assert(sv.take(0) =~= Seq::<Seq<char>>::empty());
            assert(string_views(changed@) =~= Seq::<Seq<char>>::empty());
        }
        while k < n
            invariant
                n == ids@.len(),
                sv == string_views(ids@),
                k <= n,
                0 <= now,
                self.wf(),
                self.model() == start_all(m, sv.take(k as int), now).0,
                string_views(changed@) == start_all(m, sv.take(k as int), now).1,
            decreases n - k,
        {
            proof {
                assert(sv.take(k + 1).drop_last() =~= sv.take(k as int));
                assert(sv.take(k + 1).last() == ids@[k as int]@);
            }
            let ghost before = string_views(changed@);
            let r = self.start_goal_at(ids[k].as_str(), now);
            if r.is_ok() {
                changed.push(ids[k].clone());
                proof {
                    assert(string_views(changed@) =~= before.push(ids@[k as int]@));
                }
            }
            k = k + 1;
        }
        proof {
            assert(sv.take(n as int) =~= sv);
        }
        changed
    }

    /// Re-queues, at time `now`, the ready goals that waited longer than
    /// the starvation interval, under their base key.
    pub fn reprioritize_aging_goals_at(&mut self, now: i64)
        requires
            old(self).wf(),
            0 <= now,
        ensures
            final(self).wf(),
            final(self).model() == reprioritized(old(self).model(), now),
    {
        let ghost m = self.model();
        let ids = self.queue.all_ids();
        let ghost kv = key_ids(m.ready);
        let n = ids.len();
        let mut aged_list: Vec<String> = Vec::new();
        let mut k: usize = 0;
        proof {
            assert(kv.take(0) =~= Seq::<Seq<char>>::empty());
            assert(string_views(aged_list@) =~= Seq::<Seq<char>>::empty());
        }
        while k < n
            invariant
                n == ids@.len(),
                string_views(ids@) == kv,
                self.model() == m,
                self.wf(),
                0 <= now,
                k <= n,
                string_views(aged_list@) == aged_ids(m, kv.take(k as int), now),
            decreases n - k,
        {
            proof {
                assert(kv.take(k + 1).drop_last() =~= kv.take(k as int));
                assert(kv.take(k + 1).last() == ids@[k as int]@);
                assert(string_views(ids@)[k as int] == ids@[k as int]@);
            }
            let ghost before = string_views(aged_list@);
            match self.find_goal(ids[k].as_str()) {
                Some(i) => {
                    if now - self.goals[i].created_at > self.config.starvation_check_interval_ms as i64 {
                        aged_list.push(ids[k].clone());
                        proof {
                            assert(string_views(aged_list@) =~= before.push(ids@[k as int]@));
                        }
                    }
                },
                None => {},
            }
            k = k + 1;
        }
        proof {
            assert(kv.take(n as int) =~= kv);
        }
        let ghost av = string_views(aged_list@);
        let na = aged_list.len();
        let mut j: usize = 0;
        proof {
            assert(av.take(0) =~= Seq::<Seq<char>>::empty());
        }
        while j < na
            invariant
                na == aged_list@.len(),
                av == string_views(aged_list@),
                av == aged_ids(m, kv, now),
                self.wf(),
                j <= na,
                self.model() == requeue_all(m, av.take(j as int)),
                self.model().goals == m.goals,
            decreases na - j,
        {
            proof {
                assert(av.take(j + 1).drop_last() =~= av.take(j as int));
                assert(av.take(j + 1).last() == aged_list@[j as int]@);
            }
            let ghost before = self.model();
            self.queue.remove(aged_list[j].as_str());
            match self.find_goal(aged_list[j].as_str()) {
                Some(i) => {
                    let priority = self.goals[i].priority;
                    let created = self.goals[i].created_at;
                    self.queue.enqueue_at(aged_list[j].as_str(), priority, created, 0, now);
                },
                None => {},
            }
            proof {
                assert(self.model() =~= requeue_all(m, av.take(j + 1)));
            }
            j = j + 1;
        }
        proof {
            assert(av.take(na as int) =~= av);
        }
    }

    /// Re-queues the ready goals that waited too long, as
    /// `reprioritize_aging_goals_at` does at the current time.
    pub fn reprioritize_aging_goals(&mut self)
        requires
            old(self).wf(),
        ensures
            final(self).wf(),
            exists|t: i64| 0 <= t && final(self).model() == reprioritized(old(self).model(), t),
    {
        let now = now_millis();
        self.reprioritize_aging_goals_at(now);
    }

    /// Runs one scheduler tick at time `now` and gives the ids of the goals
    /// whose state changed: see `tick_model`.
    pub fn tick_at(&mut self, now: i64) -> (changed: Vec<String>)
        requires
            old(self).wf(),
            0 <= now,
        ensures
            final(self).wf(),
            final(self).model() == tick_model(old(self).model(), now).0,
            string_views(changed@) == tick_model(old(self).model(), now).1,
    {
        let mut changed = self.promote_delayed_at(now);
        let mut released_list = self.release_waiting();
        let picked = self.select_to_start();
        let mut started = self.start_each(&picked, now);
        if self.config.enable_dynamic_priority {
            self.reprioritize_aging_goals_at(now);
        }
        let ghost c1 = string_views(changed@);
        let ghost c2 = string_views(released_list@);
        let ghost c3 = string_views(started@);
        changed.append(&mut released_list);
        changed.append(&mut started);
        proof {
            assert(string_views(changed@) =~= c1 + c2 + c3);
        }
        changed
    }

    /// Runs one scheduler tick at the current time, as `tick_at` does.
    pub fn tick(&mut self) -> (changed: Vec<String>)
        requires
            old(self).wf(),
        ensures
            final(self).wf(),
            exists|t: i64| 0 <= t && final(self).model() == tick_model(old(self).model(), t).0
                && string_views(changed@) == tick_model(old(self).model(), t).1,
    {
        let now = now_millis();
        self.tick_at(now)
    }
}

// ---------------------------------------------------------------------------
// Laws
// ---------------------------------------------------------------------------

/// A more urgent priority always sorts ahead, whatever the creation times
/// and ids.
pub proof fn law_more_urgent_first(p1: GoalPriority, p2: GoalPriority, c1: int, c2: int, id1: Seq<char>, id2: Seq<char>)
    requires
        p1.rank() < p2.rank(),
    ensures
        key_lt((base_score(p1), c1, id1), (base_score(p2), c2, id2)),
{
}

/// Within one priority the goal created first sorts ahead.
pub proof fn law_fifo_within_priority(p: GoalPriority, c1: int, c2: int, id1: Seq<char>, id2: Seq<char>)
    requires
        c1 < c2,
    ensures
        key_lt((base_score(p), c1, id1), (base_score(p), c2, id2)),
{
}

/// After an insertion the head of the queue is the old head if that comes
/// first, else the new key: what `peek` and `dequeue` then give.
pub proof fn law_head_after_insert(s: Seq<QueueKey>, k: QueueKey)
    requires
        keys_sorted(s),
    ensures
        sorted_insert(s, k)[0] == (if s.len() > 0 && key_lt(s[0], k) { s[0] } else { k }),
{
    if s.len() > 0 && !key_lt(s[0], k) && s[0] == k {
        assert(sorted_insert(s, k) == s);
    }
}

/// The head of an ordered queue comes before every other key.
pub proof fn law_head_is_most_urgent(s: Seq<QueueKey>, i: int)
    requires
        keys_sorted(s),
        0 < i < s.len(),
    ensures
        key_lt(s[0], s[i]),
{
}

/// Releasing what an acquisition took gives back the resources held
/// before it.
pub proof fn law_release_undoes_acquire(held: Set<Resource>, rs: Seq<Resource>)
    requires
        !conflicts(rs, held),
    ensures
        (held + rs.to_set()).difference(rs.to_set()) == held,
{
    assert forall|x: Resource| held.contains(x) implies !rs.to_set().contains(x) by {
        if rs.to_set().contains(x) {
            let i = choose|i: int| 0 <= i < rs.len() && rs[i] == x;
            assert(held.contains(rs[i]));
        }
    }
    assert((held + rs.to_set()).difference(rs.to_set()) =~= held);
}

/// A goal cancelled once cannot be cancelled again, and the second attempt
/// changes nothing.
pub proof fn law_cancel_is_final(
    pre: OrchModel,
    mid: OrchModel,
    post: OrchModel,
    id: Seq<char>,
    t1: i64,
    t2: i64,
    r1: Result<(), String>,
    r2: Result<(), String>,
)
    requires
        goal_ids_unique(pre.goals),
        times_valid(pre.goals),
        cancel_post(pre, mid, id, t1, r1),
        r1 is Ok,
        cancel_post(mid, post, id, t2, r2),
    ensures
        r2 is Err,
        post == mid,
{
    let i = goal_index(pre.goals, id);
    let g = pre.goals[i];
    let x = OrchestratedGoal { state: OrchestratedGoalState::Cancelled, completed_at: Some(t1), ..g };
    assert(g.id@ == id) by {
        let k = choose|k: int| 0 <= k < pre.goals.len() && pre.goals[k].id@ == id;
    }
    lemma_update_goal(pre.goals, i, x);
    assert(goal_index(mid.goals, id) == i);
}

/// Pausing a running goal and resuming it puts it back in the ready queue.
pub proof fn law_pause_then_resume_queues(
    pre: OrchModel,
    mid: OrchModel,
    post: OrchModel,
    id: Seq<char>,
    now: i64,
    r1: Result<(), String>,
    r2: Result<(), String>,
)
    requires
        goal_ids_unique(pre.goals),
        times_valid(pre.goals),
        pause_post(pre, mid, id, r1),
        r1 is Ok,
        resume_post(mid, post, id, now, r2),
    ensures
        r2 is Ok,
        post.goals[goal_index(post.goals, id)].state is Queued,
        !post.running.contains(id),
{
    let i = goal_index(pre.goals, id);
    let g = pre.goals[i];
    let x = OrchestratedGoal { state: OrchestratedGoalState::Paused, ..g };
    assert(g.id@ == id) by {
        let k = choose|k: int| 0 <= k < pre.goals.len() && pre.goals[k].id@ == id;
    }
    lemma_update_goal(pre.goals, i, x);
    assert(goal_index(mid.goals, id) == i);
    let y = OrchestratedGoal { state: OrchestratedGoalState::Queued, ..x };
    lemma_update_goal(mid.goals, i, y);
    assert(goal_index(post.goals, id) == i);
}

/// A tick never picks more goals than free places below the concurrency
/// limit, and none while an exclusive goal is running.
pub proof fn law_tick_respects_limits(m: OrchModel)
    ensures
        picked_goals(m).len() + m.running.len() <= (if m.config.max_concurrent_goals > m.running.len() {
            m.config.max_concurrent_goals as int
        } else {
            m.running.len() as int
        }),
        exclusive_running(m) ==> picked_goals(m).len() == 0,
{
    lemma_select_len(m, m.ready, start_budget(m), Seq::empty());
}

/// An exclusive goal is the last one a tick picks: after it, the tick picks
/// no other.
pub proof fn law_exclusive_goal_picked_last(m: OrchModel, ready: Seq<QueueKey>, budget: nat, picked: Seq<Seq<char>>)
    requires
        forall|q: int| 0 <= q < picked.len() - 1 ==> !is_exclusive_goal(m.goals, #[trigger] picked[q]),
    ensures
        forall|q: int| 0 <= q < select_from(m, ready, budget, picked).len() - 1
            ==> !is_exclusive_goal(m.goals, #[trigger] select_from(m, ready, budget, picked)[q]),
    decreases budget,
{
    if !(budget == 0 || picked_exclusive(m.goals, picked) || ready.len() == 0 || !selectable(
        m,
        ready[0].2,
        picked.len(),
    )) {
        let next = picked.push(ready[0].2);
        assert forall|q: int| 0 <= q < next.len() - 1 implies !is_exclusive_goal(m.goals, #[trigger] next[q]) by {
            assert(next[q] == picked[q]);
            if q == picked.len() - 1 {
                assert(!picked_exclusive(m.goals, picked));
            }
        }
        law_exclusive_goal_picked_last(m, ready.drop_first(), (budget - 1) as nat, next);
        assert(select_from(m, ready, budget, picked) == select_from(m, ready.drop_first(), (budget - 1) as nat, next));
    } else {
        assert(select_from(m, ready, budget, picked) == picked);
    }
}

/// A goal whose dependencies have not all completed keeps waiting through
/// the release step; one whose dependencies completed is queued.
pub proof fn law_release_follows_dependencies(m: OrchModel, i: int)
    requires
        0 <= i < m.goals.len(),
        m.goals[i].state is WaitingForDependencies,
    ensures
        !all_completed(m.goals, string_views(m.goals[i].dependencies@)) ==> released(m).0.goals[i] == m.goals[i],
        all_completed(m.goals, string_views(m.goals[i].dependencies@)) ==> released(m).0.goals[i].state is Queued,
{
}

} // verus!
