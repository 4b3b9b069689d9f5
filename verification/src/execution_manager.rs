//! Priorities, policies, the priority queue of pending executions, the
//! bounded execution history and the execution counters.
use vstd::prelude::*;
use vstd::string::StringExecFns;
use crate::history::ExecutionStatus;
use crate::text::{push_str, str_eq};
use crate::planner::GoalExecutionReport;

verus! {

/// How urgent an execution is; `Immediate` is the most urgent.
#[derive(Debug, Clone, Copy, PartialEq, Eq, Structural, PartialOrd, Ord, Hash)]
pub enum ExecutionPriority {
    Immediate,
    High,
    Normal,
    Low,
    Background,
}

pub open spec fn priority_rank(p: ExecutionPriority) -> u8 {
    match p {
        ExecutionPriority::Immediate => 0,
        ExecutionPriority::High => 1,
        ExecutionPriority::Normal => 2,
        ExecutionPriority::Low => 3,
        ExecutionPriority::Background => 4,
    }
}

impl ExecutionPriority {
    pub fn as_u8(&self) -> (r: u8)
        ensures
            r == priority_rank(*self),
    {
        match self {
            ExecutionPriority::Immediate => 0,
            ExecutionPriority::High => 1,
            ExecutionPriority::Normal => 2,
            ExecutionPriority::Low => 3,
            ExecutionPriority::Background => 4,
        }
    }
}

impl Default for ExecutionPriority {
    fn default() -> (r: Self)
        ensures
            r == ExecutionPriority::Normal,
    {
        ExecutionPriority::Normal
    }
}

/// Whether an execution may run beside others.
#[derive(Debug, Clone, Copy, PartialEq, Eq, Structural, Hash)]
pub enum ExecutionPolicy {
    Sequential,
    Parallel,
    Exclusive,
}

impl Default for ExecutionPolicy {
    fn default() -> (r: Self)
        ensures
            r == ExecutionPolicy::Sequential,
    {
        ExecutionPolicy::Sequential
    }
}

/// One entry of the execution history.
#[derive(Debug)]
pub struct ExecutionHistoryEntry {
    pub execution_id: String,
    pub goal_id: String,
    pub intent: Option<String>,
    pub start_time: i64,
    pub end_time: Option<i64>,
    pub duration: Option<std::time::Duration>,
    pub status: ExecutionStatus,
    pub failure_reason: Option<String>,
    pub retry_count: u32,
    pub priority: ExecutionPriority,
    pub policy: ExecutionPolicy,
}

/// The entries kept after pushing `e` onto `entries` with bound `max`: the
/// oldest entry goes first when the history is full.
pub open spec fn pushed(entries: Seq<ExecutionHistoryEntry>, max: nat, e: ExecutionHistoryEntry) -> Seq<
    ExecutionHistoryEntry,
> {
    if entries.len() >= max {
        entries.drop_first().push(e)
    } else {
        entries.push(e)
    }
}

/// A history of executions bounded by `max_entries`.
#[derive(Debug)]
pub struct ExecutionHistory {
    entries: Vec<ExecutionHistoryEntry>,
    max_entries: usize,
}

impl ExecutionHistory {
    pub closed spec fn view_entries(&self) -> Seq<ExecutionHistoryEntry> {
        self.entries@
    }

    pub closed spec fn bound(&self) -> nat {
        self.max_entries as nat
    }

    pub fn new() -> (h: Self)
        ensures
            h.view_entries() == Seq::<ExecutionHistoryEntry>::empty(),
            h.bound() == 1000,
    {
        ExecutionHistory { entries: Vec::new(), max_entries: 1000 }
    }

    pub fn with_max_entries(self, max: usize) -> (h: Self)
        ensures
            h.view_entries() == self.view_entries(),
            h.bound() == max,
    {
        ExecutionHistory { entries: self.entries, max_entries: max }
    }

    /// Appends an entry, dropping the oldest one first when full.
    pub fn push(&mut self, entry: ExecutionHistoryEntry)
        requires
            old(self).view_entries().len() > 0 || old(self).bound() > 0,
        ensures
            final(self).view_entries() == pushed(old(self).view_entries(), old(self).bound(), entry),
            final(self).bound() == old(self).bound(),
    {
        if self.entries.len() >= self.max_entries {
            self.entries.remove(0);
        }
        self.entries.push(entry);
        proof {
            if old(self).entries@.len() >= old(self).max_entries {
                assert(self.entries@ =~= old(self).entries@.drop_first().push(entry));
            }
        }
    }

    pub fn entries(&self) -> (r: &[ExecutionHistoryEntry])
        ensures
            r@ == self.view_entries(),
    {
        self.entries.as_slice()
    }

    pub fn clear(&mut self)
        ensures
            final(self).view_entries() == Seq::<ExecutionHistoryEntry>::empty(),
            final(self).bound() == old(self).bound(),
    {
        self.entries.clear();
    }

    pub fn len(&self) -> (n: usize)
        ensures
            n == self.view_entries().len(),
    {
        self.entries.len()
    }

    pub fn is_empty(&self) -> (b: bool)
        ensures
            b == (self.view_entries().len() == 0),
    {
        self.entries.len() == 0
    }
}

impl Default for ExecutionHistory {
    fn default() -> (h: Self)
        ensures
            h.view_entries() == Seq::<ExecutionHistoryEntry>::empty(),
            h.bound() == 1000,
    {
        Self::new()
    }
}

/// Pushing keeps a history that was within its bound within it, and the
/// newest entry is the one pushed.
pub proof fn law_history_bounded(entries: Seq<ExecutionHistoryEntry>, max: nat, e: ExecutionHistoryEntry)
    requires
        max >= 1,
        entries.len() <= max,
    ensures
        pushed(entries, max, e).len() <= max,
        pushed(entries, max, e).last() == e,
        entries.len() < max ==> pushed(entries, max, e).drop_last() == entries,
{
    if entries.len() < max {
        assert(entries.push(e).drop_last() =~= entries);
    }
}

/// A counter one higher, wrapping to zero past the largest value.
pub open spec fn bump(x: u64) -> u64 {
    if x < u64::MAX { (x + 1) as u64 } else { 0 }
}

fn bump_exec(x: u64) -> (r: u64)
    ensures
        r == bump(x),
{
    if x < u64::MAX { x + 1 } else { 0 }
}

/// Counters of the executions a manager has seen.
#[derive(Debug, Default)]
pub struct ExecutionStatistics {
    pub submitted: u64,
    pub completed: u64,
    pub failed: u64,
    pub cancelled: u64,
    pub running: u64,
    pub queued: u64,
    pub average_duration_ms: u64,
    pub peak_concurrency: u64,
    pub total_retries: u64,
}

/// A copy of the counters at one moment.
#[derive(Debug, Clone, Copy, PartialEq, Eq, Structural)]
pub struct ExecutionStatisticsSnapshot {
    pub submitted: u64,
    pub completed: u64,
    pub failed: u64,
    pub cancelled: u64,
    pub running: u64,
    pub queued: u64,
    pub average_duration_ms: u64,
    pub peak_concurrency: u64,
    pub total_retries: u64,
}

impl ExecutionStatistics {
    pub fn new() -> (s: Self)
        ensures
            s.submitted == 0 && s.completed == 0 && s.failed == 0 && s.cancelled == 0 && s.running
                == 0 && s.queued == 0 && s.average_duration_ms == 0 && s.peak_concurrency == 0
                && s.total_retries == 0,
    {
        ExecutionStatistics {
            submitted: 0,
            completed: 0,
            failed: 0,
            cancelled: 0,
            running: 0,
            queued: 0,
            average_duration_ms: 0,
            peak_concurrency: 0,
            total_retries: 0,
        }
    }

    pub fn snapshot(&self) -> (r: ExecutionStatisticsSnapshot)
        ensures
            r.submitted == self.submitted && r.completed == self.completed && r.failed
                == self.failed && r.cancelled == self.cancelled && r.running == self.running
                && r.queued == self.queued && r.average_duration_ms == self.average_duration_ms
                && r.peak_concurrency == self.peak_concurrency && r.total_retries
                == self.total_retries,
    {
        ExecutionStatisticsSnapshot {
            submitted: self.submitted,
            completed: self.completed,
            failed: self.failed,
            cancelled: self.cancelled,
            running: self.running,
            queued: self.queued,
            average_duration_ms: self.average_duration_ms,
            peak_concurrency: self.peak_concurrency,
            total_retries: self.total_retries,
        }
    }

    pub fn record_submitted(&mut self)
        ensures
            *final(self) == (ExecutionStatistics { submitted: bump(old(self).submitted), ..*old(self) }),
    {
        self.submitted = bump_exec(self.submitted);
    }

    pub fn record_completed(&mut self)
        ensures
            *final(self) == (ExecutionStatistics { completed: bump(old(self).completed), ..*old(self) }),
    {
        self.completed = bump_exec(self.completed);
    }

    pub fn record_failed(&mut self)
        ensures
            *final(self) == (ExecutionStatistics { failed: bump(old(self).failed), ..*old(self) }),
    {
        self.failed = bump_exec(self.failed);
    }

    pub fn record_cancelled(&mut self)
        ensures
            *final(self) == (ExecutionStatistics { cancelled: bump(old(self).cancelled), ..*old(self) }),
    {
        self.cancelled = bump_exec(self.cancelled);
    }

    pub fn record_retry(&mut self)
        ensures
            *final(self) == (ExecutionStatistics { total_retries: bump(old(self).total_retries), ..*old(self) }),
    {
        self.total_retries = bump_exec(self.total_retries);
    }

    /// Raises the peak concurrency to `current` when it is higher.
    pub fn update_concurrency(&mut self, current: usize)
        ensures
            *final(self) == (ExecutionStatistics {
                peak_concurrency: if current > old(self).peak_concurrency { current as u64 } else { old(self).peak_concurrency },
                ..*old(self)
            }),
    {
        if current as u64 > self.peak_concurrency {
            self.peak_concurrency = current as u64;
        }
    }

    /// Folds a new duration into the running average: the first duration is
    /// taken as is, later ones are averaged with the current value.
    pub fn update_duration(&mut self, duration_ms: u64)
        requires
            old(self).average_duration_ms + duration_ms <= u64::MAX,
        ensures
            *final(self) == (ExecutionStatistics {
                average_duration_ms: if old(self).average_duration_ms == 0 {
                    duration_ms
                } else {
                    ((old(self).average_duration_ms + duration_ms) / 2) as u64
                },
                ..*old(self)
            }),
    {
        if self.average_duration_ms == 0 {
            self.average_duration_ms = duration_ms;
        } else {
            self.average_duration_ms = (self.average_duration_ms + duration_ms) / 2;
        }
    }
}

/// Limits of the execution queue.
#[derive(Debug, Clone, Copy)]
pub struct ExecutionQueueConfig {
    pub max_size: usize,
    pub max_concurrent: usize,
    pub enable_background_queue: bool,
    pub default_timeout_ms: u64,
}

impl Default for ExecutionQueueConfig {
    fn default() -> (c: Self)
        ensures
            c.max_size == 100,
            c.max_concurrent == 5,
            c.enable_background_queue,
            c.default_timeout_ms == 300_000,
    {
        ExecutionQueueConfig {
            max_size: 100,
            max_concurrent: 5,
            enable_background_queue: true,
            default_timeout_ms: 300_000,
        }
    }
}


/// What the queue needs to know of a submitted execution.
#[derive(Debug)]
pub struct QueuedRequest {
    pub id: String,
    pub priority: ExecutionPriority,
    pub policy: ExecutionPolicy,
}

/// The pending executions: one FIFO lane per priority above `Background`,
/// a background lane, the active set, and the exclusive holder if any.
#[derive(Debug)]
pub struct ExecutionQueue {
    immediate: Vec<QueuedRequest>,
    high: Vec<QueuedRequest>,
    normal: Vec<QueuedRequest>,
    low: Vec<QueuedRequest>,
    background: Vec<QueuedRequest>,
    active: Vec<QueuedRequest>,
    exclusive_holder: Option<String>,
}

pub open spec fn has_id(s: Seq<QueuedRequest>, id: Seq<char>) -> bool {
    exists|i: int| 0 <= i < s.len() && (#[trigger] s[i]).id@ == id
}

/// What taking the next request does to queue `pre`, leaving `post` and
/// returning `r`: nothing while the exclusive holder is still active;
/// otherwise the head of the most urgent non-empty lane (which becomes the
/// exclusive holder when its policy is exclusive), else the head of the
/// background lane.
pub open spec fn dequeued(pre: ExecutionQueue, post: ExecutionQueue, r: Option<QueuedRequest>) -> bool {
    &&& post.active_view() == pre.active_view()
    &&& (pre.holder() matches Some(h) && has_id(pre.active_view(), h)) ==> r is None && post == pre
    &&& !(pre.holder() matches Some(h) && has_id(pre.active_view(), h)) ==> {
        let k = pre.first_lane();
        if k < 4 {
            &&& r == Some(pre.lane(k)[0])
            &&& post.same_except_lane(&pre, k)
            &&& post.lane(k) == pre.lane(k).drop_first()
            &&& post.holder() == if pre.lane(k)[0].policy == ExecutionPolicy::Exclusive {
                Some(pre.lane(k)[0].id@)
            } else {
                None
            }
        } else if pre.background_view().len() > 0 {
            &&& r == Some(pre.background_view()[0])
            &&& post.background_view() == pre.background_view().drop_first()
            &&& forall|j: int| 0 <= j < 4 ==> post.lane(j) == pre.lane(j)
            &&& post.holder() is None
        } else {
            &&& r is None
            &&& post.same_except_lane(&pre, 4)
            &&& post.holder() is None
        }
    }
}

impl ExecutionQueue {
    /// The lane of priority rank `k` (0 = immediate .. 3 = low).
    pub closed spec fn lane(&self, k: int) -> Seq<QueuedRequest> {
        if k == 0 {
            self.immediate@
        } else if k == 1 {
            self.high@
        } else if k == 2 {
            self.normal@
        } else {
            self.low@
        }
    }

    pub closed spec fn background_view(&self) -> Seq<QueuedRequest> {
        self.background@
    }

    pub closed spec fn active_view(&self) -> Seq<QueuedRequest> {
        self.active@
    }

    pub closed spec fn holder(&self) -> Option<Seq<char>> {
        match self.exclusive_holder {
            Some(h) => Some(h@),
            None => None,
        }
    }

    pub open spec fn pending_count(&self) -> nat {
        self.lane(0).len() + self.lane(1).len() + self.lane(2).len() + self.lane(3).len()
            + self.background_view().len()
    }

    /// The first non-empty priority lane, or 4 when all are empty.
    pub open spec fn first_lane(&self) -> int {
        if self.lane(0).len() > 0 {
            0
        } else if self.lane(1).len() > 0 {
            1
        } else if self.lane(2).len() > 0 {
            2
        } else if self.lane(3).len() > 0 {
            3
        } else {
            4
        }
    }

    /// Each lane holds only requests of its priority, and the total fits in
    /// a machine word.
    pub open spec fn wf(&self) -> bool {
        &&& forall|k: int, i: int| 0 <= k < 4 && 0 <= i < self.lane(k).len()
            ==> priority_rank(#[trigger] self.lane(k)[i].priority) == k
        &&& forall|i: int| 0 <= i < self.background_view().len()
            ==> (#[trigger] self.background_view()[i]).priority == ExecutionPriority::Background
        &&& self.pending_count() + self.active_view().len() <= usize::MAX
    }

    /// Everything but the lane of rank `k` is as in `other`.
    pub open spec fn same_except_lane(&self, other: &Self, k: int) -> bool {
        &&& forall|j: int| 0 <= j < 4 && j != k ==> self.lane(j) == other.lane(j)
        &&& self.background_view() == other.background_view()
        &&& self.active_view() == other.active_view()
    }

    pub fn new() -> (q: Self)
        ensures
            q.wf(),
            forall|k: int| 0 <= k < 4 ==> q.lane(k) == Seq::<QueuedRequest>::empty(),
            q.background_view() == Seq::<QueuedRequest>::empty(),
            q.active_view() == Seq::<QueuedRequest>::empty(),
            q.holder() is None,
    {
        ExecutionQueue {
            immediate: Vec::new(),
            high: Vec::new(),
            normal: Vec::new(),
            low: Vec::new(),
            background: Vec::new(),
            active: Vec::new(),
            exclusive_holder: None,
        }
    }

    /// Number of queued (not yet started) executions.
    pub fn total_pending(&self) -> (n: usize)
        requires
            self.wf(),
        ensures
            n == self.pending_count(),
    {
        self.immediate.len() + self.high.len() + self.normal.len() + self.low.len()
            + self.background.len()
    }

    pub fn total_active(&self) -> (n: usize)
        ensures
            n == self.active_view().len(),
    {
        self.active.len()
    }

    /// The queue cannot take more executions, pending and active, than `max`.
    pub fn is_full(&self, max: usize) -> (b: bool)
        requires
            self.wf(),
        ensures
            b == (self.pending_count() + self.active_view().len() >= max),
    {
        self.total_pending() + self.total_active() >= max
    }

    /// Adds a request at the back of its priority's lane. Refused when the
    /// queue is full, or when an exclusive request arrives while others run.
    pub fn enqueue(&mut self, request: QueuedRequest, max_size: usize) -> (r: Result<(), String>)
        requires
            old(self).wf(),
        ensures
            final(self).wf(),
            final(self).holder() == old(self).holder(),
            old(self).pending_count() + old(self).active_view().len() >= max_size ==> r is Err
                && r->Err_0@ == "execution queue is full"@ && *final(self) == *old(self),
            old(self).pending_count() + old(self).active_view().len() < max_size && request.policy
                == ExecutionPolicy::Exclusive && old(self).active_view().len() > 0 ==> r is Err
                && r->Err_0@ == "cannot enqueue exclusive request while others are active"@
                && *final(self) == *old(self),
            old(self).pending_count() + old(self).active_view().len() < max_size && !(request.policy
                == ExecutionPolicy::Exclusive && old(self).active_view().len() > 0) ==> r is Ok && (
            if request.priority == ExecutionPriority::Background {
                final(self).background_view() == old(self).background_view().push(request)
                    && forall|k: int| 0 <= k < 4 ==> final(self).lane(k) == old(self).lane(k)
            } else {
                final(self).same_except_lane(old(self), priority_rank(request.priority) as int)
                    && final(self).lane(priority_rank(request.priority) as int) == old(self).lane(
                    priority_rank(request.priority) as int,
                ).push(request)
            }) && final(self).active_view() == old(self).active_view(),
    {
        if self.is_full(max_size) {
            return Err(String::from_str("execution queue is full"));
        }
        if request.policy == ExecutionPolicy::Exclusive && self.active.len() > 0 {
            return Err(String::from_str("cannot enqueue exclusive request while others are active"));
        }
        match request.priority {
            ExecutionPriority::Immediate => self.immediate.push(request),
            ExecutionPriority::High => self.high.push(request),
            ExecutionPriority::Normal => self.normal.push(request),
            ExecutionPriority::Low => self.low.push(request),
            ExecutionPriority::Background => self.background.push(request),
        }
        Ok(())
    }

    fn active_has(&self, id: &str) -> (b: bool)
        ensures
            b == has_id(self.active_view(), id@),
    {
        let mut i: usize = 0;
        while i < self.active.len()
            invariant
                i <= self.active@.len(),
                forall|j: int| 0 <= j < i ==> (#[trigger] self.active@[j]).id@ != id@,
            decreases self.active@.len() - i,
        {
            if str_eq(self.active[i].id.as_str(), id) {
                return true;
            }
            i = i + 1;
        }
        false
    }

    /// Takes the next request to start: none while the exclusive holder is
    /// still active; otherwise the head of the most urgent non-empty lane
    /// (which becomes the exclusive holder when its policy is exclusive),
    /// else the head of the background lane.
    pub fn dequeue(&mut self) -> (r: Option<QueuedRequest>)
        requires
            old(self).wf(),
        ensures
            final(self).wf(),
            final(self).active_view() == old(self).active_view(),
            (old(self).holder() matches Some(h) && has_id(old(self).active_view(), h)) ==> r is None
                && *final(self) == *old(self),
            !(old(self).holder() matches Some(h) && has_id(old(self).active_view(), h)) ==> {
                let k = old(self).first_lane();
                if k < 4 {
                    &&& r == Some(old(self).lane(k)[0])
                    &&& final(self).same_except_lane(old(self), k)
                    &&& final(self).lane(k) == old(self).lane(k).drop_first()
                    &&& final(self).holder() == if old(self).lane(k)[0].policy
                        == ExecutionPolicy::Exclusive {
                        Some(old(self).lane(k)[0].id@)
                    } else {
                        None
                    }
                } else if old(self).background_view().len() > 0 {
                    &&& r == Some(old(self).background_view()[0])
                    &&& final(self).background_view() == old(self).background_view().drop_first()
                    &&& forall|j: int| 0 <= j < 4 ==> final(self).lane(j) == old(self).lane(j)
                    &&& final(self).holder() is None
                } else {
                    &&& r is None
                    &&& final(self).same_except_lane(old(self), 4)
                    &&& final(self).holder() is None
                }
            },
    {
        let blocked = match &self.exclusive_holder {
            Some(h) => self.active_has(h.as_str()),
            None => false,
        };
        if blocked {
            return None;
        }
        self.exclusive_holder = None;
        let taken = if self.immediate.len() > 0 {
            Some(self.immediate.remove(0))
        } else if self.high.len() > 0 {
            Some(self.high.remove(0))
        } else if self.normal.len() > 0 {
            Some(self.normal.remove(0))
        } else if self.low.len() > 0 {
            Some(self.low.remove(0))
        } else {
            None
        };
        match taken {
            Some(entry) => {
                if entry.policy == ExecutionPolicy::Exclusive {
                    self.exclusive_holder = Some(entry.id.clone());
                }
                Some(entry)
            },
            None => {
                if self.background.len() > 0 {
                    Some(self.background.remove(0))
                } else {
                    None
                }
            },
        }
    }

    /// The request to start next when at most `max_concurrent` may run:
    /// none when that many are active, else what `dequeue` takes.
    pub fn next_to_start(&mut self, max_concurrent: usize) -> (r: Option<QueuedRequest>)
        requires
            old(self).wf(),
        ensures
            final(self).wf(),
            old(self).active_view().len() >= max_concurrent ==> r is None && *final(self) == *old(
                self,
            ),
            old(self).active_view().len() < max_concurrent ==> dequeued(*old(self), *final(self), r),
    {
        if self.total_active() >= max_concurrent {
            return None;
        }
        self.dequeue()
    }

    /// Removes the first request with this id: searched in the priority lanes
    /// from the most urgent, then the background lane, then the active set.
    pub fn remove(&mut self, id: &str) -> (r: Option<QueuedRequest>)
        requires
            old(self).wf(),
        ensures
            final(self).wf(),
            final(self).holder() == old(self).holder(),
            match r {
                Some(e) => e.id@ == id@,
                None => {
                    &&& *final(self) == *old(self)
                    &&& forall|k: int| 0 <= k < 4 ==> !has_id(#[trigger] old(self).lane(k), id@)
                    &&& !has_id(old(self).background_view(), id@)
                    &&& !has_id(old(self).active_view(), id@)
                },
            },
            r is Some ==> old(self).pending_count() + old(self).active_view().len()
                == final(self).pending_count() + final(self).active_view().len() + 1,
    {
        if let Some(i) = position_of(&self.immediate, id) {
            return Some(self.immediate.remove(i));
        }
        if let Some(i) = position_of(&self.high, id) {
            return Some(self.high.remove(i));
        }
        if let Some(i) = position_of(&self.normal, id) {
            return Some(self.normal.remove(i));
        }
        if let Some(i) = position_of(&self.low, id) {
            return Some(self.low.remove(i));
        }
        if let Some(i) = position_of(&self.background, id) {
            return Some(self.background.remove(i));
        }
        if let Some(i) = position_of(&self.active, id) {
            return Some(self.active.remove(i));
        }
        assert(forall|k: int| 0 <= k < 4 ==> !has_id(#[trigger] old(self).lane(k), id@));
        None
    }

    /// Forgets the exclusive holder (its execution has finished).
    pub fn release_exclusive(&mut self)
        requires
            old(self).wf(),
        ensures
            final(self).wf(),
            final(self).holder() is None,
            final(self).same_except_lane(old(self), 4),
    {
        self.exclusive_holder = None;
    }

    /// Drops everything pending and active.
    pub fn clear(&mut self)
        ensures
            final(self).wf(),
            final(self).pending_count() == 0,
            final(self).active_view().len() == 0,
            final(self).holder() is None,
    {
        self.immediate.clear();
        self.high.clear();
        self.normal.clear();
        self.low.clear();
        self.background.clear();
        self.active.clear();
        self.exclusive_holder = None;
    }
}

/// The first position of a request with this id.
fn position_of(v: &Vec<QueuedRequest>, id: &str) -> (r: Option<usize>)
    ensures
        match r {
            Some(i) => i < v@.len() && v@[i as int].id@ == id@ && forall|j: int| 0 <= j < i ==> (
            #[trigger] v@[j]).id@ != id@,
            None => !has_id(v@, id@),
        },
{
    let mut i: usize = 0;
    while i < v.len()
        invariant
            i <= v@.len(),
            forall|j: int| 0 <= j < i ==> (#[trigger] v@[j]).id@ != id@,
        decreases v@.len() - i,
    {
        if str_eq(v[i].id.as_str(), id) {
            return Some(i);
        }
        i = i + 1;
    }
    None
}

/// Requests of the same priority leave in the order they came: the request
/// taken is always the oldest of the most urgent non-empty lane.
pub proof fn law_dequeue_takes_most_urgent(q: ExecutionQueue, k: int)
    requires
        q.wf(),
        0 <= k < q.first_lane(),
        k < 4,
    ensures
        q.lane(k).len() == 0,
{
}

/// The outcome of one execution.
#[derive(Debug)]
pub struct ExecutionResult {
    pub request_id: String,
    pub goal_description: String,
    pub status: ExecutionStatus,
    pub report: Option<GoalExecutionReport>,
    pub error: Option<String>,
    pub started_at: i64,
    pub completed_at: Option<i64>,
    pub duration: std::time::Duration,
}

/// How running a request ended.
#[derive(Debug)]
pub enum RunOutcome {
    /// No plan could be made, for this reason.
    PlanningFailed(String),
    /// The plan ran and gave this report; the request may have been
    /// cancelled while it ran.
    Finished { report: GoalExecutionReport, cancelled: bool },
}

/// The status, error message and whether a report is kept, for an outcome.
pub open spec fn concluded_status(o: RunOutcome) -> ExecutionStatus {
    match o {
        RunOutcome::PlanningFailed(_) => ExecutionStatus::Failed,
        RunOutcome::Finished { report, cancelled } => if cancelled {
            ExecutionStatus::Cancelled
        } else if report.success {
            ExecutionStatus::Completed
        } else {
            ExecutionStatus::Failed
        },
    }
}

pub open spec fn concluded_error(o: RunOutcome) -> Option<Seq<char>> {
    match o {
        RunOutcome::PlanningFailed(e) => Some("planning failed: "@ + e@),
        RunOutcome::Finished { report, cancelled } => if cancelled {
            Some("cancelled by user"@)
        } else if report.success {
            None
        } else {
            match report.abort_reason {
                Some(r) => Some(r@),
                None => Some("execution failed"@),
            }
        },
    }
}

pub open spec fn opt_view(o: Option<String>) -> Option<Seq<char>> {
    match o {
        Some(s) => Some(s@),
        None => None,
    }
}

/// A counter one lower, wrapping past zero like an atomic one.
pub open spec fn wrapping_dec(x: u64) -> u64 {
    if x == 0 { u64::MAX } else { (x - 1) as u64 }
}

/// Concludes an execution that started at `start_time` and ended at `now`
/// after `duration` (`duration_ms` in milliseconds): its result, its history
/// entry, and the counters that take it in.
pub fn conclude_execution(
    stats: &mut ExecutionStatistics,
    request_id: &str,
    goal: &str,
    intent: Option<&str>,
    priority: ExecutionPriority,
    policy: ExecutionPolicy,
    start_time: i64,
    now: i64,
    duration: std::time::Duration,
    duration_ms: u64,
    outcome: RunOutcome,
) -> (r: (ExecutionResult, ExecutionHistoryEntry))
    requires
        old(stats).average_duration_ms + duration_ms <= u64::MAX,
    ensures
        r.0.request_id@ == request_id@,
        r.0.goal_description@ == goal@,
        r.0.status == concluded_status(outcome),
        opt_view(r.0.error) == concluded_error(outcome),
        r.0.started_at == start_time,
        r.0.completed_at == Some(now),
        r.0.duration == duration,
        match outcome {
            RunOutcome::PlanningFailed(_) => r.0.report is None,
            RunOutcome::Finished { report, .. } => r.0.report == Some(report),
        },
        r.1.execution_id@ == request_id@,
        r.1.goal_id@ == goal@,
        opt_view(r.1.intent) == match intent { Some(i) => Some(i@), None => None::<Seq<char>> },
        r.1.start_time == start_time,
        r.1.end_time == Some(now),
        r.1.duration == Some(duration),
        r.1.status == concluded_status(outcome),
        opt_view(r.1.failure_reason) == concluded_error(outcome),
        r.1.retry_count == 0,
        r.1.priority == priority,
        r.1.policy == policy,
        final(stats).running == wrapping_dec(old(stats).running),
        final(stats).submitted == old(stats).submitted,
        final(stats).total_retries == old(stats).total_retries,
        final(stats).completed == if concluded_status(outcome) == ExecutionStatus::Completed { bump(old(stats).completed) } else { old(stats).completed },
        final(stats).failed == if concluded_status(outcome) == ExecutionStatus::Failed { bump(old(stats).failed) } else { old(stats).failed },
        final(stats).cancelled == if concluded_status(outcome) == ExecutionStatus::Cancelled { bump(old(stats).cancelled) } else { old(stats).cancelled },
        final(stats).average_duration_ms == if concluded_status(outcome) == ExecutionStatus::Completed {
            if old(stats).average_duration_ms == 0 { duration_ms } else { ((old(stats).average_duration_ms + duration_ms) / 2) as u64 }
        } else {
            old(stats).average_duration_ms
        },
{
    let (status, error, report) = match outcome {
        RunOutcome::PlanningFailed(e) => {
            stats.record_failed();
            let mut m = String::new();
            push_str(&mut m, "planning failed: ");
            push_str(&mut m, e.as_str());
            (ExecutionStatus::Failed, Some(m), None)
        },
        RunOutcome::Finished { report, cancelled } => {
            if cancelled {
                stats.record_cancelled();
                proof {
                    reveal_strlit("cancelled by user");
                }
                (ExecutionStatus::Cancelled, Some(String::from_str("cancelled by user")), Some(report))
            } else if report.success {
                stats.record_completed();
                stats.update_duration(duration_ms);
                (ExecutionStatus::Completed, None, Some(report))
            } else {
                stats.record_failed();
                let err = match &report.abort_reason {
                    Some(a) => a.clone(),
                    None => {
                        proof {
                            reveal_strlit("execution failed");
                        }
                        String::from_str("execution failed")
                    },
                };
                (ExecutionStatus::Failed, Some(err), Some(report))
            }
        },
    };
    stats.running = stats.running.wrapping_sub(1);
    let reason = match &error {
        Some(e) => Some(e.clone()),
        None => None,
    };
    let entry = ExecutionHistoryEntry {
        execution_id: String::from_str(request_id),
        goal_id: String::from_str(goal),
        intent: match intent {
            Some(i) => Some(String::from_str(i)),
            None => None,
        },
        start_time,
        end_time: Some(now),
        duration: Some(duration),
        status,
        failure_reason: reason,
        retry_count: 0,
        priority,
        policy,
    };
    let result = ExecutionResult {
        request_id: String::from_str(request_id),
        goal_description: String::from_str(goal),
        status,
        report,
        error,
        started_at: start_time,
        completed_at: Some(now),
        duration,
    };
    (result, entry)
}

} // verus!
