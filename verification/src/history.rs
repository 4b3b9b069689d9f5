//! Execution status and the bounded store of past workflow runs.
use vstd::prelude::*;

verus! {

/// Where an execution stands.
#[derive(Debug, Clone, Copy, PartialEq, Eq, Structural)]
pub enum ExecutionStatus {
    Pending,
    Queued,
    Running,
    Waiting,
    Paused,
    Completed,
    Failed,
    Partial,
    Cancelled,
    TimedOut,
}

impl ExecutionStatus {
    pub open spec fn spec_is_terminal(self) -> bool {
        self is Completed || self is Failed || self is Cancelled || self is TimedOut
    }

    pub open spec fn spec_is_active(self) -> bool {
        self is Queued || self is Running || self is Waiting || self is Paused
    }

    pub fn is_terminal(&self) -> (r: bool)
        ensures
            r == self.spec_is_terminal(),
    {
        match self {
            ExecutionStatus::Completed | ExecutionStatus::Failed | ExecutionStatus::Cancelled
            | ExecutionStatus::TimedOut => true,
            _ => false,
        }
    }

    pub fn is_active(&self) -> (r: bool)
        ensures
            r == self.spec_is_active(),
    {
        match self {
            ExecutionStatus::Queued | ExecutionStatus::Running | ExecutionStatus::Waiting
            | ExecutionStatus::Paused => true,
            _ => false,
        }
    }
}

/// No status is both terminal and active.
pub proof fn law_terminal_not_active(s: ExecutionStatus)
    ensures
        !(s.spec_is_terminal() && s.spec_is_active()),
{
}

/// One finished (or running) workflow execution.
#[derive(Debug)]
pub struct ExecutionRecord {
    pub execution_id: String,
    pub workflow_id: String,
    pub workflow_name: String,
    pub status: ExecutionStatus,
    pub started_at: i64,
    pub duration_ms: i64,
    pub steps_succeeded: usize,
    pub steps_failed: usize,
    pub steps_total: usize,
    pub error: Option<String>,
}

/// The outcome of a workflow run from the numbers of its steps that
/// succeeded and failed.
pub open spec fn run_status(succeeded: nat, failed: nat) -> ExecutionStatus {
    if failed == 0 {
        ExecutionStatus::Completed
    } else if succeeded == 0 {
        ExecutionStatus::Failed
    } else {
        ExecutionStatus::Partial
    }
}

/// The status a workflow run ends with: completed when no step failed,
/// failed when none succeeded, partial otherwise.
pub fn run_status_of(succeeded: usize, failed: usize) -> (r: ExecutionStatus)
    ensures
        r == run_status(succeeded as nat, failed as nat),
{
    if failed == 0 {
        ExecutionStatus::Completed
    } else if succeeded == 0 {
        ExecutionStatus::Failed
    } else {
        ExecutionStatus::Partial
    }
}

/// The records kept, oldest first, when `max` records are kept at most and
/// `r` arrives.
pub open spec fn kept_after_store(records: Seq<ExecutionRecord>, max: nat, r: ExecutionRecord) -> Seq<ExecutionRecord> {
    if records.len() >= max && records.len() > 0 {
        records.drop_first().push(r)
    } else {
        records.push(r)
    }
}

/// Which records a query asks for.
pub enum RecordFilter {
    All,
    Workflow(Seq<char>),
    Status(ExecutionStatus),
}

pub open spec fn accepts(f: RecordFilter, r: ExecutionRecord) -> bool {
    match f {
        RecordFilter::All => true,
        RecordFilter::Workflow(w) => r.workflow_id@ == w,
        RecordFilter::Status(st) => r.status == st,
    }
}

/// The newest `limit` records that the filter accepts, newest first.
pub open spec fn newest_matching(records: Seq<ExecutionRecord>, f: RecordFilter, limit: nat) -> Seq<
    ExecutionRecord,
>
    decreases records.len(),
{
    if records.len() == 0 || limit == 0 {
        Seq::empty()
    } else if accepts(f, records.last()) {
        seq![records.last()] + newest_matching(records.drop_last(), f, (limit - 1) as nat)
    } else {
        newest_matching(records.drop_last(), f, limit)
    }
}

impl Clone for ExecutionRecord {
    fn clone(&self) -> (r: Self)
        ensures
            r == *self,
    {
        ExecutionRecord {
            execution_id: self.execution_id.clone(),
            workflow_id: self.workflow_id.clone(),
            workflow_name: self.workflow_name.clone(),
            status: self.status,
            started_at: self.started_at,
            duration_ms: self.duration_ms,
            steps_succeeded: self.steps_succeeded,
            steps_failed: self.steps_failed,
            steps_total: self.steps_total,
            error: match &self.error {
                Some(e) => Some(e.clone()),
                None => None,
            },
        }
    }
}

/// An in-memory history that keeps at most `max_entries` records, dropping
/// the oldest first.
pub struct InMemoryHistory {
    records: Vec<ExecutionRecord>,
    max_entries: usize,
}

impl InMemoryHistory {
    pub closed spec fn records(&self) -> Seq<ExecutionRecord> {
        self.records@
    }

    pub closed spec fn max(&self) -> nat {
        self.max_entries as nat
    }

    pub fn new() -> (h: Self)
        ensures
            h.records() == Seq::<ExecutionRecord>::empty(),
            h.max() == 500,
    {
        Self::with_max(500)
    }

    pub fn with_max(max_entries: usize) -> (h: Self)
        ensures
            h.records() == Seq::<ExecutionRecord>::empty(),
            h.max() == max_entries,
    {
        InMemoryHistory { records: Vec::new(), max_entries }
    }

    /// Stores a record, first dropping the oldest one when the store is full.
    pub fn store(&mut self, record: ExecutionRecord)
        ensures
            final(self).records() == kept_after_store(old(self).records(), old(self).max(), record),
            final(self).max() == old(self).max(),
    {
        if self.records.len() >= self.max_entries && self.records.len() > 0 {
            self.records.remove(0);
        }
        self.records.push(record);
        proof {
            if old(self).records@.len() >= old(self).max_entries && old(self).records@.len() > 0 {
                assert(self.records@ =~= old(self).records@.drop_first().push(record));
            }
        }
    }

    fn newest(&self, limit: usize, by_workflow: Option<&str>, by_status: Option<ExecutionStatus>) -> (r: Vec<
        ExecutionRecord,
    >)
        requires
            by_workflow is None || by_status is None,
        ensures
            r@ == newest_matching(
                self.records(),
                match (by_workflow, by_status) {
                    (Some(w), _) => RecordFilter::Workflow(w@),
                    (None, Some(st)) => RecordFilter::Status(st),
                    (None, None) => RecordFilter::All,
                },
                limit as nat,
            ),
    {
        let ghost f = match (by_workflow, by_status) {
            (Some(w), _) => RecordFilter::Workflow(w@),
            (None, Some(st)) => RecordFilter::Status(st),
            (None, None) => RecordFilter::All,
        };
        let mut out: Vec<ExecutionRecord> = Vec::new();
        let mut i = self.records.len();
        let mut left = limit;
        assert(self.records@.take(i as int) =~= self.records@);
        while i > 0 && left > 0
            invariant
                i <= self.records@.len(),
                left <= limit,
                by_workflow is None || by_status is None,
                f == match (by_workflow, by_status) {
                    (Some(w), _) => RecordFilter::Workflow(w@),
                    (None, Some(st)) => RecordFilter::Status(st),
                    (None, None) => RecordFilter::All,
                },
                newest_matching(self.records@, f, limit as nat) == out@ + newest_matching(
                    self.records@.take(i as int),
                    f,
                    left as nat,
                ),
            decreases i,
        {
            let ghost pre = self.records@.take(i as int);
            assert(pre.drop_last() =~= self.records@.take(i - 1));
            assert(pre.last() == self.records@[i - 1]);
            let rec = &self.records[i - 1];
            let wanted = match by_workflow {
                Some(w) => crate::text::str_eq(rec.workflow_id.as_str(), w),
                None => match by_status {
                    Some(st) => rec.status == st,
                    None => true,
                },
            };
            assert(wanted == accepts(f, pre.last()));
            if wanted {
                let c = rec.clone();
                out.push(c);
                assert(out@.drop_last() + (seq![pre.last()] + newest_matching(
                    pre.drop_last(),
                    f,
                    (left - 1) as nat,
                )) =~= out@ + newest_matching(self.records@.take(i - 1), f, (left - 1) as nat));
                left = left - 1;
            }
            i = i - 1;
        }
        assert(out@ + newest_matching(self.records@.take(i as int), f, left as nat) =~= out@);
        out
    }

    /// The newest `limit` records, newest first.
    pub fn recent(&self, limit: usize) -> (r: Vec<ExecutionRecord>)
        ensures
            r@ == newest_matching(self.records(), RecordFilter::All, limit as nat),
    {
        self.newest(limit, None, None)
    }

    /// The newest `limit` records of a workflow, newest first.
    pub fn by_workflow(&self, workflow_id: &str, limit: usize) -> (r: Vec<ExecutionRecord>)
        ensures
            r@ == newest_matching(self.records(), RecordFilter::Workflow(workflow_id@), limit as nat),
    {
        self.newest(limit, Some(workflow_id), None)
    }

    /// The newest `limit` records with a status, newest first.
    pub fn by_status(&self, status: &ExecutionStatus, limit: usize) -> (r: Vec<ExecutionRecord>)
        ensures
            r@ == newest_matching(self.records(), RecordFilter::Status(*status), limit as nat),
    {
        self.newest(limit, None, Some(*status))
    }

    pub fn clear(&mut self)
        ensures
            final(self).records() == Seq::<ExecutionRecord>::empty(),
            final(self).max() == old(self).max(),
    {
        self.records.clear();
    }

    pub fn count(&self) -> (n: usize)
        ensures
            n == self.records().len(),
    {
        self.records.len()
    }
}

/// A store never holds more records than its bound (once the bound is at
/// least one), and the newest record is always the one just stored.
pub proof fn law_store_bounded(records: Seq<ExecutionRecord>, max: nat, r: ExecutionRecord)
    requires
        max >= 1,
        records.len() <= max,
    ensures
        kept_after_store(records, max, r).len() <= max,
        kept_after_store(records, max, r).last() == r,
{
}

/// A store of execution records.
pub trait HistoryStore {
    fn store(&mut self, record: ExecutionRecord);
    fn recent(&self, limit: usize) -> Vec<ExecutionRecord>;
    fn by_workflow(&self, workflow_id: &str, limit: usize) -> Vec<ExecutionRecord>;
    fn by_status(&self, status: &ExecutionStatus, limit: usize) -> Vec<ExecutionRecord>;
    fn clear(&mut self);
    fn count(&self) -> usize;
}

impl HistoryStore for InMemoryHistory {
    fn store(&mut self, record: ExecutionRecord)
        ensures
            final(self).records() == kept_after_store(old(self).records(), old(self).max(), record),
            final(self).max() == old(self).max(),
    {
        InMemoryHistory::store(self, record)
    }

    fn recent(&self, limit: usize) -> (r: Vec<ExecutionRecord>)
        ensures
            r@ == newest_matching(self.records(), RecordFilter::All, limit as nat),
    {
        InMemoryHistory::recent(self, limit)
    }

    fn by_workflow(&self, workflow_id: &str, limit: usize) -> (r: Vec<ExecutionRecord>)
        ensures
            r@ == newest_matching(self.records(), RecordFilter::Workflow(workflow_id@), limit as nat),
    {
        InMemoryHistory::by_workflow(self, workflow_id, limit)
    }

    fn by_status(&self, status: &ExecutionStatus, limit: usize) -> (r: Vec<ExecutionRecord>)
        ensures
            r@ == newest_matching(self.records(), RecordFilter::Status(*status), limit as nat),
    {
        InMemoryHistory::by_status(self, status, limit)
    }

    fn clear(&mut self)
        ensures
            final(self).records().len() == 0,
            final(self).max() == old(self).max(),
    {
        InMemoryHistory::clear(self)
    }

    fn count(&self) -> (n: usize)
        ensures
            n == self.records().len(),
    {
        InMemoryHistory::count(self)
    }
}

} // verus!
