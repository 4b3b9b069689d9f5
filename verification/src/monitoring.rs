//! Runtime health, counters of sessions, errors and events, and durations
//! rendered for people.
use vstd::prelude::*;
use vstd::string::StringExecFns;
use crate::text::{decimal, push_decimal, push_str};

verus! {

/// Overall state of the runtime.
#[derive(Debug, Clone, Copy, PartialEq, Eq, Structural, Hash)]
pub enum RuntimeHealth {
    Healthy,
    Degraded,
    Busy,
    Recovering,
    Failed,
}

/// The word a health state is shown as.
pub open spec fn health_text(h: RuntimeHealth) -> Seq<char> {
    match h {
        RuntimeHealth::Healthy => "healthy"@,
        RuntimeHealth::Degraded => "degraded"@,
        RuntimeHealth::Busy => "busy"@,
        RuntimeHealth::Recovering => "recovering"@,
        RuntimeHealth::Failed => "failed"@,
    }
}

impl RuntimeHealth {
    /// The word this health state is shown as.
    pub fn display_text(&self) -> (r: String)
        ensures
            r@ == health_text(*self),
    {
        let mut s = String::new();
        match self {
            RuntimeHealth::Healthy => push_str(&mut s, "healthy"),
            RuntimeHealth::Degraded => push_str(&mut s, "degraded"),
            RuntimeHealth::Busy => push_str(&mut s, "busy"),
            RuntimeHealth::Recovering => push_str(&mut s, "recovering"),
            RuntimeHealth::Failed => push_str(&mut s, "failed"),
        }
        proof {
            assert(Seq::<char>::empty() + health_text(*self) =~= health_text(*self));
        }
        s
    }
}

/// The health ladder: many errors first, then load, then the failure ratios
/// of resource acquisition and of scheduler ticks.
pub open spec fn health_spec(active_sessions: usize, error_count: u64, resources_degraded: bool, scheduler_degraded: bool) -> RuntimeHealth {
    if error_count > 100 {
        RuntimeHealth::Failed
    } else if error_count > 50 {
        RuntimeHealth::Degraded
    } else if active_sessions > 20 {
        RuntimeHealth::Busy
    } else if resources_degraded || scheduler_degraded {
        RuntimeHealth::Degraded
    } else {
        RuntimeHealth::Healthy
    }
}

/// The runtime's health from its load and error count, and from whether
/// more than 30% of resource acquisitions and of scheduler ticks failed.
pub fn health_from(active_sessions: usize, error_count: u64, resources_degraded: bool, scheduler_degraded: bool) -> (h: RuntimeHealth)
    ensures
        h == health_spec(active_sessions, error_count, resources_degraded, scheduler_degraded),
{
    if error_count > 100 {
        RuntimeHealth::Failed
    } else if error_count > 50 {
        RuntimeHealth::Degraded
    } else if active_sessions > 20 {
        RuntimeHealth::Busy
    } else if resources_degraded || scheduler_degraded {
        RuntimeHealth::Degraded
    } else {
        RuntimeHealth::Healthy
    }
}

/// Events published, in total and per event type.
#[derive(Debug)]
pub struct EventCounts {
    pub total_events_published: u64,
    pub events_by_type: Vec<(String, u64)>,
}

impl Default for EventCounts {
    fn default() -> (c: Self)
        ensures
            c.total_events_published == 0,
            c.events_by_type@.len() == 0,
    {
        EventCounts { total_events_published: 0, events_by_type: Vec::new() }
    }
}

/// The whole seconds of a duration, as `Duration::as_secs` gives them.
pub uninterp spec fn duration_secs(d: std::time::Duration) -> u64;

/// Calls `Duration::as_secs`: the whole seconds of a duration, which depend
/// on the duration alone.
#[verifier::external_body]
fn whole_seconds(d: &std::time::Duration) -> (r: u64)
    ensures
        r == duration_secs(*d),
{
    d.as_secs()
}

/// The counts per event name.
pub open spec fn count_pairs(s: Seq<(String, u64)>) -> Seq<(Seq<char>, u64)> {
    s.map_values(|p: (String, u64)| (p.0@, p.1))
}

/// No event name occurs twice.
pub open spec fn names_unique(s: Seq<(String, u64)>) -> bool {
    forall|i: int, j: int| 0 <= i < j < s.len() ==> s[i].0@ != s[j].0@
}

/// Counts since the runtime started.
#[derive(Debug)]
pub struct RuntimeMonitor {
    started_at: std::time::Instant,
    total_sessions_created: u64,
    total_errors: u64,
    total_events_published: u64,
    event_type_counts: Vec<(String, u64)>,
}

/// The counts after one more event of this name.
pub open spec fn counted(s: Seq<(Seq<char>, u64)>, name: Seq<char>) -> Seq<(Seq<char>, u64)> {
    if exists|i: int| 0 <= i < s.len() && s[i].0 == name {
        let i = choose|i: int| 0 <= i < s.len() && s[i].0 == name;
        s.update(i, (name, (s[i].1 + 1) as u64))
    } else {
        s.push((name, 1u64))
    }
}

/// The wrapping successor of a counter.
pub open spec fn wrapping_inc(x: u64) -> u64 {
    if x == u64::MAX {
        0
    } else {
        (x + 1) as u64
    }
}

impl RuntimeMonitor {
    pub closed spec fn sessions_v(&self) -> u64 {
        self.total_sessions_created
    }

    pub closed spec fn errors_v(&self) -> u64 {
        self.total_errors
    }

    pub closed spec fn events_v(&self) -> u64 {
        self.total_events_published
    }

    pub closed spec fn counts_v(&self) -> Seq<(Seq<char>, u64)> {
        count_pairs(self.event_type_counts@)
    }

    /// Each event name is counted once.
    #[verifier::type_invariant]
    pub closed spec fn wf(&self) -> bool {
        names_unique(self.event_type_counts@)
    }

    /// The per-name counts add up to the event total; so it stays while the
    /// total has not wrapped.
    pub open spec fn counts_add_up(&self) -> bool {
        count_sum(self.counts_v()) == self.events_v()
    }

    /// Every per-name count can take one more.
    pub open spec fn counts_have_room(&self) -> bool {
        forall|i: int| 0 <= i < self.counts_v().len() ==> #[trigger] self.counts_v()[i].1 < u64::MAX
    }

    /// A monitor with every count at zero, started now.
    pub fn new() -> (m: Self)
        ensures
            m.wf(),
            m.counts_add_up(),
            m.sessions_v() == 0,
            m.errors_v() == 0,
            m.events_v() == 0,
            m.counts_v().len() == 0,
    {
        RuntimeMonitor {
            started_at: crate::clock::instant_now(),
            total_sessions_created: 0,
            total_errors: 0,
            total_events_published: 0,
            event_type_counts: Vec::new(),
        }
    }

    /// Counts a created session; the counter wraps like an atomic one.
    pub fn record_session_created(&mut self)
        ensures
            final(self).sessions_v() == wrapping_inc(old(self).sessions_v()),
            final(self).errors_v() == old(self).errors_v(),
            final(self).events_v() == old(self).events_v(),
            final(self).counts_v() == old(self).counts_v(),
            final(self).wf() == old(self).wf(),
    {
        proof {
            use_type_invariant(&*self);
        }
        self.total_sessions_created = self.total_sessions_created.wrapping_add(1);
    }

    /// Counts an error; the counter wraps like an atomic one.
    pub fn record_error(&mut self)
        ensures
            final(self).errors_v() == wrapping_inc(old(self).errors_v()),
            final(self).sessions_v() == old(self).sessions_v(),
            final(self).events_v() == old(self).events_v(),
            final(self).counts_v() == old(self).counts_v(),
            final(self).wf() == old(self).wf(),
    {
        proof {
            use_type_invariant(&*self);
        }
        self.total_errors = self.total_errors.wrapping_add(1);
    }

    /// Counts a published event under its type name.
    pub fn record_event(&mut self, variant_name: &str)
        requires
            old(self).counts_have_room(),
        ensures
            final(self).wf(),
            final(self).events_v() == wrapping_inc(old(self).events_v()),
            final(self).sessions_v() == old(self).sessions_v(),
            final(self).errors_v() == old(self).errors_v(),
            final(self).counts_v() == counted(old(self).counts_v(), variant_name@),
            old(self).counts_add_up() && old(self).events_v() < u64::MAX ==> final(self).counts_add_up(),
    {
        proof {
            use_type_invariant(&*self);
            if old(self).counts_add_up() && old(self).events_v() < u64::MAX {
                assert forall|k: int| 0 <= k < old(self).counts_v().len() implies #[trigger] old(self).counts_v()[k].1 < u64::MAX by {}
                law_event_counts_sum_to_total(old(self).counts_v(), old(self).events_v(), variant_name@);
            }
        }
        self.total_events_published = self.total_events_published.wrapping_add(1);
        let mut counts: Vec<(String, u64)> = Vec::new();
        std::mem::swap(&mut counts, &mut self.event_type_counts);
        proof {
            assert forall|k: int| 0 <= k < count_pairs(counts@).len() implies #[trigger] count_pairs(counts@)[k].1 < u64::MAX by {
                assert(old(self).counts_v()[k].1 < u64::MAX);
            }
        }
        count_event(&mut counts, variant_name);
        self.event_type_counts = counts;
    }
}

/// Counts one more event named `name` among `counts`: its entry goes up by
/// one, or a new entry with one is added at the end.
fn count_event(counts: &mut Vec<(String, u64)>, name: &str)
    requires
        names_unique(old(counts)@),
        forall|k: int| 0 <= k < count_pairs(old(counts)@).len() ==> #[trigger] count_pairs(old(counts)@)[k].1 < u64::MAX,
    ensures
        names_unique(final(counts)@),
        count_pairs(final(counts)@) == counted(count_pairs(old(counts)@), name@),
{
    let ghost c0 = count_pairs(counts@);
    let n = counts.len();
    let mut i: usize = 0;
    while i < n
        invariant
            n == counts@.len(),
            i <= n,
            c0 == count_pairs(counts@),
            c0 == count_pairs(old(counts)@),
            names_unique(counts@),
            forall|k: int| 0 <= k < c0.len() ==> #[trigger] c0[k].1 < u64::MAX,
            forall|q: int| 0 <= q < i ==> counts@[q].0@ != name@,
        decreases n - i,
    {
        if crate::text::str_eq(counts[i].0.as_str(), name) {
            let (nm, c) = counts.remove(i);
            assert(c0[i as int].1 == c);
            counts.insert(i, (nm, c + 1));
            proof {
                let k = choose|k: int| 0 <= k < c0.len() && c0[k].0 == name@;
                assert(c0[k].0 == counts@[k].0@) by {
                    if k != i {
                    }
                }
                assert(k == i);
                assert(count_pairs(counts@) =~= counted(c0, name@));
                assert forall|a: int, b: int| 0 <= a < b < counts@.len() implies counts@[a].0@ != counts@[b].0@ by {
                    assert(c0[a].0 == counts@[a].0@);
                    assert(c0[b].0 == counts@[b].0@);
                }
            }
            return;
        }
        i = i + 1;
    }
    counts.push((String::from_str(name), 1));
    proof {
        assert(!(exists|k: int| 0 <= k < c0.len() && c0[k].0 == name@));
        assert(count_pairs(counts@) =~= counted(c0, name@));
        assert forall|a: int, b: int| 0 <= a < b < counts@.len() implies counts@[a].0@ != counts@[b].0@ by {
            if b == n {
                assert(c0[a].0 == counts@[a].0@);
            }
        }
    }
}

impl RuntimeMonitor {
    /// The time since the monitor was made.
    pub fn uptime(&self) -> std::time::Duration {
        crate::clock::elapsed_since(&self.started_at)
    }

    pub fn total_sessions_created(&self) -> (n: u64)
        ensures
            n == self.sessions_v(),
    {
        self.total_sessions_created
    }

    pub fn total_errors(&self) -> (n: u64)
        ensures
            n == self.errors_v(),
    {
        self.total_errors
    }

    pub fn total_events_published(&self) -> (n: u64)
        ensures
            n == self.events_v(),
    {
        self.total_events_published
    }

    /// The event total, and the count per event name, the most frequent
    /// first; names with equal counts keep the order they were first seen in.
    pub fn event_counts(&self) -> (c: EventCounts)
        ensures
            c.total_events_published == self.events_v(),
            names_distinct(count_pairs(c.events_by_type@)),
            count_sum(count_pairs(c.events_by_type@)) == count_sum(self.counts_v()),
            self.counts_add_up() ==> count_sum(count_pairs(c.events_by_type@)) == c.total_events_published,
            count_pairs(c.events_by_type@).to_multiset() == self.counts_v().to_multiset(),
            forall|i: int, j: int| 0 <= i < j < c.events_by_type@.len()
                ==> c.events_by_type@[i].1 >= c.events_by_type@[j].1,
    {
        proof {
            use_type_invariant(self);
        }
        let mut out: Vec<(String, u64)> = Vec::new();
        let n = self.event_type_counts.len();
        let ghost src = count_pairs(self.event_type_counts@);
        let mut i: usize = 0;
        proof {
            assert(count_pairs(out@) =~= src.take(0));
        }
        while i < n
            invariant
                n == self.event_type_counts@.len(),
                src == count_pairs(self.event_type_counts@),
                i <= n,
                count_pairs(out@).to_multiset() == src.take(i as int).to_multiset(),
                forall|a: int, b: int| 0 <= a < b < out@.len() ==> out@[a].1 >= out@[b].1,
            decreases n - i,
        {
            let name = self.event_type_counts[i].0.clone();
            let c = self.event_type_counts[i].1;
            let m = out.len();
            let mut p = m;
            while p > 0
                invariant
                    p <= m,
                    m == out@.len(),
                    forall|q: int| p <= q < m ==> out@[q].1 < c,
                ensures
                    p <= m,
                    forall|q: int| p <= q < m ==> out@[q].1 < c,
                    p == 0 || out@[p - 1].1 >= c,
                decreases p,
            {
                if out[p - 1].1 >= c {
                    break;
                }
                p = p - 1;
            }
            let ghost before = out@;
            out.insert(p, (name, c));
            proof {
                assert(out@ == before.insert(p as int, (name, c)));
                assert(count_pairs(out@) =~= count_pairs(before).insert(p as int, (name@, c)));
                vstd::seq_lib::to_multiset_insert(count_pairs(before), p as int, (name@, c));
                assert(src.take(i + 1) =~= src.take(i as int).push((name@, c)));
                vstd::seq_lib::to_multiset_build(src.take(i as int), (name@, c));
                assert forall|a: int, b: int| 0 <= a < b < out@.len() implies out@[a].1 >= out@[b].1 by {
                    if b < p {
                        assert(out@[a] == before[a] && out@[b] == before[b]);
                    } else if b == p {
                        assert(out@[a] == before[a]);
                        if a < p - 1 {
                            assert(before[a].1 >= before[p - 1].1);
                        }
                    } else if a < p {
                        assert(out@[a] == before[a] && out@[b] == before[b - 1]);
                    } else if a == p {
                        assert(out@[b] == before[b - 1]);
                    } else {
                        assert(out@[a] == before[a - 1] && out@[b] == before[b - 1]);
                    }
                }
            }
            i = i + 1;
        }
        proof {
            assert(src.take(n as int) =~= src);
            assert forall|a: int, b: int| 0 <= a < b < src.len() implies #[trigger] src[a].0 != #[trigger] src[b].0 by {
                assert(self.event_type_counts@[a].0@ != self.event_type_counts@[b].0@);
            }
            lemma_names_distinct_permutation(count_pairs(out@), src);
            lemma_count_sum_permutation(count_pairs(out@), src);
        }
        EventCounts { total_events_published: self.total_events_published, events_by_type: out }
    }
}

impl Default for RuntimeMonitor {
    fn default() -> (m: Self)
        ensures
            m.wf(),
            m.sessions_v() == 0,
            m.errors_v() == 0,
            m.events_v() == 0,
            m.counts_v().len() == 0,
            m.counts_add_up(),
    {
        RuntimeMonitor::new()
    }
}

/// How a number of seconds is shown: `Ns`, `Nm Ns` from a minute on, and
/// `Nh Nm Ns` from an hour on.
pub open spec fn duration_text(secs: u64) -> Seq<char> {
    if secs < 60 {
        decimal(secs as nat) + "s"@
    } else if secs < 3600 {
        decimal((secs / 60) as nat) + "m "@ + decimal((secs % 60) as nat) + "s"@
    } else {
        decimal((secs / 3600) as nat) + "h "@ + decimal(((secs % 3600) / 60) as nat) + "m "@
            + decimal((secs % 60) as nat) + "s"@
    }
}

/// No name occurs twice among the counts.
pub open spec fn names_distinct(s: Seq<(Seq<char>, u64)>) -> bool {
    forall|i: int, j: int| 0 <= i < j < s.len() ==> #[trigger] s[i].0 != #[trigger] s[j].0
}

/// Reordering the counts keeps their names distinct.
proof fn lemma_names_distinct_permutation(a: Seq<(Seq<char>, u64)>, b: Seq<(Seq<char>, u64)>)
    requires
        a.to_multiset() == b.to_multiset(),
        names_distinct(b),
    ensures
        names_distinct(a),
{
    broadcast use vstd::multiset::group_multiset_axioms;
    assert forall|i: int, j: int| 0 <= i < j < a.len() implies #[trigger] a[i].0 != #[trigger] a[j].0 by {
        if a[i].0 == a[j].0 {
            vstd::seq_lib::to_multiset_contains(a, a[i]);
            assert(a.contains(a[i]));
            vstd::seq_lib::to_multiset_contains(b, a[i]);
            let p = choose|p: int| 0 <= p < b.len() && b[p] == a[i];
            vstd::seq_lib::to_multiset_remove(a, i);
            vstd::seq_lib::to_multiset_remove(b, p);
            assert(a.remove(i).to_multiset() =~= b.remove(p).to_multiset());
            assert(a.remove(i)[j - 1] == a[j]);
            assert(a.remove(i).contains(a[j]));
            vstd::seq_lib::to_multiset_contains(a.remove(i), a[j]);
            vstd::seq_lib::to_multiset_contains(b.remove(p), a[j]);
            let q0 = choose|q: int| 0 <= q < b.remove(p).len() && b.remove(p)[q] == a[j];
            let q = if q0 < p { q0 } else { q0 + 1 };
            assert(b[q] == a[j]);
            if p < q {
                assert(b[p].0 != b[q].0);
            } else {
                assert(b[q].0 != b[p].0);
            }
        }
    }
}

/// The sum of the per-name counts.
pub open spec fn count_sum(s: Seq<(Seq<char>, u64)>) -> int
    decreases s.len(),
{
    if s.len() == 0 {
        0
    } else {
        count_sum(s.drop_last()) + s.last().1
    }
}

proof fn lemma_count_sum_update(s: Seq<(Seq<char>, u64)>, i: int, v: (Seq<char>, u64))
    requires
        0 <= i < s.len(),
    ensures
        count_sum(s.update(i, v)) == count_sum(s) - s[i].1 + v.1,
    decreases s.len(),
{
    if i < s.len() - 1 {
        assert(s.update(i, v).drop_last() =~= s.drop_last().update(i, v));
        lemma_count_sum_update(s.drop_last(), i, v);
    } else {
        assert(s.update(i, v).drop_last() =~= s.drop_last());
    }
}

proof fn lemma_count_sum_remove(s: Seq<(Seq<char>, u64)>, i: int)
    requires
        0 <= i < s.len(),
    ensures
        count_sum(s) == count_sum(s.remove(i)) + s[i].1,
    decreases s.len(),
{
    if i < s.len() - 1 {
        assert(s.remove(i).drop_last() =~= s.drop_last().remove(i));
        assert(s.remove(i).last() == s.last());
        lemma_count_sum_remove(s.drop_last(), i);
    } else {
        assert(s.remove(i) =~= s.drop_last());
    }
}

/// Reordering the counts does not change their sum.
proof fn lemma_count_sum_permutation(a: Seq<(Seq<char>, u64)>, b: Seq<(Seq<char>, u64)>)
    requires
        a.to_multiset() == b.to_multiset(),
    ensures
        count_sum(a) == count_sum(b),
    decreases a.len(),
{
    broadcast use vstd::multiset::group_multiset_axioms;
    if a.len() == 0 {
        vstd::seq_lib::to_multiset_len(a);
        vstd::seq_lib::to_multiset_len(b);
    } else {
        let x = a.last();
        let a0 = a.drop_last();
        assert(a0.push(x) =~= a);
        vstd::seq_lib::to_multiset_build(a0, x);
        assert(a.to_multiset().count(x) > 0);
        vstd::seq_lib::to_multiset_contains(b, x);
        let j = choose|j: int| 0 <= j < b.len() && b[j] == x;
        vstd::seq_lib::to_multiset_remove(b, j);
        assert(b.remove(j).to_multiset() =~= a0.to_multiset());
        lemma_count_sum_permutation(a0, b.remove(j));
        lemma_count_sum_remove(b, j);
    }
}

/// Every published event is counted under its name: while the event total
/// has not wrapped, counting one more event keeps the per-name counts adding
/// up to the total.
pub proof fn law_event_counts_sum_to_total(counts: Seq<(Seq<char>, u64)>, total: u64, name: Seq<char>)
    requires
        count_sum(counts) == total,
        total < u64::MAX,
        forall|i: int| 0 <= i < counts.len() ==> #[trigger] counts[i].1 < u64::MAX,
    ensures
        count_sum(counted(counts, name)) == wrapping_inc(total),
{
    assert forall|i: int| 0 <= i < counts.len() && counts[i].0 == name implies
        #[trigger] count_sum(counts.update(i, (name, (counts[i].1 + 1) as u64))) == total + 1 by {
        lemma_count_sum_update(counts, i, (name, (counts[i].1 + 1) as u64));
    }
    assert(counts.push((name, 1u64)).drop_last() =~= counts);
}

/// A snapshot of the counts, in whatever order, adds up as the counts do;
/// so a snapshot's per-name counts add up to its event total whenever the
/// monitor's do.
pub proof fn law_snapshot_keeps_sum(snapshot: Seq<(Seq<char>, u64)>, counts: Seq<(Seq<char>, u64)>)
    requires
        snapshot.to_multiset() == counts.to_multiset(),
    ensures
        count_sum(snapshot) == count_sum(counts),
{
    lemma_count_sum_permutation(snapshot, counts);
}

/// A number of seconds as `Ns`, `Nm Ns` or `Nh Nm Ns`.
pub fn format_secs(secs: u64) -> (r: String)
    ensures
        r@ == duration_text(secs),
{
    let mut s = String::new();
    if secs < 60 {
        push_decimal(&mut s, secs);
        push_str(&mut s, "s");
    } else if secs < 3600 {
        push_decimal(&mut s, secs / 60);
        push_str(&mut s, "m ");
        push_decimal(&mut s, secs % 60);
        push_str(&mut s, "s");
    } else {
        push_decimal(&mut s, secs / 3600);
        push_str(&mut s, "h ");
        push_decimal(&mut s, (secs % 3600) / 60);
        push_str(&mut s, "m ");
        push_decimal(&mut s, secs % 60);
        push_str(&mut s, "s");
    }
    proof {
        assert(Seq::<char>::empty() + duration_text(secs) =~= s@);
    }
    s
}

/// A duration's whole seconds as `Ns`, `Nm Ns` or `Nh Nm Ns`.
pub fn format_duration(d: &std::time::Duration) -> (r: String)
    ensures
        r@ == duration_text(duration_secs(*d)),
{
    let secs = whole_seconds(d);
    format_secs(secs)
}

} // verus!
