//! Background job bookkeeping: the priority queue of waiting jobs and the
//! scheduler's table of job snapshots.
//!
//! The queue is FIFO with two priorities: `High` entries go to the front,
//! `Normal` entries to the back, and the worker always takes the front.
//! The scheduler remembers a snapshot of every queued, running and recently
//! finished job; after each finish it keeps at most
//! [`MAX_FINISHED_JOBS`] finished ones.

use std::collections::VecDeque;
use vstd::prelude::*;
use crate::order::{lemma_text_lt_trans, lemma_text_trichotomy, sort_by_text, stable_by_text, text_less, text_lt};
use crate::text::text_eq;

verus! {

/// How many finished jobs the scheduler remembers.
pub const MAX_FINISHED_JOBS: usize = 20;

/// Scheduling priority for a queued job.
#[derive(Debug, Clone, Copy, PartialEq, Eq, Structural)]
pub enum Priority {
    /// Runs before all `Normal` jobs.
    High,
    /// Appended to the back of the queue.
    Normal,
}

/// A job waiting in the queue with its id.
pub struct QueueEntry<J> {
    pub id: String,
    pub priority: Priority,
    pub job: J,
    pub queued_at: String,
}

/// The queue of jobs waiting for the worker; the front runs next.
pub struct JobQueue<J> {
    inner: VecDeque<QueueEntry<J>>,
}

/// The ids of a sequence of queue entries.
pub open spec fn entry_ids<J>(entries: Seq<QueueEntry<J>>) -> Seq<Seq<char>> {
    entries.map_values(|e: QueueEntry<J>| e.id@)
}

/// Position of the first entry with id `id`, or the length when none has it.
pub open spec fn first_with_id(ids: Seq<Seq<char>>, id: Seq<char>) -> int
    decreases ids.len(),
{
    if ids.len() == 0 {
        0
    } else if ids[0] == id {
        0
    } else {
        1 + first_with_id(ids.drop_first(), id)
    }
}

pub proof fn lemma_first_with_id(ids: Seq<Seq<char>>, id: Seq<char>, k: int)
    requires
        0 <= k <= ids.len(),
        forall|i: int| 0 <= i < k ==> #[trigger] ids[i] != id,
        k < ids.len() ==> ids[k] == id,
    ensures
        first_with_id(ids, id) == k,
    decreases ids.len(),
{
    if k > 0 {
        assert(ids[0] != id);
        lemma_first_with_id(ids.drop_first(), id, k - 1);
    }
}

impl<J> JobQueue<J> {
    /// The entries, front first.
    pub closed spec fn entries(&self) -> Seq<QueueEntry<J>> {
        self.inner@
    }

    /// The queued ids, front first.
    pub open spec fn ids(&self) -> Seq<Seq<char>> {
        entry_ids(self.entries())
    }

    /// An empty queue.
    pub fn new() -> (q: Self)
        ensures
            q.entries() == Seq::<QueueEntry<J>>::empty(),
    {
        JobQueue { inner: VecDeque::new() }
    }

    /// Enqueue a job: high priority at the front, normal at the back.
    pub fn push(&mut self, entry: QueueEntry<J>)
        ensures
            entry.priority == Priority::High ==> final(self).entries() == seq![entry] + old(self).entries(),
            entry.priority == Priority::Normal ==> final(self).entries() == old(self).entries().push(entry),
    {
        match entry.priority {
            Priority::High => self.inner.push_front(entry),
            Priority::Normal => self.inner.push_back(entry),
        }
    }

    /// Dequeue the next job to run (the front).
    pub fn pop(&mut self) -> (r: Option<QueueEntry<J>>)
        ensures
            old(self).entries().len() == 0 ==> r is None && final(self).entries() == old(self).entries(),
            old(self).entries().len() > 0 ==> r == Some(old(self).entries()[0])
                && final(self).entries() == old(self).entries().drop_first(),
    {
        let r = self.inner.pop_front();
        proof {
            if old(self).entries().len() > 0 {
                assert(old(self).entries().subrange(1, old(self).entries().len() as int) =~= old(self).entries().drop_first());
            }
        }
        r
    }

    /// Number of jobs waiting.
    pub fn len(&self) -> (n: usize)
        ensures
            n == self.entries().len(),
    {
        self.inner.len()
    }

    /// Whether no job is waiting.
    pub fn is_empty(&self) -> (b: bool)
        ensures
            b == (self.entries().len() == 0),
    {
        self.inner.len() == 0
    }

    /// Remove the first queued (not yet started) job with id `id`; true when
    /// one was found.
    pub fn cancel(&mut self, id: &str) -> (found: bool)
        ensures
            found == old(self).ids().contains(id@),
            found ==> final(self).entries() == old(self).entries().remove(first_with_id(old(self).ids(), id@)),
            !found ==> final(self).entries() == old(self).entries(),
    {
        let ghost ids = self.ids();
        let mut i: usize = 0;
        while i < self.inner.len()
            invariant
                i <= self.inner@.len(),
                ids == entry_ids(self.inner@),
                self.inner@ == old(self).inner@,
                forall|j: int| 0 <= j < i ==> #[trigger] ids[j] != id@,
            decreases self.inner@.len() - i,
        {
            if text_eq(self.inner[i].id.as_str(), id) {
                proof {
                    lemma_first_with_id(ids, id@, i as int);
                    assert(ids[i as int] == id@);
                }
                let _removed = self.inner.remove(i);
                return true;
            }
            i = i + 1;
        }
        proof {
            assert forall|j: int| 0 <= j < ids.len() implies ids[j] != id@ by {}
        }
        false
    }

    /// Ids of all queued entries in order.
    pub fn queued_ids(&self) -> (r: Vec<String>)
        ensures
            r@.map_values(|s: String| s@) == self.ids(),
    {
        let mut r: Vec<String> = Vec::new();
        let mut i: usize = 0;
        while i < self.inner.len()
            invariant
                i <= self.inner@.len(),
                r@.len() == i,
                forall|j: int| 0 <= j < i ==> #[trigger] r@[j]@ == self.inner@[j].id@,
            decreases self.inner@.len() - i,
        {
            r.push(self.inner[i].id.clone());
            i = i + 1;
        }
        assert(r@.map_values(|s: String| s@) =~= self.ids());
        r
    }
}

/// Lifecycle state of a background job.
#[derive(Debug)]
pub enum JobStatus {
    /// Waiting in the queue.
    Queued,
    /// Running; progress in thousandths (0–1000).
    Running { progress_permille: u32 },
    /// Completed successfully.
    Done,
    /// Terminal failure with a message.
    Failed { reason: String },
    /// Cancelled before it was picked up.
    Cancelled,
}

/// No further transitions are possible from `s`.
pub open spec fn status_is_terminal(s: JobStatus) -> bool {
    match s {
        JobStatus::Done | JobStatus::Failed { .. } | JobStatus::Cancelled => true,
        _ => false,
    }
}

impl JobStatus {
    /// Returns true if no further state transitions are possible.
    pub fn is_terminal(&self) -> (b: bool)
        ensures
            b == status_is_terminal(*self),
    {
        match self {
            JobStatus::Done | JobStatus::Failed { .. } | JobStatus::Cancelled => true,
            _ => false,
        }
    }

    /// An identical copy.
    pub fn duplicate(&self) -> (r: JobStatus)
        ensures
            r == *self,
    {
        match self {
            JobStatus::Queued => JobStatus::Queued,
            JobStatus::Running { progress_permille } => JobStatus::Running { progress_permille: *progress_permille },
            JobStatus::Done => JobStatus::Done,
            JobStatus::Failed { reason } => JobStatus::Failed { reason: reason.clone() },
            JobStatus::Cancelled => JobStatus::Cancelled,
        }
    }
}

pub fn dup_opt_string(s: &Option<String>) -> (r: Option<String>)
    ensures
        r == *s,
{
    match s {
        Some(t) => Some(t.clone()),
        None => None,
    }
}

/// Snapshot of a queued, active or finished job.
#[derive(Debug)]
pub struct JobInfo {
    pub id: String,
    pub name: String,
    pub status: JobStatus,
    pub queued_at: String,
    pub started_at: Option<String>,
    pub finished_at: Option<String>,
}

impl JobInfo {
    /// An identical copy.
    pub fn duplicate(&self) -> (r: JobInfo)
        ensures
            r == *self,
    {
        JobInfo {
            id: self.id.clone(),
            name: self.name.clone(),
            status: self.status.duplicate(),
            queued_at: self.queued_at.clone(),
            started_at: dup_opt_string(&self.started_at),
            finished_at: dup_opt_string(&self.finished_at),
        }
    }
}

/// The ids of a sequence of job snapshots.
pub open spec fn info_ids(recs: Seq<JobInfo>) -> Seq<Seq<char>> {
    recs.map_values(|j: JobInfo| j.id@)
}

/// The enqueue timestamps of a sequence of job snapshots.
pub open spec fn queued_keys(recs: Seq<JobInfo>) -> Seq<Seq<char>> {
    recs.map_values(|j: JobInfo| j.queued_at@)
}

/// No id occurs twice.
pub open spec fn distinct_ids(recs: Seq<JobInfo>) -> bool {
    forall|i: int, j: int| 0 <= i < j < recs.len() ==> recs[i].id@ != recs[j].id@
}

/// Position of the snapshot for `id`, or the length when there is none.
pub open spec fn record_pos(recs: Seq<JobInfo>, id: Seq<char>) -> int {
    first_with_id(info_ids(recs), id)
}

/// The snapshot of job `id`, if any.
pub open spec fn record_of(recs: Seq<JobInfo>, id: Seq<char>) -> Option<JobInfo> {
    let p = record_pos(recs, id);
    if p < recs.len() { Some(recs[p]) } else { None }
}

/// `recs` with the snapshot for `info.id` replaced by `info`, or `info`
/// appended when the id is new (a map insert).
pub open spec fn upserted(recs: Seq<JobInfo>, info: JobInfo) -> Seq<JobInfo> {
    let p = record_pos(recs, info.id@);
    if p < recs.len() { recs.update(p, info) } else { recs.push(info) }
}

/// Number of finished (terminal) snapshots.
pub open spec fn terminal_count(recs: Seq<JobInfo>) -> nat
    decreases recs.len(),
{
    if recs.len() == 0 {
        0
    } else {
        terminal_count(recs.drop_last()) + if status_is_terminal(recs.last().status) { 1nat } else { 0nat }
    }
}

/// A snapshot that may be pruned to make room: finished, and not the job
/// that has just finished.
pub open spec fn prunable(j: JobInfo, keep: Seq<char>) -> bool {
    status_is_terminal(j.status) && j.id@ != keep
}

/// When a snapshot finished, as text (none counts as earliest).
pub open spec fn finish_key(j: JobInfo) -> Seq<char> {
    match j.finished_at {
        Some(f) => f@,
        None => Seq::empty(),
    }
}

/// The position of the prunable snapshot that finished earliest (the first
/// of equal ones), if there is one.
pub open spec fn oldest_pos(recs: Seq<JobInfo>, keep: Seq<char>) -> Option<int>
    decreases recs.len(),
{
    if recs.len() == 0 {
        None
    } else {
        let p = oldest_pos(recs.drop_last(), keep);
        let x = recs.last();
        if prunable(x, keep) && match p {
            Some(q) => text_lt(finish_key(x), finish_key(recs[q])),
            None => true,
        } {
            Some(recs.len() - 1)
        } else {
            p
        }
    }
}

/// `recs` after removing, `k` times, the prunable snapshot that finished
/// earliest.
pub open spec fn prune_oldest(recs: Seq<JobInfo>, keep: Seq<char>, k: nat) -> Seq<JobInfo>
    decreases k,
{
    if k == 0 {
        recs
    } else {
        match oldest_pos(recs, keep) {
            Some(p) => prune_oldest(recs.remove(p), keep, (k - 1) as nat),
            None => recs,
        }
    }
}

/// How many finished snapshots a finish prunes from `recs`.
pub open spec fn prune_excess(recs: Seq<JobInfo>) -> nat {
    if terminal_count(recs) > MAX_FINISHED_JOBS { (terminal_count(recs) - MAX_FINISHED_JOBS) as nat } else { 0 }
}

proof fn lemma_record_pos(recs: Seq<JobInfo>, id: Seq<char>)
    ensures
        0 <= record_pos(recs, id) <= recs.len(),
        forall|i: int| 0 <= i < record_pos(recs, id) ==> (#[trigger] recs[i]).id@ != id,
        record_pos(recs, id) < recs.len() ==> recs[record_pos(recs, id)].id@ == id,
    decreases recs.len(),
{
    let ids = info_ids(recs);
    if recs.len() > 0 && recs[0].id@ != id {
        lemma_record_pos(recs.drop_first(), id);
        assert(info_ids(recs.drop_first()) =~= ids.drop_first());
        assert forall|i: int| 0 <= i < record_pos(recs, id) implies (#[trigger] recs[i]).id@ != id by {
            if i > 0 {
                assert(recs[i] == recs.drop_first()[i - 1]);
            }
        }
        if record_pos(recs, id) < recs.len() {
            assert(recs[record_pos(recs, id)] == recs.drop_first()[record_pos(recs, id) - 1]);
        }
    }
}

/// With unique ids, the snapshot at `i` is the one looked up by its id.
proof fn lemma_record_at(recs: Seq<JobInfo>, i: int)
    requires
        distinct_ids(recs),
        0 <= i < recs.len(),
    ensures
        record_of(recs, recs[i].id@) == Some(recs[i]),
{
    let ids = info_ids(recs);
    assert forall|j: int| 0 <= j < i implies #[trigger] ids[j] != recs[i].id@ by {
        assert(ids[j] == recs[j].id@);
    }
    lemma_first_with_id(ids, recs[i].id@, i);
}

/// An id no snapshot has is looked up as `None`.
proof fn lemma_record_absent(recs: Seq<JobInfo>, x: Seq<char>)
    requires
        forall|i: int| 0 <= i < recs.len() ==> (#[trigger] recs[i]).id@ != x,
    ensures
        record_of(recs, x) is None,
{
    let ids = info_ids(recs);
    assert forall|j: int| 0 <= j < recs.len() implies #[trigger] ids[j] != x by {
        assert(ids[j] == recs[j].id@);
    }
    lemma_first_with_id(ids, x, recs.len() as int);
}

/// Removing one snapshot keeps ids unique and every other job's snapshot.
proof fn lemma_remove_keeps(recs: Seq<JobInfo>, p: int)
    requires
        distinct_ids(recs),
        0 <= p < recs.len(),
    ensures
        distinct_ids(recs.remove(p)),
        forall|x: Seq<char>| x != recs[p].id@ ==> #[trigger] record_of(recs.remove(p), x) == record_of(recs, x),
{
    let r = recs.remove(p);
    assert forall|i: int| 0 <= i < r.len() implies #[trigger] r[i] == recs[if i < p { i } else { i + 1 }] by {}
    assert forall|a: int, b: int| 0 <= a < b < r.len() implies r[a].id@ != r[b].id@ by {
        assert(r[a] == recs[if a < p { a } else { a + 1 }]);
        assert(r[b] == recs[if b < p { b } else { b + 1 }]);
    }
    assert forall|x: Seq<char>| x != recs[p].id@ implies #[trigger] record_of(r, x) == record_of(recs, x) by {
        if exists|i: int| 0 <= i < recs.len() && recs[i].id@ == x {
            let i = choose|i: int| 0 <= i < recs.len() && recs[i].id@ == x;
            let j = if i < p { i } else { i - 1 };
            assert(r[j] == recs[i]);
            lemma_record_at(recs, i);
            lemma_record_at(r, j);
        } else {
            lemma_record_absent(recs, x);
            assert forall|j: int| 0 <= j < r.len() implies (#[trigger] r[j]).id@ != x by {
                assert(r[j] == recs[if j < p { j } else { j + 1 }]);
            }
            lemma_record_absent(r, x);
        }
    }
}

proof fn lemma_terminal_count_remove(recs: Seq<JobInfo>, p: int)
    requires
        0 <= p < recs.len(),
    ensures
        terminal_count(recs.remove(p)) + (if status_is_terminal(recs[p].status) { 1int } else { 0int }) == terminal_count(recs),
    decreases recs.len(),
{
    if p == recs.len() - 1 {
        assert(recs.remove(p) =~= recs.drop_last());
    } else {
        lemma_terminal_count_remove(recs.drop_last(), p);
        assert(recs.remove(p).drop_last() =~= recs.drop_last().remove(p));
        assert(recs.remove(p).last() == recs.last());
    }
}

proof fn lemma_remove_filter(recs: Seq<JobInfo>, p: int, f: spec_fn(JobInfo) -> bool)
    requires
        0 <= p < recs.len(),
        !f(recs[p]),
    ensures
        recs.remove(p).filter(f) == recs.filter(f),
{
    let a = recs.take(p);
    let b = recs.skip(p + 1);
    let one = seq![recs[p]];
    assert(recs =~= a + (one + b));
    assert(recs.remove(p) =~= a + b);
    Seq::filter_distributes_over_add(a, one + b, f);
    Seq::filter_distributes_over_add(one, b, f);
    Seq::filter_distributes_over_add(a, b, f);
    reveal(Seq::filter);
    assert(one.drop_last() =~= Seq::<JobInfo>::empty());
    assert(Seq::<JobInfo>::empty().filter(f) =~= Seq::<JobInfo>::empty());
    assert(one.last() == recs[p]);
    assert(one.filter(f) == one.drop_last().filter(f));
    assert(one.filter(f) =~= Seq::<JobInfo>::empty());
    assert(Seq::<JobInfo>::empty() + b.filter(f) =~= b.filter(f));
}

proof fn lemma_oldest_pos(recs: Seq<JobInfo>, keep: Seq<char>)
    ensures
        oldest_pos(recs, keep) matches Some(p) ==> 0 <= p < recs.len() && prunable(recs[p], keep),
        oldest_pos(recs, keep) is None ==> forall|i: int| 0 <= i < recs.len() ==> !prunable(#[trigger] recs[i], keep),
        oldest_pos(recs, keep) matches Some(p) ==> forall|i: int| 0 <= i < recs.len() && prunable(#[trigger] recs[i], keep)
            ==> !text_lt(finish_key(recs[i]), finish_key(recs[p])),
    decreases recs.len(),
{
    if recs.len() > 0 {
        let d = recs.drop_last();
        lemma_oldest_pos(d, keep);
        let n = recs.len() - 1;
        let x = recs.last();
        assert forall|i: int| 0 <= i < d.len() implies #[trigger] d[i] == recs[i] by {}
        match oldest_pos(d, keep) {
            Some(q) => {
                assert(d[q] == recs[q]);
                if prunable(x, keep) && text_lt(finish_key(x), finish_key(recs[q])) {
                    assert forall|i: int| 0 <= i < recs.len() && prunable(#[trigger] recs[i], keep) implies !text_lt(
                        finish_key(recs[i]),
                        finish_key(recs[n]),
                    ) by {
                        if i < n {
                            assert(d[i] == recs[i]);
                            if text_lt(finish_key(recs[i]), finish_key(recs[n])) {
                                lemma_text_lt_trans(finish_key(recs[i]), finish_key(recs[n]), finish_key(recs[q]));
                            }
                        } else {
                            lemma_text_trichotomy(finish_key(recs[n]), finish_key(recs[n]));
                        }
                    }
                } else {
                    assert forall|i: int| 0 <= i < recs.len() && prunable(#[trigger] recs[i], keep) implies !text_lt(
                        finish_key(recs[i]),
                        finish_key(recs[q]),
                    ) by {
                        if i < n {
                            assert(d[i] == recs[i]);
                        }
                    }
                }
            },
            None => {
                if prunable(x, keep) {
                    assert forall|i: int| 0 <= i < recs.len() && prunable(#[trigger] recs[i], keep) implies !text_lt(
                        finish_key(recs[i]),
                        finish_key(recs[n]),
                    ) by {
                        if i < n {
                            assert(d[i] == recs[i]);
                        } else {
                            lemma_text_trichotomy(finish_key(recs[n]), finish_key(recs[n]));
                        }
                    }
                } else {
                    assert forall|i: int| 0 <= i < recs.len() implies !prunable(#[trigger] recs[i], keep) by {
                        if i < n {
                            assert(d[i] == recs[i]);
                        }
                    }
                }
            },
        }
    }
}

proof fn lemma_no_terminal(recs: Seq<JobInfo>)
    requires
        forall|i: int| 0 <= i < recs.len() ==> !status_is_terminal((#[trigger] recs[i]).status),
    ensures
        terminal_count(recs) == 0,
    decreases recs.len(),
{
    if recs.len() > 0 {
        let d = recs.drop_last();
        assert forall|i: int| 0 <= i < d.len() implies !status_is_terminal((#[trigger] d[i]).status) by {
            assert(d[i] == recs[i]);
        }
        lemma_no_terminal(d);
    }
}

/// With nothing prunable and unique ids, at most the kept job is finished.
proof fn lemma_only_keep_terminal(recs: Seq<JobInfo>, keep: Seq<char>)
    requires
        distinct_ids(recs),
        forall|i: int| 0 <= i < recs.len() ==> !prunable(#[trigger] recs[i], keep),
    ensures
        terminal_count(recs) <= 1,
    decreases recs.len(),
{
    if recs.len() > 0 {
        let d = recs.drop_last();
        let n = recs.len() - 1;
        assert forall|i: int| 0 <= i < d.len() implies #[trigger] d[i] == recs[i] by {}
        assert forall|a: int, b: int| 0 <= a < b < d.len() implies d[a].id@ != d[b].id@ by {
            assert(d[a] == recs[a] && d[b] == recs[b]);
        }
        assert forall|i: int| 0 <= i < d.len() implies !prunable(#[trigger] d[i], keep) by {
            assert(d[i] == recs[i]);
        }
        lemma_only_keep_terminal(d, keep);
        if status_is_terminal(recs[n].status) {
            assert(!prunable(recs[n], keep));
            assert forall|i: int| 0 <= i < d.len() implies !status_is_terminal((#[trigger] d[i]).status) by {
                assert(d[i] == recs[i]);
                assert(!prunable(recs[i], keep));
                assert(recs[i].id@ != recs[n].id@);
            }
            lemma_no_terminal(d);
        }
    }
}

/// Pruning removes only finished snapshots of jobs other than the one just
/// finished, each time the one that finished earliest: ids stay unique, the
/// unfinished snapshots stay in order, the job just finished and every
/// unfinished job keep their snapshots, and while more finished snapshots
/// remain than steps each step removes exactly one.
pub proof fn lemma_prune_oldest(recs: Seq<JobInfo>, keep: Seq<char>, k: nat)
    requires
        distinct_ids(recs),
    ensures
        distinct_ids(prune_oldest(recs, keep, k)),
        prune_oldest(recs, keep, k).filter(|j: JobInfo| !status_is_terminal(j.status)) == recs.filter(
            |j: JobInfo| !status_is_terminal(j.status),
        ),
        record_of(prune_oldest(recs, keep, k), keep) == record_of(recs, keep),
        forall|x: Seq<char>|
            record_of(recs, x) is Some && !status_is_terminal(record_of(recs, x).unwrap().status) ==> #[trigger] record_of(
                prune_oldest(recs, keep, k),
                x,
            ) == record_of(recs, x),
        terminal_count(recs) >= k + 1 ==> terminal_count(prune_oldest(recs, keep, k)) == terminal_count(recs) - k,
    decreases k,
{
    if k > 0 {
        lemma_oldest_pos(recs, keep);
        match oldest_pos(recs, keep) {
            Some(p) => {
                let r = recs.remove(p);
                lemma_remove_keeps(recs, p);
                lemma_terminal_count_remove(recs, p);
                lemma_remove_filter(recs, p, |j: JobInfo| !status_is_terminal(j.status));
                lemma_record_at(recs, p);
                lemma_prune_oldest(r, keep, (k - 1) as nat);
            },
            None => {
                if terminal_count(recs) >= k + 1 {
                    lemma_only_keep_terminal(recs, keep);
                }
            },
        }
    }
}

/// A job's snapshot can be looked up right after it is recorded, and other
/// jobs' snapshots are unchanged.
pub proof fn lemma_recorded_then_visible(recs: Seq<JobInfo>, info: JobInfo, other: Seq<char>)
    requires
        distinct_ids(recs),
    ensures
        record_of(upserted(recs, info), info.id@) == Some(info),
        other != info.id@ ==> record_of(upserted(recs, info), other) == record_of(recs, other),
        distinct_ids(upserted(recs, info)),
{
    let p = record_pos(recs, info.id@);
    lemma_record_pos(recs, info.id@);
    let u = upserted(recs, info);
    lemma_record_pos(u, info.id@);
    lemma_record_pos(u, other);
    lemma_record_pos(recs, other);
    if p < recs.len() {
        assert(u[p] == info);
        assert forall|i: int| 0 <= i < p implies (#[trigger] u[i]).id@ != info.id@ by {
            assert(u[i] == recs[i]);
        }
        lemma_first_with_id(info_ids(u), info.id@, p);
        assert forall|a: int, b: int| 0 <= a < b < u.len() implies u[a].id@ != u[b].id@ by {
            if a != p && b != p {
                assert(u[a] == recs[a] && u[b] == recs[b]);
            } else if a == p {
                assert(u[b] == recs[b]);
                assert(recs[a].id@ == info.id@);
            } else {
                assert(u[a] == recs[a]);
                assert(recs[b].id@ == info.id@);
            }
        }
        if other != info.id@ {
            let q = record_pos(recs, other);
            assert forall|i: int| 0 <= i < q implies (#[trigger] u[i]).id@ != other by {
                if i != p { assert(u[i] == recs[i]); }
            }
            if q < recs.len() {
                assert(q != p);
                assert(u[q] == recs[q]);
            }
            lemma_first_with_id(info_ids(u), other, q);
        }
    } else {
        assert forall|i: int| 0 <= i < recs.len() implies (#[trigger] u[i]).id@ != info.id@ by {
            assert(u[i] == recs[i]);
        }
        lemma_first_with_id(info_ids(u), info.id@, recs.len() as int);
        assert forall|a: int, b: int| 0 <= a < b < u.len() implies u[a].id@ != u[b].id@ by {
            if b < recs.len() {
                assert(u[a] == recs[a] && u[b] == recs[b]);
            } else {
                assert(u[a] == recs[a]);
            }
        }
        if other != info.id@ {
            let q = record_pos(recs, other);
            assert forall|i: int| 0 <= i < q implies (#[trigger] u[i]).id@ != other by {
                if i < recs.len() { assert(u[i] == recs[i]); }
            }
            if q < recs.len() {
                assert(u[q] == recs[q]);
                lemma_first_with_id(info_ids(u), other, q);
            } else {
                assert(u[recs.len() as int].id@ != other);
                lemma_first_with_id(info_ids(u), other, recs.len() as int + 1);
            }
        }
    }
}

/// Exactly the waiting and the running jobs can still change: done, failed
/// and cancelled jobs are finished.
pub proof fn lemma_terminal_statuses(s: JobStatus)
    ensures
        status_is_terminal(s) <==> !(s is Queued || s is Running),
        s is Cancelled ==> status_is_terminal(s),
        s is Done ==> status_is_terminal(s),
        s is Failed ==> status_is_terminal(s),
{
}

/// The jobs that are not finished, in record order (what
/// `list_active_jobs` reports).
pub open spec fn active_jobs(recs: Seq<JobInfo>) -> Seq<JobInfo> {
    recs.filter(|j: JobInfo| !status_is_terminal(j.status))
}

/// The active jobs are the queued and running ones: each listed job is
/// queued or running, and every queued or running job is listed.
pub proof fn lemma_active_jobs_unfinished(recs: Seq<JobInfo>)
    ensures
        forall|k: int|
            0 <= k < active_jobs(recs).len() ==> (#[trigger] active_jobs(recs)[k]).status is Queued
                || active_jobs(recs)[k].status is Running,
        forall|i: int|
            0 <= i < recs.len() && (recs[i].status is Queued || recs[i].status is Running) ==> #[trigger] active_jobs(
                recs,
            ).contains(recs[i]),
{
    let f = |j: JobInfo| !status_is_terminal(j.status);
    assert(active_jobs(recs) == recs.filter(f));
    assert forall|k: int| 0 <= k < active_jobs(recs).len() implies (#[trigger] active_jobs(recs)[k]).status is Queued
        || active_jobs(recs)[k].status is Running by {
        recs.lemma_filter_pred(f, k);
    }
    assert forall|i: int|
        0 <= i < recs.len() && (recs[i].status is Queued || recs[i].status is Running) implies #[trigger] active_jobs(
            recs,
        ).contains(recs[i]) by {
        recs.lemma_filter_contains(f, i);
    }
}

/// Once a job is cancelled it is no longer active: after its snapshot is set
/// to `Cancelled` (what a successful `cancel_job` does), no job with its id
/// is among the active jobs.
pub proof fn lemma_cancelled_not_active(recs: Seq<JobInfo>, id: Seq<char>)
    requires
        distinct_ids(recs),
        record_of(recs, id) is Some,
    ensures
        ({
            let after = recs.update(
                record_pos(recs, id),
                JobInfo { status: JobStatus::Cancelled, ..record_of(recs, id).unwrap() },
            );
            forall|k: int| 0 <= k < active_jobs(after).len() ==> (#[trigger] active_jobs(after)[k]).id@ != id
        }),
{
    let p = record_pos(recs, id);
    lemma_record_pos(recs, id);
    let info = record_of(recs, id).unwrap();
    let after = recs.update(p, JobInfo { status: JobStatus::Cancelled, ..info });
    let f = |j: JobInfo| !status_is_terminal(j.status);
    assert(active_jobs(after) == after.filter(f));
    assert forall|k: int| 0 <= k < active_jobs(after).len() implies (#[trigger] active_jobs(after)[k]).id@ != id by {
        let x = after.filter(f)[k];
        after.lemma_filter_pred(f, k);
        assert(after.filter(f).contains(x));
        after.lemma_filter_contains_rev(f, x);
        let m = choose|m: int| 0 <= m < after.len() && after[m] == x;
        if m == p {
            assert(x.status is Cancelled);
        } else {
            assert(after[m] == recs[m]);
            if m < p {
                assert(recs[m].id@ != id);
            } else {
                assert(recs[p].id@ == id);
                assert(recs[p].id@ != recs[m].id@);
            }
        }
    }
}

/// Queued ids are unique, and each has a snapshot that says `Queued`.
pub open spec fn queue_consistent(qids: Seq<Seq<char>>, recs: Seq<JobInfo>) -> bool {
    &&& forall|i: int, j: int| 0 <= i < j < qids.len() ==> qids[i] != qids[j]
    &&& forall|i: int|
        0 <= i < qids.len() ==> (#[trigger] record_of(recs, qids[i])) is Some && record_of(recs, qids[i]).unwrap().status is Queued
}

/// The scheduler's mutable state: the waiting queue and the snapshot table
/// (what the worker and the job commands read and update under one lock).
pub struct SchedulerState<J> {
    queue: JobQueue<J>,
    records: Vec<JobInfo>,
}

impl<J> SchedulerState<J> {
    /// The job snapshots, oldest first.
    pub closed spec fn records(&self) -> Seq<JobInfo> {
        self.records@
    }

    /// The waiting entries, front first.
    pub closed spec fn queue_entries(&self) -> Seq<QueueEntry<J>> {
        self.queue.entries()
    }

    /// The waiting ids, front first.
    pub open spec fn queue_ids(&self) -> Seq<Seq<char>> {
        entry_ids(self.queue_entries())
    }

    /// Snapshot ids are unique, queued ids are unique, and every queued
    /// job has a snapshot that says `Queued`.
    pub open spec fn wf(&self) -> bool {
        &&& distinct_ids(self.records())
        &&& queue_consistent(self.queue_ids(), self.records())
    }

    /// An empty scheduler.
    pub fn new() -> (s: Self)
        ensures
            s.wf(),
            s.records() == Seq::<JobInfo>::empty(),
            s.queue_entries() == Seq::<QueueEntry<J>>::empty(),
    {
        SchedulerState { queue: JobQueue::new(), records: Vec::new() }
    }

    fn find(&self, id: &str) -> (p: usize)
        ensures
            p == record_pos(self.records(), id@),
    {
        proof {
            lemma_record_pos(self.records(), id@);
        }
        let mut i: usize = 0;
        while i < self.records.len()
            invariant
                i <= self.records@.len(),
                forall|j: int| 0 <= j < i ==> (#[trigger] self.records@[j]).id@ != id@,
            decreases self.records@.len() - i,
        {
            if text_eq(self.records[i].id.as_str(), id) {
                proof {
                    lemma_first_with_id(info_ids(self.records@), id@, i as int);
                }
                return i;
            }
            i = i + 1;
        }
        proof {
            lemma_first_with_id(info_ids(self.records@), id@, i as int);
        }
        i
    }

    /// Record `info` as the snapshot of its job (replacing an older one).
    fn upsert(&mut self, info: JobInfo)
        requires
            distinct_ids(old(self).records()),
        ensures
            distinct_ids(final(self).records()),
            final(self).records() == upserted(old(self).records(), info),
            final(self).queue_entries() == old(self).queue_entries(),
            record_of(final(self).records(), info.id@) == Some(info),
            forall|x: Seq<char>| x != info.id@ ==> #[trigger] record_of(final(self).records(), x) == record_of(old(self).records(), x),
    {
        proof {
            assert forall|x: Seq<char>| x != info.id@ implies #[trigger] record_of(upserted(self.records@, info), x) == record_of(self.records@, x) by {
                lemma_recorded_then_visible(self.records@, info, x);
            }
        }
        proof {
            lemma_recorded_then_visible(self.records@, info, info.id@);
        }
        let p = self.find(info.id.as_str());
        if p < self.records.len() {
            self.records.set(p, info);
        } else {
            self.records.push(info);
        }
    }

    /// Enqueue a job under a fresh id (one no snapshot has) and record it as
    /// `Queued` so it is visible immediately. Returns the id.
    pub fn enqueue_with_priority(&mut self, job: J, name: String, id: String, queued_at: String, priority: Priority) -> (r: String)
        requires
            old(self).wf(),
            record_of(old(self).records(), id@) is None,
        ensures
            r@ == id@,
            final(self).wf(),
            final(self).records() == upserted(old(self).records(), JobInfo {
                id, name, status: JobStatus::Queued, queued_at, started_at: None, finished_at: None,
            }),
            priority == Priority::High ==> final(self).queue_ids() == seq![id@] + old(self).queue_ids(),
            priority == Priority::Normal ==> final(self).queue_ids() == old(self).queue_ids().push(id@),
    {
        let info = JobInfo {
            id: id.clone(),
            name,
            status: JobStatus::Queued,
            queued_at: queued_at.clone(),
            started_at: None,
            finished_at: None,
        };
        self.upsert(info);
        let r = id.clone();
        let entry = QueueEntry { id, priority, job, queued_at };
        self.queue.push(entry);
        proof {
            let o = old(self).queue_entries();
            let oq = entry_ids(o);
            let recs = self.records@;
            assert forall|i: int| 0 <= i < oq.len() implies #[trigger] oq[i] != r@ by {
                assert(record_of(old(self).records(), oq[i]) is Some);
            }
            if priority == Priority::High {
                assert(entry_ids(seq![entry] + o) =~= seq![r@] + oq);
            } else {
                assert(entry_ids(o.push(entry)) =~= oq.push(r@));
            }
            let nq = self.queue_ids();
            assert forall|i: int| 0 <= i < nq.len() implies (#[trigger] record_of(recs, nq[i])) is Some && record_of(
                recs,
                nq[i],
            ).unwrap().status is Queued by {
                if nq[i] != r@ {
                    let k = if priority == Priority::High { i - 1 } else { i };
                    assert(nq[i] == oq[k]);
                    assert(record_of(old(self).records(), oq[k]) is Some);
                }
            }
            assert forall|i: int, j: int| 0 <= i < j < nq.len() implies nq[i] != nq[j] by {
                if priority == Priority::High {
                    if i > 0 {
                        assert(nq[i] == oq[i - 1] && nq[j] == oq[j - 1]);
                    } else {
                        assert(nq[j] == oq[j - 1]);
                    }
                } else {
                    if j < oq.len() {
                        assert(nq[i] == oq[i] && nq[j] == oq[j]);
                    } else {
                        assert(nq[i] == oq[i]);
                    }
                }
            }
        }
        r
    }

    /// Enqueue a job with `Normal` priority under a fresh id. Returns the id.
    pub fn enqueue(&mut self, job: J, name: String, id: String, queued_at: String) -> (r: String)
        requires
            old(self).wf(),
            record_of(old(self).records(), id@) is None,
        ensures
            r@ == id@,
            final(self).wf(),
            final(self).records() == upserted(old(self).records(), JobInfo {
                id, name, status: JobStatus::Queued, queued_at, started_at: None, finished_at: None,
            }),
            final(self).queue_ids() == old(self).queue_ids().push(id@),
    {
        self.enqueue_with_priority(job, name, id, queued_at, Priority::Normal)
    }

    /// The snapshot of job `id`, or `None` if unknown.
    pub fn get_job_status(&self, id: &str) -> (r: Option<JobInfo>)
        ensures
            r == record_of(self.records(), id@),
    {
        let p = self.find(id);
        if p < self.records.len() {
            Some(self.records[p].duplicate())
        } else {
            None
        }
    }

    /// All queued or running jobs, oldest first.
    pub fn list_active_jobs(&self) -> (r: Vec<JobInfo>)
        ensures
            r@ == self.records().filter(|j: JobInfo| !status_is_terminal(j.status)),
            r@ == active_jobs(self.records()),
    {
        let ghost f: spec_fn(JobInfo) -> bool = |j: JobInfo| !status_is_terminal(j.status);
        let mut r: Vec<JobInfo> = Vec::new();
        let mut i: usize = 0;
        while i < self.records.len()
            invariant
                i <= self.records@.len(),
                f == (|j: JobInfo| !status_is_terminal(j.status)),
                r@ == self.records@.take(i as int).filter(f),
            decreases self.records@.len() - i,
        {
            let ghost t = self.records@.take(i as int + 1);
            proof {
                assert(t.drop_last() =~= self.records@.take(i as int));
                reveal(Seq::filter);
            }
            if !self.records[i].status.is_terminal() {
                r.push(self.records[i].duplicate());
            }
            i = i + 1;
        }
        assert(self.records@.take(self.records@.len() as int) =~= self.records@);
        r
    }

    /// All jobs, newest queued first (by `queued_at`, ties in record order).
    pub fn list_all_jobs(&self) -> (r: Vec<JobInfo>)
        ensures
            exists|o: Seq<usize>| #[trigger] stable_by_text(queued_keys(self.records()), o, true)
                && r@ == o.map_values(|i: usize| self.records()[i as int]),
    {
        let mut keys: Vec<String> = Vec::new();
        let mut i: usize = 0;
        while i < self.records.len()
            invariant
                i <= self.records@.len(),
                keys@.len() == i,
                forall|j: int| 0 <= j < i ==> #[trigger] keys@[j]@ == self.records@[j].queued_at@,
            decreases self.records@.len() - i,
        {
            keys.push(self.records[i].queued_at.clone());
            i = i + 1;
        }
        assert(keys@.map_values(|k: String| k@) =~= queued_keys(self.records@));
        let order = sort_by_text(&keys, true);
        let mut r: Vec<JobInfo> = Vec::new();
        let mut k: usize = 0;
        while k < order.len()
            invariant
                k <= order@.len(),
                order@.len() == self.records@.len(),
                forall|j: int| 0 <= j < order@.len() ==> #[trigger] order@[j] < self.records@.len(),
                r@ == order@.take(k as int).map_values(|i: usize| self.records@[i as int]),
            decreases order@.len() - k,
        {
            r.push(self.records[order[k]].duplicate());
            proof {
                assert(order@.take(k as int + 1) =~= order@.take(k as int).push(order@[k as int]));
                assert(order@.take(k as int + 1).map_values(|i: usize| self.records@[i as int]) =~= order@.take(k as int).map_values(|i: usize| self.records@[i as int]).push(self.records@[order@[k as int] as int]));
            }
            k = k + 1;
        }
        assert(order@.take(order@.len() as int) =~= order@);
        assert(stable_by_text(queued_keys(self.records()), order@, true));
        assert(r@ == order@.map_values(|i: usize| self.records()[i as int]));
        r
    }

    /// Cancel a job that is still queued: true when it was found in the
    /// queue and removed; its snapshot then says `Cancelled`. Running and
    /// finished jobs cannot be cancelled.
    pub fn cancel_job(&mut self, id: &str) -> (found: bool)
        requires
            old(self).wf(),
        ensures
            final(self).wf(),
            found == old(self).queue_ids().contains(id@),
            found ==> final(self).queue_entries() == old(self).queue_entries().remove(first_with_id(old(self).queue_ids(), id@)),
            found ==> !final(self).queue_ids().contains(id@),
            found ==> (record_of(old(self).records(), id@) matches Some(info) && final(self).records() == old(self).records().update(
                record_pos(old(self).records(), id@),
                JobInfo { status: JobStatus::Cancelled, ..info },
            )),
            found ==> (record_of(final(self).records(), id@) matches Some(j) && j.status is Cancelled),
            found ==> forall|k: int|
                0 <= k < active_jobs(final(self).records()).len() ==> (#[trigger] active_jobs(final(self).records())[k]).id@ != id@,
            !found ==> final(self).queue_entries() == old(self).queue_entries(),
            !found ==> final(self).records() == old(self).records(),
    {
        let ghost oq = self.queue_ids();
        let ghost orecs = self.records@;
        if self.queue.cancel(id) {
            let ghost qp = first_with_id(oq, id@);
            proof {
                let k = choose|k: int| 0 <= k < oq.len() && oq[k] == id@;
                assert forall|i: int| 0 <= i < k implies #[trigger] oq[i] != id@ by {}
                lemma_first_with_id(oq, id@, k);
                assert(record_of(orecs, oq[k]) is Some);
                assert(entry_ids(old(self).queue_entries().remove(qp)) =~= oq.remove(qp));
            }
            let p = self.find(id);
            proof {
                lemma_record_pos(self.records@, id@);
            }
            let old_info = self.records[p].duplicate();
            let info = JobInfo { status: JobStatus::Cancelled, ..old_info };
            self.records.set(p, info);
            proof {
                let u = self.records@;
                assert(info_ids(u) =~= info_ids(orecs));
                assert forall|a: int, b: int| 0 <= a < b < u.len() implies u[a].id@ != u[b].id@ by {
                    if a != p { assert(u[a] == orecs[a]); }
                    if b != p { assert(u[b] == orecs[b]); }
                }
                lemma_record_at(u, p as int);
                let nq = self.queue_ids();
                assert forall|i: int| 0 <= i < nq.len() implies #[trigger] nq[i] != id@ by {
                    let j = if i < qp { i } else { i + 1 };
                    assert(nq[i] == oq[j]);
                }
                assert forall|i: int| 0 <= i < nq.len() implies (#[trigger] record_of(u, nq[i])) is Some && record_of(
                    u,
                    nq[i],
                ).unwrap().status is Queued by {
                    let j = if i < qp { i } else { i + 1 };
                    assert(nq[i] == oq[j]);
                    assert(record_of(orecs, oq[j]) is Some);
                    let q = record_pos(orecs, nq[i]);
                    lemma_record_pos(orecs, nq[i]);
                    assert(q != p);
                    assert(u[q] == orecs[q]);
                }
                assert forall|i: int, j: int| 0 <= i < j < nq.len() implies nq[i] != nq[j] by {
                    let a = if i < qp { i } else { i + 1 };
                    let b = if j < qp { j } else { j + 1 };
                    assert(nq[i] == oq[a] && nq[j] == oq[b]);
                }
                lemma_cancelled_not_active(orecs, id@);
            }
            true
        } else {
            false
        }
    }

    /// Whether a job with this id is waiting in the queue.
    pub fn is_queued(&self, id: &str) -> (b: bool)
        ensures
            b == self.queue_ids().contains(id@),
    {
        let ids = self.queue.queued_ids();
        let mut i: usize = 0;
        while i < ids.len()
            invariant
                i <= ids@.len(),
                ids@.map_values(|s: String| s@) == self.queue_ids(),
                forall|j: int| 0 <= j < i ==> #[trigger] self.queue_ids()[j] != id@,
            decreases ids@.len() - i,
        {
            assert(ids@.map_values(|s: String| s@)[i as int] == ids@[i as int]@);
            if text_eq(ids[i].as_str(), id) {
                assert(self.queue_ids()[i as int] == id@);
                return true;
            }
            i = i + 1;
        }
        false
    }

    /// Number of jobs waiting in the queue.
    pub fn queue_depth(&self) -> (n: usize)
        ensures
            n == self.queue_entries().len(),
    {
        self.queue.len()
    }

    /// The worker takes the next job (the queue's front).
    pub fn take_next(&mut self) -> (r: Option<QueueEntry<J>>)
        requires
            old(self).wf(),
        ensures
            final(self).wf(),
            final(self).records() == old(self).records(),
            r matches Some(e) ==> !final(self).queue_ids().contains(e.id@),
            old(self).queue_entries().len() == 0 ==> r is None && final(self).queue_entries() == old(self).queue_entries(),
            old(self).queue_entries().len() > 0 ==> r == Some(old(self).queue_entries()[0])
                && final(self).queue_entries() == old(self).queue_entries().drop_first(),
    {
        let r = self.queue.pop();
        proof {
            let oq = entry_ids(old(self).queue_entries());
            let nq = self.queue_ids();
            if oq.len() > 0 {
                assert(nq =~= oq.drop_first());
                assert forall|i: int| 0 <= i < nq.len() implies (#[trigger] record_of(self.records@, nq[i])) is Some
                    && record_of(self.records@, nq[i]).unwrap().status is Queued by {
                    assert(nq[i] == oq[i + 1]);
                }
                assert forall|i: int, j: int| 0 <= i < j < nq.len() implies nq[i] != nq[j] by {
                    assert(nq[i] == oq[i + 1] && nq[j] == oq[j + 1]);
                }
                assert forall|i: int| 0 <= i < nq.len() implies #[trigger] nq[i] != oq[0] by {
                    assert(nq[i] == oq[i + 1]);
                }
            }
        }
        r
    }

    /// The worker marks a picked-up job as running at progress 0.
    pub fn mark_running(&mut self, id: String, name: String, queued_at: String, started_at: String)
        requires
            old(self).wf(),
            !old(self).queue_ids().contains(id@),
        ensures
            final(self).wf(),
            final(self).queue_entries() == old(self).queue_entries(),
            final(self).records() == upserted(old(self).records(), JobInfo {
                id, name, status: JobStatus::Running { progress_permille: 0 }, queued_at,
                started_at: Some(started_at), finished_at: None,
            }),
    {
        let info = JobInfo {
            id,
            name,
            status: JobStatus::Running { progress_permille: 0 },
            queued_at,
            started_at: Some(started_at),
            finished_at: None,
        };
        let ghost gi = info;
        self.upsert(info);
        proof {
            self.lemma_queue_kept(old(self).records(), gi.id@);
        }
    }

    /// After a change of the snapshot of a job that is not queued (every
    /// other job's snapshot unchanged), the queue stays consistent.
    proof fn lemma_queue_kept(&self, before: Seq<JobInfo>, changed: Seq<char>)
        requires
            queue_consistent(self.queue_ids(), before),
            !self.queue_ids().contains(changed),
            forall|x: Seq<char>| x != changed ==> #[trigger] record_of(self.records(), x) == record_of(before, x),
        ensures
            queue_consistent(self.queue_ids(), self.records()),
    {
        let q = self.queue_ids();
        assert forall|i: int| 0 <= i < q.len() implies (#[trigger] record_of(self.records(), q[i])) is Some && record_of(
            self.records(),
            q[i],
        ).unwrap().status is Queued by {
            assert(q[i] != changed);
            assert(record_of(before, q[i]) is Some);
        }
    }

    /// The worker records a job's final status, then forgets finished jobs
    /// beyond [`MAX_FINISHED_JOBS`], those that finished earliest first and
    /// never the job just finished.
    pub fn finish_job(
        &mut self,
        id: String,
        name: String,
        queued_at: String,
        started_at: String,
        finished_at: String,
        status: JobStatus,
    )
        requires
            old(self).wf(),
            !old(self).queue_ids().contains(id@),
        ensures
            final(self).wf(),
            final(self).queue_entries() == old(self).queue_entries(),
            ({
                let info = JobInfo {
                    id, name, status, queued_at, started_at: Some(started_at), finished_at: Some(finished_at),
                };
                let u = upserted(old(self).records(), info);
                &&& final(self).records() == prune_oldest(u, id@, prune_excess(u))
                &&& record_of(final(self).records(), id@) == Some(info)
                &&& terminal_count(final(self).records()) == if terminal_count(u) > MAX_FINISHED_JOBS {
                    MAX_FINISHED_JOBS as nat
                } else {
                    terminal_count(u)
                }
                &&& final(self).records().filter(|j: JobInfo| !status_is_terminal(j.status)) == u.filter(
                    |j: JobInfo| !status_is_terminal(j.status),
                )
            }),
    {
        let keep = id.clone();
        let info = JobInfo {
            id,
            name,
            status,
            queued_at,
            started_at: Some(started_at),
            finished_at: Some(finished_at),
        };
        let ghost gi = info;
        self.upsert(info);
        let ghost u = self.records@;
        let ghost q = self.queue_entries();
        proof {
            self.lemma_queue_kept(old(self).records(), gi.id@);
        }
        // Count finished snapshots.
        let mut count: usize = 0;
        let mut i: usize = 0;
        while i < self.records.len()
            invariant
                i <= self.records@.len(),
                self.records@ == u,
                count == terminal_count(u.take(i as int)),
                count <= i,
            decreases self.records@.len() - i,
        {
            proof {
                assert(u.take(i as int + 1).drop_last() =~= u.take(i as int));
            }
            if self.records[i].status.is_terminal() {
                count = count + 1;
            }
            i = i + 1;
        }
        assert(u.take(u.len() as int) =~= u);
        let excess: usize = if count > MAX_FINISHED_JOBS { count - MAX_FINISHED_JOBS } else { 0 };
        assert(excess == prune_excess(u));
        let mut k: usize = 0;
        while k < excess
            invariant
                k <= excess,
                excess == prune_excess(u),
                count == terminal_count(u),
                distinct_ids(u),
                keep@ == gi.id@,
                distinct_ids(self.records@),
                self.queue_entries() == q,
                prune_oldest(self.records@, keep@, (excess - k) as nat) == prune_oldest(u, keep@, excess as nat),
                terminal_count(self.records@) == count - k,
            decreases excess - k,
        {
            let p = self.oldest_prunable(keep.as_str());
            proof {
                lemma_oldest_pos(self.records@, keep@);
            }
            match p {
                Some(p) => {
                    proof {
                        lemma_remove_keeps(self.records@, p as int);
                        lemma_terminal_count_remove(self.records@, p as int);
                    }
                    self.records.remove(p);
                },
                None => {
                    proof {
                        lemma_only_keep_terminal(self.records@, keep@);
                    }
                },
            }
            k = k + 1;
        }
        proof {
            lemma_prune_oldest(u, keep@, excess as nat);
            lemma_recorded_then_visible(old(self).records(), gi, gi.id@);
            let f = self.records@;
            let qq = self.queue_ids();
            assert forall|i2: int| 0 <= i2 < qq.len() implies (#[trigger] record_of(f, qq[i2])) is Some && record_of(
                f,
                qq[i2],
            ).unwrap().status is Queued by {
                assert(record_of(u, qq[i2]) is Some);
            }
        }
    }

    /// Position of the prunable snapshot that finished earliest.
    fn oldest_prunable(&self, keep: &str) -> (r: Option<usize>)
        ensures
            match r {
                Some(p) => oldest_pos(self.records(), keep@) == Some(p as int),
                None => oldest_pos(self.records(), keep@) is None,
            },
    {
        let ghost recs = self.records@;
        let mut best: Option<usize> = None;
        let mut i: usize = 0;
        while i < self.records.len()
            invariant
                i <= recs.len(),
                recs == self.records@,
                match best {
                    Some(b) => b < i && oldest_pos(recs.take(i as int), keep@) == Some(b as int),
                    None => oldest_pos(recs.take(i as int), keep@) is None,
                },
            decreases recs.len() - i,
        {
            let x = &self.records[i];
            proof {
                let t = recs.take(i as int + 1);
                assert(t.drop_last() =~= recs.take(i as int));
                assert(t.last() == recs[i as int]);
                if let Some(b) = best {
                    assert(t[b as int] == recs[b as int]);
                }
            }
            if x.status.is_terminal() && !text_eq(x.id.as_str(), keep) {
                let better = match best {
                    Some(b) => text_less(finish_text(x), finish_text(&self.records[b])),
                    None => true,
                };
                if better {
                    best = Some(i);
                }
            }
            i = i + 1;
        }
        assert(recs.take(recs.len() as int) =~= recs);
        best
    }
}

/// When a snapshot finished, as text (empty when it has not).
fn finish_text(j: &JobInfo) -> (s: &str)
    ensures
        s@ == finish_key(*j),
{
    proof {
        reveal_strlit("");
    }
    match &j.finished_at {
        Some(f) => f.as_str(),
        None => "",
    }
}

/// serde_json's `Value`, carried through as a job's payload.
#[verifier::external_type_specification]
#[verifier::external_body]
pub struct ExJsonValue(serde_json::Value);

/// What a successful job returns: a summary, and a structured payload when
/// it has one.
pub struct JobResult {
    pub summary: String,
    pub payload: Option<serde_json::Value>,
}

impl JobResult {
    /// A result with a summary only.
    pub fn ok(summary: String) -> (r: Self)
        ensures
            r.summary == summary,
            r.payload.is_none(),
    {
        JobResult { summary, payload: None }
    }

    /// A result with a summary and a payload.
    pub fn with_payload(summary: String, payload: serde_json::Value) -> (r: Self)
        ensures
            r.summary == summary,
            r.payload == Some(payload),
    {
        JobResult { summary, payload: Some(payload) }
    }
}

/// How running a job ended, as the worker observes it.
pub enum RunOutcome {
    /// The job returned a result with this summary.
    Finished(String),
    /// The job returned an error.
    Errored(String),
    /// The job's thread panicked (the join error's text).
    Panicked(String),
    /// No database connection could be opened for the job.
    NoConnection(String),
}

/// The final status and summary the worker records for an outcome.
pub fn job_outcome(outcome: RunOutcome) -> (r: (JobStatus, Option<String>))
    ensures
        match outcome {
            RunOutcome::Finished(s) => r.0 == JobStatus::Done && r.1 == Some(s),
            RunOutcome::Errored(e) => r.0 == JobStatus::Failed { reason: e } && r.1.is_none(),
            RunOutcome::Panicked(e) => (r.0 matches JobStatus::Failed { reason } && reason@ == "Worker panicked: "@ + e@)
                && r.1.is_none(),
            RunOutcome::NoConnection(e) => (r.0 matches JobStatus::Failed { reason } && reason@
                == "Failed to open background DB connection: "@ + e@) && r.1.is_none(),
        },
{
    match outcome {
        RunOutcome::Finished(s) => (JobStatus::Done, Some(s)),
        RunOutcome::Errored(e) => (JobStatus::Failed { reason: e }, None),
        RunOutcome::Panicked(e) => {
            let mut m = String::new();
            crate::numfmt::push_str(&mut m, "Worker panicked: ");
            crate::numfmt::push_str(&mut m, e.as_str());
            (JobStatus::Failed { reason: m }, None)
        },
        RunOutcome::NoConnection(e) => {
            let mut m = String::new();
            crate::numfmt::push_str(&mut m, "Failed to open background DB connection: ");
            crate::numfmt::push_str(&mut m, e.as_str());
            (JobStatus::Failed { reason: m }, None)
        },
    }
}

/// Interval at which the worker polls the queue, in milliseconds.
pub const POLL_INTERVAL_MS: u64 = 500;

} // verus!
