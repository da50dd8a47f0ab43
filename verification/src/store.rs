//! The shared transactional store, modeled as one value.
//!
//! The real system keeps these tables in a relational store and serializes
//! competing writers through row locks and single-statement updates; here
//! each verified operation is one such serialized transaction, taking the
//! store by mutable reference. The store is the single source of truth: no
//! component caches job state beyond one operation.

use vstd::prelude::*;
use crate::flow::FlowStatus;
use crate::job::{CompletedJob, QueuedJob};
use crate::signature::spec_resume_row_id;

verus! {

/// A recorded resume attempt for a suspended flow step.
///
/// Identified by an id derived from `(job, resume_id)`; inserting it is the
/// sole admission check for duplicate resume attempts.
pub struct ResumeRow {
    pub id: u128,
    pub resume_id: u32,
    pub job: u128,
    pub flow: u128,
    pub value: String,
    pub approver: Option<String>,
    pub approved: bool,
}

impl ResumeRow {
    /// The row's id is the XOR-derived identity of its `(job, resume_id)`.
    pub open spec fn wf(&self) -> bool {
        self.id == spec_resume_row_id(self.job, self.resume_id)
    }
}

/// The concurrency key a job occupies, if any.
pub struct ConcurrencyKeyRow {
    pub job_id: u128,
    pub key: String,
}

/// The set of job ids currently occupying one concurrency key.
pub struct CounterRow {
    pub key: String,
    pub job_uuids: Vec<u128>,
}

/// A liveness row per (parent flow, parallel branch job) pair; its staleness
/// is the zombie signal for that branch.
#[derive(Clone, Copy)]
pub struct MonitorLockRow {
    pub parent_flow_id: u128,
    pub job_id: u128,
    pub last_ping: Option<u64>,
}

/// The accumulated log text of one job.
pub struct JobLogRow {
    pub job_id: u128,
    pub logs: String,
}

/// One audit record: who performed which operation on which job, in which
/// workspace. Every cancellation or resume state change writes one in the
/// same transaction.
pub struct AuditRow {
    pub username: String,
    pub operation: String,
    pub job: u128,
    pub workspace_id: String,
}

/// Whether some audit record says `username` performed `operation` on
/// `job` in `w_id`.
pub open spec fn has_audit(
    a: Seq<AuditRow>,
    username: Seq<char>,
    operation: Seq<char>,
    job: u128,
    w_id: Seq<char>,
) -> bool {
    exists|j: int|
        0 <= j < a.len() && (#[trigger] a[j]).username@ == username && a[j].operation@ == operation
            && a[j].job == job && a[j].workspace_id@ == w_id
}

/// Whether some queue row carries `id`.
pub open spec fn q_has(q: Seq<QueuedJob>, id: u128) -> bool {
    exists|i: int| 0 <= i < q.len() && (#[trigger] q[i]).id == id
}

/// Queue rows carry pairwise distinct ids.
pub open spec fn q_unique(q: Seq<QueuedJob>) -> bool {
    forall|i: int, j: int| 0 <= i < j < q.len() ==> (#[trigger] q[i]).id != (#[trigger] q[j]).id
}

/// Whether some queue row carries `(id, w_id)`.
pub open spec fn q_has_in_ws(q: Seq<QueuedJob>, id: u128, w_id: Seq<char>) -> bool {
    exists|i: int| 0 <= i < q.len() && (#[trigger] q[i]).id == id && q[i].workspace_id@ == w_id
}

/// Whether some completed row carries `id`.
pub open spec fn c_has(c: Seq<CompletedJob>, id: u128) -> bool {
    exists|i: int| 0 <= i < c.len() && (#[trigger] c[i]).id == id
}

/// Whether some completed row carries `(id, w_id)`.
pub open spec fn c_has_in_ws(c: Seq<CompletedJob>, id: u128, w_id: Seq<char>) -> bool {
    exists|i: int| 0 <= i < c.len() && (#[trigger] c[i]).id == id && c[i].workspace_id@ == w_id
}

/// Completed rows carry pairwise distinct ids.
pub open spec fn c_unique(c: Seq<CompletedJob>) -> bool {
    forall|i: int, j: int| 0 <= i < j < c.len() ==> (#[trigger] c[i]).id != (#[trigger] c[j]).id
}

/// No id lives in both the queue and the completed table.
pub open spec fn qc_disjoint(q: Seq<QueuedJob>, c: Seq<CompletedJob>) -> bool {
    forall|i: int, j: int|
        0 <= i < q.len() && 0 <= j < c.len() ==> (#[trigger] q[i]).id != (#[trigger] c[j]).id
}

/// Whether some resume record carries `id`.
pub open spec fn r_has(r: Seq<ResumeRow>, id: u128) -> bool {
    exists|i: int| 0 <= i < r.len() && (#[trigger] r[i]).id == id
}

/// Resume records carry pairwise distinct ids.
pub open spec fn r_unique(r: Seq<ResumeRow>) -> bool {
    forall|i: int, j: int| 0 <= i < j < r.len() ==> (#[trigger] r[i]).id != (#[trigger] r[j]).id
}

/// Log rows carry pairwise distinct job ids.
pub open spec fn logs_unique(l: Seq<JobLogRow>) -> bool {
    forall|i: int, j: int|
        0 <= i < j < l.len() ==> (#[trigger] l[i]).job_id != (#[trigger] l[j]).job_id
}

/// The durable tables of the coordination engine.
pub struct Store {
    /// Pending and running jobs.
    pub queue: Vec<QueuedJob>,
    /// Terminal jobs.
    pub completed: Vec<CompletedJob>,
    /// Recorded resume attempts.
    pub resume_jobs: Vec<ResumeRow>,
    /// Which concurrency key each job occupies.
    pub concurrency_keys: Vec<ConcurrencyKeyRow>,
    /// Which job ids occupy each concurrency key.
    pub counters: Vec<CounterRow>,
    /// Per-branch liveness rows of parallel flow constructs.
    pub monitor_locks: Vec<MonitorLockRow>,
    /// Per-job log text.
    pub job_logs: Vec<JobLogRow>,
    /// Audit records, append-only.
    pub audits: Vec<AuditRow>,
}

impl Store {
    /// The store invariants: a job id exists in exactly one of the two job
    /// tables, every row is well-formed, and resume records are uniquely
    /// identified by their derived id.
    pub open spec fn wf(self) -> bool {
        &&& q_unique(self.queue@)
        &&& c_unique(self.completed@)
        &&& qc_disjoint(self.queue@, self.completed@)
        &&& forall|i: int| 0 <= i < self.queue@.len() ==> (#[trigger] self.queue@[i]).wf()
        &&& r_unique(self.resume_jobs@)
        &&& forall|i: int| 0 <= i < self.resume_jobs@.len() ==> (#[trigger] self.resume_jobs@[i]).wf()
        &&& logs_unique(self.job_logs@)
    }

    /// An empty store.
    pub fn new() -> (r: Store)
        ensures
            r.wf(),
            r.queue@.len() == 0,
            r.completed@.len() == 0,
            r.resume_jobs@.len() == 0,
            r.concurrency_keys@.len() == 0,
            r.counters@.len() == 0,
            r.monitor_locks@.len() == 0,
            r.job_logs@.len() == 0,
            r.audits@.len() == 0,
    {
        Store {
            queue: Vec::new(),
            completed: Vec::new(),
            resume_jobs: Vec::new(),
            concurrency_keys: Vec::new(),
            counters: Vec::new(),
            monitor_locks: Vec::new(),
            job_logs: Vec::new(),
            audits: Vec::new(),
        }
    }

    /// Find the queue row carrying `id`.
    pub fn find_queued(&self, id: u128) -> (r: Option<usize>)
        ensures
            match r {
                Some(i) => i < self.queue@.len() && self.queue@[i as int].id == id,
                None => !q_has(self.queue@, id),
            },
    {
        let mut i: usize = 0;
        while i < self.queue.len()
            invariant
                0 <= i <= self.queue@.len(),
                forall|j: int| 0 <= j < i ==> (#[trigger] self.queue@[j]).id != id,
            decreases self.queue@.len() - i,
        {
            if self.queue[i].id == id {
                return Some(i);
            }
            i = i + 1;
        }
        None
    }

    /// Find the queue row carrying `id` in workspace `w_id`.
    pub fn find_queued_in_ws(&self, id: u128, w_id: &String) -> (r: Option<usize>)
        ensures
            match r {
                Some(i) => i < self.queue@.len() && self.queue@[i as int].id == id
                    && self.queue@[i as int].workspace_id@ == w_id@,
                None => !exists|j: int|
                    0 <= j < self.queue@.len() && (#[trigger] self.queue@[j]).id == id
                        && self.queue@[j].workspace_id@ == w_id@,
            },
    {
        let mut i: usize = 0;
        while i < self.queue.len()
            invariant
                0 <= i <= self.queue@.len(),
                forall|j: int|
                    0 <= j < i ==> !((#[trigger] self.queue@[j]).id == id
                        && self.queue@[j].workspace_id@ == w_id@),
            decreases self.queue@.len() - i,
        {
            if self.queue[i].id == id && self.queue[i].workspace_id == *w_id {
                return Some(i);
            }
            i = i + 1;
        }
        None
    }

    /// Find the completed row carrying `id`.
    pub fn find_completed(&self, id: u128) -> (r: Option<usize>)
        ensures
            match r {
                Some(i) => i < self.completed@.len() && self.completed@[i as int].id == id,
                None => !c_has(self.completed@, id),
            },
    {
        let mut i: usize = 0;
        while i < self.completed.len()
            invariant
                0 <= i <= self.completed@.len(),
                forall|j: int| 0 <= j < i ==> (#[trigger] self.completed@[j]).id != id,
            decreases self.completed@.len() - i,
        {
            if self.completed[i].id == id {
                return Some(i);
            }
            i = i + 1;
        }
        None
    }

    /// Find the resume record carrying the derived id `id`.
    pub fn find_resume(&self, id: u128) -> (r: Option<usize>)
        ensures
            match r {
                Some(i) => i < self.resume_jobs@.len() && self.resume_jobs@[i as int].id == id,
                None => !r_has(self.resume_jobs@, id),
            },
    {
        let mut i: usize = 0;
        while i < self.resume_jobs.len()
            invariant
                0 <= i <= self.resume_jobs@.len(),
                forall|j: int| 0 <= j < i ==> (#[trigger] self.resume_jobs@[j]).id != id,
            decreases self.resume_jobs@.len() - i,
        {
            if self.resume_jobs[i].id == id {
                return Some(i);
            }
            i = i + 1;
        }
        None
    }

    /// Find the concurrency key occupied by `job_id`, if any.
    pub fn find_key_for_job(&self, job_id: u128) -> (r: Option<usize>)
        ensures
            match r {
                Some(i) => i < self.concurrency_keys@.len() && self.concurrency_keys@[i as int].job_id
                    == job_id,
                None => !exists|j: int|
                    0 <= j < self.concurrency_keys@.len() && (#[trigger] self.concurrency_keys@[j]).job_id
                        == job_id,
            },
    {
        let mut i: usize = 0;
        while i < self.concurrency_keys.len()
            invariant
                0 <= i <= self.concurrency_keys@.len(),
                forall|j: int| 0 <= j < i ==> (#[trigger] self.concurrency_keys@[j]).job_id != job_id,
            decreases self.concurrency_keys@.len() - i,
        {
            if self.concurrency_keys[i].job_id == job_id {
                return Some(i);
            }
            i = i + 1;
        }
        None
    }

    /// Find the log row of `job_id`.
    pub fn find_log(&self, job_id: u128) -> (r: Option<usize>)
        ensures
            match r {
                Some(i) => i < self.job_logs@.len() && self.job_logs@[i as int].job_id == job_id,
                None => !exists|j: int|
                    0 <= j < self.job_logs@.len() && (#[trigger] self.job_logs@[j]).job_id == job_id,
            },
    {
        let mut i: usize = 0;
        while i < self.job_logs.len()
            invariant
                0 <= i <= self.job_logs@.len(),
                forall|j: int| 0 <= j < i ==> (#[trigger] self.job_logs@[j]).job_id != job_id,
            decreases self.job_logs@.len() - i,
        {
            if self.job_logs[i].job_id == job_id {
                return Some(i);
            }
            i = i + 1;
        }
        None
    }

    /// Replace the queue row at `i` with `row`, which must keep its identity.
    pub fn update_queued(&mut self, i: usize, row: QueuedJob)
        requires
            old(self).wf(),
            i < old(self).queue@.len(),
            row.id == old(self).queue@[i as int].id,
            row.wf(),
        ensures
            final(self).queue@ == old(self).queue@.update(i as int, row),
            final(self).completed@ == old(self).completed@,
            final(self).resume_jobs@ == old(self).resume_jobs@,
            final(self).concurrency_keys@ == old(self).concurrency_keys@,
            final(self).counters@ == old(self).counters@,
            final(self).monitor_locks@ == old(self).monitor_locks@,
            final(self).job_logs@ == old(self).job_logs@,
            final(self).audits@ == old(self).audits@,
            final(self).wf(),
    {
        let _ = self.queue.remove(i);
        self.queue.insert(i, row);
        proof {
            assert(self.queue@ =~= old(self).queue@.update(i as int, row));
        }
    }

    /// Remove and return the queue row at `i`. Its id is then absent from
    /// the queue.
    pub fn take_queued(&mut self, i: usize) -> (r: QueuedJob)
        requires
            old(self).wf(),
            i < old(self).queue@.len(),
        ensures
            r == old(self).queue@[i as int],
            final(self).queue@ == old(self).queue@.remove(i as int),
            final(self).completed@ == old(self).completed@,
            final(self).resume_jobs@ == old(self).resume_jobs@,
            final(self).concurrency_keys@ == old(self).concurrency_keys@,
            final(self).counters@ == old(self).counters@,
            final(self).monitor_locks@ == old(self).monitor_locks@,
            final(self).job_logs@ == old(self).job_logs@,
            final(self).audits@ == old(self).audits@,
            final(self).wf(),
            !q_has(final(self).queue@, r.id),
            forall|id: u128| q_has(final(self).queue@, id) ==> q_has(old(self).queue@, id),
    {
        let r = self.queue.remove(i);
        proof {
            lemma_q_remove(old(self).queue@, i as int);
        }
        r
    }

    /// Insert `row` into the queue at position `i`; its id must be fresh in
    /// both tables.
    pub fn insert_queued(&mut self, i: usize, row: QueuedJob)
        requires
            old(self).wf(),
            i <= old(self).queue@.len(),
            !q_has(old(self).queue@, row.id),
            !c_has(old(self).completed@, row.id),
            row.wf(),
        ensures
            final(self).queue@ == old(self).queue@.insert(i as int, row),
            final(self).completed@ == old(self).completed@,
            final(self).resume_jobs@ == old(self).resume_jobs@,
            final(self).concurrency_keys@ == old(self).concurrency_keys@,
            final(self).counters@ == old(self).counters@,
            final(self).monitor_locks@ == old(self).monitor_locks@,
            final(self).job_logs@ == old(self).job_logs@,
            final(self).audits@ == old(self).audits@,
            final(self).wf(),
    {
        self.queue.insert(i, row);
        proof {
            lemma_q_insert(old(self).queue@, i as int, row);
        }
    }

    /// Append `cj` to the completed table; its id must be fresh in both
    /// tables.
    pub fn push_completed(&mut self, cj: CompletedJob)
        requires
            old(self).wf(),
            !q_has(old(self).queue@, cj.id),
            !c_has(old(self).completed@, cj.id),
        ensures
            final(self).completed@ == old(self).completed@.push(cj),
            final(self).queue@ == old(self).queue@,
            final(self).resume_jobs@ == old(self).resume_jobs@,
            final(self).concurrency_keys@ == old(self).concurrency_keys@,
            final(self).counters@ == old(self).counters@,
            final(self).monitor_locks@ == old(self).monitor_locks@,
            final(self).job_logs@ == old(self).job_logs@,
            final(self).audits@ == old(self).audits@,
            final(self).wf(),
    {
        self.completed.push(cj);
    }

    /// Append `row` to the queue; its id must be fresh in both tables.
    pub fn push_queued(&mut self, row: QueuedJob)
        requires
            old(self).wf(),
            !q_has(old(self).queue@, row.id),
            !c_has(old(self).completed@, row.id),
            row.wf(),
        ensures
            final(self).queue@ == old(self).queue@.push(row),
            final(self).completed@ == old(self).completed@,
            final(self).resume_jobs@ == old(self).resume_jobs@,
            final(self).concurrency_keys@ == old(self).concurrency_keys@,
            final(self).counters@ == old(self).counters@,
            final(self).monitor_locks@ == old(self).monitor_locks@,
            final(self).job_logs@ == old(self).job_logs@,
            final(self).audits@ == old(self).audits@,
            final(self).wf(),
    {
        self.queue.push(row);
    }

    /// Record a resume attempt; its derived id must be fresh.
    pub fn push_resume(&mut self, row: ResumeRow)
        requires
            old(self).wf(),
            !r_has(old(self).resume_jobs@, row.id),
            row.wf(),
        ensures
            final(self).resume_jobs@ == old(self).resume_jobs@.push(row),
            final(self).queue@ == old(self).queue@,
            final(self).completed@ == old(self).completed@,
            final(self).concurrency_keys@ == old(self).concurrency_keys@,
            final(self).counters@ == old(self).counters@,
            final(self).monitor_locks@ == old(self).monitor_locks@,
            final(self).job_logs@ == old(self).job_logs@,
            final(self).audits@ == old(self).audits@,
            final(self).wf(),
    {
        self.resume_jobs.push(row);
    }

    /// Record one audit entry.
    pub fn push_audit(&mut self, row: AuditRow)
        requires
            old(self).wf(),
        ensures
            final(self).audits@ == old(self).audits@.push(row),
            final(self).queue@ == old(self).queue@,
            final(self).completed@ == old(self).completed@,
            final(self).resume_jobs@ == old(self).resume_jobs@,
            final(self).concurrency_keys@ == old(self).concurrency_keys@,
            final(self).counters@ == old(self).counters@,
            final(self).monitor_locks@ == old(self).monitor_locks@,
            final(self).job_logs@ == old(self).job_logs@,
            final(self).wf(),
    {
        self.audits.push(row);
    }

    /// Remove `id` from the occupying set of every concurrency counter,
    /// leaving every other occupant and every key in place.
    pub fn strip_id_from_counters(&mut self, id: u128)
        requires
            old(self).wf(),
        ensures
            final(self).counters@.len() == old(self).counters@.len(),
            forall|k: int|
                0 <= k < old(self).counters@.len() ==> (#[trigger] final(self).counters@[k]).key
                    == old(self).counters@[k].key && final(self).counters@[k].job_uuids@ == old(
                    self,
                ).counters@[k].job_uuids@.filter(|u: u128| u != id),
            final(self).queue@ == old(self).queue@,
            final(self).completed@ == old(self).completed@,
            final(self).resume_jobs@ == old(self).resume_jobs@,
            final(self).concurrency_keys@ == old(self).concurrency_keys@,
            final(self).monitor_locks@ == old(self).monitor_locks@,
            final(self).job_logs@ == old(self).job_logs@,
            final(self).audits@ == old(self).audits@,
            final(self).wf(),
    {
        let mut k: usize = 0;
        while k < self.counters.len()
            invariant
                old(self).wf(),
                self.wf(),
                0 <= k <= self.counters@.len(),
                self.counters@.len() == old(self).counters@.len(),
                forall|j: int|
                    0 <= j < k ==> (#[trigger] self.counters@[j]).key == old(self).counters@[j].key
                        && self.counters@[j].job_uuids@ == old(self).counters@[j].job_uuids@.filter(
                        |u: u128| u != id,
                    ),
                forall|j: int|
                    k <= j < self.counters@.len() ==> #[trigger] self.counters@[j] == old(
                        self,
                    ).counters@[j],
                self.queue@ == old(self).queue@,
                self.completed@ == old(self).completed@,
                self.resume_jobs@ == old(self).resume_jobs@,
                self.concurrency_keys@ == old(self).concurrency_keys@,
                self.monitor_locks@ == old(self).monitor_locks@,
                self.job_logs@ == old(self).job_logs@,
                self.audits@ == old(self).audits@,
            decreases self.counters@.len() - k,
        {
            let ghost pre = self.counters@;
            let row = self.counters.remove(k);
            let filtered = remove_u128(row.job_uuids, id);
            self.counters.insert(k, CounterRow { key: row.key, job_uuids: filtered });
            proof {
                assert(self.counters@ =~= pre.update(k as int, self.counters@[k as int]));
            }
            k = k + 1;
        }
    }

    /// Append `note` to the log text of `job_id`, creating the row if absent.
    pub fn append_log(&mut self, job_id: u128, note: &str)
        requires
            old(self).wf(),
        ensures
            final(self).wf(),
            final(self).queue@ == old(self).queue@,
            final(self).completed@ == old(self).completed@,
            final(self).resume_jobs@ == old(self).resume_jobs@,
            final(self).concurrency_keys@ == old(self).concurrency_keys@,
            final(self).counters@ == old(self).counters@,
            final(self).monitor_locks@ == old(self).monitor_locks@,
            final(self).audits@ == old(self).audits@,
            (exists|j: int|
                0 <= j < old(self).job_logs@.len() && (#[trigger] old(self).job_logs@[j]).job_id
                    == job_id) ==> exists|j: int|
                0 <= j < old(self).job_logs@.len() && (#[trigger] old(self).job_logs@[j]).job_id
                    == job_id && final(self).job_logs@ == old(self).job_logs@.update(
                    j,
                    final(self).job_logs@[j],
                ) && final(self).job_logs@[j].job_id == job_id && final(self).job_logs@[j].logs@
                    == old(self).job_logs@[j].logs@ + note@,
            (!exists|j: int|
                0 <= j < old(self).job_logs@.len() && (#[trigger] old(self).job_logs@[j]).job_id
                    == job_id) ==> final(self).job_logs@ == old(self).job_logs@.push(
                final(self).job_logs@.last(),
            ) && final(self).job_logs@.last().job_id == job_id
                && final(self).job_logs@.last().logs@ == note@,
    {
        match self.find_log(job_id) {
            Some(i) => {
                let ghost pre = self.job_logs@;
                let row = self.job_logs.remove(i);
                let mut logs = row.logs;
                logs.append(note);
                self.job_logs.insert(i, JobLogRow { job_id: row.job_id, logs });
                proof {
                    assert(self.job_logs@ =~= pre.update(i as int, self.job_logs@[i as int]));
                    assert forall|a: int, b: int|
                        0 <= a < b < self.job_logs@.len() implies (
                    #[trigger] self.job_logs@[a]).job_id != (
                    #[trigger] self.job_logs@[b]).job_id by {
                        assert(self.job_logs@[a].job_id == pre[a].job_id);
                        assert(self.job_logs@[b].job_id == pre[b].job_id);
                    }
                }
            },
            None => {
                let logs = note.to_owned();
                let ghost pre = self.job_logs@;
                self.job_logs.push(JobLogRow { job_id, logs });
                proof {
                    assert forall|a: int, b: int|
                        0 <= a < b < self.job_logs@.len() implies (
                    #[trigger] self.job_logs@[a]).job_id != (
                    #[trigger] self.job_logs@[b]).job_id by {
                        if b == self.job_logs@.len() - 1 {
                            assert(self.job_logs@[a] == pre[a]);
                        } else {
                            assert(self.job_logs@[a] == pre[a]);
                            assert(self.job_logs@[b] == pre[b]);
                        }
                    }
                }
            },
        }
    }
}

/// Removing a row keeps queue ids unique, introduces none, and removes the
/// row's own id entirely.
pub proof fn lemma_q_remove(q: Seq<QueuedJob>, i: int)
    requires
        q_unique(q),
        0 <= i < q.len(),
    ensures
        q_unique(q.remove(i)),
        forall|id: u128| q_has(q.remove(i), id) ==> q_has(q, id),
        !q_has(q.remove(i), q[i].id),
        forall|id: u128| id != q[i].id && q_has(q, id) ==> q_has(q.remove(i), id),
{
    let r = q.remove(i);
    q.remove_ensures(i);
    assert forall|a: int, b: int| 0 <= a < b < r.len() implies (#[trigger] r[a]).id
        != (#[trigger] r[b]).id by {
        let oa = if a < i {
            a
        } else {
            a + 1
        };
        let ob = if b < i {
            b
        } else {
            b + 1
        };
        assert(r[a] == q[oa] && r[b] == q[ob]);
    }
    assert forall|j: int| 0 <= j < r.len() implies (#[trigger] r[j]).id != q[i].id by {
        let oj = if j < i {
            j
        } else {
            j + 1
        };
        assert(r[j] == q[oj]);
    }
    assert forall|id: u128| id != q[i].id && q_has(q, id) implies q_has(r, id) by {
        let oj = choose|oj: int| 0 <= oj < q.len() && (#[trigger] q[oj]).id == id;
        let j = if oj < i {
            oj
        } else {
            oj - 1
        };
        assert(r[j] == q[oj]);
    }
}

/// Whether some row of `q` is exactly `row`, by value.
pub open spec fn row_present(q: Seq<QueuedJob>, row: QueuedJob) -> bool {
    exists|i: int| 0 <= i < q.len() && #[trigger] q[i] == row
}

/// Removing one row keeps every other row present, by value.
pub proof fn lemma_remove_preserves_others(q: Seq<QueuedJob>, i: int)
    requires
        0 <= i < q.len(),
    ensures
        forall|j: int| 0 <= j < q.len() && j != i ==> row_present(q.remove(i), #[trigger] q[j]),
{
    q.remove_ensures(i);
    assert forall|j: int| 0 <= j < q.len() && j != i implies row_present(
        q.remove(i),
        #[trigger] q[j],
    ) by {
        let k = if j < i {
            j
        } else {
            j - 1
        };
        assert(q.remove(i)[k] == q[j]);
    }
}

/// Inserting a row keeps every existing row present, by value.
pub proof fn lemma_insert_preserves_others(q: Seq<QueuedJob>, i: int, row: QueuedJob)
    requires
        0 <= i <= q.len(),
    ensures
        forall|j: int| 0 <= j < q.len() ==> row_present(q.insert(i, row), #[trigger] q[j]),
{
    assert forall|j: int| 0 <= j < q.len() implies row_present(
        q.insert(i, row),
        #[trigger] q[j],
    ) by {
        let k = if j < i {
            j
        } else {
            j + 1
        };
        assert(q.insert(i, row)[k] == q[j]);
    }
}

/// Inserting a row with a fresh id keeps queue ids unique.
pub proof fn lemma_q_insert(q: Seq<QueuedJob>, i: int, row: QueuedJob)
    requires
        q_unique(q),
        0 <= i <= q.len(),
        !q_has(q, row.id),
    ensures
        q_unique(q.insert(i, row)),
        forall|id: u128| q_has(q.insert(i, row), id) ==> id == row.id || q_has(q, id),
{
    let s = q.insert(i, row);
    assert forall|a: int, b: int| 0 <= a < b < s.len() implies (#[trigger] s[a]).id
        != (#[trigger] s[b]).id by {
        let oa = if a < i {
            a
        } else {
            a - 1
        };
        let ob = if b < i {
            b
        } else {
            b - 1
        };
        if a == i {
            assert(s[b] == q[ob]);
            assert(q_has(q, q[ob].id));
        } else if b == i {
            assert(s[a] == q[oa]);
            assert(q_has(q, q[oa].id));
        } else {
            assert(s[a] == q[oa] && s[b] == q[ob]);
        }
    }
    assert forall|id: u128| q_has(s, id) implies id == row.id || q_has(q, id) by {
        let j = choose|j: int| 0 <= j < s.len() && (#[trigger] s[j]).id == id;
        if j != i {
            let oj = if j < i {
                j
            } else {
                j - 1
            };
            assert(s[j] == q[oj]);
        }
    }
}

/// Remove every occurrence of `id` from `v`, keeping the other elements in
/// order.
pub fn remove_u128(v: Vec<u128>, id: u128) -> (r: Vec<u128>)
    ensures
        r@ == v@.filter(|u: u128| u != id),
{
    let pred = |u: u128| -> bool { u != id };
    let ghost gpred = |u: u128| u != id;
    let mut out: Vec<u128> = Vec::new();
    let mut i: usize = 0;
    proof {
        reveal(Seq::filter);
        assert(v@.subrange(0, 0) =~= Seq::<u128>::empty());
    }
    while i < v.len()
        invariant
            0 <= i <= v@.len(),
            out@ == v@.subrange(0, i as int).filter(|u: u128| u != id),
        decreases v@.len() - i,
    {
        let x = v[i];
        proof {
            reveal(Seq::filter);
            let pre = v@.subrange(0, i as int);
            let cur = v@.subrange(0, i + 1);
            assert(cur.drop_last() =~= pre);
            assert(cur.last() == v@[i as int]);
        }
        if x != id {
            out.push(x);
        }
        i = i + 1;
    }
    proof {
        assert(v@.subrange(0, v@.len() as int) =~= v@);
    }
    out
}

/// Membership in the stripped occupant list: everything but `id` survives,
/// and `id` does not.
pub proof fn lemma_filter_membership(s: Seq<u128>, id: u128, x: u128)
    ensures
        s.filter(|u: u128| u != id).contains(x) <==> (s.contains(x) && x != id),
{
    let pred = |u: u128| u != id;
    #[allow(deprecated)]
    s.filter_lemma(pred);
    if s.filter(pred).contains(x) {
        let j = choose|j: int| 0 <= j < s.filter(pred).len() && s.filter(pred)[j] == x;
        assert(pred(s.filter(pred)[j]));
        lemma_filter_subset(s, pred, j);
    }
    if s.contains(x) && x != id {
        let j = choose|j: int| 0 <= j < s.len() && s[j] == x;
        assert(pred(s[j]));
        assert(s.filter(pred).contains(s[j]));
    }
}

/// Every element of a filtered sequence occurs in the original.
proof fn lemma_filter_subset(s: Seq<u128>, pred: spec_fn(u128) -> bool, j: int)
    requires
        0 <= j < s.filter(pred).len(),
    ensures
        s.contains(s.filter(pred)[j]),
    decreases s.len(),
{
    reveal(Seq::filter);
    if s.len() > 0 {
        let rest = s.drop_last().filter(pred);
        if j < rest.len() {
            lemma_filter_subset(s.drop_last(), pred, j);
            let k = choose|k: int| 0 <= k < s.drop_last().len() && s.drop_last()[k] == rest[j];
            assert(s[k] == s.filter(pred)[j]);
        } else {
            assert(s[s.len() - 1] == s.filter(pred)[j]);
        }
    }
}

} // verus!
