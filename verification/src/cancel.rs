//! The cancellation protocol.
//!
//! A job that never started running is canceled "trivially": a terminal row
//! is synthesized and the pending row deleted. A running job can only be
//! flagged; the worker executing it observes the flag and unwinds itself. A
//! force cancel removes the row regardless. Canceling a job that is already
//! terminal is a no-op reported as success, never an error.

use vstd::prelude::*;
use crate::errors::ApiError;
use crate::job::{completed_from_queued, completed_matches, CompletedJob, QueuedJob};
use crate::store::{c_has_in_ws, has_audit, q_has, q_has_in_ws, row_present, AuditRow, Store};
use crate::text::{spec_uuid_hyphenated, uuid_hyphenated};

verus! {

/// The reason recorded when a cancel request gives none.
pub open spec fn spec_reason_or_default(reason: Option<Seq<char>>) -> Seq<char> {
    match reason {
        Some(r) => r,
        None => "no reason given"@,
    }
}

/// The error payload recorded on a canceled job:
/// `Job canceled: <reason> by <canceler>`.
pub open spec fn spec_cancel_message(reason: Option<Seq<char>>, by: Seq<char>) -> Seq<char> {
    "Job canceled: "@ + spec_reason_or_default(reason) + " by "@ + by
}

/// The view of an optional string.
pub open spec fn opt_view(s: &Option<String>) -> Option<Seq<char>> {
    match s {
        Some(x) => Some(x@),
        None => None,
    }
}

/// Build the error payload recorded on a canceled job.
pub fn cancel_result_message(reason: &Option<String>, by: &String) -> (r: String)
    ensures
        r@ == spec_cancel_message(opt_view(reason), by@),
{
    let mut s = "Job canceled: ".to_owned();
    match reason {
        Some(x) => s.append(x.as_str()),
        None => s.append("no reason given"),
    }
    s.append(" by ");
    s.append(by.as_str());
    s
}

/// What the audit table records for one applied cancel: one appended row
/// naming the canceler, the operation, the job and its workspace.
pub open spec fn cancel_audited(
    pre: Store,
    post: Store,
    canceled_by: Seq<char>,
    force: bool,
    job: u128,
    w_id: Seq<char>,
) -> bool {
    &&& post.audits@ == pre.audits@.push(post.audits@.last())
    &&& post.audits@.last().username@ == canceled_by
    &&& post.audits@.last().operation@ == (if force {
        "jobs.force_cancel"@
    } else {
        "jobs.cancel"@
    })
    &&& post.audits@.last().job == job
    &&& post.audits@.last().workspace_id@ == w_id
}

/// What one cancel request did to the queue row it addressed, given the row
/// `q` it found at index `i` of the old queue.
///
/// Either the row was removed and a terminal, canceled row appended — the
/// trivial or forced path, which also releases the job's concurrency slots —
/// or the row was only flagged canceled, for the running worker to observe.
/// Either way one audit record is written in the same transaction.
pub open spec fn cancel_applied(
    pre: Store,
    post: Store,
    i: int,
    now: u64,
    canceled_by: Seq<char>,
    reason: Option<Seq<char>>,
    force: bool,
) -> bool {
    let q = pre.queue@[i];
    if force || q.spec_trivially_cancelable() {
        &&& post.queue@ == pre.queue@.remove(i)
        &&& post.completed@.len() == pre.completed@.len() + 1
        &&& post.completed@ == pre.completed@.push(post.completed@.last())
        &&& completed_matches(
            post.completed@.last(),
            q,
            now,
            false,
            spec_cancel_message(reason, canceled_by),
            true,
            post.completed@.last().canceled_by,
            post.completed@.last().canceled_reason,
        )
        &&& opt_view(&post.completed@.last().canceled_by) == Some(canceled_by)
        &&& opt_view(&post.completed@.last().canceled_reason) == reason
        &&& post.counters@.len() == pre.counters@.len()
        &&& forall|k: int|
            0 <= k < pre.counters@.len() ==> (#[trigger] post.counters@[k]).key
                == pre.counters@[k].key && post.counters@[k].job_uuids@ == pre.counters@[
                k
            ].job_uuids@.filter(|u: u128| u != q.id)
        &&& post.resume_jobs@ == pre.resume_jobs@
        &&& post.concurrency_keys@ == pre.concurrency_keys@
        &&& post.monitor_locks@ == pre.monitor_locks@
        &&& post.job_logs@ == pre.job_logs@
        &&& cancel_audited(pre, post, canceled_by, force, q.id, q.workspace_id@)
    } else {
        &&& post.queue@ == pre.queue@.update(
            i,
            QueuedJob {
                canceled: true,
                canceled_by: post.queue@[i].canceled_by,
                canceled_reason: post.queue@[i].canceled_reason,
                ..q
            },
        )
        &&& opt_view(&post.queue@[i].canceled_by) == Some(canceled_by)
        &&& opt_view(&post.queue@[i].canceled_reason) == Some(spec_reason_or_default(reason))
        &&& post.completed@ == pre.completed@
        &&& post.resume_jobs@ == pre.resume_jobs@
        &&& post.concurrency_keys@ == pre.concurrency_keys@
        &&& post.counters@ == pre.counters@
        &&& post.monitor_locks@ == pre.monitor_locks@
        &&& post.job_logs@ == pre.job_logs@
        &&& cancel_audited(pre, post, canceled_by, force, q.id, q.workspace_id@)
    }
}

/// The transactional core of a cancel request.
///
/// Returns the canceled id when a pending row for `(id, w_id)` existed, and
/// `None` when it did not; the caller distinguishes "already completed" from
/// "not found". When `force` is false and the row runs, only the canceled
/// flag is set.
pub fn cancel_job(
    store: &mut Store,
    canceled_by: &String,
    reason: Option<String>,
    id: u128,
    w_id: &String,
    force: bool,
    now: u64,
) -> (r: Option<u128>)
    requires
        old(store).wf(),
    ensures
        final(store).wf(),
        match r {
            Some(rid) => rid == id && exists|i: int|
                0 <= i < old(store).queue@.len() && (#[trigger] old(store).queue@[i]).id == id
                    && old(store).queue@[i].workspace_id@ == w_id@ && cancel_applied(
                    *old(store),
                    *final(store),
                    i,
                    now,
                    canceled_by@,
                    opt_view(&reason),
                    force,
                ),
            None => *final(store) == *old(store) && !exists|i: int|
                0 <= i < old(store).queue@.len() && (#[trigger] old(store).queue@[i]).id == id
                    && old(store).queue@[i].workspace_id@ == w_id@,
        },
{
    let idx = match store.find_queued_in_ws(id, w_id) {
        Some(i) => i,
        None => {
            return None;
        },
    };
    let ghost gi = idx as int;
    let trivial = store.queue[idx].trivially_cancelable();
    let audit_ws = store.queue[idx].workspace_id.clone();
    let operation: String = if force {
        "jobs.force_cancel".to_owned()
    } else {
        "jobs.cancel".to_owned()
    };
    if force || trivial {
        let q = store.take_queued(idx);
        let msg = cancel_result_message(&reason, canceled_by);
        let reason_kept: Option<String> = reason;
        let cj = completed_from_queued(
            q,
            now,
            false,
            msg,
            true,
            Some(canceled_by.clone()),
            reason_kept,
        );
        store.push_completed(cj);
        store.strip_id_from_counters(id);
        store.push_audit(
            AuditRow {
                username: canceled_by.clone(),
                operation,
                job: id,
                workspace_id: audit_ws,
            },
        );
        Some(id)
    } else {
        let q = store.take_queued(idx);
        let default_reason: String = match reason {
            Some(x) => x,
            None => "no reason given".to_owned(),
        };
        let q2 = QueuedJob {
            canceled: true,
            canceled_by: Some(canceled_by.clone()),
            canceled_reason: Some(default_reason),
            ..q
        };
        store.insert_queued(idx, q2);
        store.push_audit(
            AuditRow {
                username: canceled_by.clone(),
                operation,
                job: id,
                workspace_id: audit_ws,
            },
        );
        proof {
            assert(final(store).queue@ =~= old(store).queue@.update(gi, final(store).queue@[gi]));
        }
        Some(id)
    }
}

/// The message reported when the job to cancel is already terminal.
pub open spec fn spec_already_completed_message(id: u128) -> Seq<char> {
    "queued job id "@ + spec_uuid_hyphenated(id) + " is already completed"@
}

/// The message of the error reported when the job to cancel is unknown.
pub open spec fn spec_job_missing_message(id: u128) -> Seq<char> {
    "queued job id "@ + spec_uuid_hyphenated(id) + " does not exist"@
}

/// A cancel request as the API surfaces it.
///
/// A pending row is canceled and its id echoed back; a job already in the
/// workspace's terminal table yields an "already completed" message, not an
/// error; only an id absent from both tables of the workspace is reported
/// missing — a job of another workspace is invisible here.
pub fn cancel_job_api(
    store: &mut Store,
    username: &String,
    reason: Option<String>,
    id: u128,
    w_id: &String,
    force: bool,
    now: u64,
) -> (r: Result<String, ApiError>)
    requires
        old(store).wf(),
    ensures
        final(store).wf(),
        (exists|i: int|
            0 <= i < old(store).queue@.len() && (#[trigger] old(store).queue@[i]).id == id && old(
                store,
            ).queue@[i].workspace_id@ == w_id@) ==> (r matches Ok(s) && s@ == spec_uuid_hyphenated(
            id,
        ) && exists|i: int|
            0 <= i < old(store).queue@.len() && (#[trigger] old(store).queue@[i]).id == id && old(
                store,
            ).queue@[i].workspace_id@ == w_id@ && cancel_applied(
                *old(store),
                *final(store),
                i,
                now,
                username@,
                opt_view(&reason),
                force,
            )),
        (!(exists|i: int|
            0 <= i < old(store).queue@.len() && (#[trigger] old(store).queue@[i]).id == id && old(
                store,
            ).queue@[i].workspace_id@ == w_id@)) ==> *final(store) == *old(store) && (if c_has_in_ws(
            old(store).completed@,
            id,
            w_id@,
        ) {
            r matches Ok(s) && s@ == spec_already_completed_message(id)
        } else {
            r matches Err(e) && e matches ApiError::NotFound(m) && m@ == spec_job_missing_message(
                id,
            )
        }),
{
    match cancel_job(store, username, reason, id, w_id, force, now) {
        Some(rid) => Ok(uuid_hyphenated(rid)),
        None => {
            let uuid_str = uuid_hyphenated(id);
            let terminal_here = match store.find_completed(id) {
                Some(j) => {
                    if store.completed[j].workspace_id == *w_id {
                        true
                    } else {
                        proof {
                            assert forall|k: int|
                                0 <= k < store.completed@.len() implies !((
                            #[trigger] store.completed@[k]).id == id && store.completed@[
                                k
                            ].workspace_id@ == w_id@) by {
                                if k != j as int {
                                    assert(store.completed@[k].id != store.completed@[j as int].id);
                                }
                            }
                        }
                        false
                    }
                },
                None => false,
            };
            if terminal_here {
                let mut s = "queued job id ".to_owned();
                s.append(uuid_str.as_str());
                s.append(" is already completed");
                Ok(s)
            } else {
                let mut s = "queued job id ".to_owned();
                s.append(uuid_str.as_str());
                s.append(" does not exist");
                Err(ApiError::NotFound(s))
            }
        },
    }
}

/// Whether the old queue held a trivially cancelable row for `(id, w_id)`.
pub open spec fn has_trivial_row(q: Seq<QueuedJob>, id: u128, w_id: Seq<char>) -> bool {
    exists|i: int|
        0 <= i < q.len() && (#[trigger] q[i]).id == id && q[i].workspace_id@ == w_id
            && q[i].spec_trivially_cancelable()
}

/// Whether the completed table holds the terminal row of the trivially
/// canceled queue row `q`: failed, canceled by `username`, carrying the
/// bulk-cancel reason and message, with identity and provenance carried over
/// and a zero duration for a row that never started.
pub open spec fn has_cancel_all_row(
    c: Seq<CompletedJob>,
    q: QueuedJob,
    username: Seq<char>,
    now: u64,
) -> bool {
    exists|j: int|
        0 <= j < c.len() && completed_matches(
            #[trigger] c[j],
            q,
            now,
            false,
            spec_cancel_message(Some("cancel all"@), username),
            true,
            c[j].canceled_by,
            c[j].canceled_reason,
        ) && opt_view(&c[j].canceled_by) == Some(username) && opt_view(&c[j].canceled_reason)
            == Some("cancel all"@)
}

/// How many entries of `s` read `x`.
pub open spec fn count_of(s: Seq<u128>, x: u128) -> nat {
    s.filter(|y: u128| y == x).len()
}

/// Appending one entry raises exactly its own count by one.
proof fn lemma_count_push(s: Seq<u128>, v: u128, x: u128)
    ensures
        count_of(s.push(v), x) == count_of(s, x) + (if v == x {
            1int
        } else {
            0int
        }),
{
    reveal(Seq::filter);
    assert(s.push(v).drop_last() =~= s);
}

/// A count is zero exactly when the entry is absent.
proof fn lemma_count_absent(s: Seq<u128>, x: u128)
    ensures
        (count_of(s, x) == 0) <==> !s.contains(x),
    decreases s.len(),
{
    reveal(Seq::filter);
    if s.len() > 0 {
        lemma_count_absent(s.drop_last(), x);
        lemma_count_push(s.drop_last(), s.last(), x);
        assert(s.drop_last().push(s.last()) =~= s);
        if s.contains(x) {
            let j = choose|j: int| 0 <= j < s.len() && s[j] == x;
            if j < s.len() - 1 {
                assert(s.drop_last()[j] == x);
            }
        }
        if s.drop_last().contains(x) {
            let j = choose|j: int| 0 <= j < s.drop_last().len() && s.drop_last()[j] == x;
            assert(s[j] == x);
        }
    }
}

/// Whether some row of `oldq` shares `row`'s identity, workspace and
/// never-started standing: flagging a row canceled changes none of the
/// three.
pub open spec fn row_descends(oldq: Seq<QueuedJob>, row: QueuedJob) -> bool {
    exists|i: int|
        0 <= i < oldq.len() && (#[trigger] oldq[i]).id == row.id && oldq[i].workspace_id
            == row.workspace_id && oldq[i].spec_trivially_cancelable()
            == row.spec_trivially_cancelable()
}

/// The bulk-cancel outcome for one requested id whose row never started:
/// some queue row of the workspace carried the id, never started, and has
/// its bulk-cancel terminal row recorded.
pub open spec fn cancel_all_resolved(
    oldq: Seq<QueuedJob>,
    c: Seq<CompletedJob>,
    id: u128,
    w_id: Seq<char>,
    username: Seq<char>,
    now: u64,
) -> bool {
    exists|i: int|
        0 <= i < oldq.len() && (#[trigger] oldq[i]).id == id && oldq[i].workspace_id@ == w_id
            && oldq[i].spec_trivially_cancelable() && has_cancel_all_row(c, oldq[i], username, now)
}

/// The first pass of a bulk cancellation: every requested job of the
/// workspace that never started running is moved to the terminal table with
/// the bulk-cancel payload and an audit record; every other row is
/// untouched. Returns the moved ids.
#[verifier::rlimit(100)]
fn cancel_trivial_pass(
    store: &mut Store,
    jobs: &Vec<u128>,
    username: &String,
    w_id: &String,
    now: u64,
) -> (trivial: Vec<u128>)
    requires
        old(store).wf(),
    ensures
        final(store).wf(),
        forall|k: int|
            0 <= k < jobs@.len() && has_trivial_row(old(store).queue@, #[trigger] jobs@[k], w_id@)
                ==> trivial@.contains(jobs@[k]) && !q_has(final(store).queue@, jobs@[k]),
        forall|t: int|
            0 <= t < trivial@.len() ==> jobs@.contains(#[trigger] trivial@[t]) && has_trivial_row(
                old(store).queue@,
                trivial@[t],
                w_id@,
            ),
        forall|t1: int, t2: int|
            0 <= t1 < t2 < trivial@.len() ==> trivial@[t1] != trivial@[t2],
        forall|i: int|
            0 <= i < old(store).queue@.len() && (#[trigger] old(store).queue@[i]).workspace_id@
                == w_id@ && old(store).queue@[i].spec_trivially_cancelable() && !q_has(
                final(store).queue@,
                old(store).queue@[i].id,
            ) ==> trivial@.contains(old(store).queue@[i].id) && has_cancel_all_row(
                final(store).completed@,
                old(store).queue@[i],
                username@,
                now,
            ),
        forall|j: int|
            0 <= j < final(store).queue@.len() ==> row_present(
                old(store).queue@,
                #[trigger] final(store).queue@[j],
            ),
        forall|i: int|
            0 <= i < old(store).queue@.len() && (#[trigger] old(store).queue@[i]).workspace_id@
                == w_id@ && !old(store).queue@[i].spec_trivially_cancelable() ==> q_has_in_ws(
                final(store).queue@,
                old(store).queue@[i].id,
                w_id@,
            ),
        forall|k: int|
            0 <= k < jobs@.len() && has_trivial_row(old(store).queue@, #[trigger] jobs@[k], w_id@)
                ==> has_audit(final(store).audits@, username@, "jobs.cancel"@, jobs@[k], w_id@),
{
    let mut trivial: Vec<u128> = Vec::new();
    let mut m: usize = 0;
    proof {
        assert forall|j: int|
            0 <= j < old(store).queue@.len() implies row_present(
            store.queue@,
            #[trigger] old(store).queue@[j],
        ) by {
            assert(store.queue@[j] == old(store).queue@[j]);
        }
        assert forall|j: int|
            0 <= j < store.queue@.len() implies row_present(
            old(store).queue@,
            #[trigger] store.queue@[j],
        ) by {
            assert(old(store).queue@[j] == store.queue@[j]);
        }
    }
    while m < jobs.len()
        invariant
            old(store).wf(),
            store.wf(),
            0 <= m <= jobs@.len(),
            // processed never-started requests are resolved
            forall|k: int|
                0 <= k < m && has_trivial_row(old(store).queue@, #[trigger] jobs@[k], w_id@)
                    ==> trivial@.contains(jobs@[k]) && !q_has(store.queue@, jobs@[k]),
            // the trivially canceled ids were requested never-started rows,
            // each moved out of the queue once
            forall|t: int|
                0 <= t < trivial@.len() ==> jobs@.contains(#[trigger] trivial@[t])
                    && has_trivial_row(old(store).queue@, trivial@[t], w_id@),
            forall|t: int| 0 <= t < trivial@.len() ==> !q_has(store.queue@, #[trigger] trivial@[t]),
            forall|t1: int, t2: int|
                0 <= t1 < t2 < trivial@.len() ==> trivial@[t1] != trivial@[t2],
            // rows not yet moved survive by value
            forall|i: int|
                0 <= i < old(store).queue@.len() && q_has(
                    store.queue@,
                    (#[trigger] old(store).queue@[i]).id,
                ) ==> row_present(store.queue@, old(store).queue@[i]),
            // every queued row is an old row, by value
            forall|j: int|
                0 <= j < store.queue@.len() ==> row_present(
                    old(store).queue@,
                    #[trigger] store.queue@[j],
                ),
            // rows that started, or that something still drives, stay queued
            forall|i: int|
                0 <= i < old(store).queue@.len() && !(
                #[trigger] old(store).queue@[i]).spec_trivially_cancelable() ==> q_has(
                    store.queue@,
                    old(store).queue@[i].id,
                ),
            // a never-started row leaves the queue only by being moved here
            forall|i: int|
                0 <= i < old(store).queue@.len() && (#[trigger] old(store).queue@[i]).workspace_id@
                    == w_id@ && old(store).queue@[i].spec_trivially_cancelable() && !q_has(
                    store.queue@,
                    old(store).queue@[i].id,
                ) ==> trivial@.contains(old(store).queue@[i].id) && has_cancel_all_row(
                    store.completed@,
                    old(store).queue@[i],
                    username@,
                    now,
                ),
            // each move left its audit record
            forall|t: int|
                0 <= t < trivial@.len() ==> has_audit(
                    store.audits@,
                    username@,
                    "jobs.cancel"@,
                    #[trigger] trivial@[t],
                    w_id@,
                ),
        decreases jobs@.len() - m,
    {
        let id = jobs[m];
        let ghost pre = *store;
        let ghost oldq = old(store).queue@;
        match store.find_queued_in_ws(id, w_id) {
            Some(i) => {
                if store.queue[i].trivially_cancelable() {
                    let ghost pret = trivial@;
                    let q = store.take_queued(i);
                    let reason: Option<String> = Some("cancel all".to_owned());
                    let msg = cancel_result_message(&reason, username);
                    let cj = completed_from_queued(
                        q,
                        now,
                        false,
                        msg,
                        true,
                        Some(username.clone()),
                        reason,
                    );
                    store.push_completed(cj);
                    store.push_audit(
                        AuditRow {
                            username: username.clone(),
                            operation: "jobs.cancel".to_owned(),
                            job: id,
                            workspace_id: w_id.clone(),
                        },
                    );
                    trivial.push(id);
                    proof {
                        // The new audit record serves the moved id; earlier
                        // records sit where they were.
                        let la = store.audits@.len() - 1;
                        assert forall|t: int|
                            0 <= t < trivial@.len() implies has_audit(
                            store.audits@,
                            username@,
                            "jobs.cancel"@,
                            #[trigger] trivial@[t],
                            w_id@,
                        ) by {
                            if t < pret.len() {
                                assert(trivial@[t] == pret[t]);
                                let j3 = choose|j3: int|
                                    0 <= j3 < pre.audits@.len() && (
                                    #[trigger] pre.audits@[j3]).username@ == username@
                                        && pre.audits@[j3].operation@ == "jobs.cancel"@
                                        && pre.audits@[j3].job == pret[t] && pre.audits@[
                                        j3
                                    ].workspace_id@ == w_id@;
                                assert(store.audits@[j3] == pre.audits@[j3]);
                            } else {
                                assert(trivial@[t] == id);
                                assert(store.audits@[la].username@ == username@ && store.audits@[
                                    la
                                ].operation@ == "jobs.cancel"@ && store.audits@[la].job == id
                                    && store.audits@[la].workspace_id@ == w_id@);
                            }
                        }
                        crate::store::lemma_q_remove(pre.queue@, i as int);
                        crate::store::lemma_remove_preserves_others(pre.queue@, i as int);
                        // The moved row is an old row, by value.
                        assert(row_present(oldq, pre.queue@[i as int]));
                        let oi = choose|oi: int|
                            0 <= oi < oldq.len() && #[trigger] oldq[oi] == pre.queue@[i as int];
                        // Every surviving row is still an old row.
                        assert forall|j: int|
                            0 <= j < store.queue@.len() implies row_present(
                            oldq,
                            #[trigger] store.queue@[j],
                        ) by {
                            pre.queue@.remove_ensures(i as int);
                            if j < i as int {
                                assert(store.queue@[j] == pre.queue@[j]);
                                assert(row_present(oldq, pre.queue@[j]));
                            } else {
                                assert(store.queue@[j] == pre.queue@[j + 1]);
                                assert(row_present(oldq, pre.queue@[j + 1]));
                            }
                        }
                        assert(has_trivial_row(oldq, id, w_id@)) by {
                            assert(oldq[oi].id == id && oldq[oi].workspace_id@ == w_id@
                                && oldq[oi].spec_trivially_cancelable());
                        }
                        // The pushed row is its bulk-cancel terminal row.
                        let last = store.completed@.len() - 1;
                        assert(has_cancel_all_row(store.completed@, oldq[oi], username@, now)) by {
                            assert(completed_matches(
                                store.completed@[last],
                                oldq[oi],
                                now,
                                false,
                                spec_cancel_message(Some("cancel all"@), username@),
                                true,
                                store.completed@[last].canceled_by,
                                store.completed@[last].canceled_reason,
                            ));
                        }
                        assert forall|k: int|
                            0 <= k < m + 1 && has_trivial_row(
                                oldq,
                                #[trigger] jobs@[k],
                                w_id@,
                            ) implies trivial@.contains(jobs@[k]) && !q_has(
                            store.queue@,
                            jobs@[k],
                        ) by {
                            if k < m && jobs@[k] != id {
                                let t = choose|t: int|
                                    0 <= t < pret.len() && #[trigger] pret[t] == jobs@[k];
                                assert(trivial@[t] == jobs@[k]);
                            } else if jobs@[k] == id {
                                assert(trivial@[trivial@.len() - 1] == id);
                            }
                        }
                        assert forall|t: int|
                            0 <= t < trivial@.len() implies jobs@.contains(#[trigger] trivial@[t])
                            && has_trivial_row(oldq, trivial@[t], w_id@) by {
                            if t < pret.len() {
                                assert(trivial@[t] == pret[t]);
                            } else {
                                assert(trivial@[t] == id);
                                assert(jobs@[m as int] == id);
                            }
                        }
                        // The moved id left the queue, and each earlier
                        // entry stays out: the new entry is fresh.
                        assert(q_has(pre.queue@, id)) by {
                            assert(pre.queue@[i as int].id == id);
                        }
                        assert forall|t: int|
                            0 <= t < trivial@.len() implies !q_has(
                            store.queue@,
                            #[trigger] trivial@[t],
                        ) by {
                            if t < pret.len() {
                                assert(trivial@[t] == pret[t]);
                                if q_has(store.queue@, pret[t]) {
                                    assert(q_has(pre.queue@, pret[t]));
                                }
                            } else {
                                assert(trivial@[t] == id);
                            }
                        }
                        assert forall|t1: int, t2: int|
                            0 <= t1 < t2 < trivial@.len() implies trivial@[t1] != trivial@[
                            t2
                        ] by {
                            if t2 == trivial@.len() - 1 {
                                assert(trivial@[t1] == pret[t1]);
                                assert(!q_has(pre.queue@, pret[t1]));
                                assert(trivial@[t2] == id);
                            } else {
                                assert(trivial@[t1] == pret[t1] && trivial@[t2] == pret[t2]);
                            }
                        }
                        assert forall|i2: int|
                            0 <= i2 < oldq.len() && q_has(
                                store.queue@,
                                (#[trigger] oldq[i2]).id,
                            ) implies row_present(store.queue@, oldq[i2]) by {
                            let oid = oldq[i2].id;
                            assert(q_has(pre.queue@, oid));
                            assert(oid != id);
                            let j = choose|j: int|
                                0 <= j < pre.queue@.len() && #[trigger] pre.queue@[j] == oldq[i2];
                            assert(j != i as int);
                        }
                        assert forall|i2: int|
                            0 <= i2 < oldq.len() && !(
                            #[trigger] oldq[i2]).spec_trivially_cancelable() implies q_has(
                            store.queue@,
                            oldq[i2].id,
                        ) by {
                            assert(oldq[i2].id != id) by {
                                if oldq[i2].id == id {
                                    if oi != i2 {
                                        assert(oldq[oi].id != oldq[i2].id);
                                    }
                                }
                            }
                            assert(q_has(pre.queue@, oldq[i2].id));
                        }
                        // Earlier terminal rows sit where they were.
                        assert forall|i2: int|
                            0 <= i2 < oldq.len() && (#[trigger] oldq[i2]).workspace_id@ == w_id@
                                && oldq[i2].spec_trivially_cancelable() && !q_has(
                                store.queue@,
                                oldq[i2].id,
                            ) implies trivial@.contains(oldq[i2].id) && has_cancel_all_row(
                            store.completed@,
                            oldq[i2],
                            username@,
                            now,
                        ) by {
                            let oid = oldq[i2].id;
                            if oid == id {
                                assert(trivial@[trivial@.len() - 1] == id);
                                if oi != i2 {
                                    assert(oldq[oi].id != oldq[i2].id);
                                }
                                assert(oldq[i2] == oldq[oi]);
                            } else {
                                assert(!q_has(pre.queue@, oid));
                                let t = choose|t: int|
                                    0 <= t < pret.len() && #[trigger] pret[t] == oid;
                                assert(trivial@[t] == oid);
                                let j2 = choose|j2: int|
                                    0 <= j2 < pre.completed@.len() && completed_matches(
                                        #[trigger] pre.completed@[j2],
                                        oldq[i2],
                                        now,
                                        false,
                                        spec_cancel_message(Some("cancel all"@), username@),
                                        true,
                                        pre.completed@[j2].canceled_by,
                                        pre.completed@[j2].canceled_reason,
                                    ) && opt_view(&pre.completed@[j2].canceled_by) == Some(
                                        username@,
                                    ) && opt_view(&pre.completed@[j2].canceled_reason) == Some(
                                        "cancel all"@,
                                    );
                                assert(store.completed@[j2] == pre.completed@[j2]);
                            }
                        }
                    }
                } else {
                    proof {
                        if has_trivial_row(oldq, id, w_id@) {
                            let oi = choose|oi: int|
                                0 <= oi < oldq.len() && (#[trigger] oldq[oi]).id == id
                                    && oldq[oi].workspace_id@ == w_id@ && oldq[
                                    oi
                                ].spec_trivially_cancelable();
                            if q_has(store.queue@, id) {
                                assert(row_present(store.queue@, oldq[oi]));
                                let j = choose|j: int|
                                    0 <= j < store.queue@.len() && #[trigger] store.queue@[j]
                                        == oldq[oi];
                                if j != i as int {
                                    assert(store.queue@[j].id != store.queue@[i as int].id);
                                }
                                assert(store.queue@[i as int].spec_trivially_cancelable());
                                assert(false);
                            }
                        }
                    }
                }
            },
            None => {
                proof {
                    if has_trivial_row(oldq, id, w_id@) {
                        let oi = choose|oi: int|
                            0 <= oi < oldq.len() && (#[trigger] oldq[oi]).id == id && oldq[
                                oi
                            ].workspace_id@ == w_id@ && oldq[oi].spec_trivially_cancelable();
                        if q_has(store.queue@, id) {
                            assert(row_present(store.queue@, oldq[oi]));
                            let j = choose|j: int|
                                0 <= j < store.queue@.len() && #[trigger] store.queue@[j] == oldq[
                                    oi
                                ];
                            assert(false);
                        }
                    }
                }
            },
        }
        m = m + 1;
    }
    proof {
        // A row that started keeps a pending row of the workspace.
        assert forall|i: int|
            0 <= i < old(store).queue@.len() && (#[trigger] old(store).queue@[i]).workspace_id@
                == w_id@ && !old(store).queue@[i].spec_trivially_cancelable() implies q_has_in_ws(
            store.queue@,
            old(store).queue@[i].id,
            w_id@,
        ) by {
            assert(q_has(store.queue@, old(store).queue@[i].id));
            assert(row_present(store.queue@, old(store).queue@[i]));
            let j = choose|j: int|
                0 <= j < store.queue@.len() && #[trigger] store.queue@[j] == old(store).queue@[i];
            assert(store.queue@[j].id == old(store).queue@[i].id && store.queue@[j].workspace_id@
                == w_id@);
        }
        // Every moved request has its audit record.
        assert forall|k: int|
            0 <= k < jobs@.len() && has_trivial_row(
                old(store).queue@,
                #[trigger] jobs@[k],
                w_id@,
            ) implies has_audit(store.audits@, username@, "jobs.cancel"@, jobs@[k], w_id@) by {
            let t = choose|t: int| 0 <= t < trivial@.len() && trivial@[t] == jobs@[k];
            assert(has_audit(store.audits@, username@, "jobs.cancel"@, trivial@[t], w_id@));
        }
    }
    trivial
}

/// The second pass of a bulk cancellation: each requested id the first pass
/// did not move goes through the cancellation core. Only rows that started
/// remain addressable, so the core only flags rows: the tables keep their
/// ids and the terminal table is untouched. `oldq` is the queue as the bulk
/// request found it.
#[verifier::rlimit(100)]
fn cancel_core_pass(
    store: &mut Store,
    jobs: &Vec<u128>,
    trivial: &Vec<u128>,
    username: &String,
    w_id: &String,
    now: u64,
    Ghost(oldq): Ghost<Seq<QueuedJob>>,
) -> (uuids: Vec<u128>)
    requires
        old(store).wf(),
        forall|k: int|
            0 <= k < jobs@.len() && has_trivial_row(oldq, #[trigger] jobs@[k], w_id@)
                ==> trivial@.contains(jobs@[k]) && !q_has(old(store).queue@, jobs@[k]),
        forall|j: int|
            0 <= j < old(store).queue@.len() ==> row_present(
                oldq,
                #[trigger] old(store).queue@[j],
            ),
        forall|i: int|
            0 <= i < oldq.len() && (#[trigger] oldq[i]).workspace_id@ == w_id@
                && !oldq[i].spec_trivially_cancelable() ==> q_has_in_ws(
                old(store).queue@,
                oldq[i].id,
                w_id@,
            ),
    ensures
        final(store).wf(),
        final(store).completed@ == old(store).completed@,
        final(store).audits@.len() >= old(store).audits@.len(),
        forall|j: int|
            0 <= j < old(store).audits@.len() ==> final(store).audits@[j] == old(store).audits@[j],
        forall|x: u128| q_has(final(store).queue@, x) <==> q_has(old(store).queue@, x),
        forall|t: int|
            0 <= t < uuids@.len() ==> jobs@.contains(#[trigger] uuids@[t]) && q_has_in_ws(
                oldq,
                uuids@[t],
                w_id@,
            ),
        forall|k: int|
            0 <= k < jobs@.len() && q_has_in_ws(oldq, #[trigger] jobs@[k], w_id@)
                && !trivial@.contains(jobs@[k]) ==> uuids@.contains(jobs@[k]),
        forall|t: int| 0 <= t < uuids@.len() ==> !trivial@.contains(#[trigger] uuids@[t]),
        forall|x: u128| count_of(uuids@, x) <= count_of(jobs@, x),
{
    let mut uuids: Vec<u128> = Vec::new();
    let mut m2: usize = 0;
    proof {
        assert forall|x: u128|
            count_of(uuids@, x) <= count_of(jobs@.subrange(0, 0), x) by {
            reveal(Seq::filter);
            assert(uuids@ =~= Seq::<u128>::empty());
            assert(jobs@.subrange(0, 0) =~= Seq::<u128>::empty());
        }
        // Every queued row descends from a row of `oldq` with the same
        // identity, workspace and standing.
        assert forall|j: int|
            0 <= j < store.queue@.len() implies row_descends(
            oldq,
            #[trigger] store.queue@[j],
        ) by {
            assert(row_present(oldq, store.queue@[j]));
            let i = choose|i: int| 0 <= i < oldq.len() && #[trigger] oldq[i] == store.queue@[j];
            assert(oldq[i].id == store.queue@[j].id && oldq[i].workspace_id == store.queue@[
                j
            ].workspace_id && oldq[i].spec_trivially_cancelable() == store.queue@[
                j
            ].spec_trivially_cancelable());
        }
    }
    while m2 < jobs.len()
        invariant
            old(store).wf(),
            store.wf(),
            0 <= m2 <= jobs@.len(),
            store.completed@ == old(store).completed@,
            store.audits@.len() >= old(store).audits@.len(),
            forall|j: int|
                0 <= j < old(store).audits@.len() ==> store.audits@[j] == old(store).audits@[j],
            forall|k: int|
                0 <= k < jobs@.len() && has_trivial_row(oldq, #[trigger] jobs@[k], w_id@)
                    ==> trivial@.contains(jobs@[k]),
            forall|x: u128| q_has(store.queue@, x) <==> q_has(old(store).queue@, x),
            forall|j: int|
                0 <= j < store.queue@.len() ==> row_descends(oldq, #[trigger] store.queue@[j]),
            forall|i: int|
                0 <= i < oldq.len() && (#[trigger] oldq[i]).workspace_id@ == w_id@
                    && !oldq[i].spec_trivially_cancelable() ==> q_has_in_ws(
                    store.queue@,
                    oldq[i].id,
                    w_id@,
                ),
            forall|t: int|
                0 <= t < uuids@.len() ==> jobs@.contains(#[trigger] uuids@[t]) && q_has_in_ws(
                    oldq,
                    uuids@[t],
                    w_id@,
                ),
            forall|k: int|
                0 <= k < m2 && q_has_in_ws(oldq, #[trigger] jobs@[k], w_id@)
                    && !trivial@.contains(jobs@[k]) ==> uuids@.contains(jobs@[k]),
            forall|t: int| 0 <= t < uuids@.len() ==> !trivial@.contains(#[trigger] uuids@[t]),
            forall|x: u128| count_of(uuids@, x) <= count_of(jobs@.subrange(0, m2 as int), x),
        decreases jobs@.len() - m2,
    {
        let id = jobs[m2];
        let ghost jobs_pre = jobs@.subrange(0, m2 as int);
        proof {
            assert(jobs@.subrange(0, m2 + 1) =~= jobs_pre.push(jobs@[m2 as int]));
        }
        let mut in_trivial = false;
        let mut t: usize = 0;
        while t < trivial.len()
            invariant
                0 <= t <= trivial@.len(),
                in_trivial ==> trivial@.contains(id),
                !in_trivial ==> forall|u: int| 0 <= u < t ==> trivial@[u] != id,
            decreases trivial@.len() - t,
        {
            if trivial[t] == id {
                in_trivial = true;
            }
            t = t + 1;
        }
        if !in_trivial {
            let ghost pre = *store;
            let res = cancel_job(store, username, None, id, w_id, false, now);
            proof {
                if res is Some {
                    let ci = choose|ci: int|
                        0 <= ci < pre.queue@.len() && (#[trigger] pre.queue@[ci]).id == id
                            && pre.queue@[ci].workspace_id@ == w_id@ && cancel_applied(
                            pre,
                            *store,
                            ci,
                            now,
                            username@,
                            opt_view(&None),
                            false,
                        );
                    assert(row_descends(oldq, pre.queue@[ci]));
                    // The addressed row started: a never-started requested
                    // row was moved by the first pass and cannot be found.
                    assert(!pre.queue@[ci].spec_trivially_cancelable()) by {
                        if pre.queue@[ci].spec_trivially_cancelable() {
                            let oi = choose|oi: int|
                                0 <= oi < oldq.len() && (#[trigger] oldq[oi]).id
                                    == pre.queue@[ci].id && oldq[oi].workspace_id == pre.queue@[
                                    ci
                                ].workspace_id && oldq[oi].spec_trivially_cancelable()
                                    == pre.queue@[ci].spec_trivially_cancelable();
                            assert(has_trivial_row(oldq, id, w_id@));
                            assert(trivial@.contains(id));
                        }
                    }
                    // So the row was only flagged: ids, workspaces and
                    // standing are all kept, and the terminal table is
                    // untouched.
                    assert(store.queue@[ci].id == pre.queue@[ci].id && store.queue@[
                        ci
                    ].workspace_id == pre.queue@[ci].workspace_id && store.queue@[
                        ci
                    ].spec_trivially_cancelable() == pre.queue@[ci].spec_trivially_cancelable());
                    assert forall|j: int|
                        0 <= j < old(store).audits@.len() implies store.audits@[j] == old(
                        store,
                    ).audits@[j] by {
                        assert(store.audits@[j] == pre.audits@[j]);
                    }
                    assert forall|x: u128| q_has(store.queue@, x) implies q_has(
                        pre.queue@,
                        x,
                    ) by {
                        let j = choose|j: int|
                            0 <= j < store.queue@.len() && (#[trigger] store.queue@[j]).id == x;
                        assert(pre.queue@[j].id == x);
                    }
                    assert forall|x: u128| q_has(pre.queue@, x) implies q_has(
                        store.queue@,
                        x,
                    ) by {
                        let j = choose|j: int|
                            0 <= j < pre.queue@.len() && (#[trigger] pre.queue@[j]).id == x;
                        assert(store.queue@[j].id == x);
                    }
                    assert forall|j: int|
                        0 <= j < store.queue@.len() implies row_descends(
                        oldq,
                        #[trigger] store.queue@[j],
                    ) by {
                        if j == ci {
                            let i = choose|i: int|
                                0 <= i < oldq.len() && (#[trigger] oldq[i]).id
                                    == pre.queue@[ci].id && oldq[i].workspace_id == pre.queue@[
                                    ci
                                ].workspace_id && oldq[i].spec_trivially_cancelable()
                                    == pre.queue@[ci].spec_trivially_cancelable();
                            assert(oldq[i].id == store.queue@[j].id && oldq[i].workspace_id
                                == store.queue@[j].workspace_id && oldq[
                                i
                            ].spec_trivially_cancelable() == store.queue@[
                                j
                            ].spec_trivially_cancelable());
                        } else {
                            assert(store.queue@[j] == pre.queue@[j]);
                            assert(row_descends(oldq, pre.queue@[j]));
                        }
                    }
                    assert forall|i: int|
                        0 <= i < oldq.len() && (#[trigger] oldq[i]).workspace_id@ == w_id@
                            && !oldq[i].spec_trivially_cancelable() implies q_has_in_ws(
                        store.queue@,
                        oldq[i].id,
                        w_id@,
                    ) by {
                        let j = choose|j: int|
                            0 <= j < pre.queue@.len() && (#[trigger] pre.queue@[j]).id == oldq[
                                i
                            ].id && pre.queue@[j].workspace_id@ == w_id@;
                        if j == ci {
                            assert(store.queue@[j].id == oldq[i].id && store.queue@[
                                j
                            ].workspace_id@ == w_id@);
                        } else {
                            assert(store.queue@[j] == pre.queue@[j]);
                            assert(store.queue@[j].id == oldq[i].id && store.queue@[
                                j
                            ].workspace_id@ == w_id@);
                        }
                    }
                }
                if res is None {
                    // Nothing of the workspace carries the id: the request
                    // owed nothing here.
                    if q_has_in_ws(oldq, id, w_id@) {
                        let oi = choose|oi: int|
                            0 <= oi < oldq.len() && (#[trigger] oldq[oi]).id == id && oldq[
                                oi
                            ].workspace_id@ == w_id@;
                        if oldq[oi].spec_trivially_cancelable() {
                            assert(has_trivial_row(oldq, id, w_id@));
                            assert(trivial@.contains(id));
                            assert(false);
                        } else {
                            let j = choose|j: int|
                                0 <= j < pre.queue@.len() && (#[trigger] pre.queue@[j]).id == oldq[
                                    oi
                                ].id && pre.queue@[j].workspace_id@ == w_id@;
                            assert(false);
                        }
                    }
                }
            }
            match res {
                Some(rid) => {
                    let ghost preu = uuids@;
                    uuids.push(rid);
                    proof {
                        assert(uuids@[uuids@.len() - 1] == id);
                        assert(q_has_in_ws(oldq, id, w_id@)) by {
                            let ci = choose|ci: int|
                                0 <= ci < pre.queue@.len() && (#[trigger] pre.queue@[ci]).id == id
                                    && pre.queue@[ci].workspace_id@ == w_id@ && cancel_applied(
                                    pre,
                                    *store,
                                    ci,
                                    now,
                                    username@,
                                    opt_view(&None),
                                    false,
                                );
                            assert(row_descends(oldq, pre.queue@[ci]));
                            let oi = choose|oi: int|
                                0 <= oi < oldq.len() && (#[trigger] oldq[oi]).id
                                    == pre.queue@[ci].id && oldq[oi].workspace_id == pre.queue@[
                                    ci
                                ].workspace_id && oldq[oi].spec_trivially_cancelable()
                                    == pre.queue@[ci].spec_trivially_cancelable();
                            assert(oldq[oi].id == id && oldq[oi].workspace_id@ == w_id@);
                        }
                        assert forall|t2: int|
                            0 <= t2 < uuids@.len() implies jobs@.contains(#[trigger] uuids@[t2])
                            && q_has_in_ws(oldq, uuids@[t2], w_id@) by {
                            if t2 < preu.len() {
                                assert(uuids@[t2] == preu[t2]);
                            } else {
                                assert(uuids@[t2] == id);
                                assert(jobs@[m2 as int] == id);
                            }
                        }
                        assert forall|k: int|
                            0 <= k < m2 + 1 && q_has_in_ws(oldq, #[trigger] jobs@[k], w_id@)
                                && !trivial@.contains(jobs@[k]) implies uuids@.contains(
                            jobs@[k],
                        ) by {
                            if k < m2 {
                                let u = choose|u: int|
                                    0 <= u < preu.len() && #[trigger] preu[u] == jobs@[k];
                                assert(uuids@[u] == jobs@[k]);
                            } else {
                                assert(uuids@[uuids@.len() - 1] == jobs@[k]);
                            }
                        }
                        // The echo spends this occurrence of the request.
                        assert forall|x: u128|
                            count_of(uuids@, x) <= count_of(
                            jobs@.subrange(0, m2 + 1),
                            x,
                        ) by {
                            lemma_count_push(preu, id, x);
                            lemma_count_push(jobs_pre, jobs@[m2 as int], x);
                        }
                        assert forall|t2: int|
                            0 <= t2 < uuids@.len() implies !trivial@.contains(
                            #[trigger] uuids@[t2],
                        ) by {
                            if t2 < preu.len() {
                                assert(uuids@[t2] == preu[t2]);
                            } else {
                                assert(uuids@[t2] == id);
                                if trivial@.contains(id) {
                                    let u = choose|u: int|
                                        0 <= u < trivial@.len() && trivial@[u] == id;
                                }
                            }
                        }
                    }
                },
                None => {
                    proof {
                        assert forall|x: u128|
                            count_of(uuids@, x) <= count_of(
                            jobs@.subrange(0, m2 + 1),
                            x,
                        ) by {
                            lemma_count_push(jobs_pre, jobs@[m2 as int], x);
                        }
                    }
                },
            }
        } else {
            proof {
                assert(trivial@.contains(id));
                assert forall|x: u128|
                    count_of(uuids@, x) <= count_of(jobs@.subrange(0, m2 + 1), x) by {
                    lemma_count_push(jobs_pre, jobs@[m2 as int], x);
                }
            }
        }
        m2 = m2 + 1;
    }
    proof {
        assert(jobs@.subrange(0, jobs@.len() as int) =~= jobs@);
    }
    uuids
}

/// Bulk cancellation.
///
/// Every requested job of the workspace that never started running (not
/// running, no parent, not driven by a schedule) is canceled trivially in
/// one pass: its terminal row is synthesized with the bulk-cancel payload
/// and the pending row deleted, without a per-id round trip to the
/// cancellation core. The remaining ids then go through the core one by
/// one; a running job is only flagged. The returned ids are exactly the
/// requested ids that had a pending row in the workspace, and no id is
/// echoed more often than it was requested: a trivially canceled id once,
/// a flagged id once per repeated request, as each request cancels with
/// success.
#[verifier::rlimit(100)]
pub fn cancel_jobs(
    store: &mut Store,
    jobs: &Vec<u128>,
    username: &String,
    w_id: &String,
    now: u64,
) -> (uuids: Vec<u128>)
    requires
        old(store).wf(),
    ensures
        final(store).wf(),
        forall|k: int|
            0 <= k < uuids@.len() ==> jobs@.contains(#[trigger] uuids@[k]) && q_has_in_ws(
                old(store).queue@,
                uuids@[k],
                w_id@,
            ),
        forall|k: int|
            0 <= k < jobs@.len() && q_has_in_ws(old(store).queue@, #[trigger] jobs@[k], w_id@)
                ==> uuids@.contains(jobs@[k]),
        forall|k: int|
            0 <= k < jobs@.len() && has_trivial_row(old(store).queue@, #[trigger] jobs@[k], w_id@)
                ==> uuids@.contains(jobs@[k]) && !q_has(final(store).queue@, jobs@[k])
                && cancel_all_resolved(
                old(store).queue@,
                final(store).completed@,
                jobs@[k],
                w_id@,
                username@,
                now,
            ) && has_audit(final(store).audits@, username@, "jobs.cancel"@, jobs@[k], w_id@),
        forall|x: u128| count_of(uuids@, x) <= count_of(jobs@, x),
{
    let ghost oldq = old(store).queue@;
    let trivial = cancel_trivial_pass(store, jobs, username, w_id, now);
    let ghost mid = *store;
    let mut uuids = cancel_core_pass(store, jobs, &trivial, username, w_id, now, Ghost(oldq));
    // The trivially canceled ids are part of the answer: each one echo, so
    // no id is echoed more often than it was requested.
    let mut t2: usize = 0;
    proof {
        assert forall|x: u128|
            trivial@.subrange(t2 as int, trivial@.len() as int).contains(x) implies
            !uuids@.contains(x) by {
            let u = choose|u: int|
                0 <= u < trivial@.len() && #[trigger] trivial@.subrange(
                    t2 as int,
                    trivial@.len() as int,
                )[u] == x;
            assert(trivial@[u] == x);
            if uuids@.contains(x) {
                let v = choose|v: int| 0 <= v < uuids@.len() && uuids@[v] == x;
                assert(!trivial@.contains(uuids@[v]));
            }
        }
    }
    while t2 < trivial.len()
        invariant
            0 <= t2 <= trivial@.len(),
            forall|t: int|
                0 <= t < uuids@.len() ==> jobs@.contains(#[trigger] uuids@[t]) && q_has_in_ws(
                    oldq,
                    uuids@[t],
                    w_id@,
                ),
            forall|k: int|
                0 <= k < jobs@.len() && q_has_in_ws(oldq, #[trigger] jobs@[k], w_id@)
                    && !trivial@.contains(jobs@[k]) ==> uuids@.contains(jobs@[k]),
            forall|t: int|
                0 <= t < trivial@.len() ==> jobs@.contains(#[trigger] trivial@[t])
                    && has_trivial_row(oldq, trivial@[t], w_id@),
            forall|t1: int, t2a: int|
                0 <= t1 < t2a < trivial@.len() ==> trivial@[t1] != trivial@[t2a],
            forall|k: int| 0 <= k < t2 ==> uuids@.contains(#[trigger] trivial@[k]),
            forall|x: u128| count_of(uuids@, x) <= count_of(jobs@, x),
            forall|x: u128|
                trivial@.subrange(t2 as int, trivial@.len() as int).contains(x)
                    ==> !uuids@.contains(x),
        decreases trivial@.len() - t2,
    {
        let ghost preu = uuids@;
        uuids.push(trivial[t2]);
        proof {
            let ghost v = trivial@[t2 as int];
            // The appended id was absent, so its count rises from zero to
            // one, within its request count; the later entries stay absent.
            assert(trivial@.subrange(t2 as int, trivial@.len() as int)[0] == v);
            assert(trivial@.subrange(t2 as int, trivial@.len() as int).contains(v));
            assert(!preu.contains(v));
            assert(jobs@.contains(v));
            lemma_count_absent(preu, v);
            lemma_count_absent(jobs@, v);
            assert forall|x: u128| count_of(uuids@, x) <= count_of(jobs@, x) by {
                lemma_count_push(preu, v, x);
            }
            assert forall|x: u128|
                trivial@.subrange(t2 + 1, trivial@.len() as int).contains(x) implies
                !uuids@.contains(x) by {
                let u = choose|u: int|
                    0 <= u < trivial@.len() - t2 - 1 && #[trigger] trivial@.subrange(
                        t2 + 1,
                        trivial@.len() as int,
                    )[u] == x;
                assert(trivial@[t2 + 1 + u] == x);
                assert(x != v);
                assert(trivial@.subrange(t2 as int, trivial@.len() as int)[u + 1] == x);
                assert(trivial@.subrange(t2 as int, trivial@.len() as int).contains(x));
                assert(!preu.contains(x));
                if uuids@.contains(x) {
                    let w = choose|w: int| 0 <= w < uuids@.len() && uuids@[w] == x;
                    assert(preu[w] == x);
                }
            }
            assert forall|k: int| 0 <= k < t2 + 1 implies uuids@.contains(
                #[trigger] trivial@[k],
            ) by {
                if k < t2 {
                    let j = choose|j: int| 0 <= j < preu.len() && preu[j] == trivial@[k];
                    assert(uuids@[j] == trivial@[k]);
                } else {
                    assert(uuids@[uuids@.len() - 1] == trivial@[k]);
                }
            }
            assert forall|t3: int|
                0 <= t3 < uuids@.len() implies jobs@.contains(#[trigger] uuids@[t3])
                && q_has_in_ws(oldq, uuids@[t3], w_id@) by {
                if t3 < preu.len() {
                    assert(uuids@[t3] == preu[t3]);
                } else {
                    assert(uuids@[t3] == trivial@[t2 as int]);
                    assert(has_trivial_row(oldq, trivial@[t2 as int], w_id@));
                    let i = choose|i: int|
                        0 <= i < oldq.len() && (#[trigger] oldq[i]).id == trivial@[t2 as int]
                            && oldq[i].workspace_id@ == w_id@
                            && oldq[i].spec_trivially_cancelable();
                }
            }
            assert forall|k: int|
                0 <= k < jobs@.len() && q_has_in_ws(oldq, #[trigger] jobs@[k], w_id@)
                    && !trivial@.contains(jobs@[k]) implies uuids@.contains(jobs@[k]) by {
                let u = choose|u: int| 0 <= u < preu.len() && #[trigger] preu[u] == jobs@[k];
                assert(uuids@[u] == jobs@[k]);
            }
        }
        t2 = t2 + 1;
    }
    proof {
        // Completeness: a requested id with a pending row of the workspace
        // is echoed, through the trivial pass or through the core.
        assert forall|k: int|
            0 <= k < jobs@.len() && q_has_in_ws(oldq, #[trigger] jobs@[k], w_id@) implies
            uuids@.contains(jobs@[k]) by {
            if trivial@.contains(jobs@[k]) {
                let t = choose|t: int| 0 <= t < trivial@.len() && trivial@[t] == jobs@[k];
                assert(uuids@.contains(trivial@[t]));
            }
        }
        // The never-started outcome, with its terminal row and its audit
        // record, both of which survive the core pass untouched.
        assert forall|k: int|
            0 <= k < jobs@.len() && has_trivial_row(oldq, #[trigger] jobs@[k], w_id@) implies
            uuids@.contains(jobs@[k]) && !q_has(store.queue@, jobs@[k]) && cancel_all_resolved(
            oldq,
            store.completed@,
            jobs@[k],
            w_id@,
            username@,
            now,
        ) && has_audit(store.audits@, username@, "jobs.cancel"@, jobs@[k], w_id@) by {
            let t = choose|t: int| 0 <= t < trivial@.len() && trivial@[t] == jobs@[k];
            assert(uuids@.contains(trivial@[t]));
            assert(!q_has(mid.queue@, jobs@[k]));
            assert(!q_has(store.queue@, jobs@[k]));
            let i = choose|i: int|
                0 <= i < oldq.len() && (#[trigger] oldq[i]).id == jobs@[k]
                    && oldq[i].workspace_id@ == w_id@ && oldq[i].spec_trivially_cancelable();
            assert(!q_has(mid.queue@, oldq[i].id));
            assert(has_cancel_all_row(mid.completed@, oldq[i], username@, now));
            assert(has_cancel_all_row(store.completed@, oldq[i], username@, now));
            assert(has_audit(mid.audits@, username@, "jobs.cancel"@, jobs@[k], w_id@));
            let j3 = choose|j3: int|
                0 <= j3 < mid.audits@.len() && (#[trigger] mid.audits@[j3]).username@ == username@
                    && mid.audits@[j3].operation@ == "jobs.cancel"@ && mid.audits@[j3].job
                    == jobs@[k] && mid.audits@[j3].workspace_id@ == w_id@;
            assert(store.audits@[j3] == mid.audits@[j3]);
        }
    }
    uuids
}

} // verus!
