//! The zombie reaper.
//!
//! A periodic pass scans for jobs whose liveness timestamp is stale and
//! applies kind-specific recovery: script-like jobs are either flipped back
//! to pending for a fresh claim (releasing their concurrency slots) or
//! force-completed as failed; flow jobs that never began orchestrating are
//! restarted cheaply, while flows hung between two steps are canceled, as
//! restarting them is unsafe; stale parallel-branch locks are dropped and
//! their still-running parent flows canceled.
//!
//! Every per-row recovery is isolated: a row that no longer qualifies is
//! skipped and the pass continues.

use vstd::prelude::*;
use crate::cancel::{cancel_job, cancel_applied, opt_view};
use crate::store::lemma_insert_preserves_others;
use crate::job::{
    is_flow_kind, is_flow_reap_kind, kind_is_flow, kind_is_flow_reap, CompletedJob, QueuedJob,
};
use crate::store::{c_has, q_has, row_present, MonitorLockRow, Store};
use crate::text::{
    lemma_ends_with_contains, seq_contains_sub, spec_decimal, spec_uuid_hyphenated, u64_to_decimal,
    uuid_hyphenated,
};

verus! {

/// Whether a queue row qualifies for the zombie restart path: running, not
/// bound to its worker, not flow-like, with a stale ping.
pub open spec fn restart_eligible(q: QueuedJob, now: u64, timeout_ms: u64) -> bool {
    &&& q.running
    &&& !q.same_worker
    &&& !is_flow_kind(q.kind)
    &&& q.spec_ping_stale(now, timeout_ms)
}

/// Whether a queue row falls to the terminal-timeout path: still stale and
/// running but not restartable — bound to its worker when the restart policy
/// is on, or any stale script job when it is off.
pub open spec fn timeout_eligible(q: QueuedJob, now: u64, timeout_ms: u64, restart_zombies: bool) -> bool {
    &&& q.running
    &&& !is_flow_kind(q.kind)
    &&& q.spec_ping_stale(now, timeout_ms)
    &&& (restart_zombies ==> q.same_worker)
}

/// The pending form a restarted zombie returns to: not running, never
/// started, no liveness timestamp.
pub open spec fn restarted_form(q: QueuedJob) -> QueuedJob {
    QueuedJob { running: false, started_at: None, last_ping: None, ..q }
}

/// The note appended to a restarted job's log.
pub open spec fn spec_restart_note(now: u64) -> Seq<char> {
    "Restarted job after not receiving job's ping for too long the "@ + spec_decimal(now as nat)
        + "\n\n"@
}

fn restart_note(now: u64) -> (r: String)
    ensures
        r@ == spec_restart_note(now),
{
    let mut s = "Restarted job after not receiving job's ping for too long the ".to_owned();
    let d = u64_to_decimal(now);
    s.append(d.as_str());
    s.append("\n\n");
    s
}

/// The execution error recorded on a timed-out zombie.
pub open spec fn spec_timeout_message(last_ping: Option<u64>, timeout_ms: u64) -> Seq<char> {
    "Job timed out after no ping from job since "@ + (match last_ping {
        Some(p) => spec_decimal(p as nat),
        None => "no ping"@,
    }) + " (ZOMBIE_JOB_TIMEOUT: "@ + spec_decimal(timeout_ms as nat) + ")"@
}

fn timeout_message(last_ping: &Option<u64>, timeout_ms: u64) -> (r: String)
    ensures
        r@ == spec_timeout_message(*last_ping, timeout_ms),
{
    let mut s = "Job timed out after no ping from job since ".to_owned();
    match last_ping {
        Some(p) => {
            let d = u64_to_decimal(*p);
            s.append(d.as_str());
        },
        None => s.append("no ping"),
    }
    s.append(" (ZOMBIE_JOB_TIMEOUT: ");
    let t = u64_to_decimal(timeout_ms);
    s.append(t.as_str());
    s.append(")");
    s
}

/// Counters only shrank: every occupant left was an occupant before, under
/// the same keys.
pub open spec fn counters_shrunk(pre: Store, post: Store) -> bool {
    &&& post.counters@.len() == pre.counters@.len()
    &&& forall|k: int|
        0 <= k < pre.counters@.len() ==> (#[trigger] post.counters@[k]).key == pre.counters@[k].key
    &&& forall|k: int, x: u128|
        0 <= k < post.counters@.len() && (#[trigger] post.counters@[k].job_uuids@.contains(x))
            ==> pre.counters@[k].job_uuids@.contains(x)
}

/// `id` occupies no counter.
pub open spec fn id_in_no_counter(s: Store, id: u128) -> bool {
    forall|k: int|
        0 <= k < s.counters@.len() ==> !(#[trigger] s.counters@[k]).job_uuids@.contains(id)
}

/// Restart every zombie script job in one pass: flip it back to pending,
/// release its concurrency slots, and note the restart in its log.
pub fn restart_zombie_jobs(store: &mut Store, now: u64, timeout_ms: u64) -> (restarted: Vec<u128>)
    requires
        old(store).wf(),
    ensures
        final(store).wf(),
        final(store).queue@.len() == old(store).queue@.len(),
        forall|i: int|
            0 <= i < old(store).queue@.len() ==> final(store).queue@[i] == (
            if restart_eligible(old(store).queue@[i], now, timeout_ms) {
                restarted_form(old(store).queue@[i])
            } else {
                old(store).queue@[i]
            }),
        counters_shrunk(*old(store), *final(store)),
        forall|i: int|
            0 <= i < old(store).queue@.len() && restart_eligible(
                old(store).queue@[i],
                now,
                timeout_ms,
            ) ==> id_in_no_counter(*final(store), (#[trigger] old(store).queue@[i]).id),
        forall|i: int|
            0 <= i < old(store).queue@.len() && restart_eligible(
                old(store).queue@[i],
                now,
                timeout_ms,
            ) ==> exists|j: int|
                0 <= j < final(store).job_logs@.len() && (#[trigger] final(store).job_logs@[j]).job_id
                    == (#[trigger] old(store).queue@[i]).id && seq_contains_sub(
                    final(store).job_logs@[j].logs@,
                    spec_restart_note(now),
                ),
        forall|i: int|
            0 <= i < old(store).queue@.len() && restart_eligible(
                old(store).queue@[i],
                now,
                timeout_ms,
            ) ==> restarted@.contains((#[trigger] old(store).queue@[i]).id),
        final(store).completed@ == old(store).completed@,
        final(store).resume_jobs@ == old(store).resume_jobs@,
        final(store).concurrency_keys@ == old(store).concurrency_keys@,
        final(store).monitor_locks@ == old(store).monitor_locks@,
{
    let mut restarted: Vec<u128> = Vec::new();
    let note = restart_note(now);
    let mut i: usize = 0;
    while i < store.queue.len()
        invariant
            old(store).wf(),
            store.wf(),
            0 <= i <= store.queue@.len(),
            store.queue@.len() == old(store).queue@.len(),
            forall|j: int|
                0 <= j < i ==> store.queue@[j] == (if restart_eligible(
                    old(store).queue@[j],
                    now,
                    timeout_ms,
                ) {
                    restarted_form(old(store).queue@[j])
                } else {
                    old(store).queue@[j]
                }),
            forall|j: int| i <= j < store.queue@.len() ==> store.queue@[j] == old(store).queue@[j],
            counters_shrunk(*old(store), *store),
            forall|j: int|
                0 <= j < i && restart_eligible(old(store).queue@[j], now, timeout_ms)
                    ==> id_in_no_counter(*store, (#[trigger] old(store).queue@[j]).id),
            forall|j: int|
                0 <= j < i && restart_eligible(old(store).queue@[j], now, timeout_ms) ==> exists|
                    k: int,
                |
                    0 <= k < store.job_logs@.len() && (#[trigger] store.job_logs@[k]).job_id == (
                    #[trigger] old(store).queue@[j]).id && seq_contains_sub(
                        store.job_logs@[k].logs@,
                        spec_restart_note(now),
                    ),
            forall|j: int|
                0 <= j < i && restart_eligible(old(store).queue@[j], now, timeout_ms)
                    ==> restarted@.contains((#[trigger] old(store).queue@[j]).id),
            note@ == spec_restart_note(now),
            store.completed@ == old(store).completed@,
            store.resume_jobs@ == old(store).resume_jobs@,
            store.concurrency_keys@ == old(store).concurrency_keys@,
            store.monitor_locks@ == old(store).monitor_locks@,
        decreases store.queue@.len() - i,
    {
        let eligible = store.queue[i].running && !store.queue[i].same_worker && !kind_is_flow(
            store.queue[i].kind,
        ) && store.queue[i].ping_stale(now, timeout_ms);
        if eligible {
            let ghost pre = *store;
            let q = store.take_queued(i);
            let id = q.id;
            let q2 = QueuedJob { running: false, started_at: None, last_ping: None, ..q };
            store.insert_queued(i, q2);
            proof {
                assert(store.queue@ =~= pre.queue@.update(i as int, store.queue@[i as int]));
            }
            let ghost mid = *store;
            store.strip_id_from_counters(id);
            store.append_log(id, note.as_str());
            let ghost prerestarted = restarted@;
            restarted.push(id);
            proof {
                // The just-written log row ends with the note; locate it.
                let logs = store.job_logs@;
                let ghost mut w: int = 0;
                if exists|j: int|
                    0 <= j < mid.job_logs@.len() && (#[trigger] mid.job_logs@[j]).job_id == id {
                    let j = choose|j: int|
                        0 <= j < mid.job_logs@.len() && (#[trigger] mid.job_logs@[j]).job_id == id
                            && logs == mid.job_logs@.update(j, logs[j]) && logs[j].job_id == id
                            && logs[j].logs@ == mid.job_logs@[j].logs@ + note@;
                    let l = logs[j].logs@;
                    assert(l.subrange(l.len() - note@.len(), l.len() as int) =~= note@);
                    lemma_ends_with_contains(l, note@);
                    w = j;
                    assert(logs[w].job_id == id);
                } else {
                    let l = logs.last().logs@;
                    assert(l.subrange(l.len() - note@.len(), l.len() as int) =~= note@);
                    lemma_ends_with_contains(l, note@);
                    w = logs.len() - 1;
                }
                assert(0 <= w < logs.len() && logs[w].job_id == id && seq_contains_sub(
                    logs[w].logs@,
                    spec_restart_note(now),
                ));
                // The log rows of other jobs are untouched, so earlier notes
                // survive; distinct rows carry distinct ids.
                assert forall|j: int|
                    0 <= j < i + 1 && restart_eligible(
                        old(store).queue@[j],
                        now,
                        timeout_ms,
                    ) implies exists|k2: int|
                    0 <= k2 < store.job_logs@.len() && (#[trigger] store.job_logs@[k2]).job_id == (
                    #[trigger] old(store).queue@[j]).id && seq_contains_sub(
                        store.job_logs@[k2].logs@,
                        spec_restart_note(now),
                    ) by {
                    let jid = old(store).queue@[j].id;
                    if j == i {
                        assert(logs[w].job_id == jid);
                    } else {
                        assert(jid != id);
                        let k2 = choose|k2: int|
                            0 <= k2 < mid.job_logs@.len() && (#[trigger] mid.job_logs@[k2]).job_id
                                == jid && seq_contains_sub(
                                mid.job_logs@[k2].logs@,
                                spec_restart_note(now),
                            );
                        assert(logs[k2].job_id == jid && seq_contains_sub(
                            logs[k2].logs@,
                            spec_restart_note(now),
                        ));
                    }
                }
                // The restarted list keeps its earlier entries.
                assert forall|j: int|
                    0 <= j < i + 1 && restart_eligible(
                        old(store).queue@[j],
                        now,
                        timeout_ms,
                    ) implies restarted@.contains((#[trigger] old(store).queue@[j]).id) by {
                    if j == i {
                        assert(restarted@[restarted@.len() - 1] == id);
                    } else {
                        let k2 = choose|k2: int|
                            0 <= k2 < prerestarted.len() && prerestarted[k2] == old(
                                store,
                            ).queue@[j].id;
                        assert(restarted@[k2] == old(store).queue@[j].id);
                    }
                }
                // Stripping another id keeps previously stripped ids absent.
                assert forall|j: int|
                    0 <= j < i + 1 && restart_eligible(
                        old(store).queue@[j],
                        now,
                        timeout_ms,
                    ) implies id_in_no_counter(*store, (#[trigger] old(store).queue@[j]).id) by {
                    let jid = old(store).queue@[j].id;
                    assert forall|k: int| 0 <= k < store.counters@.len() implies !(
                    #[trigger] store.counters@[k]).job_uuids@.contains(jid) by {
                        crate::store::lemma_filter_membership(
                            mid.counters@[k].job_uuids@,
                            id,
                            jid,
                        );
                    }
                }
                // Shrink-only composition.
                assert forall|k: int, x: u128|
                    0 <= k < store.counters@.len() && (
                    #[trigger] store.counters@[k].job_uuids@.contains(x)) implies old(store).counters@[k].job_uuids@.contains(x) by {
                    crate::store::lemma_filter_membership(mid.counters@[k].job_uuids@, id, x);
                }
            }
        }
        i = i + 1;
    }
    restarted
}

/// Whether some queue row carries `id` and qualifies for the terminal-timeout
/// path.
pub open spec fn has_timeout_row(
    q: Seq<QueuedJob>,
    id: u128,
    now: u64,
    timeout_ms: u64,
    restart_zombies: bool,
) -> bool {
    exists|i: int|
        0 <= i < q.len() && (#[trigger] q[i]).id == id && timeout_eligible(
            q[i],
            now,
            timeout_ms,
            restart_zombies,
        )
}

/// Whether the completed table holds the failure row that the timed-out
/// queue row `q` moves to.
pub open spec fn has_timeout_failure_row(c: Seq<CompletedJob>, q: QueuedJob, timeout_ms: u64) -> bool {
    exists|j: int|
        0 <= j < c.len() && (#[trigger] c[j]).id == q.id && !c[j].success && !c[j].canceled
            && c[j].result@ == spec_timeout_message(q.last_ping, timeout_ms)
}

/// Every queue row is one of the old rows, by value.
pub open spec fn queue_subset(pre: Store, post: Store) -> bool {
    forall|j: int| 0 <= j < post.queue@.len() ==> row_present(pre.queue@, #[trigger] post.queue@[j])
}

/// Collect the ids of the queue rows satisfying `timeout_eligible`.
fn collect_timeout_ids(store: &Store, now: u64, timeout_ms: u64, restart_zombies: bool) -> (ids:
    Vec<u128>)
    ensures
        forall|i: int|
            0 <= i < store.queue@.len() && timeout_eligible(
                store.queue@[i],
                now,
                timeout_ms,
                restart_zombies,
            ) ==> ids@.contains((#[trigger] store.queue@[i]).id),
        forall|k: int|
            0 <= k < ids@.len() ==> has_timeout_row(
                store.queue@,
                #[trigger] ids@[k],
                now,
                timeout_ms,
                restart_zombies,
            ),
{
    let mut ids: Vec<u128> = Vec::new();
    let mut i: usize = 0;
    while i < store.queue.len()
        invariant
            0 <= i <= store.queue@.len(),
            forall|j: int|
                0 <= j < i && timeout_eligible(
                    store.queue@[j],
                    now,
                    timeout_ms,
                    restart_zombies,
                ) ==> ids@.contains((#[trigger] store.queue@[j]).id),
            forall|k: int|
                0 <= k < ids@.len() ==> has_timeout_row(
                    store.queue@,
                    #[trigger] ids@[k],
                    now,
                    timeout_ms,
                    restart_zombies,
                ),
        decreases store.queue@.len() - i,
    {
        let eligible = store.queue[i].running && !kind_is_flow(store.queue[i].kind)
            && store.queue[i].ping_stale(now, timeout_ms) && (!restart_zombies
            || store.queue[i].same_worker);
        if eligible {
            let ghost pre = ids@;
            ids.push(store.queue[i].id);
            proof {
                assert forall|k: int|
                    0 <= k < ids@.len() implies has_timeout_row(
                    store.queue@,
                    #[trigger] ids@[k],
                    now,
                    timeout_ms,
                    restart_zombies,
                ) by {
                    if k < pre.len() {
                        assert(ids@[k] == pre[k]);
                    } else {
                        assert(ids@[k] == store.queue@[i as int].id);
                        assert((store.queue@[i as int]).id == ids@[k] && timeout_eligible(
                            store.queue@[i as int],
                            now,
                            timeout_ms,
                            restart_zombies,
                        ));
                    }
                }
                assert forall|j: int|
                    0 <= j < i + 1 && timeout_eligible(
                        store.queue@[j],
                        now,
                        timeout_ms,
                        restart_zombies,
                    ) implies ids@.contains((#[trigger] store.queue@[j]).id) by {
                    if j < i {
                        let k = choose|k: int| 0 <= k < pre.len() && pre[k] == store.queue@[j].id;
                        assert(ids@[k] == store.queue@[j].id);
                    } else {
                        assert(ids@[ids@.len() - 1] == store.queue@[j].id);
                    }
                }
            }
        }
        i = i + 1;
    }
    ids
}

/// Force-complete as failed every zombie that the restart policy cannot
/// save, citing the last known ping and the configured timeout.
#[verifier::rlimit(100)]
pub fn timeout_zombie_jobs(store: &mut Store, now: u64, timeout_ms: u64, restart_zombies: bool) -> (
    timed_out: Vec<u128>)
    requires
        old(store).wf(),
    ensures
        final(store).wf(),
        queue_subset(*old(store), *final(store)),
        forall|i: int|
            0 <= i < old(store).queue@.len() && timeout_eligible(
                old(store).queue@[i],
                now,
                timeout_ms,
                restart_zombies,
            ) ==> !q_has(final(store).queue@, (#[trigger] old(store).queue@[i]).id)
                && has_timeout_failure_row(
                final(store).completed@,
                old(store).queue@[i],
                timeout_ms,
            ),
        forall|i: int|
            0 <= i < old(store).queue@.len() && !timeout_eligible(
                old(store).queue@[i],
                now,
                timeout_ms,
                restart_zombies,
            ) ==> row_present(final(store).queue@, #[trigger] old(store).queue@[i]),
        counters_shrunk(*old(store), *final(store)),
        final(store).resume_jobs@ == old(store).resume_jobs@,
        final(store).concurrency_keys@ == old(store).concurrency_keys@,
        final(store).monitor_locks@ == old(store).monitor_locks@,
        final(store).job_logs@ == old(store).job_logs@,
        final(store).completed@.len() >= old(store).completed@.len(),
        final(store).completed@.subrange(0, old(store).completed@.len() as int) == old(
            store,
        ).completed@,
{
    let ids = collect_timeout_ids(store, now, timeout_ms, restart_zombies);
    let mut timed_out: Vec<u128> = Vec::new();
    let mut m: usize = 0;
    proof {
        assert forall|j: int|
            0 <= j < store.queue@.len() implies row_present(
            old(store).queue@,
            #[trigger] store.queue@[j],
        ) by {
            assert(old(store).queue@[j] == store.queue@[j]);
        }
        assert(ids@.subrange(0, 0) =~= Seq::<u128>::empty());
        assert(store.completed@.subrange(0, old(store).completed@.len() as int) =~= old(
            store,
        ).completed@);
    }
    while m < ids.len()
        invariant
            old(store).wf(),
            store.wf(),
            0 <= m <= ids@.len(),
            queue_subset(*old(store), *store),
            forall|i: int|
                0 <= i < old(store).queue@.len() && timeout_eligible(
                    old(store).queue@[i],
                    now,
                    timeout_ms,
                    restart_zombies,
                ) ==> ids@.contains((#[trigger] old(store).queue@[i]).id),
            forall|k: int|
                0 <= k < ids@.len() ==> has_timeout_row(
                    old(store).queue@,
                    #[trigger] ids@[k],
                    now,
                    timeout_ms,
                    restart_zombies,
                ),
            forall|k: int|
                0 <= k < m ==> !q_has(store.queue@, #[trigger] ids@[k]) && c_has(
                    store.completed@,
                    ids@[k],
                ),
            forall|i: int|
                0 <= i < old(store).queue@.len() && !ids@.subrange(0, m as int).contains(
                    (#[trigger] old(store).queue@[i]).id,
                ) ==> row_present(store.queue@, old(store).queue@[i]),
            forall|i: int|
                0 <= i < old(store).queue@.len() && timeout_eligible(
                    old(store).queue@[i],
                    now,
                    timeout_ms,
                    restart_zombies,
                ) && ids@.subrange(0, m as int).contains((#[trigger] old(store).queue@[i]).id)
                    ==> has_timeout_failure_row(
                    store.completed@,
                    old(store).queue@[i],
                    timeout_ms,
                ),
            counters_shrunk(*old(store), *store),
            store.resume_jobs@ == old(store).resume_jobs@,
            store.concurrency_keys@ == old(store).concurrency_keys@,
            store.monitor_locks@ == old(store).monitor_locks@,
            store.job_logs@ == old(store).job_logs@,
            store.completed@.len() >= old(store).completed@.len(),
            store.completed@.subrange(0, old(store).completed@.len() as int) == old(
                store,
            ).completed@,
        decreases ids@.len() - m,
    {
        let id = ids[m];
        let ghost pre = *store;
        let ghost oldq = old(store).queue@;
        proof {
            assert(ids@.subrange(0, m + 1) =~= ids@.subrange(0, m as int).push(id));
        }
        match store.find_queued(id) {
            Some(i) => {
                let msg = timeout_message(&store.queue[i].last_ping, timeout_ms);
                let q = store.take_queued(i);
                let cj = crate::job::completed_from_queued(q, now, false, msg, false, None, None);
                store.push_completed(cj);
                store.strip_id_from_counters(id);
                timed_out.push(id);
                proof {
                    let prefix = ids@.subrange(0, m + 1);
                    // The moved row is an old row with this id.
                    let oi = choose|oi: int|
                        0 <= oi < oldq.len() && #[trigger] oldq[oi] == pre.queue@[i as int];
                    // Processed prefix moved.
                    assert(store.completed@[store.completed@.len() - 1].id == id);
                    assert forall|k: int| 0 <= k < m + 1 implies !q_has(
                        store.queue@,
                        #[trigger] ids@[k],
                    ) && c_has(store.completed@, ids@[k]) by {
                        if k < m {
                            assert(c_has(pre.completed@, ids@[k]));
                            let j = choose|j: int|
                                0 <= j < pre.completed@.len() && (#[trigger] pre.completed@[j]).id
                                    == ids@[k];
                            assert(store.completed@[j].id == ids@[k]);
                        }
                    }
                    // Untouched rows survive the removal.
                    crate::store::lemma_remove_preserves_others(pre.queue@, i as int);
                    assert forall|i2: int|
                        0 <= i2 < oldq.len() && !prefix.contains(
                            (#[trigger] oldq[i2]).id,
                        ) implies row_present(store.queue@, oldq[i2]) by {
                        assert(prefix[m as int] == id);
                        assert(!ids@.subrange(0, m as int).contains(oldq[i2].id)) by {
                            if ids@.subrange(0, m as int).contains(oldq[i2].id) {
                                let k = choose|k: int|
                                    0 <= k < m && ids@.subrange(0, m as int)[k] == oldq[i2].id;
                                assert(prefix[k] == oldq[i2].id);
                            }
                        }
                        let j = choose|j: int|
                            0 <= j < pre.queue@.len() && #[trigger] pre.queue@[j] == oldq[i2];
                        assert(oldq[i2].id != id);
                        assert(j != i as int);
                    }
                    // Moved rows are failure rows.
                    assert forall|i2: int|
                        0 <= i2 < oldq.len() && timeout_eligible(
                            oldq[i2],
                            now,
                            timeout_ms,
                            restart_zombies,
                        ) && prefix.contains((#[trigger] oldq[i2]).id) implies
                        has_timeout_failure_row(store.completed@, oldq[i2], timeout_ms) by {
                        if ids@.subrange(0, m as int).contains(oldq[i2].id) {
                            let j = choose|j: int|
                                0 <= j < pre.completed@.len() && (#[trigger] pre.completed@[j]).id
                                    == oldq[i2].id && !pre.completed@[j].success
                                    && !pre.completed@[j].canceled && pre.completed@[j].result@
                                    == spec_timeout_message(oldq[i2].last_ping, timeout_ms);
                            assert(store.completed@[j] == pre.completed@[j]);
                        } else {
                            // This is the row moved in this iteration: the
                            // old rows carry unique ids, so it is `oldq[i2]`.
                            let k = choose|k: int|
                                0 <= k < prefix.len() && prefix[k] == oldq[i2].id;
                            assert(k == m);
                            assert(oldq[i2].id == id);
                            assert(oldq[oi].id == id);
                            if oi != i2 {
                                assert(oldq[oi].id != oldq[i2].id);
                            }
                            assert(oldq[i2] == pre.queue@[i as int]);
                            assert(store.completed@[store.completed@.len() - 1].result@
                                == spec_timeout_message(oldq[i2].last_ping, timeout_ms));
                        }
                    }
                    // Counters only shrank further.
                    assert forall|k: int, x: u128|
                        0 <= k < store.counters@.len() && (
                        #[trigger] store.counters@[k].job_uuids@.contains(x)) implies old(
                        store,
                    ).counters@[k].job_uuids@.contains(x) by {
                        crate::store::lemma_filter_membership(pre.counters@[k].job_uuids@, id, x);
                    }
                    // The completed prefix is preserved.
                    assert(store.completed@.subrange(0, old(store).completed@.len() as int)
                        =~= pre.completed@.subrange(0, old(store).completed@.len() as int));
                }
            },
            None => {
                proof {
                    let prefix = ids@.subrange(0, m + 1);
                    // The old row carrying this id was moved by an earlier
                    // iteration: were it untouched it would still be queued.
                    let oi = choose|oi: int|
                        0 <= oi < oldq.len() && (#[trigger] oldq[oi]).id == id && timeout_eligible(
                            oldq[oi],
                            now,
                            timeout_ms,
                            restart_zombies,
                        );
                    assert(ids@.subrange(0, m as int).contains(id)) by {
                        if !ids@.subrange(0, m as int).contains(id) {
                            assert(row_present(pre.queue@, oldq[oi]));
                            let j = choose|j: int|
                                0 <= j < pre.queue@.len() && #[trigger] pre.queue@[j] == oldq[oi];
                            assert(q_has(pre.queue@, id));
                        }
                    }
                    let kk = choose|kk: int| 0 <= kk < m && ids@.subrange(0, m as int)[kk] == id;
                    assert(ids@[kk] == id);
                    assert forall|k: int| 0 <= k < m + 1 implies !q_has(
                        store.queue@,
                        #[trigger] ids@[k],
                    ) && c_has(store.completed@, ids@[k]) by {
                        if k == m {
                            assert(!q_has(store.queue@, ids@[kk]) && c_has(
                                store.completed@,
                                ids@[kk],
                            ));
                        }
                    }
                    assert forall|i2: int|
                        0 <= i2 < oldq.len() && !prefix.contains(
                            (#[trigger] oldq[i2]).id,
                        ) implies row_present(store.queue@, oldq[i2]) by {
                        assert(!ids@.subrange(0, m as int).contains(oldq[i2].id)) by {
                            if ids@.subrange(0, m as int).contains(oldq[i2].id) {
                                let k = choose|k: int|
                                    0 <= k < m && ids@.subrange(0, m as int)[k] == oldq[i2].id;
                                assert(prefix[k] == oldq[i2].id);
                            }
                        }
                    }
                    assert forall|i2: int|
                        0 <= i2 < oldq.len() && timeout_eligible(
                            oldq[i2],
                            now,
                            timeout_ms,
                            restart_zombies,
                        ) && prefix.contains((#[trigger] oldq[i2]).id) implies
                        has_timeout_failure_row(store.completed@, oldq[i2], timeout_ms) by {
                        if !ids@.subrange(0, m as int).contains(oldq[i2].id) {
                            let k = choose|k: int|
                                0 <= k < prefix.len() && prefix[k] == oldq[i2].id;
                            assert(k == m);
                            assert(oldq[i2].id == id);
                            assert(ids@.subrange(0, m as int)[kk] == oldq[i2].id);
                        }
                    }
                }
            },
        }
        m = m + 1;
    }
    proof {
        assert(ids@.subrange(0, ids@.len() as int) =~= ids@);
        assert forall|i: int|
            0 <= i < old(store).queue@.len() && timeout_eligible(
                old(store).queue@[i],
                now,
                timeout_ms,
                restart_zombies,
            ) implies !q_has(store.queue@, (#[trigger] old(store).queue@[i]).id)
            && has_timeout_failure_row(store.completed@, old(store).queue@[i], timeout_ms) by {
            let id = old(store).queue@[i].id;
            let k = choose|k: int| 0 <= k < ids@.len() && ids@[k] == id;
            assert(!q_has(store.queue@, ids@[k]));
        }
    }
    timed_out
}

/// One pass of the script-job reaper: with the restart policy on, every
/// restartable zombie is flipped back to pending with its concurrency slots
/// released and a note in its log, and the remaining stale rows — bound to
/// their worker, or all of them when the policy is off — are force-completed
/// as failed.
pub fn handle_zombie_jobs(
    store: &mut Store,
    now: u64,
    timeout_ms: u64,
    restart_zombies: bool,
) -> (r: (Vec<u128>, Vec<u128>))
    requires
        old(store).wf(),
    ensures
        final(store).wf(),
        restart_zombies ==> forall|i: int|
            0 <= i < old(store).queue@.len() && restart_eligible(
                old(store).queue@[i],
                now,
                timeout_ms,
            ) ==> row_present(
                final(store).queue@,
                restarted_form(#[trigger] old(store).queue@[i]),
            ) && id_in_no_counter(*final(store), old(store).queue@[i].id) && exists|j: int|
                0 <= j < final(store).job_logs@.len() && (#[trigger] final(store).job_logs@[j]).job_id
                    == old(store).queue@[i].id && seq_contains_sub(
                    final(store).job_logs@[j].logs@,
                    spec_restart_note(now),
                ),
        forall|i: int|
            0 <= i < old(store).queue@.len() && timeout_eligible(
                old(store).queue@[i],
                now,
                timeout_ms,
                restart_zombies,
            ) ==> !q_has(final(store).queue@, (#[trigger] old(store).queue@[i]).id)
                && has_timeout_failure_row(
                final(store).completed@,
                old(store).queue@[i],
                timeout_ms,
            ),
        final(store).resume_jobs@ == old(store).resume_jobs@,
        final(store).concurrency_keys@ == old(store).concurrency_keys@,
        final(store).monitor_locks@ == old(store).monitor_locks@,
{
    let restarted: Vec<u128> = if restart_zombies {
        restart_zombie_jobs(store, now, timeout_ms)
    } else {
        Vec::new()
    };
    let ghost mid = *store;
    let timed_out = timeout_zombie_jobs(store, now, timeout_ms, restart_zombies);
    proof {
        if restart_zombies {
            assert forall|i: int|
                0 <= i < old(store).queue@.len() && restart_eligible(
                    old(store).queue@[i],
                    now,
                    timeout_ms,
                ) implies row_present(
                final(store).queue@,
                restarted_form(#[trigger] old(store).queue@[i]),
            ) && id_in_no_counter(*final(store), old(store).queue@[i].id) by {
                let q2 = restarted_form(old(store).queue@[i]);
                assert(mid.queue@[i] == q2);
                assert(!timeout_eligible(q2, now, timeout_ms, restart_zombies));
                assert(row_present(final(store).queue@, mid.queue@[i]));
                let id = old(store).queue@[i].id;
                assert forall|k: int| 0 <= k < final(store).counters@.len() implies !(
                #[trigger] final(store).counters@[k]).job_uuids@.contains(id) by {
                    assert(!mid.counters@[k].job_uuids@.contains(id));
                }
            }
            assert forall|i: int|
                0 <= i < old(store).queue@.len() && timeout_eligible(
                    old(store).queue@[i],
                    now,
                    timeout_ms,
                    restart_zombies,
                ) implies !q_has(final(store).queue@, (#[trigger] old(store).queue@[i]).id)
                && has_timeout_failure_row(
                final(store).completed@,
                old(store).queue@[i],
                timeout_ms,
            ) by {
                // A worker-bound stale row is untouched by the restart pass.
                assert(!restart_eligible(old(store).queue@[i], now, timeout_ms));
                assert(mid.queue@[i] == old(store).queue@[i]);
                assert(timeout_eligible(mid.queue@[i], now, timeout_ms, restart_zombies));
            }
        }
    }
    (restarted, timed_out)
}

/// Whether a flow row is a zombie candidate: running, not suspended or
/// gated, due, a top-level flow orchestration kind, not already canceled,
/// and with a stale ping. A flow's liveness reflects the orchestrator
/// between module executions, so the flow-transition timeout is independent
/// of the script timeout.
pub open spec fn flow_candidate(q: QueuedJob, now: u64, flow_timeout_ms: u64) -> bool {
    &&& q.running
    &&& q.suspend == 0
    &&& q.suspend_until is None
    &&& q.scheduled_for <= now
    &&& is_flow_reap_kind(q.kind)
    &&& !q.canceled
    &&& q.spec_ping_stale(now, flow_timeout_ms)
}

/// Whether a zombie flow may be restarted cheaply: it is not bound to its
/// worker and it never began orchestrating, judged by the current step
/// pointer rather than a hardcoded first module, so a flow restarted mid-way
/// is never misclassified.
pub open spec fn flow_cheap_restart(q: QueuedJob) -> bool {
    &&& !q.same_worker
    &&& q.flow_status matches Some(st) && st.spec_never_started()
}

/// The cancel reason recorded on a flow hung strictly between two steps.
pub open spec fn spec_hanging_reason(q: QueuedJob, now: u64) -> Seq<char> {
    (if q.is_flow_step && q.parent_job is Some {
        "Flow was cancelled because subflow "@ + spec_uuid_hyphenated(q.id)
    } else {
        "Flow "@ + spec_uuid_hyphenated(q.id) + " was cancelled because it"@
    }) + " was hanging in between 2 steps. Last ping: "@ + (match q.last_ping {
        Some(p) => spec_decimal(p as nat),
        None => "no ping"@,
    }) + " (now: "@ + spec_decimal(now as nat) + ")"@
}

fn hanging_reason(q: &QueuedJob, now: u64) -> (r: String)
    ensures
        r@ == spec_hanging_reason(*q, now),
{
    let mut s = if q.is_flow_step && q.parent_job.is_some() {
        let mut s = "Flow was cancelled because subflow ".to_owned();
        let u = uuid_hyphenated(q.id);
        s.append(u.as_str());
        s
    } else {
        let mut s = "Flow ".to_owned();
        let u = uuid_hyphenated(q.id);
        s.append(u.as_str());
        s.append(" was cancelled because it");
        s
    };
    s.append(" was hanging in between 2 steps. Last ping: ");
    match &q.last_ping {
        Some(p) => {
            let d = u64_to_decimal(*p);
            s.append(d.as_str());
        },
        None => s.append("no ping"),
    }
    s.append(" (now: ");
    let d = u64_to_decimal(now);
    s.append(d.as_str());
    s.append(")");
    s
}

/// Whether the completed table holds the canceled row of the hung flow `q`.
pub open spec fn has_hanging_row(c: Seq<CompletedJob>, q: QueuedJob, now: u64) -> bool {
    exists|j: int|
        0 <= j < c.len() && (#[trigger] c[j]).id == q.id && c[j].canceled && opt_view(
            &c[j].canceled_reason,
        ) == Some(spec_hanging_reason(q, now))
}

/// Whether some queue row carries `id` and is a flow-zombie candidate.
pub open spec fn has_flow_candidate_row(
    q: Seq<QueuedJob>,
    id: u128,
    now: u64,
    flow_timeout_ms: u64,
) -> bool {
    exists|i: int|
        0 <= i < q.len() && (#[trigger] q[i]).id == id && flow_candidate(q[i], now, flow_timeout_ms)
}

fn collect_flow_candidates(store: &Store, now: u64, flow_timeout_ms: u64) -> (ids: Vec<u128>)
    ensures
        forall|i: int|
            0 <= i < store.queue@.len() && flow_candidate(store.queue@[i], now, flow_timeout_ms)
                ==> ids@.contains((#[trigger] store.queue@[i]).id),
        forall|k: int|
            0 <= k < ids@.len() ==> has_flow_candidate_row(
                store.queue@,
                #[trigger] ids@[k],
                now,
                flow_timeout_ms,
            ),
{
    let mut ids: Vec<u128> = Vec::new();
    let mut i: usize = 0;
    while i < store.queue.len()
        invariant
            0 <= i <= store.queue@.len(),
            forall|j: int|
                0 <= j < i && flow_candidate(store.queue@[j], now, flow_timeout_ms)
                    ==> ids@.contains((#[trigger] store.queue@[j]).id),
            forall|k: int|
                0 <= k < ids@.len() ==> has_flow_candidate_row(
                    store.queue@,
                    #[trigger] ids@[k],
                    now,
                    flow_timeout_ms,
                ),
        decreases store.queue@.len() - i,
    {
        let q = &store.queue[i];
        let eligible = q.running && q.suspend == 0 && q.suspend_until.is_none()
            && q.scheduled_for <= now && kind_is_flow_reap(q.kind) && !q.canceled && q.ping_stale(
            now,
            flow_timeout_ms,
        );
        if eligible {
            let ghost pre = ids@;
            ids.push(store.queue[i].id);
            proof {
                assert forall|k: int|
                    0 <= k < ids@.len() implies has_flow_candidate_row(
                    store.queue@,
                    #[trigger] ids@[k],
                    now,
                    flow_timeout_ms,
                ) by {
                    if k < pre.len() {
                        assert(ids@[k] == pre[k]);
                    } else {
                        assert(ids@[k] == store.queue@[i as int].id);
                        assert((store.queue@[i as int]).id == ids@[k] && flow_candidate(
                            store.queue@[i as int],
                            now,
                            flow_timeout_ms,
                        ));
                    }
                }
                assert forall|j: int|
                    0 <= j < i + 1 && flow_candidate(
                        store.queue@[j],
                        now,
                        flow_timeout_ms,
                    ) implies ids@.contains((#[trigger] store.queue@[j]).id) by {
                    if j < i {
                        let k = choose|k: int| 0 <= k < pre.len() && pre[k] == store.queue@[j].id;
                        assert(ids@[k] == store.queue@[j].id);
                    } else {
                        assert(ids@[ids@.len() - 1] == store.queue@[j].id);
                    }
                }
            }
        }
        i = i + 1;
    }
    ids
}

/// One pass of the flow-zombie reaper.
///
/// A candidate that never began orchestrating is restarted cheaply: flipped
/// back to pending with its concurrency slots released. Any other candidate
/// was hung strictly between two steps — restarting is unsafe because
/// intermediate state may be partially applied — so it is canceled through
/// the cancellation service with a reason describing the hang.
#[verifier::rlimit(100)]
pub fn handle_zombie_flows(store: &mut Store, now: u64, flow_timeout_ms: u64) -> (r: (
    Vec<u128>,
    Vec<u128>,
))
    requires
        old(store).wf(),
    ensures
        final(store).wf(),
        forall|i: int|
            0 <= i < old(store).queue@.len() && flow_candidate(
                old(store).queue@[i],
                now,
                flow_timeout_ms,
            ) && flow_cheap_restart(old(store).queue@[i]) ==> row_present(
                final(store).queue@,
                restarted_form(#[trigger] old(store).queue@[i]),
            ) && id_in_no_counter(*final(store), old(store).queue@[i].id),
        forall|i: int|
            0 <= i < old(store).queue@.len() && flow_candidate(
                old(store).queue@[i],
                now,
                flow_timeout_ms,
            ) && !flow_cheap_restart(old(store).queue@[i]) ==> !q_has(
                final(store).queue@,
                (#[trigger] old(store).queue@[i]).id,
            ) && has_hanging_row(final(store).completed@, old(store).queue@[i], now),
        forall|i: int|
            0 <= i < old(store).queue@.len() && !flow_candidate(
                old(store).queue@[i],
                now,
                flow_timeout_ms,
            ) ==> row_present(final(store).queue@, #[trigger] old(store).queue@[i]),
        final(store).resume_jobs@ == old(store).resume_jobs@,
        final(store).concurrency_keys@ == old(store).concurrency_keys@,
        final(store).monitor_locks@ == old(store).monitor_locks@,
        final(store).job_logs@ == old(store).job_logs@,
{
    let ids = collect_flow_candidates(store, now, flow_timeout_ms);
    let mut restarted: Vec<u128> = Vec::new();
    let mut canceled: Vec<u128> = Vec::new();
    let mut m: usize = 0;
    proof {
        assert forall|j: int|
            0 <= j < old(store).queue@.len() implies row_present(
            store.queue@,
            #[trigger] old(store).queue@[j],
        ) by {
            assert(store.queue@[j] == old(store).queue@[j]);
        }
        assert(ids@.subrange(0, 0) =~= Seq::<u128>::empty());
    }
    while m < ids.len()
        invariant
            old(store).wf(),
            store.wf(),
            0 <= m <= ids@.len(),
            forall|i: int|
                0 <= i < old(store).queue@.len() && flow_candidate(
                    old(store).queue@[i],
                    now,
                    flow_timeout_ms,
                ) ==> ids@.contains((#[trigger] old(store).queue@[i]).id),
            forall|k: int|
                0 <= k < ids@.len() ==> has_flow_candidate_row(
                    old(store).queue@,
                    #[trigger] ids@[k],
                    now,
                    flow_timeout_ms,
                ),
            // processed candidates are resolved
            forall|i: int|
                0 <= i < old(store).queue@.len() && flow_candidate(
                    old(store).queue@[i],
                    now,
                    flow_timeout_ms,
                ) && ids@.subrange(0, m as int).contains((#[trigger] old(store).queue@[i]).id)
                    ==> (if flow_cheap_restart(old(store).queue@[i]) {
                    row_present(store.queue@, restarted_form(old(store).queue@[i]))
                        && id_in_no_counter(*store, old(store).queue@[i].id)
                } else {
                    !q_has(store.queue@, old(store).queue@[i].id) && has_hanging_row(
                        store.completed@,
                        old(store).queue@[i],
                        now,
                    )
                }),
            // untouched rows survive
            forall|i: int|
                0 <= i < old(store).queue@.len() && !ids@.subrange(0, m as int).contains(
                    (#[trigger] old(store).queue@[i]).id,
                ) ==> row_present(store.queue@, old(store).queue@[i]),
            counters_shrunk(*old(store), *store),
            store.resume_jobs@ == old(store).resume_jobs@,
            store.concurrency_keys@ == old(store).concurrency_keys@,
            store.monitor_locks@ == old(store).monitor_locks@,
            store.job_logs@ == old(store).job_logs@,
        decreases ids@.len() - m,
    {
        let id = ids[m];
        let ghost pre = *store;
        let ghost oldq = old(store).queue@;
        let ghost prefix_new = ids@.subrange(0, m + 1);
        proof {
            assert(prefix_new =~= ids@.subrange(0, m as int).push(id));
        }
        match store.find_queued(id) {
            Some(i) => {
                proof {
                    // The old row carrying this id, a candidate.
                    let oi = choose|oi: int|
                        0 <= oi < oldq.len() && (#[trigger] oldq[oi]).id == id && flow_candidate(
                            oldq[oi],
                            now,
                            flow_timeout_ms,
                        );
                    if !ids@.subrange(0, m as int).contains(id) {
                        // Untouched: the found row is the old row itself.
                        let j = choose|j: int|
                            0 <= j < pre.queue@.len() && #[trigger] pre.queue@[j] == oldq[oi];
                        if j != i as int {
                            assert(pre.queue@[j].id != pre.queue@[i as int].id);
                        }
                        assert(pre.queue@[i as int] == oldq[oi]);
                    } else {
                        // Already processed: it cannot still be hung.
                        if flow_cheap_restart(oldq[oi]) {
                            let j = choose|j: int|
                                0 <= j < pre.queue@.len() && #[trigger] pre.queue@[j]
                                    == restarted_form(oldq[oi]);
                            if j != i as int {
                                assert(pre.queue@[j].id != pre.queue@[i as int].id);
                            }
                            assert(pre.queue@[i as int] == restarted_form(oldq[oi]));
                            assert(!pre.queue@[i as int].running);
                        } else {
                            assert(!q_has(pre.queue@, id));
                            assert(false);
                        }
                    }
                }
                let is_candidate = {
                    let q = &store.queue[i];
                    q.running && q.suspend == 0 && q.suspend_until.is_none() && q.scheduled_for
                        <= now && kind_is_flow_reap(q.kind) && !q.canceled && q.ping_stale(
                        now,
                        flow_timeout_ms,
                    )
                };
                let cheap = {
                    let q = &store.queue[i];
                    !q.same_worker && (match &q.flow_status {
                        Some(st) => st.never_started(),
                        None => false,
                    })
                };
                if is_candidate {
                    proof {
                        // A processed candidate is no longer hung, so this
                        // row is untouched and equals its old form.
                        let oi = choose|oi: int|
                            0 <= oi < oldq.len() && (#[trigger] oldq[oi]).id == id
                                && flow_candidate(oldq[oi], now, flow_timeout_ms);
                        if ids@.subrange(0, m as int).contains(id) {
                            assert(!pre.queue@[i as int].running);
                            assert(false);
                        }
                        assert(pre.queue@[i as int] == oldq[oi]);
                    }
                }
                if is_candidate && cheap {
                    let q = store.take_queued(i);
                    let q2 = QueuedJob { running: false, started_at: None, last_ping: None, ..q };
                    store.insert_queued(i, q2);
                    store.strip_id_from_counters(id);
                    restarted.push(id);
                    proof {
                        let oi = choose|oi: int|
                            0 <= oi < oldq.len() && (#[trigger] oldq[oi]).id == id
                                && flow_candidate(oldq[oi], now, flow_timeout_ms);
                        let ghost mid = pre.queue@.remove(i as int).insert(i as int, q2);
                        assert(store.queue@ == mid);
                        assert(store.queue@[i as int] == restarted_form(oldq[oi]));
                        crate::store::lemma_remove_preserves_others(pre.queue@, i as int);
                        lemma_insert_preserves_others(pre.queue@.remove(i as int), i as int, q2);
                        // Rows other than this one keep their standing.
                        assert forall|j: int|
                            0 <= j < pre.queue@.len() && j != i as int implies row_present(
                            store.queue@,
                            #[trigger] pre.queue@[j],
                        ) by {
                            assert(row_present(pre.queue@.remove(i as int), pre.queue@[j]));
                            let k = choose|k: int|
                                0 <= k < pre.queue@.remove(i as int).len()
                                    && #[trigger] pre.queue@.remove(i as int)[k] == pre.queue@[j];
                        }
                        // Previously resolved candidates stay resolved.
                        assert forall|i2: int|
                            0 <= i2 < oldq.len() && flow_candidate(oldq[i2], now, flow_timeout_ms)
                                && prefix_new.contains((#[trigger] oldq[i2]).id) implies (if
                        flow_cheap_restart(oldq[i2]) {
                            row_present(store.queue@, restarted_form(oldq[i2]))
                                && id_in_no_counter(*store, oldq[i2].id)
                        } else {
                            !q_has(store.queue@, oldq[i2].id) && has_hanging_row(
                                store.completed@,
                                oldq[i2],
                                now,
                            )
                        }) by {
                            if ids@.subrange(0, m as int).contains(oldq[i2].id) {
                                if flow_cheap_restart(oldq[i2]) {
                                    let j = choose|j: int|
                                        0 <= j < pre.queue@.len() && #[trigger] pre.queue@[j]
                                            == restarted_form(oldq[i2]);
                                    if j != i as int {
                                        assert(row_present(store.queue@, pre.queue@[j]));
                                    } else {
                                        assert(oldq[i2].id == id);
                                        assert(oldq[i2].id != id);
                                    }
                                    assert forall|k: int|
                                        0 <= k < store.counters@.len() implies !(
                                    #[trigger] store.counters@[k]).job_uuids@.contains(
                                        oldq[i2].id,
                                    ) by {
                                        crate::store::lemma_filter_membership(
                                            pre.counters@[k].job_uuids@,
                                            id,
                                            oldq[i2].id,
                                        );
                                    }
                                } else {
                                    assert(!q_has(pre.queue@, oldq[i2].id));
                                    assert forall|j: int|
                                        0 <= j < store.queue@.len() implies (
                                    #[trigger] store.queue@[j]).id != oldq[i2].id by {
                                        if j == i as int {
                                            assert(store.queue@[j].id == id);
                                            assert(oldq[i2].id != id) by {
                                                if oldq[i2].id == id {
                                                    assert(q_has(pre.queue@, id));
                                                }
                                            }
                                        } else {
                                            assert(row_present(pre.queue@.remove(i as int), pre.queue@.remove(i as int)[if j < i as int { j } else { j - 1 }]));
                                            assert(store.queue@[j] == pre.queue@.remove(i as int)[if j < i as int { j } else { j - 1 }]);
                                            assert(q_has(pre.queue@, store.queue@[j].id) ==> true);
                                            pre.queue@.remove_ensures(i as int);
                                            if j < i as int {
                                                assert(store.queue@[j] == pre.queue@[j]);
                                            } else {
                                                assert(store.queue@[j] == pre.queue@[j]);
                                            }
                                            assert(q_has(pre.queue@, store.queue@[j].id));
                                        }
                                    }
                                }
                            } else {
                                // The row resolved in this iteration.
                                let k = choose|k: int|
                                    0 <= k < prefix_new.len() && prefix_new[k] == oldq[i2].id;
                                assert(k == m);
                                assert(oldq[i2].id == id);
                                if oi != i2 {
                                    assert(oldq[oi].id != oldq[i2].id);
                                }
                                assert(oldq[i2] == pre.queue@[i as int]);
                                assert(flow_cheap_restart(oldq[i2]));
                                assert forall|k2: int|
                                    0 <= k2 < store.counters@.len() implies !(
                                #[trigger] store.counters@[k2]).job_uuids@.contains(
                                    oldq[i2].id,
                                ) by {
                                    crate::store::lemma_filter_membership(
                                        pre.counters@[k2].job_uuids@,
                                        id,
                                        oldq[i2].id,
                                    );
                                }
                            }
                        }
                        // Untouched rows survive.
                        assert forall|i2: int|
                            0 <= i2 < oldq.len() && !prefix_new.contains(
                                (#[trigger] oldq[i2]).id,
                            ) implies row_present(store.queue@, oldq[i2]) by {
                            assert(!ids@.subrange(0, m as int).contains(oldq[i2].id)) by {
                                if ids@.subrange(0, m as int).contains(oldq[i2].id) {
                                    let k = choose|k: int|
                                        0 <= k < m && ids@.subrange(0, m as int)[k] == oldq[i2].id;
                                    assert(prefix_new[k] == oldq[i2].id);
                                }
                            }
                            let j = choose|j: int|
                                0 <= j < pre.queue@.len() && #[trigger] pre.queue@[j] == oldq[i2];
                            assert(oldq[i2].id != id) by {
                                assert(prefix_new[m as int] == id);
                            }
                            assert(j != i as int);
                            assert(row_present(store.queue@, pre.queue@[j]));
                        }
                        // Counters only shrank further.
                        assert forall|k: int, x: u128|
                            0 <= k < store.counters@.len() && (
                            #[trigger] store.counters@[k].job_uuids@.contains(x)) implies old(
                            store,
                        ).counters@[k].job_uuids@.contains(x) by {
                            crate::store::lemma_filter_membership(
                                pre.counters@[k].job_uuids@,
                                id,
                                x,
                            );
                        }
                    }
                } else if is_candidate {
                    let reason = hanging_reason(&store.queue[i], now);
                    let w = store.queue[i].workspace_id.clone();
                    let monitor = "monitor".to_owned();
                    let ghost reason_view = reason@;
                    let res = cancel_job(store, &monitor, Some(reason), id, &w, true, now);
                    canceled.push(id);
                    proof {
                        let oi = choose|oi: int|
                            0 <= oi < oldq.len() && (#[trigger] oldq[oi]).id == id
                                && flow_candidate(oldq[oi], now, flow_timeout_ms);
                        assert(pre.queue@[i as int] == oldq[oi]);
                        assert(!flow_cheap_restart(oldq[oi]));
                        // The cancellation hit exactly this row.
                        let ci = choose|ci: int|
                            0 <= ci < pre.queue@.len() && (#[trigger] pre.queue@[ci]).id == id
                                && pre.queue@[ci].workspace_id@ == w@ && cancel_applied(
                                pre,
                                *store,
                                ci,
                                now,
                                monitor@,
                                Some(reason_view),
                                true,
                            );
                        if ci != i as int {
                            assert(pre.queue@[ci].id != pre.queue@[i as int].id);
                        }
                        assert(cancel_applied(pre, *store, i as int, now, monitor@, Some(reason_view), true));
                        assert(store.queue@ == pre.queue@.remove(i as int));
                        crate::store::lemma_q_remove(pre.queue@, i as int);
                        crate::store::lemma_remove_preserves_others(pre.queue@, i as int);
                        // The hung row now has its canceled terminal record.
                        let last = store.completed@.len() - 1;
                        assert(store.completed@[last].id == id);
                        assert(store.completed@[last].canceled);
                        assert(opt_view(&store.completed@[last].canceled_reason) == Some(
                            spec_hanging_reason(oldq[oi], now),
                        ));
                        assert(has_hanging_row(store.completed@, oldq[oi], now));
                        // Previously resolved candidates stay resolved.
                        assert forall|i2: int|
                            0 <= i2 < oldq.len() && flow_candidate(oldq[i2], now, flow_timeout_ms)
                                && prefix_new.contains((#[trigger] oldq[i2]).id) implies (if
                        flow_cheap_restart(oldq[i2]) {
                            row_present(store.queue@, restarted_form(oldq[i2]))
                                && id_in_no_counter(*store, oldq[i2].id)
                        } else {
                            !q_has(store.queue@, oldq[i2].id) && has_hanging_row(
                                store.completed@,
                                oldq[i2],
                                now,
                            )
                        }) by {
                            if ids@.subrange(0, m as int).contains(oldq[i2].id) {
                                assert(oldq[i2].id != id) by {
                                    if oldq[i2].id == id {
                                        if flow_cheap_restart(oldq[i2]) {
                                            let j = choose|j: int|
                                                0 <= j < pre.queue@.len() && #[trigger] pre.queue@[j]
                                                    == restarted_form(oldq[i2]);
                                            if j != i as int {
                                                assert(pre.queue@[j].id != pre.queue@[i as int].id);
                                            }
                                            assert(!pre.queue@[i as int].running);
                                        } else {
                                            assert(!q_has(pre.queue@, id));
                                        }
                                    }
                                }
                                if flow_cheap_restart(oldq[i2]) {
                                    let j = choose|j: int|
                                        0 <= j < pre.queue@.len() && #[trigger] pre.queue@[j]
                                            == restarted_form(oldq[i2]);
                                    assert(j != i as int);
                                    assert(row_present(store.queue@, pre.queue@[j]));
                                    assert forall|k2: int|
                                        0 <= k2 < store.counters@.len() implies !(
                                    #[trigger] store.counters@[k2]).job_uuids@.contains(
                                        oldq[i2].id,
                                    ) by {
                                        crate::store::lemma_filter_membership(
                                            pre.counters@[k2].job_uuids@,
                                            id,
                                            oldq[i2].id,
                                        );
                                    }
                                } else {
                                    assert(!q_has(pre.queue@, oldq[i2].id));
                                    assert forall|j: int|
                                        0 <= j < store.queue@.len() implies (
                                    #[trigger] store.queue@[j]).id != oldq[i2].id by {
                                        pre.queue@.remove_ensures(i as int);
                                        if j < i as int {
                                            assert(store.queue@[j] == pre.queue@[j]);
                                        } else {
                                            assert(store.queue@[j] == pre.queue@[j + 1]);
                                        }
                                        assert(q_has(pre.queue@, store.queue@[j].id));
                                    }
                                    let j2 = choose|j2: int|
                                        0 <= j2 < pre.completed@.len() && (
                                        #[trigger] pre.completed@[j2]).id == oldq[i2].id
                                            && pre.completed@[j2].canceled && opt_view(
                                            &pre.completed@[j2].canceled_reason,
                                        ) == Some(spec_hanging_reason(oldq[i2], now));
                                    assert(store.completed@[j2] == pre.completed@[j2]);
                                }
                            } else {
                                let k = choose|k: int|
                                    0 <= k < prefix_new.len() && prefix_new[k] == oldq[i2].id;
                                assert(k == m);
                                assert(oldq[i2].id == id);
                                if oi != i2 {
                                    assert(oldq[oi].id != oldq[i2].id);
                                }
                                assert(oldq[i2] == oldq[oi]);
                            }
                        }
                        // Untouched rows survive.
                        assert forall|i2: int|
                            0 <= i2 < oldq.len() && !prefix_new.contains(
                                (#[trigger] oldq[i2]).id,
                            ) implies row_present(store.queue@, oldq[i2]) by {
                            assert(!ids@.subrange(0, m as int).contains(oldq[i2].id)) by {
                                if ids@.subrange(0, m as int).contains(oldq[i2].id) {
                                    let k = choose|k: int|
                                        0 <= k < m && ids@.subrange(0, m as int)[k] == oldq[i2].id;
                                    assert(prefix_new[k] == oldq[i2].id);
                                }
                            }
                            let j = choose|j: int|
                                0 <= j < pre.queue@.len() && #[trigger] pre.queue@[j] == oldq[i2];
                            assert(oldq[i2].id != id) by {
                                assert(prefix_new[m as int] == id);
                            }
                            assert(j != i as int);
                            assert(row_present(store.queue@, pre.queue@[j]));
                        }
                        // Counters only shrank further.
                        assert forall|k: int, x: u128|
                            0 <= k < store.counters@.len() && (
                            #[trigger] store.counters@[k].job_uuids@.contains(x)) implies old(
                            store,
                        ).counters@[k].job_uuids@.contains(x) by {
                            crate::store::lemma_filter_membership(
                                pre.counters@[k].job_uuids@,
                                id,
                                x,
                            );
                        }
                    }
                } else {
                    proof {
                        // The row no longer qualifies: it was resolved by an
                        // earlier iteration, so every clause carries over.
                        let oi = choose|oi: int|
                            0 <= oi < oldq.len() && (#[trigger] oldq[oi]).id == id
                                && flow_candidate(oldq[oi], now, flow_timeout_ms);
                        assert(ids@.subrange(0, m as int).contains(id)) by {
                            if !ids@.subrange(0, m as int).contains(id) {
                                assert(pre.queue@[i as int] == oldq[oi]);
                            }
                        }
                        assert forall|i2: int|
                            0 <= i2 < oldq.len() && !prefix_new.contains(
                                (#[trigger] oldq[i2]).id,
                            ) implies row_present(store.queue@, oldq[i2]) by {
                            assert(!ids@.subrange(0, m as int).contains(oldq[i2].id)) by {
                                if ids@.subrange(0, m as int).contains(oldq[i2].id) {
                                    let k = choose|k: int|
                                        0 <= k < m && ids@.subrange(0, m as int)[k] == oldq[i2].id;
                                    assert(prefix_new[k] == oldq[i2].id);
                                }
                            }
                        }
                    }
                }
            },
            None => {
                proof {
                    let oi = choose|oi: int|
                        0 <= oi < oldq.len() && (#[trigger] oldq[oi]).id == id && flow_candidate(
                            oldq[oi],
                            now,
                            flow_timeout_ms,
                        );
                    assert(ids@.subrange(0, m as int).contains(id)) by {
                        if !ids@.subrange(0, m as int).contains(id) {
                            assert(row_present(pre.queue@, oldq[oi]));
                            let j = choose|j: int|
                                0 <= j < pre.queue@.len() && #[trigger] pre.queue@[j] == oldq[oi];
                            assert(q_has(pre.queue@, id));
                        }
                    }
                    assert forall|i2: int|
                        0 <= i2 < oldq.len() && !prefix_new.contains(
                            (#[trigger] oldq[i2]).id,
                        ) implies row_present(store.queue@, oldq[i2]) by {
                        assert(!ids@.subrange(0, m as int).contains(oldq[i2].id)) by {
                            if ids@.subrange(0, m as int).contains(oldq[i2].id) {
                                let k = choose|k: int|
                                    0 <= k < m && ids@.subrange(0, m as int)[k] == oldq[i2].id;
                                assert(prefix_new[k] == oldq[i2].id);
                            }
                        }
                    }
                }
            },
        }
        m = m + 1;
    }
    proof {
        assert(ids@.subrange(0, ids@.len() as int) =~= ids@);
        assert forall|i: int|
            0 <= i < old(store).queue@.len() && !flow_candidate(
                old(store).queue@[i],
                now,
                flow_timeout_ms,
            ) implies row_present(store.queue@, #[trigger] old(store).queue@[i]) by {
            if ids@.contains(old(store).queue@[i].id) {
                let k = choose|k: int| 0 <= k < ids@.len() && ids@[k] == old(store).queue@[i].id;
                let i2 = choose|i2: int|
                    0 <= i2 < old(store).queue@.len() && (#[trigger] old(store).queue@[i2]).id
                        == ids@[k] && flow_candidate(old(store).queue@[i2], now, flow_timeout_ms);
                if i2 != i {
                    assert(old(store).queue@[i2].id != old(store).queue@[i].id);
                }
                assert(false);
            }
        }
    }
    (restarted, canceled)
}

/// Whether a parallel-branch liveness row is stale.
pub open spec fn lock_stale(l: MonitorLockRow, now: u64, timeout_ms: u64) -> bool {
    l.last_ping matches Some(p) && p + timeout_ms < now
}

fn lock_is_stale(l: &MonitorLockRow, now: u64, timeout_ms: u64) -> (r: bool)
    ensures
        r == lock_stale(*l, now, timeout_ms),
{
    match l.last_ping {
        Some(p) => {
            if timeout_ms <= u64::MAX - p {
                p + timeout_ms < now
            } else {
                false
            }
        },
        None => false,
    }
}

/// Whether some queue row carries `id`, running and not canceled.
pub open spec fn parent_running(q: Seq<QueuedJob>, id: u128) -> bool {
    exists|j: int|
        0 <= j < q.len() && (#[trigger] q[j]).id == id && q[j].running && !q[j].canceled
}

/// The reason recorded on a parent flow canceled for a stalled branch.
pub open spec fn spec_branch_reason(parent: u128, job: u128) -> Seq<char> {
    "Flow "@ + spec_uuid_hyphenated(parent) + " cancelled as one of the parallel branch "@
        + spec_uuid_hyphenated(job) + " was unable to make the last transition "@
}

fn branch_reason(parent: u128, job: u128) -> (r: String)
    ensures
        r@ == spec_branch_reason(parent, job),
{
    let mut s = "Flow ".to_owned();
    let u = uuid_hyphenated(parent);
    s.append(u.as_str());
    s.append(" cancelled as one of the parallel branch ");
    let u2 = uuid_hyphenated(job);
    s.append(u2.as_str());
    s.append(" was unable to make the last transition ");
    s
}

/// Whether the completed table holds the canceled terminal row of `parent`,
/// citing one of the stalled branches of `locks` as its reason.
pub open spec fn has_branch_row(
    c: Seq<CompletedJob>,
    parent: u128,
    locks: Seq<MonitorLockRow>,
) -> bool {
    exists|j: int, k: int|
        0 <= j < c.len() && 0 <= k < locks.len() && (#[trigger] c[j]).id == parent && c[j].canceled
            && (#[trigger] locks[k]).parent_flow_id == parent && opt_view(&c[j].canceled_reason)
            == Some(spec_branch_reason(parent, locks[k].job_id))
}

/// One pass over the parallel-branch liveness rows: stale rows are dropped,
/// and each stale row's parent flow, if still running and not canceled, is
/// canceled for the stalled branch, its terminal row carrying a reason that
/// names the branch. A parent no longer pending needs nothing: the flow
/// already finished.
pub fn reap_parallel_locks(store: &mut Store, now: u64, timeout_ms: u64) -> (dropped: Vec<
    MonitorLockRow,
>)
    requires
        old(store).wf(),
    ensures
        final(store).wf(),
        final(store).monitor_locks@ == old(store).monitor_locks@.filter(
            |l: MonitorLockRow| !lock_stale(l, now, timeout_ms),
        ),
        dropped@ == old(store).monitor_locks@.filter(
            |l: MonitorLockRow| lock_stale(l, now, timeout_ms),
        ),
        forall|k: int|
            0 <= k < old(store).monitor_locks@.len() && lock_stale(
                #[trigger] old(store).monitor_locks@[k],
                now,
                timeout_ms,
            ) ==> !parent_running(final(store).queue@, old(store).monitor_locks@[k].parent_flow_id),
        forall|k: int|
            0 <= k < old(store).monitor_locks@.len() && lock_stale(
                #[trigger] old(store).monitor_locks@[k],
                now,
                timeout_ms,
            ) && parent_running(
                old(store).queue@,
                old(store).monitor_locks@[k].parent_flow_id,
            ) ==> has_branch_row(
                final(store).completed@,
                old(store).monitor_locks@[k].parent_flow_id,
                dropped@,
            ),
        final(store).resume_jobs@ == old(store).resume_jobs@,
        final(store).concurrency_keys@ == old(store).concurrency_keys@,
        final(store).job_logs@ == old(store).job_logs@,
{
    let mut kept: Vec<MonitorLockRow> = Vec::new();
    let mut stale: Vec<MonitorLockRow> = Vec::new();
    let mut i: usize = 0;
    proof {
        reveal(Seq::filter);
        assert(store.monitor_locks@.subrange(0, 0) =~= Seq::<MonitorLockRow>::empty());
    }
    while i < store.monitor_locks.len()
        invariant
            old(store).wf(),
            *store == *old(store),
            0 <= i <= store.monitor_locks@.len(),
            kept@ == store.monitor_locks@.subrange(0, i as int).filter(
                |l: MonitorLockRow| !lock_stale(l, now, timeout_ms),
            ),
            stale@ == store.monitor_locks@.subrange(0, i as int).filter(
                |l: MonitorLockRow| lock_stale(l, now, timeout_ms),
            ),
        decreases store.monitor_locks@.len() - i,
    {
        let l = store.monitor_locks[i];
        proof {
            reveal(Seq::filter);
            let pre = store.monitor_locks@.subrange(0, i as int);
            let cur = store.monitor_locks@.subrange(0, i + 1);
            assert(cur.drop_last() =~= pre);
            assert(cur.last() == store.monitor_locks@[i as int]);
        }
        if lock_is_stale(&l, now, timeout_ms) {
            stale.push(l);
        } else {
            kept.push(l);
        }
        i = i + 1;
    }
    proof {
        assert(store.monitor_locks@.subrange(0, store.monitor_locks@.len() as int)
            =~= store.monitor_locks@);
    }
    store.monitor_locks = kept;
    proof {
        assert forall|j: int|
            0 <= j < old(store).queue@.len() implies row_present(
            store.queue@,
            #[trigger] old(store).queue@[j],
        ) by {
            assert(store.queue@[j] == old(store).queue@[j]);
        }
    }
    let mut m: usize = 0;
    while m < stale.len()
        invariant
            old(store).wf(),
            store.wf(),
            0 <= m <= stale@.len(),
            forall|k: int|
                0 <= k < m ==> !parent_running(
                    store.queue@,
                    (#[trigger] stale@[k]).parent_flow_id,
                ),
            // untouched rows survive by value, and no id appears
            forall|x: u128| q_has(store.queue@, x) ==> q_has(old(store).queue@, x),
            forall|j: int|
                0 <= j < old(store).queue@.len() && q_has(
                    store.queue@,
                    (#[trigger] old(store).queue@[j]).id,
                ) ==> row_present(store.queue@, old(store).queue@[j]),
            // every id this pass removed left a branch-reason terminal row
            forall|p: u128|
                q_has(old(store).queue@, p) && !q_has(store.queue@, p) ==> has_branch_row(
                    store.completed@,
                    p,
                    stale@,
                ),
            store.monitor_locks@ == old(store).monitor_locks@.filter(
                |l: MonitorLockRow| !lock_stale(l, now, timeout_ms),
            ),
            stale@ == old(store).monitor_locks@.filter(
                |l: MonitorLockRow| lock_stale(l, now, timeout_ms),
            ),
            store.resume_jobs@ == old(store).resume_jobs@,
            store.concurrency_keys@ == old(store).concurrency_keys@,
            store.job_logs@ == old(store).job_logs@,
        decreases stale@.len() - m,
    {
        let parent = stale[m].parent_flow_id;
        let branch = stale[m].job_id;
        let ghost pre = *store;
        match store.find_queued(parent) {
            Some(i) => {
                if store.queue[i].running && !store.queue[i].canceled {
                    let reason = branch_reason(parent, branch);
                    let w = store.queue[i].workspace_id.clone();
                    let monitor = "monitor".to_owned();
                    let res = cancel_job(store, &monitor, Some(reason), parent, &w, true, now);
                    proof {
                        let ci = choose|ci: int|
                            0 <= ci < pre.queue@.len() && (#[trigger] pre.queue@[ci]).id == parent
                                && pre.queue@[ci].workspace_id@ == w@ && cancel_applied(
                                pre,
                                *store,
                                ci,
                                now,
                                monitor@,
                                Some(spec_branch_reason(parent, branch)),
                                true,
                            );
                        if ci != i as int {
                            assert(pre.queue@[ci].id != pre.queue@[i as int].id);
                        }
                        assert(store.queue@ == pre.queue@.remove(i as int));
                        crate::store::lemma_q_remove(pre.queue@, i as int);
                        crate::store::lemma_remove_preserves_others(pre.queue@, i as int);
                        pre.queue@.remove_ensures(i as int);
                        assert forall|k: int| 0 <= k < m + 1 implies !parent_running(
                            store.queue@,
                            (#[trigger] stale@[k]).parent_flow_id,
                        ) by {
                            if k < m {
                                assert forall|j: int|
                                    0 <= j < store.queue@.len() implies !((
                                #[trigger] store.queue@[j]).id == stale@[k].parent_flow_id
                                    && store.queue@[j].running && !store.queue@[j].canceled) by {
                                    if j < i as int {
                                        assert(store.queue@[j] == pre.queue@[j]);
                                    } else {
                                        assert(store.queue@[j] == pre.queue@[j + 1]);
                                    }
                                }
                            } else {
                                assert(!q_has(store.queue@, parent));
                            }
                        }
                        assert forall|x: u128| q_has(store.queue@, x) implies q_has(
                            old(store).queue@,
                            x,
                        ) by {
                            assert(q_has(pre.queue@, x));
                        }
                        // The new terminal row names the stalled branch.
                        let last = store.completed@.len() - 1;
                        assert(store.completed@[last].id == parent);
                        assert(store.completed@[last].canceled);
                        assert(opt_view(&store.completed@[last].canceled_reason) == Some(
                            spec_branch_reason(parent, branch),
                        ));
                        assert(stale@[m as int].parent_flow_id == parent && stale@[m as int].job_id
                            == branch);
                        // Untouched rows survive the removal.
                        assert forall|j: int|
                            0 <= j < old(store).queue@.len() && q_has(
                                store.queue@,
                                (#[trigger] old(store).queue@[j]).id,
                            ) implies row_present(store.queue@, old(store).queue@[j]) by {
                            let oid = old(store).queue@[j].id;
                            assert(q_has(pre.queue@, oid));
                            assert(oid != parent);
                            let jj = choose|jj: int|
                                0 <= jj < pre.queue@.len() && #[trigger] pre.queue@[jj] == old(
                                    store,
                                ).queue@[j];
                            assert(jj != i as int);
                            assert(row_present(store.queue@, pre.queue@[jj]));
                        }
                        // Every removed id keeps its branch-reason terminal
                        // row: the pushed row serves this iteration's parent,
                        // earlier rows sit where they were.
                        assert forall|p: u128|
                            q_has(old(store).queue@, p) && !q_has(
                                store.queue@,
                                p,
                            ) implies has_branch_row(store.completed@, p, stale@) by {
                            if p == parent {
                                assert(store.completed@[last].id == p && store.completed@[
                                    last
                                ].canceled && stale@[m as int].parent_flow_id == p && opt_view(
                                    &store.completed@[last].canceled_reason,
                                ) == Some(spec_branch_reason(p, stale@[m as int].job_id)));
                            } else if !q_has(pre.queue@, p) {
                                let (j2, k2) = choose|j2: int, k2: int|
                                    0 <= j2 < pre.completed@.len() && 0 <= k2 < stale@.len() && (
                                    #[trigger] pre.completed@[j2]).id == p
                                        && pre.completed@[j2].canceled && (
                                    #[trigger] stale@[k2]).parent_flow_id == p && opt_view(
                                        &pre.completed@[j2].canceled_reason,
                                    ) == Some(spec_branch_reason(p, stale@[k2].job_id));
                                assert(store.completed@[j2] == pre.completed@[j2]);
                            } else {
                                assert(q_has(store.queue@, p));
                            }
                        }
                    }
                } else {
                    proof {
                        assert forall|j: int|
                            0 <= j < store.queue@.len() implies !((#[trigger] store.queue@[j]).id
                            == parent && store.queue@[j].running && !store.queue@[j].canceled) by {
                            if j != i as int {
                                assert(store.queue@[j].id != store.queue@[i as int].id);
                            }
                        }
                    }
                }
            },
            None => {
            },
        }
        m = m + 1;
    }
    proof {
        assert forall|k: int|
            0 <= k < old(store).monitor_locks@.len() && lock_stale(
                #[trigger] old(store).monitor_locks@[k],
                now,
                timeout_ms,
            ) implies !parent_running(
            store.queue@,
            old(store).monitor_locks@[k].parent_flow_id,
        ) by {
            let pred = |l: MonitorLockRow| lock_stale(l, now, timeout_ms);
            old(store).monitor_locks@.lemma_filter_contains(pred, k);
            let k2 = choose|k2: int| 0 <= k2 < stale@.len() && stale@[k2] == old(
                store,
            ).monitor_locks@[k];
        }
        assert forall|k: int|
            0 <= k < old(store).monitor_locks@.len() && lock_stale(
                #[trigger] old(store).monitor_locks@[k],
                now,
                timeout_ms,
            ) && parent_running(
                old(store).queue@,
                old(store).monitor_locks@[k].parent_flow_id,
            ) implies has_branch_row(
            store.completed@,
            old(store).monitor_locks@[k].parent_flow_id,
            stale@,
        ) by {
            let p = old(store).monitor_locks@[k].parent_flow_id;
            // A once-running parent no longer running must have been removed:
            // were its id still queued, the untouched old row would survive
            // by value, still running and not canceled.
            if q_has(store.queue@, p) {
                let oi = choose|oi: int|
                    0 <= oi < old(store).queue@.len() && (#[trigger] old(store).queue@[oi]).id == p
                        && old(store).queue@[oi].running && !old(store).queue@[oi].canceled;
                assert(row_present(store.queue@, old(store).queue@[oi]));
                let jj = choose|jj: int|
                    0 <= jj < store.queue@.len() && #[trigger] store.queue@[jj] == old(
                        store,
                    ).queue@[oi];
                assert(parent_running(store.queue@, p));
            }
        }
    }
    stale
}

} // verus!
