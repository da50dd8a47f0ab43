//! The claim/ping/complete contract a worker must honor, on the store side.
//!
//! A worker claims a pending row, periodically refreshes its liveness
//! timestamp while running — observing the cancellation flag on each refresh
//! — and on finish moves the row into the terminal table. A canceled row is
//! never claimed, its pings are not honored, and its completion is recorded
//! as canceled whatever outcome the worker reports.

use vstd::prelude::*;
use crate::errors::ApiError;
use crate::job::{completed_matches, completed_from_queued, QueuedJob};
use crate::push::spec_contains_str;
use crate::store::{c_has, q_has, Store};

verus! {

/// Whether a pending row may be claimed by a worker serving `tags`: pending,
/// not canceled, due, not suspended, and routed to one of the tags.
pub open spec fn claimable(q: QueuedJob, tags: Seq<String>, now: u64) -> bool {
    &&& !q.running
    &&& !q.canceled
    &&& q.scheduled_for <= now
    &&& q.suspend == 0
    &&& spec_contains_str(tags, q.tag@)
}

/// The running form of a claimed row: running, started now, alive now.
pub open spec fn claimed_form(q: QueuedJob, now: u64) -> QueuedJob {
    QueuedJob { running: true, started_at: Some(now), last_ping: Some(now), ..q }
}

/// Claim the first pending row matching the worker's tags, under the store's
/// exclusive access — the row lock with skip-on-contention of the real
/// system. A canceled row is never claimed.
pub fn claim_job(store: &mut Store, tags: &Vec<String>, now: u64) -> (r: Option<u128>)
    requires
        old(store).wf(),
    ensures
        final(store).wf(),
        match r {
            Some(id) => exists|i: int|
                0 <= i < old(store).queue@.len() && (#[trigger] old(store).queue@[i]).id == id
                    && claimable(old(store).queue@[i], tags@, now) && final(store).queue@ == old(
                    store,
                ).queue@.update(i, claimed_form(old(store).queue@[i], now)),
            None => *final(store) == *old(store) && forall|i: int|
                0 <= i < old(store).queue@.len() ==> !claimable(
                    #[trigger] old(store).queue@[i],
                    tags@,
                    now,
                ),
        },
        final(store).completed@ == old(store).completed@,
        final(store).resume_jobs@ == old(store).resume_jobs@,
        final(store).concurrency_keys@ == old(store).concurrency_keys@,
        final(store).counters@ == old(store).counters@,
        final(store).monitor_locks@ == old(store).monitor_locks@,
        final(store).job_logs@ == old(store).job_logs@,
        final(store).audits@ == old(store).audits@,
{
    let mut i: usize = 0;
    while i < store.queue.len()
        invariant
            old(store).wf(),
            *store == *old(store),
            0 <= i <= store.queue@.len(),
            forall|j: int| 0 <= j < i ==> !claimable(#[trigger] store.queue@[j], tags@, now),
        decreases store.queue@.len() - i,
    {
        let matches_tag = contains_tag(tags, &store.queue[i].tag);
        let q = &store.queue[i];
        if !q.running && !q.canceled && q.scheduled_for <= now && q.suspend == 0 && matches_tag {
            let row = store.take_queued(i);
            let id = row.id;
            let row2 = QueuedJob {
                running: true,
                started_at: Some(now),
                last_ping: Some(now),
                ..row
            };
            store.insert_queued(i, row2);
            proof {
                assert(store.queue@ =~= old(store).queue@.update(
                    i as int,
                    claimed_form(old(store).queue@[i as int], now),
                ));
            }
            return Some(id);
        }
        i = i + 1;
    }
    None
}

fn contains_tag(tags: &Vec<String>, t: &String) -> (r: bool)
    ensures
        r == spec_contains_str(tags@, t@),
{
    let mut i: usize = 0;
    while i < tags.len()
        invariant
            0 <= i <= tags@.len(),
            forall|j: int| 0 <= j < i ==> (#[trigger] tags@[j])@ != t@,
        decreases tags@.len() - i,
    {
        if tags[i] == *t {
            return true;
        }
        i = i + 1;
    }
    false
}

/// Refresh a running job's liveness timestamp and report whether it was
/// canceled. The ping of a canceled row is not honored: the flag is reported
/// for the worker to observe and unwind, and the row is left as it is.
pub fn ping_job(store: &mut Store, id: u128, now: u64) -> (r: Result<bool, ApiError>)
    requires
        old(store).wf(),
    ensures
        final(store).wf(),
        r is Err ==> *final(store) == *old(store),
        (exists|i: int|
            0 <= i < old(store).queue@.len() && (#[trigger] old(store).queue@[i]).id == id && old(
                store,
            ).queue@[i].running) ==> r is Ok,
        r matches Ok(canceled) ==> exists|i: int|
            0 <= i < old(store).queue@.len() && (#[trigger] old(store).queue@[i]).id == id && old(
                store,
            ).queue@[i].running && canceled == old(store).queue@[i].canceled && (if canceled {
                *final(store) == *old(store)
            } else {
                final(store).queue@ == old(store).queue@.update(
                    i,
                    QueuedJob { last_ping: Some(now), ..old(store).queue@[i] },
                ) && final(store).completed@ == old(store).completed@ && final(store).resume_jobs@
                    == old(store).resume_jobs@ && final(store).counters@ == old(store).counters@
            }),
{
    let i = match store.find_queued(id) {
        Some(i) => i,
        None => {
            return Err(ApiError::NotFound("job not found in queue".to_owned()));
        },
    };
    if !store.queue[i].running {
        proof {
            assert forall|i2: int|
                0 <= i2 < old(store).queue@.len() && (#[trigger] old(store).queue@[i2]).id
                    == id implies !old(store).queue@[i2].running by {
                if i2 != i as int {
                    assert(old(store).queue@[i2].id != old(store).queue@[i as int].id);
                }
            }
        }
        return Err(ApiError::BadRequest("job is not running".to_owned()));
    }
    if store.queue[i].canceled {
        return Ok(true);
    }
    let row = store.take_queued(i);
    let row2 = QueuedJob { last_ping: Some(now), ..row };
    store.insert_queued(i, row2);
    proof {
        assert(store.queue@ =~= old(store).queue@.update(i as int, store.queue@[i as int]));
    }
    Ok(false)
}

/// Move a finished job into the terminal table, releasing its concurrency
/// slots. A worker's reported success is honored only for a row that was not
/// canceled: the completion of a canceled row is recorded as canceled and
/// failed, whatever the worker reports.
pub fn complete_job(
    store: &mut Store,
    id: u128,
    result: String,
    success: bool,
    now: u64,
) -> (r: Result<(), ApiError>)
    requires
        old(store).wf(),
    ensures
        final(store).wf(),
        r is Err ==> *final(store) == *old(store) && !q_has(old(store).queue@, id),
        r is Ok ==> exists|i: int|
            0 <= i < old(store).queue@.len() && (#[trigger] old(store).queue@[i]).id == id && {
                let q = old(store).queue@[i];
                &&& final(store).queue@ == old(store).queue@.remove(i)
                &&& final(store).completed@ == old(store).completed@.push(
                    final(store).completed@.last(),
                )
                &&& completed_matches(
                    final(store).completed@.last(),
                    q,
                    now,
                    success && !q.canceled,
                    result@,
                    q.canceled,
                    q.canceled_by,
                    q.canceled_reason,
                )
                &&& final(store).counters@.len() == old(store).counters@.len()
                &&& forall|k: int|
                    0 <= k < old(store).counters@.len() ==> (#[trigger] final(store).counters@[k]).key
                        == old(store).counters@[k].key && final(store).counters@[k].job_uuids@
                        == old(store).counters@[k].job_uuids@.filter(|u: u128| u != q.id)
                &&& final(store).resume_jobs@ == old(store).resume_jobs@
                &&& final(store).monitor_locks@ == old(store).monitor_locks@
                &&& final(store).job_logs@ == old(store).job_logs@
                &&& final(store).audits@ == old(store).audits@
            },
{
    let i = match store.find_queued(id) {
        Some(i) => i,
        None => {
            return Err(ApiError::NotFound("job not found in queue".to_owned()));
        },
    };
    let q = store.take_queued(i);
    let was_canceled = q.canceled;
    let canceled_by = match &q.canceled_by {
        Some(b) => Some(b.clone()),
        None => None,
    };
    let canceled_reason = match &q.canceled_reason {
        Some(x) => Some(x.clone()),
        None => None,
    };
    let cj = completed_from_queued(
        q,
        now,
        success && !was_canceled,
        result,
        was_canceled,
        canceled_by,
        canceled_reason,
    );
    store.push_completed(cj);
    store.strip_id_from_counters(id);
    Ok(())
}

} // verus!
