//! The job records: the pending form living in the queue and the terminal
//! form living in the completed table. A job's identity is one integer id,
//! and it lives in exactly one of the two tables at any time.

use vstd::prelude::*;
use crate::flow::FlowStatus;

verus! {

/// The kind of work a job carries.
#[derive(Clone, Copy, PartialEq, Eq, Structural, Debug)]
pub enum JobKind {
    Script,
    Preview,
    Dependencies,
    Flow,
    FlowPreview,
    FlowNode,
    SingleScriptFlow,
    FlowDependencies,
    Noop,
    RestartedFlow,
}

/// Whether `k` is a flow-like kind: a job whose liveness reflects the
/// orchestrator between module executions, not a child execution.
pub open spec fn is_flow_kind(k: JobKind) -> bool {
    match k {
        JobKind::Flow => true,
        JobKind::FlowPreview => true,
        JobKind::FlowNode => true,
        JobKind::SingleScriptFlow => true,
        _ => false,
    }
}

/// Whether `k` is a flow-like kind.
pub fn kind_is_flow(k: JobKind) -> (r: bool)
    ensures
        r == is_flow_kind(k),
{
    match k {
        JobKind::Flow => true,
        JobKind::FlowPreview => true,
        JobKind::FlowNode => true,
        JobKind::SingleScriptFlow => true,
        _ => false,
    }
}

/// Whether `k` is one of the kinds the flow-zombie pass acts on: a top-level
/// flow orchestration row. Narrower than [`is_flow_kind`]: a single-script
/// flow is excluded from the script reaper as flow-like, yet the flow pass
/// does not recover it either, leaving its stale rows untouched.
pub open spec fn is_flow_reap_kind(k: JobKind) -> bool {
    match k {
        JobKind::Flow => true,
        JobKind::FlowPreview => true,
        JobKind::FlowNode => true,
        _ => false,
    }
}

/// Whether `k` is one of the kinds the flow-zombie pass acts on.
pub fn kind_is_flow_reap(k: JobKind) -> (r: bool)
    ensures
        r == is_flow_reap_kind(k),
{
    match k {
        JobKind::Flow => true,
        JobKind::FlowPreview => true,
        JobKind::FlowNode => true,
        _ => false,
    }
}

/// A pending or running job, as a row of the queue table.
///
/// Timestamps are epoch milliseconds.
pub struct QueuedJob {
    pub id: u128,
    pub workspace_id: String,
    pub kind: JobKind,
    pub script_path: Option<String>,
    pub args: String,
    pub tag: String,
    pub created_by: String,
    pub email: String,
    pub permissioned_as: String,
    pub scheduled_for: u64,
    pub running: bool,
    pub started_at: Option<u64>,
    pub last_ping: Option<u64>,
    pub suspend: i64,
    pub suspend_until: Option<u64>,
    pub same_worker: bool,
    pub canceled: bool,
    pub canceled_by: Option<String>,
    pub canceled_reason: Option<String>,
    pub parent_job: Option<u128>,
    pub schedule_path: Option<String>,
    pub is_flow_step: bool,
    pub flow_status: Option<FlowStatus>,
}

impl QueuedJob {
    /// Row well-formedness: the liveness timestamp is set only while the row
    /// is running, and the outstanding-approval countdown is never negative.
    pub open spec fn wf(&self) -> bool {
        &&& (self.last_ping is Some ==> self.running)
        &&& self.suspend >= 0
    }

    /// Whether the row is eligible for a trivial cancel: it never started
    /// running, is not a flow step, and is not driven by a schedule.
    pub open spec fn spec_trivially_cancelable(&self) -> bool {
        &&& !self.running
        &&& self.parent_job is None
        &&& self.schedule_path is None
    }

    /// Whether the row is eligible for a trivial cancel.
    pub fn trivially_cancelable(&self) -> (r: bool)
        ensures
            r == self.spec_trivially_cancelable(),
    {
        !self.running && self.parent_job.is_none() && self.schedule_path.is_none()
    }

    /// Whether the liveness timestamp is older than `timeout_ms` before
    /// `now`: the zombie signal.
    pub open spec fn spec_ping_stale(&self, now: u64, timeout_ms: u64) -> bool {
        match self.last_ping {
            Some(p) => p + timeout_ms < now,
            None => false,
        }
    }

    /// Whether the liveness timestamp is older than `timeout_ms` before `now`.
    pub fn ping_stale(&self, now: u64, timeout_ms: u64) -> (r: bool)
        ensures
            r == self.spec_ping_stale(now, timeout_ms),
    {
        match self.last_ping {
            Some(p) => {
                if timeout_ms <= u64::MAX - p {
                    p + timeout_ms < now
                } else {
                    false
                }
            },
            None => false,
        }
    }
}

/// A terminal job, as a row of the completed table.
pub struct CompletedJob {
    pub id: u128,
    pub workspace_id: String,
    pub parent_job: Option<u128>,
    pub created_by: String,
    pub email: String,
    pub kind: JobKind,
    pub script_path: Option<String>,
    pub args: String,
    pub tag: String,
    pub started_at: Option<u64>,
    pub duration_ms: u64,
    pub success: bool,
    pub result: String,
    pub deleted: bool,
    pub canceled: bool,
    pub canceled_by: Option<String>,
    pub canceled_reason: Option<String>,
    pub is_flow_step: bool,
    pub flow_status: Option<FlowStatus>,
}

/// Whether `r` is the terminal row that the queue row `q` moves to with the
/// given outcome: identity and provenance fields carry over unchanged, the
/// duration is measured from `started_at` (0 for a job that never started),
/// and the outcome fields are as given.
pub open spec fn completed_matches(
    r: CompletedJob,
    q: QueuedJob,
    now: u64,
    success: bool,
    result: Seq<char>,
    canceled: bool,
    canceled_by: Option<String>,
    canceled_reason: Option<String>,
) -> bool {
    &&& r.id == q.id
    &&& r.workspace_id == q.workspace_id
    &&& r.parent_job == q.parent_job
    &&& r.created_by == q.created_by
    &&& r.email == q.email
    &&& r.kind == q.kind
    &&& r.script_path == q.script_path
    &&& r.args == q.args
    &&& r.tag == q.tag
    &&& r.started_at == (if q.started_at is Some {
        q.started_at
    } else {
        Some(now)
    })
    &&& r.duration_ms == (match q.started_at {
        Some(s) => if now >= s {
            (now - s) as u64
        } else {
            0u64
        },
        None => 0u64,
    })
    &&& r.success == success
    &&& r.result@ == result
    &&& !r.deleted
    &&& r.canceled == canceled
    &&& r.canceled_by == canceled_by
    &&& r.canceled_reason == canceled_reason
    &&& r.is_flow_step == q.is_flow_step
    &&& r.flow_status == q.flow_status
}

/// The terminal row a queue row moves to, with the given outcome.
pub fn completed_from_queued(
    q: QueuedJob,
    now: u64,
    success: bool,
    result: String,
    canceled: bool,
    canceled_by: Option<String>,
    canceled_reason: Option<String>,
) -> (r: CompletedJob)
    ensures
        completed_matches(r, q, now, success, result@, canceled, canceled_by, canceled_reason),
{
    let duration_ms: u64 = match &q.started_at {
        Some(s) => {
            if now >= *s {
                now - *s
            } else {
                0
            }
        },
        None => 0,
    };
    let started_at: Option<u64> = match q.started_at {
        Some(s) => Some(s),
        None => Some(now),
    };
    CompletedJob {
        id: q.id,
        workspace_id: q.workspace_id,
        parent_job: q.parent_job,
        created_by: q.created_by,
        email: q.email,
        kind: q.kind,
        script_path: q.script_path,
        args: q.args,
        tag: q.tag,
        started_at,
        duration_ms,
        success,
        result,
        deleted: false,
        canceled,
        canceled_by,
        canceled_reason,
        is_flow_step: q.is_flow_step,
        flow_status: q.flow_status,
    }
}

} // verus!
