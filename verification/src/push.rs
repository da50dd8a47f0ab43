//! The push/enqueue service.
//!
//! A push validates the routing tag against the calling workspace, resolves
//! the effective tag and scheduling time, resolves the identity the job runs
//! under, and inserts the pending row — plus its concurrency-key row, if any
//! — in one transaction. The returned id is usable immediately for get,
//! cancel and wait, even before a worker has claimed the row.

use vstd::prelude::*;
use crate::cancel::opt_view;
use crate::errors::ApiError;
use crate::flow::{FlowStatus, FlowStatusModule};
use crate::job::{JobKind, QueuedJob};
use crate::store::{c_has, q_has, ConcurrencyKeyRow, Store};

verus! {

/// The identity a delegated job runs on behalf of.
pub struct OnBehalfOf {
    pub email: String,
    pub edited_by: String,
}

/// One push request, already resolved to plain values by the caller: the
/// target's default tag and language tag are read from the referenced script
/// or flow, and the scope and workspace tag policies from the caller's
/// context.
pub struct PushRequest {
    pub job_id: u128,
    pub workspace_id: String,
    pub kind: JobKind,
    pub script_path: Option<String>,
    pub args: String,
    pub tag_override: Option<String>,
    pub default_tag: Option<String>,
    pub language_tag: String,
    pub created_by: String,
    pub email: String,
    pub on_behalf_of: Option<OnBehalfOf>,
    pub scheduled_at: Option<u64>,
    pub scheduled_in_ms: Option<u64>,
    pub parent_job: Option<u128>,
    pub same_worker: bool,
    pub is_flow_step: bool,
    pub concurrency_key: Option<String>,
    pub flow_status: Option<FlowStatus>,
}

/// The effective routing tag: explicit override, else the script or flow
/// default, else the language default.
pub open spec fn spec_effective_tag(req: &PushRequest) -> Seq<char> {
    match req.tag_override {
        Some(t) => t@,
        None => match req.default_tag {
            Some(t) => t@,
            None => req.language_tag@,
        },
    }
}

/// The tag a push validates against the workspace: the explicit override,
/// else the script or flow default. A push that falls through to the
/// language default is exempt from the check, as the language tags are the
/// platform's own.
pub open spec fn spec_checked_tag(req: &PushRequest) -> Option<Seq<char>> {
    match req.tag_override {
        Some(t) => Some(t@),
        None => match req.default_tag {
            Some(t) => Some(t@),
            None => None,
        },
    }
}

/// When the job becomes due: an absolute time, else an offset from now,
/// else immediately.
pub open spec fn spec_scheduled_for(req: &PushRequest, now: u64) -> u64 {
    match req.scheduled_at {
        Some(t) => t,
        None => match req.scheduled_in_ms {
            Some(d) => if d > u64::MAX - now {
                u64::MAX
            } else {
                (now + d) as u64
            },
            None => now,
        },
    }
}

/// The permission owner of a username.
pub open spec fn spec_permissioned_as(username: Seq<char>) -> Seq<char> {
    "u/"@ + username
}

/// Render the permission owner of a username.
pub fn username_to_permissioned_as(username: &String) -> (r: String)
    ensures
        r@ == spec_permissioned_as(username@),
{
    let mut s = "u/".to_owned();
    s.append(username.as_str());
    s
}

/// The identity the pending row carries: the delegated identity where the
/// job runs on behalf of another, else the caller's.
pub open spec fn spec_push_identity(req: &PushRequest) -> (Seq<char>, Seq<char>) {
    match req.on_behalf_of {
        Some(o) => (o.email@, spec_permissioned_as(o.edited_by@)),
        None => (req.email@, spec_permissioned_as(req.created_by@)),
    }
}

/// Whether some string of `v` reads `t`.
pub open spec fn spec_contains_str(v: Seq<String>, t: Seq<char>) -> bool {
    exists|i: int| 0 <= i < v.len() && (#[trigger] v[i])@ == t
}

fn contains_str(v: &Vec<String>, t: &String) -> (r: bool)
    ensures
        r == spec_contains_str(v@, t@),
{
    let mut i: usize = 0;
    while i < v.len()
        invariant
            0 <= i <= v@.len(),
            forall|j: int| 0 <= j < i ==> (#[trigger] v@[j])@ != t@,
        decreases v@.len() - i,
    {
        if v[i] == *t {
            return true;
        }
        i = i + 1;
    }
    false
}

/// The workspace tag policy a push is checked against.
pub struct TagPolicy {
    /// The tags the caller's token is scoped to, if restricted.
    pub scope_tags: Option<Vec<String>>,
    /// Custom tags permitted in every workspace.
    pub global_tags: Vec<String>,
    /// Custom tags permitted in named workspaces only.
    pub per_workspace_tags: Vec<(String, Vec<String>)>,
}

/// The policy's verdict on an explicit tag for one workspace: an empty tag
/// passes, a tag outside the caller's scope fails, and a non-scoped tag must
/// be permitted globally or named for this workspace.
pub open spec fn spec_tag_allowed(policy: &TagPolicy, tag: Seq<char>, w_id: Seq<char>) -> bool {
    ||| tag.len() == 0
    ||| {
        &&& (policy.scope_tags matches Some(sc) ==> spec_contains_str(sc@, tag))
        &&& (spec_contains_str(policy.global_tags@, tag) || exists|i: int|
            0 <= i < policy.per_workspace_tags@.len() && (
            #[trigger] policy.per_workspace_tags@[i]).0@ == tag && spec_contains_str(
                policy.per_workspace_tags@[i].1@,
                w_id,
            ))
    }
}

/// Check an explicit tag against the workspace tag policy. A push without an
/// explicit tag needs no check.
pub fn check_tag_available_for_workspace(
    policy: &TagPolicy,
    tag: &String,
    w_id: &String,
) -> (r: Result<(), ApiError>)
    ensures
        r is Ok <==> spec_tag_allowed(policy, tag@, w_id@),
        r matches Err(e) ==> e is BadRequest,
{
    if tag.as_str().is_empty() {
        return Ok(());
    }
    let scope_ok = match &policy.scope_tags {
        Some(sc) => contains_str(sc, tag),
        None => true,
    };
    proof {
        if policy.scope_tags is Some {
            assert(scope_ok == spec_contains_str(policy.scope_tags.unwrap()@, tag@));
        }
    }
    if !scope_ok {
        let mut m = "Tag ".to_owned();
        m.append(tag.as_str());
        m.append(" is not available in your scope");
        return Err(ApiError::BadRequest(m));
    }
    if contains_str(&policy.global_tags, tag) {
        return Ok(());
    }
    let mut i: usize = 0;
    while i < policy.per_workspace_tags.len()
        invariant
            0 <= i <= policy.per_workspace_tags@.len(),
            policy.scope_tags matches Some(sc) ==> spec_contains_str(sc@, tag@),
            forall|j: int|
                0 <= j < i ==> !((#[trigger] policy.per_workspace_tags@[j]).0@ == tag@
                    && spec_contains_str(policy.per_workspace_tags@[j].1@, w_id@)),
        decreases policy.per_workspace_tags@.len() - i,
    {
        if policy.per_workspace_tags[i].0 == *tag && contains_str(
            &policy.per_workspace_tags[i].1,
            w_id,
        ) {
            proof {
                assert((#[trigger] policy.per_workspace_tags@[i as int]).0@ == tag@
                    && spec_contains_str(policy.per_workspace_tags@[i as int].1@, w_id@));
            }
            return Ok(());
        }
        i = i + 1;
    }
    let mut m = "Tag ".to_owned();
    m.append(tag.as_str());
    m.append(" cannot be used on workspace ");
    m.append(w_id.as_str());
    Err(ApiError::BadRequest(m))
}

/// Push one job: validate the tag, resolve scheduling and identity, and
/// insert the pending row and its concurrency-key row in one transaction.
///
/// The row is inserted not running, not started, with no liveness timestamp
/// and no outstanding approvals, so the returned id is immediately usable.
/// The resolved tag — the explicit override, else the script or flow
/// default — is validated against the workspace and rejected before the
/// insert; an id already present in either table is rejected as a conflict.
pub fn push_job(store: &mut Store, policy: &TagPolicy, req: PushRequest, now: u64) -> (r: Result<
    u128,
    ApiError,
>)
    requires
        old(store).wf(),
    ensures
        final(store).wf(),
        r is Err ==> *final(store) == *old(store),
        (spec_checked_tag(&req) matches Some(t) && !spec_tag_allowed(policy, t, req.workspace_id@))
            ==> (r matches Err(e) && e is BadRequest),
        r is Ok ==> (spec_checked_tag(&req) matches Some(t) ==> spec_tag_allowed(
            policy,
            t,
            req.workspace_id@,
        )),
        (q_has(old(store).queue@, req.job_id) || c_has(old(store).completed@, req.job_id)) && !(
        spec_checked_tag(&req) matches Some(t) && !spec_tag_allowed(policy, t, req.workspace_id@))
            ==> (r matches Err(e) && e is Conflict),
        !q_has(old(store).queue@, req.job_id) && !c_has(old(store).completed@, req.job_id) && (
        spec_checked_tag(&req) matches Some(t) ==> spec_tag_allowed(policy, t, req.workspace_id@))
            ==> r is Ok,
        r matches Ok(rid) ==> rid == req.job_id && !q_has(old(store).queue@, req.job_id) && !c_has(
            old(store).completed@,
            req.job_id,
        ) && {
            let q = final(store).queue@.last();
            &&& final(store).queue@ == old(store).queue@.push(q)
            &&& q.id == req.job_id
            &&& q.workspace_id == req.workspace_id
            &&& q.kind == req.kind
            &&& q.script_path == req.script_path
            &&& q.args == req.args
            &&& q.tag@ == spec_effective_tag(&req)
            &&& q.created_by == req.created_by
            &&& q.email@ == spec_push_identity(&req).0
            &&& q.permissioned_as@ == spec_push_identity(&req).1
            &&& q.scheduled_for == spec_scheduled_for(&req, now)
            &&& !q.running
            &&& q.started_at is None
            &&& q.last_ping is None
            &&& q.suspend == 0
            &&& q.suspend_until is None
            &&& q.same_worker == req.same_worker
            &&& !q.canceled
            &&& q.canceled_by is None
            &&& q.canceled_reason is None
            &&& q.parent_job == req.parent_job
            &&& q.schedule_path is None
            &&& q.is_flow_step == req.is_flow_step
            &&& q.flow_status == req.flow_status
            &&& final(store).concurrency_keys@ == (match req.concurrency_key {
                Some(k) => old(store).concurrency_keys@.push(
                    final(store).concurrency_keys@.last(),
                ),
                None => old(store).concurrency_keys@,
            })
            &&& (req.concurrency_key matches Some(k)
                ==> final(store).concurrency_keys@.last().job_id == req.job_id
                && final(store).concurrency_keys@.last().key@ == k@)
            &&& final(store).completed@ == old(store).completed@
            &&& final(store).resume_jobs@ == old(store).resume_jobs@
            &&& final(store).counters@ == old(store).counters@
            &&& final(store).monitor_locks@ == old(store).monitor_locks@
            &&& final(store).job_logs@ == old(store).job_logs@
            &&& final(store).audits@ == old(store).audits@
        },
{
    match &req.tag_override {
        Some(t) => {
            if let Err(e) = check_tag_available_for_workspace(policy, t, &req.workspace_id) {
                return Err(e);
            }
        },
        None => {
            match &req.default_tag {
                Some(t) => {
                    if let Err(e) = check_tag_available_for_workspace(
                        policy,
                        t,
                        &req.workspace_id,
                    ) {
                        return Err(e);
                    }
                },
                None => {},
            }
        },
    }
    if store.find_queued(req.job_id).is_some() || store.find_completed(req.job_id).is_some() {
        return Err(ApiError::Conflict("job id already in use".to_owned()));
    }
    let tag: String = match req.tag_override {
        Some(t) => t,
        None => match req.default_tag {
            Some(t) => t,
            None => req.language_tag,
        },
    };
    let scheduled_for: u64 = match req.scheduled_at {
        Some(t) => t,
        None => match req.scheduled_in_ms {
            Some(d) => {
                if d > u64::MAX - now {
                    u64::MAX
                } else {
                    now + d
                }
            },
            None => now,
        },
    };
    let (email, permissioned_as): (String, String) = match req.on_behalf_of {
        Some(o) => (o.email, username_to_permissioned_as(&o.edited_by)),
        None => {
            let p = username_to_permissioned_as(&req.created_by);
            (req.email, p)
        },
    };
    let id = req.job_id;
    let row = QueuedJob {
        id,
        workspace_id: req.workspace_id,
        kind: req.kind,
        script_path: req.script_path,
        args: req.args,
        tag,
        created_by: req.created_by,
        email,
        permissioned_as,
        scheduled_for,
        running: false,
        started_at: None,
        last_ping: None,
        suspend: 0,
        suspend_until: None,
        same_worker: req.same_worker,
        canceled: false,
        canceled_by: None,
        canceled_reason: None,
        parent_job: req.parent_job,
        schedule_path: None,
        is_flow_step: req.is_flow_step,
        flow_status: req.flow_status,
    };
    store.push_queued(row);
    match req.concurrency_key {
        Some(k) => {
            push_concurrency_key(store, ConcurrencyKeyRow { job_id: id, key: k });
        },
        None => {},
    }
    Ok(id)
}

/// Record which concurrency key a job occupies.
fn push_concurrency_key(store: &mut Store, row: ConcurrencyKeyRow)
    requires
        old(store).wf(),
    ensures
        final(store).wf(),
        final(store).concurrency_keys@ == old(store).concurrency_keys@.push(row),
        final(store).queue@ == old(store).queue@,
        final(store).completed@ == old(store).completed@,
        final(store).resume_jobs@ == old(store).resume_jobs@,
        final(store).counters@ == old(store).counters@,
        final(store).monitor_locks@ == old(store).monitor_locks@,
        final(store).job_logs@ == old(store).job_logs@,
        final(store).audits@ == old(store).audits@,
{
    store.concurrency_keys.push(row);
}

/// The worker-side suspension transition, as the orchestrator performs it:
/// the flow's current module starts waiting on `count` approvals for
/// `job_id`, and the flow row's countdown is set to `count`.
pub fn begin_suspension(store: &mut Store, flow_id: u128, job_id: u128, count: u32) -> (r: Result<
    (),
    ApiError,
>)
    requires
        old(store).wf(),
    ensures
        final(store).wf(),
        r is Err ==> final(store).queue@ == old(store).queue@ && final(store).completed@ == old(store).completed@ && final(store).resume_jobs@ == old(store).resume_jobs@ && final(store).concurrency_keys@ == old(store).concurrency_keys@ && final(store).counters@ == old(store).counters@ && final(store).monitor_locks@ == old(store).monitor_locks@ && final(store).job_logs@ == old(store).job_logs@,
        final(store).audits@ == old(store).audits@,
        r is Ok ==> exists|i: int|
            0 <= i < old(store).queue@.len() && (#[trigger] old(store).queue@[i]).id == flow_id && {
                let f = old(store).queue@[i];
                let g = final(store).queue@[i];
                &&& final(store).queue@ == old(store).queue@.update(i, g)
                &&& g.suspend == count as i64
                &&& g.id == f.id
                &&& (f.flow_status matches Some(st) && st.step < st.modules@.len() && (
                g.flow_status matches Some(st2) && st2.step == st.step && st2.modules@
                    == st.modules@.update(
                    st.step as int,
                    FlowStatusModule::WaitingForEvents {
                        id: st.modules@[st.step as int].spec_id(),
                        job: job_id,
                        count,
                    },
                ) && st2.approval_conditions == st.approval_conditions))
                &&& final(store).completed@ == old(store).completed@
                &&& final(store).resume_jobs@ == old(store).resume_jobs@
                &&& final(store).concurrency_keys@ == old(store).concurrency_keys@
                &&& final(store).counters@ == old(store).counters@
                &&& final(store).monitor_locks@ == old(store).monitor_locks@
                &&& final(store).job_logs@ == old(store).job_logs@
            },
        (exists|i: int|
            0 <= i < old(store).queue@.len() && (#[trigger] old(store).queue@[i]).id == flow_id
                && (old(store).queue@[i].flow_status matches Some(st) && st.step
                < st.modules@.len())) ==> r is Ok,
{
    let i = match store.find_queued(flow_id) {
        Some(i) => i,
        None => {
            return Err(ApiError::NotFound("flow job not found".to_owned()));
        },
    };
    let ghost gi = i as int;
    proof {
        assert forall|i2: int|
            0 <= i2 < old(store).queue@.len() && (#[trigger] old(store).queue@[i2]).id
                == flow_id implies old(store).queue@[i2] == old(store).queue@[gi] by {
            if i2 != gi {
                assert(old(store).queue@[i2].id != old(store).queue@[gi].id);
            }
        }
    }
    let f = store.take_queued(i);
    let mut st = match f.flow_status {
        Some(st) => st,
        None => {
            let f2 = QueuedJob { flow_status: None, ..f };
            store.insert_queued(i, f2);
            proof {
                assert(store.queue@ =~= old(store).queue@);
            }
            return Err(ApiError::BadRequest("flow has no status".to_owned()));
        },
    };
    if st.step >= st.modules.len() {
        let f2 = QueuedJob { flow_status: Some(st), ..f };
        store.insert_queued(i, f2);
        proof {
            assert(store.queue@ =~= old(store).queue@);
        }
        return Err(ApiError::BadRequest("flow has no current module".to_owned()));
    }
    let step = st.step;
    let prev_id = st.modules.remove(step).into_module_id();
    st.modules.insert(
        step,
        FlowStatusModule::WaitingForEvents { id: prev_id, job: job_id, count },
    );
    proof {
        assert(st.modules@ =~= old(store).queue@[gi].flow_status.unwrap().modules@.update(
            old(store).queue@[gi].flow_status.unwrap().step as int,
            FlowStatusModule::WaitingForEvents {
                id: old(store).queue@[gi].flow_status.unwrap().modules@[old(
                    store,
                ).queue@[gi].flow_status.unwrap().step as int].spec_id(),
                job: job_id,
                count,
            },
        ));
    }
    let f2 = QueuedJob { suspend: count as i64, flow_status: Some(st), ..f };
    store.insert_queued(i, f2);
    proof {
        assert(store.queue@ =~= old(store).queue@.update(gi, store.queue@[gi]));
    }
    Ok(())
}

/// The orchestrator's pickup of a completed suspension: when the flow's
/// current module waits on a job's approvals and no approval is outstanding,
/// the module transitions from waiting to in progress.
pub fn resume_waiting_module(store: &mut Store, flow_id: u128) -> (r: Result<(), ApiError>)
    requires
        old(store).wf(),
    ensures
        final(store).wf(),
        r is Err ==> final(store).queue@ == old(store).queue@ && final(store).completed@ == old(
            store,
        ).completed@ && final(store).resume_jobs@ == old(store).resume_jobs@,
        r is Ok ==> exists|i: int, j: u128|
            0 <= i < old(store).queue@.len() && (#[trigger] old(store).queue@[i]).id == flow_id
                && #[trigger] old(store).queue@[i].flow_status.unwrap().spec_waiting_on(j) && {
                let f = old(store).queue@[i];
                let g = final(store).queue@[i];
                &&& f.suspend == 0
                &&& (f.flow_status matches Some(st) && st.spec_waiting_on(j) && (
                g.flow_status matches Some(st2) && st2.step == st.step && st2.modules@
                    == st.modules@.update(
                    st.step as int,
                    FlowStatusModule::InProgress {
                        id: st.modules@[st.step as int].spec_id(),
                        job: j,
                    },
                ) && st2.approval_conditions == st.approval_conditions))
                &&& final(store).queue@ == old(store).queue@.update(i, g)
                &&& g.id == f.id
                &&& g.suspend == 0
                &&& final(store).completed@ == old(store).completed@
                &&& final(store).resume_jobs@ == old(store).resume_jobs@
            },
        (exists|i: int|
            0 <= i < old(store).queue@.len() && (#[trigger] old(store).queue@[i]).id == flow_id
                && old(store).queue@[i].suspend == 0 && (old(store).queue@[i].flow_status matches Some(
                st,
            ) && st.spec_current_step() matches Some(m) && m is WaitingForEvents)) ==> r is Ok,
{
    let i = match store.find_queued(flow_id) {
        Some(i) => i,
        None => {
            return Err(ApiError::NotFound("flow job not found".to_owned()));
        },
    };
    let ghost gi = i as int;
    proof {
        assert forall|i2: int|
            0 <= i2 < old(store).queue@.len() && (#[trigger] old(store).queue@[i2]).id
                == flow_id implies old(store).queue@[i2] == old(store).queue@[gi] by {
            if i2 != gi {
                assert(old(store).queue@[i2].id != old(store).queue@[gi].id);
            }
        }
    }
    if store.queue[i].suspend != 0 {
        return Err(ApiError::BadRequest("approvals are still outstanding".to_owned()));
    }
    let f = store.take_queued(i);
    let mut st = match f.flow_status {
        Some(st) => st,
        None => {
            let f2 = QueuedJob { flow_status: None, ..f };
            store.insert_queued(i, f2);
            proof {
                assert(store.queue@ =~= old(store).queue@);
            }
            return Err(ApiError::BadRequest("flow has no status".to_owned()));
        },
    };
    let waiting_job: Option<u128> = if st.step < st.modules.len() {
        match &st.modules[st.step] {
            FlowStatusModule::WaitingForEvents { job, .. } => Some(*job),
            _ => None,
        }
    } else {
        None
    };
    let j = match waiting_job {
        Some(j) => j,
        None => {
            let f2 = QueuedJob { flow_status: Some(st), ..f };
            store.insert_queued(i, f2);
            proof {
                assert(store.queue@ =~= old(store).queue@);
            }
            return Err(ApiError::BadRequest("the flow is not waiting on approvals".to_owned()));
        },
    };
    let step = st.step;
    let prev_id = st.modules.remove(step).into_module_id();
    st.modules.insert(step, FlowStatusModule::InProgress { id: prev_id, job: j });
    proof {
        assert(st.modules@ =~= old(store).queue@[gi].flow_status.unwrap().modules@.update(
            old(store).queue@[gi].flow_status.unwrap().step as int,
            FlowStatusModule::InProgress {
                id: old(store).queue@[gi].flow_status.unwrap().modules@[old(
                    store,
                ).queue@[gi].flow_status.unwrap().step as int].spec_id(),
                job: j,
            },
        ));
    }
    let f2 = QueuedJob { flow_status: Some(st), ..f };
    store.insert_queued(i, f2);
    proof {
        assert(store.queue@ =~= old(store).queue@.update(gi, store.queue@[gi]));
        assert(old(store).queue@[gi].flow_status matches Some(st0) && st0.spec_waiting_on(j));
    }
    Ok(())
}

/// Relies on uuid's `Uuid::new_v4`: a freshly drawn random job id. Nothing
/// can be promised of a random value.
#[verifier::external_body]
fn new_job_id() -> u128 {
    uuid::Uuid::new_v4().as_u128()
}

/// Push one job under a freshly drawn id, as a push without an explicit id
/// does. The request's own id field is ignored. The drawn id is checked
/// against both tables; the astronomically unlikely collision is refused as
/// a conflict rather than overwriting a row. A forbidden resolved tag is
/// rejected as a bad request; with a permitted or absent tag the collision
/// is the only failure.
pub fn push_new_job(store: &mut Store, policy: &TagPolicy, req: PushRequest, now: u64) -> (r:
    Result<u128, ApiError>)
    requires
        old(store).wf(),
    ensures
        final(store).wf(),
        r is Err ==> *final(store) == *old(store),
        (spec_checked_tag(&req) matches Some(t) && !spec_tag_allowed(policy, t, req.workspace_id@))
            ==> (r matches Err(e) && e is BadRequest),
        (spec_checked_tag(&req) matches Some(t) ==> spec_tag_allowed(policy, t, req.workspace_id@))
            ==> (r matches Err(e) ==> e is Conflict),
        r matches Ok(rid) ==> !q_has(old(store).queue@, rid) && !c_has(old(store).completed@, rid)
            && {
            let q = final(store).queue@.last();
            &&& final(store).queue@ == old(store).queue@.push(q)
            &&& q.id == rid
            &&& q.workspace_id == req.workspace_id
            &&& q.kind == req.kind
            &&& q.tag@ == spec_effective_tag(&req)
            &&& q.scheduled_for == spec_scheduled_for(&req, now)
            &&& !q.running
            &&& !q.canceled
            &&& q.suspend == 0
        },
{
    let id = new_job_id();
    let req2 = PushRequest { job_id: id, ..req };
    proof {
        assert(spec_effective_tag(&req2) == spec_effective_tag(&req));
        assert(spec_checked_tag(&req2) == spec_checked_tag(&req));
        assert(spec_scheduled_for(&req2, now) == spec_scheduled_for(&req, now));
    }
    push_job(store, policy, req2, now)
}

} // verus!
