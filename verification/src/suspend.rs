//! The suspend/resume coordinator.
//!
//! A flow step that needs external decisions sets `suspend` to the number of
//! approvals still required and exposes capability URLs keyed by
//! `(job_id, resume_id)`. On first use the capability's signature is
//! verified, the owning flow row is loaded under the store's exclusive
//! access (the row lock of the real system), a duplicate attempt is rejected
//! by the resume record's derived identity, and — for an approval — the
//! countdown is decremented only when the flow is currently waiting on this
//! very job, so the counter never drops below what the orchestrator has
//! observed. A rejection short-circuits the wait by zeroing the countdown.

use vstd::prelude::*;
use crate::errors::ApiError;
use crate::flow::{ApprovalConditions, Approval, FlowStatus, FlowStatusModule};
use crate::job::QueuedJob;
use crate::signature::{
    approver_view, resume_row_id, signature_accepted, spec_resume_row_id, verify_suspended_secret,
};
use crate::store::{c_has, q_has, q_has_in_ws, r_has, AuditRow, ResumeRow, Store};
use crate::cancel::opt_view;

verus! {

/// An authenticated caller of the resume endpoints.
pub struct AuthedApprover {
    pub username: String,
    pub email: String,
    pub is_admin: bool,
    pub groups: Vec<String>,
}

/// Whether the caller belongs to at least one required group.
pub open spec fn spec_in_some_group(groups: Seq<String>, required: Seq<String>) -> bool {
    exists|i: int, j: int|
        0 <= i < groups.len() && 0 <= j < required.len() && groups[i]@ == required[j]@
}

/// The verdict of the approval policy on one caller.
pub enum AuthVerdict {
    /// The caller may act on the suspended step.
    Allowed,
    /// The policy requires an authenticated approver and the caller is
    /// anonymous.
    NotLoggedIn,
    /// Self-approval is disabled and the caller triggered the flow.
    SelfApproval,
    /// The caller belongs to none of the required groups.
    GroupMissing,
}

/// The approval policy, as a function of the step's conditions, the caller,
/// and the identity that triggered the flow.
pub open spec fn spec_auth_verdict(
    conditions: &Option<ApprovalConditions>,
    authed: &Option<AuthedApprover>,
    trigger_email: Seq<char>,
) -> AuthVerdict {
    match conditions {
        None => AuthVerdict::Allowed,
        Some(c) => if !c.user_auth_required {
            AuthVerdict::Allowed
        } else {
            match authed {
                None => AuthVerdict::NotLoggedIn,
                Some(a) => if a.is_admin {
                    AuthVerdict::Allowed
                } else if c.self_approval_disabled && a.email@ == trigger_email {
                    AuthVerdict::SelfApproval
                } else if c.user_groups_required@.len() > 0 && !spec_in_some_group(
                    a.groups@,
                    c.user_groups_required@,
                ) {
                    AuthVerdict::GroupMissing
                } else {
                    AuthVerdict::Allowed
                },
            }
        },
    }
}

fn in_some_group(groups: &Vec<String>, required: &Vec<String>) -> (r: bool)
    ensures
        r == spec_in_some_group(groups@, required@),
{
    let mut i: usize = 0;
    while i < groups.len()
        invariant
            0 <= i <= groups@.len(),
            forall|a: int, j: int|
                0 <= a < i && 0 <= j < required@.len() ==> (#[trigger] groups@[a])@
                    != (#[trigger] required@[j])@,
        decreases groups@.len() - i,
    {
        let mut j: usize = 0;
        while j < required.len()
            invariant
                0 <= i < groups@.len(),
                0 <= j <= required@.len(),
                forall|k: int| 0 <= k < j ==> (#[trigger] required@[k])@ != groups@[i as int]@,
            decreases required@.len() - j,
        {
            if groups[i] == required[j] {
                return true;
            }
            j = j + 1;
        }
        i = i + 1;
    }
    false
}

/// The list of required groups joined with `", "`.
pub open spec fn spec_joined_groups(required: Seq<String>) -> Seq<char>
    decreases required.len(),
{
    if required.len() == 0 {
        Seq::empty()
    } else if required.len() == 1 {
        required[0]@
    } else {
        spec_joined_groups(required.drop_last()) + ", "@ + required.last()@
    }
}

fn joined_groups(required: &Vec<String>) -> (r: String)
    ensures
        r@ == spec_joined_groups(required@),
{
    let mut out = String::new();
    let mut i: usize = 0;
    while i < required.len()
        invariant
            0 <= i <= required@.len(),
            out@ == spec_joined_groups(required@.subrange(0, i as int)),
        decreases required@.len() - i,
    {
        if i > 0 {
            out.append(", ");
        }
        out.append(required[i].as_str());
        proof {
            let pre = required@.subrange(0, i as int);
            let cur = required@.subrange(0, i + 1);
            assert(cur.drop_last() =~= pre);
            assert(cur.last() == required@[i as int]);
            if i == 0 {
                assert(out@ =~= spec_joined_groups(cur));
            }
        }
        i = i + 1;
    }
    proof {
        assert(required@.subrange(0, required@.len() as int) =~= required@);
    }
    out
}

/// The message of the group-policy rejection.
pub open spec fn spec_group_message(required: Seq<String>) -> Seq<char> {
    "Only users from one of the following groups are allowed to approve this workflow: "@
        + spec_joined_groups(required)
}

/// Enforce the approval policy a suspended step declares: an anonymous
/// caller is rejected where authentication is required, the flow's own
/// trigger identity is rejected where self-approval is disabled, and a
/// non-admin must share one of the required groups.
pub fn conditionally_require_authed_user(
    authed: &Option<AuthedApprover>,
    conditions: &Option<ApprovalConditions>,
    trigger_email: &String,
) -> (r: Result<(), ApiError>)
    ensures
        match spec_auth_verdict(conditions, authed, trigger_email@) {
            AuthVerdict::Allowed => r is Ok,
            AuthVerdict::NotLoggedIn => r matches Err(e) && e matches ApiError::NotAuthorized(m)
                && m@ == "Only logged in users can approve this flow step"@,
            AuthVerdict::SelfApproval => r matches Err(e) && e matches ApiError::PermissionDenied(
                m,
            ) && m@ == "Self-approval is disabled for this flow step"@,
            AuthVerdict::GroupMissing => r matches Err(e) && e matches ApiError::PermissionDenied(
                m,
            ) && m@ == spec_group_message(conditions.unwrap().user_groups_required@),
        },
{
    let c = match conditions {
        None => {
            return Ok(());
        },
        Some(c) => c,
    };
    if !c.user_auth_required {
        return Ok(());
    }
    let a = match authed {
        None => {
            return Err(
                ApiError::NotAuthorized("Only logged in users can approve this flow step".to_owned()),
            );
        },
        Some(a) => a,
    };
    if a.is_admin {
        return Ok(());
    }
    if c.self_approval_disabled && a.email == *trigger_email {
        return Err(
            ApiError::PermissionDenied("Self-approval is disabled for this flow step".to_owned()),
        );
    }
    if c.user_groups_required.len() > 0 && !in_some_group(&a.groups, &c.user_groups_required) {
        let mut m =
            "Only users from one of the following groups are allowed to approve this workflow: ".to_owned();
        let joined = joined_groups(&c.user_groups_required);
        m.append(joined.as_str());
        return Err(ApiError::PermissionDenied(m));
    }
    Ok(())
}

/// The index of the queue row carrying `id`, where one exists.
pub open spec fn q_index_of(q: Seq<QueuedJob>, id: u128) -> int {
    choose|i: int| 0 <= i < q.len() && (#[trigger] q[i]).id == id
}

/// With unique ids, the found index is the chosen one.
pub proof fn lemma_q_index_of(q: Seq<QueuedJob>, i: int)
    requires
        crate::store::q_unique(q),
        0 <= i < q.len(),
    ensures
        q_index_of(q, q[i].id) == i,
{
    assert(q_has(q, q[i].id));
    let j = q_index_of(q, q[i].id);
    assert(0 <= j < q.len() && q[j].id == q[i].id);
    if i < j {
        assert(q[i].id != q[j].id);
    } else if j < i {
        assert(q[j].id != q[i].id);
    }
}

/// The parent recorded for job `id`, in whichever table the job lives.
/// `None` when the job is in neither table.
pub open spec fn spec_parent_of(s: Store, id: u128) -> Option<Option<u128>> {
    if q_has(s.queue@, id) {
        Some(s.queue@[q_index_of(s.queue@, id)].parent_job)
    } else if c_has(s.completed@, id) {
        let j = choose|j: int| 0 <= j < s.completed@.len() && (#[trigger] s.completed@[j]).id == id;
        Some(s.completed@[j].parent_job)
    } else {
        None
    }
}

/// Look up the parent of job `id` in either table.
pub fn parent_of(store: &Store, id: u128) -> (r: Option<Option<u128>>)
    requires
        store.wf(),
    ensures
        r == spec_parent_of(*store, id),
{
    match store.find_queued(id) {
        Some(i) => {
            proof {
                lemma_q_index_of(store.queue@, i as int);
            }
            Some(store.queue[i].parent_job)
        },
        None => {
            match store.find_completed(id) {
                Some(j) => {
                    proof {
                        let k = choose|k: int|
                            0 <= k < store.completed@.len() && (#[trigger] store.completed@[k]).id
                                == id;
                        assert(store.completed@[k].id == store.completed@[j as int].id);
                        if k != j as int {
                            assert(store.completed@[k].id != store.completed@[j as int].id);
                        }
                    }
                    Some(store.completed[j].parent_job)
                },
                None => None,
            }
        },
    }
}

/// The approver recorded on the resume record: the query-supplied approver
/// where the caller is anonymous or the query names a non-empty approver,
/// else the authenticated username.
pub open spec fn spec_resolved_approver(
    authed: &Option<AuthedApprover>,
    approver: &Option<String>,
) -> Option<Seq<char>> {
    if authed is None || (approver matches Some(a) && a@.len() > 0) {
        approver_view(approver)
    } else {
        match authed {
            Some(a) => Some(a.username@),
            None => None,
        }
    }
}

fn resolve_approver(authed: &Option<AuthedApprover>, approver: &Option<String>) -> (r: Option<
    String,
>)
    ensures
        opt_view(&r) == spec_resolved_approver(authed, approver),
{
    let query_wins = match approver {
        Some(a) => !a.as_str().is_empty(),
        None => false,
    };
    match authed {
        None => {
            match approver {
                Some(a) => Some(a.clone()),
                None => None,
            }
        },
        Some(auth) => {
            if query_wins {
                match approver {
                    Some(a) => Some(a.clone()),
                    None => None,
                }
            } else {
                Some(auth.username.clone())
            }
        },
    }
}

/// The author an audit record of a resume carries: the authenticated
/// username, else the resolved approver, else `anonymous`.
pub open spec fn spec_audit_author(
    authed: &Option<AuthedApprover>,
    resolved: Option<Seq<char>>,
) -> Seq<char> {
    match authed {
        Some(a) => a.username@,
        None => match resolved {
            Some(r) => r,
            None => "anonymous"@,
        },
    }
}

/// How a resume request changed the store, given the flow row it found at
/// index `fx` of the old queue: one resume record is appended with the
/// derived identity, and the flow's countdown is zeroed by a rejection,
/// decremented by an approval the flow is currently waiting on, and left
/// untouched otherwise — the orchestrator picks the record up itself on its
/// next transition.
pub open spec fn resume_applied(
    pre: Store,
    post: Store,
    fx: int,
    job_id: u128,
    resume_id: u32,
    approver: Option<Seq<char>>,
    approved: bool,
    value: Seq<char>,
) -> bool {
    let f = pre.queue@[fx];
    let row = post.resume_jobs@.last();
    &&& post.resume_jobs@ == pre.resume_jobs@.push(row)
    &&& row.id == spec_resume_row_id(job_id, resume_id)
    &&& row.resume_id == resume_id
    &&& row.job == job_id
    &&& row.flow == f.id
    &&& row.value@ == value
    &&& opt_view(&row.approver) == approver
    &&& row.approved == approved
    &&& post.queue@ == pre.queue@.update(
        fx,
        QueuedJob { suspend: post.queue@[fx].suspend, ..f },
    )
    &&& post.queue@[fx].suspend == spec_suspend_after(f, job_id, approved)
    &&& post.completed@ == pre.completed@
    &&& post.concurrency_keys@ == pre.concurrency_keys@
    &&& post.counters@ == pre.counters@
    &&& post.monitor_locks@ == pre.monitor_locks@
    &&& post.job_logs@ == pre.job_logs@
}

/// The flow's countdown after one resume request: zero on a rejection;
/// decremented on an approval if and only if the flow is positive and its
/// current step waits on exactly this job.
pub open spec fn spec_suspend_after(f: QueuedJob, job_id: u128, approved: bool) -> i64 {
    if !approved {
        0
    } else if f.suspend > 0 && (f.flow_status matches Some(st) && st.spec_waiting_on(job_id)) {
        (f.suspend - 1) as i64
    } else {
        f.suspend
    }
}

/// Whether a resume request reaches the duplicate-admission check: its flow
/// is found pending in the request's workspace, carries a status, and its
/// approval policy admits the caller.
pub open spec fn resume_admissible(
    s: Store,
    authed: &Option<AuthedApprover>,
    job_id: u128,
    w_id: Seq<char>,
) -> bool {
    &&& spec_parent_of(s, job_id) matches Some(Some(p)) && q_has(s.queue@, p) && {
        let fx = q_index_of(s.queue@, p);
        &&& s.queue@[fx].workspace_id@ == w_id
        &&& s.queue@[fx].flow_status matches Some(st) && spec_auth_verdict(
            &st.approval_conditions,
            authed,
            s.queue@[fx].email@,
        ) is Allowed
    }
}

/// Resume or reject one suspended flow step through its capability.
///
/// `approved == true` records an approval; `approved == false` (the cancel
/// endpoint) records a rejection and zeroes the countdown. Status 201 is
/// returned on success.
pub fn resume_suspended_job(
    store: &mut Store,
    key: &String,
    w_id: &String,
    job_id: u128,
    resume_id: u32,
    secret: &String,
    approver: Option<String>,
    authed: Option<AuthedApprover>,
    approved: bool,
    value: String,
) -> (r: Result<u16, ApiError>)
    requires
        old(store).wf(),
    ensures
        final(store).wf(),
        r is Err ==> *final(store) == *old(store),
        !signature_accepted(key@, job_id, resume_id, approver_view(&approver), secret@) ==> (
        r matches Err(e) && e is BadRequest),
        r matches Err(e) ==> (e is Conflict ==> e.spec_message()
            == "resume request already sent"@ && r_has(
            old(store).resume_jobs@,
            spec_resume_row_id(job_id, resume_id),
        )),
        signature_accepted(key@, job_id, resume_id, approver_view(&approver), secret@)
            && resume_admissible(*old(store), &authed, job_id, w_id@) && r_has(
            old(store).resume_jobs@,
            spec_resume_row_id(job_id, resume_id),
        ) ==> (r matches Err(e) && e is Conflict),
        signature_accepted(key@, job_id, resume_id, approver_view(&approver), secret@) && !(
        spec_parent_of(*old(store), job_id) matches Some(Some(p)) && q_has_in_ws(
            old(store).queue@,
            p,
            w_id@,
        )) ==> (r matches Err(e) && e is NotFound && e.spec_message()
            == "parent flow job not found"@),
        signature_accepted(key@, job_id, resume_id, approver_view(&approver), secret@)
            && resume_admissible(*old(store), &authed, job_id, w_id@) && !r_has(
            old(store).resume_jobs@,
            spec_resume_row_id(job_id, resume_id),
        ) ==> (r matches Ok(code) && code == 201u16),
        r is Ok ==> {
            &&& r matches Ok(code) && code == 201u16
            &&& signature_accepted(key@, job_id, resume_id, approver_view(&approver), secret@)
            &&& !r_has(old(store).resume_jobs@, spec_resume_row_id(job_id, resume_id))
            &&& exists|fx: int|
                0 <= fx < old(store).queue@.len() && Some(
                    Some((#[trigger] old(store).queue@[fx]).id),
                ) == spec_parent_of(*old(store), job_id) && resume_applied(
                    *old(store),
                    *final(store),
                    fx,
                    job_id,
                    resume_id,
                    spec_resolved_approver(&authed, &approver),
                    approved,
                    value@,
                )
            &&& final(store).audits@ == old(store).audits@.push(final(store).audits@.last())
            &&& final(store).audits@.last().username@ == spec_audit_author(
                &authed,
                spec_resolved_approver(&authed, &approver),
            )
            &&& final(store).audits@.last().operation@ == "jobs.suspend_resume"@
            &&& final(store).audits@.last().job == job_id
            &&& final(store).audits@.last().workspace_id@ == w_id@
        },
{
    if let Err(e) = verify_suspended_secret(
        key.as_str(),
        job_id,
        resume_id,
        &approver,
        secret.as_str(),
    ) {
        return Err(e);
    }
    let parent = match parent_of(store, job_id) {
        Some(Some(p)) => p,
        Some(None) => {
            return Err(ApiError::NotFound("parent flow job not found".to_owned()));
        },
        None => {
            return Err(ApiError::NotFound("parent flow job not found".to_owned()));
        },
    };
    // The parent flow is looked up in the request's workspace.
    let fx = match store.find_queued_in_ws(parent, w_id) {
        Some(i) => i,
        None => {
            proof {
                if resume_admissible(*old(store), &authed, job_id, w_id@) {
                    let fx0 = q_index_of(old(store).queue@, parent);
                    assert(q_has(old(store).queue@, parent));
                    assert(0 <= fx0 < old(store).queue@.len() && old(store).queue@[fx0].id
                        == parent);
                }
            }
            return Err(ApiError::NotFound("parent flow job not found".to_owned()));
        },
    };
    proof {
        lemma_q_index_of(store.queue@, fx as int);
        assert(q_has_in_ws(old(store).queue@, parent, w_id@)) by {
            assert(old(store).queue@[fx as int].id == parent && old(store).queue@[
                fx as int
            ].workspace_id@ == w_id@);
        }
    }

    // The approval policy is read from the flow's status.
    let verdict = match &store.queue[fx].flow_status {
        Some(st) => conditionally_require_authed_user(
            &authed,
            &st.approval_conditions,
            &store.queue[fx].email,
        ),
        None => {
            return Err(
                ApiError::Internal("unable to find the flow status in the flow job".to_owned()),
            );
        },
    };
    if let Err(e) = verdict {
        return Err(e);
    }

    // Insertion of the derived id is the sole admission check for duplicates.
    let rid = resume_row_id(job_id, resume_id);
    if store.find_resume(rid).is_some() {
        return Err(ApiError::Conflict("resume request already sent".to_owned()));
    }

    let resolved = resolve_approver(&authed, &approver);
    let author: String = match &authed {
        Some(a) => a.username.clone(),
        None => match &resolved {
            Some(r) => r.clone(),
            None => "anonymous".to_owned(),
        },
    };
    let f = store.take_queued(fx);
    let new_suspend: i64 = if !approved {
        0
    } else if f.suspend > 0 && (match &f.flow_status {
        Some(st) => {
            match st.current_step() {
                Some(m) => m.waits_on(job_id),
                None => false,
            }
        },
        None => false,
    }) {
        f.suspend - 1
    } else {
        f.suspend
    };
    let flow_id = f.id;
    let f2 = QueuedJob { suspend: new_suspend, ..f };
    store.insert_queued(fx, f2);
    proof {
        assert(store.queue@ =~= old(store).queue@.update(fx as int, store.queue@[fx as int]));
    }
    store.push_resume(
        ResumeRow {
            id: rid,
            resume_id,
            job: job_id,
            flow: flow_id,
            value,
            approver: resolved,
            approved,
        },
    );
    store.push_audit(
        AuditRow {
            username: author,
            operation: "jobs.suspend_resume".to_owned(),
            job: job_id,
            workspace_id: w_id.clone(),
        },
    );
    Ok(201)
}

/// Reject one suspended flow step through its capability: records the
/// rejection and zeroes the flow's countdown, short-circuiting the wait.
pub fn cancel_suspended_job(
    store: &mut Store,
    key: &String,
    w_id: &String,
    job_id: u128,
    resume_id: u32,
    secret: &String,
    approver: Option<String>,
    authed: Option<AuthedApprover>,
    value: String,
) -> (r: Result<u16, ApiError>)
    requires
        old(store).wf(),
    ensures
        final(store).wf(),
        r is Ok ==> exists|fx: int|
            0 <= fx < old(store).queue@.len() && Some(
                Some((#[trigger] old(store).queue@[fx]).id),
            ) == spec_parent_of(*old(store), job_id) && resume_applied(
                *old(store),
                *final(store),
                fx,
                job_id,
                resume_id,
                spec_resolved_approver(&authed, &approver),
                false,
                value@,
            ),
        r is Ok ==> signature_accepted(
            key@,
            job_id,
            resume_id,
            approver_view(&approver),
            secret@,
        ),
        r is Err ==> *final(store) == *old(store),
        signature_accepted(key@, job_id, resume_id, approver_view(&approver), secret@)
            && resume_admissible(*old(store), &authed, job_id, w_id@) && !r_has(
            old(store).resume_jobs@,
            spec_resume_row_id(job_id, resume_id),
        ) ==> (r matches Ok(code) && code == 201u16),
        r is Ok ==> final(store).audits@ == old(store).audits@.push(final(store).audits@.last())
            && final(store).audits@.last().operation@ == "jobs.suspend_resume"@
            && final(store).audits@.last().job == job_id
            && final(store).audits@.last().workspace_id@ == w_id@,
{
    resume_suspended_job(
        store,
        key,
        w_id,
        job_id,
        resume_id,
        secret,
        approver,
        authed,
        false,
        value,
    )
}

/// Whether `s` starts with `p`.
pub open spec fn spec_starts_with(s: Seq<char>, p: Seq<char>) -> bool {
    s.len() >= p.len() && s.subrange(0, p.len() as int) == p
}

fn str_starts_with(s: &str, p: &String) -> (r: bool)
    ensures
        r == spec_starts_with(s@, p@),
{
    let slen = s.unicode_len();
    let plen = p.as_str().unicode_len();
    if slen < plen {
        return false;
    }
    let mut i: usize = 0;
    while i < plen
        invariant
            0 <= i <= plen,
            plen == p@.len(),
            slen == s@.len(),
            slen >= plen,
            forall|j: int| 0 <= j < i ==> s@[j] == p@[j],
        decreases plen - i,
    {
        if s.get_char(i) != p.as_str().get_char(i) {
            proof {
                assert(s@.subrange(0, p@.len() as int)[i as int] == s@[i as int]);
            }
            return false;
        }
        i = i + 1;
    }
    proof {
        assert(s@.subrange(0, p@.len() as int) =~= p@);
    }
    true
}

/// Whether the caller owns a path: an admin owns everything, and a user owns
/// the paths under their own user folder.
pub open spec fn spec_owns_path(username: Seq<char>, is_admin: bool, path: Seq<char>) -> bool {
    is_admin || spec_starts_with(path, "u/"@ + username + "/"@)
}

/// Require that the caller owns `path`.
pub fn require_owner_of_path(authed: &AuthedApprover, path: &str) -> (r: Result<(), ApiError>)
    ensures
        r is Ok <==> spec_owns_path(authed.username@, authed.is_admin, path@),
        r matches Err(e) ==> e is NotAuthorized,
{
    if authed.is_admin {
        return Ok(());
    }
    let mut prefix = "u/".to_owned();
    prefix.append(authed.username.as_str());
    prefix.append("/");
    if str_starts_with(path, &prefix) {
        Ok(())
    } else {
        Err(ApiError::NotAuthorized("you are not the owner of this path".to_owned()))
    }
}

/// The path a flow row's ownership is judged by: its script path, or the
/// empty path where it has none.
pub open spec fn spec_flow_path(q: QueuedJob) -> Seq<char> {
    match q.script_path {
        Some(p) => p@,
        None => Seq::empty(),
    }
}

/// The job the queued flow `flow_id`'s current module waits on; `None` where
/// the flow is absent from the queue or its current module is not suspended
/// on approvals.
pub open spec fn spec_owner_waiting(s: Store, flow_id: u128) -> Option<u128> {
    if q_has(s.queue@, flow_id) {
        match s.queue@[q_index_of(s.queue@, flow_id)].flow_status {
            Some(st) => match st.spec_current_step() {
                Some(m) => match m {
                    FlowStatusModule::WaitingForEvents { job, .. } => Some(job),
                    _ => None,
                },
                None => None,
            },
            None => None,
        }
    } else {
        None
    }
}

/// Resume a suspended flow directly, as the owner of its path: no capability
/// signature is needed, the approval is recorded under the owner's name with
/// the zero resume counter, and the countdown is decremented since the flow
/// is currently waiting on the resolved step.
///
/// An absent flow is not found; a flow whose current module is not suspended
/// is a bad request; a caller who does not own the flow's path is not
/// authorized; an owner of a waiting flow with no prior record for the
/// derived identity is owed the 201.
pub fn resume_suspended_flow_as_owner(
    store: &mut Store,
    flow_id: u128,
    authed: &AuthedApprover,
    value: String,
) -> (r: Result<u16, ApiError>)
    requires
        old(store).wf(),
    ensures
        final(store).wf(),
        r is Err ==> *final(store) == *old(store),
        final(store).audits@ == old(store).audits@,
        !q_has(old(store).queue@, flow_id) ==> (r matches Err(e) && e is NotFound
            && e.spec_message() == "parent flow job not found"@),
        q_has(old(store).queue@, flow_id) && spec_owner_waiting(*old(store), flow_id) is None
            ==> (r matches Err(e) && e is BadRequest && e.spec_message()
            == "the flow is not in a suspended state anymore"@),
        spec_owner_waiting(*old(store), flow_id) matches Some(j) && !spec_owns_path(
            authed.username@,
            authed.is_admin,
            spec_flow_path(old(store).queue@[q_index_of(old(store).queue@, flow_id)]),
        ) ==> (r matches Err(e) && e is NotAuthorized),
        spec_owner_waiting(*old(store), flow_id) matches Some(j) && spec_owns_path(
            authed.username@,
            authed.is_admin,
            spec_flow_path(old(store).queue@[q_index_of(old(store).queue@, flow_id)]),
        ) && !r_has(old(store).resume_jobs@, spec_resume_row_id(j, 0u32)) ==> (r matches Ok(code)
            && code == 201u16),
        r is Ok ==> (r matches Ok(code) && code == 201u16) && exists|fx: int, j: u128|
            0 <= fx < old(store).queue@.len() && (#[trigger] old(store).queue@[fx]).id == flow_id
                && (old(store).queue@[fx].flow_status matches Some(st) && st.spec_waiting_on(j))
                && #[trigger] resume_applied(
                *old(store),
                *final(store),
                fx,
                j,
                0u32,
                Some(authed.username@),
                true,
                value@,
            ) && spec_owns_path(
                authed.username@,
                authed.is_admin,
                match old(store).queue@[fx].script_path {
                    Some(p) => p@,
                    None => Seq::empty(),
                },
            ),
{
    let fx = match store.find_queued(flow_id) {
        Some(i) => i,
        None => {
            return Err(ApiError::NotFound("parent flow job not found".to_owned()));
        },
    };
    proof {
        lemma_q_index_of(store.queue@, fx as int);
    }
    // The flow must currently wait on a step's approvals.
    let job_id: u128 = {
        let st = match &store.queue[fx].flow_status {
            Some(st) => st,
            None => {
                return Err(
                    ApiError::BadRequest("the flow is not in a suspended state anymore".to_owned()),
                );
            },
        };
        match st.current_step() {
            Some(m) => {
                match m {
                    FlowStatusModule::WaitingForEvents { job, .. } => *job,
                    _ => {
                        return Err(
                            ApiError::BadRequest(
                                "the flow is not in a suspended state anymore".to_owned(),
                            ),
                        );
                    },
                }
            },
            None => {
                return Err(
                    ApiError::BadRequest("the flow is not in a suspended state anymore".to_owned()),
                );
            },
        }
    };
    proof {
        assert(spec_owner_waiting(*old(store), flow_id) == Some(job_id));
    }
    let owner_check = match &store.queue[fx].script_path {
        Some(p) => require_owner_of_path(authed, p.as_str()),
        None => require_owner_of_path(authed, ""),
    };
    if let Err(e) = owner_check {
        proof {
            reveal_strlit("");
            assert(""@ =~= Seq::<char>::empty());
        }
        return Err(e);
    }
    proof {
        reveal_strlit("");
        assert(""@ =~= Seq::<char>::empty());
        assert(spec_owns_path(
            authed.username@,
            authed.is_admin,
            spec_flow_path(old(store).queue@[q_index_of(old(store).queue@, flow_id)]),
        ));
    }
    let rid = resume_row_id(job_id, 0);
    if store.find_resume(rid).is_some() {
        return Err(ApiError::Conflict("resume request already sent".to_owned()));
    }
    let f = store.take_queued(fx);
    let new_suspend: i64 = if f.suspend > 0 && (match &f.flow_status {
        Some(st) => {
            match st.current_step() {
                Some(m) => m.waits_on(job_id),
                None => false,
            }
        },
        None => false,
    }) {
        f.suspend - 1
    } else {
        f.suspend
    };
    let flow_id2 = f.id;
    let f2 = QueuedJob { suspend: new_suspend, ..f };
    store.insert_queued(fx, f2);
    proof {
        assert(store.queue@ =~= old(store).queue@.update(fx as int, store.queue@[fx as int]));
        reveal_strlit("");
    }
    store.push_resume(
        ResumeRow {
            id: rid,
            resume_id: 0,
            job: job_id,
            flow: flow_id2,
            value,
            approver: Some(authed.username.clone()),
            approved: true,
        },
    );
    proof {
        reveal_strlit("");
        assert(""@ =~= Seq::<char>::empty());
        assert(old(store).queue@[fx as int].id == flow_id);
        assert(old(store).queue@[fx as int].flow_status matches Some(st) && st.spec_waiting_on(
            job_id,
        ));
        assert(resume_applied(
            *old(store),
            *store,
            fx as int,
            job_id,
            0u32,
            Some(authed.username@),
            true,
            value@,
        ));
        assert(spec_owns_path(
            authed.username@,
            authed.is_admin,
            match old(store).queue@[fx as int].script_path {
                Some(p) => p@,
                None => Seq::empty(),
            },
        ));
    }
    Ok(201)
}

/// The approver recorded on one resume record, for the approval page:
/// anonymous records are shown as `anonymous`.
pub open spec fn approval_matches_row(a: Approval, row: crate::store::ResumeRow) -> bool {
    &&& a.resume_id == row.resume_id as u16
    &&& a.approver@ == (match row.approver {
        Some(n) => n@,
        None => "anonymous"@,
    })
}

/// Whether the approval page can be served for `job`: its parent flow is
/// queued with a status, the approval policy admits the caller, and some
/// module of the status names the job.
pub open spec fn approval_page_admissible(
    s: Store,
    authed: &Option<AuthedApprover>,
    job: u128,
) -> bool {
    &&& spec_parent_of(s, job) matches Some(Some(p)) && q_has(s.queue@, p) && {
        let fx = q_index_of(s.queue@, p);
        &&& s.queue@[fx].flow_status matches Some(st)
        &&& spec_auth_verdict(&st.approval_conditions, authed, s.queue@[fx].email@) is Allowed
        &&& exists|k: int|
            0 <= k < st.modules@.len() && (#[trigger] st.modules@[k]).spec_job() == Some(job)
    }
}

/// The suspended-job approval page: verify the capability, enforce the
/// approval policy, and return the owning flow's id together with who has
/// approved so far — the approvers recorded on the module once it succeeded,
/// else the resume records received for the job.
pub fn get_suspended_job_flow(
    store: &Store,
    key: &String,
    w_id: &String,
    job: u128,
    resume_id: u32,
    secret: &String,
    approver: Option<String>,
    authed: Option<AuthedApprover>,
) -> (r: Result<(u128, Vec<Approval>), ApiError>)
    requires
        store.wf(),
    ensures
        !signature_accepted(key@, job, resume_id, approver_view(&approver), secret@) ==> (
        r matches Err(e) && e is BadRequest),
        signature_accepted(key@, job, resume_id, approver_view(&approver), secret@) && !(
        spec_parent_of(*store, job) matches Some(Some(p)) && q_has(store.queue@, p)) ==> (
        r matches Err(e) && e is NotFound),
        signature_accepted(key@, job, resume_id, approver_view(&approver), secret@)
            && approval_page_admissible(*store, &authed, job) ==> r is Ok,
        r matches Ok(p) ==> signature_accepted(
            key@,
            job,
            resume_id,
            approver_view(&approver),
            secret@,
        ) && Some(Some(p.0)) == spec_parent_of(*store, job),
        r matches Ok(p) ==> {
            ||| (exists|fx: int|
                0 <= fx < store.queue@.len() && (#[trigger] store.queue@[fx]).id == p.0 && (
                store.queue@[fx].flow_status matches Some(st) && exists|k: int|
                    0 <= k < st.modules@.len() && (#[trigger] st.modules@[k]).spec_job() == Some(job)
                        && (st.modules@[k] matches FlowStatusModule::Success { approvers, .. }
                        && approvers@.len() > 0 && p.1@.len() == approvers@.len() && forall|t: int|
                        0 <= t < p.1@.len() ==> (#[trigger] p.1@[t]).resume_id
                            == approvers@[t].resume_id && p.1@[t].approver@
                            == approvers@[t].approver@)))
            ||| {
                let rows = store.resume_jobs@.filter(|row: crate::store::ResumeRow| row.job == job);
                p.1@.len() == rows.len() && forall|t: int|
                    0 <= t < rows.len() ==> approval_matches_row(#[trigger] p.1@[t], rows[t])
            }
        },
{
    if let Err(e) = verify_suspended_secret(
        key.as_str(),
        job,
        resume_id,
        &approver,
        secret.as_str(),
    ) {
        return Err(e);
    }
    let flow_id = match parent_of(store, job) {
        Some(Some(p)) => p,
        _ => {
            return Err(ApiError::NotFound("parent flow job not found".to_owned()));
        },
    };
    let fx = match store.find_queued(flow_id) {
        Some(i) => i,
        None => {
            return Err(ApiError::NotFound("parent flow job not found".to_owned()));
        },
    };
    proof {
        lemma_q_index_of(store.queue@, fx as int);
        assert(q_has(store.queue@, flow_id));
    }
    let st = match &store.queue[fx].flow_status {
        Some(st) => st,
        None => {
            return Err(
                ApiError::Internal("unable to find the flow status in the flow job".to_owned()),
            );
        },
    };
    let verdict = conditionally_require_authed_user(
        &authed,
        &st.approval_conditions,
        &store.queue[fx].email,
    );
    if let Err(e) = verdict {
        return Err(e);
    }
    // The module waiting on (or resolved by) this job.
    let mut module: Option<usize> = None;
    let mut k: usize = 0;
    while k < st.modules.len()
        invariant
            0 <= k <= st.modules@.len(),
            match module {
                Some(mi) => mi < st.modules@.len() && st.modules@[mi as int].spec_job() == Some(
                    job,
                ),
                None => forall|t: int|
                    0 <= t < k ==> (#[trigger] st.modules@[t]).spec_job() != Some(job),
            },
        decreases st.modules@.len() - k,
    {
        if module.is_none() {
            let mj = st.modules[k].job();
            if mj.is_some() && mj.unwrap() == job {
                module = Some(k);
            }
        }
        k = k + 1;
    }
    let mi = match module {
        Some(mi) => mi,
        None => {
            return Err(ApiError::NotFound("unable to find the module".to_owned()));
        },
    };
    // Approvers recorded on a succeeded module win; else the received
    // resume records.
    let mut approvals: Vec<Approval> = Vec::new();
    let mut from_module = false;
    match &st.modules[mi] {
        FlowStatusModule::Success { approvers, .. } => {
            if approvers.len() > 0 {
                from_module = true;
                let mut t: usize = 0;
                while t < approvers.len()
                    invariant
                        0 <= t <= approvers@.len(),
                        approvals@.len() == t,
                        forall|u: int|
                            0 <= u < t ==> (#[trigger] approvals@[u]).resume_id
                                == approvers@[u].resume_id && approvals@[u].approver@
                                == approvers@[u].approver@,
                    decreases approvers@.len() - t,
                {
                    approvals.push(
                        Approval {
                            resume_id: approvers[t].resume_id,
                            approver: approvers[t].approver.clone(),
                        },
                    );
                    t = t + 1;
                }
            }
        },
        _ => {},
    }
    if from_module {
        return Ok((flow_id, approvals));
    }
    let mut t: usize = 0;
    proof {
        reveal(Seq::filter);
        assert(store.resume_jobs@.subrange(0, 0) =~= Seq::<crate::store::ResumeRow>::empty());
    }
    while t < store.resume_jobs.len()
        invariant
            0 <= t <= store.resume_jobs@.len(),
            ({
                let rows = store.resume_jobs@.subrange(0, t as int).filter(
                    |row: crate::store::ResumeRow| row.job == job,
                );
                approvals@.len() == rows.len() && forall|u: int|
                    0 <= u < rows.len() ==> approval_matches_row(#[trigger] approvals@[u], rows[u])
            }),
        decreases store.resume_jobs@.len() - t,
    {
        proof {
            reveal(Seq::filter);
            let pre = store.resume_jobs@.subrange(0, t as int);
            let cur = store.resume_jobs@.subrange(0, t + 1);
            assert(cur.drop_last() =~= pre);
            assert(cur.last() == store.resume_jobs@[t as int]);
        }
        if store.resume_jobs[t].job == job {
            let name: String = match &store.resume_jobs[t].approver {
                Some(n) => n.clone(),
                None => "anonymous".to_owned(),
            };
            approvals.push(
                Approval { resume_id: (store.resume_jobs[t].resume_id % 65536) as u16, approver: name },
            );
            proof {
                let rowst = store.resume_jobs@[t as int];
                let x = rowst.resume_id;
                assert(((x % 65536) as u16) == (x as u16)) by (bit_vector);
                assert(approval_matches_row(approvals@.last(), rowst));
            }
        }
        t = t + 1;
    }
    proof {
        assert(store.resume_jobs@.subrange(0, store.resume_jobs@.len() as int)
            =~= store.resume_jobs@);
    }
    Ok((flow_id, approvals))
}

/// Every applied resume leaves its record behind, under the derived
/// identity: a second attempt at the same capability then finds the record
/// and is refused as a duplicate.
pub proof fn lemma_resume_recorded(
    pre: Store,
    post: Store,
    fx: int,
    job_id: u128,
    resume_id: u32,
    approver: Option<Seq<char>>,
    approved: bool,
    value: Seq<char>,
)
    requires
        resume_applied(pre, post, fx, job_id, resume_id, approver, approved, value),
    ensures
        r_has(post.resume_jobs@, spec_resume_row_id(job_id, resume_id)),
{
    assert(post.resume_jobs@[post.resume_jobs@.len() - 1].id == spec_resume_row_id(
        job_id,
        resume_id,
    ));
}

} // verus!
