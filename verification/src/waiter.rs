//! The result waiter.
//!
//! A caller blocks until a job's terminal result is observable, polling at a
//! fast interval for an initial window and a slower interval afterward,
//! bounded by a configurable overall timeout. The decision of each round is
//! the verified [`wait_step`]; the caller performs the sleeps. A
//! disconnect-sensitive guard wraps the wait: unless explicitly disarmed by
//! a result, it issues a best-effort cancellation of the job. The returned
//! payload supports a structured override protocol, shaped by
//! [`shape_wait_response`].

use vstd::prelude::*;
use crate::cancel::{cancel_applied, cancel_job, opt_view};
use crate::errors::ApiError;
use crate::store::{c_has, q_has, Store};
use crate::job::QueuedJob;
use crate::suspend::{lemma_q_index_of, q_index_of};
use crate::text::{spec_decimal, str_eq, u64_to_decimal};

verus! {

/// The polling parameters of one wait.
pub struct WaitConfig {
    /// The overall bound, in seconds; a zero means the default small bound.
    pub timeout_s: u64,
    /// How long the fast polling window lasts, in milliseconds.
    pub fast_poll_duration_ms: u64,
    /// The polling interval inside the fast window.
    pub fast_poll_interval_ms: u64,
    /// The polling interval after the fast window.
    pub slow_poll_interval_ms: u64,
}

/// The overall wait bound in milliseconds: a non-positive configured timeout
/// means two seconds, and a bound too large for the machine saturates.
pub open spec fn spec_timeout_ms(timeout_s: u64) -> u64 {
    if timeout_s == 0 {
        2000u64
    } else if timeout_s > u64::MAX / 1000 {
        u64::MAX
    } else {
        (timeout_s * 1000) as u64
    }
}

/// Compute the overall wait bound in milliseconds.
pub fn timeout_ms(timeout_s: u64) -> (r: u64)
    ensures
        r == spec_timeout_ms(timeout_s),
{
    if timeout_s == 0 {
        2000
    } else if timeout_s > u64::MAX / 1000 {
        u64::MAX
    } else {
        timeout_s * 1000
    }
}

/// The next polling delay: fast inside the initial window, slow after it.
pub open spec fn spec_next_delay(accumulated: u64, cfg: WaitConfig) -> u64 {
    if accumulated <= cfg.fast_poll_duration_ms {
        cfg.fast_poll_interval_ms
    } else {
        cfg.slow_poll_interval_ms
    }
}

/// What one polling round decides.
pub enum WaitStep {
    /// A terminal result exists: the caller returns it and disarms the guard.
    Done { result: String, success: bool },
    /// No result yet: sleep `delay` and poll again with the new accumulated
    /// delay.
    Sleep { delay: u64, accumulated: u64 },
    /// The accumulated delay passed the overall bound.
    TimedOut,
}

/// Whether the completed table holds a row for `(id, w_id)`.
pub open spec fn completed_in_ws(s: Store, id: u128, w_id: Seq<char>) -> bool {
    exists|j: int|
        0 <= j < s.completed@.len() && (#[trigger] s.completed@[j]).id == id
            && s.completed@[j].workspace_id@ == w_id
}

/// One polling round of the result wait: observe a terminal result, or
/// decide the next delay, or give up past the bound.
pub fn wait_step(store: &Store, id: u128, w_id: &String, accumulated: u64, cfg: &WaitConfig) -> (r:
    WaitStep)
    requires
        store.wf(),
    ensures
        completed_in_ws(*store, id, w_id@) ==> (r matches WaitStep::Done { result, success }
            && exists|j: int|
            0 <= j < store.completed@.len() && (#[trigger] store.completed@[j]).id == id
                && store.completed@[j].workspace_id@ == w_id@ && result@
                == store.completed@[j].result@ && success == store.completed@[j].success),
        !completed_in_ws(*store, id, w_id@) ==> (if accumulated + spec_next_delay(accumulated, *cfg)
            > spec_timeout_ms(cfg.timeout_s) || accumulated + spec_next_delay(accumulated, *cfg)
            > u64::MAX {
            r is TimedOut
        } else {
            r matches WaitStep::Sleep { delay, accumulated: acc } && delay == spec_next_delay(
                accumulated,
                *cfg,
            ) && acc == accumulated + delay
        }),
{
    match store.find_completed(id) {
        Some(j) => {
            if store.completed[j].workspace_id == *w_id {
                return WaitStep::Done {
                    result: store.completed[j].result.clone(),
                    success: store.completed[j].success,
                };
            }
            proof {
                assert forall|k: int|
                    0 <= k < store.completed@.len() implies !((#[trigger] store.completed@[k]).id
                    == id && store.completed@[k].workspace_id@ == w_id@) by {
                    if k != j as int {
                        assert(store.completed@[k].id != store.completed@[j as int].id);
                    }
                }
            }
        },
        None => {},
    }
    let delay = if accumulated <= cfg.fast_poll_duration_ms {
        cfg.fast_poll_interval_ms
    } else {
        cfg.slow_poll_interval_ms
    };
    if delay > u64::MAX - accumulated {
        return WaitStep::TimedOut;
    }
    let acc = accumulated + delay;
    if acc > timeout_ms(cfg.timeout_s) {
        WaitStep::TimedOut
    } else {
        WaitStep::Sleep { delay, accumulated: acc }
    }
}

/// The error a wait past its bound fails with.
pub open spec fn spec_wait_timeout_message(timeout_s: u64) -> Seq<char> {
    "timeout after "@ + spec_decimal(timeout_s as nat) + "s"@
}

/// Build the timeout error of a wait past its bound.
pub fn wait_timeout_error(timeout_s: u64) -> (r: ApiError)
    ensures
        r matches ApiError::Timeout(m) && m@ == spec_wait_timeout_message(timeout_s),
{
    let mut s = "timeout after ".to_owned();
    let d = u64_to_decimal(timeout_s);
    s.append(d.as_str());
    s.append("s");
    ApiError::Timeout(s)
}

/// The disconnect-sensitive guard around one wait: unless disarmed, it
/// cancels the job it watches.
pub struct WaitGuard {
    /// Set once a result was obtained; a fired guard then does nothing, so
    /// no spurious cancellation races a legitimate completion.
    pub done: bool,
    pub id: u128,
    pub w_id: String,
    pub username: String,
}

/// Fire the guard: a best-effort cooperative cancellation of the watched
/// job, unless the guard was disarmed.
pub fn guard_fire(store: &mut Store, g: &WaitGuard, now: u64) -> (r: Option<u128>)
    requires
        old(store).wf(),
    ensures
        final(store).wf(),
        g.done ==> *final(store) == *old(store) && r is None,
        !g.done && (exists|i: int|
            0 <= i < old(store).queue@.len() && (#[trigger] old(store).queue@[i]).id == g.id && old(
                store,
            ).queue@[i].workspace_id@ == g.w_id@) ==> r is Some,
        !g.done ==> match r {
            Some(rid) => rid == g.id && exists|i: int|
                0 <= i < old(store).queue@.len() && (#[trigger] old(store).queue@[i]).id == g.id
                    && old(store).queue@[i].workspace_id@ == g.w_id@ && cancel_applied(
                    *old(store),
                    *final(store),
                    i,
                    now,
                    g.username@,
                    Some("http connection broke"@),
                    false,
                ),
            None => *final(store) == *old(store),
        },
{
    if g.done {
        return None;
    }
    let reason = "http connection broke".to_owned();
    cancel_job(store, &g.username, Some(reason), g.id, &g.w_id, false, now)
}

/// A terminal result that carries explicit response overrides.
pub struct CompositeResult {
    pub windmill_status_code: Option<u16>,
    pub windmill_content_type: Option<String>,
    pub windmill_headers: Option<Vec<(String, String)>>,
    pub result: Option<String>,
}

/// The caller-visible response built from a wait's result.
pub struct ShapedResponse {
    pub status: u16,
    pub content_type: Option<String>,
    pub headers: Vec<(String, String)>,
    pub body: Option<String>,
}

/// Whether a composite result carries no override at all.
pub open spec fn no_overrides(c: &CompositeResult) -> bool {
    c.windmill_status_code is None && c.windmill_content_type is None
        && c.windmill_headers is None
}

/// The status derived when a composite result gives none: failure is 500,
/// a present result is 200, an absent one 204.
pub open spec fn spec_default_status(success: bool, has_result: bool) -> u16 {
    if !success {
        500u16
    } else if has_result {
        200u16
    } else {
        204u16
    }
}

/// Shape the caller-visible response from a wait's result.
///
/// A result that is no composite object, or one carrying no override, is
/// returned as-is under a status derived from the job's success flag. An
/// explicit status-code override is honored when it is a legal status code,
/// and rejected otherwise; explicit headers and content type pass through
/// with the overridden body.
pub fn shape_wait_response(success: bool, composite: Option<CompositeResult>, raw: &String) -> (r:
    Result<ShapedResponse, ApiError>)
    ensures
        match composite {
            None => r matches Ok(s) && s.status == (if success {
                200u16
            } else {
                500u16
            }) && s.content_type is None && s.headers@.len() == 0 && (s.body matches Some(b) && b@
                == raw@),
            Some(c) => if no_overrides(&c) {
                r matches Ok(s) && s.status == (if success {
                    200u16
                } else {
                    500u16
                }) && s.content_type is None && s.headers@.len() == 0 && (s.body matches Some(b)
                    && b@ == raw@)
            } else if c.windmill_status_code matches Some(v) && !(100 <= v < 1000) {
                r matches Err(e) && e matches ApiError::Internal(m) && m@ == "Invalid status code"@
            } else {
                r matches Ok(s) && s.status == (match c.windmill_status_code {
                    Some(v) => v,
                    None => spec_default_status(success, c.result is Some),
                }) && s.content_type == c.windmill_content_type && s.headers@ == (match c
                    .windmill_headers {
                    Some(h) => h@,
                    None => Seq::<(String, String)>::empty(),
                }) && s.body == c.result
            },
        },
{
    let c = match composite {
        None => {
            return Ok(
                ShapedResponse {
                    status: if success {
                        200
                    } else {
                        500
                    },
                    content_type: None,
                    headers: Vec::new(),
                    body: Some(raw.clone()),
                },
            );
        },
        Some(c) => c,
    };
    if c.windmill_status_code.is_none() && c.windmill_content_type.is_none()
        && c.windmill_headers.is_none() {
        return Ok(
            ShapedResponse {
                status: if success {
                    200
                } else {
                    500
                },
                content_type: None,
                headers: Vec::new(),
                body: Some(raw.clone()),
            },
        );
    }
    let status: u16 = match c.windmill_status_code {
        Some(v) => {
            if 100 <= v && v < 1000 {
                v
            } else {
                return Err(ApiError::Internal("Invalid status code".to_owned()));
            }
        },
        None => {
            if !success {
                500
            } else if c.result.is_some() {
                200
            } else {
                204
            }
        },
    };
    let headers: Vec<(String, String)> = match c.windmill_headers {
        Some(h) => h,
        None => Vec::new(),
    };
    Ok(ShapedResponse { status, content_type: c.windmill_content_type, headers, body: c.result })
}

/// Whether the completed table holds a row for `(id, w_id)`: the job is
/// terminal.
pub fn job_is_complete(store: &Store, id: u128, w_id: &String) -> (r: bool)
    requires
        store.wf(),
    ensures
        r == completed_in_ws(*store, id, w_id@),
{
    match store.find_completed(id) {
        Some(j) => {
            if store.completed[j].workspace_id == *w_id {
                true
            } else {
                proof {
                    assert forall|k: int|
                        0 <= k < store.completed@.len() implies !((
                    #[trigger] store.completed@[k]).id == id && store.completed@[k].workspace_id@
                        == w_id@) by {
                        if k != j as int {
                            assert(store.completed@[k].id != store.completed@[j as int].id);
                        }
                    }
                }
                false
            }
        },
        None => false,
    }
}

/// The terminal result and success flag of `(id, w_id)`, where the job is
/// terminal; absent ids are not found.
pub fn get_completed_job_result(store: &Store, id: u128, w_id: &String) -> (r: Result<
    (String, bool),
    ApiError,
>)
    requires
        store.wf(),
    ensures
        completed_in_ws(*store, id, w_id@) ==> (r matches Ok(p) && exists|j: int|
            0 <= j < store.completed@.len() && (#[trigger] store.completed@[j]).id == id
                && store.completed@[j].workspace_id@ == w_id@ && p.0@ == store.completed@[j].result@
                && p.1 == store.completed@[j].success),
        !completed_in_ws(*store, id, w_id@) ==> (r matches Err(e) && e is NotFound),
{
    match wait_step(store, id, w_id, 0, &WaitConfig {
        timeout_s: 0,
        fast_poll_duration_ms: 0,
        fast_poll_interval_ms: 0,
        slow_poll_interval_ms: 0,
    }) {
        WaitStep::Done { result, success } => Ok((result, success)),
        _ => Err(ApiError::NotFound("Completed job not found".to_owned())),
    }
}

/// Whether the queued flow `(flow_id, w_id)`'s status names `node_id` as a
/// module whose job already has a terminal row: the node's result can be
/// read out of the running flow.
pub open spec fn node_result_available(
    s: Store,
    flow_id: u128,
    w_id: Seq<char>,
    node_id: Seq<char>,
) -> bool {
    &&& q_has(s.queue@, flow_id)
    &&& {
        let f = s.queue@[q_index_of(s.queue@, flow_id)];
        &&& f.workspace_id@ == w_id
        &&& f.flow_status matches Some(st) && exists|k: int|
            0 <= k < st.modules@.len() && (#[trigger] st.modules@[k]).spec_id()@ == node_id && (
            st.modules@[k].spec_job() matches Some(j) && c_has(s.completed@, j))
    }
}

/// The result of one flow node, read out of the running flow: the queued
/// parent flow's status names the node under its stable step name, and the
/// node's result is its job's terminal row. A flow absent from the
/// workspace, a status that names no such node, or a node whose job has no
/// terminal row yet, is not found.
pub fn get_result_by_id_from_flow(
    store: &Store,
    w_id: &String,
    flow_id: u128,
    node_id: &String,
) -> (r: Result<(String, bool), ApiError>)
    requires
        store.wf(),
    ensures
        r is Ok <==> node_result_available(*store, flow_id, w_id@, node_id@),
        r matches Ok(p) ==> ({
            let f = store.queue@[q_index_of(store.queue@, flow_id)];
            f.flow_status matches Some(st) && exists|k: int, j: int|
                0 <= k < st.modules@.len() && (#[trigger] st.modules@[k]).spec_id()@ == node_id@
                    && 0 <= j < store.completed@.len() && st.modules@[k].spec_job() == Some(
                    (#[trigger] store.completed@[j]).id,
                ) && p.0@ == store.completed@[j].result@ && p.1 == store.completed@[j].success
        }),
        r matches Err(e) ==> e is NotFound,
{
    let fx = match store.find_queued(flow_id) {
        Some(i) => i,
        None => {
            return Err(ApiError::NotFound("flow job not found".to_owned()));
        },
    };
    proof {
        lemma_q_index_of(store.queue@, fx as int);
        assert(q_has(store.queue@, flow_id));
    }
    if store.queue[fx].workspace_id != *w_id {
        return Err(ApiError::NotFound("flow job not found".to_owned()));
    }
    let st = match &store.queue[fx].flow_status {
        Some(st) => st,
        None => {
            return Err(ApiError::NotFound("node not found in the flow status".to_owned()));
        },
    };
    let mut k: usize = 0;
    while k < st.modules.len()
        invariant
            store.wf(),
            0 <= k <= st.modules@.len(),
            fx < store.queue@.len(),
            q_index_of(store.queue@, flow_id) == fx as int,
            q_has(store.queue@, flow_id),
            store.queue@[fx as int].workspace_id@ == w_id@,
            store.queue@[fx as int].flow_status == Some(*st),
            forall|t: int|
                0 <= t < k ==> !((#[trigger] st.modules@[t]).spec_id()@ == node_id@ && (
                st.modules@[t].spec_job() matches Some(j) && c_has(store.completed@, j))),
        decreases st.modules@.len() - k,
    {
        if str_eq(st.modules[k].module_id().as_str(), node_id.as_str()) {
            match st.modules[k].job() {
                Some(j) => {
                    match store.find_completed(j) {
                        Some(cj) => {
                            proof {
                                assert(st.modules@[k as int].spec_id()@ == node_id@);
                                assert(st.modules@[k as int].spec_job() == Some(j));
                                assert(c_has(store.completed@, j)) by {
                                    assert(store.completed@[cj as int].id == j);
                                }
                                assert(node_result_available(*store, flow_id, w_id@, node_id@));
                                assert(st.modules@[k as int].spec_job() == Some(
                                    store.completed@[cj as int].id,
                                ));
                            }
                            return Ok(
                                (
                                    store.completed[cj].result.clone(),
                                    store.completed[cj].success,
                                ),
                            );
                        },
                        None => {},
                    }
                },
                None => {},
            }
        }
        k = k + 1;
    }
    Err(ApiError::NotFound("node result not found in the flow".to_owned()))
}

/// Whether a queue row counts against the queue-length bound: not canceled,
/// and either due or suspended past its gate.
pub open spec fn counts_toward_limit(q: QueuedJob, now: u64) -> bool {
    &&& !q.canceled
    &&& (q.scheduled_for <= now || (q.suspend_until matches Some(u) && (q.suspend <= 0 || u
        <= now)))
}

/// How many queue rows count against the queue-length bound.
pub open spec fn spec_queue_pressure(s: Store, now: u64) -> nat {
    s.queue@.filter(|q: QueuedJob| counts_toward_limit(q, now)).len()
}

/// Reject new pushes when the queue of due jobs is longer than the
/// configured limit; no limit means no bound.
pub fn check_queue_too_long(store: &Store, queue_limit: Option<u64>, now: u64) -> (r: Result<
    (),
    ApiError,
>)
    requires
        store.wf(),
    ensures
        match queue_limit {
            None => r is Ok,
            Some(limit) => (r is Ok <==> spec_queue_pressure(*store, now) <= limit) && (
            r matches Err(e) ==> e is Internal),
        },
{
    let limit = match queue_limit {
        Some(l) => l,
        None => {
            return Ok(());
        },
    };
    let mut count: u64 = 0;
    let mut i: usize = 0;
    proof {
        reveal(Seq::filter);
        assert(store.queue@.subrange(0, 0) =~= Seq::<QueuedJob>::empty());
        store.queue@.subrange(0, 0).lemma_filter_len(|q: QueuedJob| counts_toward_limit(q, now));
    }
    while i < store.queue.len()
        invariant
            0 <= i <= store.queue@.len(),
            count == store.queue@.subrange(0, i as int).filter(
                |q: QueuedJob| counts_toward_limit(q, now),
            ).len(),
            count <= i,
        decreases store.queue@.len() - i,
    {
        proof {
            reveal(Seq::filter);
            let pre = store.queue@.subrange(0, i as int);
            let cur = store.queue@.subrange(0, i + 1);
            assert(cur.drop_last() =~= pre);
            assert(cur.last() == store.queue@[i as int]);
        }
        let q = &store.queue[i];
        let gated = match q.suspend_until {
            Some(u) => q.suspend <= 0 || u <= now,
            None => false,
        };
        if !q.canceled && (q.scheduled_for <= now || gated) {
            count = count + 1;
        }
        i = i + 1;
    }
    proof {
        assert(store.queue@.subrange(0, store.queue@.len() as int) =~= store.queue@);
    }
    if count > limit {
        let mut m = "Number of queued job is too high: ".to_owned();
        let c = u64_to_decimal(count);
        m.append(c.as_str());
        m.append(" > ");
        let l = u64_to_decimal(limit);
        m.append(l.as_str());
        Err(ApiError::Internal(m))
    } else {
        Ok(())
    }
}

/// One progress observation of a job: its running/completed flags and the
/// log text past the caller's offset.
pub struct JobUpdate {
    /// `Some(true)` when the caller did not yet know the job runs;
    /// `Some(false)` for a terminal job; absent otherwise.
    pub running: Option<bool>,
    /// `Some(true)` for a terminal job; absent otherwise.
    pub completed: Option<bool>,
    /// The job's log text from the caller's offset on.
    pub new_logs: String,
    /// The offset the caller should poll from next.
    pub log_offset: usize,
}

/// The log text of `id`, if any.
pub open spec fn spec_logs_of(s: Store, id: u128) -> Seq<char> {
    if exists|j: int| 0 <= j < s.job_logs@.len() && (#[trigger] s.job_logs@[j]).job_id == id {
        let j = choose|j: int|
            0 <= j < s.job_logs@.len() && (#[trigger] s.job_logs@[j]).job_id == id;
        s.job_logs@[j].logs@
    } else {
        Seq::empty()
    }
}

/// The log text past `offset`, clamped to the text's length.
pub open spec fn spec_logs_from(logs: Seq<char>, offset: usize) -> Seq<char> {
    if offset < logs.len() {
        logs.subrange(offset as int, logs.len() as int)
    } else {
        Seq::empty()
    }
}

fn logs_from(store: &Store, id: u128, offset: usize) -> (r: (String, usize))
    requires
        store.wf(),
    ensures
        r.0@ == spec_logs_from(spec_logs_of(*store, id), offset),
        r.1 == spec_logs_of(*store, id).len(),
{
    match store.find_log(id) {
        Some(j) => {
            proof {
                // Log ids are unique, so the chosen row is the found one.
                let jj = choose|jj: int|
                    0 <= jj < store.job_logs@.len() && (#[trigger] store.job_logs@[jj]).job_id
                        == id;
                if jj != j as int {
                    assert(store.job_logs@[jj].job_id != store.job_logs@[j as int].job_id);
                }
                assert(spec_logs_of(*store, id) == store.job_logs@[j as int].logs@);
            }
            let logs = &store.job_logs[j].logs;
            let len = logs.as_str().unicode_len();
            if offset < len {
                let sub = logs.as_str().substring_char(offset, len);
                (sub.to_owned(), len)
            } else {
                (String::new(), len)
            }
        },
        None => (String::new(), 0),
    }
}

/// One progress poll of a job: a pending row reports whether it runs and its
/// new log text; a terminal row reports completion; an unknown id is not
/// found. An anonymous caller may only see jobs ran by anonymous users.
pub fn get_job_update(
    store: &Store,
    id: u128,
    w_id: &String,
    logged_in: bool,
    known_running: bool,
    log_offset: usize,
) -> (r: Result<JobUpdate, ApiError>)
    requires
        store.wf(),
    ensures
        r matches Ok(u) ==> {
            &&& u.new_logs@ == spec_logs_from(spec_logs_of(*store, id), log_offset)
            &&& (exists|i: int|
                0 <= i < store.queue@.len() && (#[trigger] store.queue@[i]).id == id
                    && store.queue@[i].workspace_id@ == w_id@) ==> (u.completed is None && exists|
                i: int,
            |
                0 <= i < store.queue@.len() && (#[trigger] store.queue@[i]).id == id && u.running
                    == (if !known_running && store.queue@[i].running {
                    Some(true)
                } else {
                    None::<bool>
                }))
            &&& (!(exists|i: int|
                0 <= i < store.queue@.len() && (#[trigger] store.queue@[i]).id == id
                    && store.queue@[i].workspace_id@ == w_id@)) ==> (u.running == Some(false)
                && u.completed == Some(true) && completed_in_ws(*store, id, w_id@))
        },
        !logged_in && (exists|i: int|
            0 <= i < store.queue@.len() && (#[trigger] store.queue@[i]).id == id
                && store.queue@[i].workspace_id@ == w_id@ && store.queue@[i].created_by@
                != "anonymous"@) ==> (r matches Err(e) && e is BadRequest),
        (!(exists|i: int|
            0 <= i < store.queue@.len() && (#[trigger] store.queue@[i]).id == id
                && store.queue@[i].workspace_id@ == w_id@) && !completed_in_ws(*store, id, w_id@))
            ==> (r matches Err(e) && e is NotFound),
        (exists|i: int|
            0 <= i < store.queue@.len() && (#[trigger] store.queue@[i]).id == id
                && store.queue@[i].workspace_id@ == w_id@ && (logged_in
                || store.queue@[i].created_by@ == "anonymous"@)) ==> r is Ok,
        !(exists|i: int|
            0 <= i < store.queue@.len() && (#[trigger] store.queue@[i]).id == id
                && store.queue@[i].workspace_id@ == w_id@) && (exists|j: int|
            0 <= j < store.completed@.len() && (#[trigger] store.completed@[j]).id == id
                && store.completed@[j].workspace_id@ == w_id@ && (logged_in
                || store.completed@[j].created_by@ == "anonymous"@)) ==> r is Ok,
{
    match store.find_queued_in_ws(id, w_id) {
        Some(i) => {
            if !logged_in && !str_eq(store.queue[i].created_by.as_str(), "anonymous") {
                proof {
                    assert forall|j: int|
                        0 <= j < store.queue@.len() && (#[trigger] store.queue@[j]).id == id
                            && store.queue@[j].workspace_id@ == w_id@ implies !(logged_in
                        || store.queue@[j].created_by@ == "anonymous"@) by {
                        if j != i as int {
                            assert(store.queue@[j].id != store.queue@[i as int].id);
                        }
                    }
                }
                return Err(
                    ApiError::BadRequest(
                        "As a non logged in user, you can only see jobs ran by anonymous users".to_owned(),
                    ),
                );
            }
            proof {
                assert forall|j: int|
                    0 <= j < store.queue@.len() && (#[trigger] store.queue@[j]).id == id
                        && store.queue@[j].workspace_id@ == w_id@ implies store.queue@[j].created_by@
                    == "anonymous"@ || logged_in by {
                    if j != i as int {
                        assert(store.queue@[j].id != store.queue@[i as int].id);
                    }
                }
            }
            let (new_logs, off) = logs_from(store, id, log_offset);
            let running: Option<bool> = if !known_running && store.queue[i].running {
                Some(true)
            } else {
                None
            };
            Ok(JobUpdate { running, completed: None, new_logs, log_offset: off })
        },
        None => {
            match store.find_completed(id) {
                Some(j) => {
                    if store.completed[j].workspace_id == *w_id {
                        if !logged_in && !str_eq(store.completed[j].created_by.as_str(), "anonymous")
                        {
                            proof {
                                assert forall|k: int|
                                    0 <= k < store.completed@.len() && (
                                    #[trigger] store.completed@[k]).id == id
                                        && store.completed@[k].workspace_id@ == w_id@ implies !(
                                logged_in || store.completed@[k].created_by@ == "anonymous"@) by {
                                    if k != j as int {
                                        assert(store.completed@[k].id != store.completed@[
                                            j as int
                                        ].id);
                                    }
                                }
                            }
                            return Err(
                                ApiError::BadRequest(
                                    "As a non logged in user, you can only see jobs ran by anonymous users".to_owned(),
                                ),
                            );
                        }
                        let (new_logs, off) = logs_from(store, id, log_offset);
                        return Ok(
                            JobUpdate {
                                running: Some(false),
                                completed: Some(true),
                                new_logs,
                                log_offset: off,
                            },
                        );
                    }
                    proof {
                        assert forall|k: int|
                            0 <= k < store.completed@.len() implies !((
                        #[trigger] store.completed@[k]).id == id && store.completed@[k].workspace_id@
                            == w_id@) by {
                            if k != j as int {
                                assert(store.completed@[k].id != store.completed@[j as int].id);
                            }
                        }
                    }
                    Err(ApiError::NotFound("Job not found".to_owned()))
                },
                None => Err(ApiError::NotFound("Job not found".to_owned())),
            }
        },
    }
}

/// Whether a queue row is pending and due: it counts toward the queue length.
pub open spec fn pending_due(q: QueuedJob, w_id: Seq<char>, all_workspaces: bool, now: u64) -> bool {
    &&& (all_workspaces || q.workspace_id@ == w_id)
    &&& q.scheduled_for <= now
    &&& q.suspend == 0
    &&& !q.running
}

/// Whether a queue row is suspended on approvals.
pub open spec fn suspended_row(q: QueuedJob, w_id: Seq<char>, all_workspaces: bool, now: u64) -> bool {
    &&& (all_workspaces || q.workspace_id@ == w_id)
    &&& q.scheduled_for <= now
    &&& q.suspend > 0
}

/// Count the queue: how many rows are pending and due, and how many are
/// suspended on approvals.
pub fn count_queue_jobs(store: &Store, w_id: &String, all_workspaces: bool, now: u64) -> (r: (
    u64,
    u64,
))
    ensures
        r.0 == store.queue@.filter(|q: QueuedJob| pending_due(q, w_id@, all_workspaces, now)).len(),
        r.1 == store.queue@.filter(
            |q: QueuedJob| suspended_row(q, w_id@, all_workspaces, now),
        ).len(),
{
    let mut due: u64 = 0;
    let mut suspended: u64 = 0;
    let mut i: usize = 0;
    proof {
        reveal(Seq::filter);
        assert(store.queue@.subrange(0, 0) =~= Seq::<QueuedJob>::empty());
    }
    while i < store.queue.len()
        invariant
            0 <= i <= store.queue@.len(),
            due == store.queue@.subrange(0, i as int).filter(
                |q: QueuedJob| pending_due(q, w_id@, all_workspaces, now),
            ).len(),
            suspended == store.queue@.subrange(0, i as int).filter(
                |q: QueuedJob| suspended_row(q, w_id@, all_workspaces, now),
            ).len(),
            due <= i,
            suspended <= i,
        decreases store.queue@.len() - i,
    {
        proof {
            reveal(Seq::filter);
            let pre = store.queue@.subrange(0, i as int);
            let cur = store.queue@.subrange(0, i + 1);
            assert(cur.drop_last() =~= pre);
            assert(cur.last() == store.queue@[i as int]);
            pre.lemma_filter_len(|q: QueuedJob| pending_due(q, w_id@, all_workspaces, now));
            pre.lemma_filter_len(|q: QueuedJob| suspended_row(q, w_id@, all_workspaces, now));
        }
        let q = &store.queue[i];
        let in_scope = all_workspaces || str_eq(q.workspace_id.as_str(), w_id.as_str());
        if in_scope && q.scheduled_for <= now {
            if q.suspend == 0 && !q.running {
                due = due + 1;
            } else if q.suspend > 0 {
                suspended = suspended + 1;
            }
        }
        i = i + 1;
    }
    proof {
        assert(store.queue@.subrange(0, store.queue@.len() as int) =~= store.queue@);
    }
    (due, suspended)
}

/// A job found in one of the two tables.
pub enum JobRow<'a> {
    Queued(&'a QueuedJob),
    Completed(&'a crate::job::CompletedJob),
}

/// Fetch a job by id, terminal form first: a job id exists in exactly one of
/// the two tables, and an id absent from both is not found.
pub fn get_job<'a>(store: &'a Store, id: u128, w_id: &String) -> (r: Result<JobRow<'a>, ApiError>)
    requires
        store.wf(),
    ensures
        match r {
            Ok(row) => match row {
                JobRow::Completed(c) => exists|j: int|
                    0 <= j < store.completed@.len() && *c == store.completed@[j] && (
                    #[trigger] store.completed@[j]).id == id && store.completed@[j].workspace_id@
                        == w_id@,
                JobRow::Queued(q) => exists|i: int|
                    0 <= i < store.queue@.len() && *q == store.queue@[i] && (
                    #[trigger] store.queue@[i]).id == id && store.queue@[i].workspace_id@ == w_id@,
            },
            Err(e) => e is NotFound && !completed_in_ws(*store, id, w_id@) && !exists|i: int|
                0 <= i < store.queue@.len() && (#[trigger] store.queue@[i]).id == id
                    && store.queue@[i].workspace_id@ == w_id@,
        },
{
    match store.find_completed(id) {
        Some(j) => {
            if store.completed[j].workspace_id == *w_id {
                return Ok(JobRow::Completed(&store.completed[j]));
            }
            proof {
                assert forall|k: int|
                    0 <= k < store.completed@.len() implies !((#[trigger] store.completed@[k]).id
                    == id && store.completed@[k].workspace_id@ == w_id@) by {
                    if k != j as int {
                        assert(store.completed@[k].id != store.completed@[j as int].id);
                    }
                }
            }
        },
        None => {},
    }
    match store.find_queued_in_ws(id, w_id) {
        Some(i) => Ok(JobRow::Queued(&store.queue[i])),
        None => Err(ApiError::NotFound("Job not found".to_owned())),
    }
}

} // verus!
