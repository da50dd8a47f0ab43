use jobqueue::errors::ApiError;
use jobqueue::flow::{ApprovalConditions, FlowStatus, FlowStatusModule};
use jobqueue::job::{JobKind, QueuedJob};
use jobqueue::paths::try_normalize;
use jobqueue::push::{check_tag_available_for_workspace, push_job, PushRequest, TagPolicy};
use jobqueue::py_version::{pad_string, PyVersion};
use jobqueue::signature::{create_signature, verify_suspended_secret};
use jobqueue::store::Store;
use jobqueue::suspend::{conditionally_require_authed_user, AuthedApprover};
use jobqueue::text::u64_to_decimal;
use jobqueue::urls::get_resume_urls;
use jobqueue::waiter::{
    check_queue_too_long, shape_wait_response, wait_step, wait_timeout_error, CompositeResult,
    WaitConfig, WaitStep,
};
use hmac::{Hmac, KeyInit, Mac};

fn base_job(id: u128, w: &str) -> QueuedJob {
    QueuedJob {
        id,
        workspace_id: w.to_string(),
        kind: JobKind::Script,
        script_path: None,
        args: "{}".to_string(),
        tag: "deno".to_string(),
        created_by: "admin".to_string(),
        email: "admin@example.com".to_string(),
        permissioned_as: "u/admin".to_string(),
        scheduled_for: 0,
        running: false,
        started_at: None,
        last_ping: None,
        suspend: 0,
        suspend_until: None,
        same_worker: false,
        canceled: false,
        canceled_by: None,
        canceled_reason: None,
        parent_job: None,
        schedule_path: None,
        is_flow_step: false,
        flow_status: None,
    }
}

// Relative path normalization: `.` and empty segments vanish, `..` climbs,
// and absolute or escaping paths are rejected.
#[test]
fn path_normalization() {
    assert_eq!(try_normalize("u/admin/s/../t"), Some("u/admin/t".to_string()));
    assert_eq!(try_normalize("a/./b//c"), Some("a/b/c".to_string()));
    assert_eq!(try_normalize("a/b/.."), Some("a".to_string()));
    assert_eq!(try_normalize("../a"), None);
    assert_eq!(try_normalize("/a/b"), None);
    assert_eq!(try_normalize(""), Some(String::new()));
}

#[test]
fn decimal_rendering() {
    assert_eq!(u64_to_decimal(0), "0");
    assert_eq!(u64_to_decimal(301), "301");
    assert_eq!(u64_to_decimal(u64::MAX), "18446744073709551615");
}

// The signature equals an independently computed HMAC-SHA-256 over the
// concatenated message, rendered as lowercase hex.
#[test]
fn signature_matches_independent_hmac() {
    let key = "wkey";
    let job: u128 = 0xabcdef;
    let rid: u32 = 3;
    let approver = Some("alice".to_string());

    let mut msg: Vec<u8> = Vec::new();
    msg.extend_from_slice(&job.to_be_bytes());
    msg.extend_from_slice(&rid.to_be_bytes());
    msg.extend_from_slice("alice".as_bytes());
    let mut mac = Hmac::<sha2::Sha256>::new_from_slice(key.as_bytes()).unwrap();
    mac.update(&msg);
    let expected = hex::encode(mac.finalize().into_bytes());

    assert_eq!(create_signature(key, job, rid, &approver), expected);
}

// Verification accepts the canonical signature, in either hex case, and
// rejects malformed hex.
#[test]
fn verification_round_trip_and_hex_handling() {
    let sig = create_signature("k", 9, 1, &None);
    assert_eq!(sig.len(), 64);
    assert!(verify_suspended_secret("k", 9, 1, &None, &sig).is_ok());
    assert!(verify_suspended_secret("k", 9, 1, &None, &sig.to_uppercase()).is_ok());
    match verify_suspended_secret("k", 9, 1, &None, "abc") {
        Err(ApiError::BadRequest(_)) => {}
        other => panic!("odd-length hex must be rejected, got {:?}", other),
    }
    match verify_suspended_secret("k", 9, 1, &None, &sig[..62]) {
        Err(ApiError::BadRequest(m)) => assert_eq!(m, "Invalid signature"),
        other => panic!("a truncated signature must be rejected, got {:?}", other),
    }
}

// Tampering with any of the three signed inputs invalidates the capability.
#[test]
fn tampering_any_input_invalidates() {
    let sig = create_signature("k", 9, 1, &Some("a".to_string()));
    assert!(verify_suspended_secret("k", 9, 1, &Some("a".to_string()), &sig).is_ok());
    assert!(verify_suspended_secret("k", 10, 1, &Some("a".to_string()), &sig).is_err());
    assert!(verify_suspended_secret("k", 9, 2, &Some("a".to_string()), &sig).is_err());
    assert!(verify_suspended_secret("k", 9, 1, &Some("b".to_string()), &sig).is_err());
    assert!(verify_suspended_secret("k2", 9, 1, &Some("a".to_string()), &sig).is_err());
}

// The resume URLs carry the workspace, the hyphenated job id, the resume
// counter, the signature, and the percent-encoded approver.
#[test]
fn resume_urls_are_built_from_the_signature() {
    let key = "k".to_string();
    let base = "https://example.com".to_string();
    let w = "demo".to_string();
    let job: u128 = 0xff;
    let approver = Some("a b".to_string());
    let sig = create_signature("k", job, 2, &approver);
    let urls = get_resume_urls(&key, &base, &w, job, 2, &approver);
    let expected_resume = format!(
        "https://example.com/api/w/demo/jobs_u/resume/00000000-0000-0000-0000-0000000000ff/2/{}?approver=a%20b",
        sig
    );
    assert_eq!(urls.resume, expected_resume);
    assert!(urls.cancel.contains("/jobs_u/cancel/"));
    assert!(urls.approval_page.starts_with("https://example.com/approve/demo/"));
    assert!(urls.approval_page.ends_with("?approver=a%20b"));
}

// The approval policy: anonymous callers, self-approval and missing groups.
#[test]
fn approval_policy_verdicts() {
    let conditions = Some(ApprovalConditions {
        user_auth_required: true,
        user_groups_required: vec!["ops".to_string()],
        self_approval_disabled: true,
    });
    let trigger = "owner@example.com".to_string();

    match conditionally_require_authed_user(&None, &conditions, &trigger) {
        Err(ApiError::NotAuthorized(m)) => {
            assert_eq!(m, "Only logged in users can approve this flow step")
        }
        other => panic!("anonymous must be rejected, got {:?}", other),
    }

    let selfish = Some(AuthedApprover {
        username: "owner".to_string(),
        email: "owner@example.com".to_string(),
        is_admin: false,
        groups: vec!["ops".to_string()],
    });
    match conditionally_require_authed_user(&selfish, &conditions, &trigger) {
        Err(ApiError::PermissionDenied(m)) => {
            assert_eq!(m, "Self-approval is disabled for this flow step")
        }
        other => panic!("self-approval must be rejected, got {:?}", other),
    }

    let outsider = Some(AuthedApprover {
        username: "eve".to_string(),
        email: "eve@example.com".to_string(),
        is_admin: false,
        groups: vec!["dev".to_string()],
    });
    match conditionally_require_authed_user(&outsider, &conditions, &trigger) {
        Err(ApiError::PermissionDenied(m)) => assert!(m.contains("ops")),
        other => panic!("a groupless caller must be rejected, got {:?}", other),
    }

    let member = Some(AuthedApprover {
        username: "bob".to_string(),
        email: "bob@example.com".to_string(),
        is_admin: false,
        groups: vec!["ops".to_string()],
    });
    assert!(conditionally_require_authed_user(&member, &conditions, &trigger).is_ok());

    let admin = Some(AuthedApprover {
        username: "root".to_string(),
        email: "owner@example.com".to_string(),
        is_admin: true,
        groups: vec![],
    });
    assert!(conditionally_require_authed_user(&admin, &conditions, &trigger).is_ok());
}

// The wait polls fast inside the initial window, slow after it, and gives up
// past the bound.
#[test]
fn wait_step_polling_schedule() {
    let store = Store::new();
    let w = "demo".to_string();
    let cfg = WaitConfig {
        timeout_s: 1,
        fast_poll_duration_ms: 200,
        fast_poll_interval_ms: 50,
        slow_poll_interval_ms: 400,
    };
    match wait_step(&store, 1, &w, 0, &cfg) {
        WaitStep::Sleep { delay, accumulated } => {
            assert_eq!(delay, 50);
            assert_eq!(accumulated, 50);
        }
        _ => panic!("the first round sleeps fast"),
    }
    match wait_step(&store, 1, &w, 300, &cfg) {
        WaitStep::Sleep { delay, accumulated } => {
            assert_eq!(delay, 400);
            assert_eq!(accumulated, 700);
        }
        _ => panic!("past the window the round sleeps slow"),
    }
    match wait_step(&store, 1, &w, 700, &cfg) {
        WaitStep::TimedOut => {}
        _ => panic!("past the bound the wait times out"),
    }
    match wait_timeout_error(600) {
        ApiError::Timeout(m) => assert_eq!(m, "timeout after 600s"),
        _ => panic!("a timeout error is expected"),
    }
}

// A present terminal result ends the wait with the stored payload.
#[test]
fn wait_step_observes_result() {
    let mut store = Store::new();
    let mut job = base_job(5, "demo");
    job.running = true;
    job.last_ping = Some(1);
    store.queue.push(job);
    let _ = jobqueue::reaper::handle_zombie_jobs(&mut store, 1_000_000, 10, false);
    let w = "demo".to_string();
    let cfg = WaitConfig {
        timeout_s: 1,
        fast_poll_duration_ms: 1,
        fast_poll_interval_ms: 1,
        slow_poll_interval_ms: 1,
    };
    match wait_step(&store, 5, &w, 0, &cfg) {
        WaitStep::Done { result, success } => {
            assert!(!success);
            assert!(result.contains("Job timed out"));
        }
        _ => panic!("a terminal result must end the wait"),
    }
}

// The composite override protocol: defaults, explicit status, invalid status.
#[test]
fn composite_result_shaping() {
    let raw = "{\"a\":1}".to_string();
    let plain = shape_wait_response(true, None, &raw).unwrap();
    assert_eq!(plain.status, 200);
    assert_eq!(plain.body.as_deref(), Some("{\"a\":1}"));

    let failed = shape_wait_response(false, None, &raw).unwrap();
    assert_eq!(failed.status, 500);

    let no_overrides = CompositeResult {
        windmill_status_code: None,
        windmill_content_type: None,
        windmill_headers: None,
        result: Some("ignored".to_string()),
    };
    let r = shape_wait_response(true, Some(no_overrides), &raw).unwrap();
    assert_eq!(r.status, 200);
    assert_eq!(r.body.as_deref(), Some("{\"a\":1}"));

    let with_status = CompositeResult {
        windmill_status_code: Some(418),
        windmill_content_type: Some("text/plain".to_string()),
        windmill_headers: Some(vec![("x-a".to_string(), "b".to_string())]),
        result: Some("body".to_string()),
    };
    let r = shape_wait_response(true, Some(with_status), &raw).unwrap();
    assert_eq!(r.status, 418);
    assert_eq!(r.content_type.as_deref(), Some("text/plain"));
    assert_eq!(r.headers.len(), 1);
    assert_eq!(r.body.as_deref(), Some("body"));

    let invalid = CompositeResult {
        windmill_status_code: Some(99),
        windmill_content_type: None,
        windmill_headers: None,
        result: None,
    };
    match shape_wait_response(true, Some(invalid), &raw) {
        Err(ApiError::Internal(m)) => assert_eq!(m, "Invalid status code"),
        Err(other) => panic!("an illegal status code is rejected, got {:?}", other),
        Ok(_) => panic!("an illegal status code must not be accepted"),
    }

    let no_content = CompositeResult {
        windmill_status_code: None,
        windmill_content_type: None,
        windmill_headers: Some(vec![]),
        result: None,
    };
    let r = shape_wait_response(true, Some(no_content), &raw).unwrap();
    assert_eq!(r.status, 204);
}

// The push service: tag resolution and policy, scheduling, identity.
#[test]
fn push_resolves_tag_schedule_and_identity() {
    let mut store = Store::new();
    let policy = TagPolicy {
        scope_tags: None,
        global_tags: vec!["gpu".to_string()],
        per_workspace_tags: vec![],
    };
    let req = PushRequest {
        job_id: 7,
        workspace_id: "demo".to_string(),
        kind: JobKind::Script,
        script_path: Some("u/admin/s".to_string()),
        args: "{}".to_string(),
        tag_override: Some("gpu".to_string()),
        default_tag: Some("scriptdefault".to_string()),
        language_tag: "deno".to_string(),
        created_by: "alice".to_string(),
        email: "alice@example.com".to_string(),
        on_behalf_of: None,
        scheduled_at: None,
        scheduled_in_ms: Some(5_000),
        parent_job: None,
        same_worker: false,
        is_flow_step: false,
        concurrency_key: Some("slot".to_string()),
        flow_status: None,
    };
    assert_eq!(push_job(&mut store, &policy, req, 1_000), Ok(7));
    assert_eq!(store.queue.len(), 1);
    assert_eq!(store.queue[0].tag, "gpu");
    assert_eq!(store.queue[0].scheduled_for, 6_000);
    assert_eq!(store.queue[0].permissioned_as, "u/alice");
    assert!(!store.queue[0].running);
    assert_eq!(store.concurrency_keys.len(), 1);
    assert_eq!(store.concurrency_keys[0].key, "slot");
}

#[test]
fn push_rejects_forbidden_tag_and_duplicate_id() {
    let mut store = Store::new();
    let policy = TagPolicy {
        scope_tags: Some(vec!["deno".to_string()]),
        global_tags: vec![],
        per_workspace_tags: vec![],
    };
    let mk = |id: u128, tag: Option<&str>| PushRequest {
        job_id: id,
        workspace_id: "demo".to_string(),
        kind: JobKind::Script,
        script_path: None,
        args: "{}".to_string(),
        tag_override: tag.map(|t| t.to_string()),
        default_tag: None,
        language_tag: "deno".to_string(),
        created_by: "alice".to_string(),
        email: "alice@example.com".to_string(),
        on_behalf_of: None,
        scheduled_at: None,
        scheduled_in_ms: None,
        parent_job: None,
        same_worker: false,
        is_flow_step: false,
        concurrency_key: None,
        flow_status: None,
    };
    match push_job(&mut store, &policy, mk(1, Some("gpu")), 0) {
        Err(ApiError::BadRequest(m)) => assert!(m.contains("not available in your scope")),
        other => panic!("a tag outside the scope is rejected, got {:?}", other),
    }
    assert!(store.queue.is_empty());

    assert_eq!(push_job(&mut store, &policy, mk(2, None), 0), Ok(2));
    match push_job(&mut store, &policy, mk(2, None), 0) {
        Err(ApiError::Conflict(_)) => {}
        other => panic!("a duplicate id is a conflict, got {:?}", other),
    }

    // A forbidden script default tag is rejected too, before the insert.
    let mut defaulted = mk(3, None);
    defaulted.default_tag = Some("gpu".to_string());
    match push_job(&mut store, &policy, defaulted, 0) {
        Err(ApiError::BadRequest(m)) => assert!(m.contains("not available in your scope")),
        other => panic!("a forbidden default tag is rejected, got {:?}", other),
    }
    assert_eq!(store.queue.len(), 1);
}

#[test]
fn tag_policy_per_workspace() {
    let policy = TagPolicy {
        scope_tags: None,
        global_tags: vec![],
        per_workspace_tags: vec![(
            "special".to_string(),
            vec!["demo".to_string(), "other".to_string()],
        )],
    };
    let w_demo = "demo".to_string();
    let w_else = "elsewhere".to_string();
    assert!(check_tag_available_for_workspace(&policy, &"special".to_string(), &w_demo).is_ok());
    match check_tag_available_for_workspace(&policy, &"special".to_string(), &w_else) {
        Err(ApiError::BadRequest(m)) => {
            assert_eq!(m, "Tag special cannot be used on workspace elsewhere")
        }
        other => panic!("a foreign workspace is rejected, got {:?}", other),
    }
    assert!(check_tag_available_for_workspace(&policy, &"".to_string(), &w_else).is_ok());
}

#[test]
fn queue_pressure_limit() {
    let mut store = Store::new();
    for id in 0..3u128 {
        store.queue.push(base_job(id, "demo"));
    }
    assert!(check_queue_too_long(&store, None, 10).is_ok());
    assert!(check_queue_too_long(&store, Some(3), 10).is_ok());
    match check_queue_too_long(&store, Some(2), 10) {
        Err(ApiError::Internal(m)) => assert_eq!(m, "Number of queued job is too high: 3 > 2"),
        other => panic!("an overlong queue is rejected, got {:?}", other),
    }
}

#[test]
fn py_version_renderings() {
    assert_eq!(PyVersion::Py311.to_string_with_dot(), "3.11");
    assert_eq!(PyVersion::Py310.to_string_no_dot(), "310");
    assert_eq!(PyVersion::Py313.to_cache_dir_top_level(), "python_313");
    assert_eq!(PyVersion::Py312.to_numeric(), 312);
}

#[test]
fn py_version_parsing() {
    assert_eq!(PyVersion::from_string_with_dots("3.12"), Some(PyVersion::Py312));
    assert_eq!(PyVersion::from_string_with_dots("default"), Some(PyVersion::Py311));
    assert_eq!(PyVersion::from_string_with_dots("2.7"), None);
    assert_eq!(PyVersion::from_string_no_dots("313"), Some(PyVersion::Py313));
    assert_eq!(PyVersion::from_string_no_dots("39"), None);
    assert_eq!(PyVersion::parse_version("# py311"), Some(PyVersion::Py311));
    assert_eq!(PyVersion::parse_version("#py310"), Some(PyVersion::Py310));
    assert_eq!(PyVersion::parse_version("# nothing"), None);
    assert_eq!(PyVersion::from_numeric(311), Some(PyVersion::Py311));
    assert_eq!(PyVersion::from_numeric(42), None);
}

#[test]
fn pad_string_pads_with_spaces() {
    assert_eq!(pad_string("foo", 5), "foo  ");
    assert_eq!(pad_string("foobar", 5), "foobar");
    assert_eq!(pad_string("", 2), "  ");
}

// The guard cancels the watched job unless disarmed.
#[test]
fn wait_guard_fires_unless_disarmed() {
    let mut store = Store::new();
    let mut job = base_job(6, "demo");
    job.running = true;
    job.last_ping = Some(1);
    store.queue.push(job);
    let armed = jobqueue::waiter::WaitGuard {
        done: false,
        id: 6,
        w_id: "demo".to_string(),
        username: "alice".to_string(),
    };
    assert_eq!(jobqueue::waiter::guard_fire(&mut store, &armed, 10), Some(6));
    assert!(store.queue[0].canceled);
    assert_eq!(store.queue[0].canceled_reason.as_deref(), Some("http connection broke"));

    let disarmed = jobqueue::waiter::WaitGuard {
        done: true,
        id: 6,
        w_id: "demo".to_string(),
        username: "alice".to_string(),
    };
    assert_eq!(jobqueue::waiter::guard_fire(&mut store, &disarmed, 10), None);
}

// Resuming as the path owner needs no signature but does need ownership.
#[test]
fn resume_as_owner_checks_the_path() {
    let mut store = Store::new();
    let mut flow = base_job(1, "demo");
    flow.kind = JobKind::Flow;
    flow.running = true;
    flow.suspend = 1;
    flow.script_path = Some("u/alice/myflow".to_string());
    flow.flow_status = Some(FlowStatus {
        step: 0,
        modules: vec![FlowStatusModule::WaitingForEvents { id: "a".to_string(), job: 2, count: 1 }],
        approval_conditions: None,
    });
    store.queue.push(flow);

    let eve = AuthedApprover {
        username: "eve".to_string(),
        email: "eve@example.com".to_string(),
        is_admin: false,
        groups: vec![],
    };
    match jobqueue::suspend::resume_suspended_flow_as_owner(&mut store, 1, &eve, "null".to_string())
    {
        Err(ApiError::NotAuthorized(_)) => {}
        other => panic!("a non-owner is rejected, got {:?}", other),
    }
    assert_eq!(store.queue[0].suspend, 1);

    let alice = AuthedApprover {
        username: "alice".to_string(),
        email: "alice@example.com".to_string(),
        is_admin: false,
        groups: vec![],
    };
    assert_eq!(
        jobqueue::suspend::resume_suspended_flow_as_owner(&mut store, 1, &alice, "null".to_string()),
        Ok(201)
    );
    assert_eq!(store.queue[0].suspend, 0);
    assert_eq!(store.resume_jobs.len(), 1);
    assert_eq!(store.resume_jobs[0].approver.as_deref(), Some("alice"));
}

// The approval page lists who approved so far.
#[test]
fn approval_page_lists_approvers() {
    let mut store = Store::new();
    let mut flow = base_job(1, "demo");
    flow.kind = JobKind::Flow;
    flow.running = true;
    flow.suspend = 2;
    flow.flow_status = Some(FlowStatus {
        step: 0,
        modules: vec![FlowStatusModule::WaitingForEvents { id: "a".to_string(), job: 2, count: 2 }],
        approval_conditions: None,
    });
    store.queue.push(flow);
    let mut step = base_job(2, "demo");
    step.parent_job = Some(1);
    store.queue.push(step);

    let key = "k".to_string();
    let w = "demo".to_string();
    let sig = create_signature("k", 2, 1, &Some("carol".to_string()));
    let r = jobqueue::suspend::resume_suspended_job(
        &mut store,
        &key,
        &w,
        2,
        1,
        &sig,
        Some("carol".to_string()),
        None,
        true,
        "null".to_string(),
    );
    assert_eq!(r, Ok(201));

    let page_sig = create_signature("k", 2, 9, &None);
    let (flow_id, approvers) = jobqueue::suspend::get_suspended_job_flow(
        &store, &key, &w, 2, 9, &page_sig, None, None,
    )
    .unwrap();
    assert_eq!(flow_id, 1);
    assert_eq!(approvers.len(), 1);
    assert_eq!(approvers[0].approver, "carol");
    assert_eq!(approvers[0].resume_id, 1);
}

// A progress poll reports new logs past the offset and the running state.
#[test]
fn job_update_reports_progress() {
    let mut store = Store::new();
    let mut job = base_job(4, "demo");
    job.created_by = "anonymous".to_string();
    job.running = true;
    job.last_ping = Some(1);
    store.queue.push(job);
    store
        .job_logs
        .push(jobqueue::store::JobLogRow { job_id: 4, logs: "hello world".to_string() });

    let w = "demo".to_string();
    let u = jobqueue::waiter::get_job_update(&store, 4, &w, false, false, 6).unwrap();
    assert_eq!(u.running, Some(true));
    assert_eq!(u.completed, None);
    assert_eq!(u.new_logs, "world");
    assert_eq!(u.log_offset, 11);

    // A caller already aware the job runs gets no flag.
    let u2 = jobqueue::waiter::get_job_update(&store, 4, &w, true, true, 0).unwrap();
    assert_eq!(u2.running, None);
    assert_eq!(u2.new_logs, "hello world");

    // An anonymous caller may not see another user's job.
    store.queue[0].created_by = "alice".to_string();
    match jobqueue::waiter::get_job_update(&store, 4, &w, false, false, 0) {
        Err(ApiError::BadRequest(_)) => {}
        other => panic!("anonymous peeking is rejected, got {:?}", other.map(|u| u.log_offset)),
    }

    match jobqueue::waiter::get_job_update(&store, 99, &w, true, false, 0) {
        Err(ApiError::NotFound(_)) => {}
        other => panic!("an unknown id is not found, got {:?}", other.map(|u| u.log_offset)),
    }
}

// The queue counters split pending-due rows from suspended ones.
#[test]
fn queue_counters() {
    let mut store = Store::new();
    store.queue.push(base_job(1, "demo"));
    let mut running = base_job(2, "demo");
    running.running = true;
    store.queue.push(running);
    let mut suspended = base_job(3, "demo");
    suspended.running = true;
    suspended.suspend = 2;
    store.queue.push(suspended);
    let mut later = base_job(4, "demo");
    later.scheduled_for = 10_000;
    store.queue.push(later);
    store.queue.push(base_job(5, "other"));

    let w = "demo".to_string();
    assert_eq!(jobqueue::waiter::count_queue_jobs(&store, &w, false, 100), (1, 1));
    assert_eq!(jobqueue::waiter::count_queue_jobs(&store, &w, true, 100), (2, 1));
    assert_eq!(jobqueue::waiter::count_queue_jobs(&store, &w, false, 20_000), (2, 1));
}

// A push without an explicit id draws a fresh one per job.
#[test]
fn push_new_job_draws_fresh_ids() {
    let mut store = Store::new();
    let policy = TagPolicy { scope_tags: None, global_tags: vec![], per_workspace_tags: vec![] };
    let mk = || PushRequest {
        job_id: 0,
        workspace_id: "demo".to_string(),
        kind: JobKind::Noop,
        script_path: None,
        args: "{}".to_string(),
        tag_override: None,
        default_tag: None,
        language_tag: "deno".to_string(),
        created_by: "alice".to_string(),
        email: "alice@example.com".to_string(),
        on_behalf_of: None,
        scheduled_at: None,
        scheduled_in_ms: None,
        parent_job: None,
        same_worker: false,
        is_flow_step: false,
        concurrency_key: None,
        flow_status: None,
    };
    let a = jobqueue::push::push_new_job(&mut store, &policy, mk(), 0).unwrap();
    let b = jobqueue::push::push_new_job(&mut store, &policy, mk(), 0).unwrap();
    assert_ne!(a, b);
    assert_eq!(store.queue.len(), 2);
    assert_eq!(store.queue[0].id, a);
    assert_eq!(store.queue[1].id, b);
}

// A job is fetched from whichever table it lives in; terminal form first.
#[test]
fn get_job_finds_either_table() {
    let mut store = Store::new();
    store.queue.push(base_job(1, "demo"));
    let w = "demo".to_string();
    match jobqueue::waiter::get_job(&store, 1, &w) {
        Ok(jobqueue::waiter::JobRow::Queued(q)) => assert_eq!(q.id, 1),
        _ => panic!("a pending job is found in the queue"),
    }
    jobqueue::worker::claim_job(&mut store, &vec!["deno".to_string()], 5);
    jobqueue::worker::complete_job(&mut store, 1, "\"ok\"".to_string(), true, 10).unwrap();
    match jobqueue::waiter::get_job(&store, 1, &w) {
        Ok(jobqueue::waiter::JobRow::Completed(c)) => {
            assert_eq!(c.id, 1);
            assert!(c.success);
            assert_eq!(c.duration_ms, 5);
        }
        _ => panic!("a terminal job is found in the completed table"),
    }
    match jobqueue::waiter::get_job(&store, 9, &w) {
        Err(ApiError::NotFound(_)) => {}
        _ => panic!("an unknown id is not found"),
    }
}
