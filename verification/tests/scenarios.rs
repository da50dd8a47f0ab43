use jobqueue::cancel::{cancel_job_api, cancel_jobs};
use jobqueue::errors::ApiError;
use jobqueue::flow::{FlowStatus, FlowStatusModule};
use jobqueue::job::{JobKind, QueuedJob};
use jobqueue::push::{begin_suspension, push_job, resume_waiting_module, PushRequest, TagPolicy};
use jobqueue::reaper::{handle_zombie_flows, handle_zombie_jobs, reap_parallel_locks};
use jobqueue::signature::create_signature;
use jobqueue::store::{ConcurrencyKeyRow, CounterRow, MonitorLockRow, Store};
use jobqueue::suspend::resume_suspended_job;

fn base_job(id: u128, w: &str) -> QueuedJob {
    QueuedJob {
        id,
        workspace_id: w.to_string(),
        kind: JobKind::Script,
        script_path: Some("u/admin/test".to_string()),
        args: "{}".to_string(),
        tag: "deno".to_string(),
        created_by: "admin".to_string(),
        email: "admin@example.com".to_string(),
        permissioned_as: "u/admin".to_string(),
        scheduled_for: 0,
        running: false,
        started_at: None,
        last_ping: None,
        suspend: 0,
        suspend_until: None,
        same_worker: false,
        canceled: false,
        canceled_by: None,
        canceled_reason: None,
        parent_job: None,
        schedule_path: None,
        is_flow_step: false,
        flow_status: None,
    }
}

fn suspended_flow_store(flow_id: u128, step_job: u128, count: u32) -> Store {
    let mut store = Store::new();
    let mut flow = base_job(flow_id, "demo");
    flow.kind = JobKind::Flow;
    flow.running = true;
    flow.suspend = count as i64;
    flow.flow_status = Some(FlowStatus {
        step: 0,
        modules: vec![FlowStatusModule::WaitingForEvents { id: "a".to_string(), job: step_job, count }],
        approval_conditions: None,
    });
    store.queue.push(flow);
    let mut step = base_job(step_job, "demo");
    step.parent_job = Some(flow_id);
    step.is_flow_step = true;
    store.queue.push(step);
    store
}

// A zombie script job is flipped back to pending by one reaper pass, its
// concurrency slot released and a restart note logged.
#[test]
fn zombie_script_restarted_and_slot_released() {
    let mut store = Store::new();
    let id: u128 = 7;
    let mut job = base_job(id, "demo");
    job.running = true;
    job.started_at = Some(10);
    job.last_ping = Some(20);
    store.queue.push(job);
    store
        .concurrency_keys
        .push(ConcurrencyKeyRow { job_id: id, key: "slot".to_string() });
    store.counters.push(CounterRow { key: "slot".to_string(), job_uuids: vec![id, 99] });

    let now: u64 = 1_000_000;
    let (restarted, timed_out) = handle_zombie_jobs(&mut store, now, 30_000, true);
    assert_eq!(restarted, vec![id]);
    assert!(timed_out.is_empty());
    assert_eq!(store.queue.len(), 1);
    assert!(!store.queue[0].running);
    assert!(store.queue[0].started_at.is_none());
    // The counter set containing the id no longer does; other ids stay.
    assert_eq!(store.counters[0].job_uuids, vec![99]);
    // The job is claimable again: pending, not canceled, due.
    assert!(!store.queue[0].canceled);
    // Its log holds a restart note.
    assert_eq!(store.job_logs.len(), 1);
    assert_eq!(store.job_logs[0].job_id, id);
    assert!(store.job_logs[0].logs.contains("Restarted job"));
}

// A worker-bound zombie is not restarted: it is force-completed as failed,
// citing the last ping and the timeout.
#[test]
fn zombie_same_worker_job_times_out() {
    let mut store = Store::new();
    let id: u128 = 8;
    let mut job = base_job(id, "demo");
    job.running = true;
    job.same_worker = true;
    job.last_ping = Some(20);
    store.queue.push(job);

    let (restarted, timed_out) = handle_zombie_jobs(&mut store, 1_000_000, 30_000, true);
    assert!(restarted.is_empty());
    assert_eq!(timed_out, vec![id]);
    assert!(store.queue.is_empty());
    assert_eq!(store.completed.len(), 1);
    assert!(!store.completed[0].success);
    assert!(!store.completed[0].canceled);
    assert!(store.completed[0].result.contains("Job timed out after no ping from job since 20"));
    assert!(store.completed[0].result.contains("ZOMBIE_JOB_TIMEOUT"));
}

// With the restart policy off, every stale script job is force-completed.
#[test]
fn zombie_restart_disabled_times_out_all() {
    let mut store = Store::new();
    let id: u128 = 9;
    let mut job = base_job(id, "demo");
    job.running = true;
    job.last_ping = Some(20);
    store.queue.push(job);

    let (restarted, timed_out) = handle_zombie_jobs(&mut store, 1_000_000, 30_000, false);
    assert!(restarted.is_empty());
    assert_eq!(timed_out, vec![id]);
    assert!(store.queue.is_empty());
}

// Resuming the same (job, resume id) twice: the first call succeeds with
// 201, the second fails with a conflict naming the duplicate.
#[test]
fn duplicate_resume_conflicts() {
    let mut store = suspended_flow_store(1, 2, 1);
    let key = "workspace-signing-key".to_string();
    let approver: Option<String> = None;
    let secret = create_signature(&key, 2, 5, &approver);
    let w = "demo".to_string();

    let first = resume_suspended_job(
        &mut store,
        &key,
        &w,
        2,
        5,
        &secret,
        None,
        None,
        true,
        "null".to_string(),
    );
    assert_eq!(first, Ok(201));

    let second = resume_suspended_job(
        &mut store,
        &key,
        &w,
        2,
        5,
        &secret,
        None,
        None,
        true,
        "null".to_string(),
    );
    match second {
        Err(ApiError::Conflict(m)) => assert!(m.contains("already sent")),
        other => panic!("expected a conflict, got {:?}", other),
    }
}

// The suspend countdown never drops below zero, even when approvals arrive
// faster than the orchestrator consumes them.
#[test]
fn suspend_never_negative_under_racing_approvals() {
    let mut store = suspended_flow_store(1, 2, 1);
    let key = "workspace-signing-key".to_string();
    let w = "demo".to_string();
    for rid in [5u32, 6, 7] {
        let secret = create_signature(&key, 2, rid, &None);
        let _ = resume_suspended_job(
            &mut store,
            &key,
            &w,
            2,
            rid,
            &secret,
            None,
            None,
            true,
            "null".to_string(),
        );
        assert!(store.queue[0].suspend >= 0);
    }
    assert_eq!(store.queue[0].suspend, 0);
}

// Canceling a job already in the terminal table reports an idempotent
// "already completed" message, not an error.
#[test]
fn cancel_already_completed_is_a_message() {
    let mut store = Store::new();
    let id: u128 = 0x00112233445566778899aabbccddeeff;
    let mut job = base_job(id, "demo");
    job.running = true;
    job.last_ping = Some(20);
    store.queue.push(job);
    let _ = handle_zombie_jobs(&mut store, 1_000_000, 30_000, false);
    assert!(store.queue.is_empty());

    let username = "admin".to_string();
    let w = "demo".to_string();
    let r = cancel_job_api(&mut store, &username, None, id, &w, false, 2_000_000);
    let msg = r.expect("an already completed job yields a message");
    assert_eq!(
        msg,
        "queued job id 00112233-4455-6677-8899-aabbccddeeff is already completed"
    );
}

// Canceling an id absent from both tables is reported missing.
#[test]
fn cancel_unknown_job_is_not_found() {
    let mut store = Store::new();
    let username = "admin".to_string();
    let w = "demo".to_string();
    let r = cancel_job_api(&mut store, &username, None, 42, &w, false, 0);
    match r {
        Err(ApiError::NotFound(m)) => assert!(m.contains("does not exist")),
        other => panic!("expected not found, got {:?}", other),
    }
}

// Tampering with the approver while keeping the original signature fails
// verification; it is never a silent authorization bypass.
#[test]
fn tampered_approver_fails_verification() {
    let mut store = suspended_flow_store(1, 2, 1);
    let key = "workspace-signing-key".to_string();
    let w = "demo".to_string();
    let secret = create_signature(&key, 2, 5, &Some("alice".to_string()));

    let tampered = resume_suspended_job(
        &mut store,
        &key,
        &w,
        2,
        5,
        &secret,
        Some("mallory".to_string()),
        None,
        true,
        "null".to_string(),
    );
    match tampered {
        Err(ApiError::BadRequest(m)) => assert_eq!(m, "Invalid signature"),
        other => panic!("expected a bad request, got {:?}", other),
    }
    assert_eq!(store.queue[0].suspend, 1);
    assert!(store.resume_jobs.is_empty());

    let genuine = resume_suspended_job(
        &mut store,
        &key,
        &w,
        2,
        5,
        &secret,
        Some("alice".to_string()),
        None,
        true,
        "null".to_string(),
    );
    assert_eq!(genuine, Ok(201));
}

// Two approvals drain a two-approval suspension one step at a time, and the
// waiting module then transitions out of waiting.
#[test]
fn two_approvals_resume_the_flow() {
    let mut store = Store::new();
    let policy = TagPolicy {
        scope_tags: None,
        global_tags: vec!["flow".to_string()],
        per_workspace_tags: vec![],
    };
    let flow_id: u128 = 1;
    let step_job: u128 = 2;
    let req = PushRequest {
        job_id: flow_id,
        workspace_id: "demo".to_string(),
        kind: JobKind::Flow,
        script_path: Some("u/admin/flow".to_string()),
        args: "{}".to_string(),
        tag_override: None,
        default_tag: Some("flow".to_string()),
        language_tag: "deno".to_string(),
        created_by: "admin".to_string(),
        email: "admin@example.com".to_string(),
        on_behalf_of: None,
        scheduled_at: None,
        scheduled_in_ms: None,
        parent_job: None,
        same_worker: false,
        is_flow_step: false,
        concurrency_key: None,
        flow_status: Some(FlowStatus {
            step: 0,
            modules: vec![FlowStatusModule::WaitingForPriorSteps { id: "a".to_string() }],
            approval_conditions: None,
        }),
    };
    assert_eq!(push_job(&mut store, &policy, req, 100), Ok(flow_id));
    let mut step = base_job(step_job, "demo");
    step.parent_job = Some(flow_id);
    step.is_flow_step = true;
    store.queue.push(step);

    // The orchestrator suspends the step on two approvals.
    begin_suspension(&mut store, flow_id, step_job, 2).expect("suspension begins");
    assert_eq!(store.queue[0].suspend, 2);

    let key = "workspace-signing-key".to_string();
    let w = "demo".to_string();
    let a = create_signature(&key, step_job, 1, &None);
    assert_eq!(
        resume_suspended_job(&mut store, &key, &w, step_job, 1, &a, None, None, true, "1".to_string()),
        Ok(201)
    );
    assert_eq!(store.queue[0].suspend, 1);
    match &store.queue[0].flow_status.as_ref().unwrap().modules[0] {
        FlowStatusModule::WaitingForEvents { .. } => {}
        other => panic!("still waiting, got {:?}", std::mem::discriminant(other)),
    }

    let b = create_signature(&key, step_job, 2, &None);
    assert_eq!(
        resume_suspended_job(&mut store, &key, &w, step_job, 2, &b, None, None, true, "2".to_string()),
        Ok(201)
    );
    assert_eq!(store.queue[0].suspend, 0);

    // The orchestrator observes the drained countdown and moves on.
    resume_waiting_module(&mut store, flow_id).expect("the waiting module resumes");
    match &store.queue[0].flow_status.as_ref().unwrap().modules[0] {
        FlowStatusModule::InProgress { job, .. } => assert_eq!(*job, step_job),
        _ => panic!("the waiting module did not transition"),
    }
}

// A rejection zeroes the countdown immediately.
#[test]
fn rejection_short_circuits_the_wait() {
    let mut store = suspended_flow_store(1, 2, 3);
    let key = "workspace-signing-key".to_string();
    let w = "demo".to_string();
    let secret = create_signature(&key, 2, 9, &None);
    let r = jobqueue::suspend::cancel_suspended_job(
        &mut store,
        &key,
        &w,
        2,
        9,
        &secret,
        None,
        None,
        "null".to_string(),
    );
    assert_eq!(r, Ok(201));
    assert_eq!(store.queue[0].suspend, 0);
    assert!(!store.resume_jobs[0].approved);
}

// A never-started zombie flow is restarted cheaply: the row stays pending
// and is not canceled.
#[test]
fn zombie_flow_waiting_for_prior_steps_restarts() {
    let mut store = Store::new();
    let mut flow = base_job(11, "demo");
    flow.kind = JobKind::Flow;
    flow.running = true;
    flow.last_ping = Some(10);
    flow.flow_status = Some(FlowStatus {
        step: 0,
        modules: vec![FlowStatusModule::WaitingForPriorSteps { id: "a".to_string() }],
        approval_conditions: None,
    });
    store.queue.push(flow);

    let (restarted, canceled) = handle_zombie_flows(&mut store, 1_000_000, 60_000);
    assert_eq!(restarted, vec![11]);
    assert!(canceled.is_empty());
    assert_eq!(store.queue.len(), 1);
    assert!(!store.queue[0].running);
    assert!(!store.queue[0].canceled);
    assert!(store.completed.is_empty());
}

// A zombie flow hung between two steps is canceled with a reason naming the
// hang.
#[test]
fn zombie_flow_between_steps_is_canceled() {
    let mut store = Store::new();
    let mut flow = base_job(12, "demo");
    flow.kind = JobKind::Flow;
    flow.running = true;
    flow.last_ping = Some(10);
    flow.flow_status = Some(FlowStatus {
        step: 0,
        modules: vec![FlowStatusModule::InProgress { id: "a".to_string(), job: 77 }],
        approval_conditions: None,
    });
    store.queue.push(flow);

    let (restarted, canceled) = handle_zombie_flows(&mut store, 1_000_000, 60_000);
    assert!(restarted.is_empty());
    assert_eq!(canceled, vec![12]);
    assert!(store.queue.is_empty());
    assert_eq!(store.completed.len(), 1);
    assert!(store.completed[0].canceled);
    assert!(store.completed[0]
        .canceled_reason
        .as_ref()
        .unwrap()
        .contains("hanging in between 2 steps"));
}

// A stale parallel-branch lock is dropped, and its still-running parent flow
// canceled for the stalled branch.
#[test]
fn stale_parallel_lock_cancels_parent() {
    let mut store = Store::new();
    let mut parent = base_job(21, "demo");
    parent.kind = JobKind::Flow;
    parent.running = true;
    store.queue.push(parent);
    store.monitor_locks.push(MonitorLockRow { parent_flow_id: 21, job_id: 22, last_ping: Some(5) });
    store.monitor_locks.push(MonitorLockRow { parent_flow_id: 33, job_id: 34, last_ping: None });

    let dropped = reap_parallel_locks(&mut store, 1_000_000, 60_000);
    assert_eq!(dropped.len(), 1);
    assert_eq!(store.monitor_locks.len(), 1);
    assert_eq!(store.monitor_locks[0].parent_flow_id, 33);
    assert!(store.queue.is_empty());
    assert!(store.completed[0].canceled);
    let reason = store.completed[0].canceled_reason.as_ref().unwrap();
    assert!(reason.contains("parallel branch"));
    // The reason names the stalled branch.
    assert!(reason.contains("00000000-0000-0000-0000-000000000016"));
}

// A bulk cancel of five never-started jobs returns all five ids and removes
// them from the pending table in one pass.
#[test]
fn bulk_cancel_five_pending_jobs() {
    let mut store = Store::new();
    let ids: Vec<u128> = vec![1, 2, 3, 4, 5];
    for &id in &ids {
        store.queue.push(base_job(id, "demo"));
    }
    let username = "admin".to_string();
    let w = "demo".to_string();
    let mut canceled = cancel_jobs(&mut store, &ids, &username, &w, 500);
    canceled.sort();
    assert_eq!(canceled, ids);
    assert!(store.queue.is_empty());
    assert_eq!(store.completed.len(), 5);
    for cj in &store.completed {
        assert!(cj.canceled);
        assert!(!cj.success);
        assert_eq!(cj.result, "Job canceled: cancel all by admin");
        assert_eq!(cj.canceled_by.as_deref(), Some("admin"));
        assert_eq!(cj.canceled_reason.as_deref(), Some("cancel all"));
        assert_eq!(cj.duration_ms, 0);
        assert_eq!(cj.started_at, Some(500));
    }
}

// A stale running single-script flow is flow-like for the script reaper and
// yet no candidate of the flow pass: both passes leave it untouched.
#[test]
fn stale_singlescriptflow_is_left_untouched() {
    let mut store = Store::new();
    let mut row = base_job(41, "demo");
    row.kind = JobKind::SingleScriptFlow;
    row.running = true;
    row.last_ping = Some(10);
    store.queue.push(row);

    let (restarted, timed_out) = handle_zombie_jobs(&mut store, 1_000_000, 60_000, true);
    assert!(restarted.is_empty());
    assert!(timed_out.is_empty());
    let (flow_restarted, flow_canceled) = handle_zombie_flows(&mut store, 1_000_000, 60_000);
    assert!(flow_restarted.is_empty());
    assert!(flow_canceled.is_empty());
    assert_eq!(store.queue.len(), 1);
    assert!(store.queue[0].running);
    assert!(!store.queue[0].canceled);
    assert!(store.completed.is_empty());
}

// Canceling an id that only another workspace's terminal table holds is not
// found in this workspace, never "already completed".
#[test]
fn cancel_completed_in_other_workspace_is_not_found() {
    let mut store = Store::new();
    let q = base_job(7, "other");
    let done =
        jobqueue::job::completed_from_queued(q, 100, true, "1".to_string(), false, None, None);
    store.completed.push(done);
    let username = "admin".to_string();
    let w = "demo".to_string();
    match cancel_job_api(&mut store, &username, None, 7, &w, false, 200) {
        Err(ApiError::NotFound(m)) => assert!(m.contains("does not exist")),
        other => panic!("expected not found, got {:?}", other),
    }
    // In its own workspace the same id is reported already completed.
    let other_ws = "other".to_string();
    match cancel_job_api(&mut store, &username, None, 7, &other_ws, false, 200) {
        Ok(m) => assert!(m.contains("is already completed")),
        other => panic!("expected a message, got {:?}", other),
    }
}

// A flow node's result is read out of the running flow by the node's
// stable step name; a node whose job has not finished is not found.
#[test]
fn node_result_read_from_running_flow() {
    let mut store = Store::new();
    let mut flow = base_job(61, "demo");
    flow.kind = JobKind::Flow;
    flow.running = true;
    flow.last_ping = Some(50);
    flow.flow_status = Some(FlowStatus {
        step: 1,
        modules: vec![
            FlowStatusModule::Success { id: "a".to_string(), job: 62, approvers: vec![] },
            FlowStatusModule::InProgress { id: "b".to_string(), job: 63 },
        ],
        approval_conditions: None,
    });
    store.queue.push(flow);
    let done = jobqueue::job::completed_from_queued(
        base_job(62, "demo"),
        100,
        true,
        "42".to_string(),
        false,
        None,
        None,
    );
    store.completed.push(done);

    let w = "demo".to_string();
    assert_eq!(
        jobqueue::waiter::get_result_by_id_from_flow(&store, &w, 61, &"a".to_string()),
        Ok(("42".to_string(), true))
    );
    match jobqueue::waiter::get_result_by_id_from_flow(&store, &w, 61, &"b".to_string()) {
        Err(ApiError::NotFound(_)) => {}
        other => panic!("an unfinished node is not found, got {:?}", other),
    }
    let other_ws = "other".to_string();
    match jobqueue::waiter::get_result_by_id_from_flow(&store, &other_ws, 61, &"a".to_string()) {
        Err(ApiError::NotFound(_)) => {}
        other => panic!("another workspace sees nothing, got {:?}", other),
    }
}

// Every cancellation and resume state change leaves an audit record in the
// same transaction.
#[test]
fn state_changes_are_audited() {
    let mut store = suspended_flow_store(1, 2, 1);
    let key = "workspace-signing-key".to_string();
    let w = "demo".to_string();
    let secret = create_signature(&key, 2, 5, &None);
    resume_suspended_job(
        &mut store,
        &key,
        &w,
        2,
        5,
        &secret,
        None,
        None,
        true,
        "null".to_string(),
    )
    .unwrap();
    assert_eq!(store.audits.len(), 1);
    assert_eq!(store.audits[0].operation, "jobs.suspend_resume");
    assert_eq!(store.audits[0].username, "anonymous");
    assert_eq!(store.audits[0].job, 2);
    assert_eq!(store.audits[0].workspace_id, "demo");

    let username = "admin".to_string();
    // The running flow is only flagged, with an audit record.
    cancel_job_api(&mut store, &username, None, 1, &w, false, 100).unwrap();
    assert_eq!(store.audits.len(), 2);
    assert_eq!(store.audits[1].operation, "jobs.cancel");
    assert_eq!(store.audits[1].username, "admin");
    assert_eq!(store.audits[1].job, 1);

    // A force cancel is audited as such.
    cancel_job_api(&mut store, &username, None, 2, &w, true, 200).unwrap();
    assert_eq!(store.audits.len(), 3);
    assert_eq!(store.audits[2].operation, "jobs.force_cancel");
}

// A bulk cancel echoes an id no more often than it was requested: a
// trivially canceled id once, a flagged id once per repeated request, an
// unknown id never.
#[test]
fn bulk_cancel_bounds_echo_multiplicity() {
    let mut store = Store::new();
    store.queue.push(base_job(1, "demo"));
    let mut running = base_job(2, "demo");
    running.running = true;
    running.started_at = Some(10);
    running.last_ping = Some(10);
    store.queue.push(running);
    let username = "admin".to_string();
    let w = "demo".to_string();
    let jobs = vec![1u128, 1, 2, 2, 3];
    let uuids = cancel_jobs(&mut store, &jobs, &username, &w, 100);
    assert_eq!(uuids.iter().filter(|&&x| x == 1).count(), 1);
    assert_eq!(uuids.iter().filter(|&&x| x == 2).count(), 2);
    assert_eq!(uuids.iter().filter(|&&x| x == 3).count(), 0);
}

// A resume addressed to the wrong workspace does not find the parent flow
// and changes nothing.
#[test]
fn resume_in_wrong_workspace_is_not_found() {
    let mut store = suspended_flow_store(1, 2, 1);
    let key = "workspace-signing-key".to_string();
    let approver: Option<String> = None;
    let secret = create_signature(&key, 2, 5, &approver);
    let w = "elsewhere".to_string();
    match resume_suspended_job(
        &mut store,
        &key,
        &w,
        2,
        5,
        &secret,
        None,
        None,
        true,
        "null".to_string(),
    ) {
        Err(ApiError::NotFound(m)) => assert!(m.contains("parent flow job not found")),
        other => panic!("expected not found, got {:?}", other),
    }
    assert_eq!(store.queue[0].suspend, 1);
    assert!(store.resume_jobs.is_empty());
}

// The worker contract: claim, ping, observe a cooperative cancel, and
// complete; a canceled row is never claimed and its completion is recorded
// as canceled whatever the worker reports.
#[test]
fn worker_lifecycle_honors_cancellation() {
    let mut store = Store::new();
    let mut pending = base_job(1, "demo");
    pending.canceled = true;
    store.queue.push(pending);
    store.queue.push(base_job(2, "demo"));

    let tags = vec!["deno".to_string()];
    // The canceled row is skipped; the clean one is claimed.
    let claimed = jobqueue::worker::claim_job(&mut store, &tags, 100);
    assert_eq!(claimed, Some(2));
    let i = store.queue.iter().position(|q| q.id == 2).unwrap();
    assert!(store.queue[i].running);
    assert_eq!(store.queue[i].last_ping, Some(100));

    // A ping while running refreshes the liveness timestamp.
    assert_eq!(jobqueue::worker::ping_job(&mut store, 2, 200), Ok(false));
    assert_eq!(store.queue[i].last_ping, Some(200));

    // A cooperative cancel flags the row; the next ping reports it and does
    // not refresh.
    let username = "admin".to_string();
    let w = "demo".to_string();
    let r = cancel_job_api(&mut store, &username, Some("stop".to_string()), 2, &w, false, 300);
    assert!(r.is_ok());
    assert_eq!(jobqueue::worker::ping_job(&mut store, 2, 400), Ok(true));
    assert_eq!(store.queue[i].last_ping, Some(200));

    // The unwinding worker's completion is recorded as canceled and failed.
    jobqueue::worker::complete_job(&mut store, 2, "\"done\"".to_string(), true, 500).unwrap();
    let cj = store.completed.iter().find(|c| c.id == 2).unwrap();
    assert!(cj.canceled);
    assert!(!cj.success);
    assert_eq!(cj.canceled_reason.as_deref(), Some("stop"));

    // Nothing claimable is left: the canceled pending row stays unclaimed.
    assert_eq!(jobqueue::worker::claim_job(&mut store, &tags, 600), None);
}
