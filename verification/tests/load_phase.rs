use stress_tester::auth::{login_outcome, Session, User};
use stress_tester::dispatch::{plan_workers, run_load};
use stress_tester::outcome::{Aggregator, FailureKind, RequestOutcome, RequestResult};
use stress_tester::provision::{collect_identities, plan_identities, NamingScheme};
use stress_tester::worker::{deadline_reached, run_worker, SimEvent, WorkerAction, WorkerState};

fn session(id: &str, token: &str) -> Session {
    Session { identifier: id.to_string(), bearer_token: token.to_string(), issued_at: 0 }
}

fn ok_response(t: u64) -> SimEvent {
    SimEvent::Response { status: 200, started_at: t, duration: 10 }
}

#[test]
fn worker_with_budget_r_emits_exactly_r_outcomes() {
    let w = WorkerState::init(4, &session("u4", "tok"), 3);
    let events = vec![ok_response(1), ok_response(2), ok_response(3)];
    let (outcomes, fin) = run_worker(w, events);
    assert_eq!(outcomes.len(), 3);
    assert_eq!(fin.remaining, 0);
    assert_eq!(fin.next_action(), WorkerAction::Finished);
    assert!(outcomes.iter().all(|o| o.identity_id == 4));
}

#[test]
fn worker_outcomes_are_ordered_by_issue_time() {
    let w = WorkerState::init(0, &session("u0", "tok"), 4);
    let events = vec![
        ok_response(5),
        SimEvent::TransportFailed { started_at: 6, duration: 20000 },
        SimEvent::Response { status: 503, started_at: 8, duration: 2 },
        ok_response(8),
    ];
    let (outcomes, _) = run_worker(w, events);
    assert_eq!(outcomes.len(), 4);
    for pair in outcomes.windows(2) {
        assert!(pair[0].started_at <= pair[1].started_at);
    }
}

#[test]
fn expiry_with_successful_reauth_retries_once_and_succeeds() {
    let mut w = WorkerState::init(0, &session("u0", "stale"), 1);
    assert_eq!(w.next_action(), WorkerAction::Issue);
    let out = w.on_response(401, 1, 3);
    assert!(out.is_none());
    assert_eq!(w.next_action(), WorkerAction::Reauth);
    w.on_reauth_ok("fresh".to_string());
    assert_eq!(w.next_action(), WorkerAction::Issue);
    let out = w.on_response(200, 2, 4).unwrap();
    assert_eq!(out.result, RequestResult::Success { status: 200 });
    assert_eq!(w.next_action(), WorkerAction::Finished);
}

#[test]
fn expiry_with_failed_reauth_emits_auth_expired_and_continues() {
    let w = WorkerState::init(0, &session("u0", "stale"), 2);
    let events = vec![
        SimEvent::Response { status: 401, started_at: 1, duration: 3 },
        SimEvent::ReauthFailed,
        ok_response(5),
    ];
    let (outcomes, fin) = run_worker(w, events);
    assert_eq!(outcomes.len(), 2);
    assert_eq!(
        outcomes[0].result,
        RequestResult::Failure { kind: FailureKind::AuthExpired }
    );
    assert_eq!(outcomes[0].started_at, 1);
    assert_eq!(outcomes[1].result, RequestResult::Success { status: 200 });
    assert_eq!(fin.remaining, 0);
}

#[test]
fn second_expiry_after_the_single_retry_emits_auth_expired() {
    let w = WorkerState::init(0, &session("u0", "stale"), 1);
    let events = vec![
        SimEvent::Response { status: 401, started_at: 1, duration: 3 },
        SimEvent::ReauthOk { token: "fresh".to_string() },
        SimEvent::Response { status: 401, started_at: 2, duration: 3 },
    ];
    let (outcomes, fin) = run_worker(w, events);
    assert_eq!(outcomes.len(), 1);
    assert_eq!(
        outcomes[0].result,
        RequestResult::Failure { kind: FailureKind::AuthExpired }
    );
    assert_eq!(fin.remaining, 0);
    assert!(!fin.needs_reauth);
}

#[test]
fn stop_signal_halts_new_requests_promptly() {
    // Run-level deadline of 2 with a transport timeout of 20000: once the
    // clock reaches the deadline the stop flag is flipped and the worker
    // finishes instead of issuing any of its remaining 98 requests.
    assert!(!deadline_reached(1, 2));
    assert!(deadline_reached(2, 2));
    let w = WorkerState::init(0, &session("u0", "tok"), 100);
    let events = vec![
        SimEvent::Response { status: 200, started_at: 0, duration: 800 },
        SimEvent::Response { status: 200, started_at: 1, duration: 900 },
        SimEvent::Stop,
    ];
    let (outcomes, fin) = run_worker(w, events);
    assert_eq!(outcomes.len(), 2);
    assert!(fin.stopped);
    assert_eq!(fin.next_action(), WorkerAction::Finished);
    assert!(outcomes.iter().all(|o| o.started_at < 2));
}

#[test]
fn two_pooled_workers_times_five_requests_total_ten() {
    // Admin login with the scenario credentials and token.
    let admin = User::new("index", "index123");
    let admin_session = login_outcome(&admin, 200, "{\"token\":\"abc\"}", 0).unwrap();
    assert_eq!(admin_session.bearer_token, "abc");
    // Provision three identities; one creation fails server-side.
    let scheme = NamingScheme { prefix: "load".to_string(), password_suffix: "pw".to_string() };
    let requested = plan_identities(&scheme, 3);
    let created = vec![true, true, false];
    let mut ids = collect_identities(&requested, &created).unwrap();
    assert_eq!(ids.len(), 2);
    // Log the pooled identities in.
    for (i, ti) in ids.iter_mut().enumerate() {
        let body = format!("{{\"token\":\"tok{}\"}}", i);
        let s = login_outcome(&ti.credentials, 200, &body, 1).unwrap();
        ti.session = Some(s);
    }
    // Dispatch: one worker per pooled identity, never per requested identity.
    let workers = plan_workers(&ids, 5);
    assert_eq!(workers.len(), 2);
    let scripts = vec![
        (0u64..5).map(|t| ok_response(t)).collect::<Vec<_>>(),
        (0u64..5).map(|t| ok_response(t)).collect::<Vec<_>>(),
    ];
    let (summary, outcomes) = run_load(workers, scripts);
    assert_eq!(summary.total, 10);
    assert_eq!(summary.succeeded, 10);
    assert_eq!(summary.failed_http, 0);
    assert_eq!(summary.failed_auth_expired, 0);
    assert_eq!(summary.failed_transport, 0);
    assert!(summary.is_final);
    assert_eq!(outcomes.len(), 10);
}

#[test]
fn summary_buckets_failures_by_kind() {
    let w = WorkerState::init(0, &session("u0", "tok"), 4);
    let events = vec![
        ok_response(1),
        SimEvent::Response { status: 503, started_at: 2, duration: 5 },
        SimEvent::TransportFailed { started_at: 3, duration: 20000 },
        SimEvent::Response { status: 401, started_at: 4, duration: 5 },
        SimEvent::ReauthFailed,
    ];
    let (summary, outcomes) = run_load(vec![w], vec![events]);
    assert_eq!(outcomes.len(), 4);
    assert_eq!(summary.total, 4);
    assert_eq!(summary.succeeded, 1);
    assert_eq!(summary.failed_http, 1);
    assert_eq!(summary.failed_transport, 1);
    assert_eq!(summary.failed_auth_expired, 1);
}

fn success_outcome(duration: u64) -> RequestOutcome {
    RequestOutcome {
        identity_id: 0,
        started_at: 0,
        duration,
        result: RequestResult::Success { status: 200 },
    }
}

#[test]
fn percentiles_are_nearest_rank() {
    let mut agg = Aggregator::new();
    for d in [7u64, 1, 9, 3, 5, 10, 2, 8, 4, 6] {
        agg.record(&success_outcome(d));
    }
    let summary = agg.finalize(true);
    assert_eq!(summary.total, 10);
    assert_eq!(summary.p50, 5);
    assert_eq!(summary.p95, 10);
    assert_eq!(summary.p99, 10);
    assert!(summary.is_final);
}

#[test]
fn early_summary_is_marked_non_final() {
    let mut agg = Aggregator::new();
    agg.record(&success_outcome(4));
    let partial = agg.finalize(false);
    assert!(!partial.is_final);
    assert_eq!(partial.total, 1);
    assert_eq!(partial.p50, 4);
}

#[test]
fn empty_run_summary_has_zero_percentiles() {
    let agg = Aggregator::new();
    let summary = agg.finalize(true);
    assert_eq!(summary.total, 0);
    assert_eq!(summary.p50, 0);
    assert_eq!(summary.p95, 0);
    assert_eq!(summary.p99, 0);
}
