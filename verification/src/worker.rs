//! One worker: the unit that drives requests for a single identity.
//!
//! A worker is a state machine. The runtime around it (or a scripted driver,
//! for deterministic replay) repeatedly asks `next_action`, performs the
//! request or the re-authentication, and feeds the result back in; every
//! completed request attempt emits exactly one `RequestOutcome`. A 401 on a
//! fresh attempt triggers exactly one re-authentication and at most one retry
//! of that single request; a second expiry, or a failed re-authentication,
//! emits an `AuthExpired` outcome and the worker moves on. The stop flag is
//! observed at the top of the loop: once set, no new request is issued.

use crate::auth::Session;
use crate::outcome::{FailureKind, RequestOutcome, RequestResult};
use vstd::prelude::*;

verus! {

/// What a worker wants to do next.
#[derive(Clone, Copy, PartialEq, Eq, Structural, Debug)]
pub enum WorkerAction {
    /// Issue the next authorized request.
    Issue,
    /// Re-authenticate before retrying the current request.
    Reauth,
    /// Stop: budget exhausted or cancelled.
    Finished,
}

/// The state of one worker between steps.
pub struct WorkerState {
    pub identity_id: u64,
    /// The bearer token requests are currently issued with.
    pub token: String,
    /// How many requests are still owed an outcome.
    pub remaining: u64,
    /// The current request has already been retried once after expiry.
    pub retried: bool,
    /// A 401 arrived on a fresh attempt; re-authentication is owed.
    pub needs_reauth: bool,
    /// Issue time of the attempt that hit the 401, kept for its outcome.
    pub pending_started: u64,
    /// Duration of the attempt that hit the 401, kept for its outcome.
    pub pending_duration: u64,
    /// The issue time of the last emitted outcome.
    pub last_started: u64,
    /// The cooperative cancellation flag.
    pub stopped: bool,
}

impl WorkerState {
    pub open spec fn wf(&self) -> bool {
        &&& self.token@.len() > 0
        &&& (self.needs_reauth ==> !self.retried && self.pending_started >= self.last_started)
    }
}

/// The action a state calls for: cancelled or exhausted workers are finished,
/// an owed re-authentication comes before anything else, and otherwise the
/// next request is issued.
pub open spec fn spec_next_action(s: WorkerState) -> WorkerAction {
    if s.stopped || s.remaining == 0 {
        WorkerAction::Finished
    } else if s.needs_reauth {
        WorkerAction::Reauth
    } else {
        WorkerAction::Issue
    }
}

/// How a completed attempt is classified: 2xx succeeds; a 401 after the one
/// permitted retry is an expired session; anything else is an HTTP error.
/// (A 401 on a fresh attempt never reaches this point: it is retried.)
pub open spec fn classify_response(status: u16, retried: bool) -> RequestResult {
    if 200 <= status < 300 {
        RequestResult::Success { status }
    } else if status == 401 && retried {
        RequestResult::Failure { kind: FailureKind::AuthExpired }
    } else {
        RequestResult::Failure { kind: FailureKind::HttpError { status } }
    }
}

/// State change and outcome when a response arrives for an issued request.
pub open spec fn spec_on_response(s: WorkerState, status: u16, started_at: u64, duration: u64) -> (
    WorkerState,
    Option<RequestOutcome>,
) {
    if status == 401 && !s.retried {
        (
            WorkerState {
                needs_reauth: true,
                pending_started: started_at,
                pending_duration: duration,
                ..s
            },
            None,
        )
    } else {
        (
            WorkerState {
                remaining: (s.remaining - 1) as u64,
                retried: false,
                needs_reauth: false,
                last_started: started_at,
                ..s
            },
            Some(
                RequestOutcome {
                    identity_id: s.identity_id,
                    started_at,
                    duration,
                    result: classify_response(status, s.retried),
                },
            ),
        )
    }
}

/// State change and outcome when the transport itself failed; the transport
/// is never retried, so the attempt is complete.
pub open spec fn spec_on_transport(s: WorkerState, started_at: u64, duration: u64) -> (
    WorkerState,
    RequestOutcome,
) {
    (
        WorkerState {
            remaining: (s.remaining - 1) as u64,
            retried: false,
            needs_reauth: false,
            last_started: started_at,
            ..s
        },
        RequestOutcome {
            identity_id: s.identity_id,
            started_at,
            duration,
            result: RequestResult::Failure { kind: FailureKind::Transport },
        },
    )
}

/// State change when re-authentication produced a fresh session token: the
/// single retry of the pending request is now owed.
pub open spec fn spec_on_reauth_ok(s: WorkerState, token: String) -> WorkerState {
    WorkerState { token, retried: true, needs_reauth: false, ..s }
}

/// State change and outcome when re-authentication failed: the pending
/// request completes as `AuthExpired` and the worker continues.
pub open spec fn spec_on_reauth_failed(s: WorkerState) -> (WorkerState, RequestOutcome) {
    (
        WorkerState {
            remaining: (s.remaining - 1) as u64,
            retried: false,
            needs_reauth: false,
            last_started: s.pending_started,
            ..s
        },
        RequestOutcome {
            identity_id: s.identity_id,
            started_at: s.pending_started,
            duration: s.pending_duration,
            result: RequestResult::Failure { kind: FailureKind::AuthExpired },
        },
    )
}

impl WorkerState {
    /// A fresh worker for one logged-in identity with a request budget.
    pub fn init(identity_id: u64, session: &Session, requests: u64) -> (w: WorkerState)
        requires
            session.wf(),
        ensures
            w.wf(),
            w.identity_id == identity_id,
            w.token@ == session.bearer_token@,
            w.remaining == requests,
            !w.retried && !w.needs_reauth && !w.stopped,
            w.last_started == 0,
    {
        WorkerState {
            identity_id,
            token: session.bearer_token.clone(),
            remaining: requests,
            retried: false,
            needs_reauth: false,
            pending_started: 0,
            pending_duration: 0,
            last_started: 0,
            stopped: false,
        }
    }

    /// What this worker should do next.
    pub fn next_action(&self) -> (a: WorkerAction)
        ensures
            a == spec_next_action(*self),
    {
        if self.stopped || self.remaining == 0 {
            WorkerAction::Finished
        } else if self.needs_reauth {
            WorkerAction::Reauth
        } else {
            WorkerAction::Issue
        }
    }

    /// Observes the cooperative stop signal: from here on no new request is
    /// issued.
    pub fn on_stop(&mut self)
        requires
            old(self).wf(),
        ensures
            final(self).wf(),
            *final(self) == (WorkerState { stopped: true, ..*old(self) }),
            spec_next_action(*final(self)) == WorkerAction::Finished,
    {
        self.stopped = true;
    }

    /// Feeds in the response of the request this worker just issued.
    pub fn on_response(&mut self, status: u16, started_at: u64, duration: u64) -> (out: Option<
        RequestOutcome,
    >)
        requires
            old(self).wf(),
            spec_next_action(*old(self)) == WorkerAction::Issue,
            started_at >= old(self).last_started,
        ensures
            final(self).wf(),
            (*final(self), out) == spec_on_response(*old(self), status, started_at, duration),
            final(self).identity_id == old(self).identity_id,
            final(self).remaining >= old(self).remaining - 1,
            final(self).last_started >= old(self).last_started,
            out matches Some(o) ==> o.started_at == started_at && o.started_at
                >= old(self).last_started && final(self).last_started == o.started_at
                && o.identity_id == old(self).identity_id && final(self).remaining
                == old(self).remaining - 1,
            out is None ==> final(self).remaining == old(self).remaining,
    {
        if status == 401 && !self.retried {
            self.needs_reauth = true;
            self.pending_started = started_at;
            self.pending_duration = duration;
            None
        } else {
            let ghost retried0 = self.retried;
            let o = RequestOutcome {
                identity_id: self.identity_id,
                started_at,
                duration,
                result: if 200 <= status && status < 300 {
                    RequestResult::Success { status }
                } else if status == 401 {
                    RequestResult::Failure { kind: FailureKind::AuthExpired }
                } else {
                    RequestResult::Failure { kind: FailureKind::HttpError { status } }
                },
            };
            proof {
                assert(o.result == classify_response(status, retried0));
            }
            self.remaining = self.remaining - 1;
            self.retried = false;
            self.needs_reauth = false;
            self.last_started = started_at;
            Some(o)
        }
    }

    /// Feeds in a transport failure of the request this worker just issued.
    pub fn on_transport_failed(&mut self, started_at: u64, duration: u64) -> (out: RequestOutcome)
        requires
            old(self).wf(),
            spec_next_action(*old(self)) == WorkerAction::Issue,
            started_at >= old(self).last_started,
        ensures
            final(self).wf(),
            (*final(self), out) == spec_on_transport(*old(self), started_at, duration),
            final(self).identity_id == old(self).identity_id,
            out.started_at == started_at && out.started_at >= old(self).last_started,
            final(self).last_started == out.started_at,
            out.identity_id == old(self).identity_id,
            final(self).remaining == old(self).remaining - 1,
    {
        self.remaining = self.remaining - 1;
        self.retried = false;
        self.needs_reauth = false;
        self.last_started = started_at;
        RequestOutcome {
            identity_id: self.identity_id,
            started_at,
            duration,
            result: RequestResult::Failure { kind: FailureKind::Transport },
        }
    }

    /// Feeds in the fresh session token of a successful re-authentication.
    pub fn on_reauth_ok(&mut self, token: String)
        requires
            old(self).wf(),
            spec_next_action(*old(self)) == WorkerAction::Reauth,
            token@.len() > 0,
        ensures
            final(self).wf(),
            *final(self) == spec_on_reauth_ok(*old(self), token),
            final(self).identity_id == old(self).identity_id,
            final(self).remaining == old(self).remaining,
            final(self).last_started == old(self).last_started,
            spec_next_action(*final(self)) == WorkerAction::Issue,
    {
        self.token = token;
        self.retried = true;
        self.needs_reauth = false;
    }

    /// Feeds in a failed re-authentication: the pending request completes as
    /// `AuthExpired` and the worker continues with the next one.
    pub fn on_reauth_failed(&mut self) -> (out: RequestOutcome)
        requires
            old(self).wf(),
            spec_next_action(*old(self)) == WorkerAction::Reauth,
        ensures
            final(self).wf(),
            (*final(self), out) == spec_on_reauth_failed(*old(self)),
            final(self).identity_id == old(self).identity_id,
            out.identity_id == old(self).identity_id,
            out.started_at >= old(self).last_started,
            final(self).last_started == out.started_at,
            final(self).remaining == old(self).remaining - 1,
            out.result == (RequestResult::Failure { kind: FailureKind::AuthExpired }),
    {
        let out = RequestOutcome {
            identity_id: self.identity_id,
            started_at: self.pending_started,
            duration: self.pending_duration,
            result: RequestResult::Failure { kind: FailureKind::AuthExpired },
        };
        self.remaining = self.remaining - 1;
        self.retried = false;
        self.needs_reauth = false;
        self.last_started = self.pending_started;
        out
    }
}

/// One simulated event fed to a worker: what the surrounding runtime would
/// hand back after performing the worker's requested action.
pub enum SimEvent {
    /// The issued request came back with a status.
    Response { status: u16, started_at: u64, duration: u64 },
    /// The issued request never completed: the transport failed.
    TransportFailed { started_at: u64, duration: u64 },
    /// The owed re-authentication produced a fresh token.
    ReauthOk { token: String },
    /// The owed re-authentication failed.
    ReauthFailed,
    /// The cooperative stop signal was observed.
    Stop,
}

/// Whether `e` is an answer the worker in state `s` could be waiting for.
pub open spec fn event_fits(s: WorkerState, e: SimEvent) -> bool {
    match e {
        SimEvent::Response { status, started_at, duration } => spec_next_action(s)
            == WorkerAction::Issue && started_at >= s.last_started,
        SimEvent::TransportFailed { started_at, duration } => spec_next_action(s)
            == WorkerAction::Issue && started_at >= s.last_started,
        SimEvent::ReauthOk { token } => spec_next_action(s) == WorkerAction::Reauth && token@.len()
            > 0,
        SimEvent::ReauthFailed => spec_next_action(s) == WorkerAction::Reauth,
        SimEvent::Stop => true,
    }
}

/// The state change and possible outcome one event causes.
pub open spec fn spec_step(s: WorkerState, e: SimEvent) -> (WorkerState, Option<RequestOutcome>) {
    match e {
        SimEvent::Response { status, started_at, duration } => spec_on_response(
            s,
            status,
            started_at,
            duration,
        ),
        SimEvent::TransportFailed { started_at, duration } => {
            let next = spec_on_transport(s, started_at, duration);
            (next.0, Some(next.1))
        },
        SimEvent::ReauthOk { token } => (spec_on_reauth_ok(s, token), None),
        SimEvent::ReauthFailed => {
            let next = spec_on_reauth_failed(s);
            (next.0, Some(next.1))
        },
        SimEvent::Stop => (WorkerState { stopped: true, ..s }, None),
    }
}

/// Whether a whole script answers the worker's actions step by step.
pub open spec fn script_matches(s: WorkerState, events: Seq<SimEvent>) -> bool
    decreases events.len(),
{
    if events.len() == 0 {
        true
    } else {
        event_fits(s, events[0]) && script_matches(spec_step(s, events[0]).0, events.skip(1))
    }
}

/// Every outcome a worker emits while consuming a script, in emission order.
pub open spec fn spec_run(s: WorkerState, events: Seq<SimEvent>) -> Seq<RequestOutcome>
    decreases events.len(),
{
    if events.len() == 0 {
        Seq::empty()
    } else {
        let next = spec_step(s, events[0]);
        (match next.1 {
            Some(o) => seq![o],
            None => Seq::empty(),
        }) + spec_run(next.0, events.skip(1))
    }
}

/// Drives one worker through a whole script of events.
///
/// The outcomes are exactly the ones the transition model emits; they all
/// carry this worker's identity, one outcome is emitted per completed
/// request (so a fully consumed budget means exactly that many outcomes),
/// and their issue times never decrease.
pub fn run_worker(w: WorkerState, events: Vec<SimEvent>) -> (r: (Vec<RequestOutcome>, WorkerState))
    requires
        w.wf(),
        script_matches(w, events@),
    ensures
        r.0@ == spec_run(w, events@),
        r.1.wf(),
        r.1.identity_id == w.identity_id,
        r.1.remaining <= w.remaining,
        r.0@.len() == w.remaining - r.1.remaining,
        r.1.remaining == 0 ==> r.0@.len() == w.remaining,
        forall|k: int| 0 <= k < r.0@.len() ==> (#[trigger] r.0@[k]).identity_id == w.identity_id,
        forall|a: int, b: int|
            0 <= a <= b < r.0@.len() ==> r.0@[a].started_at <= r.0@[b].started_at,
{
    let ghost w0 = w;
    let ghost evs0 = events@;
    let mut s = w;
    let mut evs = events;
    let mut outcomes: Vec<RequestOutcome> = Vec::new();
    proof {
        assert(outcomes@ + spec_run(s, evs@) =~= spec_run(w0, evs0));
    }
    while evs.len() > 0
        invariant
            s.wf(),
            script_matches(s, evs@),
            s.identity_id == w0.identity_id,
            s.remaining <= w0.remaining,
            outcomes@.len() == w0.remaining - s.remaining,
            outcomes@ + spec_run(s, evs@) == spec_run(w0, evs0),
            forall|k: int|
                0 <= k < outcomes@.len() ==> (#[trigger] outcomes@[k]).identity_id
                    == w0.identity_id,
            forall|a: int, b: int|
                0 <= a <= b < outcomes@.len() ==> outcomes@[a].started_at
                    <= outcomes@[b].started_at,
            forall|k: int|
                0 <= k < outcomes@.len() ==> (#[trigger] outcomes@[k]).started_at
                    <= s.last_started,
        decreases evs@.len(),
    {
        let ghost s0 = s;
        let ghost evs_before = evs@;
        let ghost outs_before = outcomes@;
        let e = evs.remove(0);
        proof {
            assert(evs@ =~= evs_before.skip(1));
            assert(event_fits(s0, e));
        }
        match e {
            SimEvent::Response { status, started_at, duration } => {
                let out = s.on_response(status, started_at, duration);
                if let Some(o) = out {
                    outcomes.push(o);
                }
            },
            SimEvent::TransportFailed { started_at, duration } => {
                let o = s.on_transport_failed(started_at, duration);
                outcomes.push(o);
            },
            SimEvent::ReauthOk { token } => {
                s.on_reauth_ok(token);
            },
            SimEvent::ReauthFailed => {
                let o = s.on_reauth_failed();
                outcomes.push(o);
            },
            SimEvent::Stop => {
                s.on_stop();
            },
        }
        proof {
            let stepped = spec_step(s0, evs_before[0]);
            assert(s == stepped.0);
            match stepped.1 {
                Some(o) => {
                    assert(outcomes@ == outs_before.push(o));
                    assert(outs_before.push(o) + spec_run(s, evs@) =~= outs_before + (seq![o]
                        + spec_run(s, evs@)));
                },
                None => {
                    assert(outcomes@ == outs_before);
                    assert(outs_before + spec_run(s, evs@) =~= outs_before + (
                    Seq::<RequestOutcome>::empty() + spec_run(s, evs@)));
                },
            }
            assert(outcomes@ + spec_run(s, evs@) == spec_run(w0, evs0));
        }
    }
    proof {
        assert(spec_run(s, evs@) =~= Seq::<RequestOutcome>::empty());
        assert(outcomes@ + spec_run(s, evs@) =~= outcomes@);
    }
    (outcomes, s)
}

/// The run-level deadline check, evaluated at the top of every worker loop
/// with the current clock. It is independent of the transport's own
/// per-request timeout: once it answers true the runtime flips the stop
/// flag, so no new request is issued, while requests already in flight only
/// drain up to the transport timeout.
pub fn deadline_reached(now: u64, deadline: u64) -> (b: bool)
    ensures
        b == (now >= deadline),
{
    now >= deadline
}

/// Law: cancellation is cooperative but absolute: once the stop flag is
/// observed, a worker's next action is to finish — it never issues another
/// request, whatever else its state says.
pub proof fn lemma_stop_halts(s: WorkerState)
    requires
        s.stopped,
    ensures
        spec_next_action(s) == WorkerAction::Finished,
{
}

/// Law: a 401 on a fresh attempt costs exactly one re-authentication
/// attempt, after which the worker either retries once or emits `AuthExpired`
/// — never a second re-authentication for the same request.
pub proof fn lemma_single_reauth(
    s: WorkerState,
    started_at: u64,
    duration: u64,
    token: String,
    retry_started: u64,
    retry_duration: u64,
)
    requires
        s.wf(),
        spec_next_action(s) == WorkerAction::Issue,
        !s.retried,
        token@.len() > 0,
    ensures
        ({
            // the 401 itself emits nothing and demands one re-authentication
            let (s1, out1) = spec_on_response(s, 401, started_at, duration);
            &&& out1 is None
            &&& spec_next_action(s1) == WorkerAction::Reauth
            // failed re-authentication: AuthExpired, and the demand is gone
            &&& {
                let (s2, out2) = spec_on_reauth_failed(s1);
                &&& out2.result == RequestResult::Failure { kind: FailureKind::AuthExpired }
                &&& !s2.needs_reauth
                &&& spec_next_action(s2) != WorkerAction::Reauth
            }
            // successful re-authentication: exactly one retry is issued, and
            // even a second 401 emits AuthExpired instead of re-authenticating
            &&& {
                let s2 = spec_on_reauth_ok(s1, token);
                let (s3, out3) = spec_on_response(s2, 401, retry_started, retry_duration);
                &&& spec_next_action(s2) == WorkerAction::Issue
                &&& out3 matches Some(o) && o.result == RequestResult::Failure {
                    kind: FailureKind::AuthExpired,
                }
                &&& !s3.needs_reauth
                &&& spec_next_action(s3) != WorkerAction::Reauth
            }
        }),
{
}

} // verus!
