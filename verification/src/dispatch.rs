//! Load dispatcher: fans out one worker per logged-in identity and collects
//! every outcome into one summary.
//!
//! The worker count is fixed at dispatch time: exactly one worker per pooled
//! identity, never one per requested identity. The scripted entry point here
//! runs the whole load phase deterministically over per-worker event scripts;
//! the live runtime performs the same steps with real requests, one task per
//! worker, recording into one shared aggregator.

use crate::outcome::{
    count_matching, is_auth_expired_failure, is_http_failure, is_success_outcome,
    is_transport_failure, lemma_count_push, percentile_spec, Aggregator, RequestOutcome,
    RunSummary,
};
use crate::provision::TestIdentity;
use crate::worker::{run_worker, script_matches, spec_run, SimEvent, WorkerState};
use vstd::prelude::*;

verus! {

/// One worker per identity, numbered by position, each loaded with the same
/// request budget and the identity's session token.
pub fn plan_workers(ids: &Vec<TestIdentity>, requests_per_worker: u64) -> (ws: Vec<WorkerState>)
    requires
        ids@.len() <= u64::MAX,
        forall|k: int|
            0 <= k < ids@.len() ==> ((#[trigger] ids@[k].session) matches Some(s) && s.wf()),
    ensures
        ws@.len() == ids@.len(),
        forall|k: int|
            0 <= k < ws@.len() ==> {
                let w = #[trigger] ws@[k];
                &&& w.wf()
                &&& w.identity_id == k
                &&& w.remaining == requests_per_worker
                &&& !w.stopped && !w.needs_reauth && !w.retried
                &&& (ids@[k].session matches Some(s) ==> w.token@ == s.bearer_token@)
            },
{
    let mut ws: Vec<WorkerState> = Vec::new();
    let mut i: usize = 0;
    while i < ids.len()
        invariant
            i <= ids@.len(),
            ids@.len() <= u64::MAX,
            ws@.len() == i,
            forall|k: int|
                0 <= k < ids@.len() ==> ((#[trigger] ids@[k].session) matches Some(s) && s.wf()),
            forall|k: int|
                0 <= k < i ==> {
                    let w = #[trigger] ws@[k];
                    &&& w.wf()
                    &&& w.identity_id == k
                    &&& w.remaining == requests_per_worker
                    &&& !w.stopped && !w.needs_reauth && !w.retried
                    &&& (ids@[k].session matches Some(s) ==> w.token@ == s.bearer_token@)
                },
        decreases ids@.len() - i,
    {
        let w = match &ids[i].session {
            Some(sess) => WorkerState::init(i as u64, sess, requests_per_worker),
            None => vstd::pervasive::unreached(),
        };
        ws.push(w);
        proof {
            assert(ws@[i as int] == w);
        }
        i = i + 1;
    }
    ws
}

/// The combined request budget of a set of workers.
pub open spec fn total_remaining(ws: Seq<WorkerState>) -> int
    decreases ws.len(),
{
    if ws.len() == 0 {
        0int
    } else {
        total_remaining(ws.drop_last()) + ws.last().remaining
    }
}

pub proof fn lemma_total_remaining_nonneg(ws: Seq<WorkerState>)
    ensures
        total_remaining(ws) >= 0,
    decreases ws.len(),
{
    if ws.len() > 0 {
        lemma_total_remaining_nonneg(ws.drop_last());
    }
}

/// The budget splits into the first worker's and the rest's.
pub proof fn lemma_total_remaining_first(ws: Seq<WorkerState>)
    requires
        ws.len() > 0,
    ensures
        total_remaining(ws) == ws[0].remaining + total_remaining(ws.skip(1)),
    decreases ws.len(),
{
    if ws.len() == 1 {
        assert(ws.skip(1) =~= Seq::<WorkerState>::empty());
        assert(ws.drop_last() =~= Seq::<WorkerState>::empty());
    } else {
        lemma_total_remaining_first(ws.drop_last());
        assert(ws.drop_last()[0] == ws[0]);
        assert(ws.skip(1).drop_last() =~= ws.drop_last().skip(1));
        assert(ws.skip(1).last() == ws.last());
    }
}

/// Every outcome of a whole simulated run: each worker's emissions in worker
/// order.
pub open spec fn sim_outcomes(ws: Seq<WorkerState>, scripts: Seq<Vec<SimEvent>>) -> Seq<
    RequestOutcome,
>
    decreases ws.len(),
{
    if ws.len() == 0 || scripts.len() == 0 {
        Seq::empty()
    } else {
        spec_run(ws[0], scripts[0]@) + sim_outcomes(ws.skip(1), scripts.skip(1))
    }
}

/// Runs the whole load phase over scripted events: each worker consumes its
/// script, every outcome is recorded, and the summary is drawn once all
/// workers have terminated.
///
/// The returned outcomes are exactly the model's emissions for each worker in
/// turn, and every summary field is the corresponding count over them.
pub fn run_load(workers: Vec<WorkerState>, scripts: Vec<Vec<SimEvent>>) -> (r: (
    RunSummary,
    Vec<RequestOutcome>,
))
    requires
        workers@.len() == scripts@.len(),
        forall|k: int|
            0 <= k < workers@.len() ==> (#[trigger] workers@[k]).wf() && script_matches(
                workers@[k],
                scripts@[k]@,
            ),
        total_remaining(workers@) < u64::MAX,
    ensures
        r.1@ == sim_outcomes(workers@, scripts@),
        r.0.total == r.1@.len(),
        r.0.succeeded == count_matching(r.1@, |o: RequestOutcome| is_success_outcome(o)),
        r.0.failed_http == count_matching(r.1@, |o: RequestOutcome| is_http_failure(o)),
        r.0.failed_auth_expired == count_matching(
            r.1@,
            |o: RequestOutcome| is_auth_expired_failure(o),
        ),
        r.0.failed_transport == count_matching(r.1@, |o: RequestOutcome| is_transport_failure(o)),
        r.0.is_final,
        r.1@.len() > 0 ==> r.0.p50 == percentile_spec(
            r.1@.map_values(|o: RequestOutcome| o.duration),
            50,
        ) && r.0.p95 == percentile_spec(r.1@.map_values(|o: RequestOutcome| o.duration), 95)
            && r.0.p99 == percentile_spec(r.1@.map_values(|o: RequestOutcome| o.duration), 99),
{
    let ghost ws0 = workers@;
    let ghost scr0 = scripts@;
    let mut ws = workers;
    let mut scr = scripts;
    let mut agg = Aggregator::new();
    let mut all: Vec<RequestOutcome> = Vec::new();
    proof {
        assert(all@ + sim_outcomes(ws@, scr@) =~= sim_outcomes(ws0, scr0));
        assert(all@.map_values(|o: RequestOutcome| o.duration) =~= agg.durations@);
    }
    while ws.len() > 0
        invariant
            ws@.len() == scr@.len(),
            forall|k: int|
                0 <= k < ws@.len() ==> (#[trigger] ws@[k]).wf() && script_matches(
                    ws@[k],
                    scr@[k]@,
                ),
            all@ + sim_outcomes(ws@, scr@) == sim_outcomes(ws0, scr0),
            all@.len() + total_remaining(ws@) <= total_remaining(ws0),
            total_remaining(ws0) < u64::MAX,
            agg.wf(),
            agg.durations@ == all@.map_values(|o: RequestOutcome| o.duration),
            agg.succeeded == count_matching(all@, |o: RequestOutcome| is_success_outcome(o)),
            agg.failed_http == count_matching(all@, |o: RequestOutcome| is_http_failure(o)),
            agg.failed_auth_expired == count_matching(
                all@,
                |o: RequestOutcome| is_auth_expired_failure(o),
            ),
            agg.failed_transport == count_matching(
                all@,
                |o: RequestOutcome| is_transport_failure(o),
            ),
        decreases ws@.len(),
    {
        let ghost ws_before = ws@;
        let ghost scr_before = scr@;
        let ghost all_before = all@;
        let w = ws.remove(0);
        let script = scr.remove(0);
        proof {
            assert(ws@ =~= ws_before.skip(1));
            assert(scr@ =~= scr_before.skip(1));
            lemma_total_remaining_first(ws_before);
            lemma_total_remaining_nonneg(ws@);
        }
        let ghost w0 = w;
        let (outs, fin) = run_worker(w, script);
        let mut j: usize = 0;
        while j < outs.len()
            invariant
                j <= outs@.len(),
                all@ == all_before + outs@.take(j as int),
                all_before.len() + outs@.len() + total_remaining(ws@) <= total_remaining(ws0),
                total_remaining(ws@) >= 0,
                total_remaining(ws0) < u64::MAX,
                agg.wf(),
                agg.durations@ == all@.map_values(|o: RequestOutcome| o.duration),
                agg.succeeded == count_matching(all@, |o: RequestOutcome| is_success_outcome(o)),
                agg.failed_http == count_matching(all@, |o: RequestOutcome| is_http_failure(o)),
                agg.failed_auth_expired == count_matching(
                    all@,
                    |o: RequestOutcome| is_auth_expired_failure(o),
                ),
                agg.failed_transport == count_matching(
                    all@,
                    |o: RequestOutcome| is_transport_failure(o),
                ),
            decreases outs@.len() - j,
        {
            let ghost all_mid = all@;
            let o = outs[j];
            agg.record(&o);
            all.push(o);
            proof {
                assert(all@ =~= all_before + outs@.take(j as int + 1));
                assert(all@.map_values(|x: RequestOutcome| x.duration) =~= all_mid.map_values(
                    |x: RequestOutcome| x.duration,
                ).push(o.duration));
                lemma_count_push(all_mid, |x: RequestOutcome| is_success_outcome(x), o);
                lemma_count_push(all_mid, |x: RequestOutcome| is_http_failure(x), o);
                lemma_count_push(all_mid, |x: RequestOutcome| is_auth_expired_failure(x), o);
                lemma_count_push(all_mid, |x: RequestOutcome| is_transport_failure(x), o);
            }
            j = j + 1;
        }
        proof {
            assert(outs@.take(outs@.len() as int) =~= outs@);
            assert(all@ == all_before + outs@);
            assert(sim_outcomes(ws_before, scr_before) == spec_run(w0, scr_before[0]@)
                + sim_outcomes(ws@, scr@));
            assert((all_before + outs@) + sim_outcomes(ws@, scr@) =~= all_before + (outs@
                + sim_outcomes(ws@, scr@)));
        }
    }
    proof {
        assert(sim_outcomes(ws@, scr@) =~= Seq::<RequestOutcome>::empty());
        assert(all@ + sim_outcomes(ws@, scr@) =~= all@);
    }
    let summary = agg.finalize(true);
    (summary, all)
}

} // verus!
