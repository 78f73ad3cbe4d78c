//! Request outcomes and their aggregation into a run summary.
//!
//! Workers emit one `RequestOutcome` per completed request attempt; the
//! `Aggregator` counts successes and failures by kind and keeps every
//! latency, and `finalize` turns that bookkeeping into a `RunSummary` with
//! nearest-rank latency percentiles.

use vstd::multiset::Multiset;
use vstd::prelude::*;
use vstd::relations::{sorted_by, total_ordering};
use vstd::seq_lib::lemma_sorted_unique;

verus! {

broadcast use vstd::seq_lib::group_to_multiset_ensures, vstd::multiset::group_multiset_axioms;

/// Why one request attempt failed.
#[derive(Clone, Copy, PartialEq, Eq, Structural, Debug)]
pub enum FailureKind {
    /// The service answered with a non-success status other than token expiry.
    HttpError { status: u16 },
    /// The token had expired and the single re-authentication retry did not
    /// produce a success either.
    AuthExpired,
    /// The transport failed: connection, name resolution, or timeout.
    Transport,
}

/// How one request attempt ended.
#[derive(Clone, Copy, PartialEq, Eq, Structural, Debug)]
pub enum RequestResult {
    Success { status: u16 },
    Failure { kind: FailureKind },
}

/// The record of one completed request attempt.
#[derive(Clone, Copy, PartialEq, Eq, Structural, Debug)]
pub struct RequestOutcome {
    /// Which identity's worker issued the request.
    pub identity_id: u64,
    /// When the request was issued.
    pub started_at: u64,
    /// How long the attempt took.
    pub duration: u64,
    pub result: RequestResult,
}

/// The aggregate handed to the reporting layer once a run ends.
#[derive(Clone, Copy, PartialEq, Eq, Structural, Debug)]
pub struct RunSummary {
    pub total: u64,
    pub succeeded: u64,
    pub failed_http: u64,
    pub failed_auth_expired: u64,
    pub failed_transport: u64,
    /// Nearest-rank latency percentiles; zero when no request completed.
    pub p50: u64,
    pub p95: u64,
    pub p99: u64,
    /// False when the summary was drawn before all workers terminated.
    pub is_final: bool,
}

pub open spec fn is_success_outcome(o: RequestOutcome) -> bool {
    o.result is Success
}

pub open spec fn is_http_failure(o: RequestOutcome) -> bool {
    match o.result {
        RequestResult::Failure { kind: FailureKind::HttpError { .. } } => true,
        _ => false,
    }
}

pub open spec fn is_auth_expired_failure(o: RequestOutcome) -> bool {
    o.result == RequestResult::Failure { kind: FailureKind::AuthExpired }
}

pub open spec fn is_transport_failure(o: RequestOutcome) -> bool {
    o.result == RequestResult::Failure { kind: FailureKind::Transport }
}

/// How many outcomes in `s` satisfy `p`.
pub open spec fn count_matching(s: Seq<RequestOutcome>, p: spec_fn(RequestOutcome) -> bool) -> int
    decreases s.len(),
{
    if s.len() == 0 {
        0int
    } else {
        count_matching(s.drop_last(), p) + if p(s.last()) {
            1int
        } else {
            0int
        }
    }
}

/// Counting one more outcome raises exactly the matching count.
pub proof fn lemma_count_push(s: Seq<RequestOutcome>, p: spec_fn(RequestOutcome) -> bool, o: RequestOutcome)
    ensures
        count_matching(s.push(o), p) == count_matching(s, p) + if p(o) {
            1int
        } else {
            0int
        },
{
    assert(s.push(o).drop_last() =~= s);
    assert(s.push(o).last() == o);
}

/// Collects outcomes from all workers. Shared across workers behind a lock by
/// the runtime around it; each `record` call is one cheap bookkeeping step.
pub struct Aggregator {
    pub succeeded: u64,
    pub failed_http: u64,
    pub failed_auth_expired: u64,
    pub failed_transport: u64,
    /// The duration of every recorded outcome, in recording order.
    pub durations: Vec<u64>,
}

/// The total order the percentiles sort by.
pub open spec fn duration_leq() -> spec_fn(u64, u64) -> bool {
    |a: u64, b: u64| a <= b
}

/// The recorded durations in ascending order.
pub open spec fn sorted_durations(s: Seq<u64>) -> Seq<u64> {
    s.sort_by(duration_leq())
}

/// The zero-based nearest-rank index of the q-th percentile among n values.
pub open spec fn rank_of(q: int, n: int) -> int {
    (q * n + 99) / 100 - 1
}

/// The q-th nearest-rank percentile of a non-empty pool of durations.
pub open spec fn percentile_spec(s: Seq<u64>, q: int) -> u64 {
    sorted_durations(s)[rank_of(q, s.len() as int)]
}

impl Aggregator {
    /// The counters always tally exactly the recorded outcomes.
    pub open spec fn wf(&self) -> bool {
        self.succeeded + self.failed_http + self.failed_auth_expired + self.failed_transport
            == self.durations@.len()
    }

    /// An aggregator that has seen nothing.
    pub fn new() -> (a: Aggregator)
        ensures
            a.wf(),
            a.durations@.len() == 0,
            a.succeeded == 0 && a.failed_http == 0 && a.failed_auth_expired == 0
                && a.failed_transport == 0,
    {
        Aggregator {
            succeeded: 0,
            failed_http: 0,
            failed_auth_expired: 0,
            failed_transport: 0,
            durations: Vec::new(),
        }
    }

    /// Records one outcome: its duration joins the latency pool and exactly
    /// one counter, the one for its result kind, grows by one.
    pub fn record(&mut self, o: &RequestOutcome)
        requires
            old(self).wf(),
            old(self).durations@.len() < u64::MAX,
        ensures
            final(self).wf(),
            final(self).durations@ == old(self).durations@.push(o.duration),
            final(self).succeeded == old(self).succeeded + if is_success_outcome(*o) {
                1int
            } else {
                0int
            },
            final(self).failed_http == old(self).failed_http + if is_http_failure(*o) {
                1int
            } else {
                0int
            },
            final(self).failed_auth_expired == old(self).failed_auth_expired
                + if is_auth_expired_failure(*o) {
                1int
            } else {
                0int
            },
            final(self).failed_transport == old(self).failed_transport + if is_transport_failure(
                *o,
            ) {
                1int
            } else {
                0int
            },
    {
        match o.result {
            RequestResult::Success { .. } => {
                self.succeeded = self.succeeded + 1;
            },
            RequestResult::Failure { kind: FailureKind::HttpError { .. } } => {
                self.failed_http = self.failed_http + 1;
            },
            RequestResult::Failure { kind: FailureKind::AuthExpired } => {
                self.failed_auth_expired = self.failed_auth_expired + 1;
            },
            RequestResult::Failure { kind: FailureKind::Transport } => {
                self.failed_transport = self.failed_transport + 1;
            },
        }
        self.durations.push(o.duration);
    }

    /// Draws the summary. `all_terminated` is the dispatcher's signal that
    /// every worker has stopped; a summary drawn earlier is the same
    /// bookkeeping but explicitly marked non-final.
    pub fn finalize(&self, all_terminated: bool) -> (s: RunSummary)
        requires
            self.wf(),
        ensures
            s.total == self.durations@.len(),
            s.succeeded == self.succeeded,
            s.failed_http == self.failed_http,
            s.failed_auth_expired == self.failed_auth_expired,
            s.failed_transport == self.failed_transport,
            s.is_final == all_terminated,
            self.durations@.len() > 0 ==> s.p50 == percentile_spec(self.durations@, 50)
                && s.p95 == percentile_spec(self.durations@, 95) && s.p99 == percentile_spec(
                self.durations@,
                99,
            ),
            self.durations@.len() == 0 ==> s.p50 == 0 && s.p95 == 0 && s.p99 == 0,
    {
        let n = self.durations.len();
        let total = self.succeeded + self.failed_http + self.failed_auth_expired
            + self.failed_transport;
        if n == 0 {
            RunSummary {
                total,
                succeeded: self.succeeded,
                failed_http: self.failed_http,
                failed_auth_expired: self.failed_auth_expired,
                failed_transport: self.failed_transport,
                p50: 0,
                p95: 0,
                p99: 0,
                is_final: all_terminated,
            }
        } else {
            let sorted = sort_durations(&self.durations);
            let p50 = sorted[rank_index(50, n)];
            let p95 = sorted[rank_index(95, n)];
            let p99 = sorted[rank_index(99, n)];
            RunSummary {
                total,
                succeeded: self.succeeded,
                failed_http: self.failed_http,
                failed_auth_expired: self.failed_auth_expired,
                failed_transport: self.failed_transport,
                p50,
                p95,
                p99,
                is_final: all_terminated,
            }
        }
    }
}

/// The index of a least element.
fn min_index(v: &Vec<u64>) -> (m: usize)
    requires
        v@.len() > 0,
    ensures
        m < v@.len(),
        forall|j: int| 0 <= j < v@.len() ==> v@[m as int] <= v@[j],
{
    let mut m: usize = 0;
    let mut i: usize = 1;
    while i < v.len()
        invariant
            m < i <= v@.len(),
            forall|j: int| 0 <= j < i ==> v@[m as int] <= v@[j],
        decreases v@.len() - i,
    {
        if v[i] < v[m] {
            m = i;
        }
        i = i + 1;
    }
    m
}

/// Sorts the durations ascending; the result is exactly the sorted pool the
/// percentile specification speaks of.
fn sort_durations(v: &Vec<u64>) -> (r: Vec<u64>)
    ensures
        r@ == sorted_durations(v@),
        r@.len() == v@.len(),
{
    let leq = Ghost(duration_leq());
    proof {
        assert(total_ordering(leq@));
    }
    let mut src: Vec<u64> = Vec::new();
    let mut i: usize = 0;
    while i < v.len()
        invariant
            i <= v@.len(),
            src@ == v@.take(i as int),
        decreases v@.len() - i,
    {
        src.push(v[i]);
        proof {
            assert(v@.take(i as int).push(v@[i as int]) =~= v@.take(i as int + 1));
        }
        i = i + 1;
    }
    proof {
        assert(v@.take(v@.len() as int) =~= v@);
    }
    let mut out: Vec<u64> = Vec::new();
    while src.len() > 0
        invariant
            out@.to_multiset().add(src@.to_multiset()) == v@.to_multiset(),
            sorted_by(out@, leq@),
            leq@ == duration_leq(),
            forall|a: int, b: int|
                0 <= a < out@.len() && 0 <= b < src@.len() ==> out@[a] <= src@[b],
        decreases src@.len(),
    {
        let ghost src0 = src@;
        let ghost out0 = out@;
        let m = min_index(&src);
        let x = src.remove(m);
        out.push(x);
        proof {
            assert(src0.contains(src0[m as int]));
            assert(src0.to_multiset().count(x) > 0);
            assert(out@.to_multiset() =~= out0.to_multiset().insert(x));
            assert(src@.to_multiset() =~= src0.to_multiset().remove(x));
            assert(out@.to_multiset().add(src@.to_multiset()) =~= out0.to_multiset().add(
                src0.to_multiset(),
            ));
            assert(forall|b: int|
                0 <= b < src@.len() ==> #[trigger] src@[b] == src0[if b < m { b } else { b + 1 }]);
            assert(forall|a: int, b: int|
                0 <= a < out@.len() && 0 <= b < src@.len() ==> out@[a] <= src@[b]);
            assert(sorted_by(out@, leq@));
        }
    }
    proof {
        assert(src@.to_multiset() =~= Multiset::<u64>::empty());
        assert(out@.to_multiset() =~= v@.to_multiset());
        v@.lemma_sort_by_ensures(leq@);
        lemma_sorted_unique(out@, v@.sort_by(leq@), leq@);
        assert(out@ == sorted_durations(v@));
        assert(out@.to_multiset().len() == v@.to_multiset().len());
    }
    out
}

/// The zero-based nearest-rank index for the q-th percentile of n values.
fn rank_index(q: u64, n: usize) -> (r: usize)
    requires
        1 <= q <= 100,
        n > 0,
    ensures
        r == rank_of(q as int, n as int),
        r < n,
{
    proof {
        assert(q as int * n as int <= 100 * (usize::MAX as int)) by (nonlinear_arith)
            requires
                1 <= q <= 100,
                n <= usize::MAX,
        ;
    }
    let num: u128 = q as u128 * n as u128 + 99;
    let d: u128 = num / 100;
    proof {
        assert(q as int * n as int + 99 >= 100) by (nonlinear_arith)
            requires
                q >= 1,
                n >= 1,
        ;
        assert(q as int * n as int + 99 <= 100 * (n as int) + 99) by (nonlinear_arith)
            requires
                q <= 100,
                n >= 1,
        ;
        assert(d >= 1);
        assert((q as int * n as int + 99) / 100 <= (100 * (n as int) + 99) / 100);
        assert((100 * (n as int) + 99) / 100 == n as int);
        assert(d <= n);
    }
    (d - 1) as usize
}

} // verus!
