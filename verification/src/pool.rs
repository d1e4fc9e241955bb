//! A pool of workers consuming one run's tokens, modelled against an
//! arbitrary delivery schedule.
//!
//! The shared queue promises exactly-once delivery but no fairness: which
//! worker receives each token is decided by the race between consumers.
//! A *schedule* records that decision — entry `i` names the worker that
//! received the `i`-th enqueued token.  A schedule is valid when it names
//! only real workers and hands the `Terminate` tokens — which the
//! producer enqueues behind every `Work` token — to pairwise distinct
//! workers, one to each worker of the pool.  The run model steps the
//! worker state machine once per delivered token, and its contract states
//! the aggregate guarantees of a full run for every valid schedule at
//! once.

use vstd::multiset::Multiset;
use vstd::prelude::*;

use crate::plan::plan_seq;
use crate::token::{JobToken, StealOutcome};
use crate::worker::{
    worker_complete_job, worker_new, worker_observe, worker_ready, WorkerPhase, WorkerState,
};

verus! {

/// Whether `sch` is a delivery outcome the queue can produce for a run
/// of `n_jobs` jobs over `n_threads` workers: one receiving worker per
/// token, all `Work` tokens delivered before any `Terminate` token, the
/// `Terminate` tokens delivered to pairwise distinct workers, and one of
/// them to every worker.
pub open spec fn valid_schedule(sch: Seq<usize>, n_jobs: int, n_threads: int) -> bool {
    &&& sch.len() == n_jobs + n_threads
    &&& forall|i: int| 0 <= i < sch.len() ==> (#[trigger] sch[i]) < n_threads
    &&& forall|i: int, j: int|
        n_jobs <= i < j < sch.len() ==> #[trigger] sch[i] != #[trigger] sch[j]
    &&& forall|w: int|
        0 <= w < n_threads ==> #[trigger] got_terminate(sch, n_jobs, sch.len() as int, w)
}

/// Whether worker `w` has received its `Terminate` token among the first
/// `upto` deliveries of the schedule.
pub open spec fn got_terminate(sch: Seq<usize>, n_jobs: int, upto: int, w: int) -> bool {
    exists|l: int| n_jobs <= l < upto && (#[trigger] sch[l]) as int == w
}

/// How many of the first `upto` deliveries of the schedule hand a token
/// to worker `w`.  Applied with `upto <= n_jobs` it counts the `Work`
/// tokens worker `w` receives.
pub open spec fn work_count(sch: Seq<usize>, upto: int, w: int) -> int
    decreases upto,
{
    if upto <= 0 {
        0
    } else {
        work_count(sch, upto - 1, w) + if (sch[upto - 1] as int) == w {
            1int
        } else {
            0int
        }
    }
}

/// A worker never receives more tokens than were delivered.
pub proof fn lemma_work_count_le(sch: Seq<usize>, upto: int, w: int)
    ensures
        work_count(sch, upto, w) <= if upto <= 0 {
            0
        } else {
            upto
        },
        0 <= work_count(sch, upto, w),
    decreases upto,
{
    if upto > 0 {
        lemma_work_count_le(sch, upto - 1, w);
    }
}

/// How many deliveries at positions `lo` (inclusive) to `hi` (exclusive)
/// of the schedule hand a token to worker `w`.
pub open spec fn deliveries_between(sch: Seq<usize>, lo: int, hi: int, w: int) -> int
    decreases hi - lo,
{
    if hi <= lo {
        0
    } else {
        deliveries_between(sch, lo, hi - 1, w) + if (sch[hi - 1] as int) == w {
            1int
        } else {
            0int
        }
    }
}

/// A worker named nowhere in a delivery range receives nothing there.
proof fn lemma_deliveries_between_zero(sch: Seq<usize>, lo: int, hi: int, w: int)
    requires
        forall|l: int| lo <= l < hi ==> (#[trigger] sch[l]) as int != w,
    ensures
        deliveries_between(sch, lo, hi, w) == 0,
    decreases hi - lo,
{
    if hi > lo {
        lemma_deliveries_between_zero(sch, lo, hi - 1, w);
    }
}

/// A worker named exactly once in a delivery range — somewhere, and at
/// pairwise distinct positions only — receives exactly one token there.
proof fn lemma_deliveries_between_once(sch: Seq<usize>, lo: int, hi: int, w: int)
    requires
        0 <= lo <= hi <= sch.len(),
        exists|l: int| lo <= l < hi && (#[trigger] sch[l]) as int == w,
        forall|i: int, j: int| lo <= i < j < hi ==> #[trigger] sch[i] != #[trigger] sch[j],
    ensures
        deliveries_between(sch, lo, hi, w) == 1,
    decreases hi - lo,
{
    if (sch[hi - 1] as int) == w {
        lemma_deliveries_between_zero(sch, lo, hi - 1, w);
    } else {
        let l = choose|l: int| lo <= l < hi && (#[trigger] sch[l]) as int == w;
        assert(lo <= l < hi - 1);
        lemma_deliveries_between_once(sch, lo, hi - 1, w);
    }
}

/// The number of tokens a whole pool of `n_threads` workers receives
/// among the first `upto` deliveries of the schedule.
pub open spec fn total_deliveries(sch: Seq<usize>, upto: int, n_threads: int) -> int
    decreases n_threads,
{
    if n_threads <= 0 {
        0
    } else {
        total_deliveries(sch, upto, n_threads - 1) + work_count(sch, upto, n_threads - 1)
    }
}

/// Before any delivery, no worker has received anything.
proof fn lemma_total_deliveries_zero(sch: Seq<usize>, n: int)
    ensures
        total_deliveries(sch, 0, n) == 0,
    decreases n,
{
    if n > 0 {
        lemma_total_deliveries_zero(sch, n - 1);
    }
}

/// One more delivery raises the pool's total by one exactly when it goes
/// to a worker of the pool.
proof fn lemma_total_deliveries_step(sch: Seq<usize>, upto: int, n: int)
    requires
        0 < upto,
    ensures
        total_deliveries(sch, upto, n) == total_deliveries(sch, upto - 1, n) + if (sch[upto
            - 1] as int) < n && 0 <= n {
            1int
        } else {
            0int
        },
    decreases n,
{
    if n > 0 {
        lemma_total_deliveries_step(sch, upto, n - 1);
    }
}

/// Every delivery goes to exactly one worker: a schedule naming only
/// workers below `n_threads` spreads its first `upto` deliveries over the
/// pool with nothing lost and nothing duplicated.
proof fn lemma_total_deliveries(sch: Seq<usize>, upto: int, n_threads: int)
    requires
        0 <= upto <= sch.len(),
        forall|i: int| 0 <= i < sch.len() ==> (#[trigger] sch[i]) < n_threads,
    ensures
        total_deliveries(sch, upto, n_threads) == upto,
    decreases upto,
{
    if upto == 0 {
        lemma_total_deliveries_zero(sch, n_threads);
    } else {
        lemma_total_deliveries(sch, upto - 1, n_threads);
        lemma_total_deliveries_step(sch, upto, n_threads);
    }
}

/// No token is lost and none is delivered twice, stated over any valid
/// schedule of a full run: the `Work` tokens received across the pool
/// sum to exactly `n_jobs` — each `Work` token reaching exactly one
/// worker — and every worker receives exactly one `Terminate` token, so
/// the `Terminate` tokens received sum to exactly `n_threads`.  Together
/// the tokens received across the pool are exactly the tokens enqueued.
pub proof fn lemma_exactly_once_delivery(sch: Seq<usize>, n_jobs: int, n_threads: int)
    requires
        0 <= n_jobs,
        0 <= n_threads,
        valid_schedule(sch, n_jobs, n_threads),
    ensures
        total_deliveries(sch, n_jobs, n_threads) == n_jobs,
        forall|w: int|
            0 <= w < n_threads ==> #[trigger] deliveries_between(sch, n_jobs, sch.len() as int, w)
                == 1,
{
    lemma_total_deliveries(sch, n_jobs, n_threads);
    assert forall|w: int| 0 <= w < n_threads implies #[trigger] deliveries_between(
        sch,
        n_jobs,
        sch.len() as int,
        w,
    ) == 1 by {
        assert(got_terminate(sch, n_jobs, sch.len() as int, w));
        lemma_deliveries_between_once(sch, n_jobs, sch.len() as int, w);
    }
}

/// How many tokens of `s` equal `t`.
pub open spec fn occurrences(s: Seq<JobToken>, t: JobToken) -> int
    decreases s.len(),
{
    if s.len() == 0 {
        0
    } else {
        occurrences(s.drop_last(), t) + if s.last() == t {
            1int
        } else {
            0int
        }
    }
}

/// A sequence's multiset counts each token as often as it occurs.
proof fn lemma_occurrences_to_multiset(s: Seq<JobToken>, t: JobToken)
    ensures
        s.to_multiset().count(t) == occurrences(s, t),
    decreases s.len(),
{
    broadcast use vstd::seq_lib::group_to_multiset_ensures;
    broadcast use vstd::multiset::group_multiset_axioms;

    if s.len() == 0 {
        assert(s.to_multiset() =~= Multiset::<JobToken>::empty());
    } else {
        lemma_occurrences_to_multiset(s.drop_last(), t);
        assert(s =~= s.drop_last().push(s.last()));
        assert(s.to_multiset() =~= s.drop_last().to_multiset().insert(s.last()));
    }
}

/// The enqueued sequence holds exactly `n_jobs` `Work` tokens and
/// `n_threads` `Terminate` tokens.
proof fn lemma_plan_occurrences(n_jobs: int, n_threads: int)
    requires
        0 <= n_jobs,
        0 <= n_threads,
    ensures
        occurrences(plan_seq(n_jobs, n_threads), JobToken::Work) == n_jobs,
        occurrences(plan_seq(n_jobs, n_threads), JobToken::Terminate) == n_threads,
    decreases n_jobs + n_threads,
{
    if n_threads > 0 {
        lemma_plan_occurrences(n_jobs, n_threads - 1);
        assert(plan_seq(n_jobs, n_threads).drop_last() =~= plan_seq(n_jobs, n_threads - 1));
    } else if n_jobs > 0 {
        lemma_plan_occurrences(n_jobs - 1, 0);
        assert(plan_seq(n_jobs, 0).drop_last() =~= plan_seq(n_jobs - 1, 0));
    } else {
        assert(plan_seq(0, 0).len() == 0);
    }
}

/// The multiset of tokens worker `w` receives over a full run under the
/// schedule: its `Work` tokens and its `Terminate` tokens.
pub open spec fn worker_received(sch: Seq<usize>, n_jobs: int, w: int) -> Multiset<JobToken> {
    Multiset::<JobToken>::empty().update(
        JobToken::Work,
        work_count(sch, n_jobs, w) as nat,
    ).update(JobToken::Terminate, deliveries_between(sch, n_jobs, sch.len() as int, w) as nat)
}

/// The union of the tokens received by the workers of the pool.
pub open spec fn pool_received(sch: Seq<usize>, n_jobs: int, n_threads: int) -> Multiset<
    JobToken,
>
    decreases n_threads,
{
    if n_threads <= 0 {
        Multiset::<JobToken>::empty()
    } else {
        pool_received(sch, n_jobs, n_threads - 1).add(worker_received(sch, n_jobs, n_threads - 1))
    }
}

/// The pool's token counts are the sums of the per-worker counts.
proof fn lemma_pool_received_counts(sch: Seq<usize>, n_jobs: int, n_threads: int)
    requires
        0 <= n_jobs,
        forall|w: int|
            0 <= w < n_threads ==> 0 <= #[trigger] deliveries_between(
                sch,
                n_jobs,
                sch.len() as int,
                w,
            ),
    ensures
        pool_received(sch, n_jobs, n_threads).count(JobToken::Work) == total_deliveries(
            sch,
            n_jobs,
            n_threads,
        ),
        pool_received(sch, n_jobs, n_threads).count(JobToken::Terminate) == sum_terminates(
            sch,
            n_jobs,
            n_threads,
        ),
    decreases n_threads,
{
    broadcast use vstd::multiset::group_multiset_axioms;
    broadcast use vstd::multiset::group_multiset_properties;

    if n_threads > 0 {
        lemma_pool_received_counts(sch, n_jobs, n_threads - 1);
        lemma_work_count_le(sch, n_jobs, n_threads - 1);
    }
}

/// The `Terminate` tokens received across the first `n` workers.
pub open spec fn sum_terminates(sch: Seq<usize>, n_jobs: int, n: int) -> int
    decreases n,
{
    if n <= 0 {
        0
    } else {
        sum_terminates(sch, n_jobs, n - 1) + deliveries_between(sch, n_jobs, sch.len() as int, n
            - 1)
    }
}

/// Under a valid schedule each worker receives one `Terminate` token, so
/// the pool receives `n` of them over its first `n` workers.
proof fn lemma_sum_terminates(sch: Seq<usize>, n_jobs: int, n_threads: int, n: int)
    requires
        0 <= n_jobs,
        0 <= n <= n_threads,
        valid_schedule(sch, n_jobs, n_threads),
    ensures
        sum_terminates(sch, n_jobs, n) == n,
    decreases n,
{
    if n > 0 {
        lemma_sum_terminates(sch, n_jobs, n_threads, n - 1);
        assert(got_terminate(sch, n_jobs, sch.len() as int, n - 1));
        lemma_deliveries_between_once(sch, n_jobs, sch.len() as int, n - 1);
    }
}

/// No token is lost, duplicated or invented: the union of the tokens the
/// workers receive over a full run is exactly the multiset of the tokens
/// the producer enqueued, for every valid schedule.
pub proof fn lemma_delivery_is_a_partition(sch: Seq<usize>, n_jobs: int, n_threads: int)
    requires
        0 <= n_jobs,
        0 <= n_threads,
        valid_schedule(sch, n_jobs, n_threads),
    ensures
        pool_received(sch, n_jobs, n_threads) == plan_seq(n_jobs, n_threads).to_multiset(),
{
    broadcast use vstd::multiset::group_multiset_axioms;
    broadcast use vstd::multiset::group_multiset_properties;

    assert forall|w: int| 0 <= w < n_threads implies 0 <= #[trigger] deliveries_between(
        sch,
        n_jobs,
        sch.len() as int,
        w,
    ) by {
        assert(got_terminate(sch, n_jobs, sch.len() as int, w));
        lemma_deliveries_between_once(sch, n_jobs, sch.len() as int, w);
    }
    lemma_pool_received_counts(sch, n_jobs, n_threads);
    lemma_total_deliveries(sch, n_jobs, n_threads);
    lemma_sum_terminates(sch, n_jobs, n_threads, n_threads);
    lemma_plan_occurrences(n_jobs, n_threads);
    lemma_occurrences_to_multiset(plan_seq(n_jobs, n_threads), JobToken::Work);
    lemma_occurrences_to_multiset(plan_seq(n_jobs, n_threads), JobToken::Terminate);
    assert forall|t: JobToken|
        pool_received(sch, n_jobs, n_threads).count(t) == plan_seq(
            n_jobs,
            n_threads,
        ).to_multiset().count(t) by {
        match t {
            JobToken::Work => {},
            JobToken::Terminate => {},
        }
    }
    assert(pool_received(sch, n_jobs, n_threads) =~= plan_seq(n_jobs, n_threads).to_multiset());
}

/// The sum of the completed-job counters of a pool of workers.
pub open spec fn sum_completed(ws: Seq<WorkerState>) -> int
    decreases ws.len(),
{
    if ws.len() == 0 {
        0
    } else {
        sum_completed(ws.drop_last()) + ws.last().completed
    }
}

/// Appending a worker adds its counter to the pool's sum.
pub proof fn lemma_sum_push(ws: Seq<WorkerState>, s: WorkerState)
    ensures
        sum_completed(ws.push(s)) == sum_completed(ws) + s.completed,
{
    assert(ws.push(s).drop_last() =~= ws);
}

/// Replacing one worker changes the pool's sum by the difference of the
/// two counters.
pub proof fn lemma_sum_update(ws: Seq<WorkerState>, k: int, s: WorkerState)
    requires
        0 <= k < ws.len(),
    ensures
        sum_completed(ws.update(k, s)) == sum_completed(ws) - ws[k].completed + s.completed,
    decreases ws.len(),
{
    if k == ws.len() - 1 {
        assert(ws.update(k, s).drop_last() =~= ws.drop_last());
        assert(ws.update(k, s).last() == s);
    } else {
        assert(ws.update(k, s).drop_last() =~= ws.drop_last().update(k, s));
        assert(ws.update(k, s).last() == ws.last());
        lemma_sum_update(ws.drop_last(), k, s);
    }
}

/// Runs one whole dispatch to completion, delivering each enqueued token
/// to the worker the schedule names for it.
///
/// The contract states, for every valid schedule at once: every worker
/// ends shut down with its own id; each worker's counter equals the
/// number of `Work` tokens the schedule delivered to it; the counters sum
/// to exactly the number of jobs enqueued; and a run of zero jobs
/// completes zero jobs at every worker.
pub fn run_model(n_jobs: usize, n_threads: usize, schedule: &Vec<usize>) -> (workers: Vec<
    WorkerState,
>)
    requires
        1 <= n_threads,
        n_jobs + n_threads <= usize::MAX,
        valid_schedule(schedule@, n_jobs as int, n_threads as int),
    ensures
        workers@.len() == n_threads,
        forall|w: int| 0 <= w < n_threads ==> (#[trigger] workers@[w]).id == w,
        forall|w: int|
            0 <= w < n_threads ==> (#[trigger] workers@[w]).phase == WorkerPhase::Terminated,
        forall|w: int|
            0 <= w < n_threads ==> (#[trigger] workers@[w]).completed == work_count(
                schedule@,
                n_jobs as int,
                w,
            ),
        sum_completed(workers@) == n_jobs,
        n_jobs == 0 ==> forall|w: int|
            0 <= w < n_threads ==> (#[trigger] workers@[w]).completed == 0,
{
    let ghost sch = schedule@;
    let mut workers: Vec<WorkerState> = Vec::new();
    let mut w: usize = 0;
    while w < n_threads
        invariant
            w <= n_threads,
            workers@.len() == w,
            forall|k: int|
                0 <= k < w ==> #[trigger] workers@[k] == (WorkerState {
                    id: k as usize,
                    completed: 0,
                    phase: WorkerPhase::Polling,
                }),
            sum_completed(workers@) == 0,
        decreases n_threads - w,
    {
        let s = worker_ready(worker_new(w));
        proof {
            lemma_sum_push(workers@, s);
        }
        workers.push(s);
        w = w + 1;
    }

    let mut i: usize = 0;
    while i < n_jobs
        invariant
            i <= n_jobs,
            1 <= n_threads,
            n_jobs + n_threads <= usize::MAX,
            valid_schedule(sch, n_jobs as int, n_threads as int),
            sch == schedule@,
            workers@.len() == n_threads,
            forall|k: int| 0 <= k < n_threads ==> (#[trigger] workers@[k]).id == k,
            forall|k: int|
                0 <= k < n_threads ==> (#[trigger] workers@[k]).phase == WorkerPhase::Polling,
            forall|k: int|
                0 <= k < n_threads ==> (#[trigger] workers@[k]).completed == work_count(
                    sch,
                    i as int,
                    k,
                ),
            sum_completed(workers@) == i,
        decreases n_jobs - i,
    {
        let wi = schedule[i];
        let s = workers[wi];
        proof {
            lemma_work_count_le(sch, i as int, wi as int);
        }
        let s1 = worker_observe(s, StealOutcome::Got(JobToken::Work));
        let s2 = worker_complete_job(s1);
        proof {
            lemma_sum_update(workers@, wi as int, s2);
        }
        workers.set(wi, s2);
        i = i + 1;
    }

    let total = n_jobs + n_threads;
    let mut j: usize = n_jobs;
    while j < total
        invariant
            n_jobs <= j <= total,
            total == n_jobs + n_threads,
            1 <= n_threads,
            valid_schedule(sch, n_jobs as int, n_threads as int),
            sch == schedule@,
            workers@.len() == n_threads,
            forall|k: int| 0 <= k < n_threads ==> (#[trigger] workers@[k]).id == k,
            forall|k: int|
                0 <= k < n_threads ==> (#[trigger] workers@[k]).completed == work_count(
                    sch,
                    n_jobs as int,
                    k,
                ),
            forall|k: int|
                0 <= k < n_threads ==> ((#[trigger] workers@[k]).phase == WorkerPhase::Terminated
                    <==> got_terminate(sch, n_jobs as int, j as int, k)),
            forall|k: int|
                0 <= k < n_threads ==> ((#[trigger] workers@[k]).phase == WorkerPhase::Terminated
                    || workers@[k].phase == WorkerPhase::Polling),
            sum_completed(workers@) == n_jobs,
        decreases total - j,
    {
        let wj = schedule[j];
        let s = workers[wj];
        proof {
            if got_terminate(sch, n_jobs as int, j as int, wj as int) {
                let l = choose|l: int|
                    n_jobs <= l < j && (#[trigger] sch[l]) as int == wj as int;
                assert(sch[l] != sch[j as int]);
            }
        }
        let s1 = worker_observe(s, StealOutcome::Got(JobToken::Terminate));
        proof {
            lemma_sum_update(workers@, wj as int, s1);
        }
        workers.set(wj, s1);
        j = j + 1;
    }

    proof {
        assert forall|k: int| 0 <= k < n_threads implies (#[trigger] workers@[k]).phase
            == WorkerPhase::Terminated by {
            assert(got_terminate(sch, n_jobs as int, total as int, k));
        }
        if n_jobs == 0 {
            assert forall|k: int| 0 <= k < n_threads implies (#[trigger] workers@[k]).completed
                == 0 by {
                assert(work_count(sch, 0, k) == 0);
            }
        }
    }
    workers
}

} // verus!
