//! The dispatch protocol of one run, against the real queue: the
//! producer's enqueue loop, a worker's poll loop, and a driver that runs
//! every worker to completion.

use vstd::pervasive::unreached;
use vstd::prelude::*;

use crate::plan::plan_seq;
use crate::pool::{lemma_sum_push, sum_completed};
use crate::queue::{queue_contents, queue_new, queue_push, queue_steal, TokenQueue};
use crate::token::{JobToken, StealOutcome};
use crate::worker::{
    worker_complete_job, worker_new, worker_observe, worker_ready, WorkerPhase, WorkerState,
};

verus! {

/// Enqueues one run's tokens: `n_jobs` `Work` tokens, then `n_threads`
/// `Terminate` tokens, appended in that order at the back of the queue.
pub fn enqueue_run(q: &mut TokenQueue, n_jobs: usize, n_threads: usize)
    requires
        n_jobs + n_threads <= usize::MAX,
    ensures
        queue_contents(*final(q)) == queue_contents(*old(q)) + plan_seq(
            n_jobs as int,
            n_threads as int,
        ),
{
    let mut i: usize = 0;
    while i < n_jobs
        invariant
            i <= n_jobs,
            n_jobs + n_threads <= usize::MAX,
            queue_contents(*q).len() == queue_contents(*old(q)).len() + i,
            forall|k: int|
                0 <= k < queue_contents(*old(q)).len() ==> queue_contents(*q)[k] == queue_contents(
                    *old(q),
                )[k],
            forall|k: int|
                queue_contents(*old(q)).len() <= k < queue_contents(*q).len() ==> queue_contents(
                    *q,
                )[k] == JobToken::Work,
        decreases n_jobs - i,
    {
        queue_push(q, JobToken::Work);
        i = i + 1;
    }
    let mut j: usize = 0;
    while j < n_threads
        invariant
            j <= n_threads,
            n_jobs + n_threads <= usize::MAX,
            queue_contents(*q).len() == queue_contents(*old(q)).len() + n_jobs + j,
            forall|k: int|
                0 <= k < queue_contents(*old(q)).len() ==> queue_contents(*q)[k] == queue_contents(
                    *old(q),
                )[k],
            forall|k: int|
                queue_contents(*old(q)).len() <= k < queue_contents(*old(q)).len() + n_jobs
                    ==> queue_contents(*q)[k] == JobToken::Work,
            forall|k: int|
                queue_contents(*old(q)).len() + n_jobs <= k < queue_contents(*q).len()
                    ==> queue_contents(*q)[k] == JobToken::Terminate,
        decreases n_threads - j,
    {
        queue_push(q, JobToken::Terminate);
        j = j + 1;
    }
    proof {
        assert(queue_contents(*q) =~= queue_contents(*old(q)) + plan_seq(
            n_jobs as int,
            n_threads as int,
        ));
    }
}

/// The number of `Work` tokens at the front of the queue, before the
/// first token of any other kind.
pub open spec fn leading_work(c: Seq<JobToken>) -> int
    decreases c.len(),
{
    if c.len() == 0 {
        0
    } else if c.first() == JobToken::Work {
        1 + leading_work(c.drop_first())
    } else {
        0
    }
}

/// A maximal all-`Work` prefix ending at a `Terminate` token pins the
/// leading-work count.
proof fn lemma_leading_work_at(c: Seq<JobToken>, k: int)
    requires
        0 <= k < c.len(),
        forall|j: int| 0 <= j < k ==> c[j] == JobToken::Work,
        c[k] == JobToken::Terminate,
    ensures
        leading_work(c) == k,
    decreases k,
{
    if k > 0 {
        lemma_leading_work_at(c.drop_first(), k - 1);
    }
}

/// Every token before the leading-work count is a `Work` token, and the
/// token at the count — when one exists — is a `Terminate` token.
proof fn lemma_leading_work_bounds(c: Seq<JobToken>)
    ensures
        0 <= leading_work(c) <= c.len(),
        forall|j: int| 0 <= j < leading_work(c) ==> c[j] == JobToken::Work,
        leading_work(c) < c.len() ==> c[leading_work(c)] == JobToken::Terminate,
    decreases c.len(),
{
    if c.len() > 0 && c.first() == JobToken::Work {
        lemma_leading_work_bounds(c.drop_first());
        assert forall|j: int| 0 <= j < leading_work(c) implies c[j] == JobToken::Work by {
            if j > 0 {
                assert(c.drop_first()[j - 1] == c[j]);
            }
        }
        if leading_work(c) < c.len() {
            assert(c.drop_first()[leading_work(c) - 1] == c[leading_work(c)]);
        }
    }
}

/// One worker's whole poll loop: the worker polls the queue until its
/// token arrives, executes one job per `Work` token, and returns — shut
/// down — once it receives a `Terminate` token.
///
/// The queue must still hold a `Terminate` token behind its leading
/// `Work` tokens; the worker consumes exactly those leading tokens and
/// that `Terminate` token, its counter rises by one per job, and the
/// tokens behind the `Terminate` are left in the queue.
#[verifier::loop_isolation(false)]
pub fn worker_run(q: &mut TokenQueue, s: WorkerState) -> (r: WorkerState)
    requires
        s.phase == WorkerPhase::Polling,
        s.completed + queue_contents(*old(q)).len() <= usize::MAX,
        leading_work(queue_contents(*old(q))) < queue_contents(*old(q)).len(),
    ensures
        r.id == s.id,
        r.phase == WorkerPhase::Terminated,
        queue_contents(*old(q))[leading_work(queue_contents(*old(q)))] == JobToken::Terminate,
        r.completed == s.completed + leading_work(queue_contents(*old(q))),
        queue_contents(*final(q)) == queue_contents(*old(q)).subrange(
            leading_work(queue_contents(*old(q))) + 1,
            queue_contents(*old(q)).len() as int,
        ),
{
    let ghost c = queue_contents(*old(q));
    proof {
        lemma_leading_work_bounds(c);
    }
    let mut state = s;
    loop
        invariant
            state.phase == WorkerPhase::Polling,
            state.id == s.id,
            s.completed <= state.completed,
            state.completed - s.completed <= leading_work(c),
            leading_work(c) < c.len(),
            forall|j: int| 0 <= j < leading_work(c) ==> c[j] == JobToken::Work,
            c[leading_work(c)] == JobToken::Terminate,
            state.completed + queue_contents(*q).len() <= usize::MAX,
            queue_contents(*q) =~= c.subrange(state.completed - s.completed, c.len() as int),
        decreases queue_contents(*q).len(),
    {
        let ghost k = state.completed - s.completed;
        match queue_steal(q) {
            StealOutcome::Got(t) => {
                proof {
                    assert(c.subrange(k, c.len() as int)[0] == c[k]);
                    assert(c.subrange(k, c.len() as int).drop_first() =~= c.subrange(
                        k + 1,
                        c.len() as int,
                    ));
                }
                let s1 = worker_observe(state, StealOutcome::Got(t));
                match t {
                    JobToken::Work => {
                        state = worker_complete_job(s1);
                    },
                    JobToken::Terminate => {
                        proof {
                            assert(t == c[k]);
                            assert(k == leading_work(c));
                        }
                        return s1;
                    },
                }
            },
            StealOutcome::Empty => {
                return unreached();
            },
            StealOutcome::Retry => {
                return unreached();
            },
        }
    }
}

/// Runs one whole dispatch against the real queue, single-threaded: the
/// tokens of the run are enqueued, and each worker in turn polls the
/// shared queue until its `Terminate` token arrives.
///
/// Every worker ends shut down with its own id, and the completed-job
/// counters of the pool sum to exactly `n_jobs`.  With the queue drained
/// in order and no contention, the first worker completes every job and
/// the rest each consume one `Terminate` token at once.
pub fn dispatch_sequential(n_jobs: usize, n_threads: usize) -> (workers: Vec<WorkerState>)
    requires
        1 <= n_threads,
        n_jobs + n_threads <= usize::MAX,
    ensures
        workers@.len() == n_threads,
        forall|w: int| 0 <= w < n_threads ==> (#[trigger] workers@[w]).id == w,
        forall|w: int|
            0 <= w < n_threads ==> (#[trigger] workers@[w]).phase == WorkerPhase::Terminated,
        sum_completed(workers@) == n_jobs,
{
    let mut q = queue_new();
    enqueue_run(&mut q, n_jobs, n_threads);
    proof {
        assert(queue_contents(q) =~= plan_seq(n_jobs as int, n_threads as int));
    }
    let mut workers: Vec<WorkerState> = Vec::new();
    let mut w: usize = 0;
    while w < n_threads
        invariant
            w <= n_threads,
            1 <= n_threads,
            n_jobs + n_threads <= usize::MAX,
            workers@.len() == w,
            forall|k: int| 0 <= k < w ==> (#[trigger] workers@[k]).id == k,
            forall|k: int|
                0 <= k < w ==> (#[trigger] workers@[k]).phase == WorkerPhase::Terminated,
            sum_completed(workers@) == if w == 0 {
                0int
            } else {
                n_jobs as int
            },
            queue_contents(q) =~= if w == 0 {
                plan_seq(n_jobs as int, n_threads as int)
            } else {
                plan_seq(0, (n_threads - w) as int)
            },
        decreases n_threads - w,
    {
        let s = worker_ready(worker_new(w));
        proof {
            if w == 0 {
                lemma_leading_work_at(queue_contents(q), n_jobs as int);
            } else {
                lemma_leading_work_at(queue_contents(q), 0);
            }
        }
        let s = worker_run(&mut q, s);
        proof {
            lemma_sum_push(workers@, s);
            if w == 0 {
                assert(queue_contents(q) =~= plan_seq(0, (n_threads - 1) as int));
            } else {
                assert(queue_contents(q) =~= plan_seq(0, (n_threads - w - 1) as int));
            }
        }
        workers.push(s);
        w = w + 1;
    }
    workers
}

} // verus!
