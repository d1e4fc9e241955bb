//! The producer's enqueue plan: all `Work` tokens first, then exactly one
//! `Terminate` token per worker.

use vstd::prelude::*;

use crate::token::JobToken;

verus! {

/// The exact token sequence a run enqueues: `n_jobs` `Work` tokens
/// followed by `n_threads` `Terminate` tokens.
pub open spec fn plan_seq(n_jobs: int, n_threads: int) -> Seq<JobToken> {
    Seq::new(
        (n_jobs + n_threads) as nat,
        |i: int|
            if i < n_jobs {
                JobToken::Work
            } else {
                JobToken::Terminate
            },
    )
}

/// Builds the token sequence for a run: `n_jobs` `Work` tokens followed
/// by `n_threads` `Terminate` tokens, in that order.
pub fn token_plan(n_jobs: usize, n_threads: usize) -> (plan: Vec<JobToken>)
    requires
        n_jobs + n_threads <= usize::MAX,
    ensures
        plan@ == plan_seq(n_jobs as int, n_threads as int),
{
    let mut plan: Vec<JobToken> = Vec::new();
    let mut i: usize = 0;
    while i < n_jobs
        invariant
            i <= n_jobs,
            n_jobs + n_threads <= usize::MAX,
            plan@.len() == i,
            forall|k: int| 0 <= k < i ==> plan@[k] == JobToken::Work,
        decreases n_jobs - i,
    {
        plan.push(JobToken::Work);
        i = i + 1;
    }
    let mut j: usize = 0;
    while j < n_threads
        invariant
            j <= n_threads,
            n_jobs + n_threads <= usize::MAX,
            plan@.len() == n_jobs + j,
            forall|k: int| 0 <= k < n_jobs ==> plan@[k] == JobToken::Work,
            forall|k: int| n_jobs <= k < n_jobs + j ==> plan@[k] == JobToken::Terminate,
        decreases n_threads - j,
    {
        plan.push(JobToken::Terminate);
        j = j + 1;
    }
    proof {
        assert(plan@ =~= plan_seq(n_jobs as int, n_threads as int));
    }
    plan
}

} // verus!
