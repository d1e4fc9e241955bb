//! The shared token queue, backed by a FIFO work-stealing deque of the
//! `crossbeam_deque` crate.
//!
//! The queue here owns both of its endpoints — the producer handle and
//! one stealer handle — so every call goes through `&mut` and sees
//! single-threaded behaviour: a push appends at the back, and a steal
//! takes the front token or reports the queue empty.  `Retry`, the
//! transient contention report of the underlying deque, leaves the queue
//! unchanged whenever it is returned.

use vstd::prelude::*;

use crate::token::{JobToken, StealOutcome};

verus! {

/// A FIFO queue of job tokens.  One producer appends at the back;
/// consumers take from the front.
#[verifier::external_body]
pub struct TokenQueue {
    local: crossbeam_deque::Worker<JobToken>,
    remote: crossbeam_deque::Stealer<JobToken>,
}

/// The tokens now held by the queue, front first.
pub uninterp spec fn queue_contents(q: TokenQueue) -> Seq<JobToken>;

/// Relies on `crossbeam_deque::Worker::new_fifo`: creates an empty FIFO
/// deque whose stealers take tasks from the end opposite to pushes.
#[verifier::external_body]
pub fn queue_new() -> (q: TokenQueue)
    ensures
        queue_contents(q) == Seq::<JobToken>::empty(),
{
    let local = crossbeam_deque::Worker::new_fifo();
    let remote = local.stealer();
    TokenQueue { local, remote }
}

/// Relies on `crossbeam_deque::Worker::push`: appends one task at the
/// back of the deque.
#[verifier::external_body]
pub fn queue_push(q: &mut TokenQueue, t: JobToken)
    ensures
        queue_contents(*final(q)) == queue_contents(*old(q)).push(t),
{
    q.local.push(t);
}

/// Relies on `crossbeam_deque::Stealer::steal` on a FIFO deque: a steal
/// takes the front task, or reports `Empty` when the deque holds none.
///
/// `Steal::Retry` reports a lost race against a concurrent operation on
/// the same deque: the buffer was swapped, or another consumer moved the
/// front index between the read and the claiming compare-exchange.  The
/// queue here owns its only two endpoints and is reached through `&mut`
/// alone, so no concurrent operation exists, the compare-exchange cannot
/// lose, and a steal through this wrapper never reports `Retry`.
#[verifier::external_body]
pub fn queue_steal(q: &mut TokenQueue) -> (r: StealOutcome)
    ensures
        match r {
            StealOutcome::Got(t) => {
                &&& queue_contents(*old(q)).len() > 0
                &&& t == queue_contents(*old(q))[0]
                &&& queue_contents(*final(q)) == queue_contents(*old(q)).drop_first()
            },
            StealOutcome::Empty => {
                &&& queue_contents(*old(q)).len() == 0
                &&& queue_contents(*final(q)) == queue_contents(*old(q))
            },
            StealOutcome::Retry => false,
        },
{
    match q.remote.steal() {
        crossbeam_deque::Steal::Success(t) => StealOutcome::Got(t),
        crossbeam_deque::Steal::Empty => StealOutcome::Empty,
        crossbeam_deque::Steal::Retry => StealOutcome::Retry,
    }
}

} // verus!
