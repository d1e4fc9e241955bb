//! The unit of instruction exchanged through the shared queue, and the
//! three-way result of one non-blocking poll of that queue.

use vstd::prelude::*;

verus! {

/// One instruction passed through the shared queue: either an order to
/// execute one job, or an order to stop polling and shut down.
#[derive(Clone, Copy, PartialEq, Eq, Structural, Debug)]
pub enum JobToken {
    Work,
    Terminate,
}

/// The result of one non-blocking poll of the queue.
///
/// `Empty` and `Retry` are distinct from one another and from `Got`:
/// `Empty` reports that the queue held no token at the time of the poll,
/// while `Retry` reports a transient contention condition after which the
/// caller must poll again rather than conclude the queue is empty.
#[derive(Clone, Copy, PartialEq, Eq, Structural, Debug)]
pub enum StealOutcome {
    Got(JobToken),
    Empty,
    Retry,
}

} // verus!
