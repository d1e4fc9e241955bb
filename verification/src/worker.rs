//! The life of one worker: a state machine stepped once per poll of the
//! shared queue, and once per finished job.
//!
//! A worker is created `Initializing`, becomes `Polling` when its one-time
//! per-worker setup is done, moves to `Executing` when a poll hands it a
//! `Work` token, returns to `Polling` when the job finishes, and moves to
//! `Terminated` — finally — when a poll hands it a `Terminate` token.

use vstd::prelude::*;

use crate::token::{JobToken, StealOutcome};

verus! {

/// The phase a worker is in.
#[derive(Clone, Copy, PartialEq, Eq, Structural, Debug)]
pub enum WorkerPhase {
    /// One-time per-worker setup, before the first poll.
    Initializing,
    /// Repeatedly polling the queue for the next token.
    Polling,
    /// Running one job, synchronously.
    Executing,
    /// Shut down; this worker never polls again.
    Terminated,
}

/// The state of one worker: its stable id, the count of jobs it has
/// completed, and its current phase.
#[derive(Clone, Copy, PartialEq, Eq, Structural, Debug)]
pub struct WorkerState {
    pub id: usize,
    pub completed: usize,
    pub phase: WorkerPhase,
}

/// What one poll outcome does to a polling worker: `Work` starts a job,
/// `Terminate` shuts the worker down, and `Empty` or `Retry` leave it
/// polling.
pub open spec fn observe_spec(s: WorkerState, o: StealOutcome) -> WorkerState {
    match o {
        StealOutcome::Got(JobToken::Work) => WorkerState { phase: WorkerPhase::Executing, ..s },
        StealOutcome::Got(JobToken::Terminate) => WorkerState {
            phase: WorkerPhase::Terminated,
            ..s
        },
        StealOutcome::Empty => s,
        StealOutcome::Retry => s,
    }
}

/// What finishing one job does to an executing worker: its count rises by
/// one and it polls again.
pub open spec fn complete_spec(s: WorkerState) -> WorkerState {
    WorkerState { completed: (s.completed + 1) as usize, phase: WorkerPhase::Polling, ..s }
}

/// A fresh worker, before its one-time setup.
pub fn worker_new(id: usize) -> (s: WorkerState)
    ensures
        s == (WorkerState { id, completed: 0, phase: WorkerPhase::Initializing }),
{
    WorkerState { id, completed: 0, phase: WorkerPhase::Initializing }
}

/// Finishes the one-time per-worker setup: the worker starts polling.
pub fn worker_ready(s: WorkerState) -> (r: WorkerState)
    requires
        s.phase == WorkerPhase::Initializing,
    ensures
        r == (WorkerState { phase: WorkerPhase::Polling, ..s }),
{
    WorkerState { phase: WorkerPhase::Polling, ..s }
}

/// Steps a polling worker by the outcome of one poll of the queue.
pub fn worker_observe(s: WorkerState, o: StealOutcome) -> (r: WorkerState)
    requires
        s.phase == WorkerPhase::Polling,
    ensures
        r == observe_spec(s, o),
{
    match o {
        StealOutcome::Got(JobToken::Work) => WorkerState { phase: WorkerPhase::Executing, ..s },
        StealOutcome::Got(JobToken::Terminate) => WorkerState {
            phase: WorkerPhase::Terminated,
            ..s
        },
        StealOutcome::Empty => s,
        StealOutcome::Retry => s,
    }
}

/// Steps an executing worker whose job just finished normally.
pub fn worker_complete_job(s: WorkerState) -> (r: WorkerState)
    requires
        s.phase == WorkerPhase::Executing,
        s.completed < usize::MAX,
    ensures
        r == complete_spec(s),
{
    WorkerState { completed: s.completed + 1, phase: WorkerPhase::Polling, ..s }
}

/// One whole poll-loop step: the poll outcome is observed, and if it
/// started a job, the job runs to completion.
pub open spec fn poll_step(s: WorkerState, o: StealOutcome) -> WorkerState {
    let t = observe_spec(s, o);
    if t.phase == WorkerPhase::Executing {
        complete_spec(t)
    } else {
        t
    }
}

/// Whether a worker starting in state `s` can consume the whole event
/// sequence `events`, one poll-loop step per event: every step must find
/// the worker still polling, with room left in its counter.
pub open spec fn trace_ok(s: WorkerState, events: Seq<StealOutcome>) -> bool
    decreases events.len(),
{
    events.len() == 0 || {
        &&& s.phase == WorkerPhase::Polling
        &&& s.completed < usize::MAX
        &&& trace_ok(poll_step(s, events.first()), events.drop_first())
    }
}

/// The state a worker reaches after consuming the whole event sequence.
pub open spec fn trace_result(s: WorkerState, events: Seq<StealOutcome>) -> WorkerState
    decreases events.len(),
{
    if events.len() == 0 {
        s
    } else {
        trace_result(poll_step(s, events.first()), events.drop_first())
    }
}

/// Once a worker consumes a `Terminate` token it never polls again: in
/// any consumable event sequence, an event that hands the worker a
/// `Terminate` token is the last event of the sequence — so no `Work`
/// token, and no token at all, is ever consumed after it.
pub proof fn lemma_terminate_is_final(s: WorkerState, events: Seq<StealOutcome>, i: int)
    requires
        trace_ok(s, events),
        0 <= i < events.len(),
        events[i] == StealOutcome::Got(JobToken::Terminate),
    ensures
        i == events.len() - 1,
    decreases events.len(),
{
    if i == 0 {
        if events.len() > 1 {
            assert(poll_step(s, events.first()).phase == WorkerPhase::Terminated);
            assert(!trace_ok(poll_step(s, events.first()), events.drop_first()));
        }
    } else {
        lemma_terminate_is_final(poll_step(s, events.first()), events.drop_first(), i - 1);
        assert(events.drop_first()[i - 1] == events[i]);
    }
}

/// A worker consumes at most one `Terminate` token: any two events of a
/// consumable sequence that hand it one are the same event.
pub proof fn lemma_at_most_one_terminate(s: WorkerState, events: Seq<StealOutcome>, i: int, j: int)
    requires
        trace_ok(s, events),
        0 <= i <= j < events.len(),
        events[i] == StealOutcome::Got(JobToken::Terminate),
        events[j] == StealOutcome::Got(JobToken::Terminate),
    ensures
        i == j,
{
    lemma_terminate_is_final(s, events, i);
    lemma_terminate_is_final(s, events, j);
}

} // verus!
