use xspeed::plan::token_plan;
use xspeed::pool::run_model;
use xspeed::queue::{queue_new, queue_push, queue_steal};
use xspeed::run::{dispatch_sequential, enqueue_run, worker_run};
use xspeed::token::{JobToken, StealOutcome};
use xspeed::worker::{
    worker_complete_job, worker_new, worker_observe, worker_ready, WorkerPhase, WorkerState,
};

fn total_completed(workers: &[WorkerState]) -> usize {
    workers.iter().map(|w| w.completed).sum()
}

#[test]
fn plan_orders_work_before_terminate() {
    let plan = token_plan(4, 2);
    assert_eq!(
        plan,
        vec![
            JobToken::Work,
            JobToken::Work,
            JobToken::Work,
            JobToken::Work,
            JobToken::Terminate,
            JobToken::Terminate,
        ]
    );
}

#[test]
fn plan_zero_jobs_is_all_terminate() {
    assert_eq!(token_plan(0, 3), vec![JobToken::Terminate; 3]);
    assert_eq!(token_plan(0, 1), vec![JobToken::Terminate]);
}

#[test]
fn worker_lifecycle_phases() {
    let s = worker_new(7);
    assert_eq!(s.id, 7);
    assert_eq!(s.completed, 0);
    assert_eq!(s.phase, WorkerPhase::Initializing);
    let s = worker_ready(s);
    assert_eq!(s.phase, WorkerPhase::Polling);
    let s = worker_observe(s, StealOutcome::Got(JobToken::Work));
    assert_eq!(s.phase, WorkerPhase::Executing);
    let s = worker_complete_job(s);
    assert_eq!(s.completed, 1);
    assert_eq!(s.phase, WorkerPhase::Polling);
    let s = worker_observe(s, StealOutcome::Got(JobToken::Terminate));
    assert_eq!(s.phase, WorkerPhase::Terminated);
    assert_eq!(s.completed, 1);
    assert_eq!(s.id, 7);
}

#[test]
fn worker_keeps_polling_on_empty_and_retry() {
    let s = worker_ready(worker_new(0));
    let s = worker_observe(s, StealOutcome::Empty);
    assert_eq!(s.phase, WorkerPhase::Polling);
    let s = worker_observe(s, StealOutcome::Retry);
    assert_eq!(s.phase, WorkerPhase::Polling);
    assert_eq!(s.completed, 0);
}

#[test]
fn instrumented_poll_loop_stops_at_terminate() {
    // A worker fed a poll trace never consumes anything after Terminate.
    let events = [
        StealOutcome::Retry,
        StealOutcome::Empty,
        StealOutcome::Got(JobToken::Work),
        StealOutcome::Got(JobToken::Work),
        StealOutcome::Got(JobToken::Terminate),
    ];
    let mut s = worker_ready(worker_new(0));
    let mut consumed_after_terminate = false;
    for e in events.iter() {
        if s.phase != WorkerPhase::Polling {
            consumed_after_terminate = true;
            break;
        }
        s = worker_observe(s, *e);
        if s.phase == WorkerPhase::Executing {
            s = worker_complete_job(s);
        }
    }
    assert!(!consumed_after_terminate);
    assert_eq!(s.phase, WorkerPhase::Terminated);
    assert_eq!(s.completed, 2);
}

#[test]
fn run_model_scenario_two_threads_four_jobs() {
    // Deliveries: four Work tokens, then one Terminate per worker.
    let schedule = vec![0, 1, 0, 1, 0, 1];
    let workers = run_model(4, 2, &schedule);
    assert_eq!(workers.len(), 2);
    assert!(workers.iter().all(|w| w.phase == WorkerPhase::Terminated));
    assert_eq!(workers[0].id, 0);
    assert_eq!(workers[1].id, 1);
    assert_eq!(workers[0].completed, 2);
    assert_eq!(workers[1].completed, 2);
    assert_eq!(total_completed(&workers), 4);
}

#[test]
fn run_model_unbalanced_schedule_conserves_tokens() {
    // One worker takes most of the jobs; the aggregate still matches.
    let schedule = vec![0, 0, 1, 2, 0, 2, 0, 1];
    let workers = run_model(5, 3, &schedule);
    assert_eq!(workers.len(), 3);
    assert!(workers.iter().all(|w| w.phase == WorkerPhase::Terminated));
    assert_eq!(workers[0].completed, 3);
    assert_eq!(workers[1].completed, 1);
    assert_eq!(workers[2].completed, 1);
    assert_eq!(total_completed(&workers), 5);
}

#[test]
fn run_model_zero_jobs_terminates_everyone_idle() {
    let schedule = vec![2, 0, 1];
    let workers = run_model(0, 3, &schedule);
    assert_eq!(workers.len(), 3);
    assert!(workers.iter().all(|w| w.phase == WorkerPhase::Terminated));
    assert!(workers.iter().all(|w| w.completed == 0));
}

#[test]
fn queue_is_fifo_and_exact() {
    let mut q = queue_new();
    assert_eq!(queue_steal(&mut q), StealOutcome::Empty);
    queue_push(&mut q, JobToken::Work);
    queue_push(&mut q, JobToken::Terminate);
    assert_eq!(queue_steal(&mut q), StealOutcome::Got(JobToken::Work));
    assert_eq!(queue_steal(&mut q), StealOutcome::Got(JobToken::Terminate));
    assert_eq!(queue_steal(&mut q), StealOutcome::Empty);
}

#[test]
fn enqueue_run_pushes_the_whole_plan_in_order() {
    let mut q = queue_new();
    enqueue_run(&mut q, 3, 2);
    let mut drained = Vec::new();
    loop {
        match queue_steal(&mut q) {
            StealOutcome::Got(t) => drained.push(t),
            StealOutcome::Empty => break,
            StealOutcome::Retry => {}
        }
    }
    assert_eq!(drained, token_plan(3, 2));
}

#[test]
fn worker_run_consumes_leading_work_and_one_terminate() {
    let mut q = queue_new();
    enqueue_run(&mut q, 2, 2);
    let w0 = worker_run(&mut q, worker_ready(worker_new(0)));
    assert_eq!(w0.phase, WorkerPhase::Terminated);
    assert_eq!(w0.completed, 2);
    // The second Terminate token is still queued for the second worker.
    let w1 = worker_run(&mut q, worker_ready(worker_new(1)));
    assert_eq!(w1.phase, WorkerPhase::Terminated);
    assert_eq!(w1.completed, 0);
    assert_eq!(queue_steal(&mut q), StealOutcome::Empty);
}

#[test]
fn dispatch_sequential_scenario_two_threads_four_jobs() {
    let workers = dispatch_sequential(4, 2);
    assert_eq!(workers.len(), 2);
    assert!(workers.iter().all(|w| w.phase == WorkerPhase::Terminated));
    assert_eq!(total_completed(&workers), 4);
}

#[test]
fn dispatch_sequential_scenario_one_thread_one_job() {
    let workers = dispatch_sequential(1, 1);
    assert_eq!(workers.len(), 1);
    assert_eq!(workers[0].phase, WorkerPhase::Terminated);
    assert_eq!(workers[0].completed, 1);
}

#[test]
fn dispatch_sequential_zero_jobs() {
    let workers = dispatch_sequential(0, 2);
    assert_eq!(workers.len(), 2);
    assert!(workers.iter().all(|w| w.phase == WorkerPhase::Terminated));
    assert_eq!(total_completed(&workers), 0);
}
