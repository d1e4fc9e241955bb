//! A verified dispatch harness for benchmarking a pool of worker threads.
//!
//! A single producer enqueues `Work` tokens followed by one `Terminate`
//! token per worker into a shared work-stealing queue; workers poll the
//! queue, execute one opaque job per `Work` token, and shut down on their
//! `Terminate` token.  The aggregate throughput of the run is then derived
//! from the job count and the measured wall-clock span.

pub mod config;
pub mod plan;
pub mod pool;
pub mod queue;
pub mod run;
pub mod throughput;
pub mod token;
pub mod validate;
pub mod worker;
