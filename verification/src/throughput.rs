//! Throughput aggregation: jobs per second and mean per-job duration,
//! computed once from the total job count and the measured wall-clock span.
//!
//! Durations are carried as whole nanoseconds.  A rate is reported in
//! thousandths of a job per second, so that runs slower than one job per
//! second still report a fine-grained rate; a run whose true rate is
//! below one thousandth of a job per second reports the smallest
//! representable rate rather than zero.  Zero is reported exactly when
//! no job ran or the span is below the resolvable threshold.

use vstd::arithmetic::div_mod::lemma_div_pos_is_pos;
use vstd::prelude::*;

verus! {

/// Nanoseconds in one second.
pub const NANOS_PER_SEC: u64 = 1_000_000_000;

/// Spans below this many nanoseconds (one microsecond) are too short to
/// resolve; a rate over such a span is reported as zero.
pub const MIN_RESOLVABLE_NANOS: u64 = 1_000;

/// A reported rate is scaled by this factor: it counts thousandths of a
/// job per second.
pub const RATE_SCALE: u64 = 1_000;

/// The rate, in thousandths of a job per second, of `n` jobs over a span
/// of `span_nanos` nanoseconds: zero when — and only when — no job ran
/// or the span is below the resolvable threshold, and otherwise `n /
/// span` in seconds, rounded toward zero, but never below the smallest
/// representable rate.
pub open spec fn per_sec_spec(n: int, span_nanos: int) -> int {
    if n == 0 || span_nanos < MIN_RESOLVABLE_NANOS {
        0
    } else {
        let r = (n * NANOS_PER_SEC * RATE_SCALE) / span_nanos;
        if r == 0 {
            1
        } else {
            r
        }
    }
}

/// The mean duration of one job, in nanoseconds, rounded toward zero;
/// zero when no job ran.
pub open spec fn average_duration_spec(n: int, span_nanos: int) -> int {
    if n == 0 {
        0
    } else {
        span_nanos / n
    }
}

/// Jobs per second over a wall-clock span, in thousandths of a job per
/// second.
pub fn per_sec(n: usize, span_nanos: u64) -> (r: u128)
    ensures
        r == per_sec_spec(n as int, span_nanos as int),
{
    if n == 0 || span_nanos < MIN_RESOLVABLE_NANOS {
        0
    } else {
        proof {
            let nn = n as u128;
            assert(nn <= 18_446_744_073_709_551_615u128);
            assert(NANOS_PER_SEC as u128 == 1_000_000_000u128);
            assert(RATE_SCALE as u128 == 1_000u128);
            assert(nn * 1_000_000_000u128 * 1_000u128 <= 18_446_744_073_709_551_615u128
                * 1_000_000_000u128 * 1_000u128) by (nonlinear_arith)
                requires
                    nn <= 18_446_744_073_709_551_615u128,
            ;
        }
        let q = (n as u128) * (NANOS_PER_SEC as u128) * (RATE_SCALE as u128) / (span_nanos as u128);
        if q == 0 {
            1
        } else {
            q
        }
    }
}

/// Mean per-job duration in nanoseconds over a wall-clock span.
pub fn average_duration_nanos(n: usize, span_nanos: u64) -> (r: u64)
    ensures
        r == average_duration_spec(n as int, span_nanos as int),
{
    if n == 0 {
        0
    } else {
        span_nanos / (n as u64)
    }
}

/// The rate is zero exactly on the degenerate inputs: with no jobs, or
/// with a span below the resolvable threshold, it is zero; on every
/// other input it is positive.
pub proof fn lemma_per_sec_degenerate(n: int, span_nanos: int)
    requires
        0 <= n,
    ensures
        per_sec_spec(0, span_nanos) == 0,
        span_nanos < MIN_RESOLVABLE_NANOS ==> per_sec_spec(n, span_nanos) == 0,
        n > 0 && span_nanos >= MIN_RESOLVABLE_NANOS ==> per_sec_spec(n, span_nanos) > 0,
        per_sec_spec(n, span_nanos) == 0 <==> (n == 0 || span_nanos < MIN_RESOLVABLE_NANOS),
{
    if n > 0 && span_nanos >= MIN_RESOLVABLE_NANOS {
        lemma_div_pos_is_pos(n * NANOS_PER_SEC * RATE_SCALE, span_nanos);
    }
}

/// A run of exactly one job has the whole span as its mean duration.
pub proof fn lemma_average_duration_single_job(span_nanos: int)
    ensures
        average_duration_spec(1, span_nanos) == span_nanos,
{
}

/// The aggregate measurements of one finished run, derived once after
/// every worker has been joined and read-only thereafter.
pub struct RunMetrics {
    /// Total jobs requested and completed over the run.
    pub n_jobs: usize,
    /// Total wall-clock span of the run, in nanoseconds.
    pub span_nanos: u64,
    /// Jobs per second, in thousandths of a job per second.
    pub rate_milli_per_sec: u128,
    /// Mean duration of one job, in nanoseconds.
    pub mean_job_nanos: u64,
}

impl RunMetrics {
    /// The derived fields agree with the recorded count and span.
    pub open spec fn wf(self) -> bool {
        &&& self.rate_milli_per_sec == per_sec_spec(self.n_jobs as int, self.span_nanos as int)
        &&& self.mean_job_nanos == average_duration_spec(self.n_jobs as int, self.span_nanos as int)
    }

    /// Aggregates one run's job count and wall-clock span.
    pub fn new(n_jobs: usize, span_nanos: u64) -> (m: RunMetrics)
        ensures
            m.n_jobs == n_jobs,
            m.span_nanos == span_nanos,
            m.wf(),
    {
        RunMetrics {
            n_jobs,
            span_nanos,
            rate_milli_per_sec: per_sec(n_jobs, span_nanos),
            mean_job_nanos: average_duration_nanos(n_jobs, span_nanos),
        }
    }
}

} // verus!
