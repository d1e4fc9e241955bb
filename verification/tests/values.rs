use xspeed::config::{parse_n_threads, resolve_n_threads};
use xspeed::throughput::{average_duration_nanos, per_sec, RunMetrics};
use xspeed::validate::{
    format_isize, isize_validator, parse_isize, parse_u32, parse_usize, u32_validator,
    usize_validator,
};

#[test]
fn per_sec_zero_jobs_is_zero() {
    assert_eq!(per_sec(0, 0), 0);
    assert_eq!(per_sec(0, 1), 0);
    assert_eq!(per_sec(0, 123_456_789), 0);
    assert_eq!(per_sec(0, u64::MAX), 0);
}

#[test]
fn per_sec_below_resolution_is_zero() {
    assert_eq!(per_sec(1, 0), 0);
    assert_eq!(per_sec(5, 999), 0);
    assert_eq!(per_sec(usize::MAX, 999), 0);
}

#[test]
fn per_sec_exact_values() {
    // Four jobs in one second: 4.000 jobs per second.
    assert_eq!(per_sec(4, 1_000_000_000), 4_000);
    // One job in two seconds: 0.500 jobs per second.
    assert_eq!(per_sec(1, 2_000_000_000), 500);
    // A thousand jobs in one millisecond: one million jobs per second.
    assert_eq!(per_sec(1_000, 1_000_000), 1_000_000_000);
    // At the resolution threshold the rate is reported, not zeroed.
    assert_eq!(per_sec(1, 1_000), 1_000_000_000);
}

#[test]
fn per_sec_is_positive_on_every_non_degenerate_run() {
    // Rates below the scale's resolution clamp to the smallest
    // representable rate instead of truncating to zero.
    assert_eq!(per_sec(4, 5_000_000_000_000), 1);
    assert_eq!(per_sec(1, 2_000_000_000_000), 1);
    assert_eq!(per_sec(1, u64::MAX), 1);
    assert!(per_sec(4, 1_000_000) > 0);
}

#[test]
fn average_duration_exact_values() {
    assert_eq!(average_duration_nanos(0, 5_000), 0);
    assert_eq!(average_duration_nanos(1, 5_000), 5_000);
    assert_eq!(average_duration_nanos(4, 1_000), 250);
    assert_eq!(average_duration_nanos(3, 10), 3);
}

#[test]
fn single_job_mean_is_the_whole_span() {
    for span in [1u64, 999, 1_000, 123_456_789, u64::MAX] {
        assert_eq!(average_duration_nanos(1, span), span);
    }
}

#[test]
fn run_metrics_aggregates_both_figures() {
    let m = RunMetrics::new(4, 1_000_000_000);
    assert_eq!(m.n_jobs, 4);
    assert_eq!(m.span_nanos, 1_000_000_000);
    assert_eq!(m.rate_milli_per_sec, 4_000);
    assert_eq!(m.mean_job_nanos, 250_000_000);
}

#[test]
fn run_metrics_guards_degenerate_runs() {
    let m = RunMetrics::new(0, 77);
    assert_eq!(m.rate_milli_per_sec, 0);
    assert_eq!(m.mean_job_nanos, 0);
}

#[test]
fn usize_validator_accepts_numerals() {
    assert!(usize_validator("0".to_string()).is_ok());
    assert!(usize_validator("123".to_string()).is_ok());
    assert!(usize_validator("+7".to_string()).is_ok());
    assert!(usize_validator("007".to_string()).is_ok());
}

#[test]
fn usize_validator_rejects_junk() {
    assert!(usize_validator("".to_string()).is_err());
    assert!(usize_validator("+".to_string()).is_err());
    assert!(usize_validator("abc".to_string()).is_err());
    assert!(usize_validator("12x".to_string()).is_err());
    assert!(usize_validator(" 12".to_string()).is_err());
    assert!(usize_validator("-1".to_string()).is_err());
    assert!(usize_validator("99999999999999999999999999".to_string()).is_err());
}

#[test]
fn validators_name_the_type_and_input_in_the_error() {
    assert_eq!(
        usize_validator("abc".to_string()).unwrap_err(),
        "failed to parse integer (usize) (input was 'abc')"
    );
    assert_eq!(
        u32_validator("-3".to_string()).unwrap_err(),
        "failed to parse integer (u32) (input was '-3')"
    );
    assert_eq!(
        isize_validator("".to_string()).unwrap_err(),
        "failed to parse integer (isize) (input was '')"
    );
}

#[test]
fn format_isize_exact_values() {
    assert_eq!(format_isize(0), "0");
    assert_eq!(format_isize(42), "42");
    assert_eq!(format_isize(-17), "-17");
    assert_eq!(format_isize(1000), "1000");
    assert_eq!(format_isize(isize::MAX), "9223372036854775807");
    assert_eq!(format_isize(isize::MIN), "-9223372036854775808");
}

#[test]
fn u32_validator_checks_the_range() {
    assert!(u32_validator("4294967295".to_string()).is_ok());
    assert!(u32_validator("4294967296".to_string()).is_err());
    assert!(u32_validator("10".to_string()).is_ok());
    assert!(u32_validator("ten".to_string()).is_err());
}

#[test]
fn isize_validator_handles_signs() {
    assert!(isize_validator("-1".to_string()).is_ok());
    assert!(isize_validator("-0".to_string()).is_ok());
    assert!(isize_validator("+5".to_string()).is_ok());
    assert!(isize_validator("--1".to_string()).is_err());
    assert!(isize_validator("-".to_string()).is_err());
    assert!(isize_validator("9223372036854775807".to_string()).is_ok());
    assert!(isize_validator("9223372036854775808".to_string()).is_err());
    assert!(isize_validator("-9223372036854775808".to_string()).is_ok());
    assert!(isize_validator("-9223372036854775809".to_string()).is_err());
}

#[test]
fn parsers_return_the_denoted_value() {
    assert_eq!(parse_usize("42"), Some(42));
    assert_eq!(parse_usize("+42"), Some(42));
    assert_eq!(parse_usize("x42"), None);
    assert_eq!(parse_u32("007"), Some(7));
    assert_eq!(parse_u32("4294967295"), Some(u32::MAX));
    assert_eq!(parse_isize("-17"), Some(-17));
    assert_eq!(parse_isize("17"), Some(17));
    assert_eq!(parse_isize("-9223372036854775808"), Some(isize::MIN));
}

#[test]
fn parse_n_threads_resolves_sentinels() {
    assert_eq!(parse_n_threads(5), Ok(5));
    assert_eq!(parse_n_threads(1), Ok(1));
    let physical = parse_n_threads(-1).expect("physical core count");
    assert!(physical >= 1);
    let logical = parse_n_threads(-2).expect("logical core count");
    assert!(logical >= 1);
}

#[test]
fn parse_n_threads_rejects_other_nonpositives() {
    assert_eq!(
        parse_n_threads(0).unwrap_err(),
        "Illegal value for number of threads: 0"
    );
    assert_eq!(
        parse_n_threads(-3).unwrap_err(),
        "Illegal value for number of threads: -3"
    );
    assert_eq!(
        parse_n_threads(isize::MIN).unwrap_err(),
        "Illegal value for number of threads: -9223372036854775808"
    );
}

#[test]
fn resolve_n_threads_pins_the_sentinels() {
    assert_eq!(resolve_n_threads(-1, 4, 8), Ok(4));
    assert_eq!(resolve_n_threads(-2, 4, 8), Ok(8));
    assert_eq!(resolve_n_threads(3, 4, 8), Ok(3));
    assert_eq!(resolve_n_threads(1, 1, 1), Ok(1));
    assert_eq!(
        resolve_n_threads(0, 4, 8).unwrap_err(),
        "Illegal value for number of threads: 0"
    );
}
