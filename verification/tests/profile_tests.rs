use afltriage::driver::TriageResult;
use afltriage::gdb_triage::{GdbTriageError, GdbTriageErrorKind};
use afltriage::profile::{
    compute_max_workers, effective_job_count, profile_gate, rss_delta, timeout_is_dangerous,
    ProfileVerdict,
};

#[test]
fn rss_delta_is_floored_at_one_kilobyte() {
    assert_eq!(rss_delta(100, 100), 1);
    assert_eq!(rss_delta(100, 101), 1);
    assert_eq!(rss_delta(100, 350), 250);
}

#[test]
fn worker_count_honours_the_memory_bound() {
    // plenty of memory: bounded by cores
    assert_eq!(compute_max_workers(8, 1_000_000, 1000), 8);
    // memory hungry target: bounded by memory
    assert_eq!(compute_max_workers(8, 3500, 1000), 3);
    assert_eq!(compute_max_workers(8, 999, 1000), 0);
}

#[test]
fn job_count_is_clamped_and_floored_at_one() {
    assert_eq!(effective_job_count(Some(4), 8, 100), 4);
    assert_eq!(effective_job_count(None, 8, 100), 8);
    // bounded by the memory-safe worker count and by the test cases
    assert_eq!(effective_job_count(Some(16), 8, 100), 8);
    assert_eq!(effective_job_count(Some(16), 8, 3), 3);
    assert_eq!(effective_job_count(Some(0), 8, 100), 1);
    assert_eq!(effective_job_count(None, 0, 0), 1);
}

#[test]
fn low_timeouts_are_flagged() {
    assert!(timeout_is_dangerous(0));
    assert!(timeout_is_dangerous(99));
    assert!(!timeout_is_dangerous(100));
    assert!(!timeout_is_dangerous(60000));
}

#[test]
fn profile_gate_verdicts() {
    let ok = TriageResult::Timedout;
    assert_eq!(profile_gate(false, false, &ok), ProfileVerdict::WarnTimeoutProceed);

    let err = TriageResult::Error(GdbTriageError::new_brief(GdbTriageErrorKind::Command, "x"));
    assert_eq!(profile_gate(false, false, &err), ProfileVerdict::Abort);

    // a bare-target spawn failure that is not a timeout aborts the run
    assert_eq!(profile_gate(true, false, &ok), ProfileVerdict::Abort);
    // a bare-target timeout only warns
    assert_eq!(profile_gate(true, true, &TriageResult::Timedout), ProfileVerdict::WarnTimeoutProceed);
}
