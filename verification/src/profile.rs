//! Target profiling arithmetic and the startup decisions that follow from a
//! profile: memory deltas, the memory-safe worker count, the effective job
//! count, and whether a profile outcome lets the run proceed.

use vstd::prelude::*;

use crate::driver::TriageResult;

verus! {

/// The per-child memory cost measured across one spawn: the growth of the
/// peak resident set, floored at one kilobyte so later divisions are sound.
pub fn rss_delta(before_kb: u64, after_kb: u64) -> (r: u64)
    requires
        before_kb <= after_kb,
    ensures
        r == if after_kb - before_kb >= 1 {
            after_kb - before_kb
        } else {
            1
        },
        r >= 1,
{
    if after_kb - before_kb >= 1 {
        after_kb - before_kb
    } else {
        1
    }
}

/// The memory-safe worker count: as many workers as full debugger footprints
/// fit into the available memory, but never more than the machine has cores.
/// The bound `workers × debugger_rss ≤ available` holds at start.
pub fn compute_max_workers(cpus: usize, available_kb: u64, debugger_rss_kb: u64) -> (r: usize)
    requires
        debugger_rss_kb >= 1,
    ensures
        r == if (available_kb as int / debugger_rss_kb as int) < cpus as int {
            available_kb as int / debugger_rss_kb as int
        } else {
            cpus as int
        },
        r <= cpus,
        r * debugger_rss_kb <= available_kb || r == cpus,
{
    let q = available_kb / debugger_rss_kb;
    if q < cpus as u64 {
        proof {
            assert(q * debugger_rss_kb <= available_kb) by (nonlinear_arith)
                requires
                    debugger_rss_kb >= 1,
                    q == available_kb as int / debugger_rss_kb as int,
            ;
        }
        q as usize
    } else {
        cpus
    }
}

/// The worker-pool size for the run: the smallest of the requested job
/// count, the memory-safe worker bound and the number of test cases — and at
/// least one.
pub fn effective_job_count(requested: Option<usize>, max_workers: usize, n_testcases: usize) -> (r:
    usize)
    ensures
        ({
            let want = match requested {
                Some(v) => if v < max_workers {
                    v as int
                } else {
                    max_workers as int
                },
                None => max_workers as int,
            };
            let capped = if want < n_testcases {
                want
            } else {
                n_testcases as int
            };
            r == if capped < 1 {
                1int
            } else {
                capped
            }
        }),
        r >= 1,
{
    let want = match requested {
        Some(v) => if v < max_workers {
            v
        } else {
            max_workers
        },
        None => max_workers,
    };
    let capped = if want < n_testcases {
        want
    } else {
        n_testcases
    };
    if capped < 1 {
        1
    } else {
        capped
    }
}

/// A requested deadline below a hundred milliseconds deserves a warning.
pub fn timeout_is_dangerous(timeout_ms: u64) -> (r: bool)
    ensures
        r == (timeout_ms < 100),
{
    timeout_ms < 100
}

/// What the startup does after profiling.
#[derive(Debug, PartialEq, Eq, Structural, Clone, Copy)]
pub enum ProfileVerdict {
    Proceed,
    WarnTimeoutProceed,
    Abort,
}

/// What follows from a profile: a bare-target failure that is not a timeout,
/// or a triage error, aborts the run; a timeout on either side only warns;
/// any other profile lets the run proceed.
pub fn profile_gate(
    process_failed: bool,
    process_timed_out: bool,
    triage: &TriageResult,
) -> (r: ProfileVerdict)
    ensures
        r == (if process_failed && !process_timed_out {
            ProfileVerdict::Abort
        } else if triage is Error {
            ProfileVerdict::Abort
        } else if (process_failed && process_timed_out) || triage is Timedout {
            ProfileVerdict::WarnTimeoutProceed
        } else {
            ProfileVerdict::Proceed
        }),
{
    if process_failed && !process_timed_out {
        return ProfileVerdict::Abort;
    }
    match triage {
        TriageResult::Error(_) => ProfileVerdict::Abort,
        TriageResult::Timedout => ProfileVerdict::WarnTimeoutProceed,
        _ => {
            if process_failed && process_timed_out {
                ProfileVerdict::WarnTimeoutProceed
            } else {
                ProfileVerdict::Proceed
            }
        },
    }
}

} // verus!
