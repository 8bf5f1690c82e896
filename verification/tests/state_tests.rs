use afltriage::gdb_triage::{GdbTriageError, GdbTriageErrorKind};
use afltriage::state::{apply_outcomes, OutcomeSummary, TriageState, UpdateAction};

fn crash(h: &str) -> OutcomeSummary {
    OutcomeSummary::Crash { stackhash: h.to_string() }
}

fn errored(msg: &str) -> OutcomeSummary {
    OutcomeSummary::Errored {
        error: GdbTriageError::new_brief(GdbTriageErrorKind::Command, msg),
    }
}

#[test]
fn counters_sum_to_number_of_completed_cases() {
    let mut state = TriageState::new();
    let outcomes = vec![
        OutcomeSummary::NoCrash,
        crash("aaaa"),
        OutcomeSummary::Timedout,
        errored("boom"),
        crash("aaaa"),
        OutcomeSummary::NoCrash,
    ];
    let n = outcomes.len();
    let actions = apply_outcomes(&mut state, outcomes);
    assert_eq!(actions.len(), n);
    assert_eq!(
        state.crashed + state.no_crash + state.timedout + state.errored,
        n
    );
    assert_eq!(state.crashed, 2);
    assert_eq!(state.no_crash, 2);
    assert_eq!(state.timedout, 1);
    assert_eq!(state.errored, 1);
}

#[test]
fn signatures_never_outnumber_crashes() {
    let mut state = TriageState::new();
    state.update(crash("aaaa"));
    state.update(crash("bbbb"));
    state.update(crash("aaaa"));
    assert_eq!(state.crashed, 3);
    assert_eq!(state.crash_signature.len(), 2);
    assert!(state.crash_signature.len() <= state.crashed);
}

#[test]
fn duplicate_crash_is_dedup_suppressed() {
    // two test cases with the same backtrace: one report, two crashes
    let mut state = TriageState::new();
    let first = state.update(crash("deadbeefdeadbeef"));
    let second = state.update(crash("deadbeefdeadbeef"));
    assert_eq!(first, UpdateAction::NewCrash);
    assert_eq!(second, UpdateAction::DuplicateCrash);
    assert_eq!(state.crashed, 2);
    assert_eq!(state.crash_signature.len(), 1);
}

#[test]
fn timeout_only_raises_its_counter() {
    let mut state = TriageState::new();
    let action = state.update(OutcomeSummary::Timedout);
    assert_eq!(action, UpdateAction::Logged);
    assert_eq!(state.timedout, 1);
    assert_eq!(state.crashed, 0);
    assert!(state.crash_signature.is_empty());
    let (all_errored, any_errors, none_crashed, all_timedout) = state.final_flags(1);
    assert!(!all_errored);
    assert!(!any_errors);
    assert!(!none_crashed);
    assert!(all_timedout);
}

#[test]
fn identical_errors_coalesce() {
    let mut state = TriageState::new();
    state.update(errored("boom"));
    state.update(errored("boom"));
    state.update(errored("other"));
    assert_eq!(state.errored, 3);
    assert_eq!(state.unique_errors.len(), 2);
    let boom = state
        .unique_errors
        .iter()
        .find(|(e, _)| e.error == "boom")
        .unwrap();
    assert_eq!(boom.1, 2);
    let other = state
        .unique_errors
        .iter()
        .find(|(e, _)| e.error == "other")
        .unwrap();
    assert_eq!(other.1, 1);
}

#[test]
fn final_flags_for_all_errored() {
    let mut state = TriageState::new();
    state.update(errored("a"));
    state.update(errored("a"));
    let (all_errored, any_errors, none_crashed, all_timedout) = state.final_flags(2);
    assert!(all_errored);
    assert!(any_errors);
    assert!(!none_crashed);
    assert!(!all_timedout);
}

#[test]
fn clean_run_counts_no_crashes() {
    // one file, clean exit under the debugger: no_crash rises, nothing else
    let mut state = TriageState::new();
    let action = state.update(OutcomeSummary::NoCrash);
    assert_eq!(action, UpdateAction::Logged);
    assert_eq!(state.no_crash, 1);
    assert_eq!(state.crashed + state.timedout + state.errored, 0);
    let (_, _, none_crashed, _) = state.final_flags(1);
    assert!(none_crashed);
}
