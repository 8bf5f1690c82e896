//! End-to-end flows through the library, with the debugger's streams and the
//! JSON decoding supplied the way the surrounding application supplies them.

use afltriage::driver::{
    classify_triage, finish_parse, interpret_run, DriverStep, GdbTriager, ParseOutcome,
    RunOutcome, TriagePlan, TriageResult,
};
use afltriage::gdb_triage::{
    ChildStatus, GdbArchInfo, GdbContextInfo, GdbFrameInfo, GdbJsonResult, GdbResultCode,
    GdbStopInfo, GdbThread,
};
use afltriage::report::{build_crash_report, report_filename};
use afltriage::state::{OutcomeSummary, TriageState, UpdateAction};

fn framed(child: &str, backtrace: &str) -> String {
    format!(
        "----AFLTRIAGE_CHILD_OUTPUT_START----\n{}----AFLTRIAGE_CHILD_OUTPUT_END----\n\
         ----AFLTRIAGE_BACKTRACE_START----\n{}----AFLTRIAGE_BACKTRACE_END----\n",
        child, backtrace
    )
}

/// Decode the framed JSON payload the way the application does, into the
/// library's typed answer.
fn decode_payload(payload: &str) -> ParseOutcome {
    let value: serde_json::Value = match serde_json::from_str(payload) {
        Ok(v) => v,
        Err(e) => return ParseOutcome::ParseFailed(e.to_string()),
    };
    let result = match value.get("result").and_then(|r| r.as_str()) {
        Some("SUCCESS") => GdbResultCode::SUCCESS,
        Some("ERROR_TARGET_NOT_RUNNING") => GdbResultCode::ERROR_TARGET_NOT_RUNNING,
        _ => return ParseOutcome::ParseFailed("unknown result code".to_string()),
    };
    let context = value.get("context").map(|ctx| GdbContextInfo {
        stop_info: GdbStopInfo {
            signal_name: ctx["stop_info"]["signal_name"].as_str().unwrap().to_string(),
            signal_number: ctx["stop_info"]["signal_number"].as_i64().unwrap() as i32,
            signal_code: ctx["stop_info"]["signal_code"].as_i64().unwrap() as i32,
            faulting_address: ctx["stop_info"]["faulting_address"].as_u64(),
        },
        arch_info: GdbArchInfo {
            address_bits: ctx["arch_info"]["address_bits"].as_u64().unwrap() as usize,
            architecture: ctx["arch_info"]["architecture"].as_str().unwrap().to_string(),
        },
        primary_thread: GdbThread {
            tid: ctx["primary_thread"]["tid"].as_i64().unwrap() as i32,
            backtrace: ctx["primary_thread"]["backtrace"]
                .as_array()
                .unwrap()
                .iter()
                .map(|f| GdbFrameInfo {
                    address: f["address"].as_u64().unwrap(),
                    relative_address: f["relative_address"].as_u64().unwrap(),
                    module: f["module"].as_str().unwrap().to_string(),
                    module_address: f["module_address"].as_str().unwrap().to_string(),
                    symbol: None,
                })
                .collect(),
            current_instruction: None,
            registers: None,
        },
        other_threads: None,
    });
    ParseOutcome::Parsed(GdbJsonResult { result, context })
}

fn triage_streams(stdout: &str, stderr: &str) -> TriageResult {
    let step = interpret_run(RunOutcome::Completed {
        stdout: stdout.to_string(),
        stderr: stderr.to_string(),
        status: ChildStatus { success: true, code: Some(0) },
    });
    match step {
        DriverStep::Fail(e) => classify_triage(Err(e)),
        DriverStep::Parse { backtrace_json, child_stdout, child_stderr, status } => {
            let parsed = decode_payload(&backtrace_json);
            classify_triage(finish_parse(parsed, child_stdout, child_stderr, status))
        }
    }
}

const SEGV_JSON: &str = "{\"result\":\"SUCCESS\",\"context\":{\
    \"stop_info\":{\"signal_name\":\"SIGSEGV\",\"signal_number\":11,\"signal_code\":1,\"faulting_address\":0},\
    \"arch_info\":{\"address_bits\":64,\"architecture\":\"x86_64\"},\
    \"primary_thread\":{\"tid\":100,\"backtrace\":[{\"address\":4195744,\"relative_address\":1440,\
    \"module\":\"crash\",\"module_address\":\"crash+0x5a0\"}]}}}";

#[test]
fn clean_exit_counts_as_no_crash() {
    // one file, clean exit under the debugger: no context, no report
    let stdout = framed("ok\n", "{\"result\":\"ERROR_TARGET_NOT_RUNNING\"}\n");
    let stderr = framed("", "");
    let outcome = triage_streams(&stdout, &stderr);
    let mut state = TriageState::new();
    match outcome {
        TriageResult::NoCrash(child) => {
            assert_eq!(child.stdout, "ok\n");
            state.update(OutcomeSummary::NoCrash);
        }
        _ => panic!("expected no crash"),
    }
    assert_eq!(state.no_crash, 1);
    assert_eq!(state.crashed + state.timedout + state.errored, 0);
    assert!(state.crash_signature.is_empty());
}

#[test]
fn segv_crash_produces_one_report_file_name() {
    let stdout = framed("", &format!("{}\n", SEGV_JSON));
    let stderr = framed("", "");
    let outcome = triage_streams(&stdout, &stderr);
    let mut state = TriageState::new();
    let report = match outcome {
        TriageResult::Crash(t) => build_crash_report(t.response.context.as_ref().unwrap()),
        _ => panic!("expected a crash"),
    };
    let action = state.update(OutcomeSummary::Crash { stackhash: report.stackhash.clone() });
    assert_eq!(action, UpdateAction::NewCrash);
    assert_eq!(state.crashed, 1);
    assert_eq!(state.crash_signature.len(), 1);
    let name = report_filename(&report.terse_headline, &report.stackhash);
    assert!(name.ends_with(&format!("{}.txt", &report.stackhash[..8])));
}

#[test]
fn duplicate_crashes_write_one_report() {
    let stdout = framed("", &format!("{}\n", SEGV_JSON));
    let stderr = framed("", "");
    let mut state = TriageState::new();
    let mut new_reports = 0;
    for _ in 0..2 {
        let outcome = triage_streams(&stdout, &stderr);
        let report = match outcome {
            TriageResult::Crash(t) => build_crash_report(t.response.context.as_ref().unwrap()),
            _ => panic!("expected a crash"),
        };
        if state.update(OutcomeSummary::Crash { stackhash: report.stackhash.clone() })
            == UpdateAction::NewCrash
        {
            new_reports += 1;
        }
    }
    assert_eq!(state.crashed, 2);
    assert_eq!(state.crash_signature.len(), 1);
    assert_eq!(new_reports, 1);
}

#[test]
fn timeout_leaves_no_report() {
    let triager = GdbTriager::new("/tmp/triage.py".to_string());
    let args = vec!["/bin/loop".to_string(), "@@".to_string()];
    // the runner reports a deadline hit; no report is owed
    let plan = triager.plan_triage(&args, None, 200);
    assert!(matches!(plan, TriagePlan::Run(_)));
    let step = interpret_run(RunOutcome::TimedOut { message: "after 200ms".to_string() });
    let outcome = match step {
        DriverStep::Fail(e) => classify_triage(Err(e)),
        _ => panic!("expected a failure"),
    };
    assert!(matches!(outcome, TriageResult::Timedout));
    let mut state = TriageState::new();
    state.update(OutcomeSummary::Timedout);
    let (_, _, _, all_timedout) = state.final_flags(1);
    assert!(all_timedout);
    assert!(state.crash_signature.is_empty());
}

#[test]
fn missing_markers_count_as_one_error() {
    let outcome = triage_streams("no markers at all", "");
    let mut state = TriageState::new();
    match outcome {
        TriageResult::Error(e) => {
            assert_eq!(e.error, "Could not extract child STDOUT");
            state.update(OutcomeSummary::Errored { error: e });
        }
        _ => panic!("expected an error"),
    }
    assert_eq!(state.errored, 1);
    assert_eq!(state.unique_errors.len(), 1);
}

#[test]
fn garbage_json_is_a_parse_error() {
    let stdout = framed("", "not json\n");
    let stderr = framed("", "");
    match triage_streams(&stdout, &stderr) {
        TriageResult::Error(e) => assert_eq!(e.error, "Failed to parse triage JSON from GDB"),
        _ => panic!("expected an error"),
    }
}
