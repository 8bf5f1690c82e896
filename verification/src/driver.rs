//! The debugger driver: composes each debugger invocation, interprets what
//! came back — framing both streams, weighing the script's diagnostics — and
//! classifies the decoded answer. The surrounding application only spawns the
//! process and decodes the JSON payload; every decision is made here.

use vstd::prelude::*;

use crate::cmdline::{compose_gdb_cmdline, gdb_args_spec, gdb_run_command, run_command_spec};
use crate::gdb_triage::{wf_context, ChildResult, ChildStatus, GdbJsonResult, GdbResultCode,
    GdbThread, GdbTriageError, GdbTriageErrorKind, GdbTriageResult};
use crate::marker::{extract_spec, marker_backtrace, marker_child_output};
use crate::strutil::{contains_sub, find_first, find_sub, first_line, first_line_spec,
    lemma_find_first_from_props, split_lines, split_lines_spec, str_contains};

verus! {

/// The outcome of one triage attempt on one test case.
pub enum TriageResult {
    NoCrash(ChildResult),
    Crash(GdbTriageResult),
    Error(GdbTriageError),
    Timedout,
}

/// What the process runner reports for one debugger invocation: the captured
/// streams and exit status, a wall-clock timeout, or a spawn failure.
pub enum RunOutcome {
    Completed { stdout: String, stderr: String, status: ChildStatus },
    TimedOut { message: String },
    Failed { message: String },
}

/// The driver's next step after a run: a typed failure, or a framed JSON
/// payload awaiting decoding, together with the child's captured output.
pub enum DriverStep {
    Fail(GdbTriageError),
    Parse {
        backtrace_json: String,
        child_stdout: String,
        child_stderr: String,
        status: ChildStatus,
    },
}

/// What decoding the framed JSON payload yielded.
pub enum ParseOutcome {
    Parsed(GdbJsonResult),
    ParseFailed(String),
}

/// The first move for one test case: a degenerate deadline is decided
/// without running anything, otherwise the composed debugger argv to spawn.
pub enum TriagePlan {
    Immediate(TriageResult),
    Run(Vec<String>),
}

/// Extraction between the child-output tags.
pub open spec fn child_output_extract(t: Seq<char>) -> Result<Seq<char>, Seq<char>> {
    extract_spec(
        t,
        "----AFLTRIAGE_CHILD_OUTPUT_START----"@,
        "----AFLTRIAGE_CHILD_OUTPUT_END----"@,
    )
}

/// Extraction between the backtrace tags.
pub open spec fn backtrace_extract(t: Seq<char>) -> Result<Seq<char>, Seq<char>> {
    extract_spec(t, "----AFLTRIAGE_BACKTRACE_START----"@, "----AFLTRIAGE_BACKTRACE_END----"@)
}

/// The debugger driver: the debugger executable's name and the path of the
/// materialized triage script. The script file itself is written (and later
/// removed) by the caller that owns the driver.
pub struct GdbTriager {
    pub gdb: String,
    pub triage_script_path: String,
}

impl GdbTriager {
    /// A driver using the default `gdb` executable and the given script path.
    pub fn new(triage_script_path: String) -> (r: GdbTriager)
        ensures
            r.gdb@ == "gdb"@,
            r.triage_script_path == triage_script_path,
    {
        GdbTriager { gdb: String::from_str("gdb"), triage_script_path }
    }

    /// Decide the first move for one test case: a zero deadline is an
    /// immediate timeout — no work is spawned — and any other deadline maps
    /// to the fully composed debugger argv for this test case.
    pub fn plan_triage(&self, prog_args: &Vec<String>, input_file: Option<&str>, timeout_ms: u64)
        -> (r: TriagePlan)
        requires
            prog_args@.len() >= 1,
        ensures
            timeout_ms == 0 ==> (r matches TriagePlan::Immediate(t) && t is Timedout),
            timeout_ms > 0 ==> (r matches TriagePlan::Run(c) && c.deep_view() == gdb_args_spec(
                run_command_spec(prog_args.deep_view(), match input_file {
                    Some(f) => Some(f@),
                    None => None,
                }),
                self.triage_script_path@,
            ) + prog_args.deep_view()),
    {
        if timeout_ms == 0 {
            TriagePlan::Immediate(TriageResult::Timedout)
        } else {
            let run_cmd = gdb_run_command(prog_args, input_file);
            TriagePlan::Run(
                compose_gdb_cmdline(prog_args, run_cmd.as_str(), self.triage_script_path.as_str()),
            )
        }
    }
}

/// Interpret one completed debugger run.
///
/// A timeout and a spawn failure map to their own error kinds. For captured
/// streams, the child's stdout and stderr are cut out of the debugger's
/// stdout and stderr between the child-output tags, and the script's JSON and
/// diagnostics between the backtrace tags — each failure with its own
/// message. An empty JSON payload beside non-empty diagnostics means the
/// script failed and its diagnostic lines become the error details.
pub fn interpret_run(run: RunOutcome) -> (r: DriverStep)
    ensures
        match run {
            RunOutcome::TimedOut { message } => r matches DriverStep::Fail(e) && e.error_kind
                == GdbTriageErrorKind::Timeout && e.error@ == "Timed out when triaging"@
                && e.details.deep_view() == seq![message@],
            RunOutcome::Failed { message } => r matches DriverStep::Fail(e) && e.error_kind
                == GdbTriageErrorKind::Command && e.error@ == "Failed to execute GDB command"@
                && e.details.deep_view() == seq![message@],
            RunOutcome::Completed { stdout, stderr, status } => {
                let co_out = child_output_extract(stdout@);
                let co_err = child_output_extract(stderr@);
                let bt_out = backtrace_extract(stdout@);
                let bt_err = backtrace_extract(stderr@);
                if co_out is Err {
                    r matches DriverStep::Fail(e) && e.error_kind == GdbTriageErrorKind::Command
                        && e.error@ == "Could not extract child STDOUT"@ && e.details.deep_view()
                        == seq![co_out->Err_0]
                } else if co_err is Err {
                    r matches DriverStep::Fail(e) && e.error_kind == GdbTriageErrorKind::Command
                        && e.error@ == "Could not extract child STDERR"@ && e.details.deep_view()
                        == seq![co_err->Err_0]
                } else if bt_out is Err {
                    r matches DriverStep::Fail(e) && e.error_kind == GdbTriageErrorKind::Command
                        && e.error@ == "Failed to get triage JSON from GDB"@
                        && e.details.deep_view() == seq![bt_out->Err_0]
                } else if bt_err is Err {
                    r matches DriverStep::Fail(e) && e.error_kind == GdbTriageErrorKind::Command
                        && e.error@ == "Failed to get triage errors from GDB"@
                        && e.details.deep_view() == seq![bt_err->Err_0]
                } else if bt_out->Ok_0.len() == 0 && bt_err->Ok_0.len() != 0 {
                    r matches DriverStep::Fail(e) && e.error_kind == GdbTriageErrorKind::Command
                        && e.error@ == "Triage script emitted errors"@ && e.details.deep_view()
                        == split_lines_spec(bt_err->Ok_0)
                } else {
                    r matches DriverStep::Parse {
                        backtrace_json,
                        child_stdout,
                        child_stderr,
                        status: st,
                    } && backtrace_json@ == bt_out->Ok_0 && child_stdout@ == co_out->Ok_0
                        && child_stderr@ == co_err->Ok_0 && st == status
                }
            },
        },
{
    match run {
        RunOutcome::TimedOut { message } => DriverStep::Fail(
            GdbTriageError::new(GdbTriageErrorKind::Timeout, "Timed out when triaging", message),
        ),
        RunOutcome::Failed { message } => DriverStep::Fail(
            GdbTriageError::new(
                GdbTriageErrorKind::Command,
                "Failed to execute GDB command",
                message,
            ),
        ),
        RunOutcome::Completed { stdout, stderr, status } => {
            let co = marker_child_output();
            let bt = marker_backtrace();
            let child_stdout = match co.extract(stdout.as_str()) {
                Ok(s) => String::from_str(s),
                Err(e) => {
                    return DriverStep::Fail(
                        GdbTriageError::new(
                            GdbTriageErrorKind::Command,
                            "Could not extract child STDOUT",
                            e,
                        ),
                    );
                },
            };
            let child_stderr = match co.extract(stderr.as_str()) {
                Ok(s) => String::from_str(s),
                Err(e) => {
                    return DriverStep::Fail(
                        GdbTriageError::new(
                            GdbTriageErrorKind::Command,
                            "Could not extract child STDERR",
                            e,
                        ),
                    );
                },
            };
            let backtrace_json = match bt.extract(stdout.as_str()) {
                Ok(s) => String::from_str(s),
                Err(e) => {
                    return DriverStep::Fail(
                        GdbTriageError::new(
                            GdbTriageErrorKind::Command,
                            "Failed to get triage JSON from GDB",
                            e,
                        ),
                    );
                },
            };
            let backtrace_messages = match bt.extract(stderr.as_str()) {
                Ok(s) => String::from_str(s),
                Err(e) => {
                    return DriverStep::Fail(
                        GdbTriageError::new(
                            GdbTriageErrorKind::Command,
                            "Failed to get triage errors from GDB",
                            e,
                        ),
                    );
                },
            };
            if backtrace_json.as_str().is_empty() && !backtrace_messages.as_str().is_empty() {
                return DriverStep::Fail(
                    GdbTriageError::new_detailed(
                        GdbTriageErrorKind::Command,
                        "Triage script emitted errors",
                        split_lines(backtrace_messages.as_str()),
                    ),
                );
            }
            DriverStep::Parse { backtrace_json, child_stdout, child_stderr, status }
        },
    }
}

/// Fold the decoded JSON payload back into a triage answer: a decode failure
/// is a command error with the decoder's message as its single detail.
pub fn finish_parse(
    p: ParseOutcome,
    child_stdout: String,
    child_stderr: String,
    status: ChildStatus,
) -> (r: Result<GdbTriageResult, GdbTriageError>)
    ensures
        match p {
            ParseOutcome::Parsed(json) => r matches Ok(t) && t.response == json && t.child.stdout
                == child_stdout && t.child.stderr == child_stderr && t.child.status == status,
            ParseOutcome::ParseFailed(message) => r matches Err(e) && e.error_kind
                == GdbTriageErrorKind::Command && e.error@
                == "Failed to parse triage JSON from GDB"@ && e.details.deep_view()
                == seq![message@],
        },
{
    match p {
        ParseOutcome::Parsed(json) => Ok(
            GdbTriageResult {
                response: json,
                child: ChildResult { stdout: child_stdout, stderr: child_stderr, status },
            },
        ),
        ParseOutcome::ParseFailed(message) => Err(
            GdbTriageError::new(
                GdbTriageErrorKind::Command,
                "Failed to parse triage JSON from GDB",
                message,
            ),
        ),
    }
}

/// Whether a thread list contains a thread with the given id.
fn threads_contain_tid(ts: &Option<Vec<GdbThread>>, tid: i32) -> (r: bool)
    ensures
        r == match ts {
            Some(v) => exists|i: int| 0 <= i < v@.len() && #[trigger] v@[i].tid == tid,
            None => false,
        },
{
    match ts {
        None => false,
        Some(v) => {
            let n = v.len();
            let mut i: usize = 0;
            while i < n
                invariant
                    (*ts matches Some(v2) && v2 == *v),
                    n == v@.len(),
                    i <= n,
                    forall|j: int| 0 <= j < i ==> #[trigger] v@[j].tid != tid,
                decreases n - i,
            {
                if v[i].tid == tid {
                    proof {
                        assert(v@[i as int].tid == tid);
                    }
                    return true;
                }
                i += 1;
            }
            false
        },
    }
}

/// Classify a finished triage attempt: a timeout error becomes the timeout
/// outcome, any other error is carried through, a successful answer with a
/// well-formed context is a crash, and an answer without a context — the
/// target not running — is a clean exit carrying the child's captured
/// output. A context that breaks the data-model invariants — an empty
/// primary backtrace, or the crashing thread repeated among the other
/// threads — is a malformed script answer and classifies as a command
/// error, so every crash provably carries at least one frame.
pub fn classify_triage(result: Result<GdbTriageResult, GdbTriageError>) -> (r: TriageResult)
    ensures
        r matches TriageResult::Crash(t2) ==> t2.response.context is Some && wf_context(
            t2.response.context->Some_0,
        ),
        match result {
            Err(e) => {
                if e.error_kind == GdbTriageErrorKind::Timeout {
                    r is Timedout
                } else {
                    r matches TriageResult::Error(e2) && e2 == e
                }
            },
            Ok(t) => {
                if t.response.result == GdbResultCode::SUCCESS && t.response.context is Some {
                    let ctx = t.response.context->Some_0;
                    if wf_context(ctx) {
                        r matches TriageResult::Crash(t2) && t2 == t
                    } else if ctx.primary_thread.backtrace@.len() == 0 {
                        r matches TriageResult::Error(e) && e.error_kind
                            == GdbTriageErrorKind::Command && e.error@
                            == "Triage context has an empty backtrace"@ && e.details.deep_view()
                            == Seq::<Seq<char>>::empty()
                    } else {
                        r matches TriageResult::Error(e) && e.error_kind
                            == GdbTriageErrorKind::Command && e.error@
                            == "Triage context repeats the crashing thread"@
                            && e.details.deep_view() == Seq::<Seq<char>>::empty()
                    }
                } else {
                    r matches TriageResult::NoCrash(c) && c == t.child
                }
            },
        },
{
    match result {
        Err(e) => {
            if e.error_kind == GdbTriageErrorKind::Timeout {
                TriageResult::Timedout
            } else {
                TriageResult::Error(e)
            }
        },
        Ok(t) => {
            if t.response.result == GdbResultCode::SUCCESS && t.response.context.is_some() {
                let violation = {
                    let ctx = t.response.context.as_ref().unwrap();
                    if ctx.primary_thread.backtrace.len() == 0 {
                        Some("Triage context has an empty backtrace")
                    } else if threads_contain_tid(&ctx.other_threads, ctx.primary_thread.tid) {
                        Some("Triage context repeats the crashing thread")
                    } else {
                        None
                    }
                };
                match violation {
                    Some(message) => TriageResult::Error(
                        GdbTriageError::new_brief(GdbTriageErrorKind::Command, message),
                    ),
                    None => TriageResult::Crash(t),
                }
            } else {
                TriageResult::NoCrash(t.child)
            }
        },
    }
}

/// The scripted command that makes the debugger print its own version and
/// its script runtime's version, each behind a tag on its own line.
pub fn gdb_version_probe_args() -> (r: Vec<String>)
    ensures
        r.deep_view() =~= seq![
            "--nx"@,
            "--batch"@,
            "-iex"@,
            "python import gdb, sys; print('V:'+gdb.execute('show version', to_string=True).splitlines()[0]); print('P:'+sys.version.splitlines()[0].strip())"@,
        ],
{
    let mut r: Vec<String> = Vec::new();
    r.push(String::from_str("--nx"));
    r.push(String::from_str("--batch"));
    r.push(String::from_str("-iex"));
    r.push(
        String::from_str(
            "python import gdb, sys; print('V:'+gdb.execute('show version', to_string=True).splitlines()[0]); print('P:'+sys.version.splitlines()[0].strip())",
        ),
    );
    r
}

/// Find a tag in the probe's stdout and return the rest of that line.
pub fn parse_marked_first_line(stdout: &str, tag: &str) -> (r: Option<String>)
    ensures
        match find_first(stdout@, tag@) {
            None => r is None,
            Some(i) => r matches Some(v) && v@ == first_line_spec(stdout@.skip(i + tag@.len())),
        },
{
    let n = stdout.unicode_len();
    match find_sub(stdout, tag) {
        Some(i) => {
            proof {
                lemma_find_first_from_props(stdout@, tag@, 0);
            }
            let rest = stdout.substring_char(i + tag.unicode_len(), n);
            proof {
                assert(rest@ =~= stdout@.skip(i + tag@.len() as int));
            }
            Some(String::from_str(first_line(rest)))
        },
        None => None,
    }
}

/// Whether the debugger is usable: the probe must exit successfully and its
/// stdout must carry both the debugger-version and runtime-version tags.
pub fn gdb_check_ok(status_success: bool, stdout: &str) -> (r: bool)
    ensures
        r == (status_success && contains_sub(stdout@, "V:"@) && contains_sub(stdout@, "P:"@)),
{
    if !status_success {
        return false;
    }
    let has_version = str_contains(stdout, "V:");
    let has_python = str_contains(stdout, "P:");
    has_version && has_python
}

} // verus!
