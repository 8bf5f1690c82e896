//! Target command-line handling: `@@` placeholder substitution and
//! composition of the debugger invocation.

use vstd::prelude::*;

use crate::marker::{marker_backtrace, marker_child_output};
use crate::strutil::{contains_sub, join_strings, join_with, str_contains, str_eq};

verus! {

/// What one argument becomes after substituting the test-case path for `@@`.
pub open spec fn expand_one_spec(arg: Seq<char>, value: Seq<char>) -> Seq<char> {
    if arg == "@@"@ {
        value
    } else {
        arg
    }
}

/// Replace every `@@` token of the target argv by the test-case path.
/// All other tokens are preserved verbatim, in order.
pub fn expand_filepath_templates(args: &Vec<String>, value: &str) -> (r: Vec<String>)
    ensures
        r@.len() == args@.len(),
        forall|i: int| 0 <= i < args@.len() ==> r@[i]@ == expand_one_spec(args@[i]@, value@),
{
    let mut expanded_args: Vec<String> = Vec::new();
    let n = args.len();
    let mut idx: usize = 0;
    while idx < n
        invariant
            n == args@.len(),
            idx <= n,
            expanded_args@.len() == idx,
            forall|i: int|
                0 <= i < idx ==> expanded_args@[i]@ == expand_one_spec(args@[i]@, value@),
        decreases n - idx,
    {
        let arg: &String = &args[idx];
        if str_eq(arg.as_str(), "@@") {
            expanded_args.push(String::from_str(value));
        } else {
            expanded_args.push(arg.clone());
        }
        idx += 1;
    }
    expanded_args
}

/// How many elements of `s` equal `x`.
pub open spec fn count_matching(s: Seq<Seq<char>>, x: Seq<char>) -> int
    decreases s.len(),
{
    if s.len() == 0 {
        0
    } else {
        (if s[0] == x {
            1int
        } else {
            0int
        }) + count_matching(s.skip(1), x)
    }
}

/// Substitution balance: as long as the test-case path itself does not occur
/// as a non-placeholder token of the original argv, the substituted argv
/// holds the path exactly as often as the original held `@@`; all other
/// tokens are preserved verbatim by the elementwise law of
/// `expand_filepath_templates`.
pub proof fn lemma_expand_counts(args: Seq<Seq<char>>, value: Seq<char>, out: Seq<Seq<char>>)
    requires
        out.len() == args.len(),
        forall|i: int| 0 <= i < args.len() ==> out[i] == expand_one_spec(args[i], value),
        forall|i: int| 0 <= i < args.len() ==> (args[i] == value ==> args[i] == "@@"@),
    ensures
        count_matching(out, value) == count_matching(args, "@@"@),
    decreases args.len(),
{
    if args.len() > 0 {
        lemma_expand_counts(args.skip(1), value, out.skip(1));
        assert(out[0] == expand_one_spec(args[0], value));
        if args[0] == "@@"@ {
            assert(out[0] == value);
        } else {
            assert(out[0] == args[0]);
            assert(out[0] != value);
        }
    }
}

/// The target argv holds at least one `@@` placeholder.
pub open spec fn has_atat_spec(args: Seq<Seq<char>>) -> bool {
    exists|i: int| 0 <= i < args.len() && args[i] == "@@"@
}

/// The startup rule for the target argv: without `--stdin` the argv must
/// carry a `@@` placeholder; the caller aborts startup when this is false.
pub fn validate_target_args(args: &Vec<String>, input_stdin: bool) -> (r: bool)
    ensures
        r == (input_stdin || has_atat_spec(args.deep_view())),
{
    if input_stdin {
        return true;
    }
    let n = args.len();
    let mut i: usize = 0;
    while i < n
        invariant
            n == args@.len(),
            i <= n,
            args.deep_view().len() == n,
            forall|j: int| 0 <= j < n ==> args.deep_view()[j] == args@[j]@,
            forall|j: int| 0 <= j < i ==> args.deep_view()[j] != "@@"@,
        decreases n - i,
    {
        if str_eq(args[i].as_str(), "@@") {
            assert(args.deep_view()[i as int] == "@@"@);
            return true;
        }
        i += 1;
    }
    assert(!has_atat_spec(args.deep_view()));
    false
}

/// The startup rule on a user-supplied `ASAN_OPTIONS` value: it must ask for
/// an abort on error, written as `abort_on_error=1` or `abort_on_error=true`
/// anywhere in the value; otherwise startup fails.
pub fn asan_options_allow_abort(val: &str) -> (r: bool)
    ensures
        r == (contains_sub(val@, "abort_on_error=1"@) || contains_sub(
            val@,
            "abort_on_error=true"@,
        )),
{
    str_contains(val, "abort_on_error=1") || str_contains(val, "abort_on_error=true")
}

/// The `run` command handed to the debugger: bare `run` when the target reads
/// no file from stdin, else `run` with the argv tail and a quoted stdin
/// redirection. The leading program name is left out: the debugger takes it
/// from its own `--args` tail.
pub open spec fn run_command_spec(args: Seq<Seq<char>>, input_file: Option<Seq<char>>) -> Seq<
    char,
> {
    match input_file {
        None => "run"@,
        Some(f) => "run "@ + join_with(args.skip(1), " "@) + " < \""@ + f + "\""@,
    }
}

/// Compose the debugger's `run` command for one test case.
pub fn gdb_run_command(prog_args: &Vec<String>, input_file: Option<&str>) -> (r: String)
    requires
        input_file is Some ==> prog_args@.len() >= 1,
    ensures
        r@ == run_command_spec(prog_args.deep_view(), match input_file {
            Some(f) => Some(f@),
            None => None,
        }),
{
    match input_file {
        None => {
            let r = String::from_str("run");
            r
        },
        Some(file) => {
            let mut tail: Vec<String> = Vec::new();
            let n = prog_args.len();
            let mut i: usize = 1;
            while i < n
                invariant
                    n == prog_args@.len(),
                    1 <= i <= n,
                    tail@.len() == i - 1,
                    forall|j: int| 0 <= j < i - 1 ==> tail@[j]@ == prog_args@[j + 1]@,
                decreases n - i,
            {
                tail.push(prog_args[i].clone());
                i += 1;
            }
            proof {
                assert(tail.deep_view() =~= prog_args.deep_view().skip(1));
            }
            let mut r = String::from_str("run ");
            r.append(join_strings(&tail, " ").as_str());
            r.append(" < \"");
            r.append(file);
            r.append("\"");
            r
        },
    }
}

/// The debugger argv before the target argv, in its required order: run
/// non-interactively, suppress inferior banners, frame the child output
/// between its markers with the debugger's own logging routed to a null sink
/// while the target runs, then frame the triage script's output between the
/// backtrace markers, and end with `--args`.
pub open spec fn gdb_args_spec(run_cmd: Seq<char>, script_path: Seq<char>) -> Seq<Seq<char>> {
    seq![
        "--nx"@,
        "--batch"@,
        "-iex"@,
        "set print inferior-events off"@,
        "-ex"@,
        "python [(x.write('----AFLTRIAGE_CHILD_OUTPUT_START----\\n'),x.flush()) for x in [sys.stdout, sys.stderr]]"@,
        "-ex"@,
        "set logging file /dev/null"@,
        "-ex"@,
        "set logging redirect on"@,
        "-ex"@,
        "set logging on"@,
        "-ex"@,
        run_cmd,
        "-ex"@,
        "set logging redirect off"@,
        "-ex"@,
        "set logging off"@,
        "-ex"@,
        "python [(x.write('----AFLTRIAGE_CHILD_OUTPUT_END----\\n'),x.flush()) for x in [sys.stdout, sys.stderr]]"@,
        "-ex"@,
        "python [(x.write('----AFLTRIAGE_BACKTRACE_START----\\n'),x.flush()) for x in [sys.stdout, sys.stderr]]"@,
        "-x"@,
        script_path,
        "-ex"@,
        "gdbtriage"@,
        "-ex"@,
        "python [(x.write('----AFLTRIAGE_BACKTRACE_END----\\n'),x.flush()) for x in [sys.stdout, sys.stderr]]"@,
        "--args"@,
    ]
}

/// The full debugger argv for one test case: the fixed debugger arguments,
/// then — after `--args` — the complete target argv, verbatim and in order.
pub fn compose_gdb_cmdline(prog_args: &Vec<String>, run_cmd: &str, script_path: &str) -> (r: Vec<
    String,
>)
    ensures
        r.deep_view() == gdb_args_spec(run_cmd@, script_path@) + prog_args.deep_view(),
{
    let co = marker_child_output();
    let bt = marker_backtrace();
    let mut r: Vec<String> = Vec::new();
    r.push(String::from_str("--nx"));
    r.push(String::from_str("--batch"));
    r.push(String::from_str("-iex"));
    r.push(String::from_str("set print inferior-events off"));
    r.push(String::from_str("-ex"));
    r.push(String::from_str(co.gdb_start));
    r.push(String::from_str("-ex"));
    r.push(String::from_str("set logging file /dev/null"));
    r.push(String::from_str("-ex"));
    r.push(String::from_str("set logging redirect on"));
    r.push(String::from_str("-ex"));
    r.push(String::from_str("set logging on"));
    r.push(String::from_str("-ex"));
    r.push(String::from_str(run_cmd));
    r.push(String::from_str("-ex"));
    r.push(String::from_str("set logging redirect off"));
    r.push(String::from_str("-ex"));
    r.push(String::from_str("set logging off"));
    r.push(String::from_str("-ex"));
    r.push(String::from_str(co.gdb_end));
    r.push(String::from_str("-ex"));
    r.push(String::from_str(bt.gdb_start));
    r.push(String::from_str("-x"));
    r.push(String::from_str(script_path));
    r.push(String::from_str("-ex"));
    r.push(String::from_str("gdbtriage"));
    r.push(String::from_str("-ex"));
    r.push(String::from_str(bt.gdb_end));
    r.push(String::from_str("--args"));
    let n = prog_args.len();
    let mut i: usize = 0;
    while i < n
        invariant
            n == prog_args@.len(),
            i <= n,
            r@.len() == 29 + i,
            forall|j: int| 0 <= j < 29 ==> r@[j]@ == gdb_args_spec(run_cmd@, script_path@)[j],
            forall|j: int| 0 <= j < i ==> r@[29 + j]@ == prog_args@[j]@,
        decreases n - i,
    {
        r.push(prog_args[i].clone());
        i += 1;
    }
    proof {
        assert(r.deep_view() =~= gdb_args_spec(run_cmd@, script_path@) + prog_args.deep_view());
    }
    r
}

} // verus!
