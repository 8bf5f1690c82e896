use afltriage::cmdline::{
    asan_options_allow_abort, compose_gdb_cmdline, expand_filepath_templates, gdb_run_command,
    validate_target_args,
};

fn strings(v: &[&str]) -> Vec<String> {
    v.iter().map(|s| s.to_string()).collect()
}

#[test]
fn expand_substitutes_every_placeholder() {
    let args = strings(&["/bin/crash", "@@", "-o", "@@", "--flag"]);
    let out = expand_filepath_templates(&args, "/t/a");
    assert_eq!(out, strings(&["/bin/crash", "/t/a", "-o", "/t/a", "--flag"]));
}

#[test]
fn expand_preserves_count_balance() {
    let args = strings(&["/bin/crash", "-x", "@@", "y", "@@"]);
    let value = "/t/case";
    let out = expand_filepath_templates(&args, value);
    let placeholders = args.iter().filter(|a| a.as_str() == "@@").count();
    let occurrences = out.iter().filter(|a| a.as_str() == value).count();
    assert_eq!(placeholders, occurrences);
    // all other positional tokens are preserved verbatim
    for (a, o) in args.iter().zip(out.iter()) {
        if a != "@@" {
            assert_eq!(a, o);
        }
    }
}

#[test]
fn expand_without_placeholder_is_identity() {
    let args = strings(&["/bin/true"]);
    let out = expand_filepath_templates(&args, "/t/ok");
    assert_eq!(out, args);
}

#[test]
fn target_args_without_placeholder_and_without_stdin_are_rejected() {
    let args = strings(&["/bin/target", "-v"]);
    assert!(!validate_target_args(&args, false));
}

#[test]
fn target_args_with_stdin_need_no_placeholder() {
    let args = strings(&["/bin/target"]);
    assert!(validate_target_args(&args, true));
}

#[test]
fn target_args_with_placeholder_pass() {
    let args = strings(&["/bin/target", "@@"]);
    assert!(validate_target_args(&args, false));
}

#[test]
fn run_command_without_stdin_file() {
    let args = strings(&["/bin/target", "-a", "x"]);
    assert_eq!(gdb_run_command(&args, None), "run");
}

#[test]
fn run_command_with_stdin_file_quotes_the_path() {
    let args = strings(&["/bin/target", "-a", "x"]);
    assert_eq!(gdb_run_command(&args, Some("/t/f")), "run -a x < \"/t/f\"");
}

#[test]
fn asan_options_must_request_an_abort() {
    assert!(asan_options_allow_abort("abort_on_error=1:symbolize=0"));
    assert!(asan_options_allow_abort("x:abort_on_error=true"));
    assert!(!asan_options_allow_abort("abort_on_error=0"));
    assert!(!asan_options_allow_abort(""));
}

#[test]
fn composed_cmdline_keeps_the_required_order() {
    let prog = strings(&["/bin/crash", "/t/a"]);
    let cmdline = compose_gdb_cmdline(&prog, "run", "/tmp/triage.py");
    assert_eq!(cmdline.len(), 29 + prog.len());
    assert_eq!(cmdline[0], "--nx");
    assert_eq!(cmdline[1], "--batch");
    assert_eq!(cmdline[2], "-iex");
    assert_eq!(cmdline[3], "set print inferior-events off");
    // the child-output start marker is emitted before logging is redirected
    assert!(cmdline[5].contains("AFLTRIAGE_CHILD_OUTPUT_START"));
    assert_eq!(cmdline[7], "set logging file /dev/null");
    assert_eq!(cmdline[9], "set logging redirect on");
    assert_eq!(cmdline[11], "set logging on");
    assert_eq!(cmdline[13], "run");
    assert_eq!(cmdline[15], "set logging redirect off");
    assert_eq!(cmdline[17], "set logging off");
    assert!(cmdline[19].contains("AFLTRIAGE_CHILD_OUTPUT_END"));
    assert!(cmdline[21].contains("AFLTRIAGE_BACKTRACE_START"));
    assert_eq!(cmdline[22], "-x");
    assert_eq!(cmdline[23], "/tmp/triage.py");
    assert_eq!(cmdline[25], "gdbtriage");
    assert!(cmdline[27].contains("AFLTRIAGE_BACKTRACE_END"));
    // `--args` is followed by the full target argv, verbatim
    assert_eq!(cmdline[28], "--args");
    assert_eq!(cmdline[29], "/bin/crash");
    assert_eq!(cmdline[30], "/t/a");
}
