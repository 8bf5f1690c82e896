use afltriage::gdb_triage::{
    GdbArchInfo, GdbContextInfo, GdbFrameInfo, GdbRegister, GdbStopInfo, GdbThread,
};
use afltriage::report::{
    build_child_section, build_crash_report, build_text_report, report_filename, sanitize,
    stackhash_frames,
};
use regex::Regex;

fn frame(addr: u64, rel: u64, module: &str, module_address: &str) -> GdbFrameInfo {
    GdbFrameInfo {
        address: addr,
        relative_address: rel,
        module: module.to_string(),
        module_address: module_address.to_string(),
        symbol: None,
    }
}

fn segv_context() -> GdbContextInfo {
    GdbContextInfo {
        stop_info: GdbStopInfo {
            signal_name: "SIGSEGV".to_string(),
            signal_number: 11,
            signal_code: 1,
            faulting_address: Some(0),
        },
        arch_info: GdbArchInfo { address_bits: 64, architecture: "x86_64".to_string() },
        primary_thread: GdbThread {
            tid: 100,
            backtrace: vec![frame(0x4005a0, 0x5a0, "crash", "crash+0x5a0")],
            current_instruction: None,
            registers: None,
        },
        other_threads: None,
    }
}

#[test]
fn sanitize_keeps_alphanumerics_only() {
    assert_eq!(sanitize("SIGSEGV crash/0x5a0!"), "SIGSEGV_crash_0x5a0_");
    assert_eq!(sanitize(""), "");
    assert_eq!(sanitize("abc019XYZ"), "abc019XYZ");
}

#[test]
fn report_filenames_match_the_required_pattern() {
    let pattern = Regex::new(r"^afltriage_[A-Za-z0-9._-]+_[0-9a-f]{8}\.txt$").unwrap();
    let name = report_filename("SIGSEGV crash+0x5a0", "deadbeef00112233");
    assert!(pattern.is_match(&name), "{}", name);
    assert_eq!(name, "afltriage_SIGSEGV_crash_0x5a0_deadbeef.txt");

    // even a degenerate headline yields a well-formed name
    let odd = report_filename("", "0123456789abcdef");
    assert!(pattern.is_match(&odd), "{}", odd);
}

#[test]
fn stackhash_is_deterministic_and_hexadecimal() {
    let frames = vec![frame(0x4005a0, 0x5a0, "crash", "crash+0x5a0")];
    let again = vec![frame(0x4005a0, 0x5a0, "crash", "crash+0x5a0")];
    let a = stackhash_frames(&frames);
    let b = stackhash_frames(&again);
    assert_eq!(a, b);
    assert_eq!(a.len(), 16);
    assert!(a.chars().all(|c| c.is_ascii_hexdigit() && !c.is_ascii_uppercase()));
}

#[test]
fn stackhash_distinguishes_different_backtraces() {
    let a = stackhash_frames(&vec![frame(0x4005a0, 0x5a0, "crash", "crash+0x5a0")]);
    let b = stackhash_frames(&vec![frame(0x4006b0, 0x6b0, "crash", "crash+0x6b0")]);
    assert_ne!(a, b);
}

#[test]
fn crash_report_for_a_segv() {
    let rep = build_crash_report(&segv_context());
    assert_eq!(rep.headline, "Signal SIGSEGV (si_signo=11) in crash+0x5a0");
    assert_eq!(rep.terse_headline, "SIGSEGV_crash+0x5a0");
    assert_eq!(rep.stackhash.len(), 16);
    assert_eq!(rep.crash_context, "Faulting address: 0x0000000000000000\n");
    assert_eq!(rep.backtrace, "#0 0x00000000004005a0 in crash+0x5a0\n");
    assert_eq!(rep.asan_body, "");

    // the report file carries the first eight signature characters
    let name = report_filename(&rep.terse_headline, &rep.stackhash);
    assert!(name.ends_with(&format!("{}.txt", &rep.stackhash[..8])));
}

#[test]
fn crash_report_renders_registers_and_symbols() {
    let mut ctx = segv_context();
    ctx.primary_thread.registers = Some(vec![GdbRegister {
        name: "rip".to_string(),
        value: 0x4005a0,
        pretty_value: "0x4005a0".to_string(),
        reg_type: "long".to_string(),
        size: 8,
    }]);
    ctx.primary_thread.current_instruction = Some("mov (%rax),%eax".to_string());
    let rep = build_crash_report(&ctx);
    assert_eq!(rep.register_info, "rip 0x00000000004005a0 0x4005a0\n");
    assert_eq!(
        rep.crash_context,
        "Faulting address: 0x0000000000000000\nInstruction: mov (%rax),%eax\n"
    );
}

#[test]
fn child_sections() {
    assert_eq!(
        build_child_section("STDOUT", "", 25),
        "\nChild STDOUT (no output):\n"
    );
    assert_eq!(
        build_child_section("STDOUT", "a\nb\n", 0),
        "\nChild STDOUT (everything):\na\nb\n\n"
    );
    assert_eq!(
        build_child_section("STDERR", "a\nb\nc\n", 2),
        "\nChild STDERR (last 2 lines):\nb\nc\n"
    );
    // a final empty line is left out
    assert_eq!(
        build_child_section("STDERR", "a\n\n", 25),
        "\nChild STDERR (last 25 lines):\na\n"
    );
}

#[test]
fn text_report_layout() {
    let rep = build_crash_report(&segv_context());
    let text = build_text_report(
        &rep,
        "/bin/crash @@",
        "/t/a",
        true,
        25,
        "target stdout\n",
        "target stderr\n",
    );
    assert!(text.starts_with(&format!(
        "Summary: {}\nCommand line: /bin/crash @@\nTestcase: /t/a\nStack hash: {}\n\n",
        rep.headline, rep.stackhash
    )));
    assert!(text.contains("Register info:\n"));
    assert!(text.contains("Crashing thread backtrace:\n#0 "));
    // no ASAN section when no ASAN body was captured
    assert!(!text.contains("ASAN Report:"));
    assert!(text.contains("\nChild STDOUT (last 25 lines):\ntarget stdout\n"));
    assert!(text.contains("\nChild STDERR (last 25 lines):\ntarget stderr\n"));
}

#[test]
fn text_report_without_child_output() {
    let rep = build_crash_report(&segv_context());
    let text = build_text_report(&rep, "cmd", "/t/a", false, 25, "x", "y");
    assert!(!text.contains("Child STDOUT"));
    assert!(!text.contains("Child STDERR"));
}
