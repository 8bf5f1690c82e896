//! Crash reports: the stack-derived signature used for deduplication, the
//! report record rendered from a crash context, the full textual report, and
//! the filesystem-safe report file name.

use vstd::prelude::*;

use crate::gdb_triage::{format_short_spec, GdbContextInfo, GdbFrameInfo, GdbRegister};
use crate::numfmt::{dec_digits, fnv1a, fnv1a_hash, hex_pad, is_hex_char, u64_to_hex16, usize_to_dec};
use crate::strutil::{join_strings, join_with, replace_all, replace_spec, split_lines,
    split_lines_spec};

verus! {

/// A character that is kept by `sanitize`: an ASCII letter or digit.
pub open spec fn is_alnum_char(c: char) -> bool {
    ||| 0x41 <= c as u32 <= 0x5a
    ||| 0x61 <= c as u32 <= 0x7a
    ||| 0x30 <= c as u32 <= 0x39
}

/// A character allowed in a report file name: an ASCII letter or digit, or
/// one of `.`, `_`, `-`.
pub open spec fn is_fname_char(c: char) -> bool {
    ||| is_alnum_char(c)
    ||| c == '.'
    ||| c == '_'
    ||| c == '-'
}

/// What sanitizing leaves: every character that is not an ASCII letter or
/// digit becomes an underscore.
pub open spec fn sanitize_spec(s: Seq<char>) -> Seq<char> {
    Seq::new(
        s.len(),
        |i: int|
            if is_alnum_char(s[i]) {
                s[i]
            } else {
                '_'
            },
    )
}

/// Make a string safe for use inside a file name.
pub fn sanitize(s: &str) -> (r: String)
    ensures
        r@ == sanitize_spec(s@),
{
    let n = s.unicode_len();
    let mut r = String::new();
    let mut i: usize = 0;
    proof {
        assert(r@ =~= sanitize_spec(s@.take(0)));
    }
    while i < n
        invariant
            n == s@.len(),
            i <= n,
            r@ == sanitize_spec(s@.take(i as int)),
        decreases n - i,
    {
        let c = s.get_char(i);
        let u = c as u32;
        if (0x41 <= u && u <= 0x5a) || (0x61 <= u && u <= 0x7a) || (0x30 <= u && u <= 0x39) {
            r.append(s.substring_char(i, i + 1));
        } else {
            proof {
                reveal_strlit("_");
            }
            r.append("_");
        }
        proof {
            assert(r@ =~= sanitize_spec(s@.take(i as int + 1)));
        }
        i += 1;
    }
    proof {
        assert(s@.take(n as int) =~= s@);
    }
    r
}

/// The signature key of a backtrace: the module+offset strings of its
/// frames, joined with `|`.
pub open spec fn frames_key_spec(frames: Seq<GdbFrameInfo>) -> Seq<char> {
    join_with(frames.map_values(|f: GdbFrameInfo| f.module_address@), "|"@)
}

/// The stack-derived signature: the FNV-1a digest of the frames' key,
/// sixteen lower-case hexadecimal characters.
pub open spec fn stackhash_spec(frames: Seq<GdbFrameInfo>) -> Seq<char> {
    hex_pad(fnv1a(frames_key_spec(frames)) as int, 16)
}

/// Compute the deduplication signature of a backtrace.
pub fn stackhash_frames(frames: &Vec<GdbFrameInfo>) -> (r: String)
    ensures
        r@ == stackhash_spec(frames@),
        r@.len() == 16,
        forall|i: int| 0 <= i < r@.len() ==> is_hex_char(#[trigger] r@[i]),
{
    let mut keys: Vec<String> = Vec::new();
    let n = frames.len();
    let mut i: usize = 0;
    while i < n
        invariant
            n == frames@.len(),
            i <= n,
            keys@.len() == i,
            forall|j: int| 0 <= j < i ==> keys@[j]@ == frames@[j].module_address@,
        decreases n - i,
    {
        keys.push(frames[i].module_address.clone());
        i += 1;
    }
    proof {
        assert(keys.deep_view() =~= frames@.map_values(|f: GdbFrameInfo| f.module_address@));
    }
    let key = join_strings(&keys, "|");
    u64_to_hex16(fnv1a_hash(key.as_str()))
}

/// Signature determinism: the stack-derived signature depends on the frames'
/// module+offset strings alone, so two triages of the same test case under an
/// identical environment — which capture the same backtrace — carry the same
/// signature.
pub proof fn lemma_stackhash_deterministic(a: Seq<GdbFrameInfo>, b: Seq<GdbFrameInfo>)
    requires
        a.map_values(|f: GdbFrameInfo| f.module_address@) == b.map_values(
            |f: GdbFrameInfo| f.module_address@,
        ),
    ensures
        stackhash_spec(a) == stackhash_spec(b),
{
}

/// The name of one report file.
pub open spec fn report_filename_spec(terse: Seq<char>, hash: Seq<char>) -> Seq<char> {
    "afltriage_"@ + fname_mid_spec(terse) + "_"@ + hash.take(8) + ".txt"@
}

/// The middle part of a report file name: the sanitized terse headline, or a
/// single underscore when that is empty.
pub open spec fn fname_mid_spec(terse: Seq<char>) -> Seq<char> {
    if sanitize_spec(terse).len() == 0 {
        "_"@
    } else {
        sanitize_spec(terse)
    }
}

/// Compose a report file name: `afltriage_<sanitized headline>_<first eight
/// signature characters>.txt`. The middle part is non-empty and holds only
/// file-name-safe characters; with a hexadecimal signature the whole name
/// matches the report-name pattern.
pub fn report_filename(terse: &str, stackhash: &str) -> (r: String)
    requires
        stackhash@.len() >= 8,
    ensures
        r@ == report_filename_spec(terse@, stackhash@),
        fname_mid_spec(terse@).len() >= 1,
        forall|i: int|
            0 <= i < fname_mid_spec(terse@).len() ==> is_fname_char(
                #[trigger] fname_mid_spec(terse@)[i],
            ),
{
    proof {
        reveal_strlit("afltriage_");
        reveal_strlit("_");
        reveal_strlit(".txt");
    }
    let mut r = String::from_str("afltriage_");
    let mid = sanitize(terse);
    proof {
        assert forall|i: int| 0 <= i < fname_mid_spec(terse@).len() implies is_fname_char(
            #[trigger] fname_mid_spec(terse@)[i],
        ) by {
            if sanitize_spec(terse@).len() == 0 {
                assert(fname_mid_spec(terse@) == "_"@);
                assert("_"@[0] == '_');
            } else {
                assert(fname_mid_spec(terse@)[i] == sanitize_spec(terse@)[i]);
            }
        }
    }
    if mid.as_str().is_empty() {
        r.append("_");
    } else {
        r.append(mid.as_str());
    }
    r.append("_");
    r.append(stackhash.substring_char(0, 8));
    r.append(".txt");
    proof {
        assert(stackhash@.subrange(0, 8) =~= stackhash@.take(8));
    }
    r
}

/// The report record rendered from one crash context, as the orchestrator
/// hands it on: headlines, the deduplication signature, and the pre-rendered
/// report sections.
#[derive(Debug)]
pub struct CrashReport {
    pub headline: String,
    pub terse_headline: String,
    pub stackhash: String,
    pub register_info: String,
    pub crash_context: String,
    pub backtrace: String,
    pub asan_body: String,
}

/// The headline of a crash: signal, signal number, and — when the backtrace
/// is not empty — the innermost frame's module+offset.
pub open spec fn headline_spec(ctx: GdbContextInfo) -> Seq<char> {
    "Signal "@ + ctx.stop_info.signal_name@ + " (si_signo="@ + crate::numfmt::int_digits(
        ctx.stop_info.signal_number as int,
    ) + ")"@ + (if ctx.primary_thread.backtrace@.len() > 0 {
        " in "@ + ctx.primary_thread.backtrace@[0].module_address@
    } else {
        Seq::<char>::empty()
    })
}

/// The terse headline: signal name and, when the backtrace is not empty, the
/// innermost frame's module+offset after an underscore.
pub open spec fn terse_headline_spec(ctx: GdbContextInfo) -> Seq<char> {
    ctx.stop_info.signal_name@ + (if ctx.primary_thread.backtrace@.len() > 0 {
        "_"@ + ctx.primary_thread.backtrace@[0].module_address@
    } else {
        Seq::<char>::empty()
    })
}

/// One register line: name, hexadecimal value, pretty-printed value.
pub open spec fn register_line_spec(r: GdbRegister) -> Seq<char> {
    r.name@ + " 0x"@ + hex_pad(r.value as int, 16) + " "@ + r.pretty_value@ + "\n"@
}

/// All register lines in debugger order; nothing when no registers were
/// captured.
pub open spec fn register_lines_spec(rs: Seq<GdbRegister>) -> Seq<char>
    decreases rs.len(),
{
    if rs.len() == 0 {
        Seq::<char>::empty()
    } else {
        register_line_spec(rs[0]) + register_lines_spec(rs.skip(1))
    }
}

/// The register-info section of a report.
pub open spec fn register_info_spec(ctx: GdbContextInfo) -> Seq<char> {
    match ctx.primary_thread.registers {
        Some(rs) => register_lines_spec(rs@),
        None => Seq::<char>::empty(),
    }
}

/// The crash-context section: the faulting address and the current
/// instruction, each on its own line when known.
pub open spec fn crash_context_spec(ctx: GdbContextInfo) -> Seq<char> {
    (match ctx.stop_info.faulting_address {
        Some(a) => "Faulting address: 0x"@ + hex_pad(a as int, 16) + "\n"@,
        None => Seq::<char>::empty(),
    }) + (match ctx.primary_thread.current_instruction {
        Some(insn) => "Instruction: "@ + insn@ + "\n"@,
        None => Seq::<char>::empty(),
    })
}

/// One backtrace line: frame index, absolute address, module+offset, and the
/// symbol's short rendering when resolved.
pub open spec fn frame_line_spec(i: int, f: GdbFrameInfo) -> Seq<char> {
    "#"@ + dec_digits(i) + " 0x"@ + hex_pad(f.address as int, 16) + " in "@ + f.module_address@
        + (match f.symbol {
        Some(s) => " ("@ + format_short_spec(s) + ")"@,
        None => Seq::<char>::empty(),
    }) + "\n"@
}

/// All backtrace lines, innermost first, counted from `i`.
pub open spec fn backtrace_lines_spec(frames: Seq<GdbFrameInfo>, i: int) -> Seq<char>
    decreases frames.len(),
{
    if frames.len() == 0 {
        Seq::<char>::empty()
    } else {
        frame_line_spec(i, frames[0]) + backtrace_lines_spec(frames.skip(1), i + 1)
    }
}

/// Render the report record for one crash context.
pub fn build_crash_report(ctx: &GdbContextInfo) -> (r: CrashReport)
    ensures
        r.headline@ == headline_spec(*ctx),
        r.terse_headline@ == terse_headline_spec(*ctx),
        r.stackhash@ == stackhash_spec(ctx.primary_thread.backtrace@),
        r.register_info@ == register_info_spec(*ctx),
        r.crash_context@ == crash_context_spec(*ctx),
        r.backtrace@ == backtrace_lines_spec(ctx.primary_thread.backtrace@, 0),
        r.asan_body@ == Seq::<char>::empty(),
{
    let mut headline = String::from_str("Signal ");
    headline.append(ctx.stop_info.signal_name.as_str());
    headline.append(" (si_signo=");
    headline.append(signed_dec(ctx.stop_info.signal_number).as_str());
    headline.append(")");
    let mut terse = ctx.stop_info.signal_name.clone();
    if ctx.primary_thread.backtrace.len() > 0 {
        headline.append(" in ");
        headline.append(ctx.primary_thread.backtrace[0].module_address.as_str());
        terse.append("_");
        terse.append(ctx.primary_thread.backtrace[0].module_address.as_str());
    }
    let stackhash = stackhash_frames(&ctx.primary_thread.backtrace);
    let register_info = build_register_info(ctx);
    let crash_context = build_crash_context(ctx);
    let backtrace = build_backtrace(&ctx.primary_thread.backtrace);
    CrashReport {
        headline,
        terse_headline: terse,
        stackhash,
        register_info,
        crash_context,
        backtrace,
        asan_body: String::new(),
    }
}

/// Decimal rendering of an `i32`, used for signal numbers.
fn signed_dec(v: i32) -> (r: String)
    ensures
        r@ == crate::numfmt::int_digits(v as int),
{
    crate::numfmt::i64_to_dec(v as i64)
}

/// Render the register-info section.
fn build_register_info(ctx: &GdbContextInfo) -> (r: String)
    ensures
        r@ == register_info_spec(*ctx),
{
    match &ctx.primary_thread.registers {
        None => String::new(),
        Some(rs) => {
            let ghost all = rs@;
            let mut r = String::new();
            let n = rs.len();
            let mut i: usize = 0;
            proof {
                assert(all.skip(0) =~= all);
            }
            while i < n
                invariant
                    n == all.len(),
                    all == rs@,
                    i <= n,
                    r@ + register_lines_spec(all.skip(i as int)) == register_lines_spec(all),
                decreases n - i,
            {
                let ghost pre = r@;
                let reg = &rs[i];
                r.append(reg.name.as_str());
                r.append(" 0x");
                r.append(u64_to_hex16(reg.value).as_str());
                r.append(" ");
                r.append(reg.pretty_value.as_str());
                r.append("\n");
                proof {
                    assert(all.skip(i as int)[0] == all[i as int]);
                    assert(all.skip(i as int).skip(1) =~= all.skip(i as int + 1));
                    assert(r@ =~= pre + register_line_spec(all[i as int]));
                    assert(r@ + register_lines_spec(all.skip(i as int + 1)) =~= pre
                        + register_lines_spec(all.skip(i as int)));
                }
                i += 1;
            }
            proof {
                assert(all.skip(n as int) =~= Seq::<GdbRegister>::empty());
                assert(r@ + register_lines_spec(all.skip(n as int)) =~= r@);
            }
            r
        },
    }
}

/// Render the crash-context section.
fn build_crash_context(ctx: &GdbContextInfo) -> (r: String)
    ensures
        r@ == crash_context_spec(*ctx),
{
    let mut r = String::new();
    if let Some(a) = &ctx.stop_info.faulting_address {
        r.append("Faulting address: 0x");
        r.append(u64_to_hex16(*a).as_str());
        r.append("\n");
    }
    if let Some(insn) = &ctx.primary_thread.current_instruction {
        r.append("Instruction: ");
        r.append(insn.as_str());
        r.append("\n");
    }
    proof {
        assert(r@ =~= crash_context_spec(*ctx));
    }
    r
}

/// Render the backtrace section, innermost frame first.
fn build_backtrace(frames: &Vec<GdbFrameInfo>) -> (r: String)
    ensures
        r@ == backtrace_lines_spec(frames@, 0),
{
    let ghost all = frames@;
    let mut r = String::new();
    let n = frames.len();
    let mut i: usize = 0;
    proof {
        assert(all.skip(0) =~= all);
    }
    while i < n
        invariant
            n == all.len(),
            all == frames@,
            i <= n,
            r@ + backtrace_lines_spec(all.skip(i as int), i as int) == backtrace_lines_spec(all, 0),
        decreases n - i,
    {
        let ghost pre = r@;
        let f = &frames[i];
        r.append("#");
        r.append(usize_to_dec(i).as_str());
        r.append(" 0x");
        r.append(u64_to_hex16(f.address).as_str());
        r.append(" in ");
        r.append(f.module_address.as_str());
        if let Some(s) = &f.symbol {
            r.append(" (");
            r.append(s.format_short().as_str());
            r.append(")");
        }
        r.append("\n");
        proof {
            assert(all.skip(i as int)[0] == all[i as int]);
            assert(all.skip(i as int).skip(1) =~= all.skip(i as int + 1));
            assert(r@ =~= pre + frame_line_spec(i as int, all[i as int]));
            assert(r@ + backtrace_lines_spec(all.skip(i as int + 1), i as int + 1) =~= pre
                + backtrace_lines_spec(all.skip(i as int), i as int));
        }
        i += 1;
    }
    proof {
        assert(all.skip(n as int) =~= Seq::<GdbFrameInfo>::empty());
        assert(r@ + backtrace_lines_spec(all.skip(n as int), n as int) =~= r@);
    }
    r
}

/// The last `n` elements, or all of them when there are no more than `n`.
pub open spec fn tail_seq(s: Seq<Seq<char>>, n: int) -> Seq<Seq<char>> {
    if s.len() <= n {
        s
    } else {
        s.skip(s.len() - n)
    }
}

/// The lines concatenated, each followed by a newline — except that one final
/// empty line is left out.
pub open spec fn cat_lines_spec(lines: Seq<Seq<char>>) -> Seq<char>
    decreases lines.len(),
{
    if lines.len() == 0 {
        Seq::<char>::empty()
    } else if lines.len() == 1 && lines[0].len() == 0 {
        Seq::<char>::empty()
    } else {
        lines[0] + "\n"@ + cat_lines_spec(lines.skip(1))
    }
}

/// One child-output section of a report: a no-output notice, everything, or
/// the last `lines_cfg` lines.
pub open spec fn child_section_spec(name: Seq<char>, output: Seq<char>, lines_cfg: int) -> Seq<
    char,
> {
    if output.len() == 0 {
        "\nChild "@ + name + " (no output):\n"@
    } else if lines_cfg == 0 {
        "\nChild "@ + name + " (everything):\n"@ + output + "\n"@
    } else {
        "\nChild "@ + name + " (last "@ + dec_digits(lines_cfg) + " lines):\n"@ + cat_lines_spec(
            tail_seq(split_lines_spec(output), lines_cfg),
        )
    }
}

/// Render one child-output section.
pub fn build_child_section(name: &str, output: &str, lines_cfg: usize) -> (r: String)
    ensures
        r@ == child_section_spec(name@, output@, lines_cfg as int),
{
    let mut r = String::from_str("\nChild ");
    r.append(name);
    if output.is_empty() {
        r.append(" (no output):\n");
        return r;
    }
    if lines_cfg == 0 {
        r.append(" (everything):\n");
        r.append(output);
        r.append("\n");
        return r;
    }
    r.append(" (last ");
    r.append(usize_to_dec(lines_cfg).as_str());
    r.append(" lines):\n");
    let lines = split_lines(output);
    let total = lines.len();
    let start = if total > lines_cfg {
        total - lines_cfg
    } else {
        0
    };
    let ghost tail = tail_seq(split_lines_spec(output@), lines_cfg as int);
    proof {
        assert(lines.deep_view().skip(start as int) =~= tail);
        assert(child_section_head(name@, output@, lines_cfg as int) + cat_lines_built(tail, 0)
            =~= r@);
    }
    let mut i: usize = start;
    while i < total
        invariant
            total == lines@.len(),
            lines.deep_view().len() == total,
            forall|j: int| 0 <= j < total ==> lines.deep_view()[j] == lines@[j]@,
            start <= i <= total,
            tail == lines.deep_view().skip(start as int),
            tail.len() == total - start,
            r@ == child_section_head(name@, output@, lines_cfg as int) + cat_lines_built(
                tail,
                i - start,
            ),
        decreases total - i,
    {
        let is_last = i + 1 == total;
        if is_last && lines[i].as_str().is_empty() {
            proof {
                assert(tail[i - start] == lines.deep_view()[i as int]);
                lemma_cat_lines_built_last_empty(tail, i - start);
            }
            i += 1;
            continue;
        }
        let ghost pre = r@;
        r.append(lines[i].as_str());
        r.append("\n");
        proof {
            assert(tail[i - start] == lines.deep_view()[i as int]);
            lemma_cat_lines_built_step(tail, i - start);
            assert(r@ =~= child_section_head(name@, output@, lines_cfg as int) + cat_lines_built(
                tail,
                i - start + 1,
            ));
        }
        i += 1;
    }
    proof {
        lemma_cat_lines_built_done(tail, i - start);
        assert(r@ =~= child_section_spec(name@, output@, lines_cfg as int));
    }
    r
}

/// The fixed head of a tailed child-output section.
pub open spec fn child_section_head(name: Seq<char>, output: Seq<char>, lines_cfg: int) -> Seq<
    char,
> {
    "\nChild "@ + name + " (last "@ + dec_digits(lines_cfg) + " lines):\n"@
}

/// The first `k` lines of the tail rendered: the prefix of `cat_lines_spec`.
pub open spec fn cat_lines_built(lines: Seq<Seq<char>>, k: int) -> Seq<char>
    decreases k,
{
    if k <= 0 || lines.len() == 0 {
        Seq::<char>::empty()
    } else if lines.len() == 1 && lines[0].len() == 0 {
        Seq::<char>::empty()
    } else {
        lines[0] + "\n"@ + cat_lines_built(lines.skip(1), k - 1)
    }
}

proof fn lemma_cat_lines_built_step(lines: Seq<Seq<char>>, k: int)
    requires
        0 <= k < lines.len(),
        !(k == lines.len() - 1 && lines[k].len() == 0),
    ensures
        cat_lines_built(lines, k + 1) == cat_lines_built(lines, k) + (lines[k] + "\n"@),
    decreases k,
{
    if k == 0 {
        assert(cat_lines_built(lines, 1) == lines[0] + "\n"@ + cat_lines_built(lines.skip(1), 0));
        assert(cat_lines_built(lines.skip(1), 0) =~= Seq::<char>::empty());
        assert(cat_lines_built(lines, 0) =~= Seq::<char>::empty());
        assert(cat_lines_built(lines, 1) =~= cat_lines_built(lines, 0) + (lines[0] + "\n"@));
    } else {
        lemma_cat_lines_built_step(lines.skip(1), k - 1);
        assert(lines.skip(1)[k - 1] == lines[k]);
        assert((lines[0] + "\n"@ + (cat_lines_built(lines.skip(1), k - 1) + (lines[k] + "\n"@)))
            =~= (lines[0] + "\n"@ + cat_lines_built(lines.skip(1), k - 1)) + (lines[k] + "\n"@));
    }
}

proof fn lemma_cat_lines_built_last_empty(lines: Seq<Seq<char>>, k: int)
    requires
        0 <= k == lines.len() - 1,
        lines[k].len() == 0,
    ensures
        cat_lines_built(lines, k + 1) == cat_lines_built(lines, k),
    decreases k,
{
    if k == 0 {
    } else {
        lemma_cat_lines_built_last_empty(lines.skip(1), k - 1);
    }
}

proof fn lemma_cat_lines_built_done(lines: Seq<Seq<char>>, k: int)
    requires
        k >= lines.len(),
    ensures
        cat_lines_built(lines, k) == cat_lines_spec(lines),
    decreases lines.len(),
{
    if lines.len() == 0 {
    } else if lines.len() == 1 && lines[0].len() == 0 {
    } else {
        lemma_cat_lines_built_done(lines.skip(1), k - 1);
    }
}

/// The complete textual report for one new crash.
pub open spec fn text_report_spec(
    rep: CrashReport,
    cmdline: Seq<char>,
    path: Seq<char>,
    child_output: bool,
    lines_cfg: int,
    child_stdout: Seq<char>,
    child_stderr: Seq<char>,
) -> Seq<char> {
    let stderr_display = if rep.asan_body@.len() > 0 {
        replace_spec(child_stderr, rep.asan_body@, "<ASAN Report>"@)
    } else {
        child_stderr
    };
    "Summary: "@ + rep.headline@ + "\nCommand line: "@ + cmdline + "\nTestcase: "@ + path
        + "\nStack hash: "@ + rep.stackhash@ + "\n\n"@ + "Register info:\n"@ + rep.register_info@
        + "\n"@ + "Crash context:\n"@ + rep.crash_context@ + "\n"@
        + "Crashing thread backtrace:\n"@ + rep.backtrace@ + "\n"@ + (if rep.asan_body@.len() > 0 {
        "ASAN Report:\n"@ + rep.asan_body@ + "\n"@
    } else {
        Seq::<char>::empty()
    }) + (if child_output {
        child_section_spec("STDOUT"@, child_stdout, lines_cfg) + child_section_spec(
            "STDERR"@,
            stderr_display,
            lines_cfg,
        )
    } else {
        Seq::<char>::empty()
    })
}

/// Assemble the textual report for one new crash: headline block, register
/// info, crash context, backtrace, the ASAN report when one was captured, and
/// — when asked for — the tail of the child's output with the ASAN report
/// elided from its stderr.
pub fn build_text_report(
    rep: &CrashReport,
    cmdline: &str,
    path: &str,
    child_output: bool,
    lines_cfg: usize,
    child_stdout: &str,
    child_stderr: &str,
) -> (r: String)
    ensures
        r@ == text_report_spec(
            *rep,
            cmdline@,
            path@,
            child_output,
            lines_cfg as int,
            child_stdout@,
            child_stderr@,
        ),
{
    let mut r = String::from_str("Summary: ");
    r.append(rep.headline.as_str());
    r.append("\nCommand line: ");
    r.append(cmdline);
    r.append("\nTestcase: ");
    r.append(path);
    r.append("\nStack hash: ");
    r.append(rep.stackhash.as_str());
    r.append("\n\n");
    r.append("Register info:\n");
    r.append(rep.register_info.as_str());
    r.append("\n");
    r.append("Crash context:\n");
    r.append(rep.crash_context.as_str());
    r.append("\n");
    r.append("Crashing thread backtrace:\n");
    r.append(rep.backtrace.as_str());
    r.append("\n");
    if !rep.asan_body.as_str().is_empty() {
        r.append("ASAN Report:\n");
        r.append(rep.asan_body.as_str());
        r.append("\n");
    }
    if child_output {
        let stderr_display = if !rep.asan_body.as_str().is_empty() {
            replace_all(child_stderr, rep.asan_body.as_str(), "<ASAN Report>")
        } else {
            String::from_str(child_stderr)
        };
        r.append(build_child_section("STDOUT", child_stdout, lines_cfg).as_str());
        r.append(build_child_section("STDERR", stderr_display.as_str(), lines_cfg).as_str());
    }
    r
}

} // verus!
