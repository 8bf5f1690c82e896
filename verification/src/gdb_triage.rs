//! The typed crash description produced by the debugger-side triage script,
//! and the error type for failed triage attempts.
//!
//! Ownership is strictly nested: a context owns its threads, a thread its
//! frames, a frame its symbol, a symbol its variables.

use vstd::prelude::*;

use crate::numfmt::{dec_digits, int_digits, i64_to_dec, usize_to_dec};
use crate::strutil::{join_with, join_strings, str_eq, trim_end_spec, trim_end_chars, find_first,
    find_sub, lemma_find_first_from_props};

verus! {

/// One variable captured by the debugger: its type, name and value, each as
/// the debugger printed it.
#[derive(Debug, PartialEq, Eq, Hash)]
pub struct GdbVariable {
    pub var_type: String,
    pub name: String,
    pub value: String,
}

/// Symbol information for one frame: every field is as the debugger reported
/// it, absent when the debugger could not resolve it.
#[derive(Debug, PartialEq)]
pub struct GdbSymbol {
    pub function_name: Option<String>,
    pub function_line: Option<i64>,
    pub mangled_function_name: Option<String>,
    pub function_signature: Option<String>,
    pub callsite: Option<Vec<String>>,
    pub file: Option<String>,
    pub line: Option<i64>,
    pub args: Option<Vec<GdbVariable>>,
    pub locals: Option<Vec<GdbVariable>>,
}

/// One backtrace frame: absolute and module-relative address, module name,
/// the printed module+offset form, and the symbol when resolved.
#[derive(Debug, PartialEq)]
pub struct GdbFrameInfo {
    pub address: u64,
    pub relative_address: u64,
    pub module: String,
    pub module_address: String,
    pub symbol: Option<GdbSymbol>,
}

/// One register as captured: name, numeric value, pretty-printed value, type
/// and size in bytes.
#[derive(Debug, PartialEq, Eq, Hash)]
pub struct GdbRegister {
    pub name: String,
    pub value: u64,
    pub pretty_value: String,
    pub reg_type: String,
    pub size: u64,
}

/// One stopped thread: its id, backtrace (index 0 innermost), current
/// instruction when available, and registers in debugger order.
#[derive(Debug, PartialEq)]
pub struct GdbThread {
    pub tid: i32,
    pub backtrace: Vec<GdbFrameInfo>,
    pub current_instruction: Option<String>,
    pub registers: Option<Vec<GdbRegister>>,
}

/// Why the target stopped: signal name, si_signo, si_code and the faulting
/// address when the signal carried one.
#[derive(Debug, PartialEq)]
pub struct GdbStopInfo {
    pub signal_name: String,
    pub signal_number: i32,
    pub signal_code: i32,
    pub faulting_address: Option<u64>,
}

/// The target's architecture: address width in bits and architecture name.
#[derive(Debug, PartialEq)]
pub struct GdbArchInfo {
    pub address_bits: usize,
    pub architecture: String,
}

/// The full crash context: stop reason, architecture, the crashing thread and
/// any other threads. `other_threads` never contains the primary thread.
#[derive(Debug, PartialEq)]
pub struct GdbContextInfo {
    pub stop_info: GdbStopInfo,
    pub arch_info: GdbArchInfo,
    pub primary_thread: GdbThread,
    pub other_threads: Option<Vec<GdbThread>>,
}

/// The crash-context invariants the engine maintains: the crashing thread
/// carries at least one frame, and `other_threads` never contains the
/// primary thread. An answer of the triage script that violates them is
/// rejected before it can become a crash.
pub open spec fn wf_context(ctx: GdbContextInfo) -> bool {
    &&& ctx.primary_thread.backtrace@.len() >= 1
    &&& match ctx.other_threads {
        Some(ts) => forall|i: int|
            0 <= i < ts@.len() ==> #[trigger] ts@[i].tid != ctx.primary_thread.tid,
        None => true,
    }
}

/// The result code of the triage script's JSON answer.
#[derive(Debug, PartialEq, Eq, Structural, Clone, Copy)]
#[allow(non_camel_case_types)]
pub enum GdbResultCode {
    SUCCESS,
    ERROR_TARGET_NOT_RUNNING,
}

/// The decoded JSON answer of the triage script: a result code and, for an
/// actual crash, the context.
#[derive(Debug, PartialEq)]
pub struct GdbJsonResult {
    pub result: GdbResultCode,
    pub context: Option<GdbContextInfo>,
}

/// The exit status of the debugger process. The status reflects the debugger,
/// not the target; no crash state is inferred from it.
#[derive(Debug, PartialEq, Eq, Structural, Clone, Copy)]
pub struct ChildStatus {
    pub success: bool,
    pub code: Option<i32>,
}

/// The target's captured output: what the target wrote to each stream between
/// the child-output markers, and the debugger's exit status.
#[derive(Debug, PartialEq)]
pub struct ChildResult {
    pub stdout: String,
    pub stderr: String,
    pub status: ChildStatus,
}

/// A successful triage answer: the decoded script output plus the captured
/// child output.
#[derive(Debug)]
pub struct GdbTriageResult {
    pub response: GdbJsonResult,
    pub child: ChildResult,
}

/// The class of a triage failure.
#[derive(Debug, PartialEq, Eq, Structural, Clone, Copy, Hash)]
pub enum GdbTriageErrorKind {
    Command,
    Internal,
    Timeout,
}

/// A failed triage attempt: its class, a short message, and detail lines.
/// Equality compares all three fields, so structurally identical failures
/// coalesce in the aggregate error map.
#[derive(Debug, Eq, Hash)]
pub struct GdbTriageError {
    pub error_kind: GdbTriageErrorKind,
    pub error: String,
    pub details: Vec<String>,
}

impl PartialEq for GdbTriageError {
    fn eq(&self, other: &Self) -> (r: bool) {
        if !(self.error_kind == other.error_kind) {
            return false;
        }
        if !str_eq(self.error.as_str(), other.error.as_str()) {
            return false;
        }
        vec_str_eq(&self.details, &other.details)
    }
}

impl vstd::std_specs::cmp::PartialEqSpecImpl for GdbTriageError {
    open spec fn obeys_eq_spec() -> bool {
        true
    }

    open spec fn eq_spec(&self, other: &Self) -> bool {
        &&& self.error_kind == other.error_kind
        &&& self.error@ == other.error@
        &&& self.details.deep_view() == other.details.deep_view()
    }
}

/// Verified element-wise equality of two string vectors.
pub fn vec_str_eq(a: &Vec<String>, b: &Vec<String>) -> (r: bool)
    ensures
        r == (a.deep_view() == b.deep_view()),
{
    let n = a.len();
    if n != b.len() {
        assert(a.deep_view().len() != b.deep_view().len());
        return false;
    }
    let mut i: usize = 0;
    while i < n
        invariant
            n == a@.len(),
            n == b@.len(),
            i <= n,
            a.deep_view().len() == n,
            b.deep_view().len() == n,
            forall|j: int| 0 <= j < n ==> a.deep_view()[j] == a@[j]@,
            forall|j: int| 0 <= j < n ==> b.deep_view()[j] == b@[j]@,
            forall|j: int| 0 <= j < i ==> a.deep_view()[j] == b.deep_view()[j],
        decreases n - i,
    {
        if !str_eq(a[i].as_str(), b[i].as_str()) {
            assert(a.deep_view()[i as int] != b.deep_view()[i as int]);
            return false;
        }
        i += 1;
    }
    proof {
        assert(a.deep_view() =~= b.deep_view());
    }
    true
}

/// What `format_short` returns: the function name, or nothing when the symbol
/// has none.
pub open spec fn format_short_spec(s: GdbSymbol) -> Seq<char> {
    match s.function_name {
        Some(n) => n@,
        None => Seq::<char>::empty(),
    }
}

/// The return-type prefix used by `format_function_prototype`: the signature
/// up to and including its first space, or nothing.
pub open spec fn return_type_spec(s: GdbSymbol) -> Seq<char> {
    match s.function_signature {
        Some(rv) => match find_first(rv@, seq![' ']) {
            Some(pos) => rv@.subrange(0, pos + 1),
            None => Seq::<char>::empty(),
        },
        None => Seq::<char>::empty(),
    }
}

/// The argument list of `format_function_prototype`: each argument formatted
/// as a declaration-style `name = (type)value`, comma separated.
pub open spec fn args_fmt_spec(s: GdbSymbol) -> Seq<char> {
    match s.args {
        Some(v) => join_with(v@.map_values(|a: GdbVariable| format_arg_spec(a)), ", "@),
        None => Seq::<char>::empty(),
    }
}

/// The argument-name list of `format_function_call`, or `???` when the
/// arguments are unknown.
pub open spec fn args_names_spec(s: GdbSymbol) -> Seq<char> {
    match s.args {
        Some(v) => join_with(v@.map_values(|a: GdbVariable| a.name@), ", "@),
        None => "???"@,
    }
}

/// What `format_file` returns: the file, a colon and the line when present.
pub open spec fn format_file_spec(s: GdbSymbol) -> Seq<char> {
    (match s.file {
        Some(f) => f@,
        None => Seq::<char>::empty(),
    }) + (match s.line {
        Some(l) => ":"@ + int_digits(l as int),
        None => Seq::<char>::empty(),
    })
}

/// What `format_arg` returns.
pub open spec fn format_arg_spec(v: GdbVariable) -> Seq<char> {
    v.name@ + " = ("@ + v.var_type@ + ")"@ + v.value@
}

/// What `format_decl` returns.
pub open spec fn format_decl_spec(v: GdbVariable) -> Seq<char> {
    v.var_type@ + " "@ + v.name@ + " = "@ + v.value@ + ";"@
}

impl GdbVariable {
    /// Render the variable as a call argument: `name = (type)value`.
    pub fn format_arg(&self) -> (r: String)
        ensures
            r@ == format_arg_spec(*self),
    {
        let mut r = self.name.clone();
        r.append(" = (");
        r.append(self.var_type.as_str());
        r.append(")");
        r.append(self.value.as_str());
        r
    }

    /// Render the variable as a declaration: `type name = value;`.
    pub fn format_decl(&self) -> (r: String)
        ensures
            r@ == format_decl_spec(*self),
    {
        let mut r = self.var_type.clone();
        r.append(" ");
        r.append(self.name.as_str());
        r.append(" = ");
        r.append(self.value.as_str());
        r.append(";");
        r
    }
}

impl GdbSymbol {
    /// Render the symbol; the short form is the canonical rendering.
    pub fn format(&self) -> (r: String)
        ensures
            r@ == format_short_spec(*self),
    {
        self.format_short()
    }

    /// The function name, or nothing when the symbol has none.
    pub fn format_short(&self) -> (r: String)
        ensures
            r@ == format_short_spec(*self),
    {
        match &self.function_name {
            Some(n) => n.clone(),
            None => String::new(),
        }
    }

    /// Render `return-type name(arg = (type)value, ...)`.
    pub fn format_function_prototype(&self) -> (r: String)
        ensures
            r@ == return_type_spec(*self) + format_short_spec(*self) + "("@ + args_fmt_spec(*self)
                + ")"@,
    {
        let mut r = match &self.function_signature {
            Some(rv) => {
                proof {
                    reveal_strlit(" ");
                    assert(" "@ =~= seq![' ']);
                }
                let rv_len = rv.as_str().unicode_len();
                match find_sub(rv.as_str(), " ") {
                    Some(pos) => {
                        proof {
                            lemma_find_first_from_props(rv@, " "@, 0);
                            assert(pos + 1 <= rv_len);
                        }
                        String::from_str(rv.as_str().substring_char(0, pos + 1))
                    },
                    None => String::new(),
                }
            },
            None => String::new(),
        };
        r.append(self.format_short().as_str());
        r.append("(");
        let args = match &self.args {
            Some(v) => {
                let formatted = format_args_vec(v);
                join_strings(&formatted, ", ")
            },
            None => String::new(),
        };
        r.append(args.as_str());
        r.append(")");
        r
    }

    /// Render `name(arg, ...)`, with `???` for unknown arguments.
    pub fn format_function_call(&self) -> (r: String)
        ensures
            r@ == format_short_spec(*self) + "("@ + args_names_spec(*self) + ")"@,
    {
        let mut r = self.format_short();
        r.append("(");
        let args = match &self.args {
            Some(v) => {
                let names = arg_names_vec(v);
                join_strings(&names, ", ")
            },
            None => String::from_str("???"),
        };
        r.append(args.as_str());
        r.append(")");
        r
    }

    /// Render `file:line`, leaving out whichever part is absent.
    pub fn format_file(&self) -> (r: String)
        ensures
            r@ == format_file_spec(*self),
    {
        let mut filename = String::new();
        if let Some(file) = &self.file {
            filename.append(file.as_str());
        }
        if let Some(line) = &self.line {
            filename.append(":");
            filename.append(i64_to_dec(*line).as_str());
        }
        filename
    }
}

/// Format each variable of a backtrace frame as a call argument.
fn format_args_vec(v: &Vec<GdbVariable>) -> (r: Vec<String>)
    ensures
        r.deep_view() == v@.map_values(|a: GdbVariable| format_arg_spec(a)),
{
    let mut out: Vec<String> = Vec::new();
    let n = v.len();
    let mut i: usize = 0;
    while i < n
        invariant
            n == v@.len(),
            i <= n,
            out@.len() == i,
            forall|j: int| 0 <= j < i ==> out@[j]@ == format_arg_spec(v@[j]),
        decreases n - i,
    {
        out.push(v[i].format_arg());
        i += 1;
    }
    proof {
        assert(out.deep_view() =~= v@.map_values(|a: GdbVariable| format_arg_spec(a)));
    }
    out
}

/// Collect the names of a frame's argument variables.
fn arg_names_vec(v: &Vec<GdbVariable>) -> (r: Vec<String>)
    ensures
        r.deep_view() == v@.map_values(|a: GdbVariable| a.name@),
{
    let mut out: Vec<String> = Vec::new();
    let n = v.len();
    let mut i: usize = 0;
    while i < n
        invariant
            n == v@.len(),
            i <= n,
            out@.len() == i,
            forall|j: int| 0 <= j < i ==> out@[j]@ == v@[j].name@,
        decreases n - i,
    {
        out.push(v[i].name.clone());
        i += 1;
    }
    proof {
        assert(out.deep_view() =~= v@.map_values(|a: GdbVariable| a.name@));
    }
    out
}

/// The numbered, trimmed detail lines of a multi-detail error message, one
/// per line, counted from `idx`.
pub open spec fn numbered_lines(lines: Seq<Seq<char>>, idx: int) -> Seq<char>
    decreases lines.len(),
{
    if lines.len() == 0 {
        Seq::<char>::empty()
    } else {
        dec_digits(idx) + ": "@ + trim_end_spec(lines[0]) + "\n"@ + numbered_lines(
            lines.skip(1),
            idx + 1,
        )
    }
}

/// What `GdbTriageError::to_string` returns: the message alone, one trimmed
/// detail after a colon, or the message followed by numbered detail lines.
pub open spec fn error_string_spec(e: GdbTriageError) -> Seq<char> {
    if e.details@.len() == 0 {
        e.error@
    } else if e.details@.len() == 1 {
        e.error@ + ": "@ + trim_end_spec(e.details@[0]@)
    } else {
        e.error@ + "\n"@ + numbered_lines(e.details.deep_view(), 1)
    }
}

impl GdbTriageError {
    /// An error with one detail line.
    pub fn new(error_kind: GdbTriageErrorKind, error: &str, extra_detail: String) -> (r:
        GdbTriageError)
        ensures
            r.error_kind == error_kind,
            r.error@ == error@,
            r.details.deep_view() =~= seq![extra_detail@],
    {
        GdbTriageError { error_kind, error: String::from_str(error), details: vec![extra_detail] }
    }

    /// An error with no detail lines.
    pub fn new_brief(error_kind: GdbTriageErrorKind, error: &str) -> (r: GdbTriageError)
        ensures
            r.error_kind == error_kind,
            r.error@ == error@,
            r.details.deep_view() =~= Seq::<Seq<char>>::empty(),
    {
        GdbTriageError { error_kind, error: String::from_str(error), details: Vec::new() }
    }

    /// An error with any number of detail lines.
    pub fn new_detailed(error_kind: GdbTriageErrorKind, error: &str, details: Vec<String>) -> (r:
        GdbTriageError)
        ensures
            r.error_kind == error_kind,
            r.error@ == error@,
            r.details == details,
    {
        GdbTriageError { error_kind, error: String::from_str(error), details }
    }

    /// Render the error as one message: detail lines are trimmed of trailing
    /// whitespace, and numbered when there are several.
    pub fn to_string(&self) -> (r: String)
        ensures
            r@ == error_string_spec(*self),
    {
        let n = self.details.len();
        if n == 0 {
            self.error.clone()
        } else if n == 1 {
            let mut r = self.error.clone();
            r.append(": ");
            r.append(trim_end_chars(self.details[0].as_str()));
            r
        } else {
            let ghost dv = self.details.deep_view();
            let mut r = self.error.clone();
            r.append("\n");
            proof {
                assert(dv.skip(0) =~= dv);
            }
            let mut i: usize = 0;
            while i < n
                invariant
                    n == self.details@.len(),
                    i <= n,
                    dv == self.details.deep_view(),
                    dv.len() == n,
                    forall|j: int| 0 <= j < n ==> dv[j] == self.details@[j]@,
                    r@ + numbered_lines(dv.skip(i as int), i as int + 1) == self.error@ + "\n"@
                        + numbered_lines(dv, 1),
                decreases n - i,
            {
                let ghost pre = r@;
                r.append(usize_to_dec(i + 1).as_str());
                r.append(": ");
                r.append(trim_end_chars(self.details[i].as_str()));
                r.append("\n");
                proof {
                    assert(dv.skip(i as int)[0] == dv[i as int]);
                    assert(dv.skip(i as int).skip(1) =~= dv.skip(i as int + 1));
                    assert(numbered_lines(dv.skip(i as int), i as int + 1) == dec_digits(
                        i as int + 1,
                    ) + ": "@ + trim_end_spec(dv[i as int]) + "\n"@ + numbered_lines(
                        dv.skip(i as int + 1),
                        i as int + 2,
                    ));
                    assert(r@ =~= pre + (dec_digits(i as int + 1) + ": "@ + trim_end_spec(
                        dv[i as int],
                    ) + "\n"@));
                    assert(r@ + numbered_lines(dv.skip(i as int + 1), i as int + 2) =~= pre
                        + numbered_lines(dv.skip(i as int), i as int + 1));
                }
                i += 1;
            }
            proof {
                assert(dv.skip(n as int) =~= Seq::<Seq<char>>::empty());
                assert(r@ + numbered_lines(dv.skip(n as int), n as int + 1) =~= r@);
            }
            r
        }
    }
}

} // verus!
