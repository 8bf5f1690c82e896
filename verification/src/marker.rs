//! Marker framing: payloads are cut out of a captured debugger stream between
//! a pair of literal tags. The debugger-side script writes each tag as its own
//! line to both stdout and stderr, so the two streams can be sliced without
//! interleaving them.

use vstd::prelude::*;

use crate::strutil::{find_first, find_sub, is_match_at, lemma_find_first_from_append,
    lemma_find_first_from_append_none, lemma_find_first_from_props};

verus! {

/// A pair of literal tags delimiting one framed region, together with the
/// debugger commands that emit each tag to both streams, flushed.
pub struct DbgMarker {
    pub start: &'static str,
    pub end: &'static str,
    pub gdb_start: &'static str,
    pub gdb_end: &'static str,
}

/// What extraction yields on a given stream: the payload between the tags, or
/// the exact failure message.
pub open spec fn extract_spec(t: Seq<char>, start: Seq<char>, end: Seq<char>) -> Result<
    Seq<char>,
    Seq<char>,
> {
    match find_first(t, start) {
        None => Err("Could not find "@ + start),
        Some(si) => match find_first(t, end) {
            None => Err("Could not find "@ + end),
            Some(ei) => {
                if si + start.len() + 1 <= ei {
                    Ok(t.subrange(si + start.len() as int + 1, ei))
                } else {
                    Err("Start marker and end marker out-of-order"@)
                }
            },
        },
    }
}

impl DbgMarker {
    /// Cut the payload delimited by this marker's tags out of `text`.
    ///
    /// The payload begins just after the newline that terminates the start
    /// tag and ends at the first occurrence of the end tag; each missing tag
    /// and an end tag that precedes the payload are distinct failures.
    pub fn extract<'a>(&self, text: &'a str) -> (r: Result<&'a str, String>)
        ensures
            match extract_spec(text@, self.start@, self.end@) {
                Ok(p) => r is Ok && r->Ok_0@ == p,
                Err(m) => r is Err && r->Err_0@ == m,
            },
    {
        let n = text.unicode_len();
        match find_sub(text, self.start) {
            Some(start_idx) => {
                match find_sub(text, self.end) {
                    Some(end_idx) => {
                        proof {
                            lemma_find_first_from_props(text@, self.start@, 0);
                            lemma_find_first_from_props(text@, self.end@, 0);
                        }
                        // the start tag is printed as its own line
                        let payload_from = start_idx + self.start.unicode_len();
                        if payload_from < end_idx {
                            Ok(text.substring_char(payload_from + 1, end_idx))
                        } else {
                            proof {
                                reveal_strlit("Start marker and end marker out-of-order");
                            }
                            Err(String::from_str("Start marker and end marker out-of-order"))
                        }
                    },
                    None => {
                        proof {
                            reveal_strlit("Could not find ");
                        }
                        let mut msg = String::from_str("Could not find ");
                        msg.append(self.end);
                        Err(msg)
                    },
                }
            },
            None => {
                proof {
                    reveal_strlit("Could not find ");
                }
                let mut msg = String::from_str("Could not find ");
                msg.append(self.start);
                Err(msg)
            },
        }
    }
}

/// The marker pair framing the target's own output.
pub fn marker_child_output() -> (r: DbgMarker)
    ensures
        r.start@ == "----AFLTRIAGE_CHILD_OUTPUT_START----"@,
        r.end@ == "----AFLTRIAGE_CHILD_OUTPUT_END----"@,
        r.gdb_start@
            == "python [(x.write('----AFLTRIAGE_CHILD_OUTPUT_START----\\n'),x.flush()) for x in [sys.stdout, sys.stderr]]"@,
        r.gdb_end@
            == "python [(x.write('----AFLTRIAGE_CHILD_OUTPUT_END----\\n'),x.flush()) for x in [sys.stdout, sys.stderr]]"@,
{
    DbgMarker {
        start: "----AFLTRIAGE_CHILD_OUTPUT_START----",
        end: "----AFLTRIAGE_CHILD_OUTPUT_END----",
        gdb_start: "python [(x.write('----AFLTRIAGE_CHILD_OUTPUT_START----\\n'),x.flush()) for x in [sys.stdout, sys.stderr]]",
        gdb_end: "python [(x.write('----AFLTRIAGE_CHILD_OUTPUT_END----\\n'),x.flush()) for x in [sys.stdout, sys.stderr]]",
    }
}

/// The marker pair framing the triage script's JSON and diagnostics.
pub fn marker_backtrace() -> (r: DbgMarker)
    ensures
        r.start@ == "----AFLTRIAGE_BACKTRACE_START----"@,
        r.end@ == "----AFLTRIAGE_BACKTRACE_END----"@,
        r.gdb_start@
            == "python [(x.write('----AFLTRIAGE_BACKTRACE_START----\\n'),x.flush()) for x in [sys.stdout, sys.stderr]]"@,
        r.gdb_end@
            == "python [(x.write('----AFLTRIAGE_BACKTRACE_END----\\n'),x.flush()) for x in [sys.stdout, sys.stderr]]"@,
{
    DbgMarker {
        start: "----AFLTRIAGE_BACKTRACE_START----",
        end: "----AFLTRIAGE_BACKTRACE_END----",
        gdb_start: "python [(x.write('----AFLTRIAGE_BACKTRACE_START----\\n'),x.flush()) for x in [sys.stdout, sys.stderr]]",
        gdb_end: "python [(x.write('----AFLTRIAGE_BACKTRACE_END----\\n'),x.flush()) for x in [sys.stdout, sys.stderr]]",
    }
}

/// Extraction is idempotent under trailing output: once a stream holds a
/// complete framed region, anything the producer writes afterwards leaves the
/// extracted payload — and a detected tag disorder — unchanged.
pub proof fn lemma_extract_ok_append(
    t: Seq<char>,
    extra: Seq<char>,
    start: Seq<char>,
    end: Seq<char>,
)
    requires
        find_first(t, start) is Some,
        find_first(t, end) is Some,
    ensures
        extract_spec(t + extra, start, end) == extract_spec(t, start, end),
{
    lemma_find_first_from_append(t, extra, start, 0);
    lemma_find_first_from_append(t, extra, end, 0);
    lemma_find_first_from_props(t, start, 0);
    lemma_find_first_from_props(t, end, 0);
    let si = find_first(t, start)->Some_0;
    let ei = find_first(t, end)->Some_0;
    if si + start.len() + 1 <= ei {
        assert((t + extra).subrange(si + start.len() as int + 1, ei) =~= t.subrange(
            si + start.len() as int + 1,
            ei,
        ));
    }
}

/// Extraction is idempotent under appended text that contains neither tag:
/// if no occurrence of either tag begins in the appended region (or straddles
/// the boundary), the extraction result — payload or failure alike — is the
/// same as on the original stream.
pub proof fn lemma_extract_append_no_marker(
    t: Seq<char>,
    extra: Seq<char>,
    start: Seq<char>,
    end: Seq<char>,
)
    requires
        forall|j: int| j + start.len() > t.len() ==> !is_match_at(t + extra, start, j),
        forall|j: int| j + end.len() > t.len() ==> !is_match_at(t + extra, end, j),
    ensures
        extract_spec(t + extra, start, end) == extract_spec(t, start, end),
{
    if find_first(t, start) is Some {
        lemma_find_first_from_append(t, extra, start, 0);
    } else {
        lemma_find_first_from_append_none(t, extra, start, 0);
    }
    if find_first(t, end) is Some {
        lemma_find_first_from_append(t, extra, end, 0);
    } else {
        lemma_find_first_from_append_none(t, extra, end, 0);
    }
    if find_first(t, start) is Some && find_first(t, end) is Some {
        lemma_find_first_from_props(t, start, 0);
        lemma_find_first_from_props(t, end, 0);
        let si = find_first(t, start)->Some_0;
        let ei = find_first(t, end)->Some_0;
        if si + start.len() + 1 <= ei {
            assert((t + extra).subrange(si + start.len() as int + 1, ei) =~= t.subrange(
                si + start.len() as int + 1,
                ei,
            ));
        }
    }
}

} // verus!
