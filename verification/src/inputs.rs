//! Input classification and test-case enumeration. The filesystem is read by
//! the caller, which hands in plain metadata and directory listings; every
//! decision about them is made — and proved — here.

use vstd::prelude::*;

use crate::numfmt::{fnv1a, fnv1a_hash, hex_pad, is_hex_char, u64_to_hex16};
use crate::strutil::str_eq;
use vstd::multiset::Multiset;

verus! {

/// What a user-supplied input path turned out to be.
#[derive(Debug, PartialEq, Eq, Structural, Clone, Copy)]
pub enum UserInputPathType {
    Unknown,
    Missing,
    Single,
    PlainDir,
    AflDir,
}

/// The filesystem facts about one input path, gathered by the caller:
/// whether it exists, what it is, and which fuzzer-directory landmarks it
/// contains.
#[derive(Debug, PartialEq, Eq, Structural, Clone, Copy)]
pub struct PathMeta {
    pub exists: bool,
    pub is_file: bool,
    pub is_dir: bool,
    pub has_fuzzer_stats: bool,
    pub has_queue: bool,
    pub has_crashes: bool,
}

/// The classification rule: a missing path, a regular file, a directory with
/// a fuzzer landmark, any other directory, and anything else — in that
/// order. Only a directory can be a fuzzer directory: a path that merely
/// shows a landmark without being a directory itself stays unknown.
pub open spec fn classify_spec(m: PathMeta) -> UserInputPathType {
    if !m.exists {
        UserInputPathType::Missing
    } else if m.is_file {
        UserInputPathType::Single
    } else if m.is_dir && (m.has_fuzzer_stats || m.has_queue || m.has_crashes) {
        UserInputPathType::AflDir
    } else if m.is_dir {
        UserInputPathType::PlainDir
    } else {
        UserInputPathType::Unknown
    }
}

/// Classify one input path from its metadata. The result is a function of
/// the metadata alone, so classifying the same path twice — unchanged on
/// disk — gives the same kind.
pub fn determine_input_type(meta: PathMeta) -> (r: UserInputPathType)
    ensures
        r == classify_spec(meta),
{
    if !meta.exists {
        UserInputPathType::Missing
    } else if meta.is_file {
        UserInputPathType::Single
    } else if meta.is_dir && (meta.has_fuzzer_stats || meta.has_queue || meta.has_crashes) {
        UserInputPathType::AflDir
    } else if meta.is_dir {
        UserInputPathType::PlainDir
    } else {
        UserInputPathType::Unknown
    }
}

/// One concrete test case: its path and a filesystem-safe identifier derived
/// from that path.
#[derive(Debug)]
pub struct Testcase {
    pub path: String,
    pub unique_id: String,
}

/// The identifier of a test case: the FNV-1a digest of its path, sixteen
/// lower-case hexadecimal characters — stable across runs.
pub open spec fn testcase_id_spec(path: Seq<char>) -> Seq<char> {
    hex_pad(fnv1a(path) as int, 16)
}

/// Make the test case for one path.
pub fn make_testcase(path: String) -> (r: Testcase)
    ensures
        r.path == path,
        r.unique_id@ == testcase_id_spec(path@),
        r.unique_id@.len() == 16,
        forall|i: int| 0 <= i < r.unique_id@.len() ==> is_hex_char(#[trigger] r.unique_id@[i]),
{
    let unique_id = u64_to_hex16(fnv1a_hash(path.as_str()));
    Testcase { path, unique_id }
}

/// One entry of a directory listing, as the caller read it: full path, bare
/// file name, and whether it is a regular file.
#[derive(Debug)]
pub struct DirEntryInfo {
    pub path: String,
    pub file_name: String,
    pub is_file: bool,
}

/// Code-point order on character sequences: the usual lexicographic order,
/// comparing characters by their code points.
pub open spec fn lex_le(a: Seq<char>, b: Seq<char>) -> bool
    decreases a.len(),
{
    if a.len() == 0 {
        true
    } else if b.len() == 0 {
        false
    } else if (a[0] as u32) == (b[0] as u32) {
        lex_le(a.skip(1), b.skip(1))
    } else {
        (a[0] as u32) < (b[0] as u32)
    }
}

/// The order is total: of any two sequences, one is less-or-equal the other.
pub proof fn lemma_lex_le_total(a: Seq<char>, b: Seq<char>)
    ensures
        lex_le(a, b) || lex_le(b, a),
    decreases a.len(),
{
    if a.len() == 0 {
    } else if b.len() == 0 {
    } else if (a[0] as u32) == (b[0] as u32) {
        lemma_lex_le_total(a.skip(1), b.skip(1));
    }
}

/// The order is transitive.
pub proof fn lemma_lex_le_trans(a: Seq<char>, b: Seq<char>, c: Seq<char>)
    requires
        lex_le(a, b),
        lex_le(b, c),
    ensures
        lex_le(a, c),
    decreases a.len(),
{
    if a.len() == 0 {
    } else {
        assert(b.len() > 0);
        assert(c.len() > 0);
        if (a[0] as u32) == (b[0] as u32) && (b[0] as u32) == (c[0] as u32) {
            lemma_lex_le_trans(a.skip(1), b.skip(1), c.skip(1));
        }
    }
}

/// A directory listing in stable order: entry paths ascend lexicographically.
pub open spec fn entries_sorted(s: Seq<DirEntryInfo>) -> bool {
    forall|i: int, j: int| 0 <= i < j < s.len() ==> lex_le(#[trigger] s[i].path@, #[trigger] s[j].path@)
}

/// Compare two strings in code-point lexicographic order.
pub fn str_lex_le(a: &str, b: &str) -> (r: bool)
    ensures
        r == lex_le(a@, b@),
{
    let na = a.unicode_len();
    let nb = b.unicode_len();
    let mut i: usize = 0;
    proof {
        assert(a@.skip(0) =~= a@);
        assert(b@.skip(0) =~= b@);
    }
    while i < na && i < nb
        invariant
            na == a@.len(),
            nb == b@.len(),
            i <= na,
            i <= nb,
            lex_le(a@, b@) == lex_le(a@.skip(i as int), b@.skip(i as int)),
        decreases na - i,
    {
        let ca = a.get_char(i) as u32;
        let cb = b.get_char(i) as u32;
        proof {
            assert(a@.skip(i as int)[0] == a@[i as int]);
            assert(b@.skip(i as int)[0] == b@[i as int]);
            assert(a@.skip(i as int).skip(1) =~= a@.skip(i as int + 1));
            assert(b@.skip(i as int).skip(1) =~= b@.skip(i as int + 1));
        }
        if ca != cb {
            return ca < cb;
        }
        i += 1;
    }
    proof {
        assert(a@.skip(i as int).len() == na - i);
        assert(b@.skip(i as int).len() == nb - i);
    }
    i >= na
}

/// Where a path belongs in a sorted listing: the first position whose entry
/// is not less-or-equal the path — a stable insertion point.
fn find_insert_pos(out: &Vec<DirEntryInfo>, path: &str) -> (p: usize)
    ensures
        p <= out@.len(),
        forall|j: int| 0 <= j < p ==> lex_le(#[trigger] out@[j].path@, path@),
        p < out@.len() ==> !lex_le(out@[p as int].path@, path@),
{
    let n = out.len();
    let mut p: usize = 0;
    while p < n
        invariant
            n == out@.len(),
            p <= n,
            forall|j: int| 0 <= j < p ==> lex_le(#[trigger] out@[j].path@, path@),
        decreases n - p,
    {
        if !str_lex_le(out[p].path.as_str(), path) {
            return p;
        }
        p += 1;
    }
    p
}

/// Inserting an element into a sequence adds exactly it to the multiset.
proof fn lemma_insert_to_multiset(s: Seq<DirEntryInfo>, p: int, e: DirEntryInfo)
    requires
        0 <= p <= s.len(),
    ensures
        s.insert(p, e).to_multiset() == s.to_multiset().insert(e),
{
    broadcast use vstd::seq_lib::group_to_multiset_ensures;

    let front = s.subrange(0, p);
    let back = s.subrange(p, s.len() as int);
    assert(s.insert(p, e) == front.push(e) + back);
    vstd::seq_lib::lemma_multiset_commutative(front.push(e), back);
    vstd::seq_lib::lemma_multiset_commutative(front, back);
    assert(front + back =~= s);
    assert(front.push(e).to_multiset() =~= front.to_multiset().insert(e));
    assert(front.to_multiset().insert(e).add(back.to_multiset()) =~= front.to_multiset().add(
        back.to_multiset(),
    ).insert(e));
}

/// Sort a directory listing by path, in code-point lexicographic order: the
/// result is sorted and holds exactly the entries of the input. This is the
/// stable order in which directory test cases are enumerated.
pub fn sort_entries_by_path(entries: Vec<DirEntryInfo>) -> (r: Vec<DirEntryInfo>)
    ensures
        entries_sorted(r@),
        r@.to_multiset() == entries@.to_multiset(),
        r@.len() == entries@.len(),
{
    broadcast use vstd::seq_lib::group_to_multiset_ensures;

    let ghost orig = entries@;
    let mut out: Vec<DirEntryInfo> = Vec::new();
    let mut rem = entries;
    proof {
        broadcast use vstd::seq_lib::group_to_multiset_ensures;

        assert(out@.to_multiset() =~= Multiset::<DirEntryInfo>::empty());
        assert(out@.to_multiset().add(rem@.to_multiset()) =~= orig.to_multiset());
    }
    while rem.len() > 0
        invariant
            entries_sorted(out@),
            out@.to_multiset().add(rem@.to_multiset()) == orig.to_multiset(),
            out@.len() + rem@.len() == orig.len(),
        decreases rem@.len(),
    {
        let ghost pre_rem = rem@;
        let e = rem.remove(0);
        proof {
            broadcast use vstd::seq_lib::group_to_multiset_ensures;

            assert(pre_rem.remove(0).to_multiset() =~= pre_rem.to_multiset().remove(pre_rem[0]));
            assert(rem@.to_multiset() =~= pre_rem.to_multiset().remove(e));
            assert(pre_rem.contains(e)) by {
                assert(pre_rem[0] == e);
            }
            assert(pre_rem.to_multiset().count(e) > 0);
        }
        let ghost pre_out = out@;
        let p = find_insert_pos(&out, e.path.as_str());
        let ghost e_snapshot = e;
        out.insert(p, e);
        proof {
            broadcast use vstd::seq_lib::group_to_multiset_ensures;

            lemma_insert_to_multiset(pre_out, p as int, e_snapshot);
            assert(out@.to_multiset().add(rem@.to_multiset()) =~= orig.to_multiset());
            assert forall|i: int, j: int| 0 <= i < j < out@.len() implies lex_le(
                #[trigger] out@[i].path@,
                #[trigger] out@[j].path@,
            ) by {
                assert(out@ == pre_out.insert(p as int, e_snapshot));
                assert(forall|k: int| 0 <= k < p ==> out@[k] == pre_out[k]);
                assert(out@[p as int] == e_snapshot);
                assert(forall|k: int| p < k < out@.len() ==> out@[k] == pre_out[k - 1]);
                if p < pre_out.len() {
                    lemma_lex_le_total(pre_out[p as int].path@, e_snapshot.path@);
                }
                if i == p && p < j {
                    assert(lex_le(e_snapshot.path@, pre_out[p as int].path@));
                    if j - 1 > p {
                        lemma_lex_le_trans(
                            e_snapshot.path@,
                            pre_out[p as int].path@,
                            pre_out[j - 1].path@,
                        );
                    }
                }
            }
        }
    }
    proof {
        assert(rem@.to_multiset() =~= Multiset::<DirEntryInfo>::empty());
        assert(out@.to_multiset() =~= out@.to_multiset().add(rem@.to_multiset()));
    }
    out
}

/// Test cases in stable order: paths ascend lexicographically.
pub open spec fn testcases_sorted(s: Seq<Testcase>) -> bool {
    forall|i: int, j: int| 0 <= i < j < s.len() ==> lex_le(#[trigger] s[i].path@, #[trigger] s[j].path@)
}

/// Filtering a sorted listing keeps it sorted, and every kept entry is an
/// entry of the original.
pub proof fn lemma_filter_keeps_sorted(s: Seq<DirEntryInfo>, pred: spec_fn(DirEntryInfo) -> bool)
    requires
        entries_sorted(s),
    ensures
        entries_sorted(s.filter(pred)),
        forall|i: int|
            0 <= i < s.filter(pred).len() ==> exists|k: int|
                0 <= k < s.len() && s[k] == #[trigger] s.filter(pred)[i],
    decreases s.len(),
{
    reveal(Seq::filter);
    if s.len() != 0 {
        let s2 = s.drop_last();
        assert(entries_sorted(s2)) by {
            assert forall|i: int, j: int| 0 <= i < j < s2.len() implies lex_le(
                #[trigger] s2[i].path@,
                #[trigger] s2[j].path@,
            ) by {
                assert(s2[i] == s[i]);
                assert(s2[j] == s[j]);
            }
        }
        lemma_filter_keeps_sorted(s2, pred);
        let f2 = s2.filter(pred);
        let f = s.filter(pred);
        if pred(s.last()) {
            assert(f == f2.push(s.last()));
            assert forall|i: int| 0 <= i < f.len() implies exists|k: int|
                0 <= k < s.len() && s[k] == #[trigger] f[i] by {
                if i < f.len() - 1 {
                    assert(f[i] == f2[i]);
                    let k = choose|k: int| 0 <= k < s2.len() && s2[k] == f2[i];
                    assert(s[k] == f[i]);
                } else {
                    assert(s[s.len() - 1] == f[i]);
                }
            }
            assert forall|i: int, j: int| 0 <= i < j < f.len() implies lex_le(
                #[trigger] f[i].path@,
                #[trigger] f[j].path@,
            ) by {
                if j < f.len() - 1 {
                    assert(f[i] == f2[i]);
                    assert(f[j] == f2[j]);
                } else {
                    assert(f[j] == s.last());
                    assert(f[i] == f2[i]);
                    let k = choose|k: int| 0 <= k < s2.len() && s2[k] == f2[i];
                    assert(s[k] == f[i]);
                    assert(lex_le(s[k].path@, s[s.len() - 1].path@));
                }
            }
        } else {
            assert(f == f2);
        }
    }
}

/// Which listing entries become test cases: regular files, and — when the
/// listing is a fuzzer crashes directory — not the `README.txt` the fuzzer
/// leaves there.
pub open spec fn keep_entry(e: DirEntryInfo, exclude_readme: bool) -> bool {
    e.is_file && (!exclude_readme || e.file_name@ != "README.txt"@)
}

/// Turn a directory listing into test cases, in listing order.
///
/// The result is exactly the kept entries of the listing, in their order,
/// each with its stable identifier: enumerating the same listing twice gives
/// the same sequence, and a sorted listing yields test cases in that same
/// stable order.
pub fn collect_dir_testcases(entries: &Vec<DirEntryInfo>, exclude_readme: bool) -> (r: Vec<
    Testcase,
>)
    ensures
        r@.map_values(|t: Testcase| t.path) == entries@.filter(
            |e: DirEntryInfo| keep_entry(e, exclude_readme),
        ).map_values(|e: DirEntryInfo| e.path),
        forall|i: int|
            0 <= i < r@.len() ==> #[trigger] r@[i].unique_id@ == testcase_id_spec(r@[i].path@),
        entries_sorted(entries@) ==> testcases_sorted(r@),
{
    let ghost pred = |e: DirEntryInfo| keep_entry(e, exclude_readme);
    let mut r: Vec<Testcase> = Vec::new();
    let n = entries.len();
    let mut i: usize = 0;
    proof {
        reveal_with_fuel(Seq::filter, 2);
        assert(entries@.take(0).filter(pred) =~= Seq::<DirEntryInfo>::empty());
        assert(r@.map_values(|t: Testcase| t.path) =~= entries@.take(0).filter(pred).map_values(
            |e: DirEntryInfo| e.path,
        ));
    }
    while i < n
        invariant
            n == entries@.len(),
            i <= n,
            pred == (|e: DirEntryInfo| keep_entry(e, exclude_readme)),
            r@.map_values(|t: Testcase| t.path) == entries@.take(i as int).filter(pred).map_values(
                |e: DirEntryInfo| e.path,
            ),
            forall|j: int|
                0 <= j < r@.len() ==> #[trigger] r@[j].unique_id@ == testcase_id_spec(r@[j].path@),
        decreases n - i,
    {
        let e = &entries[i];
        let ghost prefix = entries@.take(i as int);
        proof {
            reveal_with_fuel(Seq::filter, 2);
            assert(entries@.take(i as int + 1).drop_last() =~= prefix);
            assert(entries@.take(i as int + 1).last() == entries@[i as int]);
        }
        let keep = e.is_file && (!exclude_readme || !str_eq(e.file_name.as_str(), "README.txt"));
        if keep {
            let ghost pre_paths = r@.map_values(|t: Testcase| t.path);
            r.push(make_testcase(e.path.clone()));
            proof {
                reveal_with_fuel(Seq::filter, 2);
                assert(pred(entries@[i as int]));
                assert(entries@.take(i as int + 1).filter(pred) == prefix.filter(pred).push(
                    entries@[i as int],
                ));
                assert(r@.map_values(|t: Testcase| t.path) =~= pre_paths.push(
                    entries@[i as int].path,
                ));
                assert(r@.map_values(|t: Testcase| t.path) =~= entries@.take(i as int + 1).filter(
                    pred,
                ).map_values(|e2: DirEntryInfo| e2.path));
            }
        } else {
            proof {
                reveal_with_fuel(Seq::filter, 2);
                assert(!pred(entries@[i as int]));
                assert(entries@.take(i as int + 1).filter(pred) == prefix.filter(pred));
            }
        }
        i += 1;
    }
    proof {
        assert(entries@.take(n as int) =~= entries@);
        if entries_sorted(entries@) {
            lemma_filter_keeps_sorted(entries@, pred);
            let f = entries@.filter(pred);
            assert forall|a: int, b: int| 0 <= a < b < r@.len() implies lex_le(
                #[trigger] r@[a].path@,
                #[trigger] r@[b].path@,
            ) by {
                assert(r@.map_values(|t: Testcase| t.path)[a] == r@[a].path);
                assert(r@.map_values(|t: Testcase| t.path)[b] == r@[b].path);
                assert(f.map_values(|e2: DirEntryInfo| e2.path)[a] == f[a].path);
                assert(f.map_values(|e2: DirEntryInfo| e2.path)[b] == f[b].path);
                assert(r@[a].path == f[a].path);
                assert(r@[b].path == f[b].path);
                assert(lex_le(f[a].path@, f[b].path@));
            }
        }
    }
    r
}

} // verus!
