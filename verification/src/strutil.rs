//! Verified string primitives: equality, substring search, concatenation
//! helpers. The marker framing and the report builders are written on top of
//! these.

use vstd::prelude::*;

verus! {

/// The pattern `pat` occurs in `text` starting at position `i`.
pub open spec fn is_match_at(text: Seq<char>, pat: Seq<char>, i: int) -> bool {
    &&& 0 <= i
    &&& i + pat.len() <= text.len()
    &&& text.subrange(i, i + pat.len() as int) == pat
}

/// Position of the first occurrence of `pat` in `text` at or after `from`.
pub open spec fn find_first_from(text: Seq<char>, pat: Seq<char>, from: int) -> Option<int>
    decreases text.len() - from
    when 0 <= from
{
    if pat.len() == 0 {
        if from <= text.len() {
            Some(from)
        } else {
            None
        }
    } else if from + pat.len() > text.len() {
        None
    } else if is_match_at(text, pat, from) {
        Some(from)
    } else {
        find_first_from(text, pat, from + 1)
    }
}

/// Position of the first occurrence of `pat` in `text`.
pub open spec fn find_first(text: Seq<char>, pat: Seq<char>) -> Option<int> {
    find_first_from(text, pat, 0)
}

/// `text` has `pat` as a substring.
pub open spec fn contains_sub(text: Seq<char>, pat: Seq<char>) -> bool {
    find_first(text, pat) is Some
}

/// A found position is a match, lies at or after the starting point, and no
/// earlier position at or after the starting point matches; a `None` answer
/// means no position at or after the starting point matches.
pub proof fn lemma_find_first_from_props(text: Seq<char>, pat: Seq<char>, from: int)
    requires
        0 <= from,
    ensures
        match find_first_from(text, pat, from) {
            Some(i) => {
                &&& from <= i
                &&& is_match_at(text, pat, i)
                &&& forall|j: int| from <= j < i ==> !is_match_at(text, pat, j)
            },
            None => forall|j: int| from <= j ==> !is_match_at(text, pat, j),
        },
    decreases text.len() - from,
{
    if pat.len() == 0 {
        if from <= text.len() {
            assert(text.subrange(from, from) =~= pat);
            assert(is_match_at(text, pat, from));
        } else {
            assert forall|j: int| from <= j implies !is_match_at(text, pat, j) by {
                assert(j + pat.len() >= from);
            }
        }
    } else if from + pat.len() > text.len() {
        assert forall|j: int| from <= j implies !is_match_at(text, pat, j) by {
            assert(j + pat.len() >= from + pat.len());
        }
    } else if is_match_at(text, pat, from) {
    } else {
        lemma_find_first_from_props(text, pat, from + 1);
    }
}

/// Verified string equality: two string slices are equal exactly when their
/// character sequences are.
pub fn str_eq(a: &str, b: &str) -> (r: bool)
    ensures
        r == (a@ == b@),
{
    let na = a.unicode_len();
    let nb = b.unicode_len();
    if na != nb {
        assert(a@ != b@) by {
            assert(a@.len() != b@.len());
        }
        return false;
    }
    let mut i: usize = 0;
    while i < na
        invariant
            na == a@.len(),
            na == b@.len(),
            i <= na,
            forall|j: int| 0 <= j < i ==> a@[j] == b@[j],
        decreases na - i,
    {
        if a.get_char(i) != b.get_char(i) {
            return false;
        }
        i += 1;
    }
    proof {
        assert(a@ =~= b@);
    }
    true
}

/// Whether `pat` occurs in `text` starting exactly at `i`.
fn match_at(text: &str, pat: &str, i: usize) -> (r: bool)
    requires
        i + pat@.len() <= text@.len(),
        text@.len() <= usize::MAX,
    ensures
        r == is_match_at(text@, pat@, i as int),
{
    let m = pat.unicode_len();
    let mut k: usize = 0;
    while k < m
        invariant
            m == pat@.len(),
            i + m <= text@.len(),
            text@.len() <= usize::MAX,
            k <= m,
            forall|j: int| 0 <= j < k ==> text@[i + j] == pat@[j],
        decreases m - k,
    {
        if text.get_char(i + k) != pat.get_char(k) {
            assert(text@.subrange(i as int, i + m) != pat@) by {
                assert(text@.subrange(i as int, i + m)[k as int] == text@[i + k]);
            }
            return false;
        }
        k += 1;
    }
    proof {
        assert(text@.subrange(i as int, i + m) =~= pat@);
    }
    true
}

/// Position of the first occurrence of `pat` in `text`, if any.
pub fn find_sub(text: &str, pat: &str) -> (r: Option<usize>)
    ensures
        match r {
            Some(i) => find_first(text@, pat@) == Some(i as int),
            None => find_first(text@, pat@) is None,
        },
{
    let n = text.unicode_len();
    let m = pat.unicode_len();
    if m > n {
        proof {
            lemma_find_first_from_props(text@, pat@, 0);
            if find_first(text@, pat@) is Some {
                let i = find_first(text@, pat@)->Some_0;
                assert(is_match_at(text@, pat@, i));
            }
        }
        return None;
    }
    if m == 0 {
        proof {
            assert(text@.subrange(0, 0) =~= pat@);
            assert(is_match_at(text@, pat@, 0));
        }
        return Some(0);
    }
    let bound = n - m;
    let mut i: usize = 0;
    while i <= bound
        invariant
            n == text@.len(),
            m == pat@.len(),
            0 < m <= n,
            bound == n - m,
            i <= bound + 1,
            find_first(text@, pat@) == find_first_from(text@, pat@, i as int),
        decreases bound + 1 - i,
    {
        if match_at(text, pat, i) {
            return Some(i);
        }
        i += 1;
    }
    proof {
        assert(i + m > n);
        assert(find_first_from(text@, pat@, i as int) is None);
    }
    None
}

/// Whether `pat` occurs anywhere in `text`.
pub fn str_contains(text: &str, pat: &str) -> (r: bool)
    ensures
        r == contains_sub(text@, pat@),
{
    match find_sub(text, pat) {
        Some(_) => true,
        None => false,
    }
}

/// The parts joined into one sequence with `sep` between adjacent parts.
pub open spec fn join_with(parts: Seq<Seq<char>>, sep: Seq<char>) -> Seq<char>
    decreases parts.len(),
{
    if parts.len() == 0 {
        Seq::<char>::empty()
    } else if parts.len() == 1 {
        parts[0]
    } else {
        parts[0] + sep + join_with(parts.skip(1), sep)
    }
}

/// Joining one more part appends a separator and the part, except to an empty
/// list.
pub proof fn lemma_join_push(parts: Seq<Seq<char>>, sep: Seq<char>, x: Seq<char>)
    ensures
        join_with(parts.push(x), sep) == if parts.len() == 0 {
            x
        } else {
            join_with(parts, sep) + sep + x
        },
    decreases parts.len(),
{
    if parts.len() == 0 {
        assert(parts.push(x).len() == 1);
        assert(parts.push(x)[0] == x);
    } else if parts.len() == 1 {
        assert(parts.push(x).skip(1) =~= seq![x]);
        assert(join_with(seq![x], sep) == x);
        assert(parts.push(x)[0] == parts[0]);
        assert(join_with(parts.push(x), sep) == parts[0] + sep + x);
    } else {
        lemma_join_push(parts.skip(1), sep, x);
        assert(parts.push(x).skip(1) =~= parts.skip(1).push(x));
        assert(join_with(parts.push(x), sep) == parts[0] + sep + join_with(
            parts.skip(1).push(x),
            sep,
        ));
        assert((parts[0] + sep + (join_with(parts.skip(1), sep) + sep + x)) =~= (parts[0] + sep
            + join_with(parts.skip(1), sep) + sep + x));
    }
}

/// Join string parts with a separator.
pub fn join_strings(parts: &Vec<String>, sep: &str) -> (r: String)
    ensures
        r@ == join_with(parts.deep_view(), sep@),
{
    let mut r = String::new();
    let n = parts.len();
    let mut i: usize = 0;
    proof {
        assert(parts.deep_view().take(0) =~= Seq::<Seq<char>>::empty());
    }
    while i < n
        invariant
            n == parts@.len(),
            i <= n,
            parts.deep_view().len() == n,
            forall|j: int| 0 <= j < n ==> parts.deep_view()[j] == parts@[j]@,
            r@ == join_with(parts.deep_view().take(i as int), sep@),
        decreases n - i,
    {
        if i > 0 {
            r.append(sep);
        }
        r.append(parts[i].as_str());
        proof {
            lemma_join_push(parts.deep_view().take(i as int), sep@, parts.deep_view()[i as int]);
            assert(parts.deep_view().take(i as int).push(parts.deep_view()[i as int])
                =~= parts.deep_view().take(i as int + 1));
        }
        i += 1;
    }
    proof {
        assert(parts.deep_view().take(n as int) =~= parts.deep_view());
    }
    r
}

/// An ASCII whitespace character.
pub open spec fn is_ws_char(c: char) -> bool {
    ||| c == ' '
    ||| c == '\t'
    ||| c == '\n'
    ||| c == '\r'
    ||| c == '\u{b}'
    ||| c == '\u{c}'
}

/// The sequence without its trailing ASCII whitespace.
pub open spec fn trim_end_spec(s: Seq<char>) -> Seq<char>
    decreases s.len(),
{
    if s.len() == 0 {
        s
    } else if is_ws_char(s.last()) {
        trim_end_spec(s.drop_last())
    } else {
        s
    }
}

/// A prefix that ends in a non-whitespace character and is followed only by
/// whitespace is what trimming leaves.
pub proof fn lemma_trim_end_take(s: Seq<char>, k: int)
    requires
        0 <= k <= s.len(),
        forall|j: int| k <= j < s.len() ==> is_ws_char(#[trigger] s[j]),
        k == 0 || !is_ws_char(s[k - 1]),
    ensures
        trim_end_spec(s) == s.take(k),
    decreases s.len(),
{
    if s.len() == k {
        if k == 0 {
            assert(s.take(0) =~= s);
        } else {
            assert(!is_ws_char(s.last()));
            assert(s.take(k) =~= s);
        }
    } else {
        assert(is_ws_char(s.last()));
        lemma_trim_end_take(s.drop_last(), k);
        assert(s.drop_last().take(k) =~= s.take(k));
    }
}

/// Remove trailing ASCII whitespace.
pub fn trim_end_chars<'a>(s: &'a str) -> (r: &'a str)
    ensures
        r@ == trim_end_spec(s@),
{
    let n = s.unicode_len();
    let mut k: usize = n;
    while k > 0
        invariant
            n == s@.len(),
            k <= n,
            forall|j: int| k <= j < n ==> is_ws_char(#[trigger] s@[j]),
        decreases k,
    {
        let c = s.get_char(k - 1);
        if !(c == ' ' || c == '\t' || c == '\n' || c == '\r' || c == '\u{b}' || c == '\u{c}') {
            proof {
                lemma_trim_end_take(s@, k as int);
            }
            return s.substring_char(0, k);
        }
        k -= 1;
    }
    proof {
        lemma_trim_end_take(s@, 0);
    }
    s.substring_char(0, 0)
}

/// A line with a trailing carriage return loses it.
pub open spec fn strip_cr(l: Seq<char>) -> Seq<char> {
    if l.len() > 0 && l.last() == '\r' {
        l.drop_last()
    } else {
        l
    }
}

/// The lines of a text: split at each newline, a trailing carriage return
/// dropped from each line, and no final empty line for text that ends in a
/// newline.
pub open spec fn split_lines_spec(s: Seq<char>) -> Seq<Seq<char>>
    decreases s.len()
    via split_lines_spec_decreases
{
    if s.len() == 0 {
        Seq::<Seq<char>>::empty()
    } else {
        match find_first(s, seq!['\n']) {
            Some(i) => seq![strip_cr(s.take(i))] + split_lines_spec(s.skip(i + 1)),
            None => seq![s],
        }
    }
}

#[via_fn]
proof fn split_lines_spec_decreases(s: Seq<char>) {
    if s.len() != 0 {
        if find_first(s, seq!['\n']) is Some {
            lemma_find_first_from_props(s, seq!['\n'], 0);
        }
    }
}

/// Split a text into its lines.
pub fn split_lines(s: &str) -> (r: Vec<String>)
    ensures
        r.deep_view() == split_lines_spec(s@),
{
    let mut out: Vec<String> = Vec::new();
    let mut rem: &str = s;
    proof {
        assert(Seq::<Seq<char>>::empty() + split_lines_spec(s@) =~= split_lines_spec(s@));
    }
    loop
        invariant
            out.deep_view() + split_lines_spec(rem@) == split_lines_spec(s@),
        decreases rem@.len(),
    {
        let n = rem.unicode_len();
        if n == 0 {
            proof {
                assert(out.deep_view() + split_lines_spec(rem@) =~= out.deep_view());
            }
            return out;
        }
        proof {
            reveal_strlit("\n");
            assert("\n"@ =~= seq!['\n']);
        }
        match find_sub(rem, "\n") {
            Some(i) => {
                proof {
                    lemma_find_first_from_props(rem@, "\n"@, 0);
                }
                let mut line = rem.substring_char(0, i);
                if i > 0 && line.get_char(i - 1) == '\r' {
                    line = line.substring_char(0, i - 1);
                    proof {
                        assert(rem@.subrange(0, i as int).subrange(0, i as int - 1)
                            =~= strip_cr(rem@.take(i as int)));
                    }
                } else {
                    proof {
                        assert(rem@.subrange(0, i as int) =~= strip_cr(rem@.take(i as int)));
                    }
                }
                let ghost old_out = out.deep_view();
                let ghost old_rem = rem@;
                out.push(String::from_str(line));
                rem = rem.substring_char(i + 1, n);
                proof {
                    assert(rem@ =~= old_rem.skip(i as int + 1));
                    assert(out.deep_view() =~= old_out.push(line@));
                    assert(split_lines_spec(old_rem) == seq![strip_cr(old_rem.take(i as int))]
                        + split_lines_spec(old_rem.skip(i as int + 1)));
                    assert(out.deep_view() + split_lines_spec(rem@) =~= old_out + (seq![line@]
                        + split_lines_spec(rem@)));
                    assert(seq![line@] + split_lines_spec(rem@) =~= split_lines_spec(old_rem));
                }
            },
            None => {
                let ghost old_out = out.deep_view();
                out.push(String::from_str(rem));
                proof {
                    assert(split_lines_spec(rem@) == seq![rem@]);
                    assert(out.deep_view() =~= old_out.push(rem@));
                    assert(out.deep_view() =~= old_out + seq![rem@]);
                }
                return out;
            },
        }
    }
}

/// The text with every occurrence of a non-empty pattern replaced, scanning
/// left to right.
pub open spec fn replace_spec(s: Seq<char>, pat: Seq<char>, repl: Seq<char>) -> Seq<char>
    decreases s.len()
    via replace_spec_decreases
{
    if pat.len() == 0 {
        s
    } else {
        match find_first(s, pat) {
            None => s,
            Some(i) => s.take(i) + repl + replace_spec(s.skip(i + pat.len()), pat, repl),
        }
    }
}

#[via_fn]
proof fn replace_spec_decreases(s: Seq<char>, pat: Seq<char>, repl: Seq<char>) {
    if pat.len() != 0 {
        if find_first(s, pat) is Some {
            lemma_find_first_from_props(s, pat, 0);
        }
    }
}

/// Replace every occurrence of a non-empty pattern.
pub fn replace_all(s: &str, pat: &str, repl: &str) -> (r: String)
    requires
        pat@.len() > 0,
    ensures
        r@ == replace_spec(s@, pat@, repl@),
{
    let mut acc = String::new();
    let mut rem: &str = s;
    proof {
        assert(Seq::<char>::empty() + replace_spec(s@, pat@, repl@) =~= replace_spec(
            s@,
            pat@,
            repl@,
        ));
    }
    loop
        invariant
            pat@.len() > 0,
            acc@ + replace_spec(rem@, pat@, repl@) == replace_spec(s@, pat@, repl@),
        decreases rem@.len(),
    {
        let n = rem.unicode_len();
        match find_sub(rem, pat) {
            Some(i) => {
                proof {
                    lemma_find_first_from_props(rem@, pat@, 0);
                }
                let ghost old_acc = acc@;
                let ghost old_rem = rem@;
                acc.append(rem.substring_char(0, i));
                acc.append(repl);
                rem = rem.substring_char(i + pat.unicode_len(), n);
                proof {
                    assert(rem@ =~= old_rem.skip(i + pat@.len() as int));
                    assert(acc@ =~= old_acc + (old_rem.take(i as int) + repl@));
                    assert(replace_spec(old_rem, pat@, repl@) == old_rem.take(i as int) + repl@
                        + replace_spec(rem@, pat@, repl@));
                    assert(acc@ + replace_spec(rem@, pat@, repl@) =~= old_acc + replace_spec(
                        old_rem,
                        pat@,
                        repl@,
                    ));
                }
            },
            None => {
                acc.append(rem);
                return acc;
            },
        }
    }
}

/// The first line of a text: up to the first newline, with a trailing
/// carriage return dropped; the whole text when it has no newline.
pub open spec fn first_line_spec(s: Seq<char>) -> Seq<char> {
    match find_first(s, seq!['\n']) {
        Some(i) => strip_cr(s.take(i)),
        None => s,
    }
}

/// Take the first line of a text.
pub fn first_line<'a>(s: &'a str) -> (r: &'a str)
    ensures
        r@ == first_line_spec(s@),
{
    proof {
        reveal_strlit("\n");
        assert("\n"@ =~= seq!['\n']);
    }
    match find_sub(s, "\n") {
        Some(i) => {
            proof {
                lemma_find_first_from_props(s@, "\n"@, 0);
            }
            let line = s.substring_char(0, i);
            if i > 0 && line.get_char(i - 1) == '\r' {
                proof {
                    assert(s@.subrange(0, i as int).subrange(0, i as int - 1) =~= strip_cr(
                        s@.take(i as int),
                    ));
                }
                line.substring_char(0, i - 1)
            } else {
                proof {
                    assert(s@.subrange(0, i as int) =~= strip_cr(s@.take(i as int)));
                }
                line
            }
        },
        None => s,
    }
}

/// A match inside the left half of a concatenation is a match of the whole,
/// and a match of the whole that fits inside the left half is a match of it.
pub proof fn lemma_match_at_append(s: Seq<char>, t: Seq<char>, pat: Seq<char>, j: int)
    requires
        j + pat.len() <= s.len(),
    ensures
        is_match_at(s + t, pat, j) == is_match_at(s, pat, j),
{
    if 0 <= j {
        assert((s + t).subrange(j, j + pat.len() as int) =~= s.subrange(j, j + pat.len() as int));
    }
}

/// Appending text does not move an occurrence already found: searching the
/// concatenation from any point not past a first match of the left half finds
/// that same match.
pub proof fn lemma_find_first_from_append(s: Seq<char>, t: Seq<char>, pat: Seq<char>, from: int)
    requires
        0 <= from,
        find_first_from(s, pat, from) is Some,
    ensures
        find_first_from(s + t, pat, from) == find_first_from(s, pat, from),
    decreases s.len() - from,
{
    let i = find_first_from(s, pat, from)->Some_0;
    lemma_find_first_from_props(s, pat, from);
    assert(is_match_at(s, pat, i));
    if pat.len() == 0 {
        assert(from <= s.len());
        assert(from <= (s + t).len());
    } else if from + pat.len() > s.len() {
        assert(i + pat.len() <= s.len());
        assert(false);
    } else if is_match_at(s, pat, from) {
        lemma_match_at_append(s, t, pat, from);
    } else {
        lemma_match_at_append(s, t, pat, from);
        lemma_find_first_from_append(s, t, pat, from + 1);
    }
}

/// If neither half of the concatenation yields a match at or after `from` —
/// in particular none that straddles the boundary — the search of the
/// concatenation fails just as the search of the left half does.
pub proof fn lemma_find_first_from_append_none(s: Seq<char>, t: Seq<char>, pat: Seq<char>, from: int)
    requires
        0 <= from,
        find_first_from(s, pat, from) is None,
        forall|j: int| j + pat.len() > s.len() ==> !is_match_at(s + t, pat, j),
    ensures
        find_first_from(s + t, pat, from) is None,
{
    lemma_find_first_from_props(s, pat, from);
    lemma_find_first_from_props(s + t, pat, from);
    if find_first_from(s + t, pat, from) is Some {
        let i = find_first_from(s + t, pat, from)->Some_0;
        assert(is_match_at(s + t, pat, i));
        assert(i + pat.len() <= s.len());
        lemma_match_at_append(s, t, pat, i);
        assert(is_match_at(s, pat, i));
    }
}

} // verus!
