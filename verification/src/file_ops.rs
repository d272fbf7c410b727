//! File operations inside a container, common to every backend: POSIX
//! shell quoting, the shell command lines that read, write and list files,
//! the one-occurrence edit, and line-numbered rendering of file content.

use vstd::prelude::*;
use crate::error::Error;
use crate::text::{chars_of, decimal, decimal_string, find, find_from, lemma_find_from_first,
    lemma_find_from_props, lines, matches_at, occurs_at, split_lines};

verus! {

/// How one character is written inside single quotes: a `'` closes the
/// quotes, adds an escaped quote and reopens them.
pub open spec fn quote_char(c: char) -> Seq<char> {
    if c == '\'' {
        "'\\''"@
    } else {
        seq![c]
    }
}

/// The characters of `s` as written between single quotes.
pub open spec fn quote_body(s: Seq<char>) -> Seq<char>
    decreases s.len(),
{
    if s.len() == 0 {
        Seq::empty()
    } else {
        quote_body(s.drop_last()) + quote_char(s.last())
    }
}

/// `s` as one POSIX shell word: wrapped in single quotes, each `'` in it
/// written as `'\''`.
pub open spec fn quoted(s: Seq<char>) -> Seq<char> {
    "'"@ + quote_body(s) + "'"@
}

/// `s` quoted as a single shell word, so that `sh` reads it back as
/// exactly `s`.
pub fn shell_quote(s: &str) -> (r: String)
    ensures
        r@ == quoted(s@),
{
    let n = s.unicode_len();
    let mut out = String::from_str("'");
    let mut i: usize = 0;
    while i < n
        invariant
            n == s@.len(),
            i <= n,
            out@ == "'"@ + quote_body(s@.take(i as int)),
        decreases n - i,
    {
        let c = s.get_char(i);
        let ghost before = out@;
        if c == '\'' {
            out.append("'\\''");
        } else {
            out.append(s.substring_char(i, i + 1));
            assert(s@.subrange(i as int, i + 1) =~= seq![c]);
        }
        assert(s@.take(i + 1).drop_last() =~= s@.take(i as int));
        assert(out@ =~= "'"@ + quote_body(s@.take(i + 1)));
        i = i + 1;
    }
    assert(s@.take(n as int) =~= s@);
    out.append("'");
    out
}

/// The shell command that prints the file at `path`.
pub open spec fn read_file_text(path: Seq<char>) -> Seq<char> {
    "cat "@ + quoted(path)
}

/// The shell command that writes `content` to `path` byte for byte,
/// creating the parent directories first.
pub open spec fn write_file_text(path: Seq<char>, content: Seq<char>) -> Seq<char> {
    "mkdir -p \"$(dirname "@ + quoted(path) + ")\" && printf '%s' "@ + quoted(content) + " > "@
        + quoted(path)
}

/// The shell command that lists the non-hidden entries under `path`, two
/// levels deep, in sorted order.
pub open spec fn list_dir_text(path: Seq<char>) -> Seq<char> {
    "find "@ + quoted(path) + " -maxdepth 2 -not -path '*/.*' | sort"@
}

/// Shell command that prints the file at `path`.
pub fn read_file_command(path: &str) -> (r: String)
    ensures
        r@ == read_file_text(path@),
{
    let mut c = String::from_str("cat ");
    let q = shell_quote(path);
    c.append(q.as_str());
    c
}

/// Shell command that creates or overwrites the file at `path` with
/// `content`, creating its parent directories.
pub fn write_file_command(path: &str, content: &str) -> (r: String)
    ensures
        r@ == write_file_text(path@, content@),
{
    let qp = shell_quote(path);
    let qc = shell_quote(content);
    let mut c = String::from_str("mkdir -p \"$(dirname ");
    c.append(qp.as_str());
    c.append(")\" && printf '%s' ");
    c.append(qc.as_str());
    c.append(" > ");
    c.append(qp.as_str());
    c
}

/// Shell command that lists the directory at `path`.
pub fn list_dir_command(path: &str) -> (r: String)
    ensures
        r@ == list_dir_text(path@),
{
    let mut c = String::from_str("find ");
    let q = shell_quote(path);
    c.append(q.as_str());
    c.append(" -maxdepth 2 -not -path '*/.*' | sort");
    c
}

/// Number of positions `i < n` at which `p` occurs in `s`.
pub open spec fn count_before(s: Seq<char>, p: Seq<char>, n: int) -> nat
    decreases n,
{
    if n <= 0 {
        0
    } else {
        count_before(s, p, n - 1) + (if occurs_at(s, p, n - 1) {
            1nat
        } else {
            0nat
        })
    }
}

/// Number of places where `p` occurs in `s`, overlapping ones counted
/// apart (an empty `p` occurs at every position, the end included).
pub open spec fn occurrences(s: Seq<char>, p: Seq<char>) -> nat {
    count_before(s, p, s.len() + 1int)
}

/// `s` with its first occurrence of `old` replaced by `new`.
pub open spec fn replace_once(s: Seq<char>, old: Seq<char>, new: Seq<char>) -> Seq<char> {
    match find(s, old) {
        Some(i) => s.take(i) + new + s.skip(i + old.len()),
        None => s,
    }
}

/// The refusal of an edit whose `old_str` does not occur.
pub open spec fn not_found_text() -> Seq<char> {
    "old_str not found in file"@
}

/// The refusal of an edit whose `old_str` occurs `n` times.
pub open spec fn ambiguous_text(n: nat) -> Seq<char> {
    "old_str matches "@ + decimal(n) + " locations; it must match exactly one"@
}

/// What an edit of `content` answers: the replaced text when `old` occurs
/// exactly once, else the refusal that says how often it occurs.
pub open spec fn edit_outcome(content: Seq<char>, old: Seq<char>, new: Seq<char>) -> Result<Seq<char>, Seq<char>> {
    let n = occurrences(content, old);
    if n == 1 {
        Ok(replace_once(content, old, new))
    } else if n == 0 {
        Err(not_found_text())
    } else {
        Err(ambiguous_text(n))
    }
}

proof fn lemma_count_at_least_one(s: Seq<char>, p: Seq<char>, n: int, a: int)
    requires
        0 <= a < n,
        occurs_at(s, p, a),
    ensures
        count_before(s, p, n) >= 1,
    decreases n,
{
    if a < n - 1 {
        lemma_count_at_least_one(s, p, n - 1, a);
    }
}

proof fn lemma_count_at_least_two(s: Seq<char>, p: Seq<char>, n: int, a: int, b: int)
    requires
        0 <= a < b < n,
        occurs_at(s, p, a),
        occurs_at(s, p, b),
    ensures
        count_before(s, p, n) >= 2,
    decreases n,
{
    if b < n - 1 {
        lemma_count_at_least_two(s, p, n - 1, a, b);
    } else {
        lemma_count_at_least_one(s, p, n - 1, a);
    }
}

/// Where `p` occurs exactly once, that place is the first one.
proof fn lemma_single_occurrence_is_found(s: Seq<char>, p: Seq<char>, k: int)
    requires
        occurrences(s, p) == 1,
        occurs_at(s, p, k),
    ensures
        find(s, p) == Some(k),
{
    lemma_find_from_props(s, p, 0);
    match find_from(s, p, 0) {
        Some(j) => {
            if j < k {
                lemma_count_at_least_two(s, p, s.len() + 1int, j, k);
            } else if k < j {
                lemma_count_at_least_two(s, p, s.len() + 1int, k, j);
            }
        },
        None => {},
    }
}

/// Replace the single occurrence of `old_str` in `content` by `new_str`.
/// An `old_str` that occurs nowhere, or in more than one place, is refused
/// and nothing is replaced.
pub fn apply_edit(content: &str, old_str: &str, new_str: &str) -> (r: Result<String, Error>)
    requires
        content@.len() < usize::MAX,
    ensures
        r is Ok <==> occurrences(content@, old_str@) == 1,
        match edit_outcome(content@, old_str@, new_str@) {
            Ok(t) => r matches Ok(s) && s@ == t,
            Err(m) => r matches Err(e) && e matches Error::FileEdit(em) && em@ == m,
        },
{
    let cs = chars_of(content);
    let ps = chars_of(old_str);
    let n = cs.len();
    let mut count: usize = 0;
    let mut first: Option<usize> = None;
    let mut i: usize = 0;
    while i <= n
        invariant
            cs@ == content@,
            ps@ == old_str@,
            n == cs@.len(),
            n < usize::MAX,
            i <= n + 1,
            count <= i,
            count == count_before(content@, old_str@, i as int),
            first is None <==> count == 0,
            first matches Some(k) ==> k < i && occurs_at(content@, old_str@, k as int) && forall|j: int|
                0 <= j < k ==> !occurs_at(content@, old_str@, j),
        decreases n + 1 - i,
    {
        if matches_at(&cs, &ps, i) {
            if count == 0 {
                proof {
                    assert forall|j: int| 0 <= j < i implies !occurs_at(content@, old_str@, j) by {
                        if occurs_at(content@, old_str@, j) {
                            lemma_count_at_least_one(content@, old_str@, i as int, j);
                        }
                    }
                }
                first = Some(i);
            }
            count = count + 1;
        }
        i = i + 1;
    }
    if count == 1 {
        let k = match first {
            Some(k) => k,
            None => 0,
        };
        proof {
            lemma_find_from_first(content@, old_str@, 0, k as int);
        }
        let m = ps.len();
        let mut out = String::from_str(content.substring_char(0, k));
        out.append(new_str);
        out.append(content.substring_char(k + m, n));
        assert(content@.subrange(0, k as int) =~= content@.take(k as int));
        assert(content@.subrange(k + m, n as int) =~= content@.skip(k + m));
        Ok(out)
    } else if count == 0 {
        Err(Error::FileEdit(String::from_str("old_str not found in file")))
    } else {
        let mut msg = String::from_str("old_str matches ");
        let num = decimal_string(count as u64);
        msg.append(num.as_str());
        msg.append(" locations; it must match exactly one");
        Err(Error::FileEdit(msg))
    }
}

/// An applied edit is undone by the reverse edit: when `old` occurs once in
/// `content` and `new` occurs once in the edited text, replacing `new` by
/// `old` there gives `content` back.
pub proof fn law_edit_is_undone_by_reverse_edit(content: Seq<char>, old: Seq<char>, new: Seq<char>)
    requires
        occurrences(content, old) == 1,
        occurrences(replace_once(content, old, new), new) == 1,
    ensures
        replace_once(replace_once(content, old, new), new, old) == content,
{
    lemma_find_from_props(content, old, 0);
    if find(content, old) is None {
        lemma_no_occurrence_counts_zero(content, old, content.len() + 1int);
    }
    let k = find(content, old)->0;
    let edited = replace_once(content, old, new);
    assert(edited.subrange(k, k + new.len()) =~= new);
    lemma_single_occurrence_is_found(edited, new, k);
    assert(edited.take(k) =~= content.take(k));
    assert(edited.skip(k + new.len()) =~= content.skip(k + old.len()));
    assert(content.take(k) + old + content.skip(k + old.len()) =~= content);
}

proof fn lemma_no_occurrence_counts_zero(s: Seq<char>, p: Seq<char>, n: int)
    requires
        forall|j: int| 0 <= j ==> !occurs_at(s, p, j),
    ensures
        count_before(s, p, n) == 0,
    decreases n,
{
    if n > 0 {
        lemma_no_occurrence_counts_zero(s, p, n - 1);
    }
}

/// Lines `lo..=hi` (1-based) of `ls`, each as its number, a tab, the line
/// and a newline.
pub open spec fn numbered_lines(ls: Seq<Seq<char>>, lo: int, hi: int) -> Seq<char>
    decreases hi - lo + 1,
{
    if hi < lo {
        Seq::empty()
    } else {
        numbered_lines(ls, lo, hi - 1) + decimal(hi as nat) + "\t"@ + ls[hi - 1] + "\n"@
    }
}

/// First line shown: `start_line`, at least 1 (1 when absent).
pub open spec fn first_shown(start_line: Option<usize>) -> int {
    match start_line {
        Some(s) => if s >= 1 {
            s as int
        } else {
            1
        },
        None => 1,
    }
}

/// Last line shown: `end_line`, at most the number of lines (the last
/// line when absent).
pub open spec fn last_shown(end_line: Option<usize>, total: int) -> int {
    match end_line {
        Some(e) => if e <= total {
            e as int
        } else {
            total
        },
        None => total,
    }
}

/// The lines of `content` from `start_line` to `end_line` (1-based, both
/// inclusive, clamped to the file), each prefixed with its line number and
/// a tab. An empty range gives the empty text.
pub fn format_with_line_numbers(content: &str, start_line: Option<usize>, end_line: Option<usize>) -> (r: String)
    ensures
        r@ == numbered_lines(
            lines(content@),
            first_shown(start_line),
            last_shown(end_line, lines(content@).len() as int),
        ),
{
    let ls = split_lines(content);
    let total = ls.len();
    let lo: usize = match start_line {
        Some(s) => if s >= 1 {
            s
        } else {
            1
        },
        None => 1,
    };
    let hi: usize = match end_line {
        Some(e) => if e <= total {
            e
        } else {
            total
        },
        None => total,
    };
    let ghost lsv = lines(content@);
    let mut out = String::new();
    let mut k: usize = lo - 1;
    assert(out@ =~= numbered_lines(lsv, lo as int, k as int));
    while k < hi
        invariant
            ls.deep_view() == lsv,
            lsv.len() == total,
            hi <= total,
            1 <= lo,
            lo - 1 <= k,
            k <= hi || k == lo - 1,
            out@ == numbered_lines(lsv, lo as int, k as int),
        decreases hi - k,
    {
        let num = decimal_string((k + 1) as u64);
        out.append(num.as_str());
        out.append("\t");
        out.append(ls[k].as_str());
        out.append("\n");
        k = k + 1;
    }
    assert(out@ == numbered_lines(lsv, lo as int, hi as int));
    out
}

} // verus!
