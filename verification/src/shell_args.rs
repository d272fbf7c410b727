//! Extra command-line arguments that users hand over as one string, split
//! into words the way a POSIX shell would.

use vstd::prelude::*;
use crate::text::{chars_of, words, words_ranges};

verus! {

/// What `shlex::split` gives for `s`: its words under POSIX shell quoting
/// rules, or nothing when `s` is malformed (such as an unclosed quote).
pub uninterp spec fn shell_words(s: Seq<char>) -> Option<Seq<Seq<char>>>;

/// `shlex::split`. Trusted: the result is what `shell_words` names for `s`.
#[verifier::external_body]
fn shlex_split(s: &str) -> (r: Option<Vec<String>>)
    ensures
        r.deep_view() == shell_words(s@),
{
    shlex::split(s)
}

/// The whitespace-separated words of `s` (`s.split_whitespace()`).
pub fn split_words(s: &str) -> (r: Vec<String>)
    ensures
        r.deep_view() == words(s@),
{
    let cs = chars_of(s);
    assert(cs@.subrange(0, cs@.len() as int) =~= cs@);
    let ranges = words_ranges(&cs, 0, cs.len());
    let mut out: Vec<String> = Vec::new();
    let mut i: usize = 0;
    while i < ranges.len()
        invariant
            cs@ == s@,
            i <= ranges@.len(),
            ranges@.len() == words(s@).len(),
            forall|k: int|
                0 <= k < ranges@.len() ==> {
                    &&& 0 <= (#[trigger] ranges@[k]).0 <= ranges@[k].1 <= s@.len()
                    &&& s@.subrange(ranges@[k].0 as int, ranges@[k].1 as int) == words(s@)[k]
                },
            out.deep_view() == words(s@).take(i as int),
        decreases ranges@.len() - i,
    {
        let (lo, hi) = ranges[i];
        assert(ranges@[i as int] == (lo, hi));
        let w = s.substring_char(lo, hi);
        assert(w@ == words(s@)[i as int]);
        let ghost before = out.deep_view();
        out.push(String::from_str(w));
        assert(out.deep_view() =~= before.push(w@));
        assert(words(s@).take(i + 1) =~= words(s@).take(i as int).push(words(s@)[i as int]));
        i = i + 1;
    }
    assert(words(s@).take(i as int) =~= words(s@));
    out
}

/// The words of an optional argument string: nothing when there is none
/// or it does not split (`args.and_then(shlex::split).unwrap_or_default()`).
pub fn optional_shell_args(args: Option<&str>) -> (r: Vec<String>)
    ensures
        r.deep_view() == match args {
            Some(a) => match shell_words(a@) {
                Some(ws) => ws,
                None => Seq::empty(),
            },
            None => Seq::empty(),
        },
{
    let none: Vec<String> = Vec::new();
    assert(none.deep_view() =~= Seq::<Seq<char>>::empty());
    match args {
        Some(a) => match shlex_split(a) {
            Some(ws) => ws,
            None => none,
        },
        None => none,
    }
}

/// The words of an argument string, or its whitespace-separated words when
/// it does not split as shell words
/// (`shlex::split(args).unwrap_or_else(|| args.split_whitespace()...)`).
pub fn shell_args_or_words(args: &str) -> (r: Vec<String>)
    ensures
        r.deep_view() == match shell_words(args@) {
            Some(ws) => ws,
            None => words(args@),
        },
{
    match shlex_split(args) {
        Some(ws) => ws,
        None => split_words(args),
    }
}

} // verus!
