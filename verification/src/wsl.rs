//! The WSL backend: parsing of `wsl --list --verbose` output into
//! distribution records, and the `wsl` command lines.

use vstd::prelude::*;
use crate::text::{
    chars_of, join, lines, lines_from, next_line, parse_u8, parse_u8_range, trim, trim_range,
    trim_start_char, trim_start_char_range, words, words_ranges, text_list,
};

verus! {

/// A WSL distribution parsed from `wsl --list --verbose`.
#[derive(Debug, Clone)]
pub struct WslDistro {
    pub name: String,
    pub state: String,
    pub version: u8,
    pub is_default: bool,
}

/// Mathematical view of a [`WslDistro`].
pub struct WslDistroModel {
    pub name: Seq<char>,
    pub state: Seq<char>,
    pub version: u8,
    pub is_default: bool,
}

impl View for WslDistro {
    type V = WslDistroModel;

    open spec fn view(&self) -> WslDistroModel {
        WslDistroModel {
            name: self.name@,
            state: self.state@,
            version: self.version,
            is_default: self.is_default,
        }
    }
}

/// The distribution a table row describes, if any: after trimming, a
/// leading `*` marks the default; the remaining words are the name (which
/// may hold spaces), the state and a version that must parse as `u8`.
pub open spec fn distro_of_row(line: Seq<char>) -> Option<WslDistroModel> {
    let t = trim(line);
    if t.len() == 0 {
        None
    } else {
        let parts = words(trim(trim_start_char(t, '*')));
        if parts.len() >= 3 {
            match parse_u8(parts.last()) {
                Some(v) => Some(
                    WslDistroModel {
                        name: join(parts.take(parts.len() - 2), " "@),
                        state: parts[parts.len() - 2],
                        version: v,
                        is_default: t[0] == '*',
                    },
                ),
                None => None,
            }
        } else {
            None
        }
    }
}

/// The distributions described by `rows`, in order.
pub open spec fn distros_of_rows(rows: Seq<Seq<char>>) -> Seq<WslDistroModel>
    decreases rows.len(),
{
    if rows.len() == 0 {
        Seq::empty()
    } else {
        let prev = distros_of_rows(rows.drop_last());
        match distro_of_row(rows.last()) {
            Some(d) => prev.push(d),
            None => prev,
        }
    }
}

/// What `wsl --list --verbose` output describes: every line after the
/// header that parses as a row.
pub open spec fn listed_distros(stdout: Seq<char>) -> Seq<WslDistroModel> {
    let ls = lines(stdout);
    if ls.len() == 0 {
        Seq::empty()
    } else {
        distros_of_rows(ls.skip(1))
    }
}

/// The row `s[lo..hi]` as a distribution, if it describes one; `src` is the
/// text `s` was read from.
fn distro_from_row(s: &Vec<char>, src: &str, lo: usize, hi: usize) -> (r: Option<WslDistro>)
    requires
        s@ == src@,
        lo <= hi <= s@.len(),
    ensures
        match r {
            Some(d) => distro_of_row(s@.subrange(lo as int, hi as int)) == Some(d@),
            None => distro_of_row(s@.subrange(lo as int, hi as int)) is None,
        },
{
    let ghost line = s@.subrange(lo as int, hi as int);
    let (a, b) = trim_range(s, lo, hi);
    let ghost t = s@.subrange(a as int, b as int);
    if a == b {
        return None;
    }
    let is_default = s[a] == '*';
    let c = trim_start_char_range(s, a, b, '*');
    let (c2, d2) = trim_range(s, c, b);
    let parts = words_ranges(s, c2, d2);
    let ghost ws = words(s@.subrange(c2 as int, d2 as int));
    assert(ws == words(trim(trim_start_char(t, '*'))));
    let n = parts.len();
    if n < 3 {
        return None;
    }
    let (vl, vh) = parts[n - 1];
    let version = match parse_u8_range(s, vl, vh) {
        Some(v) => v,
        None => return None,
    };
    let (sl, sh) = parts[n - 2];
    let state = String::from_str(src.substring_char(sl, sh));
    let mut name = String::new();
    let mut k: usize = 0;
    while k < n - 2
        invariant
            n == parts@.len(),
            n >= 3,
            k <= n - 2,
            s@ == src@,
            n == ws.len(),
            forall|j: int|
                0 <= j < parts@.len() ==> {
                    &&& (#[trigger] parts@[j]).0 <= parts@[j].1 <= s@.len()
                    &&& s@.subrange(parts@[j].0 as int, parts@[j].1 as int) == ws[j]
                },
            name@ == join(ws.take(k as int), " "@),
        decreases n - 2 - k,
    {
        let (pl, ph) = parts[k];
        if k > 0 {
            name.append(" ");
        }
        name.append(src.substring_char(pl, ph));
        proof {
            let tk = ws.take(k + 1);
            assert(tk.drop_last() =~= ws.take(k as int));
            assert(tk.last() == ws[k as int]);
            if k == 0 {
                assert(name@ =~= tk[0]);
            }
        }
        k = k + 1;
    }
    Some(WslDistro { name, state, version, is_default })
}

/// Parse the tabular output of `wsl --list --verbose`: the header line is
/// skipped, blank lines and rows that do not parse are ignored.
pub fn parse_list_output(stdout: &str) -> (r: Vec<WslDistro>)
    ensures
        r@.map_values(|d: WslDistro| d@) == listed_distros(stdout@),
{
    let s = chars_of(stdout);
    let ghost all = lines(s@);
    let ghost mut done: Seq<Seq<char>> = Seq::empty();
    let mut out: Vec<WslDistro> = Vec::new();
    let mut pos: usize = 0;
    let mut first = true;
    while pos < s.len()
        invariant
            s@ == stdout@,
            pos <= s@.len(),
            all == lines(s@),
            all == done + lines_from(s@, pos as int),
            first <==> done.len() == 0,
            out@.map_values(|d: WslDistro| d@) == (if done.len() == 0 {
                Seq::empty()
            } else {
                distros_of_rows(done.skip(1))
            }),
        decreases s@.len() - pos,
    {
        let (lo, hi, next) = next_line(&s, pos);
        let ghost row = s@.subrange(lo as int, hi as int);
        if !first {
            let d = distro_from_row(&s, stdout, lo, hi);
            proof {
                let rows = done.push(row).skip(1);
                assert(rows.drop_last() =~= done.skip(1));
                assert(rows.last() == row);
            }
            match d {
                Some(d) => {
                    out.push(d);
                },
                None => {},
            }
            assert(out@.map_values(|d: WslDistro| d@) =~= distros_of_rows(done.push(row).skip(1)));
        } else {
            assert(done.push(row).skip(1) =~= Seq::<Seq<char>>::empty());
            assert(out@.map_values(|d: WslDistro| d@) =~= Seq::<WslDistroModel>::empty());
        }
        proof {
            assert(all =~= done.push(row) + lines_from(s@, next as int));
            done = done.push(row);
        }
        first = false;
        pos = next;
    }
    assert(lines_from(s@, pos as int) =~= Seq::<Seq<char>>::empty());
    assert(all =~= done);
    out
}

/// `wsl --set-default` arguments.
pub fn set_default_args(distro: &str) -> (r: Vec<String>)
    ensures
        r.deep_view() == seq!["--set-default"@, distro@],
{
    let r = text_list(vec!["--set-default", distro].as_slice());
    assert(r.deep_view() =~= seq!["--set-default"@, distro@]);
    r
}

/// `wsl --terminate` arguments.
pub fn terminate_args(distro: &str) -> (r: Vec<String>)
    ensures
        r.deep_view() == seq!["--terminate"@, distro@],
{
    let r = text_list(vec!["--terminate", distro].as_slice());
    assert(r.deep_view() =~= seq!["--terminate"@, distro@]);
    r
}

/// The `wsl` arguments that run `command` under `sh -c` in `distro`.
pub fn exec_args(distro: &str, command: &str) -> (r: Vec<String>)
    ensures
        r.deep_view() == seq!["-d"@, distro@, "--"@, "sh"@, "-c"@, command@],
{
    let r = text_list(vec!["-d", distro, "--", "sh", "-c", command].as_slice());
    assert(r.deep_view() =~= seq!["-d"@, distro@, "--"@, "sh"@, "-c"@, command@]);
    r
}

} // verus!
