//! Process-tree discovery for reaping: the parent a `/proc/<pid>/status`
//! names, and the descendants of a root process in a table of
//! `(pid, parent pid)` entries.

use vstd::prelude::*;
use crate::text::{lines, parse_u32, parse_u32_text, split_lines, starts_with_text, trim, trim_text};

verus! {

/// `s` starts with `p`.
pub open spec fn has_prefix(s: Seq<char>, p: Seq<char>) -> bool {
    p.len() <= s.len() && s.take(p.len() as int) == p
}

/// The parent pid of the first `PPid:` line among `ls`: the rest of that
/// line, trimmed, read as a `u32`; nothing when that is no number or there
/// is no such line.
pub open spec fn ppid_in_lines(ls: Seq<Seq<char>>) -> Option<u32>
    decreases ls.len(),
{
    if ls.len() == 0 {
        None
    } else if has_prefix(ls[0], "PPid:"@) {
        parse_u32(trim(ls[0].skip(5)))
    } else {
        ppid_in_lines(ls.drop_first())
    }
}

/// The parent pid that a `/proc/<pid>/status` text names.
pub fn ppid_from_status(status: &str) -> (r: Option<u32>)
    ensures
        r == ppid_in_lines(lines(status@)),
{
    let ls = split_lines(status);
    let ghost all = lines(status@);
    let mut i: usize = 0;
    assert(all.skip(0) =~= all);
    while i < ls.len()
        invariant
            i <= ls@.len(),
            ls.deep_view() == all,
            all == lines(status@),
            ppid_in_lines(all) == ppid_in_lines(all.skip(i as int)),
        decreases ls@.len() - i,
    {
        assert(ls@[i as int]@ == all[i as int]);
        assert(all.skip(i as int)[0] == all[i as int]);
        assert(all.skip(i as int).drop_first() =~= all.skip(i + 1));
        let line = ls[i].as_str();
        proof {
            reveal_strlit("PPid:");
        }
        if starts_with_text(line, "PPid:") {
            let rest = line.substring_char(5, line.unicode_len());
            assert(rest@ =~= all[i as int].skip(5));
            let t = trim_text(rest);
            return parse_u32_text(t.as_str());
        }
        i = i + 1;
    }
    None
}

/// The pids a walk from `root` can meet: `root` and every listed pid.
pub open spec fn universe(root: u32, entries: Seq<(u32, u32)>) -> Seq<u32> {
    seq![root] + entries.map_values(|e: (u32, u32)| e.0)
}

/// `x` is in `out` or in `stack`.
pub open spec fn in_either(out: Seq<u32>, stack: Seq<u32>, x: u32) -> bool {
    out.contains(x) || stack.contains(x)
}

/// A duplicate-free list of values drawn from `univ` is no longer than it.
proof fn lemma_no_dup_bounded(out: Seq<u32>, univ: Seq<u32>)
    requires
        out.no_duplicates(),
        forall|k: int| 0 <= k < out.len() ==> univ.contains(#[trigger] out[k]),
    ensures
        out.len() <= univ.len(),
{
    out.unique_seq_to_set();
    univ.lemma_cardinality_of_set();
    assert(out.to_set().subset_of(univ.to_set())) by {
        assert forall|x: u32| out.to_set().contains(x) implies univ.to_set().contains(x) by {
            let k = choose|k: int| 0 <= k < out.len() && out[k] == x;
            assert(univ.contains(out[k]));
        }
    }
    vstd::set_lib::lemma_len_subset(out.to_set(), univ.to_set());
}

/// Whether `v` holds `x`.
fn holds(v: &Vec<u32>, x: u32) -> (r: bool)
    ensures
        r == v@.contains(x),
{
    let mut i: usize = 0;
    while i < v.len()
        invariant
            i <= v@.len(),
            forall|k: int| 0 <= k < i ==> v@[k] != x,
        decreases v@.len() - i,
    {
        if v[i] == x {
            return true;
        }
        i = i + 1;
    }
    false
}

/// The pid at position `k` of `s` is listed as the child of a pid before it.
pub open spec fn has_parent_before(entries: Seq<(u32, u32)>, s: Seq<u32>, k: int) -> bool {
    exists|j: int, e: int| 0 <= j < k && #[trigger] links(entries, s[k], s[j], e)
}

/// Every pid of `s` after the first is listed as the child of a pid
/// before it.
pub open spec fn parents_precede(entries: Seq<(u32, u32)>, s: Seq<u32>) -> bool {
    forall|k: int| 1 <= k < s.len() ==> #[trigger] has_parent_before(entries, s, k)
}

/// Entry `e` lists `c` with parent `p`.
pub open spec fn links(entries: Seq<(u32, u32)>, c: u32, p: u32, e: int) -> bool {
    0 <= e < entries.len() && entries[e] == (c, p)
}

/// Parent positions and linking entries witness that parents precede.
proof fn lemma_parents_precede(entries: Seq<(u32, u32)>, s: Seq<u32>, par: Seq<int>, ent: Seq<int>)
    requires
        par.len() == s.len(),
        ent.len() == s.len(),
        forall|k: int| 1 <= k < s.len() ==> 0 <= #[trigger] par[k] < k && links(entries, s[k], s[par[k]], ent[k]),
    ensures
        parents_precede(entries, s),
{
    assert forall|k: int| 1 <= k < s.len() implies #[trigger] has_parent_before(entries, s, k) by {
        let j = par[k];
        assert(links(entries, s[k], s[j], ent[k]));
    }
}

/// Every process in the tree rooted at `root`, `root` first, each once: a
/// depth-first walk over the `(pid, parent pid)` table that pushes the
/// children of each visited pid in table order. A pid already collected or
/// waiting is not taken again, so the walk ends on any table.
pub fn collect_descendants(root: u32, entries: &Vec<(u32, u32)>) -> (r: Vec<u32>)
    ensures
        r@.len() >= 1,
        r@[0] == root,
        r@.no_duplicates(),
        parents_precede(entries@, r@),
        forall|i: int| 0 <= i < entries@.len() && r@.contains(entries@[i].1) ==> r@.contains(#[trigger] entries@[i].0),
{
    let ghost univ = universe(root, entries@);
    let mut out: Vec<u32> = Vec::new();
    let mut stack: Vec<u32> = Vec::new();
    // For each collected or waiting pid other than the root: the position
    // of its parent in `out` and the entry that links them.
    let ghost mut opar: Seq<int> = Seq::empty();
    let ghost mut oent: Seq<int> = Seq::empty();
    let ghost mut spar: Seq<int> = seq![0int];
    let ghost mut sent: Seq<int> = seq![0int];
    stack.push(root);
    assert(univ[0] == root);
    while stack.len() > 0
        invariant
            univ == universe(root, entries@),
            out@.no_duplicates(),
            stack@.no_duplicates(),
            forall|a: int, b: int| 0 <= a < out@.len() && 0 <= b < stack@.len() ==> out@[a] != stack@[b],
            forall|k: int| 0 <= k < out@.len() ==> univ.contains(#[trigger] out@[k]),
            forall|k: int| 0 <= k < stack@.len() ==> univ.contains(#[trigger] stack@[k]),
            out@.len() == 0 ==> stack@ == seq![root],
            out@.len() > 0 ==> out@[0] == root,
            opar.len() == out@.len(),
            oent.len() == out@.len(),
            spar.len() == stack@.len(),
            sent.len() == stack@.len(),
            forall|k: int| 1 <= k < out@.len() ==> 0 <= #[trigger] opar[k] < k && links(entries@, out@[k], out@[opar[k]], oent[k]),
            out@.len() > 0 ==> forall|k: int| 0 <= k < stack@.len() ==> 0 <= #[trigger] spar[k] < out@.len() && links(entries@, stack@[k], out@[spar[k]], sent[k]),
            forall|i: int| 0 <= i < entries@.len() && out@.contains(entries@[i].1) ==> in_either(out@, stack@, #[trigger] entries@[i].0),
        decreases univ.len() - out@.len(),
    {
        let ghost out0 = out@;
        let ghost stack0 = stack@;
        let pid = stack.pop().unwrap();
        assert(stack0.last() == pid);
        assert(stack@ =~= stack0.drop_last());
        assert(univ.contains(stack0[stack0.len() - 1]));
        assert(!out0.contains(pid)) by {
            if out0.contains(pid) {
                let a = choose|a: int| 0 <= a < out0.len() && out0[a] == pid;
                assert(out0[a] != stack0[stack0.len() - 1]);
            }
        }
        out.push(pid);
        proof {
            opar = opar.push(spar.last());
            oent = oent.push(sent.last());
            spar = spar.drop_last();
            sent = sent.drop_last();
            assert forall|k: int| 1 <= k < out@.len() implies 0 <= #[trigger] opar[k] < k && links(entries@, out@[k], out@[opar[k]], oent[k]) by {
                if k < out0.len() {
                    assert(out@[k] == out0[k]);
                    assert(out@[opar[k]] == out0[opar[k]]);
                } else {
                    assert(out@[opar[k]] == out0[opar[k]]);
                }
            }
            assert forall|k: int| 0 <= k < stack@.len() implies 0 <= #[trigger] spar[k] < out@.len() && links(entries@, stack@[k], out@[spar[k]], sent[k]) by {
                assert(stack@[k] == stack0[k]);
                assert(out@[spar[k]] == out0[spar[k]]);
            }
            assert forall|k: int| 0 <= k < out@.len() implies univ.contains(#[trigger] out@[k]) by {
                if k < out0.len() {
                    assert(out@[k] == out0[k]);
                }
            }
            assert forall|k: int| 0 <= k < stack@.len() implies univ.contains(#[trigger] stack@[k]) by {
                assert(stack@[k] == stack0[k]);
            }
            assert forall|t: int| 0 <= t < entries@.len() && out@.drop_last().contains(entries@[t].1) implies in_either(out@, stack@, #[trigger] entries@[t].0) by {
                assert(out@.drop_last() =~= out0);
                assert(in_either(out0, stack0, entries@[t].0));
                if stack0.contains(entries@[t].0) {
                    let b = choose|b: int| 0 <= b < stack0.len() && stack0[b] == entries@[t].0;
                    if b < stack0.len() - 1 {
                        assert(stack@[b] == stack0[b]);
                    } else {
                        assert(out@[out0.len() as int] == entries@[t].0);
                    }
                } else {
                    let a = choose|a: int| 0 <= a < out0.len() && out0[a] == entries@[t].0;
                    assert(out@[a] == out0[a]);
                }
            }
            lemma_no_dup_bounded(out@, univ);
        }
        let mut i: usize = 0;
        while i < entries.len()
            invariant
                univ == universe(root, entries@),
                out@.len() > 0,
                out@.last() == pid,
                out@[0] == root,
                out@.no_duplicates(),
                stack@.no_duplicates(),
                forall|a: int, b: int| 0 <= a < out@.len() && 0 <= b < stack@.len() ==> out@[a] != stack@[b],
                forall|k: int| 0 <= k < out@.len() ==> univ.contains(#[trigger] out@[k]),
                forall|k: int| 0 <= k < stack@.len() ==> univ.contains(#[trigger] stack@[k]),
                opar.len() == out@.len(),
                oent.len() == out@.len(),
                spar.len() == stack@.len(),
                sent.len() == stack@.len(),
                forall|k: int| 1 <= k < out@.len() ==> 0 <= #[trigger] opar[k] < k && links(entries@, out@[k], out@[opar[k]], oent[k]),
                forall|k: int| 0 <= k < stack@.len() ==> 0 <= #[trigger] spar[k] < out@.len() && links(entries@, stack@[k], out@[spar[k]], sent[k]),
                forall|t: int| 0 <= t < entries@.len() && out@.drop_last().contains(entries@[t].1) ==> in_either(out@, stack@, #[trigger] entries@[t].0),
                forall|t: int| 0 <= t < i && entries@[t].1 == pid ==> in_either(out@, stack@, #[trigger] entries@[t].0),
                i <= entries@.len(),
            decreases entries@.len() - i,
        {
            let (c, p) = entries[i];
            if p == pid && !holds(&out, c) && !holds(&stack, c) {
                let ghost stack1 = stack@;
                stack.push(c);
                proof {
                    let jp = (out@.len() - 1) as int;
                    spar = spar.push(jp);
                    sent = sent.push(i as int);
                    assert(univ[i + 1] == entries@[i as int].0);
                    assert(univ.contains(c));
                    assert forall|k: int| 0 <= k < stack@.len() implies 0 <= #[trigger] spar[k] < out@.len() && links(entries@, stack@[k], out@[spar[k]], sent[k]) by {
                        if k < stack1.len() {
                            assert(stack@[k] == stack1[k]);
                        }
                    }
                    assert forall|k: int| 0 <= k < stack@.len() implies univ.contains(#[trigger] stack@[k]) by {
                        if k < stack1.len() {
                            assert(stack@[k] == stack1[k]);
                        }
                    }
                    assert forall|t: int| 0 <= t < entries@.len() && out@.drop_last().contains(entries@[t].1) implies in_either(out@, stack@, #[trigger] entries@[t].0) by {
                        if stack1.contains(entries@[t].0) {
                            let b = choose|b: int| 0 <= b < stack1.len() && stack1[b] == entries@[t].0;
                            assert(stack@[b] == stack1[b]);
                        }
                    }
                    assert forall|t: int| 0 <= t < i + 1 && entries@[t].1 == pid implies in_either(out@, stack@, #[trigger] entries@[t].0) by {
                        if t < i && stack1.contains(entries@[t].0) {
                            let b = choose|b: int| 0 <= b < stack1.len() && stack1[b] == entries@[t].0;
                            assert(stack@[b] == stack1[b]);
                        }
                        if t == i {
                            assert(stack@[stack1.len() as int] == c);
                        }
                    }
                }
            } else {
                proof {
                    if p == pid {
                        assert(in_either(out@, stack@, entries@[i as int].0));
                    }
                }
            }
            i = i + 1;
        }
        proof {
            assert forall|t: int| 0 <= t < entries@.len() && out@.contains(entries@[t].1) implies in_either(out@, stack@, #[trigger] entries@[t].0) by {
                let a = choose|a: int| 0 <= a < out@.len() && out@[a] == entries@[t].1;
                if a < out@.len() - 1 {
                    assert(out@.drop_last()[a] == out@[a]);
                }
            }
        }
    }
    assert(out@.len() > 0);
    assert forall|i: int| 0 <= i < entries@.len() && out@.contains(entries@[i].1) implies out@.contains(#[trigger] entries@[i].0) by {
        assert(in_either(out@, stack@, entries@[i].0));
    }
    proof {
        lemma_parents_precede(entries@, out@, opar, oent);
    }
    out
}

/// What the reaper learned last: it has just sent `SIGTERM` to the tree,
/// or it has waited and probed whether any of that tree is still alive.
#[derive(Debug, Clone, Copy)]
pub enum ReapEvent {
    Terminated,
    Probed { any_alive: bool },
}

/// What the reaper does next.
#[derive(Debug, Clone, Copy, PartialEq, Eq, Structural)]
pub enum ReapAction {
    /// Sleep this many milliseconds, then probe the tree.
    Wait { millis: u64 },
    /// Every process of the tree exited: stop.
    Stop,
    /// The grace period is over: collect the tree again and `SIGKILL` what
    /// is left.
    KillSurvivors,
}

/// The reaper's decision at time `now_ms` (milliseconds on a monotonic
/// clock), with the grace period ending at `deadline_ms`: poll every 100 ms
/// until the tree is gone or the grace period ends.
pub fn reap_step(event: ReapEvent, now_ms: u64, deadline_ms: u64) -> (r: ReapAction)
    ensures
        r == (match event {
            ReapEvent::Probed { any_alive } if !any_alive => ReapAction::Stop,
            _ => if now_ms < deadline_ms {
                ReapAction::Wait { millis: 100 }
            } else {
                ReapAction::KillSurvivors
            },
        }),
{
    match event {
        ReapEvent::Probed { any_alive } => {
            if !any_alive {
                return ReapAction::Stop;
            }
        },
        ReapEvent::Terminated => {},
    }
    if now_ms < deadline_ms {
        ReapAction::Wait { millis: 100 }
    } else {
        ReapAction::KillSurvivors
    }
}

} // verus!
