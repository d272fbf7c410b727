//! Container records and the decisions of the devcontainer lookup: which
//! label filters to query, which results to keep, and how many matched.

use vstd::prelude::*;
use crate::devcontainer_config::{ConfigKind, ResolvedConfig, ResolvedModel};
use crate::text::{
    contains_text, decimal, decimal_string, find, same_text, strip_leading, trim_start_char,
};

verus! {

/// Summary of a container's state. `labels` holds each label name once.
#[derive(Debug, Clone)]
pub struct ContainerInfo {
    pub id: String,
    pub name: String,
    pub image: String,
    pub state: String,
    pub labels: Vec<(String, String)>,
}

/// The value of label `key` among `labels` (first entry with that name).
pub open spec fn label_value(labels: Seq<(String, String)>, key: Seq<char>) -> Option<Seq<char>>
    decreases labels.len(),
{
    if labels.len() == 0 {
        None
    } else if labels[0].0@ == key {
        Some(labels[0].1@)
    } else {
        label_value(labels.drop_first(), key)
    }
}

/// No label name occurs twice among `labels`.
pub open spec fn label_keys_distinct(labels: Seq<(String, String)>) -> bool {
    forall|i: int, j: int| 0 <= i < j < labels.len() ==> labels[i].0@ != labels[j].0@
}

/// With distinct names, looking a label up by its name finds its own value,
/// wherever it stands in the list.
pub proof fn law_distinct_labels_found(labels: Seq<(String, String)>, i: int)
    requires
        label_keys_distinct(labels),
        0 <= i < labels.len(),
    ensures
        label_value(labels, labels[i].0@) == Some(labels[i].1@),
    decreases i,
{
    if i > 0 {
        let rest = labels.drop_first();
        assert(label_keys_distinct(rest)) by {
            assert forall|a: int, b: int| 0 <= a < b < rest.len() implies rest[a].0@ != rest[b].0@ by {
                assert(rest[a] == labels[a + 1] && rest[b] == labels[b + 1]);
            }
        }
        law_distinct_labels_found(rest, i - 1);
        assert(rest[i - 1] == labels[i]);
        assert(labels[0].0@ != labels[i].0@);
    }
}

/// Look up label `key`.
pub fn find_label<'a>(labels: &'a Vec<(String, String)>, key: &str) -> (r: Option<&'a str>)
    ensures
        match r {
            Some(v) => label_value(labels@, key@) == Some(v@),
            None => label_value(labels@, key@) is None,
        },
{
    let mut i: usize = 0;
    assert(labels@.skip(0) =~= labels@);
    while i < labels.len()
        invariant
            i <= labels@.len(),
            label_value(labels@, key@) == label_value(labels@.skip(i as int), key@),
        decreases labels@.len() - i,
    {
        assert(labels@.skip(i as int).drop_first() =~= labels@.skip(i + 1));
        if same_text(labels[i].0.as_str(), key) {
            return Some(labels[i].1.as_str());
        }
        i = i + 1;
    }
    None
}

impl ContainerInfo {
    /// `com.docker.compose.service` label, if present.
    pub fn compose_service(&self) -> (r: Option<&str>)
        ensures
            match r {
                Some(v) => label_value(self.labels@, "com.docker.compose.service"@) == Some(v@),
                None => label_value(self.labels@, "com.docker.compose.service"@) is None,
            },
    {
        find_label(&self.labels, "com.docker.compose.service")
    }

    /// `devcontainer.config_file` label, if present.
    pub fn devcontainer_config_file(&self) -> (r: Option<&str>)
        ensures
            match r {
                Some(v) => label_value(self.labels@, "devcontainer.config_file"@) == Some(v@),
                None => label_value(self.labels@, "devcontainer.config_file"@) is None,
            },
    {
        find_label(&self.labels, "devcontainer.config_file")
    }
}

/// Outcome of a devcontainer lookup.
#[derive(Debug, Clone)]
pub enum DevcontainerLookup {
    NoneFound,
    One(ContainerInfo),
    Many(Vec<ContainerInfo>),
}

/// Every container a lookup found, in order.
pub open spec fn lookup_candidates(l: DevcontainerLookup) -> Seq<ContainerInfo> {
    match l {
        DevcontainerLookup::NoneFound => Seq::empty(),
        DevcontainerLookup::One(c) => seq![c],
        DevcontainerLookup::Many(v) => v@,
    }
}

/// `core::slice::from_ref`: a one-element slice viewing `s`.
pub assume_specification<T>[ core::slice::from_ref::<T> ](s: &T) -> (r: &[T])
    ensures
        r@ == seq![*s],
;

impl DevcontainerLookup {
    /// The single match, if exactly one container was found.
    pub fn into_one(self) -> (r: Option<ContainerInfo>)
        ensures
            r == (match self {
                DevcontainerLookup::One(c) => Some(c),
                _ => None::<ContainerInfo>,
            }),
    {
        match self {
            DevcontainerLookup::One(c) => Some(c),
            _ => None,
        }
    }

    /// Collapse `One`/`Many` to "any of them" for diagnostics.
    pub fn candidates(&self) -> (r: &[ContainerInfo])
        ensures
            r@ == lookup_candidates(*self),
    {
        match self {
            DevcontainerLookup::NoneFound => {
                let empty: &[ContainerInfo] = &[];
                assert(empty@ =~= Seq::<ContainerInfo>::empty());
                empty
            },
            DevcontainerLookup::One(c) => core::slice::from_ref(c),
            DevcontainerLookup::Many(v) => v.as_slice(),
        }
    }
}

/// `l` is the outcome for `candidates`: none, exactly one, or several
/// (all kept, in order).
pub open spec fn is_lookup_of(l: DevcontainerLookup, candidates: Seq<ContainerInfo>) -> bool {
    match l {
        DevcontainerLookup::NoneFound => candidates.len() == 0,
        DevcontainerLookup::One(c) => candidates.len() == 1 && c == candidates[0],
        DevcontainerLookup::Many(v) => candidates.len() >= 2 && v@ == candidates,
    }
}

/// Classify the containers a lookup found by how many there are.
pub fn lookup_from_candidates(candidates: Vec<ContainerInfo>) -> (r: DevcontainerLookup)
    ensures
        is_lookup_of(r, candidates@),
{
    let mut candidates = candidates;
    if candidates.len() == 0 {
        DevcontainerLookup::NoneFound
    } else if candidates.len() == 1 {
        let c = candidates.pop().unwrap();
        DevcontainerLookup::One(c)
    } else {
        DevcontainerLookup::Many(candidates)
    }
}

/// The outcome of a lookup keeps every container that was found, in
/// order, and is a single match exactly when one was found.
pub proof fn law_lookup_keeps_candidates(l: DevcontainerLookup, found: Seq<ContainerInfo>)
    requires
        is_lookup_of(l, found),
    ensures
        lookup_candidates(l) == found,
        l is One <==> found.len() == 1,
        l is NoneFound <==> found.len() == 0,
{
    if let DevcontainerLookup::One(c) = l {
        assert(seq![c] =~= found);
    }
}

/// Which label queries a lookup makes for a workspace (canonical path
/// `workspace_abs`) and an optional resolved config.
#[derive(Debug)]
pub enum LookupPlan {
    /// Query `service_filter`, then keep containers whose
    /// `com.docker.compose.project.config_files` label names one of
    /// `expected_files`.
    ComposeService { service_filter: String, expected_files: Vec<String> },
    /// Query the single `filter`.
    ConfigFile { filter: String },
    /// Query `primary`, then `fallback`, and merge without repeating ids.
    Workspace { primary: String, fallback: String },
}

/// The two queries used when no config narrows the lookup.
pub open spec fn is_workspace_plan(p: LookupPlan, workspace_abs: Seq<char>) -> bool {
    match p {
        LookupPlan::Workspace { primary, fallback } => primary@ == "devcontainer.local_folder="@
            + workspace_abs && fallback@ == "com.docker.compose.project.working_dir="@
            + workspace_abs,
        _ => false,
    }
}

/// The plan for `config`: compose configs with a service are matched by
/// service and compose files, other configs by their config-file label, and
/// without a usable config the workspace labels are queried.
pub open spec fn is_plan_for(p: LookupPlan, workspace_abs: Seq<char>, config: Option<ResolvedModel>) -> bool {
    match config {
        Some(cfg) => if cfg.kind == ConfigKind::Compose {
            match cfg.service {
                Some(s) => match p {
                    LookupPlan::ComposeService { service_filter, expected_files } => service_filter@
                        == "com.docker.compose.service="@ + s && expected_files.deep_view()
                        == cfg.compose_files_abs,
                    _ => false,
                },
                None => is_workspace_plan(p, workspace_abs),
            }
        } else {
            match p {
                LookupPlan::ConfigFile { filter } => filter@ == "devcontainer.config_file="@
                    + cfg.abs_path,
                _ => false,
            }
        },
        None => is_workspace_plan(p, workspace_abs),
    }
}

/// A chosen config decides the lookup: a config that is not a compose
/// config (image, Dockerfile or unknown kind) is always found by its own
/// `devcontainer.config_file` label, never by the workspace; a compose
/// config with a service by that service and its compose files; only a
/// missing config, or a compose config without a service, falls back to
/// the workspace labels.
pub proof fn law_lookup_follows_the_config(p: LookupPlan, workspace_abs: Seq<char>, config: Option<ResolvedModel>)
    requires
        is_plan_for(p, workspace_abs, config),
    ensures
        config is Some && config->0.kind != ConfigKind::Compose ==> (p matches LookupPlan::ConfigFile {
            filter,
        } && filter@ == "devcontainer.config_file="@ + config->0.abs_path),
        config is Some && config->0.kind == ConfigKind::Compose && config->0.service is Some ==> (
        p matches LookupPlan::ComposeService { service_filter, expected_files } && service_filter@
            == "com.docker.compose.service="@ + config->0.service->0 && expected_files.deep_view()
            == config->0.compose_files_abs),
        config is None || (config->0.kind == ConfigKind::Compose && config->0.service is None) ==> (
        p matches LookupPlan::Workspace { primary, fallback } && primary@ == "devcontainer.local_folder="@
            + workspace_abs && fallback@ == "com.docker.compose.project.working_dir="@ + workspace_abs),
{
}

fn workspace_plan(workspace_abs: &str) -> (p: LookupPlan)
    ensures
        is_workspace_plan(p, workspace_abs@),
{
    let mut primary = String::from_str("devcontainer.local_folder=");
    primary.append(workspace_abs);
    let mut fallback = String::from_str("com.docker.compose.project.working_dir=");
    fallback.append(workspace_abs);
    LookupPlan::Workspace { primary, fallback }
}

/// Decide which label queries find the container(s) for `workspace_abs`.
pub fn lookup_plan(workspace_abs: &str, config: Option<&ResolvedConfig>) -> (p: LookupPlan)
    ensures
        is_plan_for(
            p,
            workspace_abs@,
            match config {
                Some(c) => Some(c@),
                None => None,
            },
        ),
{
    match config {
        Some(cfg) => {
            if cfg.kind == ConfigKind::Compose {
                match &cfg.service {
                    Some(service) => {
                        let mut service_filter = String::from_str("com.docker.compose.service=");
                        service_filter.append(service.as_str());
                        let expected_files = clone_texts(&cfg.compose_files_abs);
                        LookupPlan::ComposeService { service_filter, expected_files }
                    },
                    None => workspace_plan(workspace_abs),
                }
            } else {
                let mut filter = String::from_str("devcontainer.config_file=");
                filter.append(cfg.abs_path.as_str());
                LookupPlan::ConfigFile { filter }
            }
        },
        None => workspace_plan(workspace_abs),
    }
}

/// A copy of `v`.
pub fn clone_texts(v: &Vec<String>) -> (r: Vec<String>)
    ensures
        r@ == v@,
{
    let mut r: Vec<String> = Vec::new();
    let mut i: usize = 0;
    while i < v.len()
        invariant
            i <= v@.len(),
            r@ == v@.take(i as int),
        decreases v@.len() - i,
    {
        r.push(v[i].clone());
        assert(r@ =~= v@.take(i + 1));
        i = i + 1;
    }
    assert(v@.take(i as int) =~= v@);
    r
}

/// Some entry of `expected` occurs in `files`.
pub open spec fn names_any(files: Seq<char>, expected: Seq<String>) -> bool {
    exists|k: int| 0 <= k < expected.len() && (#[trigger] find(files, expected[k]@)) is Some
}

/// The container belongs to the compose project built from one of the
/// `expected` compose files.
pub open spec fn compose_files_match(c: ContainerInfo, expected: Seq<String>) -> bool {
    match label_value(c.labels@, "com.docker.compose.project.config_files"@) {
        Some(files) => names_any(files, expected),
        None => false,
    }
}

/// The containers of `cs` that match, in order.
pub open spec fn compose_matches(cs: Seq<ContainerInfo>, expected: Seq<String>) -> Seq<ContainerInfo>
    decreases cs.len(),
{
    if cs.len() == 0 {
        Seq::empty()
    } else {
        let prev = compose_matches(cs.drop_last(), expected);
        if compose_files_match(cs.last(), expected) {
            prev.push(cs.last())
        } else {
            prev
        }
    }
}

fn names_any_exec(files: &str, expected: &Vec<String>) -> (r: bool)
    ensures
        r == names_any(files@, expected@),
{
    let mut i: usize = 0;
    while i < expected.len()
        invariant
            i <= expected@.len(),
            forall|k: int| 0 <= k < i ==> (#[trigger] find(files@, expected@[k]@)) is None,
        decreases expected@.len() - i,
    {
        if contains_text(files, expected[i].as_str()) {
            return true;
        }
        i = i + 1;
    }
    false
}

/// Keep the containers whose compose project was built from one of the
/// `expected` compose files.
pub fn keep_compose_matches(by_service: Vec<ContainerInfo>, expected: &Vec<String>) -> (r: Vec<
    ContainerInfo,
>)
    ensures
        r@ == compose_matches(by_service@, expected@),
{
    let ghost all = by_service@;
    let mut rest = by_service;
    let mut out: Vec<ContainerInfo> = Vec::new();
    let ghost mut k: int = 0;
    while rest.len() > 0
        invariant
            0 <= k <= all.len(),
            rest@ == all.skip(k),
            out@ == compose_matches(all.take(k), expected@),
        decreases rest@.len(),
    {
        let c = rest.remove(0);
        proof {
            assert(c == all[k]);
            assert(all.take(k + 1).drop_last() =~= all.take(k));
            assert(all.take(k + 1).last() == all[k]);
            assert(rest@ =~= all.skip(k + 1));
        }
        let keep = match find_label(&c.labels, "com.docker.compose.project.config_files") {
            Some(files) => names_any_exec(files, expected),
            None => false,
        };
        if keep {
            out.push(c);
        }
        proof {
            k = k + 1;
        }
    }
    assert(all.take(k) =~= all);
    out
}


/// Some container of `cs` has id `id`.
pub open spec fn has_id(cs: Seq<ContainerInfo>, id: Seq<char>) -> bool {
    exists|i: int| 0 <= i < cs.len() && (#[trigger] cs[i]).id@ == id
}

/// The containers of `fallback` whose id none of `seen` has, in order.
pub open spec fn unseen_by_id(fallback: Seq<ContainerInfo>, seen: Seq<ContainerInfo>) -> Seq<
    ContainerInfo,
>
    decreases fallback.len(),
{
    if fallback.len() == 0 {
        Seq::empty()
    } else {
        let prev = unseen_by_id(fallback.drop_last(), seen);
        if has_id(seen, fallback.last().id@) {
            prev
        } else {
            prev.push(fallback.last())
        }
    }
}

/// The union of the primary and fallback query results: every primary hit,
/// then each fallback hit whose id no primary hit has.
pub fn merge_by_id(hits: Vec<ContainerInfo>, fallback: Vec<ContainerInfo>) -> (r: Vec<
    ContainerInfo,
>)
    ensures
        r@ == hits@ + unseen_by_id(fallback@, hits@),
{
    let ghost primary = hits@;
    let ghost all = fallback@;
    let n0 = hits.len();
    let mut out = hits;
    let mut rest = fallback;
    let ghost mut k: int = 0;
    while rest.len() > 0
        invariant
            0 <= k <= all.len(),
            n0 == primary.len(),
            rest@ == all.skip(k),
            out@ == primary + unseen_by_id(all.take(k), primary),
        decreases rest@.len(),
    {
        let c = rest.remove(0);
        proof {
            assert(c == all[k]);
            assert(all.take(k + 1).drop_last() =~= all.take(k));
            assert(all.take(k + 1).last() == all[k]);
            assert(rest@ =~= all.skip(k + 1));
        }
        let mut seen = false;
        let mut i: usize = 0;
        while i < n0
            invariant
                n0 == primary.len(),
                n0 <= out@.len(),
                out@.take(n0 as int) == primary,
                i <= n0,
                seen == exists|j: int| 0 <= j < i && (#[trigger] primary[j]).id@ == c.id@,
            decreases n0 - i,
        {
            if same_text(out[i].id.as_str(), c.id.as_str()) {
                assert(primary[i as int] == out@[i as int]);
                seen = true;
            }
            i = i + 1;
        }
        assert(seen == has_id(primary, c.id@));
        if !seen {
            out.push(c);
        }
        proof {
            k = k + 1;
        }
    }
    assert(all.take(k) =~= all);
    out
}

/// No two containers of `cs` share an id.
pub open spec fn ids_distinct(cs: Seq<ContainerInfo>) -> bool {
    forall|i: int, j: int| 0 <= i < j < cs.len() ==> (#[trigger] cs[i]).id@ != (#[trigger] cs[j]).id@
}

/// Every container kept from `fallback` is one of its containers and has no
/// id that `seen` has.
proof fn lemma_unseen_from(fallback: Seq<ContainerInfo>, seen: Seq<ContainerInfo>)
    ensures
        forall|k: int| 0 <= k < unseen_by_id(fallback, seen).len() ==> {
            &&& exists|i: int| 0 <= i < fallback.len() && fallback[i] == #[trigger] unseen_by_id(fallback, seen)[k]
            &&& !has_id(seen, unseen_by_id(fallback, seen)[k].id@)
        },
    decreases fallback.len(),
{
    if fallback.len() > 0 {
        let prev = fallback.drop_last();
        lemma_unseen_from(prev, seen);
        let u = unseen_by_id(fallback, seen);
        let up = unseen_by_id(prev, seen);
        assert forall|k: int| 0 <= k < u.len() implies {
            &&& exists|i: int| 0 <= i < fallback.len() && fallback[i] == #[trigger] u[k]
            &&& !has_id(seen, u[k].id@)
        } by {
            if k < up.len() {
                assert(u[k] == up[k]);
                let i = choose|i: int| 0 <= i < prev.len() && prev[i] == #[trigger] up[k];
                assert(fallback[i] == prev[i]);
            } else {
                assert(u[k] == fallback[fallback.len() - 1]);
            }
        }
    }
}

/// The union of a primary and a fallback query lists each container id
/// once when each query does, and every container of either query has its
/// id in it.
pub proof fn law_merge_dedups(hits: Seq<ContainerInfo>, fallback: Seq<ContainerInfo>)
    requires
        ids_distinct(hits),
        ids_distinct(fallback),
    ensures
        ids_distinct(hits + unseen_by_id(fallback, hits)),
        forall|i: int| 0 <= i < hits.len() ==> has_id(hits + unseen_by_id(fallback, hits), (#[trigger] hits[i]).id@),
        forall|i: int| 0 <= i < fallback.len() ==> has_id(hits + unseen_by_id(fallback, hits), (#[trigger] fallback[i]).id@),
    decreases fallback.len(),
{
    let u = unseen_by_id(fallback, hits);
    let m = hits + u;
    lemma_unseen_from(fallback, hits);
    assert forall|i: int| 0 <= i < hits.len() implies has_id(m, (#[trigger] hits[i]).id@) by {
        assert(m[i] == hits[i]);
    }
    if fallback.len() > 0 {
        let prev = fallback.drop_last();
        let x = fallback.last();
        assert forall|i: int, j: int| 0 <= i < j < prev.len() implies (#[trigger] prev[i]).id@ != (#[trigger] prev[j]).id@ by {
            assert(prev[i] == fallback[i] && prev[j] == fallback[j]);
        }
        law_merge_dedups(hits, prev);
        let up = unseen_by_id(prev, hits);
        lemma_unseen_from(prev, hits);
        let mp = hits + up;
        assert forall|i: int, j: int| 0 <= i < j < m.len() implies (#[trigger] m[i]).id@ != (#[trigger] m[j]).id@ by {
            if j < mp.len() {
                assert(m[i] == mp[i] && m[j] == mp[j]);
            } else {
                assert(m[j] == x);
                assert(!has_id(hits, x.id@));
                if i < hits.len() {
                    assert(m[i] == hits[i]);
                } else {
                    let k = i - hits.len();
                    assert(m[i] == up[k]);
                    let t = choose|t: int| 0 <= t < prev.len() && prev[t] == #[trigger] up[k];
                    assert(fallback[t] == prev[t]);
                    assert(fallback[fallback.len() - 1] == x);
                }
            }
        }
        assert forall|i: int| 0 <= i < fallback.len() implies has_id(m, (#[trigger] fallback[i]).id@) by {
            if i < prev.len() {
                assert(prev[i] == fallback[i]);
                assert(has_id(mp, prev[i].id@));
                let t = choose|t: int| 0 <= t < mp.len() && (#[trigger] mp[t]).id@ == prev[i].id@;
                assert(m[t] == mp[t]);
            } else if has_id(hits, x.id@) {
                let t = choose|t: int| 0 <= t < hits.len() && (#[trigger] hits[t]).id@ == x.id@;
                assert(m[t] == hits[t]);
            } else {
                assert(m[m.len() - 1] == x);
            }
        }
    }
}

/// The first of `names` without leading `/`, or empty when there is none.
pub open spec fn summary_name(names: Option<Seq<String>>) -> Seq<char> {
    match names {
        Some(ns) => if ns.len() > 0 {
            trim_start_char(ns[0]@, '/')
        } else {
            Seq::empty()
        },
        None => Seq::empty(),
    }
}

/// The text of an optional value, empty when absent.
pub open spec fn text_or_empty(v: Option<String>) -> Seq<char> {
    match v {
        Some(s) => s@,
        None => Seq::empty(),
    }
}

fn unwrap_text(v: Option<String>) -> (r: String)
    ensures
        r@ == text_or_empty(v),
{
    match v {
        Some(s) => s,
        None => String::new(),
    }
}

/// A [`ContainerInfo`] from the fields of a container listing entry: the
/// first name without its leading `/`, absent fields empty.
pub fn container_from_summary(
    id: Option<String>,
    names: Option<Vec<String>>,
    image: Option<String>,
    state: Option<String>,
    labels: Option<Vec<(String, String)>>,
) -> (r: ContainerInfo)
    requires
        labels matches Some(l) ==> label_keys_distinct(l@),
    ensures
        r.id@ == text_or_empty(id),
        r.name@ == summary_name(
            match names {
                Some(v) => Some(v@),
                None => None,
            },
        ),
        r.image@ == text_or_empty(image),
        r.state@ == text_or_empty(state),
        label_keys_distinct(r.labels@),
        r.labels@ == (match labels {
            Some(l) => l@,
            None => Seq::empty(),
        }),
{
    let name = match &names {
        Some(ns) => if ns.len() > 0 {
            strip_leading(ns[0].as_str(), '/')
        } else {
            String::new()
        },
        None => String::new(),
    };
    let labels = match labels {
        Some(l) => l,
        None => Vec::new(),
    };
    ContainerInfo { id: unwrap_text(id), name, image: unwrap_text(image), state: unwrap_text(state), labels }
}

/// A [`ContainerInfo`] from the fields of a container inspection: the name
/// without its leading `/`, `unknown` for a missing state, absent fields
/// empty. `state` is the lowercase state name.
pub fn container_from_inspect(
    id: Option<String>,
    name: Option<String>,
    image: Option<String>,
    state: Option<String>,
    labels: Option<Vec<(String, String)>>,
) -> (r: ContainerInfo)
    requires
        labels matches Some(l) ==> label_keys_distinct(l@),
    ensures
        r.id@ == text_or_empty(id),
        r.name@ == trim_start_char(text_or_empty(name), '/'),
        r.image@ == text_or_empty(image),
        r.state@ == (match state {
            Some(s) => s@,
            None => "unknown"@,
        }),
        label_keys_distinct(r.labels@),
        r.labels@ == (match labels {
            Some(l) => l@,
            None => Seq::empty(),
        }),
{
    let raw = unwrap_text(name);
    let name = strip_leading(raw.as_str(), '/');
    let state = match state {
        Some(s) => s,
        None => String::from_str("unknown"),
    };
    let labels = match labels {
        Some(l) => l,
        None => Vec::new(),
    };
    ContainerInfo { id: unwrap_text(id), name, image: unwrap_text(image), state, labels }
}

/// The `tail` option of a log request: the last `tail` lines, or `all`
/// when `tail` is 0.
pub fn logs_tail(tail: u64) -> (r: String)
    ensures
        r@ == (if tail > 0 {
            decimal(tail as nat)
        } else {
            "all"@
        }),
{
    if tail > 0 {
        decimal_string(tail)
    } else {
        String::from_str("all")
    }
}

} // verus!
