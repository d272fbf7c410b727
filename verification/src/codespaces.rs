//! The GitHub Codespaces backend: the `gh codespace` command lines and the
//! JSON fields each query asks for.

use vstd::prelude::*;
use crate::text::{flag_value_before, given_count, opt_flag, opt_text, push_opt_flag, push_text, push_all, text_list, texts_view};

verus! {

/// Fields of `gh codespace list --json`.
pub const LIST_FIELDS: &'static str = "name,displayName,state,repository,gitStatus,createdAt,lastUsedAt,machineName";

/// Fields of `gh codespace view --json`.
pub const VIEW_FIELDS: &'static str = "name,displayName,state,owner,location,repository,gitStatus,devcontainerPath,machineName,machineDisplayName,prebuild,createdAt,lastUsedAt,idleTimeoutMinutes,retentionPeriodDays";

/// Fields of `gh codespace ports --json`.
pub const PORT_FIELDS: &'static str = "sourcePort,visibility,label,browseUrl";

/// The full `gh` arguments of a codespace subcommand: `codespace`, then
/// the subcommand's own arguments.
pub fn gh_codespace_args(args: &Vec<String>) -> (r: Vec<String>)
    ensures
        r.deep_view() == seq!["codespace"@] + args.deep_view(),
{
    let mut v: Vec<String> = Vec::new();
    push_text(&mut v, "codespace");
    push_all(&mut v, args);
    assert(v.deep_view() =~= seq!["codespace"@] + args.deep_view());
    v
}

/// `gh codespace create` arguments: the repository, then each option that
/// is given.
pub open spec fn create_command(
    repo: Seq<char>,
    branch: Option<Seq<char>>,
    machine: Option<Seq<char>>,
    devcontainer_path: Option<Seq<char>>,
    display_name: Option<Seq<char>>,
    idle_timeout: Option<Seq<char>>,
) -> Seq<Seq<char>> {
    seq!["create"@, "--repo"@, repo] + opt_flag("--branch"@, branch) + opt_flag("--machine"@, machine) + opt_flag(
        "--devcontainer-path"@,
        devcontainer_path,
    ) + opt_flag("--display-name"@, display_name) + opt_flag("--idle-timeout"@, idle_timeout)
}

/// Every option of a codespace create that is given reaches `gh` as its
/// flag immediately followed by its value; the repository follows
/// `--repo`; and nothing else is passed: two words per given option after
/// `create --repo <repo>`.
pub proof fn law_create_passes_every_option(
    repo: Seq<char>,
    branch: Option<Seq<char>>,
    machine: Option<Seq<char>>,
    devcontainer_path: Option<Seq<char>>,
    display_name: Option<Seq<char>>,
    idle_timeout: Option<Seq<char>>,
)
    ensures
        ({
            let a = create_command(repo, branch, machine, devcontainer_path, display_name, idle_timeout);
            &&& a[0] == "create"@
            &&& flag_value_before(a, "--repo"@, repo, a.len() as int)
            &&& (branch matches Some(b) ==> flag_value_before(a, "--branch"@, b, a.len() as int))
            &&& (machine matches Some(m) ==> flag_value_before(a, "--machine"@, m, a.len() as int))
            &&& (devcontainer_path matches Some(d) ==> flag_value_before(a, "--devcontainer-path"@, d, a.len() as int))
            &&& (display_name matches Some(n) ==> flag_value_before(a, "--display-name"@, n, a.len() as int))
            &&& (idle_timeout matches Some(t) ==> flag_value_before(a, "--idle-timeout"@, t, a.len() as int))
            &&& a.len() == 3 + 2 * given_count(seq![branch, machine, devcontainer_path, display_name, idle_timeout])
        }),
{
    let a = create_command(repo, branch, machine, devcontainer_path, display_name, idle_timeout);
    let p0 = seq!["create"@, "--repo"@, repo];
    let p1 = p0 + opt_flag("--branch"@, branch);
    let p2 = p1 + opt_flag("--machine"@, machine);
    let p3 = p2 + opt_flag("--devcontainer-path"@, devcontainer_path);
    let p4 = p3 + opt_flag("--display-name"@, display_name);
    assert(a == p4 + opt_flag("--idle-timeout"@, idle_timeout));
    assert(a[1] == "--repo"@ && a[2] == repo);
    if let Some(b) = branch {
        assert(a[p0.len() as int] == "--branch"@ && a[p0.len() + 1int] == b);
    }
    if let Some(m) = machine {
        assert(a[p1.len() as int] == "--machine"@ && a[p1.len() + 1int] == m);
    }
    if let Some(d) = devcontainer_path {
        assert(a[p2.len() as int] == "--devcontainer-path"@ && a[p2.len() + 1int] == d);
    }
    if let Some(n) = display_name {
        assert(a[p3.len() as int] == "--display-name"@ && a[p3.len() + 1int] == n);
    }
    if let Some(t) = idle_timeout {
        assert(a[p4.len() as int] == "--idle-timeout"@ && a[p4.len() + 1int] == t);
    }
    let opts = seq![branch, machine, devcontainer_path, display_name, idle_timeout];
    assert(opts.drop_last() =~= seq![branch, machine, devcontainer_path, display_name]);
    assert(opts.drop_last().drop_last() =~= seq![branch, machine, devcontainer_path]);
    assert(opts.drop_last().drop_last().drop_last() =~= seq![branch, machine]);
    assert(opts.drop_last().drop_last().drop_last().drop_last() =~= seq![branch]);
    assert(seq![branch].drop_last() =~= Seq::<Option<Seq<char>>>::empty());
    reveal_with_fuel(given_count, 6);
    assert(a.len() == 3 + 2 * given_count(opts));
    assert(flag_value_before(a, "--repo"@, repo, a.len() as int));
}

/// `gh codespace create` arguments.
pub fn create_args(
    repo: &str,
    branch: Option<&str>,
    machine: Option<&str>,
    devcontainer_path: Option<&str>,
    display_name: Option<&str>,
    idle_timeout: Option<&str>,
) -> (r: Vec<String>)
    ensures
        r.deep_view() == create_command(
            repo@,
            opt_text(branch),
            opt_text(machine),
            opt_text(devcontainer_path),
            opt_text(display_name),
            opt_text(idle_timeout),
        ),
{
    let mut v = text_list(vec!["create", "--repo", repo].as_slice());
    assert(v.deep_view() =~= seq!["create"@, "--repo"@, repo@]);
    push_opt_flag(&mut v, "--branch", branch);
    push_opt_flag(&mut v, "--machine", machine);
    push_opt_flag(&mut v, "--devcontainer-path", devcontainer_path);
    push_opt_flag(&mut v, "--display-name", display_name);
    push_opt_flag(&mut v, "--idle-timeout", idle_timeout);
    v
}

/// `gh codespace list` arguments, for one repository when given.
pub fn list_args(repo: Option<&str>) -> (r: Vec<String>)
    ensures
        r.deep_view() == seq!["list"@, "--json"@, LIST_FIELDS@] + opt_flag("--repo"@, opt_text(repo)),
{
    let mut v = text_list(vec!["list", "--json", LIST_FIELDS].as_slice());
    assert(v.deep_view() =~= seq!["list"@, "--json"@, LIST_FIELDS@]);
    push_opt_flag(&mut v, "--repo", repo);
    v
}

/// `gh codespace ssh` arguments that run `command` in `codespace`.
pub fn ssh_args(codespace: &str, command: &str) -> (r: Vec<String>)
    ensures
        r.deep_view() == seq!["ssh"@, "-c"@, codespace@, "--"@, command@],
{
    let r = text_list(vec!["ssh", "-c", codespace, "--", command].as_slice());
    assert(r.deep_view() =~= seq!["ssh"@, "-c"@, codespace@, "--"@, command@]);
    r
}

/// `gh codespace stop` arguments.
pub fn stop_args(codespace: &str) -> (r: Vec<String>)
    ensures
        r.deep_view() == seq!["stop"@, "-c"@, codespace@],
{
    let r = text_list(vec!["stop", "-c", codespace].as_slice());
    assert(r.deep_view() =~= seq!["stop"@, "-c"@, codespace@]);
    r
}

/// `gh codespace delete` arguments, with `--force` when asked.
pub fn delete_args(codespace: &str, force: bool) -> (r: Vec<String>)
    ensures
        r.deep_view() == seq!["delete"@, "-c"@, codespace@] + (if force { seq!["--force"@] } else { Seq::empty() }),
{
    let mut v = text_list(vec!["delete", "-c", codespace].as_slice());
    if force {
        push_text(&mut v, "--force");
    }
    assert(v.deep_view() =~= seq!["delete"@, "-c"@, codespace@] + (if force { seq!["--force"@] } else { Seq::empty() }));
    v
}

/// `gh codespace view` arguments.
pub fn view_args(codespace: &str) -> (r: Vec<String>)
    ensures
        r.deep_view() == seq!["view"@, "-c"@, codespace@, "--json"@, VIEW_FIELDS@],
{
    let r = text_list(vec!["view", "-c", codespace, "--json", VIEW_FIELDS].as_slice());
    assert(r.deep_view() =~= seq!["view"@, "-c"@, codespace@, "--json"@, VIEW_FIELDS@]);
    r
}

/// `gh codespace ports` arguments.
pub fn ports_args(codespace: &str) -> (r: Vec<String>)
    ensures
        r.deep_view() == seq!["ports"@, "-c"@, codespace@, "--json"@, PORT_FIELDS@],
{
    let r = text_list(vec!["ports", "-c", codespace, "--json", PORT_FIELDS].as_slice());
    assert(r.deep_view() =~= seq!["ports"@, "-c"@, codespace@, "--json"@, PORT_FIELDS@]);
    r
}

} // verus!
