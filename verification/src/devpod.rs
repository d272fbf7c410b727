//! The DevPod backend: the command lines handed to the `devpod` CLI, what
//! its version check means, and how a cancelled remote command is killed
//! inside a workspace.

use vstd::prelude::*;
use vstd::string::StringSliceAdditionalSpecFns;
use crate::devcontainer::{kill_command, kill_script};
use crate::error::Error;
use crate::exec_shim::{base64_input_limit, base64_standard, self_contained_script, wrap_self_contained};
use crate::text::{flag_value_before, opt_flag, opt_text, push_opt_flag, push_text, push_texts, text_list, texts_view, trim, trim_text};

verus! {

/// What `devpod version` means: the trimmed version text when it exited
/// 0, else DevPod counts as not installed.
pub fn version_result(exit_code: i32, stdout: &str) -> (r: Result<String, Error>)
    ensures
        exit_code == 0 <==> r is Ok,
        r matches Ok(v) ==> v@ == trim(stdout@),
        r matches Err(e) ==> e is DevPodNotFound,
{
    if exit_code == 0 {
        Ok(trim_text(stdout))
    } else {
        Err(Error::DevPodNotFound)
    }
}

/// `devpod up` arguments: the IDE is never opened; `args` follow.
pub fn up_args(args: &[&str]) -> (r: Vec<String>)
    ensures
        r.deep_view() == seq!["up"@, "--open-ide=false"@] + texts_view(args@),
{
    let mut v = text_list(vec!["up", "--open-ide=false"].as_slice());
    push_texts(&mut v, args);
    v
}

/// `devpod stop` arguments.
pub fn stop_args(workspace: &str) -> (r: Vec<String>)
    ensures
        r.deep_view() == seq!["stop"@, workspace@],
{
    let r = text_list(vec!["stop", workspace].as_slice());
    assert(r.deep_view() =~= seq!["stop"@, workspace@]);
    r
}

/// `devpod delete` arguments, with `--force` when asked.
pub fn delete_args(workspace: &str, force: bool) -> (r: Vec<String>)
    ensures
        r.deep_view() == seq!["delete"@, workspace@] + (if force { seq!["--force"@] } else { Seq::empty() }),
{
    let mut v = text_list(vec!["delete", workspace].as_slice());
    let ghost base = v.deep_view();
    if force {
        push_text(&mut v, "--force");
    }
    assert(v.deep_view() =~= seq!["delete"@, workspace@] + (if force { seq!["--force"@] } else { Seq::empty() }));
    v
}

/// `devpod build` arguments: `args` follow the subcommand.
pub fn build_args(args: &[&str]) -> (r: Vec<String>)
    ensures
        r.deep_view() == seq!["build"@] + texts_view(args@),
{
    let mut v = text_list(vec!["build"].as_slice());
    push_texts(&mut v, args);
    v
}

/// `devpod status` arguments: JSON output, and a timeout when given.
pub fn status_args(workspace: &str, timeout: Option<&str>) -> (r: Vec<String>)
    ensures
        r.deep_view() == seq!["status"@, workspace@, "--output"@, "json"@] + opt_flag("--timeout"@, opt_text(timeout)),
{
    let mut v = text_list(vec!["status", workspace, "--output", "json"].as_slice());
    push_opt_flag(&mut v, "--timeout", timeout);
    v
}

/// The `devpod ssh --command` arguments that run `command` in `workspace`,
/// as `user` and in `workdir` when given.
pub open spec fn ssh_command(workspace: Seq<char>, command: Seq<char>, user: Option<Seq<char>>, workdir: Option<Seq<char>>) -> Seq<Seq<char>> {
    seq!["ssh"@, workspace, "--command"@, command] + opt_flag("--user"@, user) + opt_flag("--workdir"@, workdir)
}

/// `devpod ssh` runs `command` in `workspace`: the command follows
/// `--command`, a given user follows `--user` and a given working directory
/// follows `--workdir`; nothing else is passed.
pub proof fn law_ssh_passes_user_and_workdir(
    workspace: Seq<char>,
    command: Seq<char>,
    user: Option<Seq<char>>,
    workdir: Option<Seq<char>>,
)
    ensures
        ({
            let a = ssh_command(workspace, command, user, workdir);
            &&& a[0] == "ssh"@ && a[1] == workspace
            &&& flag_value_before(a, "--command"@, command, a.len() as int)
            &&& (user matches Some(u) ==> flag_value_before(a, "--user"@, u, a.len() as int))
            &&& (workdir matches Some(w) ==> flag_value_before(a, "--workdir"@, w, a.len() as int))
            &&& a.len() == 4 + (if user is Some { 2int } else { 0 }) + (if workdir is Some { 2int } else { 0 })
        }),
{
    let a = ssh_command(workspace, command, user, workdir);
    let p1 = seq!["ssh"@, workspace, "--command"@, command] + opt_flag("--user"@, user);
    assert(a[2] == "--command"@ && a[3] == command);
    if let Some(u) = user {
        assert(a[4] == "--user"@ && a[5] == u);
    }
    if let Some(w) = workdir {
        assert(a[p1.len() as int] == "--workdir"@ && a[p1.len() + 1int] == w);
    }
}

/// `devpod ssh --command` arguments.
pub fn ssh_args(workspace: &str, command: &str, user: Option<&str>, workdir: Option<&str>) -> (r: Vec<String>)
    ensures
        r.deep_view() == ssh_command(workspace@, command@, opt_text(user), opt_text(workdir)),
{
    let mut v = text_list(vec!["ssh", workspace, "--command", command].as_slice());
    push_opt_flag(&mut v, "--user", user);
    push_opt_flag(&mut v, "--workdir", workdir);
    v
}

/// The arguments of a cancellable `devpod ssh`: the user's command travels
/// as a self-contained shim script, so that it survives the SSH transport
/// and announces its process group.
pub fn ssh_streaming_args(workspace: &str, command: &str, user: Option<&str>, workdir: Option<&str>) -> (r: Vec<String>)
    requires
        command.spec_bytes().len() <= base64_input_limit(),
    ensures
        r.deep_view() == ssh_command(
            workspace@,
            self_contained_script(base64_standard(command.spec_bytes())),
            opt_text(user),
            opt_text(workdir),
        ),
{
    let wrapped = wrap_self_contained(command);
    ssh_args(workspace, wrapped.as_str(), user, workdir)
}

/// Delivers a signal to a process group inside a DevPod workspace, through
/// a fresh `devpod ssh --command`.
pub struct DevpodKiller {
    pub workspace: String,
    pub user: Option<String>,
}

impl DevpodKiller {
    /// The `devpod ssh` arguments that send `signal` to process group
    /// `pgid` in the workspace, as the same user.
    pub fn kill_args(&self, pgid: i32, signal: &str) -> (r: Vec<String>)
        ensures
            r.deep_view() == seq!["ssh"@, self.workspace@, "--command"@, kill_script(signal@, pgid)] + opt_flag(
                "--user"@,
                match self.user {
                    Some(u) => Some(u@),
                    None => None,
                },
            ),
    {
        let cmd = kill_command(signal, pgid);
        let mut v = text_list(vec!["ssh", self.workspace.as_str(), "--command", cmd.as_str()].as_slice());
        let u: Option<&str> = match &self.user {
            Some(u) => Some(u.as_str()),
            None => None,
        };
        push_opt_flag(&mut v, "--user", u);
        v
    }
}

/// `devpod provider add` arguments: `options` follow the provider.
pub fn provider_add_args(provider: &str, options: &[&str]) -> (r: Vec<String>)
    ensures
        r.deep_view() == seq!["provider"@, "add"@, provider@] + texts_view(options@),
{
    let mut v = text_list(vec!["provider", "add", provider].as_slice());
    push_texts(&mut v, options);
    v
}

/// `devpod import` arguments: `args` follow the subcommand.
pub fn import_args(args: &[&str]) -> (r: Vec<String>)
    ensures
        r.deep_view() == seq!["import"@] + texts_view(args@),
{
    let mut v = text_list(vec!["import"].as_slice());
    push_texts(&mut v, args);
    v
}

/// Workspace status from `devpod status --output json`.
#[derive(Debug, Clone)]
pub struct WorkspaceStatus {
    pub id: Option<String>,
    pub context: Option<String>,
    pub provider: Option<String>,
    pub state: Option<String>,
}

} // verus!
