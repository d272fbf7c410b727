//! Decisions of the devcontainer backend: the command lines handed to the
//! `devcontainer` CLI, the diagnostics for ambiguous lookups, and what a
//! lookup means for status, stop/remove and in-container kills.

use vstd::prelude::*;
use crate::docker::{label_value, ContainerInfo, DevcontainerLookup};
use crate::exec_shim::USER_CMD_ENV;
use crate::error::Error;
use crate::file_ops::{quoted, shell_quote};
use crate::text::{concat, flag_value_before, opt_text, first_chars, join, push_all, push_text, same_text, signed_decimal, signed_decimal_string};

verus! {

/// `["--config", c]` when a config is given, nothing otherwise.
pub open spec fn config_flag(config: Option<Seq<char>>) -> Seq<Seq<char>> {
    match config {
        Some(c) => seq!["--config"@, c],
        None => Seq::empty(),
    }
}

/// Wherever the config flag stands in a command line, a given config
/// reaches the CLI as `--config` immediately followed by that config,
/// before whatever follows the flag; no config adds nothing.
pub proof fn law_config_flag_passes_the_config(head: Seq<Seq<char>>, config: Option<Seq<char>>, rest: Seq<Seq<char>>)
    ensures
        config matches Some(c) ==> flag_value_before(
            head + config_flag(config) + rest,
            "--config"@,
            c,
            head.len() + 2int,
        ),
        config is None ==> head + config_flag(config) + rest == head + rest,
{
    let a = head + config_flag(config) + rest;
    if let Some(c) = config {
        assert(a[head.len() as int] == "--config"@ && a[head.len() + 1int] == c);
    } else {
        assert(head + config_flag(config) =~= head);
    }
}

fn push_config(v: &mut Vec<String>, config: Option<&str>)
    ensures
        final(v).deep_view() == old(v).deep_view() + config_flag(opt_text(config)),
{
    match config {
        Some(c) => {
            push_text(v, "--config");
            push_text(v, c);
        },
        None => {},
    }
    assert(v.deep_view() =~= old(v).deep_view() + config_flag(opt_text(config)));
}

/// `[sub, "--workspace-folder", workspace_folder]`.
fn workspace_command(sub: &str, workspace_folder: &str) -> (r: Vec<String>)
    ensures
        r.deep_view() == seq![sub@, "--workspace-folder"@, workspace_folder@],
{
    let mut v: Vec<String> = Vec::new();
    push_text(&mut v, sub);
    push_text(&mut v, "--workspace-folder");
    push_text(&mut v, workspace_folder);
    assert(v.deep_view() =~= seq![sub@, "--workspace-folder"@, workspace_folder@]);
    v
}

/// Arguments of `devcontainer up`; `config` is the absolute config path.
pub fn up_args(workspace_folder: &str, config: Option<&str>, extra_args: &Vec<String>) -> (r: Vec<
    String,
>)
    ensures
        r.deep_view() == seq!["up"@, "--workspace-folder"@, workspace_folder@] + config_flag(
            opt_text(config),
        ) + extra_args.deep_view(),
{
    let mut v = workspace_command("up", workspace_folder);
    push_config(&mut v, config);
    push_all(&mut v, extra_args);
    v
}

/// Arguments of `devcontainer build`; `config` is the absolute config path.
pub fn build_args(workspace_folder: &str, config: Option<&str>, extra_args: &Vec<String>) -> (r: Vec<
    String,
>)
    ensures
        r.deep_view() == seq!["build"@, "--workspace-folder"@, workspace_folder@] + config_flag(
            opt_text(config),
        ) + extra_args.deep_view(),
{
    let mut v = workspace_command("build", workspace_folder);
    push_config(&mut v, config);
    push_all(&mut v, extra_args);
    v
}

/// Arguments of `devcontainer read-configuration`.
pub fn read_configuration_args(workspace_folder: &str, config: Option<&str>) -> (r: Vec<String>)
    ensures
        r.deep_view() == seq!["read-configuration"@, "--workspace-folder"@, workspace_folder@]
            + config_flag(opt_text(config)) + seq!["--include-merged-configuration"@],
{
    let mut v = workspace_command("read-configuration", workspace_folder);
    push_config(&mut v, config);
    let ghost before = v.deep_view();
    push_text(&mut v, "--include-merged-configuration");
    assert(v.deep_view() =~= before + seq!["--include-merged-configuration"@]);
    v
}

/// `["exec", "--container-id", id, "--workspace-folder", ws]` plus the config flag.
pub open spec fn exec_prefix(container_id: Seq<char>, workspace_folder: Seq<char>, config: Option<Seq<char>>) -> Seq<Seq<char>> {
    seq!["exec"@, "--container-id"@, container_id, "--workspace-folder"@, workspace_folder]
        + config_flag(config)
}

/// `devcontainer exec` names its container and workspace, and when a
/// config is selected passes `--config` followed by that config before the
/// command it runs, in the plain form (`command args...`) as in the
/// streaming form (`--remote-env <env> sh -c <shim>`); without a config the
/// command follows the workspace folder directly.
pub proof fn law_exec_passes_the_config(
    container_id: Seq<char>,
    workspace_folder: Seq<char>,
    config: Option<Seq<char>>,
    command: Seq<char>,
    args: Seq<Seq<char>>,
    env: Seq<char>,
    shim: Seq<char>,
)
    ensures
        ({
            let plain = exec_prefix(container_id, workspace_folder, config) + seq![command] + args;
            let at = plain.len() - args.len() - 1;
            &&& plain[0] == "exec"@
            &&& plain[at] == command
            &&& plain.subrange(at + 1, plain.len() as int) == args
            &&& flag_value_before(plain, "--container-id"@, container_id, at)
            &&& flag_value_before(plain, "--workspace-folder"@, workspace_folder, at)
            &&& (config matches Some(c) ==> flag_value_before(plain, "--config"@, c, at))
            &&& (config is None ==> at == 5)
        }),
        ({
            let streaming = exec_prefix(container_id, workspace_folder, config) + seq![
                "--remote-env"@,
                env,
                "sh"@,
                "-c"@,
                shim,
            ];
            let at = streaming.len() - 3;
            &&& streaming[at] == "sh"@
            &&& streaming[at + 2] == shim
            &&& (config matches Some(c) ==> flag_value_before(streaming, "--config"@, c, at))
            &&& (config is None ==> at == 7)
        }),
{
    let prefix = exec_prefix(container_id, workspace_folder, config);
    let plain = prefix + seq![command] + args;
    let at = plain.len() - args.len() - 1;
    assert(at == prefix.len());
    assert(plain[1] == "--container-id"@ && plain[2] == container_id);
    assert(plain[3] == "--workspace-folder"@ && plain[4] == workspace_folder);
    assert(plain.subrange(at + 1, plain.len() as int) =~= args);
    let streaming = prefix + seq!["--remote-env"@, env, "sh"@, "-c"@, shim];
    if let Some(c) = config {
        assert(plain[5] == "--config"@ && plain[6] == c);
        assert(streaming[5] == "--config"@ && streaming[6] == c);
    }
}

fn exec_prefix_args(container_id: &str, workspace_folder: &str, config: Option<&str>) -> (r: Vec<
    String,
>)
    ensures
        r.deep_view() == exec_prefix(container_id@, workspace_folder@, opt_text(config)),
{
    let mut v: Vec<String> = Vec::new();
    push_text(&mut v, "exec");
    push_text(&mut v, "--container-id");
    push_text(&mut v, container_id);
    push_text(&mut v, "--workspace-folder");
    push_text(&mut v, workspace_folder);
    let ghost base = v.deep_view();
    assert(base =~= seq!["exec"@, "--container-id"@, container_id@, "--workspace-folder"@, workspace_folder@]);
    push_config(&mut v, config);
    v
}

/// Arguments of `devcontainer exec` running `command command_args...` in
/// the container `container_id`.
pub fn exec_args(
    container_id: &str,
    workspace_folder: &str,
    config: Option<&str>,
    command: &str,
    command_args: &Vec<String>,
) -> (r: Vec<String>)
    ensures
        r.deep_view() == exec_prefix(container_id@, workspace_folder@, opt_text(config)) + seq![
            command@,
        ] + command_args.deep_view(),
{
    let mut v = exec_prefix_args(container_id, workspace_folder, config);
    let ghost before = v.deep_view();
    push_text(&mut v, command);
    assert(v.deep_view() =~= before + seq![command@]);
    push_all(&mut v, command_args);
    v
}

/// `command` and then each of `args`, each shell-quoted, joined by spaces.
pub open spec fn quoted_command_line(command: Seq<char>, args: Seq<String>) -> Seq<char> {
    join(seq![quoted(command)] + args.map_values(|a: String| quoted(a@)), " "@)
}

/// The command the shim should run for `command command_args...`: for the
/// plain `sh -c <body>` shape the body itself, so that no extra shell is
/// nested; for any other shape the words shell-quoted and joined by spaces.
pub fn shim_user_command(command: &str, command_args: &Vec<String>) -> (r: String)
    ensures
        r@ == (if command@ == "sh"@ && command_args@.len() == 2 && command_args@[0]@ == "-c"@ {
            command_args@[1]@
        } else {
            quoted_command_line(command@, command_args@)
        }),
{
    if same_text(command, "sh") && command_args.len() == 2 && same_text(
        command_args[0].as_str(),
        "-c",
    ) {
        return command_args[1].clone();
    }
    let mut out = shell_quote(command);
    let mut i: usize = 0;
    assert(seq![quoted(command@)] + command_args@.take(0).map_values(|a: String| quoted(a@))
        =~= seq![quoted(command@)]);
    while i < command_args.len()
        invariant
            i <= command_args@.len(),
            out@ == quoted_command_line(command@, command_args@.take(i as int)),
        decreases command_args@.len() - i,
    {
        let q = shell_quote(command_args[i].as_str());
        let ghost parts = seq![quoted(command@)] + command_args@.take(i as int).map_values(
            |a: String| quoted(a@),
        );
        let ghost next = seq![quoted(command@)] + command_args@.take(i + 1).map_values(
            |a: String| quoted(a@),
        );
        assert(next.drop_last() =~= parts);
        assert(next.last() == quoted(command_args@[i as int]@));
        out.append(" ");
        out.append(q.as_str());
        i = i + 1;
    }
    assert(command_args@.take(i as int) =~= command_args@);
    out
}

/// Arguments of the streaming `devcontainer exec`: the user command goes to
/// the shim through `--remote-env DCMCP_USER_CMD=<cmd>`, and the container
/// runs `sh -c <shim>`.
pub fn exec_streaming_args(
    container_id: &str,
    workspace_folder: &str,
    config: Option<&str>,
    user_cmd: &str,
    shim: &str,
) -> (r: Vec<String>)
    ensures
        r.deep_view() == exec_prefix(container_id@, workspace_folder@, opt_text(config)) + seq![
            "--remote-env"@,
            USER_CMD_ENV@ + "="@ + user_cmd@,
            "sh"@,
            "-c"@,
            shim@,
        ],
{
    let mut v = exec_prefix_args(container_id, workspace_folder, config);
    let ghost before = v.deep_view();
    let mut env = String::from_str(USER_CMD_ENV);
    env.append("=");
    env.append(user_cmd);
    push_text(&mut v, "--remote-env");
    push_text(&mut v, env.as_str());
    push_text(&mut v, "sh");
    push_text(&mut v, "-c");
    push_text(&mut v, shim);
    assert(v.deep_view() =~= before + seq![
        "--remote-env"@,
        USER_CMD_ENV@ + "="@ + user_cmd@,
        "sh"@,
        "-c"@,
        shim@,
    ]);
    v
}

/// The text of label `key`, or `default` when the label is missing.
pub open spec fn label_or(c: ContainerInfo, key: Seq<char>, default: Seq<char>) -> Seq<char> {
    match label_value(c.labels@, key) {
        Some(v) => v,
        None => default,
    }
}

/// The diagnostic line for one candidate: its short id (first 12
/// characters), name, compose service and config-file label.
pub open spec fn candidate_line(c: ContainerInfo) -> Seq<char> {
    "  - id="@ + c.id@.take(if c.id@.len() < 12 { c.id@.len() as int } else { 12 }) + " name="@
        + c.name@ + " service="@ + label_or(c, "com.docker.compose.service"@, "(none)"@)
        + " config_file="@ + label_or(c, "devcontainer.config_file"@, "(unlabeled)"@)
}

/// The message for a lookup that matched several containers.
pub open spec fn ambiguous_message(workspace_folder: Seq<char>, candidates: Seq<ContainerInfo>) -> Seq<char> {
    "Multiple containers match workspace `"@ + workspace_folder
        + "`. Re-run with `config` set to the devcontainer.json path of the one you want. Use `devcontainer_list_configs` to enumerate. Candidates:\n"@
        + join(candidates.map_values(|c: ContainerInfo| candidate_line(c)), "\n"@)
}

fn candidate_line_exec(c: &ContainerInfo) -> (r: String)
    ensures
        r@ == candidate_line(*c),
{
    let mut s = String::from_str("  - id=");
    let short = first_chars(c.id.as_str(), 12);
    s.append(short.as_str());
    s.append(" name=");
    s.append(c.name.as_str());
    s.append(" service=");
    match c.compose_service() {
        Some(v) => s.append(v),
        None => s.append("(none)"),
    }
    s.append(" config_file=");
    match c.devcontainer_config_file() {
        Some(v) => s.append(v),
        None => s.append("(unlabeled)"),
    }
    s
}

/// Build the "ambiguous match" error text listing every candidate's id,
/// name, compose service and config file.
pub fn ambiguous_error(workspace_folder: &str, candidates: &[ContainerInfo]) -> (r: String)
    ensures
        r@ == ambiguous_message(workspace_folder@, candidates@),
{
    let ghost ls = candidates@.map_values(|c: ContainerInfo| candidate_line(c));
    let mut s = String::from_str("Multiple containers match workspace `");
    s.append(workspace_folder);
    s.append(
        "`. Re-run with `config` set to the devcontainer.json path of the one you want. Use `devcontainer_list_configs` to enumerate. Candidates:\n",
    );
    let ghost head = s@;
    let mut body = String::new();
    let mut i: usize = 0;
    while i < candidates.len()
        invariant
            i <= candidates@.len(),
            ls == candidates@.map_values(|c: ContainerInfo| candidate_line(c)),
            body@ == join(ls.take(i as int), "\n"@),
        decreases candidates@.len() - i,
    {
        let line = candidate_line_exec(&candidates[i]);
        if i > 0 {
            body.append("\n");
        }
        body.append(line.as_str());
        proof {
            let tk = ls.take(i + 1);
            assert(tk.drop_last() =~= ls.take(i as int));
            assert(tk.last() == ls[i as int]);
            if i == 0 {
                assert(body@ =~= tk[0]);
            }
        }
        i = i + 1;
    }
    assert(ls.take(i as int) =~= ls);
    s.append(body.as_str());
    s
}

/// Status of a devcontainer lookup: nothing, one container, or an
/// ambiguous set the caller should narrow with a config.
#[derive(Debug, Clone)]
pub enum StatusOutcome {
    NotFound,
    Found(ContainerInfo),
    Ambiguous(Vec<ContainerInfo>),
}

/// The status a lookup reports.
pub fn status_outcome(lookup: DevcontainerLookup) -> (r: StatusOutcome)
    ensures
        r == (match lookup {
            DevcontainerLookup::NoneFound => StatusOutcome::NotFound,
            DevcontainerLookup::One(c) => StatusOutcome::Found(c),
            DevcontainerLookup::Many(v) => StatusOutcome::Ambiguous(v),
        }),
{
    match lookup {
        DevcontainerLookup::NoneFound => StatusOutcome::NotFound,
        DevcontainerLookup::One(c) => StatusOutcome::Found(c),
        DevcontainerLookup::Many(v) => StatusOutcome::Ambiguous(v),
    }
}

/// The single container an operation acts on; an empty lookup and an
/// ambiguous one are refused with their messages.
pub fn single_container(workspace_folder: &str, lookup: DevcontainerLookup) -> (r: Result<
    ContainerInfo,
    Error,
>)
    ensures
        match lookup {
            DevcontainerLookup::One(c) => r == Ok::<ContainerInfo, Error>(c),
            DevcontainerLookup::NoneFound => r matches Err(Error::Io(m)) && m@
                == "No devcontainer found for workspace: "@ + workspace_folder@,
            DevcontainerLookup::Many(v) => r matches Err(Error::Io(m)) && m@
                == ambiguous_message(workspace_folder@, v@),
        },
{
    match lookup {
        DevcontainerLookup::One(c) => Ok(c),
        DevcontainerLookup::NoneFound => {
            let mut m = String::from_str("No devcontainer found for workspace: ");
            m.append(workspace_folder);
            Err(Error::Io(m))
        },
        DevcontainerLookup::Many(v) => Err(Error::Io(ambiguous_error(workspace_folder, v.as_slice()))),
    }
}

/// The report of a stopped container.
pub fn stopped_message(name: &str) -> (r: String)
    ensures
        r@ == "Stopped container "@ + name@,
{
    concat("Stopped container ", name)
}

/// The report of a removed container.
pub fn removed_message(name: &str) -> (r: String)
    ensures
        r@ == "Removed container "@ + name@,
{
    concat("Removed container ", name)
}

/// The container an in-container kill targets: the single match, or the
/// first of several (a best-effort kill while racing a teardown).
pub fn kill_target(lookup: DevcontainerLookup) -> (r: Option<ContainerInfo>)
    ensures
        r == (match lookup {
            DevcontainerLookup::NoneFound => None::<ContainerInfo>,
            DevcontainerLookup::One(c) => Some(c),
            DevcontainerLookup::Many(v) => if v@.len() > 0 { Some(v@[0]) } else { None },
        }),
{
    match lookup {
        DevcontainerLookup::NoneFound => None,
        DevcontainerLookup::One(c) => Some(c),
        DevcontainerLookup::Many(v) => {
            let mut v = v;
            if v.len() > 0 {
                Some(v.remove(0))
            } else {
                None
            }
        },
    }
}

/// The shell command that signals a whole process group:
/// `kill -<signal> -<pgid> 2>/dev/null || true` (no `--`, which BusyBox
/// rejects).
pub open spec fn kill_script(signal: Seq<char>, pgid: i32) -> Seq<char> {
    "kill -"@ + signal + " -"@ + signed_decimal(pgid as int) + " 2>/dev/null || true"@
}

/// Build the process-group kill command.
pub fn kill_command(signal: &str, pgid: i32) -> (r: String)
    ensures
        r@ == kill_script(signal@, pgid),
{
    let mut s = String::from_str("kill -");
    s.append(signal);
    s.append(" -");
    let n = signed_decimal_string(pgid as i64);
    s.append(n.as_str());
    s.append(" 2>/dev/null || true");
    s
}

} // verus!
