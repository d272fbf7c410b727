use devcontainer_mcp_core::codespaces;
use devcontainer_mcp_core::devcontainer;
use devcontainer_mcp_core::devpod::{self, DevpodKiller};
use devcontainer_mcp_core::error::Error;
use devcontainer_mcp_core::exec_shim::wrap_self_contained;
use devcontainer_mcp_core::file_edit::{check_read, check_write};

#[test]
fn devpod_version_check() {
    assert_eq!(devpod::version_result(0, " v0.6.15 \n").unwrap(), "v0.6.15");
    assert!(matches!(devpod::version_result(1, "v0.6.15"), Err(Error::DevPodNotFound)));
}

#[test]
fn devpod_command_lines() {
    assert_eq!(devpod::up_args(&["github.com/x/y", "--ide", "none"]), vec!["up", "--open-ide=false", "github.com/x/y", "--ide", "none"]);
    assert_eq!(devpod::stop_args("ws"), vec!["stop", "ws"]);
    assert_eq!(devpod::delete_args("ws", true), vec!["delete", "ws", "--force"]);
    assert_eq!(devpod::delete_args("ws", false), vec!["delete", "ws"]);
    assert_eq!(devpod::build_args(&["ws"]), vec!["build", "ws"]);
    assert_eq!(devpod::status_args("ws", Some("5s")), vec!["status", "ws", "--output", "json", "--timeout", "5s"]);
    assert_eq!(devpod::status_args("ws", None), vec!["status", "ws", "--output", "json"]);
    assert_eq!(
        devpod::ssh_args("ws", "ls", Some("root"), Some("/src")),
        vec!["ssh", "ws", "--command", "ls", "--user", "root", "--workdir", "/src"]
    );
    assert_eq!(devpod::ssh_args("ws", "ls", None, None), vec!["ssh", "ws", "--command", "ls"]);
    assert_eq!(devpod::provider_add_args("docker", &["-o", "X=1"]), vec!["provider", "add", "docker", "-o", "X=1"]);
    assert_eq!(devpod::import_args(&["a", "b"]), vec!["import", "a", "b"]);
}

#[test]
fn devpod_streaming_ssh_wraps_the_command() {
    let args = devpod::ssh_streaming_args("ws", "echo hi", None, Some("/src"));
    assert_eq!(args.len(), 6);
    assert_eq!(args[3], wrap_self_contained("echo hi"));
    assert_eq!(&args[4..], &["--workdir".to_string(), "/src".to_string()]);
}

#[test]
fn devpod_killer_signals_inside_the_workspace() {
    let k = DevpodKiller { workspace: "ws".to_string(), user: Some("dev".to_string()) };
    assert_eq!(
        k.kill_args(99, "TERM"),
        vec!["ssh", "ws", "--command", "kill -TERM -99 2>/dev/null || true", "--user", "dev"]
    );
    let k = DevpodKiller { workspace: "ws".to_string(), user: None };
    assert_eq!(k.kill_args(5, "KILL"), vec!["ssh", "ws", "--command", "kill -KILL -5 2>/dev/null || true"]);
}

#[test]
fn codespace_command_lines() {
    let args = codespaces::create_args("o/r", Some("main"), None, Some(".devcontainer/x.json"), None, Some("30m"));
    assert_eq!(
        args,
        vec!["create", "--repo", "o/r", "--branch", "main", "--devcontainer-path", ".devcontainer/x.json", "--idle-timeout", "30m"]
    );
    assert_eq!(codespaces::gh_codespace_args(&args)[0], "codespace");
    assert_eq!(codespaces::gh_codespace_args(&args).len(), args.len() + 1);
    assert_eq!(codespaces::list_args(Some("o/r")), vec!["list", "--json", codespaces::LIST_FIELDS, "--repo", "o/r"]);
    assert_eq!(codespaces::ssh_args("cs", "ls"), vec!["ssh", "-c", "cs", "--", "ls"]);
    assert_eq!(codespaces::stop_args("cs"), vec!["stop", "-c", "cs"]);
    assert_eq!(codespaces::delete_args("cs", true), vec!["delete", "-c", "cs", "--force"]);
    assert_eq!(codespaces::view_args("cs"), vec!["view", "-c", "cs", "--json", codespaces::VIEW_FIELDS]);
    assert_eq!(codespaces::ports_args("cs"), vec!["ports", "-c", "cs", "--json", "sourcePort,visibility,label,browseUrl"]);
}

#[test]
fn devcontainer_command_lines() {
    let extra = vec!["--remove-existing-container".to_string()];
    assert_eq!(
        devcontainer::up_args("/w", Some("/w/.devcontainer/devcontainer.json"), &extra),
        vec!["up", "--workspace-folder", "/w", "--config", "/w/.devcontainer/devcontainer.json", "--remove-existing-container"]
    );
    assert_eq!(devcontainer::build_args("/w", None, &vec![]), vec!["build", "--workspace-folder", "/w"]);
    assert_eq!(
        devcontainer::read_configuration_args("/w", None),
        vec!["read-configuration", "--workspace-folder", "/w", "--include-merged-configuration"]
    );
    assert_eq!(
        devcontainer::exec_args("cid", "/w", None, "ls", &vec!["-la".to_string()]),
        vec!["exec", "--container-id", "cid", "--workspace-folder", "/w", "ls", "-la"]
    );
    let args = devcontainer::exec_streaming_args("cid", "/w", None, "echo hi", "SHIM");
    assert_eq!(&args[5..], &["--remote-env", "DCMCP_USER_CMD=echo hi", "sh", "-c", "SHIM"]);
    assert_eq!(
        devcontainer::shim_user_command("sh", &vec!["-c".to_string(), "echo hi".to_string()]),
        "echo hi"
    );
    assert_eq!(devcontainer::shim_user_command("ls", &vec!["-la".to_string()]), "'ls' '-la'");
    assert_eq!(
        devcontainer::shim_user_command("echo", &vec!["it's".to_string(), "a b".to_string()]),
        "'echo' 'it'\\''s' 'a b'"
    );
    assert_eq!(devcontainer::shim_user_command("true", &vec![]), "'true'");
    assert_eq!(
        devcontainer::shim_user_command("sh", &vec!["-c".to_string()]),
        "'sh' '-c'"
    );
}

#[test]
fn file_edit_steps() {
    assert!(check_read("/a.txt", 0, "").is_ok());
    match check_read("/a.txt", 1, "No such file\n") {
        Err(Error::FileRead(m)) => assert_eq!(m, "Failed to read /a.txt: No such file"),
        other => panic!("unexpected {other:?}"),
    }
    assert_eq!(check_write("/a.txt", 0, "").unwrap(), "Edit applied to /a.txt");
    match check_write("/a.txt", 2, " read-only ") {
        Err(Error::FileEdit(m)) => assert_eq!(m, "Failed to write /a.txt: read-only"),
        other => panic!("unexpected {other:?}"),
    }
}
