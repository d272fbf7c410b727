use devcontainer_mcp_core::cli::{
    absorb_line, cancel_steps, exit_code_or_unknown, finish_output, spawn_error, CancelStep, CliBinary, StreamText,
};
use devcontainer_mcp_core::error::Error;

#[test]
fn binary_command_names() {
    assert_eq!(CliBinary::DevPod.command_name(), "devpod");
    assert_eq!(CliBinary::Devcontainer.command_name(), "devcontainer");
    assert_eq!(CliBinary::Gh.command_name(), "gh");
    assert_eq!(CliBinary::Az.command_name(), "az");
    assert_eq!(CliBinary::Aws.command_name(), "aws");
    assert_eq!(CliBinary::Gcloud.command_name(), "gcloud");
    assert_eq!(CliBinary::Kubectl.command_name(), "kubectl");
}

#[test]
fn spawn_errors() {
    assert!(matches!(spawn_error(CliBinary::Gh, true, "x".to_string()), Error::GhCliNotFound));
    assert!(matches!(spawn_error(CliBinary::Kubectl, true, "x".to_string()), Error::KubectlNotFound));
    match spawn_error(CliBinary::DevPod, false, "permission denied".to_string()) {
        Error::Io(m) => assert_eq!(m, "permission denied"),
        other => panic!("unexpected {other:?}"),
    }
    assert_eq!(exit_code_or_unknown(Some(3)), 3);
    assert_eq!(exit_code_or_unknown(None), -1);
}

#[test]
fn stream_reader_scrubs_the_announcement() {
    let mut buf = StreamText::new();
    let mut pgid = None;
    let mut forwarded = Vec::new();
    for line in ["starting", "\u{1b}[0m__DCMCP_PGID=4242__", "", "done"] {
        if absorb_line(&mut buf, &mut pgid, line, true) {
            forwarded.push(line);
        }
    }
    assert_eq!(pgid, Some(4242));
    assert_eq!(forwarded, vec!["starting", "", "done"]);
    assert_eq!(finish_output(buf), "starting\n\ndone\n");
}

#[test]
fn plain_stream_reader_keeps_every_line() {
    let mut buf = StreamText::new();
    let mut pgid = None;
    assert!(absorb_line(&mut buf, &mut pgid, "__DCMCP_PGID=1__", false));
    assert!(absorb_line(&mut buf, &mut pgid, "x", false));
    assert_eq!(pgid, None);
    assert_eq!(finish_output(buf), "__DCMCP_PGID=1__\nx\n");
    assert_eq!(finish_output(StreamText::new()), "");
}

#[test]
fn empty_first_lines_are_kept() {
    let mut buf = StreamText::new();
    let mut pgid = None;
    absorb_line(&mut buf, &mut pgid, "", false);
    absorb_line(&mut buf, &mut pgid, "abc", false);
    assert_eq!(finish_output(buf), "\nabc\n");
    let mut only_empty = StreamText::new();
    absorb_line(&mut only_empty, &mut pgid, "", false);
    assert_eq!(finish_output(only_empty), "\n");
}

#[test]
fn cancel_terminates_then_kills_then_reaps() {
    let steps = cancel_steps(Some(77));
    assert_eq!(steps.len(), 4);
    assert!(matches!(&steps[0], CancelStep::KillRemote { pgid: 77, signal } if signal == "TERM"));
    assert!(matches!(&steps[1], CancelStep::Wait { millis: 2000 }));
    assert!(matches!(&steps[2], CancelStep::KillRemote { pgid: 77, signal } if signal == "KILL"));
    assert!(matches!(&steps[3], CancelStep::ReapHost));
    let steps = cancel_steps(None);
    assert_eq!(steps.len(), 1);
    assert!(matches!(&steps[0], CancelStep::ReapHost));
}

#[test]
fn error_messages() {
    assert_eq!(
        Error::DevPodNotFound.message(),
        "DevPod CLI not found. Install from: https://devpod.sh/docs/getting-started/install"
    );
    assert_eq!(
        Error::DevPodCommand { exit_code: -2, stderr: "boom".to_string() }.message(),
        "DevPod command failed (exit code -2): boom"
    );
    assert_eq!(Error::Io("x".to_string()).message(), "IO error: x");
    assert_eq!(Error::Json("bad".to_string()).message(), "JSON error: bad");
    assert_eq!(Error::Docker("down".to_string()).message(), "Docker error: down");
}

#[test]
fn every_binary_has_its_not_installed_error() {
    let cases = [
        (CliBinary::DevPod, "DevPod CLI not found. Install from: https://devpod.sh/docs/getting-started/install"),
        (CliBinary::Devcontainer, "devcontainer CLI not found. Install with: npm install -g @devcontainers/cli"),
        (CliBinary::Gh, "GitHub CLI (gh) not found. Install from: https://cli.github.com/"),
        (CliBinary::Az, "Azure CLI (az) not found. Install from: https://learn.microsoft.com/en-us/cli/azure/install-azure-cli"),
        (CliBinary::Aws, "AWS CLI not found. Install from: https://docs.aws.amazon.com/cli/latest/userguide/getting-started-install.html"),
        (CliBinary::Gcloud, "Google Cloud CLI (gcloud) not found. Install from: https://cloud.google.com/sdk/docs/install"),
        (CliBinary::Kubectl, "kubectl not found. Install from: https://kubernetes.io/docs/tasks/tools/"),
    ];
    for (binary, text) in cases {
        assert_eq!(binary.not_found_error().message(), text);
        assert_eq!(spawn_error(binary, true, String::new()).message(), text);
    }
    assert_eq!(Error::Cancelled.message(), "Operation cancelled");
    assert_eq!(Error::FileRead("Failed to read /x: no".to_string()).message(), "Failed to read /x: no");
}
