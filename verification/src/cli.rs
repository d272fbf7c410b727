//! The CLI binaries the server drives, the records of their output, and the
//! per-line and cancellation decisions of the process runner.

use vstd::prelude::*;
use crate::error::Error;
use crate::exec_shim::sentinel_pgid;
use crate::exec_shim::try_parse_sentinel;
use crate::json::JsonValue;
use crate::text::join;

verus! {

/// Which CLI binary to invoke.
#[derive(Debug, Clone, Copy, PartialEq, Eq, Structural)]
pub enum CliBinary {
    DevPod,
    Devcontainer,
    /// GitHub CLI — the actual binary is `gh`.
    Gh,
    /// Azure CLI
    Az,
    /// AWS CLI
    Aws,
    /// Google Cloud CLI
    Gcloud,
    /// Kubernetes CLI
    Kubectl,
}

/// The executable each binary is started as.
pub open spec fn binary_name(b: CliBinary) -> Seq<char> {
    match b {
        CliBinary::DevPod => "devpod"@,
        CliBinary::Devcontainer => "devcontainer"@,
        CliBinary::Gh => "gh"@,
        CliBinary::Az => "az"@,
        CliBinary::Aws => "aws"@,
        CliBinary::Gcloud => "gcloud"@,
        CliBinary::Kubectl => "kubectl"@,
    }
}

/// The error reported when the binary is not installed.
pub open spec fn missing_binary_error(b: CliBinary) -> Error {
    match b {
        CliBinary::DevPod => Error::DevPodNotFound,
        CliBinary::Devcontainer => Error::DevcontainerCliNotFound,
        CliBinary::Gh => Error::GhCliNotFound,
        CliBinary::Az => Error::AzCliNotFound,
        CliBinary::Aws => Error::AwsCliNotFound,
        CliBinary::Gcloud => Error::GcloudCliNotFound,
        CliBinary::Kubectl => Error::KubectlNotFound,
    }
}

impl CliBinary {
    /// The executable this binary is started as.
    pub fn command_name(&self) -> (r: &'static str)
        ensures
            r@ == binary_name(*self),
    {
        match self {
            CliBinary::DevPod => "devpod",
            CliBinary::Devcontainer => "devcontainer",
            CliBinary::Gh => "gh",
            CliBinary::Az => "az",
            CliBinary::Aws => "aws",
            CliBinary::Gcloud => "gcloud",
            CliBinary::Kubectl => "kubectl",
        }
    }

    /// The error reported when this binary is not installed.
    pub fn not_found_error(&self) -> (r: Error)
        ensures
            r == missing_binary_error(*self),
    {
        match self {
            CliBinary::DevPod => Error::DevPodNotFound,
            CliBinary::Devcontainer => Error::DevcontainerCliNotFound,
            CliBinary::Gh => Error::GhCliNotFound,
            CliBinary::Az => Error::AzCliNotFound,
            CliBinary::Aws => Error::AwsCliNotFound,
            CliBinary::Gcloud => Error::GcloudCliNotFound,
            CliBinary::Kubectl => Error::KubectlNotFound,
        }
    }
}

/// Raw output from a CLI invocation.
#[derive(Debug)]
pub struct CliOutput {
    pub exit_code: i32,
    pub stdout: String,
    pub stderr: String,
    /// Parsed JSON from stdout, if applicable.
    pub json: Option<JsonValue>,
}

/// The error of a process that could not be started: the binary's own
/// "not installed" error when it was not found, else the I/O error's text.
pub fn spawn_error(binary: CliBinary, not_found: bool, message: String) -> (r: Error)
    ensures
        not_found ==> r == missing_binary_error(binary),
        !not_found ==> (r matches Error::Io(m) && m@ == message@),
{
    if not_found {
        binary.not_found_error()
    } else {
        Error::Io(message)
    }
}

/// The exit code reported for a process: its own, or -1 when it was ended
/// by a signal and has none.
pub fn exit_code_or_unknown(code: Option<i32>) -> (r: i32)
    ensures
        r == match code {
            Some(c) => c,
            None => -1i32,
        },
{
    match code {
        Some(c) => c,
        None => -1,
    }
}

/// Which output stream a chunk came from.
#[derive(Debug, Clone, Copy, PartialEq, Eq, Structural)]
pub enum OutputStream {
    Stdout,
    Stderr,
}

/// A chunk of output from a streaming CLI invocation.
#[derive(Debug, Clone)]
pub struct OutputChunk {
    pub stream: OutputStream,
    /// One line of output (without trailing newline).
    pub line: String,
}

/// The text a stream reader accumulates, and whether it has read a line
/// yet (the text alone cannot tell: the first line may be empty).
#[derive(Debug, Clone)]
pub struct StreamText {
    pub text: String,
    pub any_line: bool,
}

impl StreamText {
    /// Nothing read yet.
    pub fn new() -> (r: StreamText)
        ensures
            r.text@ == Seq::<char>::empty(),
            !r.any_line,
    {
        StreamText { text: String::new(), any_line: false }
    }
}

/// The accumulated text after adding `line`: every line after the first is
/// preceded by `\n`, so no line, empty or not, is lost.
pub open spec fn with_line(text: Seq<char>, any_line: bool, line: Seq<char>) -> Seq<char> {
    if any_line {
        text + "\n"@ + line
    } else {
        text + line
    }
}

/// What reading one line does to the accumulated text, the read-a-line
/// flag and the captured process group: with `scrub_sentinel` set, a shim
/// announcement is captured and leaves the text alone; every other line is
/// added to the text.
pub open spec fn absorbed(state: (Seq<char>, bool, Option<i32>), line: Seq<char>, scrub_sentinel: bool) -> (Seq<char>, bool, Option<i32>) {
    if scrub_sentinel && sentinel_pgid(line) is Some {
        (state.0, state.1, sentinel_pgid(line))
    } else {
        (with_line(state.0, state.1, line), true, state.2)
    }
}

/// The state after reading `lines` in order, from empty text, no line read
/// and nothing captured.
pub open spec fn absorb_all(lines: Seq<Seq<char>>, scrub_sentinel: bool) -> (Seq<char>, bool, Option<i32>)
    decreases lines.len(),
{
    if lines.len() == 0 {
        (Seq::empty(), false, None)
    } else {
        absorbed(absorb_all(lines.drop_last(), scrub_sentinel), lines.last(), scrub_sentinel)
    }
}

/// The text a reader returns: newline terminated when a line was read.
pub open spec fn finished(text: Seq<char>, any_line: bool) -> Seq<char> {
    if any_line {
        text + "\n"@
    } else {
        text
    }
}

/// The lines that are no shim announcement, in order.
pub open spec fn unannounced(lines: Seq<Seq<char>>) -> Seq<Seq<char>>
    decreases lines.len(),
{
    if lines.len() == 0 {
        Seq::empty()
    } else if sentinel_pgid(lines.last()) is Some {
        unannounced(lines.drop_last())
    } else {
        unannounced(lines.drop_last()).push(lines.last())
    }
}

/// The process group of the last announcement among `lines`.
pub open spec fn last_announced(lines: Seq<Seq<char>>) -> Option<i32>
    decreases lines.len(),
{
    if lines.len() == 0 {
        None
    } else if sentinel_pgid(lines.last()) is Some {
        sentinel_pgid(lines.last())
    } else {
        last_announced(lines.drop_last())
    }
}

/// Reading keeps every line: the text is the lines joined by `\n`, a line
/// was read exactly when there was one, and, unscrubbed, nothing is
/// captured. So the returned output is every line, each newline
/// terminated.
pub proof fn law_reader_keeps_every_line(lines: Seq<Seq<char>>)
    ensures
        absorb_all(lines, false) == (join(lines, "\n"@), lines.len() > 0, None::<i32>),
    decreases lines.len(),
{
    if lines.len() > 0 {
        law_reader_keeps_every_line(lines.drop_last());
        if lines.len() == 1 {
            assert(Seq::<char>::empty() + lines[0] =~= lines[0]);
        }
    }
}

/// Scrubbing a stream is reading it with its announcement lines removed:
/// no announcement ever reaches the accumulated text, and what is captured
/// is the process group of the last one.
pub proof fn law_scrubbed_stream(lines: Seq<Seq<char>>)
    ensures
        absorb_all(lines, true) == (
            absorb_all(unannounced(lines), false).0,
            absorb_all(unannounced(lines), false).1,
            last_announced(lines),
        ),
    decreases lines.len(),
{
    if lines.len() > 0 {
        let prev = lines.drop_last();
        law_scrubbed_stream(prev);
        let kept = unannounced(prev).push(lines.last());
        assert(kept.drop_last() =~= unannounced(prev));
        assert(kept.last() == lines.last());
    }
}

/// What a stream reader does with one line (see [`absorbed`]); the line is
/// forwarded to the sink (`true` is returned) unless it was captured.
pub fn absorb_line(out: &mut StreamText, pgid: &mut Option<i32>, line: &str, scrub_sentinel: bool) -> (forward: bool)
    ensures
        (final(out).text@, final(out).any_line, *final(pgid)) == absorbed(
            (old(out).text@, old(out).any_line, *old(pgid)),
            line@,
            scrub_sentinel,
        ),
        forward == !(scrub_sentinel && sentinel_pgid(line@) is Some),
{
    if scrub_sentinel {
        match try_parse_sentinel(line) {
            Some(found) => {
                *pgid = Some(found);
                return false;
            },
            None => {},
        }
    }
    if out.any_line {
        out.text.append("\n");
    }
    out.text.append(line);
    out.any_line = true;
    true
}

/// The text a stream reader returns: the accumulated lines, newline
/// terminated when a line was read.
pub fn finish_output(out: StreamText) -> (r: String)
    ensures
        r@ == finished(out.text@, out.any_line),
{
    let mut text = out.text;
    if out.any_line {
        text.append("\n");
    }
    text
}

/// One step of tearing down a cancelled remote command.
#[derive(Debug, Clone)]
pub enum CancelStep {
    /// Deliver `signal` to process group `pgid` on the remote target.
    KillRemote { pgid: i32, signal: String },
    /// Pause for `millis` milliseconds.
    Wait { millis: u64 },
    /// Reap the host-side process tree of the wrapper.
    ReapHost,
}

/// The teardown order: with a captured remote process group, `TERM` it,
/// wait two seconds, `KILL` it, then reap the host side; without one, only
/// reap the host side.
pub open spec fn cancel_plan_ok(steps: Seq<CancelStep>, captured: Option<i32>) -> bool {
    match captured {
        Some(p) => steps.len() == 4 && (steps[0] matches CancelStep::KillRemote { pgid, signal }
            && pgid == p && signal@ == "TERM"@) && (steps[1] matches CancelStep::Wait { millis }
            && millis == 2000) && (steps[2] matches CancelStep::KillRemote { pgid, signal } && pgid
            == p && signal@ == "KILL"@) && steps[3] is ReapHost,
        None => steps.len() == 1 && steps[0] is ReapHost,
    }
}

/// Plan the teardown of a cancelled remote command.
pub fn cancel_steps(captured: Option<i32>) -> (r: Vec<CancelStep>)
    ensures
        cancel_plan_ok(r@, captured),
{
    let mut v: Vec<CancelStep> = Vec::new();
    match captured {
        Some(p) => {
            v.push(CancelStep::KillRemote { pgid: p, signal: String::from_str("TERM") });
            v.push(CancelStep::Wait { millis: 2000 });
            v.push(CancelStep::KillRemote { pgid: p, signal: String::from_str("KILL") });
        },
        None => {},
    }
    v.push(CancelStep::ReapHost);
    v
}

} // verus!
