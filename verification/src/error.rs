//! The library's error type.

use vstd::prelude::*;
use crate::text::{signed_decimal, signed_decimal_string};

verus! {

/// Unified error type. Failures of outside services are carried as their
/// message text.
#[derive(Debug, Clone)]
pub enum Error {
    Docker(String),
    DevPodNotFound,
    DevcontainerCliNotFound,
    GhCliNotFound,
    AzCliNotFound,
    AwsCliNotFound,
    GcloudCliNotFound,
    KubectlNotFound,
    DevPodCommand { exit_code: i32, stderr: String },
    Io(String),
    Json(String),
    Cancelled,
    FileRead(String),
    FileEdit(String),
}

/// The human-readable text of an error.
pub open spec fn error_text(e: Error) -> Seq<char> {
    match e {
        Error::Docker(m) => "Docker error: "@ + m@,
        Error::DevPodNotFound => "DevPod CLI not found. Install from: https://devpod.sh/docs/getting-started/install"@,
        Error::DevcontainerCliNotFound => "devcontainer CLI not found. Install with: npm install -g @devcontainers/cli"@,
        Error::GhCliNotFound => "GitHub CLI (gh) not found. Install from: https://cli.github.com/"@,
        Error::AzCliNotFound => "Azure CLI (az) not found. Install from: https://learn.microsoft.com/en-us/cli/azure/install-azure-cli"@,
        Error::AwsCliNotFound => "AWS CLI not found. Install from: https://docs.aws.amazon.com/cli/latest/userguide/getting-started-install.html"@,
        Error::GcloudCliNotFound => "Google Cloud CLI (gcloud) not found. Install from: https://cloud.google.com/sdk/docs/install"@,
        Error::KubectlNotFound => "kubectl not found. Install from: https://kubernetes.io/docs/tasks/tools/"@,
        Error::DevPodCommand { exit_code, stderr } => "DevPod command failed (exit code "@
            + signed_decimal(exit_code as int) + "): "@ + stderr@,
        Error::Io(m) => "IO error: "@ + m@,
        Error::Json(m) => "JSON error: "@ + m@,
        Error::Cancelled => "Operation cancelled"@,
        Error::FileRead(m) => m@,
        Error::FileEdit(m) => m@,
    }
}

impl Error {
    /// The human-readable text of this error.
    pub fn message(&self) -> (r: String)
        ensures
            r@ == error_text(*self),
    {
        match self {
            Error::Docker(m) => {
                let mut s = String::from_str("Docker error: ");
                s.append(m.as_str());
                s
            },
            Error::DevPodNotFound => String::from_str(
                "DevPod CLI not found. Install from: https://devpod.sh/docs/getting-started/install",
            ),
            Error::DevcontainerCliNotFound => String::from_str(
                "devcontainer CLI not found. Install with: npm install -g @devcontainers/cli",
            ),
            Error::GhCliNotFound => String::from_str(
                "GitHub CLI (gh) not found. Install from: https://cli.github.com/",
            ),
            Error::AzCliNotFound => String::from_str(
                "Azure CLI (az) not found. Install from: https://learn.microsoft.com/en-us/cli/azure/install-azure-cli",
            ),
            Error::AwsCliNotFound => String::from_str(
                "AWS CLI not found. Install from: https://docs.aws.amazon.com/cli/latest/userguide/getting-started-install.html",
            ),
            Error::GcloudCliNotFound => String::from_str(
                "Google Cloud CLI (gcloud) not found. Install from: https://cloud.google.com/sdk/docs/install",
            ),
            Error::KubectlNotFound => String::from_str(
                "kubectl not found. Install from: https://kubernetes.io/docs/tasks/tools/",
            ),
            Error::DevPodCommand { exit_code, stderr } => {
                let mut s = String::from_str("DevPod command failed (exit code ");
                let code = signed_decimal_string(*exit_code as i64);
                s.append(code.as_str());
                s.append("): ");
                s.append(stderr.as_str());
                s
            },
            Error::Io(m) => {
                let mut s = String::from_str("IO error: ");
                s.append(m.as_str());
                s
            },
            Error::Json(m) => {
                let mut s = String::from_str("JSON error: ");
                s.append(m.as_str());
                s
            },
            Error::Cancelled => String::from_str("Operation cancelled"),
            Error::FileRead(m) => m.clone(),
            Error::FileEdit(m) => m.clone(),
        }
    }
}

} // verus!
