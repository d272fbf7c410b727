//! Verified core of a dev-container management server: the exec shim and
//! the sentinel it announces, the stream reader and cancellation order of
//! the process runner, devcontainer.json summaries and resolution,
//! container lookup decisions, the command lines of the DevPod,
//! devcontainer, Codespaces and WSL backends, the auth providers' account
//! parsing and login outcomes, and process-tree discovery.

pub mod text;
pub mod json;
pub mod error;
pub mod exec_shim;
pub mod cli;
pub mod wsl;
pub mod devcontainer_config;
pub mod docker;
pub mod devcontainer;
pub mod devpod;
pub mod codespaces;
pub mod file_edit;
pub mod file_ops;
pub mod shell_args;
pub mod process_tree;
pub mod auth;
