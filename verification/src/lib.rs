//! Decisions of the Ditch runtime.

use vstd::prelude::*;

pub mod agent_output;
pub mod app_server;
pub mod clock;
pub mod codex_cli;
pub mod codex_models;
pub mod codex_places;
pub mod diagnostics;
pub mod edition;
pub mod git_command;
pub mod git_coordinator;
pub mod git_integration;
pub mod git_launch;
pub mod git_names;
pub mod git_overlap;
pub mod git_paths;
pub mod git_refresh;
pub mod git_resolution;
pub mod git_snapshot;
pub mod git_validation;
pub mod git_worktree;
pub mod history;
pub mod host_epochs;
pub mod ids;
pub mod json;
pub mod kept;
pub mod listing;
pub mod mobile;
pub mod model;
pub mod order;
pub mod paths;
pub mod project_files;
pub mod projection;
pub mod receipts;
pub mod records;
pub mod relay;
pub mod remote_command;
pub mod remote_hosts;
pub mod remote_machine;
pub mod remote_pairing;
pub mod remote_snapshot;
pub mod replay;
pub mod requests;
pub mod service;
pub mod sessions;
pub mod state;
pub mod targets;
pub mod text;
pub mod transport;
pub mod turns;

verus! {

} // verus!
