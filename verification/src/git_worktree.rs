//! The worktrees that agents work in, as the runtime records them.

use crate::text::texts_of;
use vstd::prelude::*;

verus! {

/// Where a worktree stands in its life.
#[derive(Clone, Copy, Debug, PartialEq, Eq, Structural)]
pub enum WorktreeStatus {
    Creating,
    Ready,
    Active,
    Dirty,
    Waiting,
    Finished,
    CheckingMerge,
    ConflictRisk,
    Validating,
    NeedsReview,
    ReadyToApply,
    Applying,
    Integrated,
    Discarded,
    RecoveryNeeded,
}

/// Whether Git holds a worktree locked.
#[derive(Clone, Copy, Debug, PartialEq, Eq, Structural)]
pub enum WorktreeLockState {
    Unknown,
    Locked,
    Unlocked,
    Missing,
}

/// How two worktrees may get in each other's way.
#[derive(Clone, Copy, Debug, PartialEq, Eq, Structural)]
pub enum OverlapRisk {
    Absent,
    Intent,
    Path,
}

/// What stands against integrating a result.
#[derive(Clone, Copy, Debug, PartialEq, Eq, Structural)]
pub enum ConflictState {
    Absent,
    GitConflict,
    ValidationFailed,
}

/// How far the integration of a result has come.
#[derive(Clone, Copy, Debug, PartialEq, Eq, Structural)]
pub enum IntegrationState {
    NotRequested,
    Queued,
    Checking,
    Validating,
    Ready,
    Blocked,
    Conflict,
    Applied,
}

/// What the combined checks of a result have shown.
#[derive(Clone, Copy, Debug, PartialEq, Eq, Structural)]
pub enum ValidationState {
    NotRun,
    Running,
    Passed,
    Failed,
    NotConfigured,
}

/// One combined check and its outcome.
#[derive(Debug)]
pub struct ValidationCheck {
    pub name: String,
    pub passed: bool,
    pub exit_code: Option<i32>,
    pub output: String,
}

/// What an agent is expected to change.
#[derive(Debug)]
pub struct ChangeIntent {
    pub summary: String,
    pub expected_paths: Vec<String>,
    pub shared_paths: Vec<String>,
}

/// A worktree that the runtime manages for one session.
#[derive(Debug)]
pub struct ManagedWorktree {
    pub id: u128,
    pub project_id: u128,
    pub session_id: u128,
    pub path: String,
    pub agent_cwd: String,
    pub branch_name: String,
    pub base_branch: String,
    pub base_commit_oid: String,
    pub target_branch: String,
    pub target_oid_at_start: String,
    pub head_oid: String,
    pub checkpoint_oid: Option<String>,
    pub candidate_oid: Option<String>,
    pub candidate_target_oid: Option<String>,
    pub candidate_checkpoint_oid: Option<String>,
    pub resolution_path: Option<String>,
    pub resolution_branch: Option<String>,
    pub resolution_target_oid: Option<String>,
    pub status: WorktreeStatus,
    pub lock_state: WorktreeLockState,
    pub dirty: bool,
    pub changed_paths: Vec<String>,
    pub intent: Option<ChangeIntent>,
    pub overlap_override: bool,
    pub overlapping_session_ids: Vec<u128>,
    pub overlapping_paths: Vec<String>,
    pub overlap_risk: OverlapRisk,
    pub conflict_state: ConflictState,
    pub integration_state: IntegrationState,
    pub validation_state: ValidationState,
    pub validation_checks: Vec<ValidationCheck>,
    pub operation: Option<String>,
    pub last_error: Option<String>,
    pub created_at: i64,
    pub updated_at: i64,
    pub last_reconciled_at: Option<i64>,
}

/// The paths that an intent names, expected and shared.
pub open spec fn intent_paths(intent: Option<ChangeIntent>) -> Option<Seq<Seq<char>>> {
    match intent {
        Some(intent) => Some(texts_of(intent.expected_paths@) + texts_of(intent.shared_paths@)),
        None => None,
    }
}

/// Whether a worktree's work is over.
pub open spec fn is_terminal(status: WorktreeStatus) -> bool {
    status == WorktreeStatus::Integrated || status == WorktreeStatus::Discarded
}

/// Whether a worktree's work is over.
pub fn terminal_worktree(worktree: &ManagedWorktree) -> (r: bool)
    ensures
        r == is_terminal(worktree.status),
{
    matches!(worktree.status, WorktreeStatus::Integrated | WorktreeStatus::Discarded)
}

} // verus!
