//! From an agent's work to the project: checkpoints, candidates, checks, review
//! and application.

use crate::git_command::{
    branch_of, branch_ref, branch_reference, changed_paths, commit_tree, commit_tree_args, failure_detail,
    first_oid, git_bytes, git_ok, git_text, leading_oid, output_detail, parent_args, reply_bytes, reply_paths, reply_text,
    rev_parse, symbolic_head, update_internal_ref, update_ref, update_ref_args, zero_oid, GitReply,
};
use crate::git_coordinator::GitCoordinator;
use crate::git_paths::{
    fault, filled_fields, git_error, named_changes, of_task, parse_name_status_z, task_text, user_changed_paths,
    user_paths, ChangeView, GitError, GitFault, WorktreeFileChange,
};
use crate::git_refresh::SeenWorktree;
use crate::git_worktree::{
    ConflictState, IntegrationState, ManagedWorktree, ValidationCheck, ValidationState, WorktreeStatus,
};
use crate::ids::{hyphenated, id_hex, id_text, simple_hex};
use crate::order::{in_order, lemma_in_order};
use crate::paths::{join_path, joined_path};
use crate::text::{
    begins_with, borrowed, copy_text, first_chars, is_text, lossy_text, pieces, same_optional_text, same_text,
    take_chars, text_list, text_lossy, text_of, texts_of, trim, trimmed,
};
use vstd::prelude::*;
use vstd::string::*;
use vstd::utf8::{decode_utf8, valid_utf8};

verus! {

/// The reference that keeps the checkpoint of a session.
pub open spec fn checkpoint_ref(session_id: u128) -> Seq<char> {
    "refs/ditch/checkpoints/"@ + hyphenated(session_id)
}

/// The reference that keeps the candidate of a session.
pub open spec fn candidate_ref(session_id: u128) -> Seq<char> {
    "refs/ditch/candidates/"@ + hyphenated(session_id)
}

/// A text followed by the identifier of a session.
fn with_session(text: &str, session_id: u128) -> (r: String)
    ensures
        r@ == text@ + hyphenated(session_id),
{
    let mut r = text.to_owned();
    r.append(id_text(session_id).as_str());
    r
}

/// How far a checkpoint has come: which command was last run.
#[derive(Debug)]
pub enum CheckpointStep {
    ReadTree,
    AddAll,
    WriteTree,
    Parent { tree: String },
    Commit,
    Reference { commit: String },
}

/// What a checkpoint does next: run a command, or hand the checkpoint out.
#[derive(Debug)]
pub enum CheckpointProgress {
    Run { args: Vec<String>, step: CheckpointStep },
    Done { checkpoint: String },
}

/// Whether the next thing is a command with the given arguments.
pub open spec fn runs(r: Result<CheckpointProgress, GitError>, args: Seq<Seq<char>>) -> bool {
    r matches Ok(CheckpointProgress::Run { args: actual, .. }) && texts_of(actual@) == args
}

/// Whether a checkpoint goes on as it should after a command.
pub open spec fn checkpoint_moves(
    before: ManagedWorktree,
    after: ManagedWorktree,
    step: CheckpointStep,
    reply: GitReply,
    now: i64,
    r: Result<CheckpointProgress, GitError>,
) -> bool {
    match step {
        CheckpointStep::ReadTree => after == before && match reply_bytes(reply) {
            Err(e) => r matches Err(f) && f@ == e,
            Ok(_) => runs(r, seq!["add"@, "-A"@]) && r->Ok_0->step is AddAll,
        },
        CheckpointStep::AddAll => after == before && match reply_bytes(reply) {
            Err(e) => r matches Err(f) && f@ == e,
            Ok(_) => runs(r, seq!["write-tree"@]) && r->Ok_0->step is WriteTree,
        },
        CheckpointStep::WriteTree => after == before && match reply_text(reply) {
            Err(e) => r matches Err(f) && f@ == e,
            Ok(tree) => runs(r, seq!["rev-parse"@, "--verify"@, "HEAD"@]) && (r->Ok_0->step matches CheckpointStep::Parent {
                tree: t,
            } && t@ == tree),
        },
        CheckpointStep::Parent { tree } => after == before && match reply_text(reply) {
            Err(e) => r matches Err(f) && f@ == e,
            Ok(parent) => runs(
                r,
                commit_tree_args(
                    tree@,
                    seq![parent],
                    "Ditch checkpoint for session "@ + hyphenated(before.session_id),
                ),
            ) && r->Ok_0->step is Commit,
        },
        CheckpointStep::Commit => after == before && match reply_text(reply) {
            Err(e) => r matches Err(f) && f@ == e,
            Ok(commit) => runs(
                r,
                update_ref_args(
                    checkpoint_ref(before.session_id),
                    commit,
                    match before.checkpoint_oid {
                        Some(old) => old@,
                        None => zero_oid(),
                    },
                ),
            ) && (r->Ok_0->step matches CheckpointStep::Reference { commit: c } && c@ == commit),
        },
        CheckpointStep::Reference { commit } => match reply_bytes(reply) {
            Err(e) => after == before && (r matches Err(f) && f@ == e),
            Ok(_) => {
                &&& r matches Ok(CheckpointProgress::Done { checkpoint }) && checkpoint@ == commit@
                &&& text_of(after.checkpoint_oid) == Some(commit@)
                &&& after == (ManagedWorktree {
                    checkpoint_oid: after.checkpoint_oid,
                    status: WorktreeStatus::Finished,
                    integration_state: IntegrationState::NotRequested,
                    updated_at: now,
                    ..before
                })
            },
        },
    }
}

proof fn lemma_internal_refs(session_id: u128)
    ensures
        begins_with(checkpoint_ref(session_id), "refs/ditch/"@),
        begins_with(candidate_ref(session_id), "refs/ditch/"@),
{
    reveal_strlit("refs/ditch/");
    reveal_strlit("refs/ditch/checkpoints/");
    reveal_strlit("refs/ditch/candidates/");
    assert(checkpoint_ref(session_id).subrange(0, 11) =~= "refs/ditch/"@);
    assert(candidate_ref(session_id).subrange(0, 11) =~= "refs/ditch/"@);
}

impl GitCoordinator {
    /// The first command of a checkpoint, in an index of its own, once the record
    /// of the worktree is up to date.
    pub fn begin_checkpoint(&self, worktree: &ManagedWorktree) -> (r: Result<Vec<String>, GitError>)
        ensures
            match r {
                Ok(args) => worktree.status != WorktreeStatus::RecoveryNeeded && texts_of(args@)
                    == seq!["read-tree"@, "HEAD"@],
                Err(e) => worktree.status == WorktreeStatus::RecoveryNeeded && e@ == fault(
                    "worktree_recovery_needed"@,
                    match worktree.last_error {
                        Some(reason) => reason@,
                        None => Seq::empty(),
                    },
                ),
            },
    {
        if matches!(worktree.status, WorktreeStatus::RecoveryNeeded) {
            return match &worktree.last_error {
                Some(reason) => Err(git_error("worktree_recovery_needed", reason.as_str())),
                None => {
                    let empty = String::new();
                    Err(git_error("worktree_recovery_needed", empty.as_str()))
                },
            };
        }
        let args = text_list(["read-tree", "HEAD"]);
        assert(texts_of(args@) =~= seq!["read-tree"@, "HEAD"@]);
        Ok(args)
    }

    /// What a checkpoint does after a command.
    pub fn checkpoint(
        &self,
        worktree: &mut ManagedWorktree,
        step: CheckpointStep,
        reply: &GitReply,
        now: i64,
    ) -> (r: Result<CheckpointProgress, GitError>)
        ensures
            checkpoint_moves(*old(worktree), *final(worktree), step, *reply, now, r),
    {
        match step {
            CheckpointStep::ReadTree => match git_ok(reply) {
                Err(e) => Err(e),
                Ok(()) => {
                    let args = text_list(["add", "-A"]);
                    assert(texts_of(args@) =~= seq!["add"@, "-A"@]);
                    Ok(CheckpointProgress::Run { args, step: CheckpointStep::AddAll })
                },
            },
            CheckpointStep::AddAll => match git_ok(reply) {
                Err(e) => Err(e),
                Ok(()) => {
                    let args = text_list(["write-tree"]);
                    assert(texts_of(args@) =~= seq!["write-tree"@]);
                    Ok(CheckpointProgress::Run { args, step: CheckpointStep::WriteTree })
                },
            },
            CheckpointStep::WriteTree => match git_text(reply) {
                Err(e) => Err(e),
                Ok(tree) => Ok(
                    CheckpointProgress::Run {
                        args: rev_parse("HEAD"),
                        step: CheckpointStep::Parent { tree },
                    },
                ),
            },
            CheckpointStep::Parent { tree } => match git_text(reply) {
                Err(e) => Err(e),
                Ok(parent) => {
                    let message = with_session("Ditch checkpoint for session ", worktree.session_id);
                    let parents = text_list([parent.as_str()]);
                    assert(texts_of(parents@) =~= seq![parent@]);
                    let args = commit_tree(tree.as_str(), &parents, message.as_str());
                    Ok(CheckpointProgress::Run { args, step: CheckpointStep::Commit })
                },
            },
            CheckpointStep::Commit => match git_text(reply) {
                Err(e) => Err(e),
                Ok(commit) => {
                    let reference = with_session("refs/ditch/checkpoints/", worktree.session_id);
                    proof {
                        lemma_internal_refs(worktree.session_id);
                    }
                    match update_internal_ref(
                        reference.as_str(),
                        commit.as_str(),
                        borrowed(&worktree.checkpoint_oid),
                    ) {
                        Err(e) => Err(e),
                        Ok(args) => Ok(
                            CheckpointProgress::Run { args, step: CheckpointStep::Reference { commit } },
                        ),
                    }
                },
            },
            CheckpointStep::Reference { commit } => match git_ok(reply) {
                Err(e) => Err(e),
                Ok(()) => {
                    worktree.checkpoint_oid = Some(commit.clone());
                    worktree.status = WorktreeStatus::Finished;
                    worktree.integration_state = IntegrationState::NotRequested;
                    worktree.updated_at = now;
                    Ok(CheckpointProgress::Done { checkpoint: commit })
                },
            },
        }
    }
}

/// How far an integration has come: which command was last run.
#[derive(Debug)]
pub enum IntegrationStep {
    Target { checkpoint: String },
    Merge { checkpoint: String, target: String },
    Commit { checkpoint: String, target: String },
    Reference { checkpoint: String, target: String, candidate: String },
}

/// What an integration does next: run a command, stop at a conflict, or check
/// the candidate.
#[derive(Debug)]
pub enum IntegrationProgress {
    Run { args: Vec<String>, step: IntegrationStep },
    Conflict,
    Check { candidate: String },
}

/// The arguments that merge two commits without touching any workspace.
pub open spec fn merge_tree_args(target: Seq<char>, checkpoint: Seq<char>) -> Seq<Seq<char>> {
    seq![
        "merge-tree"@,
        "--write-tree"@,
        "--messages"@,
        "--name-only"@,
        "-z"@,
        target,
        checkpoint,
    ]
}

/// Whether the record shows that a candidate is being checked.
pub open spec fn candidate_recorded(
    before: ManagedWorktree,
    after: ManagedWorktree,
    candidate: Seq<char>,
    target: Seq<char>,
    checkpoint: Seq<char>,
) -> bool {
    &&& text_of(after.candidate_oid) == Some(candidate)
    &&& text_of(after.candidate_target_oid) == Some(target)
    &&& text_of(after.candidate_checkpoint_oid) == Some(checkpoint)
    &&& after == (ManagedWorktree {
        candidate_oid: after.candidate_oid,
        candidate_target_oid: after.candidate_target_oid,
        candidate_checkpoint_oid: after.candidate_checkpoint_oid,
        conflict_state: ConflictState::Absent,
        status: WorktreeStatus::Validating,
        integration_state: IntegrationState::Validating,
        validation_state: ValidationState::Running,
        ..before
    })
}

/// Whether an integration goes on as it should after a command.
pub open spec fn integration_moves(
    before: ManagedWorktree,
    after: ManagedWorktree,
    step: IntegrationStep,
    reply: GitReply,
    now: i64,
    r: Result<IntegrationProgress, GitError>,
) -> bool {
    match step {
        IntegrationStep::Target { checkpoint } => after == before && match reply_text(reply) {
            Err(e) => r matches Err(f) && f@ == e,
            Ok(target) => {
                &&& r matches Ok(IntegrationProgress::Run { args, step: next })
                &&& texts_of(args@) == merge_tree_args(target, checkpoint@)
                &&& next matches IntegrationStep::Merge { checkpoint: c, target: t }
                &&& c@ == checkpoint@
                &&& t@ == target
            },
        },
        IntegrationStep::Merge { checkpoint, target } => match reply {
            GitReply::NotRun(description) => after == before && (r matches Err(f) && f@ == fault(
                "git_io_failed"@,
                description@,
            )),
            GitReply::Ended { code, stdout, stderr } => if code == Some(0i32) {
                after == before && match leading_oid(stdout@) {
                    None => r matches Err(f) && f@ == fault(
                        "merge_tree_invalid"@,
                        "Git did not return a merge result tree"@,
                    ),
                    Some(tree) => {
                        &&& r matches Ok(IntegrationProgress::Run { args, step: next })
                        &&& texts_of(args@) == commit_tree_args(
                            tree,
                            seq![target@, checkpoint@],
                            "Ditch integration candidate for session "@ + hyphenated(before.session_id),
                        )
                        &&& next matches IntegrationStep::Commit { checkpoint: c, target: t }
                        &&& c@ == checkpoint@
                        &&& t@ == target@
                    },
                }
            } else if code == Some(1i32) {
                &&& r matches Ok(IntegrationProgress::Conflict)
                &&& text_of(after.last_error) == Some(failure_detail(stdout@, stderr@))
                &&& text_of(after.candidate_target_oid) == Some(target@)
                &&& after == (ManagedWorktree {
                    status: WorktreeStatus::ConflictRisk,
                    conflict_state: ConflictState::GitConflict,
                    integration_state: IntegrationState::Conflict,
                    last_error: after.last_error,
                    candidate_oid: None,
                    candidate_target_oid: after.candidate_target_oid,
                    candidate_checkpoint_oid: None,
                    updated_at: now,
                    ..before
                })
            } else {
                after == before && (r matches Err(f) && f@ == fault(
                    "merge_tree_failed"@,
                    failure_detail(stdout@, stderr@),
                ))
            },
        },
        IntegrationStep::Commit { checkpoint, target } => after == before && match reply_text(reply) {
            Err(e) => r matches Err(f) && f@ == e,
            Ok(candidate) => {
                &&& r matches Ok(IntegrationProgress::Run { args, step: next })
                &&& texts_of(args@) == update_ref_args(
                    candidate_ref(before.session_id),
                    candidate,
                    match before.candidate_oid {
                        Some(old) => old@,
                        None => zero_oid(),
                    },
                )
                &&& next matches IntegrationStep::Reference { checkpoint: c, target: t, candidate: n }
                &&& c@ == checkpoint@
                &&& t@ == target@
                &&& n@ == candidate
            },
        },
        IntegrationStep::Reference { checkpoint, target, candidate } => match reply_bytes(reply) {
            Err(e) => after == before && (r matches Err(f) && f@ == e),
            Ok(_) => {
                &&& r matches Ok(IntegrationProgress::Check { candidate: n })
                &&& n@ == candidate@
                &&& candidate_recorded(before, after, candidate@, target@, checkpoint@)
            },
        },
    }
}

/// Records that a candidate is being checked.
pub fn record_candidate(worktree: &mut ManagedWorktree, candidate: &str, target: String, checkpoint: String)
    ensures
        candidate_recorded(*old(worktree), *final(worktree), candidate@, target@, checkpoint@),
{
    worktree.candidate_oid = Some(candidate.to_owned());
    worktree.candidate_target_oid = Some(target);
    worktree.candidate_checkpoint_oid = Some(checkpoint);
    worktree.conflict_state = ConflictState::Absent;
    worktree.status = WorktreeStatus::Validating;
    worktree.integration_state = IntegrationState::Validating;
    worktree.validation_state = ValidationState::Running;
}

impl GitCoordinator {
    /// Starts the integration of a checkpoint: looks its target up.
    pub fn begin_integration(&self, worktree: &mut ManagedWorktree) -> (r: Result<
        (Vec<String>, IntegrationStep),
        GitError,
    >)
        ensures
            final(worktree).validation_checks@.len() == 0,
            *final(worktree) == (ManagedWorktree {
                status: WorktreeStatus::CheckingMerge,
                integration_state: IntegrationState::Checking,
                validation_checks: final(worktree).validation_checks,
                ..*old(worktree)
            }),
            match r {
                Ok((args, step)) => {
                    &&& old(worktree).checkpoint_oid is Some
                    &&& texts_of(args@) == seq![
                        "rev-parse"@,
                        "--verify"@,
                        branch_ref(old(worktree).target_branch@),
                    ]
                    &&& step matches IntegrationStep::Target { checkpoint }
                    &&& Some(checkpoint@) == text_of(old(worktree).checkpoint_oid)
                },
                Err(e) => old(worktree).checkpoint_oid is None && e@ == fault(
                    "checkpoint_missing"@,
                    "The agent work has not been checkpointed"@,
                ),
            },
    {
        worktree.status = WorktreeStatus::CheckingMerge;
        worktree.integration_state = IntegrationState::Checking;
        worktree.validation_checks = Vec::new();
        match &worktree.checkpoint_oid {
            None => Err(git_error("checkpoint_missing", "The agent work has not been checkpointed")),
            Some(checkpoint) => {
                let reference = branch_reference(worktree.target_branch.as_str());
                Ok(
                    (
                        rev_parse(reference.as_str()),
                        IntegrationStep::Target { checkpoint: checkpoint.clone() },
                    ),
                )
            },
        }
    }

    /// What an integration does after a command.
    pub fn prepare_integration(
        &self,
        worktree: &mut ManagedWorktree,
        step: IntegrationStep,
        reply: &GitReply,
        now: i64,
    ) -> (r: Result<IntegrationProgress, GitError>)
        ensures
            integration_moves(*old(worktree), *final(worktree), step, *reply, now, r),
    {
        match step {
            IntegrationStep::Target { checkpoint } => match git_text(reply) {
                Err(e) => Err(e),
                Ok(target) => {
                    let args = text_list(
                        [
                            "merge-tree",
                            "--write-tree",
                            "--messages",
                            "--name-only",
                            "-z",
                            target.as_str(),
                            checkpoint.as_str(),
                        ],
                    );
                    assert(texts_of(args@) =~= merge_tree_args(target@, checkpoint@));
                    Ok(
                        IntegrationProgress::Run {
                            args,
                            step: IntegrationStep::Merge { checkpoint, target },
                        },
                    )
                },
            },
            IntegrationStep::Merge { checkpoint, target } => match reply {
                GitReply::NotRun(description) => Err(GitError::from_io(description.as_str())),
                GitReply::Ended { code, stdout, stderr } => {
                    let exit: i64 = match code {
                        Some(value) => *value as i64,
                        None => -1,
                    };
                    let signalled = code.is_none();
                    if !signalled && exit == 0 {
                        match first_oid(stdout.as_slice()) {
                            None => Err(
                                git_error("merge_tree_invalid", "Git did not return a merge result tree"),
                            ),
                            Some(tree) => {
                                let message = with_session(
                                    "Ditch integration candidate for session ",
                                    worktree.session_id,
                                );
                                let parents = text_list([target.as_str(), checkpoint.as_str()]);
                                assert(texts_of(parents@) =~= seq![target@, checkpoint@]);
                                let args = commit_tree(tree.as_str(), &parents, message.as_str());
                                Ok(
                                    IntegrationProgress::Run {
                                        args,
                                        step: IntegrationStep::Commit { checkpoint, target },
                                    },
                                )
                            },
                        }
                    } else if !signalled && exit == 1 {
                        worktree.status = WorktreeStatus::ConflictRisk;
                        worktree.conflict_state = ConflictState::GitConflict;
                        worktree.integration_state = IntegrationState::Conflict;
                        worktree.last_error = Some(output_detail(stdout.as_slice(), stderr.as_slice()));
                        worktree.candidate_oid = None;
                        worktree.candidate_target_oid = Some(target);
                        worktree.candidate_checkpoint_oid = None;
                        worktree.updated_at = now;
                        Ok(IntegrationProgress::Conflict)
                    } else {
                        let detail = output_detail(stdout.as_slice(), stderr.as_slice());
                        Err(git_error("merge_tree_failed", detail.as_str()))
                    }
                },
            },
            IntegrationStep::Commit { checkpoint, target } => match git_text(reply) {
                Err(e) => Err(e),
                Ok(candidate) => {
                    let reference = with_session("refs/ditch/candidates/", worktree.session_id);
                    proof {
                        lemma_internal_refs(worktree.session_id);
                    }
                    match update_internal_ref(
                        reference.as_str(),
                        candidate.as_str(),
                        borrowed(&worktree.candidate_oid),
                    ) {
                        Err(e) => Err(e),
                        Ok(args) => Ok(
                            IntegrationProgress::Run {
                                args,
                                step: IntegrationStep::Reference { checkpoint, target, candidate },
                            },
                        ),
                    }
                },
            },
            IntegrationStep::Reference { checkpoint, target, candidate } => match git_ok(reply) {
                Err(e) => Err(e),
                Ok(()) => {
                    record_candidate(worktree, candidate.as_str(), target, checkpoint);
                    Ok(IntegrationProgress::Check { candidate })
                },
            },
        }
    }
}

/// Whether every check passed, and there was one.
pub open spec fn all_passed(checks: Seq<ValidationCheck>) -> bool {
    checks.len() > 0 && forall|i: int| 0 <= i < checks.len() ==> (#[trigger] checks[i]).passed
}

/// Whether the record shows the outcome of the combined checks.
pub open spec fn validation_recorded(
    before: ManagedWorktree,
    after: ManagedWorktree,
    checks: Vec<ValidationCheck>,
) -> bool {
    if all_passed(checks@) {
        after == (ManagedWorktree {
            validation_checks: checks,
            status: WorktreeStatus::ReadyToApply,
            integration_state: IntegrationState::Ready,
            validation_state: ValidationState::Passed,
            conflict_state: ConflictState::Absent,
            last_error: None,
            ..before
        })
    } else {
        let configured = checks@.len() > 0;
        &&& text_of(after.last_error) == Some(
            if configured {
                "Combined validation failed"@
            } else {
                "No combined validation command is configured for this project"@
            },
        )
        &&& after == (ManagedWorktree {
            validation_checks: checks,
            status: WorktreeStatus::NeedsReview,
            integration_state: IntegrationState::Blocked,
            validation_state: if configured {
                ValidationState::Failed
            } else {
                ValidationState::NotConfigured
            },
            conflict_state: if configured {
                ConflictState::ValidationFailed
            } else {
                ConflictState::Absent
            },
            last_error: after.last_error,
            ..before
        })
    }
}

/// Records the outcome of the combined checks.
pub fn set_validation_result(worktree: &mut ManagedWorktree, checks: Vec<ValidationCheck>)
    ensures
        validation_recorded(*old(worktree), *final(worktree), checks),
{
    let configured = checks.len() > 0;
    let mut passed = configured;
    let mut i: usize = 0;
    while i < checks.len()
        invariant
            0 <= i <= checks.len(),
            configured == (checks@.len() > 0),
            passed == (configured && forall|k: int| 0 <= k < i ==> (#[trigger] checks@[k]).passed),
        decreases checks.len() - i,
    {
        if !checks[i].passed {
            passed = false;
        }
        i += 1;
    }
    worktree.validation_checks = checks;
    if passed {
        worktree.status = WorktreeStatus::ReadyToApply;
        worktree.integration_state = IntegrationState::Ready;
        worktree.validation_state = ValidationState::Passed;
        worktree.conflict_state = ConflictState::Absent;
        worktree.last_error = None;
    } else {
        worktree.status = WorktreeStatus::NeedsReview;
        worktree.conflict_state = if configured {
            ConflictState::ValidationFailed
        } else {
            ConflictState::Absent
        };
        worktree.integration_state = IntegrationState::Blocked;
        worktree.validation_state = if configured {
            ValidationState::Failed
        } else {
            ValidationState::NotConfigured
        };
        worktree.last_error = Some(
            if configured {
                "Combined validation failed".to_owned()
            } else {
                "No combined validation command is configured for this project".to_owned()
            },
        );
    }
}

/// How a check command ended.
#[derive(Debug)]
pub enum CheckEnd {
    NotRun(String),
    Ended { code: Option<i32>, stdout: Vec<u8>, stderr: Vec<u8> },
}

/// What a check printed.
pub open spec fn check_detail(stdout: Seq<u8>, stderr: Seq<u8>) -> Seq<char> {
    let out = trimmed(lossy_text(stdout));
    let err = trimmed(lossy_text(stderr));
    if out.len() == 0 && err.len() == 0 {
        "Validation completed without output"@
    } else if err.len() == 0 {
        out
    } else if out.len() == 0 {
        err
    } else {
        out + "\n"@ + err
    }
}

/// What a check printed.
pub fn validation_output_detail(stdout: &[u8], stderr: &[u8]) -> (r: String)
    ensures
        r@ == check_detail(stdout@, stderr@),
{
    let out = trim(text_lossy(stdout).as_str());
    let err = trim(text_lossy(stderr).as_str());
    if out.as_str().is_empty() && err.as_str().is_empty() {
        "Validation completed without output".to_owned()
    } else if err.as_str().is_empty() {
        out
    } else if out.as_str().is_empty() {
        err
    } else {
        let mut r = out;
        r.append("\n");
        r.append(err.as_str());
        r
    }
}

/// Whether a check records how its command ended.
pub open spec fn check_recorded(check: ValidationCheck, name: Seq<char>, end: CheckEnd) -> bool {
    &&& check.name@ == name
    &&& match end {
        CheckEnd::NotRun(message) => !check.passed && check.exit_code is None && check.output@ == message@,
        CheckEnd::Ended { code, stdout, stderr } => {
            &&& check.passed == (code == Some(0i32))
            &&& check.exit_code == code
            &&& check.output@ == first_chars(check_detail(stdout@, stderr@), 20000)
        },
    }
}

/// Records how the command of a check ended, and tells whether the next check is
/// to be run: none is after a failure.
pub fn record_check(checks: &mut Vec<ValidationCheck>, name: String, end: CheckEnd) -> (r: bool)
    ensures
        final(checks)@.len() == old(checks)@.len() + 1,
        final(checks)@.drop_last() == old(checks)@,
        check_recorded(final(checks)@.last(), name@, end),
        r == final(checks)@.last().passed,
{
    let check = match end {
        CheckEnd::NotRun(message) => ValidationCheck {
            name,
            passed: false,
            exit_code: None,
            output: message,
        },
        CheckEnd::Ended { code, stdout, stderr } => {
            let passed = match code {
                Some(value) => value == 0,
                None => false,
            };
            ValidationCheck {
                name,
                passed,
                exit_code: code,
                output: take_chars(
                    validation_output_detail(stdout.as_slice(), stderr.as_slice()).as_str(),
                    20000,
                ),
            }
        },
    };
    let passed = check.passed;
    checks.push(check);
    assert(checks@.drop_last() =~= old(checks)@);
    passed
}

/// Where the candidate of a session is checked.
pub fn validation_place(validation_root: &str, session_id: u128) -> (r: String)
    ensures
        r@ == joined_path(validation_root@, simple_hex(session_id)),
{
    join_path(validation_root, id_hex(session_id).as_str())
}

/// The command that lays a candidate out for its checks, unless something is
/// left at that place.
pub fn begin_validation(place: &str, candidate: &str, place_exists: bool) -> (r: Result<
    Vec<String>,
    GitError,
>)
    ensures
        match r {
            Ok(args) => !place_exists && texts_of(args@) == seq![
                "worktree"@,
                "add"@,
                "--detach"@,
                place@,
                candidate@,
            ],
            Err(e) => place_exists && e@ == fault(
                "validation_path_exists"@,
                "A previous validation workspace requires reconciliation"@,
            ),
        },
{
    if place_exists {
        return Err(
            git_error(
                "validation_path_exists",
                "A previous validation workspace requires reconciliation",
            ),
        );
    }
    let args = text_list(["worktree", "add", "--detach", place, candidate]);
    assert(texts_of(args@) =~= seq!["worktree"@, "add"@, "--detach"@, place@, candidate@]);
    Ok(args)
}

/// The command that takes the place of the checks away.
pub fn leave_validation(place: &str) -> (r: Vec<String>)
    ensures
        texts_of(r@) == seq!["worktree"@, "remove"@, place@],
{
    let r = text_list(["worktree", "remove", place]);
    assert(texts_of(r@) =~= seq!["worktree"@, "remove"@, place@]);
    r
}

/// Whether the place where a candidate was checked has been taken away.
pub fn end_validation(reply: &GitReply) -> (r: Result<(), GitError>)
    ensures
        match reply_bytes(*reply) {
            Ok(_) => r is Ok,
            Err(e) => r matches Err(f) && f@ == fault("validation_cleanup_failed"@, e.message),
        },
{
    match git_ok(reply) {
        Ok(()) => Ok(()),
        Err(e) => Err(git_error("validation_cleanup_failed", e.message.as_str())),
    }
}

/// What is shown of a result before it is applied.
#[derive(Debug)]
pub struct WorktreeReview {
    pub session_id: u128,
    pub base_commit_oid: String,
    pub checkpoint_oid: String,
    pub candidate_target_oid: Option<String>,
    pub candidate_oid: Option<String>,
    pub candidate_is_stale: bool,
    pub agent_changes: Vec<WorktreeFileChange>,
    pub combined_changes: Vec<WorktreeFileChange>,
}

/// What was seen for a review: the answers of Git for the changes of the agent,
/// for the target, and for the changes from the target to the candidate.
#[derive(Debug)]
pub struct ReviewFacts {
    pub agent_changes: GitReply,
    pub target: GitReply,
    pub combined_changes: GitReply,
}

/// The changes that an answer of `git diff --name-status -z` tells of.
pub open spec fn reply_changes(reply: GitReply) -> Result<Seq<ChangeView>, GitFault> {
    match reply_bytes(reply) {
        Err(e) => Err(e),
        Ok(bytes) => named_changes(filled_fields(pieces(bytes, 0u8))),
    }
}

/// The views of some changes.
pub open spec fn change_views(changes: Seq<WorktreeFileChange>) -> Seq<ChangeView> {
    changes.map_values(|change: WorktreeFileChange| change@)
}

/// The changes that an answer of `git diff --name-status -z` tells of.
pub fn diff_name_status(reply: &GitReply) -> (r: Result<Vec<WorktreeFileChange>, GitError>)
    ensures
        match r {
            Ok(changes) => reply_changes(*reply) == Ok::<Seq<ChangeView>, GitFault>(change_views(changes@)),
            Err(e) => reply_changes(*reply) == Err::<Seq<ChangeView>, GitFault>(e@),
        },
{
    match git_bytes(reply) {
        Err(e) => Err(e),
        Ok(bytes) => parse_name_status_z(bytes.as_slice()),
    }
}

/// Whether a candidate was made from another checkpoint, or for another state of
/// its target.
pub open spec fn is_stale(worktree: ManagedWorktree, checkpoint: Seq<char>, target: Seq<char>) -> bool {
    worktree.candidate_oid is Some && (text_of(worktree.candidate_checkpoint_oid) != Some(checkpoint) || (
    worktree.candidate_target_oid is Some && worktree.candidate_target_oid->0@ != target))
}

/// What a review comes to: the staleness of the candidate, the changes of the
/// agent and the combined changes, or the first failure.
pub open spec fn review_outcome(worktree: ManagedWorktree, seen: ReviewFacts) -> Result<
    (bool, Seq<ChangeView>, Seq<ChangeView>),
    GitFault,
> {
    match worktree.checkpoint_oid {
        None => Err(
            fault(
                "checkpoint_missing"@,
                "The agent result is still being preserved. Try again in a moment."@,
            ),
        ),
        Some(checkpoint) => match reply_changes(seen.agent_changes) {
            Err(e) => Err(e),
            Ok(agent) => match reply_text(seen.target) {
                Err(e) => Err(e),
                Ok(target) => {
                    let stale = is_stale(worktree, checkpoint@, target);
                    if worktree.candidate_target_oid is Some && worktree.candidate_oid is Some && !stale {
                        match reply_changes(seen.combined_changes) {
                            Err(e) => Err(e),
                            Ok(combined) => Ok((stale, agent, combined)),
                        }
                    } else {
                        Ok((stale, agent, Seq::empty()))
                    }
                },
            },
        },
    }
}

/// Whether a review shows what it should.
pub open spec fn reviewed(
    worktree: ManagedWorktree,
    seen: ReviewFacts,
    r: Result<WorktreeReview, GitError>,
) -> bool {
    match review_outcome(worktree, seen) {
        Err(e) => r matches Err(f) && f@ == e,
        Ok((stale, agent, combined)) => {
            &&& r matches Ok(review)
            &&& review.session_id == worktree.session_id
            &&& review.base_commit_oid@ == worktree.base_commit_oid@
            &&& Some(review.checkpoint_oid@) == text_of(worktree.checkpoint_oid)
            &&& review.candidate_target_oid == worktree.candidate_target_oid
            &&& review.candidate_oid == worktree.candidate_oid
            &&& review.candidate_is_stale == stale
            &&& change_views(review.agent_changes@) == agent
            &&& change_views(review.combined_changes@) == combined
        },
    }
}

impl GitCoordinator {
    /// What is shown of a result before it is applied.
    pub fn review(&self, worktree: &ManagedWorktree, seen: &ReviewFacts) -> (r: Result<
        WorktreeReview,
        GitError,
    >)
        ensures
            reviewed(*worktree, *seen, r),
    {
        let checkpoint = match &worktree.checkpoint_oid {
            None => {
                return Err(
                    git_error(
                        "checkpoint_missing",
                        "The agent result is still being preserved. Try again in a moment.",
                    ),
                );
            },
            Some(checkpoint) => checkpoint,
        };
        let agent_changes = match diff_name_status(&seen.agent_changes) {
            Ok(changes) => changes,
            Err(e) => {
                return Err(e);
            },
        };
        let target = match git_text(&seen.target) {
            Ok(target) => target,
            Err(e) => {
                return Err(e);
            },
        };
        let moved = match &worktree.candidate_target_oid {
            Some(expected) => !same_text(expected.as_str(), target.as_str()),
            None => false,
        };
        let candidate_is_stale = worktree.candidate_oid.is_some() && (!is_text(
            &worktree.candidate_checkpoint_oid,
            checkpoint.as_str(),
        ) || moved);
        let combined_changes = if worktree.candidate_target_oid.is_some() && worktree.candidate_oid.is_some()
            && !candidate_is_stale {
            match diff_name_status(&seen.combined_changes) {
                Ok(changes) => changes,
                Err(e) => {
                    return Err(e);
                },
            }
        } else {
            let none: Vec<WorktreeFileChange> = Vec::new();
            assert(change_views(none@) =~= Seq::empty());
            none
        };
        Ok(
            WorktreeReview {
                session_id: worktree.session_id,
                base_commit_oid: worktree.base_commit_oid.clone(),
                checkpoint_oid: checkpoint.clone(),
                candidate_target_oid: copy_text(&worktree.candidate_target_oid),
                candidate_oid: copy_text(&worktree.candidate_oid),
                candidate_is_stale,
                agent_changes,
                combined_changes,
            },
        )
    }
}

/// What was seen before a candidate is applied: the answer of Git for the
/// target, all worktrees that Git lists, the place of the repository, and the
/// answers of Git there for its status and its branch.
#[derive(Debug)]
pub struct ApplyFacts {
    pub target: GitReply,
    pub listed: Result<Vec<SeenWorktree>, GitError>,
    pub repository_place: String,
    pub status: GitReply,
    pub branch: GitReply,
}

/// The place of the first listed worktree on a branch.
pub open spec fn checkout_of(list: Seq<SeenWorktree>, branch: Seq<char>) -> Option<Seq<char>>
    decreases list.len(),
{
    if list.len() == 0 {
        None
    } else if text_of(list[0].listed.branch) == Some(branch) {
        Some(list[0].place@)
    } else {
        checkout_of(list.skip(1), branch)
    }
}

/// What an application comes to.
pub enum ApplyOutcome {
    /// Nothing is done and nothing changes.
    Refused(GitFault),
    /// The target is no longer what the candidate was made for.
    Advanced,
    /// The project has local changes.
    Dirty,
    /// The command that applies the candidate.
    Run(Seq<Seq<char>>),
}

/// Whether a worktree is at a point at which its result may be applied.
pub open spec fn may_apply(worktree: ManagedWorktree, without_validation: bool) -> bool {
    worktree.status == WorktreeStatus::ReadyToApply || worktree.status == WorktreeStatus::Applying || (
    without_validation && worktree.status == WorktreeStatus::NeedsReview)
}

/// Whether what was checked is what would be applied.
pub open spec fn is_checked(worktree: ManagedWorktree, without_validation: bool) -> bool {
    &&& worktree.validation_state == ValidationState::Passed || (without_validation
        && worktree.validation_state == ValidationState::NotConfigured)
    &&& text_of(worktree.candidate_checkpoint_oid) == text_of(worktree.checkpoint_oid)
}

/// The state of the target that a candidate was made for.
pub open spec fn expected_target(worktree: ManagedWorktree) -> Seq<char> {
    match worktree.candidate_target_oid {
        Some(target) => target@,
        None => Seq::empty(),
    }
}

/// What an application comes to.
pub open spec fn apply_outcome(
    worktree: ManagedWorktree,
    without_validation: bool,
    seen: ApplyFacts,
) -> ApplyOutcome {
    if !may_apply(worktree, without_validation) {
        ApplyOutcome::Refused(fault("integration_not_ready"@, of_task("This"@, "is not ready to apply"@)))
    } else if !is_checked(worktree, without_validation) {
        ApplyOutcome::Refused(
            fault("candidate_stale"@, "This result changed after validation and must be checked again"@),
        )
    } else {
        match reply_text(seen.target) {
            Err(e) => ApplyOutcome::Refused(e),
            Ok(current) => if current != expected_target(worktree) {
                ApplyOutcome::Advanced
            } else {
                match worktree.candidate_oid {
                    None => ApplyOutcome::Refused(
                        fault("candidate_missing"@, "The integration candidate is missing"@),
                    ),
                    Some(candidate) => match seen.listed {
                        Err(e) => ApplyOutcome::Refused(e@),
                        Ok(list) => match checkout_of(list@, branch_ref(worktree.target_branch@)) {
                            None => ApplyOutcome::Run(
                                update_ref_args(
                                    branch_ref(worktree.target_branch@),
                                    candidate@,
                                    expected_target(worktree),
                                ),
                            ),
                            Some(place) => if place != seen.repository_place@ {
                                ApplyOutcome::Refused(
                                    fault(
                                        "target_checked_out_elsewhere"@,
                                        "The project branch is checked out in another workspace; application is paused"@,
                                    ),
                                )
                            } else {
                                apply_in_place(worktree, candidate@, seen)
                            },
                        },
                    },
                }
            },
        }
    }
}

/// What an application in the project's own workspace comes to.
pub open spec fn apply_in_place(
    worktree: ManagedWorktree,
    candidate: Seq<char>,
    seen: ApplyFacts,
) -> ApplyOutcome {
    match reply_paths(seen.status) {
        Err(e) => ApplyOutcome::Refused(e),
        Ok(paths) => if user_paths(in_order(paths)).len() > 0 {
            ApplyOutcome::Dirty
        } else {
            match branch_of(seen.branch) {
                Err(e) => ApplyOutcome::Refused(e),
                Ok(branch) => if branch != worktree.target_branch@ {
                    ApplyOutcome::Refused(
                        fault("canonical_branch_changed"@, "The project is currently on another branch"@),
                    )
                } else {
                    ApplyOutcome::Run(seq!["merge"@, "--ff-only"@, candidate])
                },
            }
        },
    }
}

/// The place in a list of the first worktree on a branch.
fn find_checkout(list: &Vec<SeenWorktree>, branch: &str) -> (r: Option<usize>)
    ensures
        match r {
            Some(i) => i < list.len() && checkout_of(list@, branch@) == Some(list@[i as int].place@),
            None => checkout_of(list@, branch@) is None,
        },
{
    let mut i: usize = 0;
    assert(list@.skip(0) =~= list@);
    while i < list.len()
        invariant
            0 <= i <= list.len(),
            checkout_of(list@, branch@) == checkout_of(list@.skip(i as int), branch@),
        decreases list.len() - i,
    {
        if is_text(&list[i].listed.branch, branch) {
            return Some(i);
        }
        assert(list@.skip(i as int).skip(1) =~= list@.skip(i + 1));
        i += 1;
    }
    None
}

/// Whether an application goes as it should.
pub open spec fn applied(
    before: ManagedWorktree,
    after: ManagedWorktree,
    without_validation: bool,
    seen: ApplyFacts,
    r: Result<Vec<String>, GitError>,
) -> bool {
    match apply_outcome(before, without_validation, seen) {
        ApplyOutcome::Refused(e) => {
            &&& r matches Err(f)
            &&& f@ == e
            &&& after == before
        },
        ApplyOutcome::Advanced => {
            &&& r matches Err(f)
            &&& f@ == fault(
                "target_advanced"@,
                of_task(
                    "The project advanced while this"@,
                    "was being checked. Revalidate it against the current project."@,
                ),
            )
            &&& text_of(after.last_error) == Some(
                "The project advanced; the candidate must be checked again"@,
            )
            &&& after == (ManagedWorktree {
                status: WorktreeStatus::NeedsReview,
                integration_state: IntegrationState::Queued,
                last_error: after.last_error,
                ..before
            })
        },
        ApplyOutcome::Dirty => {
            &&& r matches Err(f)
            &&& f@ == fault(
                "canonical_workspace_dirty"@,
                "Agent work is safe. The project has local changes, so application will wait until the project workspace is clean."@,
            )
            &&& text_of(after.last_error) == Some("The project workspace has local changes"@)
            &&& after == (ManagedWorktree {
                integration_state: IntegrationState::Blocked,
                last_error: after.last_error,
                ..before
            })
        },
        ApplyOutcome::Run(args) => {
            &&& r matches Ok(actual)
            &&& texts_of(actual@) == args
            &&& after == before
        },
    }
}

impl GitCoordinator {
    /// The command that applies a checked candidate to the project, where it may
    /// be applied.
    pub fn apply(
        &self,
        worktree: &mut ManagedWorktree,
        allow_without_validation: bool,
        seen: &ApplyFacts,
    ) -> (r: Result<Vec<String>, GitError>)
        ensures
            applied(*old(worktree), *final(worktree), allow_without_validation, *seen, r),
    {
        let ready = matches!(worktree.status, WorktreeStatus::ReadyToApply | WorktreeStatus::Applying) || (
        allow_without_validation && matches!(worktree.status, WorktreeStatus::NeedsReview));
        if !ready {
            return Err(git_error(
                    "integration_not_ready",
                    task_text("This", "is not ready to apply").as_str(),
                ));
        }
        let validated = matches!(worktree.validation_state, ValidationState::Passed) || (
        allow_without_validation && matches!(worktree.validation_state, ValidationState::NotConfigured));
        if !validated || !same_optional_text(&worktree.candidate_checkpoint_oid, &worktree.checkpoint_oid) {
            return Err(
                git_error("candidate_stale", "This result changed after validation and must be checked again"),
            );
        }
        let current = match git_text(&seen.target) {
            Ok(current) => current,
            Err(e) => {
                return Err(e);
            },
        };
        let expected = match &worktree.candidate_target_oid {
            Some(target) => target.clone(),
            None => String::new(),
        };
        if !same_text(current.as_str(), expected.as_str()) {
            worktree.status = WorktreeStatus::NeedsReview;
            worktree.integration_state = IntegrationState::Queued;
            worktree.last_error = Some(
                "The project advanced; the candidate must be checked again".to_owned(),
            );
            return Err(
                git_error(
                    "target_advanced",
                    task_text(
                        "The project advanced while this",
                        "was being checked. Revalidate it against the current project.",
                    ).as_str(),
                ),
            );
        }
        let candidate = match &worktree.candidate_oid {
            Some(candidate) => candidate.clone(),
            None => {
                return Err(git_error("candidate_missing", "The integration candidate is missing"));
            },
        };
        let list = match &seen.listed {
            Ok(list) => list,
            Err(e) => {
                return Err(e.copy());
            },
        };
        let target = branch_reference(worktree.target_branch.as_str());
        match find_checkout(list, target.as_str()) {
            None => Ok(update_ref(target.as_str(), candidate.as_str(), expected.as_str())),
            Some(i) => {
                if !same_text(list[i].place.as_str(), seen.repository_place.as_str()) {
                    return Err(
                        git_error(
                            "target_checked_out_elsewhere",
                            "The project branch is checked out in another workspace; application is paused",
                        ),
                    );
                }
                let paths = match changed_paths(&seen.status) {
                    Ok(paths) => paths,
                    Err(e) => {
                        return Err(e);
                    },
                };
                proof {
                    lemma_in_order(texts_of(paths@));
                }
                let users = user_changed_paths(&paths);
                assert(texts_of(users@).len() == users@.len());
                if users.len() > 0 {
                    worktree.integration_state = IntegrationState::Blocked;
                    worktree.last_error = Some("The project workspace has local changes".to_owned());
                    return Err(
                        git_error(
                            "canonical_workspace_dirty",
                            "Agent work is safe. The project has local changes, so application will wait until the project workspace is clean.",
                        ),
                    );
                }
                let branch = match symbolic_head(&seen.branch) {
                    Ok(branch) => branch,
                    Err(e) => {
                        return Err(e);
                    },
                };
                if !same_text(branch.as_str(), worktree.target_branch.as_str()) {
                    return Err(
                        git_error("canonical_branch_changed", "The project is currently on another branch"),
                    );
                }
                let args = text_list(["merge", "--ff-only", candidate.as_str()]);
                assert(texts_of(args@) =~= seq!["merge"@, "--ff-only"@, candidate@]);
                Ok(args)
            },
        }
    }

    /// Records that the command of an application ended well.
    pub fn finish_apply(&self, worktree: &mut ManagedWorktree, reply: &GitReply, now: i64) -> (r: Result<
        (),
        GitError,
    >)
        ensures
            match reply_bytes(*reply) {
                Err(e) => r matches Err(f) && f@ == e && *final(worktree) == *old(worktree),
                Ok(_) => r is Ok && *final(worktree) == (ManagedWorktree {
                    status: WorktreeStatus::Integrated,
                    integration_state: IntegrationState::Applied,
                    updated_at: now,
                    ..*old(worktree)
                }),
            },
    {
        match git_ok(reply) {
            Err(e) => Err(e),
            Ok(()) => {
                worktree.status = WorktreeStatus::Integrated;
                worktree.integration_state = IntegrationState::Applied;
                worktree.updated_at = now;
                Ok(())
            },
        }
    }
}

/// A candidate reaches the project only if what was checked is what is applied
/// and the target has not moved; without a passed check only where none is
/// configured and the caller says so.
pub proof fn lemma_apply_is_guarded(worktree: ManagedWorktree, without_validation: bool, seen: ApplyFacts)
    requires
        apply_outcome(worktree, without_validation, seen) is Run,
    ensures
        worktree.validation_state == ValidationState::Passed || (without_validation
            && worktree.validation_state == ValidationState::NotConfigured),
        text_of(worktree.candidate_checkpoint_oid) == text_of(worktree.checkpoint_oid),
        reply_text(seen.target) == Ok::<Seq<char>, GitFault>(expected_target(worktree)),
        worktree.candidate_oid is Some,
{
}

/// A result whose combined checks failed is never applied, whatever the caller
/// says.
pub proof fn lemma_failed_checks_block_apply(
    before: ManagedWorktree,
    after: ManagedWorktree,
    checks: Vec<ValidationCheck>,
    without_validation: bool,
    seen: ApplyFacts,
)
    requires
        validation_recorded(before, after, checks),
        checks@.len() > 0,
        exists|i: int| 0 <= i < checks@.len() && !(#[trigger] checks@[i]).passed,
    ensures
        apply_outcome(after, without_validation, seen) is Refused,
{
}

/// Without any check a result is applied only where the caller says so.
pub proof fn lemma_no_checks_need_consent(
    before: ManagedWorktree,
    after: ManagedWorktree,
    checks: Vec<ValidationCheck>,
    seen: ApplyFacts,
)
    requires
        validation_recorded(before, after, checks),
        checks@.len() == 0,
    ensures
        apply_outcome(after, false, seen) is Refused,
{
}

/// A new checkpoint makes a prepared candidate stale, unless it is the same
/// commit.
pub proof fn lemma_new_checkpoint_blocks_apply(
    worktree: ManagedWorktree,
    checkpoint: Option<String>,
    without_validation: bool,
    seen: ApplyFacts,
)
    requires
        text_of(checkpoint) != text_of(worktree.candidate_checkpoint_oid),
    ensures
        apply_outcome(
            (ManagedWorktree { checkpoint_oid: checkpoint, ..worktree }),
            without_validation,
            seen,
        ) is Refused,
{
}

/// Once the target is read, the checkpoint of the step is merged into it: the
/// command names the target first and the checkpoint last, and both are kept for
/// the commit.
pub proof fn lemma_merge_is_of_target_and_checkpoint(
    before: ManagedWorktree,
    after: ManagedWorktree,
    checkpoint: String,
    reply: GitReply,
    now: i64,
    r: Result<IntegrationProgress, GitError>,
)
    requires
        integration_moves(before, after, IntegrationStep::Target { checkpoint }, reply, now, r),
        reply is Ended,
        reply->code == Some(0i32),
        valid_utf8(reply->stdout@),
    ensures
        after == before,
        r matches Ok(IntegrationProgress::Run { args, step }) && {
            &&& args@.len() == 7
            &&& args@[0]@ == "merge-tree"@
            &&& args@[1]@ == "--write-tree"@
            &&& args@[4]@ == "-z"@
            &&& args@[5]@ == trimmed(decode_utf8(reply->stdout@))
            &&& args@[6]@ == checkpoint@
            &&& step matches IntegrationStep::Merge { checkpoint: c, target: t } && c@ == checkpoint@ && t@
                == args@[5]@
        },
{
    let args = r->Ok_0->Run_args;
    assert(texts_of(args@).len() == args@.len());
    assert forall|i: int| 0 <= i < args@.len() implies #[trigger] texts_of(args@)[i] == args@[i]@ by {}
    assert(args@[5]@ == texts_of(args@)[5]);
    assert(args@[6]@ == texts_of(args@)[6]);
}

/// Two checkpoints, or two states of the target, are merged by two commands.
pub proof fn lemma_merges_differ(
    first: ManagedWorktree,
    second: ManagedWorktree,
    checkpoint: String,
    other_checkpoint: String,
    reply: GitReply,
    other_reply: GitReply,
    now: i64,
    r: Result<IntegrationProgress, GitError>,
    other: Result<IntegrationProgress, GitError>,
)
    requires
        integration_moves(first, first, IntegrationStep::Target { checkpoint }, reply, now, r),
        integration_moves(
            second,
            second,
            IntegrationStep::Target { checkpoint: other_checkpoint },
            other_reply,
            now,
            other,
        ),
        reply_text(reply) is Ok,
        reply_text(other_reply) is Ok,
        checkpoint@ != other_checkpoint@ || reply_text(reply) != reply_text(other_reply),
    ensures
        texts_of(r->Ok_0->Run_args@) != texts_of(other->Ok_0->Run_args@),
{
    let a = texts_of(r->Ok_0->Run_args@);
    let b = texts_of(other->Ok_0->Run_args@);
    assert(a[5] == reply_text(reply)->Ok_0 && a[6] == checkpoint@);
    assert(b[5] == reply_text(other_reply)->Ok_0 && b[6] == other_checkpoint@);
}

/// How a merge ended decides what follows: a clean one is committed, with the
/// target as first parent and the checkpoint as second; a conflict leaves no
/// candidate behind; anything else is an error that changes nothing.
pub proof fn lemma_merge_result_decides(
    before: ManagedWorktree,
    after: ManagedWorktree,
    checkpoint: String,
    target: String,
    reply: GitReply,
    now: i64,
    r: Result<IntegrationProgress, GitError>,
)
    requires
        integration_moves(before, after, IntegrationStep::Merge { checkpoint, target }, reply, now, r),
        reply is Ended,
    ensures
        reply->code == Some(0i32) && leading_oid(reply->stdout@) is Some ==> after == before && (
        r matches Ok(IntegrationProgress::Run { args, step }) && {
            &&& args@.len() == 8
            &&& args@[0]@ == "commit-tree"@
            &&& args@[1]@ == leading_oid(reply->stdout@)->0
            &&& args@[2]@ == "-p"@
            &&& args@[3]@ == target@
            &&& args@[4]@ == "-p"@
            &&& args@[5]@ == checkpoint@
            &&& args@[6]@ == "-m"@
            &&& args@[7]@ == "Ditch integration candidate for session "@ + hyphenated(before.session_id)
            &&& step matches IntegrationStep::Commit { checkpoint: c, target: t } && c@ == checkpoint@ && t@
                == target@
        }),
        reply->code == Some(0i32) && leading_oid(reply->stdout@) is None ==> after == before && (
        r matches Err(e) && e@.code == "merge_tree_invalid"@),
        reply->code == Some(1i32) ==> {
            &&& r matches Ok(IntegrationProgress::Conflict)
            &&& after.status == WorktreeStatus::ConflictRisk
            &&& after.conflict_state == ConflictState::GitConflict
            &&& after.integration_state == IntegrationState::Conflict
            &&& after.candidate_oid is None
            &&& after.candidate_checkpoint_oid is None
            &&& after.candidate_target_oid is Some
            &&& after.candidate_target_oid->0@ == target@
            &&& after.last_error is Some
            &&& after.checkpoint_oid == before.checkpoint_oid
            &&& after.updated_at == now
        },
        reply->code != Some(0i32) && reply->code != Some(1i32) ==> after == before && (r matches Err(e)
            && e@.code == "merge_tree_failed"@),
{
    if reply->code == Some(0i32) && leading_oid(reply->stdout@) is Some {
        let args = r->Ok_0->Run_args;
        let parents = seq![target@, checkpoint@];
        assert(texts_of(args@).len() == args@.len());
        assert(parents.drop_last() =~= seq![target@]);
        assert(seq![target@].drop_last() =~= Seq::<Seq<char>>::empty());
        assert(parent_args(Seq::<Seq<char>>::empty()) =~= Seq::<Seq<char>>::empty());
        assert(parent_args(seq![target@]) =~= seq!["-p"@, target@]);
        assert(parent_args(parents) =~= seq!["-p"@, target@, "-p"@, checkpoint@]);
        let tree = leading_oid(reply->stdout@)->0;
        let message = "Ditch integration candidate for session "@ + hyphenated(before.session_id);
        assert(texts_of(args@) =~= seq![
            "commit-tree"@,
            tree,
            "-p"@,
            target@,
            "-p"@,
            checkpoint@,
            "-m"@,
            message,
        ]);
        assert forall|i: int| 0 <= i < 8 implies #[trigger] args@[i]@ == texts_of(args@)[i] by {}
    }
}

/// The commit of a merge becomes the candidate: its reference is moved from the
/// candidate before it, or from nothing, to the new commit.
pub proof fn lemma_candidate_reference_moves(
    before: ManagedWorktree,
    after: ManagedWorktree,
    checkpoint: String,
    target: String,
    reply: GitReply,
    now: i64,
    r: Result<IntegrationProgress, GitError>,
)
    requires
        integration_moves(before, after, IntegrationStep::Commit { checkpoint, target }, reply, now, r),
        reply_text(reply) is Ok,
    ensures
        after == before,
        r matches Ok(IntegrationProgress::Run { args, step }) && {
            &&& args@.len() == 4
            &&& args@[0]@ == "update-ref"@
            &&& args@[1]@ == "refs/ditch/candidates/"@ + hyphenated(before.session_id)
            &&& args@[2]@ == reply_text(reply)->Ok_0
            &&& before.candidate_oid is Some ==> args@[3]@ == before.candidate_oid->0@
            &&& before.candidate_oid is None ==> args@[3]@ == "0000000000000000000000000000000000000000"@
            &&& step matches IntegrationStep::Reference { checkpoint: c, target: t, candidate: n } && c@
                == checkpoint@ && t@ == target@ && n@ == args@[2]@
        },
{
    let args = r->Ok_0->Run_args;
    assert(texts_of(args@).len() == args@.len());
    assert forall|i: int| 0 <= i < 4 implies #[trigger] args@[i]@ == texts_of(args@)[i] by {}
}

/// A candidate is checked with its target and its checkpoint on record, and
/// counts as unchecked until then.
pub proof fn lemma_candidate_is_on_record(
    before: ManagedWorktree,
    after: ManagedWorktree,
    checkpoint: String,
    target: String,
    candidate: String,
    reply: GitReply,
    now: i64,
    r: Result<IntegrationProgress, GitError>,
)
    requires
        integration_moves(
            before,
            after,
            IntegrationStep::Reference { checkpoint, target, candidate },
            reply,
            now,
            r,
        ),
        reply_bytes(reply) is Ok,
    ensures
        r matches Ok(IntegrationProgress::Check { candidate: n }) && n@ == candidate@,
        after.candidate_oid is Some && after.candidate_oid->0@ == candidate@,
        after.candidate_target_oid is Some && after.candidate_target_oid->0@ == target@,
        after.candidate_checkpoint_oid is Some && after.candidate_checkpoint_oid->0@ == checkpoint@,
        after.status == WorktreeStatus::Validating,
        after.integration_state == IntegrationState::Validating,
        after.validation_state == ValidationState::Running,
        after.conflict_state == ConflictState::Absent,
        after.checkpoint_oid == before.checkpoint_oid,
{
}

/// A checkpoint is taken in a fixed order: everything is added, the tree is
/// written, the head is looked up, and the commit has that tree and that head as
/// its only parent.
pub proof fn lemma_checkpoint_keeps_tree_and_parent(
    before: ManagedWorktree,
    after: ManagedWorktree,
    tree: String,
    reply: GitReply,
    now: i64,
    r: Result<CheckpointProgress, GitError>,
)
    requires
        checkpoint_moves(before, after, CheckpointStep::Parent { tree }, reply, now, r),
        reply_text(reply) is Ok,
    ensures
        after == before,
        r matches Ok(CheckpointProgress::Run { args, step }) && {
            &&& args@.len() == 6
            &&& args@[0]@ == "commit-tree"@
            &&& args@[1]@ == tree@
            &&& args@[2]@ == "-p"@
            &&& args@[3]@ == reply_text(reply)->Ok_0
            &&& args@[4]@ == "-m"@
            &&& args@[5]@ == "Ditch checkpoint for session "@ + hyphenated(before.session_id)
            &&& step is Commit
        },
{
    let args = r->Ok_0->Run_args;
    let parent = reply_text(reply)->Ok_0;
    assert(seq![parent].drop_last() =~= Seq::<Seq<char>>::empty());
    assert(parent_args(Seq::<Seq<char>>::empty()) =~= Seq::<Seq<char>>::empty());
    assert(parent_args(seq![parent]) =~= seq!["-p"@, parent]);
    assert(texts_of(args@).len() == args@.len());
    assert(texts_of(args@) =~= seq![
        "commit-tree"@,
        tree@,
        "-p"@,
        parent,
        "-m"@,
        "Ditch checkpoint for session "@ + hyphenated(before.session_id),
    ]);
    assert forall|i: int| 0 <= i < 6 implies #[trigger] args@[i]@ == texts_of(args@)[i] by {}
}

/// The steps of a checkpoint before its commit, in their order. None of them
/// changes the record.
pub proof fn lemma_checkpoint_order(
    before: ManagedWorktree,
    after: ManagedWorktree,
    step: CheckpointStep,
    reply: GitReply,
    now: i64,
    r: Result<CheckpointProgress, GitError>,
)
    requires
        checkpoint_moves(before, after, step, reply, now, r),
        !(step is Reference),
    ensures
        after == before,
        step is ReadTree && reply_bytes(reply) is Ok ==> (r matches Ok(CheckpointProgress::Run { args, step: next })
            && next is AddAll && texts_of(args@) == seq!["add"@, "-A"@]),
        step is AddAll && reply_bytes(reply) is Ok ==> (r matches Ok(CheckpointProgress::Run { args, step: next })
            && next is WriteTree && texts_of(args@) == seq!["write-tree"@]),
        step is WriteTree && reply_text(reply) is Ok ==> (r matches Ok(
            CheckpointProgress::Run { args, step: next },
        ) && texts_of(args@) == seq!["rev-parse"@, "--verify"@, "HEAD"@] && (
        next matches CheckpointStep::Parent { tree } && tree@ == reply_text(reply)->Ok_0)),
        reply_bytes(reply) is Err ==> (r matches Err(e) && e@ == reply_bytes(reply)->Err_0),
{
}

/// The reference of a checkpoint is moved from the checkpoint before it, or from
/// nothing, to the new commit; once it is, the commit is the checkpoint on record
/// and what was prepared before no longer counts as ready.
pub proof fn lemma_checkpoint_is_recorded(
    before: ManagedWorktree,
    middle: ManagedWorktree,
    after: ManagedWorktree,
    reply: GitReply,
    last: GitReply,
    now: i64,
    r: Result<CheckpointProgress, GitError>,
    done: Result<CheckpointProgress, GitError>,
)
    requires
        checkpoint_moves(before, middle, CheckpointStep::Commit, reply, now, r),
        reply_text(reply) is Ok,
        checkpoint_moves(middle, after, r->Ok_0->step, last, now, done),
        reply_bytes(last) is Ok,
    ensures
        r matches Ok(CheckpointProgress::Run { args, .. }) && {
            &&& args@.len() == 4
            &&& args@[0]@ == "update-ref"@
            &&& args@[1]@ == "refs/ditch/checkpoints/"@ + hyphenated(before.session_id)
            &&& args@[2]@ == reply_text(reply)->Ok_0
            &&& before.checkpoint_oid is Some ==> args@[3]@ == before.checkpoint_oid->0@
            &&& before.checkpoint_oid is None ==> args@[3]@ == "0000000000000000000000000000000000000000"@
        },
        done matches Ok(CheckpointProgress::Done { checkpoint }) && checkpoint@ == reply_text(reply)->Ok_0,
        after.checkpoint_oid is Some && after.checkpoint_oid->0@ == reply_text(reply)->Ok_0,
        after.status == WorktreeStatus::Finished,
        after.integration_state == IntegrationState::NotRequested,
        after.candidate_oid == before.candidate_oid,
        after.updated_at == now,
{
    let args = r->Ok_0->Run_args;
    assert(texts_of(args@).len() == args@.len());
    assert forall|i: int| 0 <= i < 4 implies #[trigger] args@[i]@ == texts_of(args@)[i] by {}
}

/// A result counts as ready to apply exactly where there was a check and every
/// check passed. Where one failed, and where there was none, it is blocked, and
/// the two are told apart.
pub proof fn lemma_ready_means_all_checks_passed(
    before: ManagedWorktree,
    after: ManagedWorktree,
    checks: Vec<ValidationCheck>,
)
    requires
        validation_recorded(before, after, checks),
    ensures
        after.status == WorktreeStatus::ReadyToApply <==> (checks@.len() > 0 && forall|i: int|
            0 <= i < checks@.len() ==> (#[trigger] checks@[i]).passed),
        after.validation_state == ValidationState::Passed <==> after.status == WorktreeStatus::ReadyToApply,
        after.integration_state == IntegrationState::Ready <==> after.status == WorktreeStatus::ReadyToApply,
        after.status != WorktreeStatus::ReadyToApply ==> after.status == WorktreeStatus::NeedsReview
            && after.integration_state == IntegrationState::Blocked && after.last_error is Some,
        after.status == WorktreeStatus::ReadyToApply ==> after.last_error is None,
        after.validation_state == ValidationState::NotConfigured <==> checks@.len() == 0,
        after.conflict_state == ConflictState::ValidationFailed <==> after.validation_state
            == ValidationState::Failed,
        after.validation_checks == checks,
        after.candidate_oid == before.candidate_oid,
        after.checkpoint_oid == before.checkpoint_oid,
{
}

/// A check passed exactly where its command ran and ended with code zero, and is
/// kept with its name and its code.
pub proof fn lemma_check_passes_by_its_code(check: ValidationCheck, name: Seq<char>, end: CheckEnd)
    requires
        check_recorded(check, name, end),
    ensures
        check.passed <==> (end is Ended && end->code == Some(0i32)),
        check.name@ == name,
        end is NotRun ==> check.exit_code is None && check.output@ == end->NotRun_0@,
        end is Ended ==> check.exit_code == end->code && check.output@.len() <= 20000,
{
}

/// A review shows, for a candidate that is not stale, what Git tells of the way
/// from the target to the candidate, and for a stale one nothing. A candidate is
/// stale exactly where the checkpoint or the target has moved since.
pub proof fn lemma_review_shows_the_live_candidate(
    worktree: ManagedWorktree,
    seen: ReviewFacts,
    r: Result<WorktreeReview, GitError>,
)
    requires
        reviewed(worktree, seen, r),
        r is Ok,
    ensures
        worktree.checkpoint_oid is Some,
        r->Ok_0.checkpoint_oid@ == worktree.checkpoint_oid->0@,
        r->Ok_0.session_id == worktree.session_id,
        reply_changes(seen.agent_changes) == Ok::<Seq<ChangeView>, GitFault>(
            change_views(r->Ok_0.agent_changes@),
        ),
        worktree.candidate_oid is Some && worktree.candidate_target_oid is Some
            && !r->Ok_0.candidate_is_stale ==> reply_changes(seen.combined_changes) == Ok::<
            Seq<ChangeView>,
            GitFault,
        >(change_views(r->Ok_0.combined_changes@)),
        r->Ok_0.candidate_is_stale ==> r->Ok_0.combined_changes@.len() == 0,
        worktree.candidate_oid is None || worktree.candidate_target_oid is None
            ==> r->Ok_0.combined_changes@.len() == 0,
        worktree.candidate_oid is None ==> !r->Ok_0.candidate_is_stale,
        worktree.candidate_oid is Some && worktree.candidate_target_oid is Some ==> (
        r->Ok_0.candidate_is_stale <==> !(worktree.candidate_checkpoint_oid is Some
            && worktree.candidate_checkpoint_oid->0@ == worktree.checkpoint_oid->0@
            && worktree.candidate_target_oid->0@ == reply_text(seen.target)->Ok_0)),
        r->Ok_0.candidate_oid == worktree.candidate_oid,
        r->Ok_0.candidate_target_oid == worktree.candidate_target_oid,
{
    assert(change_views(r->Ok_0.combined_changes@).len() == r->Ok_0.combined_changes@.len());
}

/// Two looks at one candidate: where Git tells of different changes from the
/// target to it, the reviews differ.
pub proof fn lemma_reviews_follow_git(
    worktree: ManagedWorktree,
    seen: ReviewFacts,
    other: ReviewFacts,
    r: Result<WorktreeReview, GitError>,
    s: Result<WorktreeReview, GitError>,
)
    requires
        reviewed(worktree, seen, r),
        reviewed(worktree, other, s),
        r is Ok,
        s is Ok,
        worktree.candidate_oid is Some,
        worktree.candidate_target_oid is Some,
        !r->Ok_0.candidate_is_stale,
        !s->Ok_0.candidate_is_stale,
        reply_changes(seen.combined_changes) != reply_changes(other.combined_changes),
    ensures
        change_views(r->Ok_0.combined_changes@) != change_views(s->Ok_0.combined_changes@),
{
}

/// Without a checkpoint nothing is reviewed.
pub proof fn lemma_review_needs_a_checkpoint(
    worktree: ManagedWorktree,
    seen: ReviewFacts,
    r: Result<WorktreeReview, GitError>,
)
    requires
        reviewed(worktree, seen, r),
        worktree.checkpoint_oid is None,
    ensures
        r matches Err(e) && e@.code == "checkpoint_missing"@,
{
}

/// The command that applies a candidate names that candidate. Where the target is
/// checked out in the project it is a fast-forward merge, and nothing else is;
/// where it is checked out nowhere, its branch is moved from the state that the
/// candidate was made for.
pub proof fn lemma_application_is_of_the_candidate(
    before: ManagedWorktree,
    after: ManagedWorktree,
    without_validation: bool,
    seen: ApplyFacts,
    r: Result<Vec<String>, GitError>,
)
    requires
        applied(before, after, without_validation, seen, r),
        r is Ok,
    ensures
        after == before,
        before.candidate_oid is Some,
        before.status == WorktreeStatus::ReadyToApply || before.status == WorktreeStatus::Applying || (
        without_validation && before.status == WorktreeStatus::NeedsReview),
        checkout_of(seen.listed->Ok_0@, branch_ref(before.target_branch@)) is Some ==> {
            &&& r->Ok_0@.len() == 3
            &&& r->Ok_0@[0]@ == "merge"@
            &&& r->Ok_0@[1]@ == "--ff-only"@
            &&& r->Ok_0@[2]@ == before.candidate_oid->0@
            &&& checkout_of(seen.listed->Ok_0@, branch_ref(before.target_branch@))->0
                == seen.repository_place@
            &&& branch_of(seen.branch) == Ok::<Seq<char>, GitFault>(before.target_branch@)
            &&& user_paths(in_order(reply_paths(seen.status)->Ok_0)).len() == 0
        },
        checkout_of(seen.listed->Ok_0@, branch_ref(before.target_branch@)) is None ==> {
            &&& r->Ok_0@.len() == 4
            &&& r->Ok_0@[0]@ == "update-ref"@
            &&& r->Ok_0@[1]@ == "refs/heads/"@ + before.target_branch@
            &&& r->Ok_0@[2]@ == before.candidate_oid->0@
            &&& r->Ok_0@[3]@ == reply_text(seen.target)->Ok_0
        },
{
    let args = r->Ok_0;
    assert(texts_of(args@).len() == args@.len());
    assert forall|i: int| 0 <= i < args@.len() implies #[trigger] args@[i]@ == texts_of(args@)[i] by {}
}

/// A candidate whose target has moved is never applied: it waits for another
/// preparation.
pub proof fn lemma_moved_target_is_not_applied(
    before: ManagedWorktree,
    after: ManagedWorktree,
    without_validation: bool,
    seen: ApplyFacts,
    r: Result<Vec<String>, GitError>,
)
    requires
        applied(before, after, without_validation, seen, r),
        before.candidate_target_oid is Some,
        reply_text(seen.target) is Ok,
        reply_text(seen.target)->Ok_0 != before.candidate_target_oid->0@,
    ensures
        r is Err,
        after.status != WorktreeStatus::Integrated || before.status == WorktreeStatus::Integrated,
        before.status == WorktreeStatus::ReadyToApply && before.validation_state == ValidationState::Passed
            && text_of(before.candidate_checkpoint_oid) == text_of(before.checkpoint_oid) ==> after.status
            == WorktreeStatus::NeedsReview && after.integration_state == IntegrationState::Queued
            && r->Err_0@.code == "target_advanced"@,
{
}

/// Local changes in the project stop an application, which leaves the result as
/// ready as it was.
pub proof fn lemma_local_changes_stop_an_application(
    before: ManagedWorktree,
    after: ManagedWorktree,
    without_validation: bool,
    seen: ApplyFacts,
    r: Result<Vec<String>, GitError>,
)
    requires
        applied(before, after, without_validation, seen, r),
        seen.listed is Ok,
        checkout_of(seen.listed->Ok_0@, branch_ref(before.target_branch@)) is Some,
        reply_paths(seen.status) is Ok,
        user_paths(in_order(reply_paths(seen.status)->Ok_0)).len() > 0,
    ensures
        r is Err,
        after.candidate_oid == before.candidate_oid,
        r->Err_0@.code == "canonical_workspace_dirty"@ ==> after.status == before.status,
{
    reveal_strlit("canonical_workspace_dirty");
    reveal_strlit("target_advanced");
    assert("canonical_workspace_dirty"@.len() == 25);
    assert("target_advanced"@.len() == 15);
}

/// Of a check everything is kept that it printed: its output, then its errors, and
/// where there is neither a word that it ended.
pub proof fn lemma_checks_keep_what_was_printed(stdout: Seq<u8>, stderr: Seq<u8>)
    ensures
        ({
            let out = trimmed(lossy_text(stdout));
            let err = trimmed(lossy_text(stderr));
            let detail = check_detail(stdout, stderr);
            &&& detail.len() > 0
            &&& out.len() > 0 ==> detail.take(out.len() as int) == out
            &&& err.len() > 0 ==> detail.skip(detail.len() - err.len()) == err
            &&& out.len() > 0 && err.len() > 0 ==> detail == out + "\n"@ + err
            &&& out.len() == 0 && err.len() == 0 ==> detail == "Validation completed without output"@
        }),
{
    reveal_strlit("Validation completed without output");
    reveal_strlit("\n");
    let out = trimmed(lossy_text(stdout));
    let err = trimmed(lossy_text(stderr));
    let detail = check_detail(stdout, stderr);
    if out.len() > 0 {
        assert(detail.take(out.len() as int) =~= out);
    }
    if err.len() > 0 {
        assert(detail.skip(detail.len() - err.len()) =~= err);
    }
}

} // verus!
