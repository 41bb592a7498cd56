//! Resolving conflicts in a workspace of their own, and taking workspaces away
//! when their work is over.

use crate::git_command::{
    branch_ref, branch_reference, commit_tree, commit_tree_args, delete_ref, failure_detail, git_bytes,
    lemma_commits_name_their_parents,
    git_ok, git_text, output_detail, reply_bytes, reply_text, rev_parse, update_internal_ref,
    update_ref_args, zero_oid, GitReply,
};
use crate::git_coordinator::GitCoordinator;
use crate::git_integration::{
    candidate_recorded, candidate_ref, record_candidate, set_validation_result, validation_recorded,
};
use crate::git_names::{
    branch_for_resolver, is_child_place, is_managed_place, is_own_branch, is_resolution_place,
    resolver_branch, validate_ditch_branch, validate_resolution_branch, verify_child_path,
    verify_managed_path, verify_resolution_path,
};
use crate::git_paths::{fault, git_error, of_task, task_text, GitError, GitFault};
use crate::git_refresh::{refreshed, resolution_merge, RefreshFacts};
use crate::git_worktree::{
    ConflictState, IntegrationState, ManagedWorktree, ValidationCheck, ValidationState, WorktreeLockState,
    WorktreeStatus,
};
use crate::ids::{hyphenated, id_hex, id_text, simple_hex};
use crate::paths::{join_path, joined_path};
use crate::text::{borrowed, same_text, text_list, text_of, texts_of};
use vstd::prelude::*;
use vstd::string::*;

verus! {

/// What was seen of a resolution workspace that may be there already.
#[derive(Debug)]
pub struct ResolutionFacts {
    pub directory_exists: bool,
    pub unmerged: GitReply,
    pub merge_head: GitReply,
    pub head: GitReply,
    pub target: GitReply,
}

/// A resolution workspace that is to be made.
#[derive(Debug)]
pub struct ResolutionPlan {
    pub path: String,
    pub branch: String,
    pub target: String,
    pub checkpoint: String,
    pub args: Vec<String>,
}

/// Where a conflict is resolved: in a workspace that is there, or in one that is
/// to be made.
#[derive(Debug)]
pub enum ResolutionStart {
    Existing { path: String },
    Make { plan: ResolutionPlan },
}

/// The place of the resolution workspace of a session.
pub open spec fn resolution_place(worktree: ManagedWorktree, project_id: u128, root: Seq<char>) -> Seq<char> {
    match worktree.resolution_path {
        Some(path) => path@,
        None => joined_path(joined_path(root, simple_hex(project_id)), simple_hex(worktree.session_id)),
    }
}

/// The branch of the resolution workspace of a session.
pub open spec fn resolution_branch_name(worktree: ManagedWorktree) -> Seq<char> {
    match worktree.resolution_branch {
        Some(branch) => branch@,
        None => resolver_branch(worktree.session_id),
    }
}

/// What a wish to resolve a conflict comes to.
pub enum ResolutionOutcome {
    Refused(GitFault),
    /// The workspace is there; its starting point is taken over where unknown.
    Existing(Option<Seq<char>>),
    /// The workspace is to be made at the given state of the target.
    Make(Seq<char>, Seq<char>),
}

/// What a workspace that is there comes to.
pub open spec fn existing_resolution(worktree: ManagedWorktree, seen: ResolutionFacts) -> ResolutionOutcome {
    match reply_bytes(seen.unmerged) {
        Err(e) => ResolutionOutcome::Refused(e),
        Ok(unmerged) => match seen.merge_head {
            GitReply::NotRun(description) => ResolutionOutcome::Refused(
                fault("git_io_failed"@, description@),
            ),
            GitReply::Ended { code, .. } => if unmerged.len() > 0 || code == Some(0i32) {
                if worktree.resolution_target_oid is Some {
                    ResolutionOutcome::Existing(None)
                } else {
                    match reply_text(seen.head) {
                        Err(e) => ResolutionOutcome::Refused(e),
                        Ok(head) => ResolutionOutcome::Existing(Some(head)),
                    }
                }
            } else {
                ResolutionOutcome::Refused(
                    fault(
                        "resolution_recovery_needed"@,
                        "The resolution workspace exists without an active merge. Its files were preserved for recovery."@,
                    ),
                )
            },
        },
    }
}

/// What a wish to resolve a conflict comes to.
pub open spec fn resolution_outcome(
    worktree: ManagedWorktree,
    project_id: u128,
    root: Seq<char>,
    seen: ResolutionFacts,
) -> ResolutionOutcome {
    if worktree.conflict_state != ConflictState::GitConflict {
        ResolutionOutcome::Refused(
            fault("resolution_not_needed"@, "This result does not currently have a Git conflict"@),
        )
    } else if worktree.resolution_path is Some && seen.directory_exists {
        existing_resolution(worktree, seen)
    } else {
        match worktree.checkpoint_oid {
            None => ResolutionOutcome::Refused(
                fault("checkpoint_missing"@, "The preserved agent result is missing"@),
            ),
            Some(checkpoint) => match reply_text(seen.target) {
                Err(e) => ResolutionOutcome::Refused(e),
                Ok(target) => if !is_child_place(resolution_place(worktree, project_id, root), root) {
                    ResolutionOutcome::Refused(
                        fault(
                            "managed_path_invalid"@,
                            "The managed workspace path is outside Ditch storage"@,
                        ),
                    )
                } else if resolution_branch_name(worktree) != resolver_branch(worktree.session_id) {
                    ResolutionOutcome::Refused(
                        fault(
                            "resolution_ownership_unproven"@,
                            "Refusing to modify a resolver branch whose ownership cannot be proven"@,
                        ),
                    )
                } else {
                    ResolutionOutcome::Make(target, checkpoint@)
                },
            },
        }
    }
}

/// The arguments that add a locked worktree on a new branch.
pub open spec fn add_worktree_args(
    reason: Seq<char>,
    branch: Seq<char>,
    path: Seq<char>,
    start: Seq<char>,
) -> Seq<Seq<char>> {
    seq!["worktree"@, "add"@, "--lock"@, "--reason"@, reason, "-b"@, branch, path, start]
}

/// The arguments that add a locked worktree on a new branch.
pub fn add_worktree(reason: &str, branch: &str, path: &str, start: &str) -> (r: Vec<String>)
    ensures
        texts_of(r@) == add_worktree_args(reason@, branch@, path@, start@),
{
    let r = text_list(["worktree", "add", "--lock", "--reason", reason, "-b", branch, path, start]);
    assert(texts_of(r@) =~= add_worktree_args(reason@, branch@, path@, start@));
    r
}

/// Whether a wish to resolve a conflict is met as it should be.
pub open spec fn resolution_started(
    before: ManagedWorktree,
    after: ManagedWorktree,
    project_id: u128,
    root: Seq<char>,
    seen: ResolutionFacts,
    r: Result<ResolutionStart, GitError>,
) -> bool {
    match resolution_outcome(before, project_id, root, seen) {
        ResolutionOutcome::Refused(e) => {
            &&& r matches Err(f)
            &&& f@ == e
            &&& after == before
        },
        ResolutionOutcome::Existing(head) => {
            &&& r matches Ok(ResolutionStart::Existing { path })
            &&& Some(path@) == text_of(before.resolution_path)
            &&& match head {
                None => after == before,
                Some(head) => text_of(after.resolution_target_oid) == Some(head)
                    && after == (ManagedWorktree {
                    resolution_target_oid: after.resolution_target_oid,
                    ..before
                }),
            }
        },
        ResolutionOutcome::Make(target, checkpoint) => {
            &&& r matches Ok(ResolutionStart::Make { plan })
            &&& plan.path@ == resolution_place(before, project_id, root)
            &&& plan.branch@ == resolver_branch(before.session_id)
            &&& plan.target@ == target
            &&& plan.checkpoint@ == checkpoint
            &&& texts_of(plan.args@) == add_worktree_args(
                "The Ditch conflict resolver "@ + hyphenated(before.session_id),
                plan.branch@,
                plan.path@,
                target,
            )
            &&& after == before
        },
    }
}

/// Whether the merge in a resolution workspace is recorded as it should be.
pub open spec fn resolution_recorded(
    before: ManagedWorktree,
    after: ManagedWorktree,
    plan: ResolutionPlan,
    merge: GitReply,
    now: i64,
    r: Result<String, GitError>,
) -> bool {
    match merge {
        GitReply::NotRun(description) => {
            &&& r matches Err(f)
            &&& f@ == fault("git_io_failed"@, description@)
            &&& after == before
        },
        GitReply::Ended { code, stdout, stderr } => if code == Some(1i32) {
            &&& r matches Ok(path)
            &&& path@ == plan.path@
            &&& text_of(after.resolution_path) == Some(plan.path@)
            &&& text_of(after.resolution_branch) == Some(plan.branch@)
            &&& text_of(after.resolution_target_oid) == Some(plan.target@)
            &&& after == (ManagedWorktree {
                resolution_path: after.resolution_path,
                resolution_branch: after.resolution_branch,
                resolution_target_oid: after.resolution_target_oid,
                status: WorktreeStatus::NeedsReview,
                updated_at: now,
                ..before
            })
        } else {
            &&& r matches Err(f)
            &&& f@ == fault(
                "resolution_state_changed"@,
                if code == Some(0i32) {
                    "The conflict changed and can now be checked normally"@
                } else {
                    failure_detail(stdout@, stderr@)
                },
            )
            &&& after == before
        },
    }
}

impl GitCoordinator {
    /// Where the conflict of a result is resolved.
    pub fn create_conflict_resolution(
        &self,
        worktree: &mut ManagedWorktree,
        project_id: u128,
        resolution_root: &str,
        seen: &ResolutionFacts,
    ) -> (r: Result<ResolutionStart, GitError>)
        ensures
            resolution_started(*old(worktree), *final(worktree), project_id, resolution_root@, *seen, r),
    {
        if !matches!(worktree.conflict_state, ConflictState::GitConflict) {
            return Err(
                git_error("resolution_not_needed", "This result does not currently have a Git conflict"),
            );
        }
        if let Some(path) = &worktree.resolution_path {
            if seen.directory_exists {
                let path = path.clone();
                let under_way = match resolution_merge(&seen.unmerged, &seen.merge_head) {
                    Ok(b) => b,
                    Err(e) => {
                        return Err(e);
                    },
                };
                if !under_way {
                    return Err(
                        git_error(
                            "resolution_recovery_needed",
                            "The resolution workspace exists without an active merge. Its files were preserved for recovery.",
                        ),
                    );
                }
                if worktree.resolution_target_oid.is_none() {
                    match git_text(&seen.head) {
                        Ok(head) => {
                            worktree.resolution_target_oid = Some(head);
                        },
                        Err(e) => {
                            return Err(e);
                        },
                    }
                }
                return Ok(ResolutionStart::Existing { path });
            }
        }
        let checkpoint = match &worktree.checkpoint_oid {
            Some(checkpoint) => checkpoint.clone(),
            None => {
                return Err(git_error("checkpoint_missing", "The preserved agent result is missing"));
            },
        };
        let target = match git_text(&seen.target) {
            Ok(target) => target,
            Err(e) => {
                return Err(e);
            },
        };
        let path = match &worktree.resolution_path {
            Some(path) => path.clone(),
            None => join_path(
                join_path(resolution_root, id_hex(project_id).as_str()).as_str(),
                id_hex(worktree.session_id).as_str(),
            ),
        };
        match verify_child_path(resolution_root, path.as_str()) {
            Ok(()) => {},
            Err(e) => {
                return Err(e);
            },
        }
        let branch = match &worktree.resolution_branch {
            Some(branch) => branch.clone(),
            None => branch_for_resolver(worktree.session_id),
        };
        match validate_resolution_branch(worktree.session_id, branch.as_str()) {
            Ok(()) => {},
            Err(e) => {
                return Err(e);
            },
        }
        let mut reason = "The Ditch conflict resolver ".to_owned();
        reason.append(id_text(worktree.session_id).as_str());
        let args = add_worktree(reason.as_str(), branch.as_str(), path.as_str(), target.as_str());
        Ok(ResolutionStart::Make { plan: ResolutionPlan { path, branch, target, checkpoint, args } })
    }

    /// The command that brings the conflict into a new resolution workspace.
    pub fn merge_checkpoint(&self, plan: &ResolutionPlan) -> (r: Vec<String>)
        ensures
            texts_of(r@) == seq!["merge"@, "--no-commit"@, "--no-ff"@, plan.checkpoint@],
    {
        let r = text_list(["merge", "--no-commit", "--no-ff", plan.checkpoint.as_str()]);
        assert(texts_of(r@) =~= seq!["merge"@, "--no-commit"@, "--no-ff"@, plan.checkpoint@]);
        r
    }

    /// Records a resolution workspace in which the merge stopped at a conflict.
    /// With any other end the workspace is of no use and is taken away: see
    /// `begin_abandon`.
    pub fn finish_resolution(
        &self,
        worktree: &mut ManagedWorktree,
        plan: &ResolutionPlan,
        merge: &GitReply,
        now: i64,
    ) -> (r: Result<String, GitError>)
        ensures
            resolution_recorded(*old(worktree), *final(worktree), *plan, *merge, now, r),
    {
        match merge {
            GitReply::NotRun(description) => Err(GitError::from_io(description.as_str())),
            GitReply::Ended { code, stdout, stderr } => {
                let exit: i64 = match code {
                    Some(value) => *value as i64,
                    None => -1,
                };
                let signalled = code.is_none();
                if !signalled && exit == 1 {
                    worktree.resolution_path = Some(plan.path.clone());
                    worktree.resolution_branch = Some(plan.branch.clone());
                    worktree.resolution_target_oid = Some(plan.target.clone());
                    worktree.status = WorktreeStatus::NeedsReview;
                    worktree.updated_at = now;
                    Ok(plan.path.clone())
                } else if !signalled && exit == 0 {
                    Err(
                        git_error(
                            "resolution_state_changed",
                            "The conflict changed and can now be checked normally",
                        ),
                    )
                } else {
                    let detail = output_detail(stdout.as_slice(), stderr.as_slice());
                    Err(git_error("resolution_state_changed", detail.as_str()))
                }
            },
        }
    }
}

/// Which command has been answered of those that take away a resolution workspace
/// whose merge did not stop at a conflict.
#[derive(Clone, Copy, Debug, PartialEq, Eq, Structural)]
pub enum AbandonStep {
    Abort,
    Unlock,
    Remove,
    Look,
    Delete,
}

/// What comes next: a command in the repository, or nothing.
#[derive(Debug)]
pub enum AbandonProgress {
    Run { args: Vec<String>, step: AbandonStep },
    Done,
}

/// Whether a merge leaves a resolution workspace that is of no use.
pub open spec fn leaves_nothing_to_resolve(merge: GitReply) -> bool {
    merge matches GitReply::Ended { code, .. } && code != Some(1i32)
}

/// What comes after a command. A failure is passed over, and the branch is deleted
/// where it is found.
pub open spec fn abandon_next(
    plan: ResolutionPlan,
    step: AbandonStep,
    reply: GitReply,
) -> Option<(Seq<Seq<char>>, AbandonStep)> {
    match step {
        AbandonStep::Abort => Some((seq!["worktree"@, "unlock"@, plan.path@], AbandonStep::Unlock)),
        AbandonStep::Unlock => Some(
            (seq!["worktree"@, "remove"@, "--force"@, plan.path@], AbandonStep::Remove),
        ),
        AbandonStep::Remove => Some(
            (seq!["rev-parse"@, "--verify"@, branch_ref(plan.branch@)], AbandonStep::Look),
        ),
        AbandonStep::Look => match reply_text(reply) {
            Ok(current) => Some(
                (seq!["update-ref"@, "-d"@, branch_ref(plan.branch@), current], AbandonStep::Delete),
            ),
            Err(_) => None,
        },
        AbandonStep::Delete => None,
    }
}

/// The first command that takes away a resolution workspace whose merge did not
/// stop at a conflict. It runs in the workspace. A merge that could not be run
/// leaves the workspace as it is.
pub fn begin_abandon(merge: &GitReply) -> (r: Option<Vec<String>>)
    ensures
        if leaves_nothing_to_resolve(*merge) {
            r matches Some(args) && texts_of(args@) == seq!["merge"@, "--abort"@]
        } else {
            r is None
        },
{
    match merge {
        GitReply::NotRun(_) => None,
        GitReply::Ended { code, .. } => {
            let conflict = match code {
                Some(value) => *value == 1,
                None => false,
            };
            if conflict {
                return None;
            }
            let args = text_list(["merge", "--abort"]);
            assert(texts_of(args@) =~= seq!["merge"@, "--abort"@]);
            Some(args)
        },
    }
}

/// What comes after a command that takes away a resolution workspace.
pub fn abandon_resolution(plan: &ResolutionPlan, step: AbandonStep, reply: &GitReply) -> (r:
    AbandonProgress)
    ensures
        match abandon_next(*plan, step, *reply) {
            Some((args, next)) => {
                &&& r matches AbandonProgress::Run { args: a, step: s }
                &&& texts_of(a@) == args
                &&& s == next
            },
            None => r is Done,
        },
{
    match step {
        AbandonStep::Abort => {
            let args = text_list(["worktree", "unlock", plan.path.as_str()]);
            assert(texts_of(args@) =~= seq!["worktree"@, "unlock"@, plan.path@]);
            AbandonProgress::Run { args, step: AbandonStep::Unlock }
        },
        AbandonStep::Unlock => {
            let args = text_list(["worktree", "remove", "--force", plan.path.as_str()]);
            assert(texts_of(args@) =~= seq!["worktree"@, "remove"@, "--force"@, plan.path@]);
            AbandonProgress::Run { args, step: AbandonStep::Remove }
        },
        AbandonStep::Remove => AbandonProgress::Run {
            args: rev_parse(branch_reference(plan.branch.as_str()).as_str()),
            step: AbandonStep::Look,
        },
        AbandonStep::Look => match git_text(reply) {
            Ok(current) => AbandonProgress::Run {
                args: delete_ref(branch_reference(plan.branch.as_str()).as_str(), current.as_str()),
                step: AbandonStep::Delete,
            },
            Err(_) => AbandonProgress::Done,
        },
        AbandonStep::Delete => AbandonProgress::Done,
    }
}

/// How far the acceptance of a resolution has come.
#[derive(Debug)]
pub enum FinalizeStep {
    Target,
    AddAll,
    Unmerged,
    Markers,
    Tree,
    Commit,
    Previous { candidate: String },
    Reference { candidate: String },
}

/// What a resolution is made of.
#[derive(Debug)]
pub struct Resolution {
    pub path: String,
    pub checkpoint: String,
    pub target: String,
}

/// What the acceptance of a resolution does next: run a command in the
/// repository or in the resolution workspace, or check the candidate.
#[derive(Debug)]
pub enum FinalizeProgress {
    Run { in_workspace: bool, args: Vec<String>, step: FinalizeStep },
    Check { candidate: String },
}

/// Whether the next thing is a command with the given arguments.
pub open spec fn goes_on(
    r: Result<FinalizeProgress, GitError>,
    in_workspace: bool,
    args: Seq<Seq<char>>,
) -> bool {
    r matches Ok(FinalizeProgress::Run { in_workspace: w, args: a, .. }) && w == in_workspace && texts_of(a@)
        == args
}

/// Whether a failure ended it.
pub open spec fn ends_with_fault<T>(r: Result<T, GitError>, e: GitFault) -> bool {
    r matches Err(f) && f@ == e
}

/// Whether the acceptance of a resolution goes on as it should after a command.
pub open spec fn finalize_moves(
    before: ManagedWorktree,
    after: ManagedWorktree,
    resolution: Resolution,
    step: FinalizeStep,
    reply: GitReply,
    r: Result<FinalizeProgress, GitError>,
) -> bool {
    match step {
        FinalizeStep::Target => after == before && match reply_text(reply) {
            Err(e) => ends_with_fault(r, e),
            Ok(current) => if current != resolution.target@ {
                ends_with_fault(
                    r,
                    fault(
                        "resolution_stale"@,
                        "The project changed while this conflict was being resolved. The existing resolution was preserved."@,
                    ),
                )
            } else {
                goes_on(r, true, seq!["add"@, "-A"@]) && r->Ok_0->step is AddAll
            },
        },
        FinalizeStep::AddAll => after == before && match reply_bytes(reply) {
            Err(e) => ends_with_fault(r, e),
            Ok(_) => goes_on(r, true, seq!["ls-files"@, "-u"@, "-z"@]) && r->Ok_0->step is Unmerged,
        },
        FinalizeStep::Unmerged => after == before && match reply_bytes(reply) {
            Err(e) => ends_with_fault(r, e),
            Ok(unmerged) => if unmerged.len() > 0 {
                ends_with_fault(
                    r,
                    fault("resolution_incomplete"@, "Some conflicting files still need a decision"@),
                )
            } else {
                goes_on(r, true, seq!["diff"@, "--cached"@, "--check"@]) && r->Ok_0->step is Markers
            },
        },
        FinalizeStep::Markers => after == before && match reply {
            GitReply::NotRun(description) => ends_with_fault(r, fault("git_io_failed"@, description@)),
            GitReply::Ended { code, .. } => if code != Some(0i32) {
                ends_with_fault(
                    r,
                    fault(
                        "resolution_markers_remain"@,
                        "Conflict markers or invalid whitespace remain in the resolution"@,
                    ),
                )
            } else {
                goes_on(r, true, seq!["write-tree"@]) && r->Ok_0->step is Tree
            },
        },
        FinalizeStep::Tree => after == before && match reply_text(reply) {
            Err(e) => ends_with_fault(r, e),
            Ok(tree) => goes_on(
                r,
                false,
                commit_tree_args(
                    tree,
                    seq![resolution.target@, resolution.checkpoint@],
                    "Ditch resolved candidate for session "@ + hyphenated(before.session_id),
                ),
            ) && r->Ok_0->step is Commit,
        },
        FinalizeStep::Commit => after == before && match reply_text(reply) {
            Err(e) => ends_with_fault(r, e),
            Ok(candidate) => goes_on(
                r,
                false,
                seq!["rev-parse"@, "--verify"@, candidate_ref(before.session_id)],
            ) && (r->Ok_0->step matches FinalizeStep::Previous { candidate: c } && c@ == candidate),
        },
        FinalizeStep::Previous { candidate } => after == before && goes_on(
            r,
            false,
            update_ref_args(
                candidate_ref(before.session_id),
                candidate@,
                match reply_text(reply) {
                    Ok(previous) => previous,
                    Err(_) => zero_oid(),
                },
            ),
        ) && (r->Ok_0->step matches FinalizeStep::Reference { candidate: c } && c@ == candidate@),
        FinalizeStep::Reference { candidate } => match reply_bytes(reply) {
            Err(e) => after == before && ends_with_fault(r, e),
            Ok(_) => {
                &&& r matches Ok(FinalizeProgress::Check { candidate: c })
                &&& c@ == candidate@
                &&& candidate_recorded(
                    before,
                    after,
                    candidate@,
                    resolution.target@,
                    resolution.checkpoint@,
                )
            },
        },
    }
}

proof fn lemma_candidate_ref_internal(session_id: u128)
    ensures
        crate::text::begins_with(candidate_ref(session_id), "refs/ditch/"@),
{
    reveal_strlit("refs/ditch/");
    reveal_strlit("refs/ditch/candidates/");
    assert(candidate_ref(session_id).subrange(0, 11) =~= "refs/ditch/"@);
}

/// The reference that keeps the candidate of a session.
fn candidate_reference(session_id: u128) -> (r: String)
    ensures
        r@ == candidate_ref(session_id),
{
    let mut r = "refs/ditch/candidates/".to_owned();
    r.append(id_text(session_id).as_str());
    r
}

/// What a wish to accept a resolution comes to.
pub open spec fn finalize_outcome(worktree: ManagedWorktree, project_id: u128) -> Result<(), GitFault> {
    match worktree.resolution_path {
        None => Err(
            fault("resolution_missing"@, "No manual resolution workspace exists for this result"@),
        ),
        Some(path) => if !is_resolution_place(path@, project_id, worktree.session_id) {
            Err(
                fault(
                    "resolution_ownership_unproven"@,
                    "Refusing to modify a resolution workspace whose ownership cannot be proven"@,
                ),
            )
        } else if worktree.checkpoint_oid is None {
            Err(fault("checkpoint_missing"@, "The preserved agent result is missing"@))
        } else if worktree.resolution_target_oid is None {
            Err(fault("resolution_missing"@, "The resolution starting point is missing"@))
        } else {
            Ok(())
        },
    }
}

/// Whether the acceptance of a resolution begins as it should.
pub open spec fn finalize_begun(
    worktree: ManagedWorktree,
    project_id: u128,
    r: Result<(Resolution, Vec<String>), GitError>,
) -> bool {
    match finalize_outcome(worktree, project_id) {
        Err(e) => ends_with_fault(r, e),
        Ok(()) => {
            &&& r matches Ok((resolution, args))
            &&& Some(resolution.path@) == text_of(worktree.resolution_path)
            &&& Some(resolution.checkpoint@) == text_of(worktree.checkpoint_oid)
            &&& Some(resolution.target@) == text_of(worktree.resolution_target_oid)
            &&& texts_of(args@) == seq![
                "rev-parse"@,
                "--verify"@,
                branch_ref(worktree.target_branch@),
            ]
        },
    }
}

impl GitCoordinator {
    /// What a resolution is made of, and the command that looks its target up.
    pub fn begin_finalize(&self, worktree: &ManagedWorktree, project_id: u128) -> (r: Result<
        (Resolution, Vec<String>),
        GitError,
    >)
        ensures
            finalize_begun(*worktree, project_id, r),
    {
        let path = match &worktree.resolution_path {
            None => {
                return Err(
                    git_error(
                        "resolution_missing",
                        "No manual resolution workspace exists for this result",
                    ),
                );
            },
            Some(path) => path,
        };
        match verify_resolution_path(path.as_str(), project_id, worktree.session_id) {
            Ok(()) => {},
            Err(e) => {
                return Err(e);
            },
        }
        let checkpoint = match &worktree.checkpoint_oid {
            None => {
                return Err(git_error("checkpoint_missing", "The preserved agent result is missing"));
            },
            Some(checkpoint) => checkpoint,
        };
        let target = match &worktree.resolution_target_oid {
            None => {
                return Err(git_error("resolution_missing", "The resolution starting point is missing"));
            },
            Some(target) => target,
        };
        let reference = branch_reference(worktree.target_branch.as_str());
        Ok(
            (
                Resolution {
                    path: path.clone(),
                    checkpoint: checkpoint.clone(),
                    target: target.clone(),
                },
                rev_parse(reference.as_str()),
            ),
        )
    }

    /// What the acceptance of a resolution does after a command.
    pub fn finalize_conflict_resolution(
        &self,
        worktree: &mut ManagedWorktree,
        resolution: &Resolution,
        step: FinalizeStep,
        reply: &GitReply,
    ) -> (r: Result<FinalizeProgress, GitError>)
        ensures
            finalize_moves(*old(worktree), *final(worktree), *resolution, step, *reply, r),
    {
        match step {
            FinalizeStep::Target => match git_text(reply) {
                Err(e) => Err(e),
                Ok(current) => {
                    if !same_text(current.as_str(), resolution.target.as_str()) {
                        return Err(
                            git_error(
                                "resolution_stale",
                                "The project changed while this conflict was being resolved. The existing resolution was preserved.",
                            ),
                        );
                    }
                    let args = text_list(["add", "-A"]);
                    assert(texts_of(args@) =~= seq!["add"@, "-A"@]);
                    Ok(FinalizeProgress::Run { in_workspace: true, args, step: FinalizeStep::AddAll })
                },
            },
            FinalizeStep::AddAll => match git_ok(reply) {
                Err(e) => Err(e),
                Ok(()) => {
                    let args = text_list(["ls-files", "-u", "-z"]);
                    assert(texts_of(args@) =~= seq!["ls-files"@, "-u"@, "-z"@]);
                    Ok(FinalizeProgress::Run { in_workspace: true, args, step: FinalizeStep::Unmerged })
                },
            },
            FinalizeStep::Unmerged => match git_bytes(reply) {
                Err(e) => Err(e),
                Ok(unmerged) => {
                    if unmerged.len() > 0 {
                        return Err(
                            git_error(
                                "resolution_incomplete",
                                "Some conflicting files still need a decision",
                            ),
                        );
                    }
                    let args = text_list(["diff", "--cached", "--check"]);
                    assert(texts_of(args@) =~= seq!["diff"@, "--cached"@, "--check"@]);
                    Ok(FinalizeProgress::Run { in_workspace: true, args, step: FinalizeStep::Markers })
                },
            },
            FinalizeStep::Markers => match reply {
                GitReply::NotRun(description) => Err(GitError::from_io(description.as_str())),
                GitReply::Ended { code, .. } => {
                    let clean = match code {
                        Some(value) => *value == 0,
                        None => false,
                    };
                    if !clean {
                        return Err(
                            git_error(
                                "resolution_markers_remain",
                                "Conflict markers or invalid whitespace remain in the resolution",
                            ),
                        );
                    }
                    let args = text_list(["write-tree"]);
                    assert(texts_of(args@) =~= seq!["write-tree"@]);
                    Ok(FinalizeProgress::Run { in_workspace: true, args, step: FinalizeStep::Tree })
                },
            },
            FinalizeStep::Tree => match git_text(reply) {
                Err(e) => Err(e),
                Ok(tree) => {
                    let mut message = "Ditch resolved candidate for session ".to_owned();
                    message.append(id_text(worktree.session_id).as_str());
                    let parents = text_list(
                        [resolution.target.as_str(), resolution.checkpoint.as_str()],
                    );
                    assert(texts_of(parents@) =~= seq![resolution.target@, resolution.checkpoint@]);
                    let args = commit_tree(tree.as_str(), &parents, message.as_str());
                    Ok(FinalizeProgress::Run { in_workspace: false, args, step: FinalizeStep::Commit })
                },
            },
            FinalizeStep::Commit => match git_text(reply) {
                Err(e) => Err(e),
                Ok(candidate) => {
                    let reference = candidate_reference(worktree.session_id);
                    Ok(
                        FinalizeProgress::Run {
                            in_workspace: false,
                            args: rev_parse(reference.as_str()),
                            step: FinalizeStep::Previous { candidate },
                        },
                    )
                },
            },
            FinalizeStep::Previous { candidate } => {
                let reference = candidate_reference(worktree.session_id);
                let previous = match git_text(reply) {
                    Ok(previous) => Some(previous),
                    Err(_) => None,
                };
                proof {
                    lemma_candidate_ref_internal(worktree.session_id);
                }
                match update_internal_ref(reference.as_str(), candidate.as_str(), borrowed(&previous)) {
                    Err(e) => Err(e),
                    Ok(args) => Ok(
                        FinalizeProgress::Run {
                            in_workspace: false,
                            args,
                            step: FinalizeStep::Reference { candidate },
                        },
                    ),
                }
            },
            FinalizeStep::Reference { candidate } => match git_ok(reply) {
                Err(e) => Err(e),
                Ok(()) => {
                    record_candidate(
                        worktree,
                        candidate.as_str(),
                        resolution.target.clone(),
                        resolution.checkpoint.clone(),
                    );
                    Ok(FinalizeProgress::Check { candidate })
                },
            },
        }
    }

    /// Records the outcome of the checks of a candidate, and tells whether they
    /// passed.
    pub fn finish_validation(
        &self,
        worktree: &mut ManagedWorktree,
        checks: Vec<ValidationCheck>,
        now: i64,
    ) -> (r: bool)
        ensures
            r == (final(worktree).validation_state == ValidationState::Passed),
            final(worktree).updated_at == now,
            validation_recorded(
                *old(worktree),
                (ManagedWorktree { updated_at: old(worktree).updated_at, ..*final(worktree) }),
                checks,
            ),
    {
        set_validation_result(worktree, checks);
        worktree.updated_at = now;
        matches!(worktree.validation_state, ValidationState::Passed)
    }

    /// Records the outcome of the checks of a resolution, and tells whether its
    /// workspace is to be taken away: once they passed.
    pub fn check_finalized(&self, worktree: &mut ManagedWorktree, checks: Vec<ValidationCheck>) -> (r: bool)
        ensures
            r == (final(worktree).validation_state == ValidationState::Passed),
            validation_recorded(*old(worktree), *final(worktree), checks),
    {
        set_validation_result(worktree, checks);
        matches!(worktree.validation_state, ValidationState::Passed)
    }

    /// Records when a resolution has been accepted, its workspace having been taken
    /// away where it was to be.
    pub fn finish_finalize(&self, worktree: &mut ManagedWorktree, now: i64)
        ensures
            *final(worktree) == (ManagedWorktree { updated_at: now, ..*old(worktree) }),
    {
        worktree.updated_at = now;
    }
}

/// How far the removal of a resolution workspace has come.
#[derive(Debug)]
pub enum CleanupStep {
    Unlock,
    Remove,
    Look,
    Delete,
}

/// What a removal does next.
#[derive(Debug)]
pub enum CleanupProgress {
    Run { args: Vec<String>, step: CleanupStep },
    Done,
}

/// Whether the record has forgotten its resolution workspace.
pub open spec fn resolution_forgotten(before: ManagedWorktree, after: ManagedWorktree) -> bool {
    after == (ManagedWorktree {
        resolution_path: None,
        resolution_branch: None,
        resolution_target_oid: None,
        ..before
    })
}

/// Whether the next thing is a command with the given arguments.
pub open spec fn cleans_on(r: Result<CleanupProgress, GitError>, args: Seq<Seq<char>>) -> bool {
    r matches Ok(CleanupProgress::Run { args: a, .. }) && texts_of(a@) == args
}

/// Whether the removal of a resolution workspace goes on as it should.
pub open spec fn cleanup_moves(
    before: ManagedWorktree,
    after: ManagedWorktree,
    path: Seq<char>,
    step: CleanupStep,
    reply: GitReply,
    r: Result<CleanupProgress, GitError>,
) -> bool {
    match step {
        CleanupStep::Unlock => after == before && match reply_bytes(reply) {
            Err(e) => ends_with_fault(r, e),
            Ok(_) => cleans_on(r, seq!["worktree"@, "remove"@, "--force"@, path]) && r->Ok_0->step is Remove,
        },
        CleanupStep::Remove => match reply_bytes(reply) {
            Err(e) => after == before && ends_with_fault(r, e),
            Ok(_) => match before.resolution_branch {
                None => resolution_forgotten(before, after) && (r matches Ok(CleanupProgress::Done)),
                Some(branch) => after == before && if branch@ != resolver_branch(before.session_id) {
                    ends_with_fault(
                        r,
                        fault(
                            "resolution_ownership_unproven"@,
                            "Refusing to modify a resolver branch whose ownership cannot be proven"@,
                        ),
                    )
                } else {
                    cleans_on(r, seq!["rev-parse"@, "--verify"@, branch_ref(branch@)])
                        && r->Ok_0->step is Look
                },
            },
        },
        CleanupStep::Look => match (reply_text(reply), before.resolution_branch) {
            (Ok(current), Some(branch)) => after == before && cleans_on(
                r,
                seq!["update-ref"@, "-d"@, branch_ref(branch@), current],
            ) && r->Ok_0->step is Delete,
            _ => resolution_forgotten(before, after) && (r matches Ok(CleanupProgress::Done)),
        },
        CleanupStep::Delete => match reply_bytes(reply) {
            Err(e) => after == before && ends_with_fault(r, e),
            Ok(_) => resolution_forgotten(before, after) && (r matches Ok(CleanupProgress::Done)),
        },
    }
}

/// Forgets the resolution workspace.
fn forget_resolution(worktree: &mut ManagedWorktree)
    ensures
        resolution_forgotten(*old(worktree), *final(worktree)),
{
    worktree.resolution_path = None;
    worktree.resolution_branch = None;
    worktree.resolution_target_oid = None;
}

/// The first command that takes the resolution workspace of a result away, where
/// it has one.
pub fn begin_cleanup(worktree: &ManagedWorktree) -> (r: Option<(String, Vec<String>)>)
    ensures
        match worktree.resolution_path {
            None => r is None,
            Some(path) => r matches Some((p, args)) && p@ == path@ && texts_of(args@) == seq![
                "worktree"@,
                "unlock"@,
                path@,
            ],
        },
{
    match &worktree.resolution_path {
        None => None,
        Some(path) => {
            let args = text_list(["worktree", "unlock", path.as_str()]);
            assert(texts_of(args@) =~= seq!["worktree"@, "unlock"@, path@]);
            Some((path.clone(), args))
        },
    }
}

/// What the removal of a resolution workspace does after a command.
pub fn cleanup_resolution_worktree(
    worktree: &mut ManagedWorktree,
    path: &str,
    step: CleanupStep,
    reply: &GitReply,
) -> (r: Result<CleanupProgress, GitError>)
    ensures
        cleanup_moves(*old(worktree), *final(worktree), path@, step, *reply, r),
{
    match step {
        CleanupStep::Unlock => match git_ok(reply) {
            Err(e) => Err(e),
            Ok(()) => {
                let args = text_list(["worktree", "remove", "--force", path]);
                assert(texts_of(args@) =~= seq!["worktree"@, "remove"@, "--force"@, path@]);
                Ok(CleanupProgress::Run { args, step: CleanupStep::Remove })
            },
        },
        CleanupStep::Remove => match git_ok(reply) {
            Err(e) => Err(e),
            Ok(()) => {
                if let Some(branch) = &worktree.resolution_branch {
                    match validate_resolution_branch(worktree.session_id, branch.as_str()) {
                        Ok(()) => {},
                        Err(e) => {
                            return Err(e);
                        },
                    }
                    let reference = branch_reference(branch.as_str());
                    return Ok(
                        CleanupProgress::Run {
                            args: rev_parse(reference.as_str()),
                            step: CleanupStep::Look,
                        },
                    );
                }
                forget_resolution(worktree);
                Ok(CleanupProgress::Done)
            },
        },
        CleanupStep::Look => {
            if let Ok(current) = git_text(reply) {
                if let Some(branch) = &worktree.resolution_branch {
                    let reference = branch_reference(branch.as_str());
                    return Ok(
                        CleanupProgress::Run {
                            args: delete_ref(reference.as_str(), current.as_str()),
                            step: CleanupStep::Delete,
                        },
                    );
                }
            }
            forget_resolution(worktree);
            Ok(CleanupProgress::Done)
        },
        CleanupStep::Delete => match git_ok(reply) {
            Err(e) => Err(e),
            Ok(()) => {
                forget_resolution(worktree);
                Ok(CleanupProgress::Done)
            },
        },
    }
}

/// Why a worktree is taken away.
#[derive(Clone, Copy, Debug, PartialEq, Eq, Structural)]
pub enum Removal {
    Discard,
    Archive,
}

/// What the removal of a worktree does next: preserve unsaved work first, take a
/// resolution workspace away first, or go on.
#[derive(Clone, Copy, Debug, PartialEq, Eq, Structural)]
pub enum RemovalNext {
    Checkpoint,
    GoOn,
}

/// Whether a wish to throw a result away is met as it should be.
pub open spec fn discard_decided(
    before: ManagedWorktree,
    after: ManagedWorktree,
    project_id: u128,
    confirm_dirty: bool,
    seen: RefreshFacts,
    now: i64,
    r: Result<RemovalNext, GitError>,
) -> bool {
    if !is_managed_place(before.path@, project_id, before.session_id) {
        after == before && ends_with_fault(
            r,
            fault(
                "worktree_ownership_unproven"@,
                "Refusing cleanup because the workspace path does not match Ditch ownership metadata"@,
            ),
        )
    } else {
        exists|first: Result<(), GitError>|
            {
                &&& #[trigger] refreshed(before, after, seen, now, first)
                &&& first matches Err(e) ==> ends_with_fault(r, e@)
                &&& first is Ok ==> {
                    let unsaved = after.dirty && after.checkpoint_oid is None;
                    if unsaved && !confirm_dirty {
                        ends_with_fault(
                            r,
                            fault(
                                "dirty_worktree_confirmation_required"@,
                                of_task(
                                    "This"@,
                                    "has unpreserved changes. Confirm discard to preserve a checkpoint before cleanup."@,
                                ),
                            ),
                        )
                    } else {
                        r == Ok::<RemovalNext, GitError>(
                            if unsaved {
                                RemovalNext::Checkpoint
                            } else {
                                RemovalNext::GoOn
                            },
                        )
                    }
                }
            }
    }
}

impl GitCoordinator {
    /// Whether a result may be thrown away, and whether its unsaved changes must
    /// be preserved first.
    pub fn discard(
        &self,
        worktree: &mut ManagedWorktree,
        project_id: u128,
        confirm_dirty: bool,
        seen: &RefreshFacts,
        now: i64,
    ) -> (r: Result<RemovalNext, GitError>)
        ensures
            discard_decided(*old(worktree), *final(worktree), project_id, confirm_dirty, *seen, now, r),
    {
        match verify_managed_path(worktree.path.as_str(), project_id, worktree.session_id) {
            Ok(()) => {},
            Err(e) => {
                return Err(e);
            },
        }
        let first = self.refresh(worktree, seen, now);
        assert(refreshed(*old(worktree), *worktree, *seen, now, first));
        match first {
            Ok(()) => {},
            Err(e) => {
                return Err(e);
            },
        }
        let unsaved = worktree.dirty && worktree.checkpoint_oid.is_none();
        if unsaved && !confirm_dirty {
            return Err(
                git_error(
                    "dirty_worktree_confirmation_required",
                    task_text(
                        "This",
                        "has unpreserved changes. Confirm discard to preserve a checkpoint before cleanup.",
                    ).as_str(),
                ),
            );
        }
        if unsaved {
            Ok(RemovalNext::Checkpoint)
        } else {
            Ok(RemovalNext::GoOn)
        }
    }

    /// Whether an applied result may be put away.
    pub fn archive_integrated(&self, worktree: &ManagedWorktree, project_id: u128) -> (r: Result<
        (),
        GitError,
    >)
        ensures
            if !is_managed_place(worktree.path@, project_id, worktree.session_id) {
                ends_with_fault(
                    r,
                    fault(
                        "worktree_ownership_unproven"@,
                        "Refusing cleanup because the workspace path does not match Ditch ownership metadata"@,
                    ),
                )
            } else if worktree.integration_state != IntegrationState::Applied
                || worktree.checkpoint_oid is None {
                ends_with_fault(
                    r,
                    fault(
                        "archive_not_safe"@,
                        "Integrated work cannot be archived until its checkpoint is durable"@,
                    ),
                )
            } else {
                r is Ok
            },
    {
        match verify_managed_path(worktree.path.as_str(), project_id, worktree.session_id) {
            Ok(()) => {},
            Err(e) => {
                return Err(e);
            },
        }
        if !matches!(worktree.integration_state, IntegrationState::Applied)
            || worktree.checkpoint_oid.is_none() {
            return Err(
                git_error(
                    "archive_not_safe",
                    "Integrated work cannot be archived until its checkpoint is durable",
                ),
            );
        }
        Ok(())
    }

    /// Whether the resolution workspace of a result that is taken away may be
    /// taken away with it.
    pub fn check_resolution(&self, worktree: &ManagedWorktree, project_id: u128) -> (r: Result<(), GitError>)
        ensures
            match worktree.resolution_path {
                None => r is Ok,
                Some(path) => if is_resolution_place(path@, project_id, worktree.session_id) {
                    r is Ok
                } else {
                    ends_with_fault(
                        r,
                        fault(
                            "resolution_ownership_unproven"@,
                            "Refusing to modify a resolution workspace whose ownership cannot be proven"@,
                        ),
                    )
                },
            },
    {
        match &worktree.resolution_path {
            None => Ok(()),
            Some(path) => verify_resolution_path(path.as_str(), project_id, worktree.session_id),
        }
    }
}

/// The arguments that remove a worktree. What an archived result leaves behind,
/// and unsaved changes that a checkpoint preserves, are removed by force.
pub open spec fn remove_args(worktree: ManagedWorktree, removal: Removal) -> Seq<Seq<char>> {
    if removal == Removal::Archive || (worktree.dirty && worktree.checkpoint_oid is Some) {
        seq!["worktree"@, "remove"@, "--force"@, worktree.path@]
    } else {
        seq!["worktree"@, "remove"@, worktree.path@]
    }
}

/// Whether the record shows that a worktree has been taken away.
pub open spec fn removed(before: ManagedWorktree, after: ManagedWorktree, removal: Removal, now: i64) -> bool {
    after == (ManagedWorktree {
        status: if removal == Removal::Discard {
            WorktreeStatus::Discarded
        } else {
            before.status
        },
        lock_state: WorktreeLockState::Missing,
        updated_at: now,
        ..before
    })
}

/// What comes once the directory is gone: the branch is looked up, if it is the
/// runtime's own.
pub open spec fn branch_comes(worktree: ManagedWorktree, r: Result<CleanupProgress, GitError>) -> bool {
    if is_own_branch(worktree.branch_name@) {
        cleans_on(r, seq!["rev-parse"@, "--verify"@, branch_ref(worktree.branch_name@)])
            && r->Ok_0->step is Look
    } else {
        ends_with_fault(r, fault("unsafe_branch"@, "Refusing to mutate a branch not owned by Ditch"@))
    }
}

/// Whether the removal of a worktree goes on as it should after a command.
pub open spec fn removal_moves(
    before: ManagedWorktree,
    after: ManagedWorktree,
    removal: Removal,
    step: CleanupStep,
    reply: GitReply,
    now: i64,
    r: Result<CleanupProgress, GitError>,
) -> bool {
    match step {
        CleanupStep::Unlock => after == before && if reply_bytes(reply) is Err && removal
            == Removal::Discard {
            ends_with_fault(r, reply_bytes(reply)->Err_0)
        } else {
            cleans_on(r, remove_args(before, removal)) && r->Ok_0->step is Remove
        },
        CleanupStep::Remove => after == before && match reply_bytes(reply) {
            Err(e) => ends_with_fault(r, e),
            Ok(_) => branch_comes(before, r),
        },
        CleanupStep::Look => match reply_text(reply) {
            Ok(current) => after == before && cleans_on(
                r,
                seq!["update-ref"@, "-d"@, branch_ref(before.branch_name@), current],
            ) && r->Ok_0->step is Delete,
            Err(_) => removed(before, after, removal, now) && (r matches Ok(CleanupProgress::Done)),
        },
        CleanupStep::Delete => match reply_bytes(reply) {
            Err(e) => after == before && ends_with_fault(r, e),
            Ok(_) => removed(before, after, removal, now) && (r matches Ok(CleanupProgress::Done)),
        },
    }
}

/// The command that looks the branch of a worktree up, if it is the runtime's
/// own.
fn look_for_branch(worktree: &ManagedWorktree) -> (r: Result<CleanupProgress, GitError>)
    ensures
        branch_comes(*worktree, r),
{
    match validate_ditch_branch(worktree.branch_name.as_str()) {
        Err(e) => Err(e),
        Ok(()) => {
            let reference = branch_reference(worktree.branch_name.as_str());
            Ok(CleanupProgress::Run { args: rev_parse(reference.as_str()), step: CleanupStep::Look })
        },
    }
}

/// Records that a worktree has been taken away.
fn record_removal(worktree: &mut ManagedWorktree, removal: Removal, now: i64)
    ensures
        removed(*old(worktree), *final(worktree), removal, now),
{
    if matches!(removal, Removal::Discard) {
        worktree.status = WorktreeStatus::Discarded;
    }
    worktree.lock_state = WorktreeLockState::Missing;
    worktree.updated_at = now;
}

/// The first command that takes a worktree away.
pub fn begin_removal(worktree: &ManagedWorktree, path_exists: bool) -> (r: Result<CleanupProgress, GitError>)
    ensures
        if path_exists {
            cleans_on(r, seq!["worktree"@, "unlock"@, worktree.path@]) && r->Ok_0->step is Unlock
        } else {
            branch_comes(*worktree, r)
        },
{
    if path_exists {
        let args = text_list(["worktree", "unlock", worktree.path.as_str()]);
        assert(texts_of(args@) =~= seq!["worktree"@, "unlock"@, worktree.path@]);
        Ok(CleanupProgress::Run { args, step: CleanupStep::Unlock })
    } else {
        look_for_branch(worktree)
    }
}

/// What the removal of a worktree does after a command.
pub fn continue_removal(
    worktree: &mut ManagedWorktree,
    removal: Removal,
    step: CleanupStep,
    reply: &GitReply,
    now: i64,
) -> (r: Result<CleanupProgress, GitError>)
    ensures
        removal_moves(*old(worktree), *final(worktree), removal, step, *reply, now, r),
{
    match step {
        CleanupStep::Unlock => {
            match git_ok(reply) {
                Err(e) => {
                    if matches!(removal, Removal::Discard) {
                        return Err(e);
                    }
                },
                Ok(()) => {},
            }
            let force = matches!(removal, Removal::Archive) || (worktree.dirty
                && worktree.checkpoint_oid.is_some());
            let args = if force {
                text_list(["worktree", "remove", "--force", worktree.path.as_str()])
            } else {
                text_list(["worktree", "remove", worktree.path.as_str()])
            };
            assert(texts_of(args@) =~= remove_args(*worktree, removal));
            Ok(CleanupProgress::Run { args, step: CleanupStep::Remove })
        },
        CleanupStep::Remove => match git_ok(reply) {
            Err(e) => Err(e),
            Ok(()) => look_for_branch(worktree),
        },
        CleanupStep::Look => match git_text(reply) {
            Ok(current) => {
                let reference = branch_reference(worktree.branch_name.as_str());
                Ok(
                    CleanupProgress::Run {
                        args: delete_ref(reference.as_str(), current.as_str()),
                        step: CleanupStep::Delete,
                    },
                )
            },
            Err(_) => {
                record_removal(worktree, removal, now);
                Ok(CleanupProgress::Done)
            },
        },
        CleanupStep::Delete => match git_ok(reply) {
            Err(e) => Err(e),
            Ok(()) => {
                record_removal(worktree, removal, now);
                Ok(CleanupProgress::Done)
            },
        },
    }
}

/// Changes that no checkpoint preserves are never removed by force, so that Git
/// itself refuses to remove them.
pub proof fn lemma_unsaved_work_is_not_forced(worktree: ManagedWorktree)
    requires
        worktree.dirty,
        worktree.checkpoint_oid is None,
    ensures
        remove_args(worktree, Removal::Discard) == seq!["worktree"@, "remove"@, worktree.path@],
{
}

/// A resolution workspace is made only for a Git conflict, on the session's own
/// branch, at the target as it is now, and the checkpoint on record is what is to be
/// merged into it.
pub proof fn lemma_resolution_is_planned_from_the_record(
    before: ManagedWorktree,
    after: ManagedWorktree,
    project_id: u128,
    root: Seq<char>,
    seen: ResolutionFacts,
    r: Result<ResolutionStart, GitError>,
)
    requires
        resolution_started(before, after, project_id, root, seen, r),
    ensures
        before.conflict_state != ConflictState::GitConflict ==> r is Err && r->Err_0@.code
            == "resolution_not_needed"@ && after == before,
        r is Err ==> after == before,
        r matches Ok(ResolutionStart::Make { plan }) ==> {
            &&& before.conflict_state == ConflictState::GitConflict
            &&& !(before.resolution_path is Some && seen.directory_exists)
            &&& after == before
            &&& before.checkpoint_oid is Some
            &&& plan.checkpoint@ == before.checkpoint_oid->0@
            &&& plan.target@ == reply_text(seen.target)->Ok_0
            &&& plan.branch@ == "ditch/resolver/"@ + simple_hex(before.session_id)
            &&& plan.args@.len() == 9
            &&& plan.args@[0]@ == "worktree"@
            &&& plan.args@[1]@ == "add"@
            &&& plan.args@[2]@ == "--lock"@
            &&& plan.args@[5]@ == "-b"@
            &&& plan.args@[6]@ == plan.branch@
            &&& plan.args@[7]@ == plan.path@
            &&& plan.args@[8]@ == plan.target@
            &&& is_child_place(plan.path@, root)
        },
        r matches Ok(ResolutionStart::Existing { path }) ==> {
            &&& before.resolution_path is Some
            &&& seen.directory_exists
            &&& path@ == before.resolution_path->0@
            &&& after.resolution_target_oid is Some
            &&& before.resolution_target_oid is Some ==> after == before
            &&& reply_bytes(seen.unmerged)->Ok_0.len() > 0 || seen.merge_head->code == Some(0i32)
        },
{
    if r is Ok && r->Ok_0 is Make {
        let args = r->Ok_0->plan.args;
        assert(texts_of(args@).len() == args@.len());
        assert forall|i: int| 0 <= i < args@.len() implies #[trigger] args@[i]@ == texts_of(args@)[i] by {}
    }
}

/// A resolution is on record only where its merge stopped at a conflict, and then
/// with the place, the branch and the target of its plan.
pub proof fn lemma_resolution_is_recorded_at_a_conflict(
    before: ManagedWorktree,
    after: ManagedWorktree,
    plan: ResolutionPlan,
    merge: GitReply,
    now: i64,
    r: Result<String, GitError>,
)
    requires
        resolution_recorded(before, after, plan, merge, now, r),
    ensures
        r is Ok <==> (merge is Ended && merge->code == Some(1i32)),
        r is Err ==> after == before,
        r is Ok ==> {
            &&& r->Ok_0@ == plan.path@
            &&& after.resolution_path is Some && after.resolution_path->0@ == plan.path@
            &&& after.resolution_branch is Some && after.resolution_branch->0@ == plan.branch@
            &&& after.resolution_target_oid is Some && after.resolution_target_oid->0@ == plan.target@
            &&& after.status == WorktreeStatus::NeedsReview
            &&& after.checkpoint_oid == before.checkpoint_oid
            &&& after.updated_at == now
        },
{
}

/// A resolution is accepted only while its target stands still: as soon as the
/// target reads otherwise, nothing more is run.
pub proof fn lemma_stale_resolution_is_not_accepted(
    before: ManagedWorktree,
    after: ManagedWorktree,
    resolution: Resolution,
    reply: GitReply,
    r: Result<FinalizeProgress, GitError>,
)
    requires
        finalize_moves(before, after, resolution, FinalizeStep::Target, reply, r),
        reply_text(reply) is Ok,
    ensures
        after == before,
        reply_text(reply)->Ok_0 != resolution.target@ ==> (r matches Err(e) && e@.code == "resolution_stale"@),
        reply_text(reply)->Ok_0 == resolution.target@ ==> (r matches Ok(
            FinalizeProgress::Run { in_workspace, args, step },
        ) && in_workspace && step is AddAll && texts_of(args@) == seq!["add"@, "-A"@]),
{
}

/// Files without a decision and markers of conflicts stop the acceptance of a
/// resolution.
pub proof fn lemma_unresolved_files_stop_acceptance(
    before: ManagedWorktree,
    after: ManagedWorktree,
    resolution: Resolution,
    reply: GitReply,
    unmerged: Result<FinalizeProgress, GitError>,
    markers: Result<FinalizeProgress, GitError>,
)
    requires
        finalize_moves(before, after, resolution, FinalizeStep::Unmerged, reply, unmerged),
        finalize_moves(before, after, resolution, FinalizeStep::Markers, reply, markers),
    ensures
        unmerged is Ok <==> reply is Ended && reply->code == Some(0i32) && reply->stdout@.len() == 0,
        unmerged is Ok ==> (unmerged->Ok_0 matches FinalizeProgress::Run { in_workspace, args, step }
            && in_workspace && step is Markers && texts_of(args@) == seq!["diff"@, "--cached"@, "--check"@]),
        markers is Ok <==> reply is Ended && reply->code == Some(0i32),
        markers is Ok ==> (markers->Ok_0 matches FinalizeProgress::Run { in_workspace, args, step }
            && in_workspace && step is Tree && texts_of(args@) == seq!["write-tree"@]),
        markers is Err && reply is Ended ==> markers->Err_0@.code == "resolution_markers_remain"@,
        unmerged is Err && reply is Ended && reply->code == Some(0i32) ==> unmerged->Err_0@.code
            == "resolution_incomplete"@,
{
}

/// The commit of a resolution has the target as its first parent and the checkpoint
/// as its second, and becomes the candidate of the session.
pub proof fn lemma_resolved_candidate(
    before: ManagedWorktree,
    after: ManagedWorktree,
    resolution: Resolution,
    candidate: String,
    reply: GitReply,
    tree: Result<FinalizeProgress, GitError>,
    previous: Result<FinalizeProgress, GitError>,
)
    requires
        finalize_moves(before, after, resolution, FinalizeStep::Tree, reply, tree),
        finalize_moves(before, after, resolution, FinalizeStep::Previous { candidate }, reply, previous),
        reply_text(reply) is Ok,
    ensures
        tree matches Ok(FinalizeProgress::Run { in_workspace, args, step }) && {
            &&& !in_workspace
            &&& step is Commit
            &&& args@.len() == 8
            &&& args@[0]@ == "commit-tree"@
            &&& args@[1]@ == reply_text(reply)->Ok_0
            &&& args@[2]@ == "-p"@
            &&& args@[3]@ == resolution.target@
            &&& args@[4]@ == "-p"@
            &&& args@[5]@ == resolution.checkpoint@
        },
        previous matches Ok(FinalizeProgress::Run { in_workspace, args, step }) && {
            &&& !in_workspace
            &&& args@.len() == 4
            &&& args@[0]@ == "update-ref"@
            &&& args@[1]@ == "refs/ditch/candidates/"@ + hyphenated(before.session_id)
            &&& args@[2]@ == candidate@
            &&& args@[3]@ == reply_text(reply)->Ok_0
            &&& step matches FinalizeStep::Reference { candidate: c } && c@ == candidate@
        },
{
    let parents = seq![resolution.target@, resolution.checkpoint@];
    let message = "Ditch resolved candidate for session "@ + hyphenated(before.session_id);
    let all = commit_tree_args(reply_text(reply)->Ok_0, parents, message);
    lemma_commits_name_their_parents(reply_text(reply)->Ok_0, parents, message, 0);
    lemma_commits_name_their_parents(reply_text(reply)->Ok_0, parents, message, 1);
    let args = tree->Ok_0->Run_args;
    assert(texts_of(args@) == all);
    assert(texts_of(args@).len() == args@.len());
    assert forall|i: int| 0 <= i < args@.len() implies #[trigger] args@[i]@ == texts_of(args@)[i] by {}
    assert(all[2] == "-p"@ && all[3] == resolution.target@);
    assert(all[4] == "-p"@ && all[5] == resolution.checkpoint@);
    let more = previous->Ok_0->Run_args;
    assert(texts_of(more@).len() == more@.len());
    assert forall|i: int| 0 <= i < more@.len() implies #[trigger] more@[i]@ == texts_of(more@)[i] by {}
}

/// An accepted resolution leaves its candidate, its target and its checkpoint on
/// record, still to be checked.
pub proof fn lemma_accepted_resolution_is_on_record(
    before: ManagedWorktree,
    after: ManagedWorktree,
    resolution: Resolution,
    candidate: String,
    reply: GitReply,
    r: Result<FinalizeProgress, GitError>,
)
    requires
        finalize_moves(before, after, resolution, FinalizeStep::Reference { candidate }, reply, r),
        reply_bytes(reply) is Ok,
    ensures
        r matches Ok(FinalizeProgress::Check { candidate: c }) && c@ == candidate@,
        after.candidate_oid is Some && after.candidate_oid->0@ == candidate@,
        after.candidate_target_oid is Some && after.candidate_target_oid->0@ == resolution.target@,
        after.candidate_checkpoint_oid is Some && after.candidate_checkpoint_oid->0@ == resolution.checkpoint@,
        after.status == WorktreeStatus::Validating,
        after.validation_state == ValidationState::Running,
{
}

/// A resolution that is accepted is made of what the record holds, and its
/// workspace lies where those of its session lie.
pub proof fn lemma_acceptance_starts_from_the_record(
    worktree: ManagedWorktree,
    project_id: u128,
    r: Result<(Resolution, Vec<String>), GitError>,
)
    requires
        finalize_begun(worktree, project_id, r),
    ensures
        r is Ok <==> worktree.resolution_path is Some && is_resolution_place(
            worktree.resolution_path->0@,
            project_id,
            worktree.session_id,
        ) && worktree.checkpoint_oid is Some && worktree.resolution_target_oid is Some,
        r is Ok ==> {
            &&& r->Ok_0.0.path@ == worktree.resolution_path->0@
            &&& r->Ok_0.0.checkpoint@ == worktree.checkpoint_oid->0@
            &&& r->Ok_0.0.target@ == worktree.resolution_target_oid->0@
            &&& texts_of(r->Ok_0.1@) == seq![
                "rev-parse"@,
                "--verify"@,
                "refs/heads/"@ + worktree.target_branch@,
            ]
        },
{
}

/// Taking a resolution workspace away touches no branch but the resolver branch of
/// the session, and deletes it only from where it was read.
pub proof fn lemma_only_the_resolver_branch_is_deleted(
    before: ManagedWorktree,
    after: ManagedWorktree,
    path: Seq<char>,
    step: CleanupStep,
    reply: GitReply,
    r: Result<CleanupProgress, GitError>,
)
    requires
        cleanup_moves(before, after, path, step, reply, r),
    ensures
        r matches Ok(CleanupProgress::Done) ==> after.resolution_path is None && after.resolution_branch is None
            && after.resolution_target_oid is None && after.checkpoint_oid == before.checkpoint_oid
            && after.status == before.status,
        !(r matches Ok(CleanupProgress::Done)) ==> after == before,
        step is Remove && reply_bytes(reply) is Ok && before.resolution_branch is Some
            && before.resolution_branch->0@ != "ditch/resolver/"@ + simple_hex(before.session_id)
            ==> (r matches Err(e) && e@.code == "resolution_ownership_unproven"@),
        step is Unlock && reply_bytes(reply) is Ok ==> (r matches Ok(CleanupProgress::Run { args, step: next })
            && next is Remove && texts_of(args@) == seq!["worktree"@, "remove"@, "--force"@, path]),
        step is Look && reply_text(reply) is Ok && before.resolution_branch is Some ==> (r matches Ok(
            CleanupProgress::Run { args, step: next },
        ) && next is Delete && texts_of(args@) == seq![
            "update-ref"@,
            "-d"@,
            "refs/heads/"@ + before.resolution_branch->0@,
            reply_text(reply)->Ok_0,
        ]),
        reply_bytes(reply) is Err && !(step is Look) ==> r is Err,
{
}

/// A workspace that is abandoned is taken away in a fixed order, whatever its
/// commands answer, and its branch is deleted only where it was found.
pub proof fn lemma_abandoned_workspaces_are_taken_away(plan: ResolutionPlan, step: AbandonStep, reply: GitReply)
    ensures
        step is Abort ==> abandon_next(plan, step, reply) == Some(
            (seq!["worktree"@, "unlock"@, plan.path@], AbandonStep::Unlock),
        ),
        step is Unlock ==> abandon_next(plan, step, reply) == Some(
            (seq!["worktree"@, "remove"@, "--force"@, plan.path@], AbandonStep::Remove),
        ),
        step is Remove ==> abandon_next(plan, step, reply) == Some(
            (seq!["rev-parse"@, "--verify"@, "refs/heads/"@ + plan.branch@], AbandonStep::Look),
        ),
        step is Look ==> (abandon_next(plan, step, reply) is Some <==> reply_text(reply) is Ok),
        step is Look && reply_text(reply) is Ok ==> abandon_next(plan, step, reply) == Some(
            (
                seq!["update-ref"@, "-d"@, "refs/heads/"@ + plan.branch@, reply_text(reply)->Ok_0],
                AbandonStep::Delete,
            ),
        ),
        step is Delete ==> abandon_next(plan, step, reply) is None,
{
}

/// Unsaved changes are thrown away only after the user said so, and even then a
/// checkpoint preserves them first. A place that is not the runtime's own is never
/// touched.
pub proof fn lemma_unsaved_work_needs_consent(
    before: ManagedWorktree,
    after: ManagedWorktree,
    project_id: u128,
    confirm_dirty: bool,
    seen: RefreshFacts,
    now: i64,
    r: Result<RemovalNext, GitError>,
)
    requires
        discard_decided(before, after, project_id, confirm_dirty, seen, now, r),
    ensures
        !is_managed_place(before.path@, project_id, before.session_id) ==> r is Err && after == before
            && r->Err_0@.code == "worktree_ownership_unproven"@,
        r == Ok::<RemovalNext, GitError>(RemovalNext::Checkpoint) ==> confirm_dirty && after.dirty
            && after.checkpoint_oid is None,
        r == Ok::<RemovalNext, GitError>(RemovalNext::GoOn) ==> !after.dirty || after.checkpoint_oid is Some,
        r is Ok && !confirm_dirty ==> !after.dirty || after.checkpoint_oid is Some,
{
}

/// Force is used to remove a worktree exactly where nothing can be lost: an archived
/// result, or changes that a checkpoint preserves.
pub proof fn lemma_force_only_where_nothing_is_lost(worktree: ManagedWorktree, removal: Removal)
    ensures
        removal == Removal::Archive || (worktree.dirty && worktree.checkpoint_oid is Some) ==> remove_args(
            worktree,
            removal,
        ) == seq!["worktree"@, "remove"@, "--force"@, worktree.path@],
        removal == Removal::Discard && !(worktree.dirty && worktree.checkpoint_oid is Some) ==> remove_args(
            worktree,
            removal,
        ) == seq!["worktree"@, "remove"@, worktree.path@],
{
}

/// A worktree that has been taken away is recorded as missing, and as discarded only
/// where it was thrown away. Its branch is deleted only where it is the runtime's
/// own, and only from where it was read.
pub proof fn lemma_removal_is_recorded(
    before: ManagedWorktree,
    after: ManagedWorktree,
    removal: Removal,
    step: CleanupStep,
    reply: GitReply,
    now: i64,
    r: Result<CleanupProgress, GitError>,
)
    requires
        removal_moves(before, after, removal, step, reply, now, r),
    ensures
        r matches Ok(CleanupProgress::Done) ==> {
            &&& after.lock_state == WorktreeLockState::Missing
            &&& removal == Removal::Discard ==> after.status == WorktreeStatus::Discarded
            &&& removal == Removal::Archive ==> after.status == before.status
            &&& after.checkpoint_oid == before.checkpoint_oid
            &&& after.updated_at == now
            &&& step is Look || step is Delete
        },
        !(r matches Ok(CleanupProgress::Done)) ==> after == before,
        step is Unlock && reply_bytes(reply) is Err ==> (r is Err <==> removal == Removal::Discard),
        step is Remove && reply_bytes(reply) is Ok ==> (r is Ok <==> is_own_branch(before.branch_name@)),
        step is Look && reply_text(reply) is Ok ==> (r matches Ok(CleanupProgress::Run { args, step: next })
            && next is Delete && texts_of(args@) == seq![
            "update-ref"@,
            "-d"@,
            "refs/heads/"@ + before.branch_name@,
            reply_text(reply)->Ok_0,
        ]),
{
}

/// A merge leaves something to resolve only where it ended with the code for
/// conflicts.
pub proof fn lemma_conflicts_have_their_code(merge: GitReply)
    ensures
        merge matches GitReply::Ended { code, .. } ==> (leaves_nothing_to_resolve(merge) <==> code != Some(1i32)),
        !(merge is Ended) ==> !leaves_nothing_to_resolve(merge),
{
}

} // verus!
