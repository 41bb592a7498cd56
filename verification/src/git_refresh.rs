//! Holding the record of a worktree against what Git and the disk show.

use crate::git_command::{
    branch_ref, branch_reference, changed_paths, git_bytes, git_text, reply_bytes, reply_paths, reply_text,
    GitReply,
};
use crate::git_coordinator::GitCoordinator;
use crate::git_names::{is_resolution_place, verify_resolution_path};
use crate::git_paths::{fault, GitError, GitFault, ListedWorktree};
use crate::git_worktree::{
    IntegrationState, ManagedWorktree, ValidationState, WorktreeLockState, WorktreeStatus,
};
use crate::order::ordered;
use crate::text::{is_text, same_text, text_of, texts_of};
use vstd::prelude::*;

verus! {

/// A listed worktree with the place that its path resolves to.
#[derive(Debug)]
pub struct SeenWorktree {
    pub listed: ListedWorktree,
    pub place: String,
}

/// What was seen of a worktree: whether its directory is there, the place that
/// its path resolves to, all worktrees that Git lists, and the answers of Git in
/// the worktree for its head and its status.
#[derive(Debug)]
pub struct RefreshFacts {
    pub directory_exists: bool,
    pub place: String,
    pub listed: Result<Vec<SeenWorktree>, GitError>,
    pub head: GitReply,
    pub status: GitReply,
}

/// The first of the listed worktrees at a place.
pub open spec fn listed_at(list: Seq<SeenWorktree>, place: Seq<char>) -> Option<ListedWorktree>
    decreases list.len(),
{
    if list.len() == 0 {
        None
    } else if list[0].place@ == place {
        Some(list[0].listed)
    } else {
        listed_at(list.skip(1), place)
    }
}

/// What a look at a worktree comes to.
pub enum RefreshOutcome {
    /// The worktree is not where it should be.
    Lost(Seq<char>),
    /// The path belongs to another branch now.
    Moved,
    /// Git could not be asked.
    Unlisted(GitFault),
    /// The head could not be read.
    Headless(GitFault, bool),
    /// The changes could not be read.
    Unreadable(GitFault, bool, Seq<char>),
    /// The worktree is there: whether it is locked, its head and its changes.
    Present(bool, Seq<char>, Set<Seq<char>>),
}

/// What a look at a worktree comes to.
pub open spec fn refresh_outcome(worktree: ManagedWorktree, seen: RefreshFacts) -> RefreshOutcome {
    if !seen.directory_exists {
        RefreshOutcome::Lost("The managed workspace directory was removed outside Ditch"@)
    } else {
        match seen.listed {
            Err(e) => RefreshOutcome::Unlisted(e@),
            Ok(list) => match listed_at(list@, seen.place@) {
                None => RefreshOutcome::Lost("The managed worktree is missing from Git metadata"@),
                Some(actual) => if text_of(actual.branch) != Some(branch_ref(worktree.branch_name@)) {
                    RefreshOutcome::Moved
                } else {
                    match reply_text(seen.head) {
                        Err(e) => RefreshOutcome::Headless(e, actual.locked),
                        Ok(head) => match reply_paths(seen.status) {
                            Err(e) => RefreshOutcome::Unreadable(e, actual.locked, head),
                            Ok(paths) => RefreshOutcome::Present(actual.locked, head, paths),
                        },
                    }
                },
            },
        }
    }
}

pub open spec fn lock_of(locked: bool) -> WorktreeLockState {
    if locked {
        WorktreeLockState::Locked
    } else {
        WorktreeLockState::Unlocked
    }
}

/// The status of a worktree that is there.
pub open spec fn status_when_present(status: WorktreeStatus, dirty: bool) -> WorktreeStatus {
    if status == WorktreeStatus::Creating {
        if dirty {
            WorktreeStatus::Dirty
        } else {
            WorktreeStatus::Ready
        }
    } else if status == WorktreeStatus::Ready || status == WorktreeStatus::Active || status
        == WorktreeStatus::Dirty {
        if dirty {
            WorktreeStatus::Dirty
        } else {
            WorktreeStatus::Active
        }
    } else {
        status
    }
}

/// Whether a record has been brought up to date with what was seen.
pub open spec fn refreshed(
    before: ManagedWorktree,
    after: ManagedWorktree,
    seen: RefreshFacts,
    now: i64,
    result: Result<(), GitError>,
) -> bool {
    match refresh_outcome(before, seen) {
        RefreshOutcome::Lost(reason) => {
            &&& result is Ok
            &&& text_of(after.last_error) == Some(reason)
            &&& after == (ManagedWorktree {
                status: WorktreeStatus::RecoveryNeeded,
                lock_state: WorktreeLockState::Missing,
                last_error: after.last_error,
                last_reconciled_at: Some(now),
                updated_at: now,
                ..before
            })
        },
        RefreshOutcome::Moved => {
            &&& result is Ok
            &&& text_of(after.last_error) == Some("The managed path now points at a different branch"@)
            &&& after == (ManagedWorktree {
                status: WorktreeStatus::RecoveryNeeded,
                last_error: after.last_error,
                ..before
            })
        },
        RefreshOutcome::Unlisted(e) => {
            &&& result is Err
            &&& result->Err_0@ == e
            &&& after == before
        },
        RefreshOutcome::Headless(e, locked) => {
            &&& result is Err
            &&& result->Err_0@ == e
            &&& after == (ManagedWorktree { lock_state: lock_of(locked), ..before })
        },
        RefreshOutcome::Unreadable(e, locked, head) => {
            &&& result is Err
            &&& result->Err_0@ == e
            &&& after.head_oid@ == head
            &&& after == (ManagedWorktree { lock_state: lock_of(locked), head_oid: after.head_oid, ..before })
        },
        RefreshOutcome::Present(locked, head, paths) => {
            &&& result is Ok
            &&& after.head_oid@ == head
            &&& ordered(texts_of(after.changed_paths@))
            &&& texts_of(after.changed_paths@).to_set() == paths
            &&& after.dirty == (after.changed_paths@.len() > 0)
            &&& after.operation == (if before.status == WorktreeStatus::Creating {
                None
            } else {
                before.operation
            })
            &&& after == (ManagedWorktree {
                lock_state: lock_of(locked),
                head_oid: after.head_oid,
                changed_paths: after.changed_paths,
                dirty: after.dirty,
                operation: after.operation,
                status: status_when_present(before.status, after.dirty),
                last_reconciled_at: Some(now),
                updated_at: now,
                ..before
            })
        },
    }
}

/// The place in a list of the first worktree at a path.
fn find_listed(list: &Vec<SeenWorktree>, place: &str) -> (r: Option<usize>)
    ensures
        match r {
            Some(i) => i < list.len() && listed_at(list@, place@) == Some(list@[i as int].listed),
            None => listed_at(list@, place@) is None,
        },
{
    let mut i: usize = 0;
    assert(list@.skip(0) =~= list@);
    while i < list.len()
        invariant
            0 <= i <= list.len(),
            listed_at(list@, place@) == listed_at(list@.skip(i as int), place@),
        decreases list.len() - i,
    {
        if same_text(list[i].place.as_str(), place) {
            return Some(i);
        }
        assert(list@.skip(i as int).skip(1) =~= list@.skip(i + 1));
        i += 1;
    }
    None
}

impl GitCoordinator {
    /// Brings the record of a worktree up to date with what was seen of it.
    pub fn refresh(&self, worktree: &mut ManagedWorktree, seen: &RefreshFacts, now: i64) -> (r: Result<
        (),
        GitError,
    >)
        ensures
            refreshed(*old(worktree), *final(worktree), *seen, now, r),
    {
        if !seen.directory_exists {
            worktree.status = WorktreeStatus::RecoveryNeeded;
            worktree.lock_state = WorktreeLockState::Missing;
            worktree.last_error = Some("The managed workspace directory was removed outside Ditch".to_owned());
            worktree.last_reconciled_at = Some(now);
            worktree.updated_at = now;
            return Ok(());
        }
        let list = match &seen.listed {
            Ok(list) => list,
            Err(e) => {
                return Err(e.copy());
            },
        };
        let actual = match find_listed(list, seen.place.as_str()) {
            Some(i) => &list[i].listed,
            None => {
                worktree.status = WorktreeStatus::RecoveryNeeded;
                worktree.lock_state = WorktreeLockState::Missing;
                worktree.last_error = Some("The managed worktree is missing from Git metadata".to_owned());
                worktree.last_reconciled_at = Some(now);
                worktree.updated_at = now;
                return Ok(());
            },
        };
        let expected = branch_reference(worktree.branch_name.as_str());
        if !is_text(&actual.branch, expected.as_str()) {
            worktree.status = WorktreeStatus::RecoveryNeeded;
            worktree.last_error = Some("The managed path now points at a different branch".to_owned());
            return Ok(());
        }
        worktree.lock_state = if actual.locked {
            WorktreeLockState::Locked
        } else {
            WorktreeLockState::Unlocked
        };
        match git_text(&seen.head) {
            Ok(head) => {
                worktree.head_oid = head;
            },
            Err(e) => {
                return Err(e);
            },
        }
        match changed_paths(&seen.status) {
            Ok(paths) => {
                worktree.changed_paths = paths;
            },
            Err(e) => {
                return Err(e);
            },
        }
        worktree.dirty = worktree.changed_paths.len() > 0;
        if matches!(worktree.status, WorktreeStatus::Creating) {
            worktree.operation = None;
            worktree.status = if worktree.dirty {
                WorktreeStatus::Dirty
            } else {
                WorktreeStatus::Ready
            };
        } else if matches!(
            worktree.status,
            WorktreeStatus::Ready | WorktreeStatus::Active | WorktreeStatus::Dirty
        ) {
            worktree.status = if worktree.dirty {
                WorktreeStatus::Dirty
            } else {
                WorktreeStatus::Active
            };
        }
        worktree.last_reconciled_at = Some(now);
        worktree.updated_at = now;
        Ok(())
    }
}

/// What was seen of the operation that a worktree was left in: the answer of Git
/// for its target, and for its resolution workspace whether the directory is
/// there, the unmerged files, whether a merge is under way, and its head.
#[derive(Debug)]
pub struct OperationFacts {
    pub target: GitReply,
    pub resolution_exists: bool,
    pub unmerged: GitReply,
    pub merge_head: GitReply,
    pub resolution_head: GitReply,
}

/// What an interrupted operation comes to.
pub enum OperationOutcome {
    Failed(GitFault),
    NothingToDo,
    Applied,
    StillReady,
    TargetMoved,
    PrepareAgain,
    ResolutionUnderWay(Option<Seq<char>>),
    ResolutionStuck,
    ResolutionGone,
}

/// Whether a merge is under way in a resolution workspace.
pub open spec fn merge_under_way(seen: OperationFacts) -> Result<bool, GitFault> {
    match reply_bytes(seen.unmerged) {
        Err(e) => Err(e),
        Ok(unmerged) => match seen.merge_head {
            GitReply::NotRun(description) => Err(fault("git_io_failed"@, description@)),
            GitReply::Ended { code, .. } => Ok(unmerged.len() > 0 || code == Some(0i32)),
        },
    }
}

/// What an interrupted operation comes to.
pub open spec fn operation_outcome(
    worktree: ManagedWorktree,
    project_id: u128,
    seen: OperationFacts,
) -> OperationOutcome {
    let operation = text_of(worktree.operation);
    if operation == Some("apply_integration"@) {
        match reply_text(seen.target) {
            Err(e) => OperationOutcome::Failed(e),
            Ok(target) => if text_of(worktree.candidate_oid) == Some(target) {
                OperationOutcome::Applied
            } else if text_of(worktree.candidate_target_oid) == Some(target) {
                OperationOutcome::StillReady
            } else {
                OperationOutcome::TargetMoved
            },
        }
    } else if operation == Some("prepare_integration"@) {
        OperationOutcome::PrepareAgain
    } else if operation == Some("create_resolution"@) {
        match worktree.resolution_path {
            None => OperationOutcome::NothingToDo,
            Some(path) => if !is_resolution_place(path@, project_id, worktree.session_id) {
                OperationOutcome::Failed(
                    fault(
                        "resolution_ownership_unproven"@,
                        "Refusing to modify a resolution workspace whose ownership cannot be proven"@,
                    ),
                )
            } else if !seen.resolution_exists {
                OperationOutcome::ResolutionGone
            } else {
                match merge_under_way(seen) {
                    Err(e) => OperationOutcome::Failed(e),
                    Ok(true) => if worktree.resolution_target_oid is Some {
                        OperationOutcome::ResolutionUnderWay(None)
                    } else {
                        match reply_text(seen.resolution_head) {
                            Err(e) => OperationOutcome::Failed(e),
                            Ok(head) => OperationOutcome::ResolutionUnderWay(Some(head)),
                        }
                    },
                    Ok(false) => OperationOutcome::ResolutionStuck,
                }
            },
        }
    } else {
        OperationOutcome::NothingToDo
    }
}

/// Whether an interrupted operation has been settled.
pub open spec fn settled(
    before: ManagedWorktree,
    after: ManagedWorktree,
    project_id: u128,
    seen: OperationFacts,
    now: i64,
    result: Result<(), GitError>,
) -> bool {
    match operation_outcome(before, project_id, seen) {
        OperationOutcome::Failed(e) => {
            &&& result is Err
            &&& result->Err_0@ == e
            &&& after == before
        },
        OperationOutcome::NothingToDo => {
            &&& result is Ok
            &&& after == (ManagedWorktree { updated_at: now, ..before })
        },
        OperationOutcome::Applied => {
            &&& result is Ok
            &&& after == (ManagedWorktree {
                status: WorktreeStatus::Integrated,
                integration_state: IntegrationState::Applied,
                operation: None,
                updated_at: now,
                ..before
            })
        },
        OperationOutcome::StillReady => {
            &&& result is Ok
            &&& after == (ManagedWorktree {
                status: WorktreeStatus::ReadyToApply,
                integration_state: IntegrationState::Ready,
                operation: None,
                updated_at: now,
                ..before
            })
        },
        OperationOutcome::TargetMoved => {
            &&& result is Ok
            &&& text_of(after.last_error) == Some(
                "The target moved during recovery; integration must be recomputed"@,
            )
            &&& after == (ManagedWorktree {
                status: WorktreeStatus::NeedsReview,
                integration_state: IntegrationState::Queued,
                operation: None,
                last_error: after.last_error,
                updated_at: now,
                ..before
            })
        },
        OperationOutcome::PrepareAgain => {
            &&& result is Ok
            &&& text_of(after.last_error) == Some("Preparation was interrupted and must be run again"@)
            &&& after == (ManagedWorktree {
                status: WorktreeStatus::NeedsReview,
                integration_state: IntegrationState::Queued,
                validation_state: ValidationState::NotRun,
                operation: None,
                last_error: after.last_error,
                updated_at: now,
                ..before
            })
        },
        OperationOutcome::ResolutionUnderWay(head) => {
            &&& result is Ok
            &&& match head {
                Some(head) => text_of(after.resolution_target_oid) == Some(head),
                None => after.resolution_target_oid == before.resolution_target_oid,
            }
            &&& after == (ManagedWorktree {
                resolution_target_oid: after.resolution_target_oid,
                status: WorktreeStatus::NeedsReview,
                operation: None,
                updated_at: now,
                ..before
            })
        },
        OperationOutcome::ResolutionStuck => {
            &&& result is Ok
            &&& text_of(after.last_error) == Some(
                "Conflict resolution creation was interrupted before Git prepared the merge"@,
            )
            &&& after == (ManagedWorktree {
                status: WorktreeStatus::RecoveryNeeded,
                last_error: after.last_error,
                updated_at: now,
                ..before
            })
        },
        OperationOutcome::ResolutionGone => {
            &&& result is Ok
            &&& after == (ManagedWorktree {
                resolution_path: None,
                resolution_branch: None,
                resolution_target_oid: None,
                operation: None,
                status: WorktreeStatus::ConflictRisk,
                updated_at: now,
                ..before
            })
        },
    }
}

/// Whether a merge is under way in a resolution workspace.
pub fn resolution_merge(unmerged: &GitReply, merge_head: &GitReply) -> (r: Result<bool, GitError>)
    ensures
        match r {
            Ok(b) => reply_bytes(*unmerged) is Ok && *merge_head is Ended && b == (reply_bytes(
                *unmerged,
            )->Ok_0.len() > 0 || merge_head->code == Some(0i32)),
            Err(e) => match reply_bytes(*unmerged) {
                Err(f) => e@ == f,
                Ok(_) => *merge_head is NotRun && e@ == fault("git_io_failed"@, merge_head->NotRun_0@),
            },
        },
{
    match git_bytes(unmerged) {
        Err(e) => Err(e),
        Ok(bytes) => match merge_head {
            GitReply::NotRun(description) => Err(GitError::from_io(description.as_str())),
            GitReply::Ended { code, .. } => {
                let found = match code {
                    Some(value) => *value == 0,
                    None => false,
                };
                Ok(bytes.len() > 0 || found)
            },
        },
    }
}

/// Settles the operation that a worktree was left in, once its record is up to
/// date.
pub fn settle_operation(
    worktree: &mut ManagedWorktree,
    project_id: u128,
    seen: &OperationFacts,
    now: i64,
) -> (r: Result<(), GitError>)
    ensures
        settled(*old(worktree), *final(worktree), project_id, *seen, now, r),
{
    if is_text(&worktree.operation, "apply_integration") {
        let target = match git_text(&seen.target) {
            Ok(target) => target,
            Err(e) => {
                return Err(e);
            },
        };
        if is_text(&worktree.candidate_oid, target.as_str()) {
            worktree.status = WorktreeStatus::Integrated;
            worktree.integration_state = IntegrationState::Applied;
            worktree.operation = None;
        } else if is_text(&worktree.candidate_target_oid, target.as_str()) {
            worktree.status = WorktreeStatus::ReadyToApply;
            worktree.integration_state = IntegrationState::Ready;
            worktree.operation = None;
        } else {
            worktree.status = WorktreeStatus::NeedsReview;
            worktree.integration_state = IntegrationState::Queued;
            worktree.operation = None;
            worktree.last_error = Some(
                "The target moved during recovery; integration must be recomputed".to_owned(),
            );
        }
    } else if is_text(&worktree.operation, "prepare_integration") {
        worktree.status = WorktreeStatus::NeedsReview;
        worktree.integration_state = IntegrationState::Queued;
        worktree.validation_state = ValidationState::NotRun;
        worktree.operation = None;
        worktree.last_error = Some("Preparation was interrupted and must be run again".to_owned());
    } else if is_text(&worktree.operation, "create_resolution") {
        if let Some(path) = &worktree.resolution_path {
            match verify_resolution_path(path.as_str(), project_id, worktree.session_id) {
                Ok(()) => {},
                Err(e) => {
                    return Err(e);
                },
            }
            if seen.resolution_exists {
                let under_way = match resolution_merge(&seen.unmerged, &seen.merge_head) {
                    Ok(b) => b,
                    Err(e) => {
                        return Err(e);
                    },
                };
                if under_way {
                    if worktree.resolution_target_oid.is_none() {
                        match git_text(&seen.resolution_head) {
                            Ok(head) => {
                                worktree.resolution_target_oid = Some(head);
                            },
                            Err(e) => {
                                return Err(e);
                            },
                        }
                    }
                    worktree.status = WorktreeStatus::NeedsReview;
                    worktree.operation = None;
                } else {
                    worktree.status = WorktreeStatus::RecoveryNeeded;
                    worktree.last_error = Some(
                        "Conflict resolution creation was interrupted before Git prepared the merge".to_owned(),
                    );
                }
            } else {
                worktree.resolution_path = None;
                worktree.resolution_branch = None;
                worktree.resolution_target_oid = None;
                worktree.operation = None;
                worktree.status = WorktreeStatus::ConflictRisk;
            }
        }
    }
    worktree.updated_at = now;
    Ok(())
}

impl GitCoordinator {
    /// Brings the record of a worktree up to date and settles the operation that
    /// it was left in.
    pub fn reconcile_operation(
        &self,
        worktree: &mut ManagedWorktree,
        project_id: u128,
        seen: &RefreshFacts,
        left: &OperationFacts,
        now: i64,
    ) -> (r: Result<(), GitError>)
        ensures
            exists|middle: ManagedWorktree, first: Result<(), GitError>|
                {
                    &&& #[trigger] refreshed(*old(worktree), middle, *seen, now, first)
                    &&& first is Err ==> r == first && *final(worktree) == middle
                    &&& first is Ok ==> settled(middle, *final(worktree), project_id, *left, now, r)
                },
    {
        let first = self.refresh(worktree, seen, now);
        let ghost middle = *worktree;
        assert(refreshed(*old(worktree), middle, *seen, now, first));
        match first {
            Err(e) => Err(e),
            Ok(()) => settle_operation(worktree, project_id, left, now),
        }
    }
}

/// A worktree that is gone is never taken for one that can be worked on.
pub proof fn lemma_lost_needs_recovery(
    before: ManagedWorktree,
    after: ManagedWorktree,
    seen: RefreshFacts,
    now: i64,
    result: Result<(), GitError>,
)
    requires
        refreshed(before, after, seen, now, result),
        !seen.directory_exists || (seen.listed matches Ok(list) && listed_at(list@, seen.place@) is None),
    ensures
        result is Ok,
        after.status == WorktreeStatus::RecoveryNeeded,
        after.lock_state == WorktreeLockState::Missing,
        after.last_error is Some,
        after.checkpoint_oid == before.checkpoint_oid,
{
}

/// An interrupted application is recorded as applied exactly where the target
/// reads the commit of the candidate. Where the target is still what the candidate
/// was made for, the result is ready to apply again; anywhere else it must be
/// prepared again.
pub proof fn lemma_applied_means_target_is_candidate(
    before: ManagedWorktree,
    after: ManagedWorktree,
    project_id: u128,
    seen: OperationFacts,
    now: i64,
    result: Result<(), GitError>,
    target: Seq<char>,
)
    requires
        settled(before, after, project_id, seen, now, result),
        text_of(before.operation) == Some("apply_integration"@),
        reply_text(seen.target) == Ok::<Seq<char>, GitFault>(target),
    ensures
        result is Ok,
        after.operation is None,
        text_of(before.candidate_oid) == Some(target) ==> after.status == WorktreeStatus::Integrated
            && after.integration_state == IntegrationState::Applied,
        text_of(before.candidate_oid) != Some(target) ==> after.status != WorktreeStatus::Integrated
            && after.integration_state != IntegrationState::Applied,
        text_of(before.candidate_oid) != Some(target) && text_of(before.candidate_target_oid) == Some(target)
            ==> after.status == WorktreeStatus::ReadyToApply && after.integration_state
            == IntegrationState::Ready && after.last_error == before.last_error,
        text_of(before.candidate_oid) != Some(target) && text_of(before.candidate_target_oid) != Some(target)
            ==> after.status == WorktreeStatus::NeedsReview && after.integration_state
            == IntegrationState::Queued && after.last_error is Some,
        after.candidate_oid == before.candidate_oid,
        after.candidate_target_oid == before.candidate_target_oid,
        after.checkpoint_oid == before.checkpoint_oid,
        after.updated_at == now,
{
}

/// A preparation that was interrupted is never taken for one that succeeded: it
/// is queued again, and its checks count as not run.
pub proof fn lemma_interrupted_preparation_is_queued(
    before: ManagedWorktree,
    after: ManagedWorktree,
    project_id: u128,
    seen: OperationFacts,
    now: i64,
    result: Result<(), GitError>,
)
    requires
        settled(before, after, project_id, seen, now, result),
        text_of(before.operation) == Some("prepare_integration"@),
    ensures
        result is Ok,
        after.operation is None,
        after.status == WorktreeStatus::NeedsReview,
        after.integration_state == IntegrationState::Queued,
        after.validation_state == ValidationState::NotRun,
        text_of(after.last_error) == Some("Preparation was interrupted and must be run again"@),
{
    reveal_strlit("apply_integration");
    reveal_strlit("prepare_integration");
    assert("apply_integration"@.len() == 17);
    assert("prepare_integration"@.len() == 19);
}

/// The creation of a resolution that was interrupted: a directory that is gone
/// leaves nothing of the resolution in the record, a directory in which a merge is
/// under way is kept for the user, and one without a merge asks for recovery.
pub proof fn lemma_interrupted_resolution(
    before: ManagedWorktree,
    after: ManagedWorktree,
    project_id: u128,
    seen: OperationFacts,
    now: i64,
    result: Result<(), GitError>,
)
    requires
        settled(before, after, project_id, seen, now, result),
        text_of(before.operation) == Some("create_resolution"@),
        before.resolution_path is Some,
        result is Ok,
    ensures
        !seen.resolution_exists ==> after.resolution_path is None && after.resolution_branch is None
            && after.resolution_target_oid is None && after.operation is None && after.status
            == WorktreeStatus::ConflictRisk,
        seen.resolution_exists ==> after.resolution_path == before.resolution_path
            && after.resolution_branch == before.resolution_branch,
        seen.resolution_exists && (reply_bytes(seen.unmerged)->Ok_0.len() > 0 || seen.merge_head->code
            == Some(0i32)) ==> after.status == WorktreeStatus::NeedsReview && after.operation is None
            && after.resolution_target_oid is Some && (before.resolution_target_oid is Some
            ==> after.resolution_target_oid == before.resolution_target_oid) && (
        before.resolution_target_oid is None ==> reply_text(seen.resolution_head) == Ok::<
            Seq<char>,
            GitFault,
        >(after.resolution_target_oid->0@)),
        seen.resolution_exists && reply_bytes(seen.unmerged)->Ok_0.len() == 0 && seen.merge_head->code
            != Some(0i32) ==> after.status == WorktreeStatus::RecoveryNeeded && after.operation
            == before.operation && after.last_error is Some,
{
    reveal_strlit("apply_integration");
    reveal_strlit("prepare_integration");
    reveal_strlit("create_resolution");
    assert("apply_integration"@[0] != "create_resolution"@[0]);
    assert("prepare_integration"@.len() == 19);
    assert("create_resolution"@.len() == 17);
}

/// Where no operation was left, or one that needs nothing, only the time of the
/// record moves.
pub proof fn lemma_nothing_left_changes_nothing(
    before: ManagedWorktree,
    after: ManagedWorktree,
    project_id: u128,
    seen: OperationFacts,
    now: i64,
    result: Result<(), GitError>,
)
    requires
        settled(before, after, project_id, seen, now, result),
        before.operation is None,
    ensures
        result is Ok,
        after == (ManagedWorktree { updated_at: now, ..before }),
{
}

/// What Git could not tell leaves the record as it was.
pub proof fn lemma_unread_target_settles_nothing(
    before: ManagedWorktree,
    after: ManagedWorktree,
    project_id: u128,
    seen: OperationFacts,
    now: i64,
    result: Result<(), GitError>,
)
    requires
        settled(before, after, project_id, seen, now, result),
        text_of(before.operation) == Some("apply_integration"@),
        reply_text(seen.target) is Err,
    ensures
        result is Err,
        result->Err_0@ == reply_text(seen.target)->Err_0,
        after == before,
{
}

/// A look at a worktree that is there records what was seen: the head that Git
/// reads, the lock, and as changes exactly the paths that Git lists.
pub proof fn lemma_present_worktrees_are_recorded(
    before: ManagedWorktree,
    after: ManagedWorktree,
    seen: RefreshFacts,
    now: i64,
    result: Result<(), GitError>,
    actual: ListedWorktree,
)
    requires
        refreshed(before, after, seen, now, result),
        seen.directory_exists,
        seen.listed is Ok,
        listed_at(seen.listed->Ok_0@, seen.place@) == Some(actual),
        text_of(actual.branch) == Some(branch_ref(before.branch_name@)),
        reply_text(seen.head) is Ok,
        reply_paths(seen.status) is Ok,
    ensures
        result is Ok,
        after.head_oid@ == reply_text(seen.head)->Ok_0,
        texts_of(after.changed_paths@).to_set() == reply_paths(seen.status)->Ok_0,
        after.dirty == (after.changed_paths@.len() > 0),
        actual.locked ==> after.lock_state == WorktreeLockState::Locked,
        !actual.locked ==> after.lock_state == WorktreeLockState::Unlocked,
        after.last_reconciled_at == Some(now),
        before.status == WorktreeStatus::Creating ==> after.operation is None && after.status == (
        if after.dirty {
            WorktreeStatus::Dirty
        } else {
            WorktreeStatus::Ready
        }),
        before.status == WorktreeStatus::Ready || before.status == WorktreeStatus::Active || before.status
            == WorktreeStatus::Dirty ==> after.status == (if after.dirty {
            WorktreeStatus::Dirty
        } else {
            WorktreeStatus::Active
        }),
        before.status != WorktreeStatus::Creating && before.status != WorktreeStatus::Ready && before.status
            != WorktreeStatus::Active && before.status != WorktreeStatus::Dirty ==> after.status
            == before.status,
        before.status != WorktreeStatus::Creating ==> after.operation == before.operation,
{
}

/// A path that belongs to another branch now asks for recovery and is told so.
pub proof fn lemma_moved_path_needs_recovery(
    before: ManagedWorktree,
    after: ManagedWorktree,
    seen: RefreshFacts,
    now: i64,
    result: Result<(), GitError>,
    actual: ListedWorktree,
)
    requires
        refreshed(before, after, seen, now, result),
        seen.directory_exists,
        seen.listed is Ok,
        listed_at(seen.listed->Ok_0@, seen.place@) == Some(actual),
        text_of(actual.branch) != Some(branch_ref(before.branch_name@)),
    ensures
        result is Ok,
        after.status == WorktreeStatus::RecoveryNeeded,
        text_of(after.last_error) == Some("The managed path now points at a different branch"@),
        after.head_oid == before.head_oid,
{
}

/// The worktree that is taken for the one at a place is in the list, is at that
/// place, and no earlier one is.
pub proof fn lemma_listed_worktree_is_at_its_place(list: Seq<SeenWorktree>, place: Seq<char>)
    ensures
        match listed_at(list, place) {
            Some(found) => exists|i: int|
                0 <= i < list.len() && (#[trigger] list[i]).listed == found && list[i].place@ == place && (
                forall|k: int| 0 <= k < i ==> (#[trigger] list[k]).place@ != place),
            None => forall|k: int| 0 <= k < list.len() ==> (#[trigger] list[k]).place@ != place,
        },
    decreases list.len(),
{
    if list.len() > 0 {
        let rest = list.skip(1);
        assert(forall|k: int| 0 <= k < rest.len() ==> #[trigger] rest[k] == list[k + 1]);
        lemma_listed_worktree_is_at_its_place(rest, place);
        if list[0].place@ != place {
            match listed_at(rest, place) {
                Some(found) => {
                    let i = choose|i: int|
                        0 <= i < rest.len() && (#[trigger] rest[i]).listed == found && rest[i].place@ == place
                            && (forall|k: int| 0 <= k < i ==> (#[trigger] rest[k]).place@ != place);
                    assert(list[i + 1].listed == found);
                    assert forall|k: int| 0 <= k < i + 1 implies (#[trigger] list[k]).place@ != place by {
                        if k > 0 {
                            assert(rest[k - 1] == list[k]);
                        }
                    }
                },
                None => {
                    assert forall|k: int| 0 <= k < list.len() implies (#[trigger] list[k]).place@ != place by {
                        if k > 0 {
                            assert(rest[k - 1] == list[k]);
                        }
                    }
                },
            }
        } else {
            assert(list[0].listed == list[0].listed);
        }
    }
}

/// A worktree that is found in its place has its status by whether it has changes,
/// as long as an agent may be at work in it; a later status stands.
pub proof fn lemma_statuses_of_present_worktrees(status: WorktreeStatus, dirty: bool)
    ensures
        dirty && (status == WorktreeStatus::Creating || status == WorktreeStatus::Ready || status
            == WorktreeStatus::Active || status == WorktreeStatus::Dirty) ==> status_when_present(status, dirty)
            == WorktreeStatus::Dirty,
        !dirty && status == WorktreeStatus::Creating ==> status_when_present(status, dirty)
            == WorktreeStatus::Ready,
        !dirty && (status == WorktreeStatus::Ready || status == WorktreeStatus::Active || status
            == WorktreeStatus::Dirty) ==> status_when_present(status, dirty) == WorktreeStatus::Active,
        status == WorktreeStatus::NeedsReview || status == WorktreeStatus::ReadyToApply || status
            == WorktreeStatus::Integrated || status == WorktreeStatus::Discarded || status
            == WorktreeStatus::RecoveryNeeded || status == WorktreeStatus::Waiting ==> status_when_present(
            status,
            dirty,
        ) == status,
{
}

} // verus!
