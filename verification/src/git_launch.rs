//! Preparing a worktree for a new agent.

use crate::git_command::{
    branch_of, branch_ref, branch_reference, changed_paths, commit_tree, commit_tree_args, git_ok, git_text,
    reply_bytes, reply_paths, reply_text, symbolic_head, update_ref, update_ref_args, zero_oid, GitReply,
};
use crate::git_coordinator::GitCoordinator;
use crate::git_names::{
    agent_branch, branch_for_agent, infer_change_intent, is_managed_place, is_own_branch, is_slug_char,
    lemma_agent_branch_is_own, lemma_slugs_are_stable, named_paths, sanitize_slug, slug_of,
};
use crate::git_paths::{fault, git_error, user_changed_paths, user_paths, GitError, GitFault};
use crate::git_resolution::{add_worktree, add_worktree_args, ends_with_fault};
use crate::git_snapshot::InitialSnapshotPreview;
use crate::git_worktree::{
    ConflictState, IntegrationState, ManagedWorktree, OverlapRisk, ValidationState,
    WorktreeLockState, WorktreeStatus,
};
use crate::ids::{hex_digits, hyphenated, id_hex, id_text, is_hex, lemma_hex_digits, simple_hex};
use crate::order::{in_order, lemma_in_order};
use crate::paths::{
    is_absolute, is_within, join_path, joined_path, lemma_joined_is_below, name_back, path_below,
    path_parts, real_steps, relative_to,
};
use crate::text::{
    begins_with, first_chars, pieces, same_text, take_chars, text_list, text_of, texts_of, trimmed, words,
};
use vstd::prelude::*;
use vstd::string::*;

verus! {

/// What the start of a worktree comes to: its directory below the repository and
/// the branch that it is to be integrated into.
pub open spec fn launch_outcome(
    preview: InitialSnapshotPreview,
    project_place: Seq<char>,
    repository_root: Seq<char>,
    branch: GitReply,
) -> Result<(Seq<char>, Seq<char>), GitFault> {
    if !preview.ready && preview.target_oid is Some {
        Err(
            fault(
                "project_snapshot_required"@,
                "Ditch is still preparing the current project files. Try starting the agent again."@,
            ),
        )
    } else if !is_within(project_place, repository_root) {
        Err(
            fault(
                "project_repository_mismatch"@,
                "The project path is not contained by its Git repository"@,
            ),
        )
    } else {
        match branch_of(branch) {
            Err(e) => Err(e),
            Ok(target) => Ok((path_below(project_place, repository_root), target)),
        }
    }
}

/// What a look at the head comes to: the commit that it names, or the command that
/// begins the making of a first commit, with nothing on its input.
#[derive(Debug)]
pub enum HeadStart {
    There { commit: String },
    Make { args: Vec<String> },
}

/// How far the making of a first commit has come.
#[derive(Debug)]
pub enum HeadStep {
    Tree,
    Commit,
    Reference { commit: String },
}

/// What the making of a first commit does next.
#[derive(Debug)]
pub enum HeadProgress {
    Run { args: Vec<String>, step: HeadStep },
    Done { commit: String },
}

/// Whether the making of a first commit goes on as it should after a command.
pub open spec fn head_moves(
    branch: Seq<char>,
    step: HeadStep,
    reply: GitReply,
    r: Result<HeadProgress, GitError>,
) -> bool {
    match step {
        HeadStep::Tree => match reply_text(reply) {
            Err(e) => ends_with_fault(r, e),
            Ok(tree) => {
                &&& r matches Ok(HeadProgress::Run { args, step: next })
                &&& next is Commit
                &&& texts_of(args@) == commit_tree_args(tree, Seq::empty(), "Ditch initial baseline"@)
            },
        },
        HeadStep::Commit => match reply_text(reply) {
            Err(e) => ends_with_fault(r, e),
            Ok(commit) => {
                &&& r matches Ok(HeadProgress::Run { args, step: next })
                &&& next matches HeadStep::Reference { commit: c }
                &&& c@ == commit
                &&& texts_of(args@) == update_ref_args(branch_ref(branch), commit, zero_oid())
            },
        },
        HeadStep::Reference { commit } => match reply_bytes(reply) {
            Err(e) => ends_with_fault(r, e),
            Ok(_) => r matches Ok(HeadProgress::Done { commit: c }) && c@ == commit@,
        },
    }
}

/// Where the worktree of an agent lies.
pub open spec fn worktree_place(
    root: Seq<char>,
    project_id: u128,
    agent_id: u128,
    prompt: Seq<char>,
) -> Seq<char> {
    joined_path(
        joined_path(root, simple_hex(project_id)),
        first_chars(simple_hex(agent_id), 12) + "-"@ + slug_of(prompt),
    )
}

/// A new worktree, and the directory in it that the agent works in.
#[derive(Debug)]
pub struct CreatedWorktree {
    pub managed: ManagedWorktree,
    pub agent_cwd: String,
}

/// What a new worktree is made from.
#[derive(Debug)]
pub struct WorktreeSeed {
    pub id: u128,
    pub project_id: u128,
    pub agent_id: u128,
    pub prompt: String,
    pub worktrees_root: String,
    pub relative_cwd: String,
    pub target_branch: String,
    pub base_oid: String,
}

/// Whether a record describes the worktree that is being made from a seed.
pub open spec fn sown(seed: WorktreeSeed, managed: ManagedWorktree, now: i64) -> bool {
    &&& managed.id == seed.id
    &&& managed.project_id == seed.project_id
    &&& managed.session_id == seed.agent_id
    &&& managed.path@ == worktree_place(
        seed.worktrees_root@,
        seed.project_id,
        seed.agent_id,
        seed.prompt@,
    )
    &&& managed.agent_cwd@ == joined_path(managed.path@, seed.relative_cwd@)
    &&& managed.branch_name@ == agent_branch(seed.agent_id, slug_of(seed.prompt@))
    &&& is_own_branch(managed.branch_name@)
    &&& managed.base_branch@ == seed.target_branch@
    &&& managed.base_commit_oid@ == seed.base_oid@
    &&& managed.target_branch@ == seed.target_branch@
    &&& managed.target_oid_at_start@ == seed.base_oid@
    &&& managed.head_oid@ == seed.base_oid@
    &&& managed.checkpoint_oid is None
    &&& managed.candidate_oid is None
    &&& managed.candidate_target_oid is None
    &&& managed.candidate_checkpoint_oid is None
    &&& managed.resolution_path is None
    &&& managed.resolution_branch is None
    &&& managed.resolution_target_oid is None
    &&& managed.status == WorktreeStatus::Creating
    &&& managed.lock_state == WorktreeLockState::Unknown
    &&& !managed.dirty
    &&& managed.changed_paths@.len() == 0
    &&& managed.intent matches Some(intent)
    &&& intent.summary@ == first_chars(trimmed(seed.prompt@), 240)
    &&& texts_of(intent.expected_paths@) == in_order(named_paths(words(seed.prompt@)))
    &&& intent.shared_paths@.len() == 0
    &&& !managed.overlap_override
    &&& managed.overlapping_session_ids@.len() == 0
    &&& managed.overlapping_paths@.len() == 0
    &&& managed.overlap_risk == OverlapRisk::Absent
    &&& managed.conflict_state == ConflictState::Absent
    &&& managed.integration_state == IntegrationState::NotRequested
    &&& managed.validation_state == ValidationState::NotRun
    &&& managed.validation_checks@.len() == 0
    &&& text_of(managed.operation) == Some("create"@)
    &&& managed.last_error is None
    &&& managed.created_at == now
    &&& managed.updated_at == now
    &&& managed.last_reconciled_at is None
}

/// Whether the making of a worktree is begun as it should be: with its record and
/// the command that makes it, unless something stands in its place.
pub open spec fn creation_begun(
    seed: WorktreeSeed,
    path_exists: bool,
    now: i64,
    r: Result<(ManagedWorktree, Vec<String>), GitError>,
) -> bool {
    if path_exists {
        ends_with_fault(
            r,
            fault(
                "worktree_path_exists"@,
                "Managed worktree path already exists: "@ + worktree_place(
                    seed.worktrees_root@,
                    seed.project_id,
                    seed.agent_id,
                    seed.prompt@,
                ),
            ),
        )
    } else {
        &&& r matches Ok((managed, args))
        &&& sown(seed, managed, now)
        &&& texts_of(args@) == add_worktree_args(
            "The Ditch session "@ + hyphenated(seed.agent_id),
            managed.branch_name@,
            managed.path@,
            seed.base_oid@,
        )
    }
}

/// Whether a new worktree is handed out as it should be.
pub open spec fn worktree_finished(
    managed: ManagedWorktree,
    head: GitReply,
    base_tree: GitReply,
    tree: GitReply,
    now: i64,
    r: Result<CreatedWorktree, GitError>,
) -> bool {
    match (reply_text(head), reply_text(base_tree), reply_text(tree)) {
        (Ok(h), Ok(b), Ok(t)) => if h != managed.base_commit_oid@ || t != b {
            ends_with_fault(
                r,
                fault(
                    "worktree_materialization_failed"@,
                    "Ditch could not verify the prepared project workspace. No agent was started."@,
                ),
            )
        } else {
            &&& r matches Ok(created)
            &&& created.agent_cwd@ == managed.agent_cwd@
            &&& created.managed == (ManagedWorktree {
                status: WorktreeStatus::Ready,
                lock_state: WorktreeLockState::Locked,
                operation: None,
                updated_at: now,
                last_reconciled_at: Some(now),
                ..managed
            })
        },
        (Err(e), _, _) => ends_with_fault(r, e),
        (Ok(_), Err(e), _) => ends_with_fault(r, e),
        (Ok(_), Ok(_), Err(e)) => ends_with_fault(r, e),
    }
}

impl GitCoordinator {
    /// The directory of a new worktree below the repository, and the branch that
    /// it is to be integrated into.
    pub fn begin_worktree(
        &self,
        preview: &InitialSnapshotPreview,
        project_place: &str,
        repository_root: &str,
        branch: &GitReply,
    ) -> (r: Result<(String, String), GitError>)
        ensures
            match launch_outcome(*preview, project_place@, repository_root@, *branch) {
                Err(e) => ends_with_fault(r, e),
                Ok((below, target)) => r matches Ok((b, t)) && b@ == below && t@ == target,
            },
    {
        if !preview.ready && preview.target_oid.is_some() {
            return Err(
                git_error(
                    "project_snapshot_required",
                    "Ditch is still preparing the current project files. Try starting the agent again.",
                ),
            );
        }
        let below = match relative_to(project_place, repository_root) {
            Some(below) => below,
            None => {
                return Err(
                    git_error(
                        "project_repository_mismatch",
                        "The project path is not contained by its Git repository",
                    ),
                );
            },
        };
        match symbolic_head(branch) {
            Ok(target) => Ok((below, target)),
            Err(e) => Err(e),
        }
    }

    /// Where the worktree of an agent lies.
    pub fn place_of_worktree(&self, seed: &WorktreeSeed) -> (r: String)
        ensures
            r@ == worktree_place(seed.worktrees_root@, seed.project_id, seed.agent_id, seed.prompt@),
    {
        let mut name = take_chars(id_hex(seed.agent_id).as_str(), 12);
        name.append("-");
        name.append(sanitize_slug(seed.prompt.as_str()).as_str());
        join_path(
            join_path(seed.worktrees_root.as_str(), id_hex(seed.project_id).as_str()).as_str(),
            name.as_str(),
        )
    }

    /// The record of a new worktree that is not journaled, and the command that
    /// makes it on a branch of the runtime's own.
    pub fn create(&self, seed: &WorktreeSeed, path_exists: bool, now: i64) -> (r: Result<
        (ManagedWorktree, Vec<String>),
        GitError,
    >)
        ensures
            creation_begun(*seed, path_exists, now, r),
    {
        self.create_journaled(seed, path_exists, now)
    }

    /// The record of a new worktree, to be journaled, and the command that makes
    /// it on a branch of the runtime's own.
    pub fn create_journaled(&self, seed: &WorktreeSeed, path_exists: bool, now: i64) -> (r: Result<
        (ManagedWorktree, Vec<String>),
        GitError,
    >)
        ensures
            creation_begun(*seed, path_exists, now, r),
    {
        let path = self.place_of_worktree(seed);
        if path_exists {
            let mut message = "Managed worktree path already exists: ".to_owned();
            message.append(path.as_str());
            return Err(git_error("worktree_path_exists", message.as_str()));
        }
        let slug = sanitize_slug(seed.prompt.as_str());
        let branch = branch_for_agent(seed.agent_id, slug.as_str());
        proof {
            lemma_agent_branch_is_own(seed.agent_id, slug@);
        }
        let mut reason = "The Ditch session ".to_owned();
        reason.append(id_text(seed.agent_id).as_str());
        let args = add_worktree(reason.as_str(), branch.as_str(), path.as_str(), seed.base_oid.as_str());
        let agent_cwd = join_path(path.as_str(), seed.relative_cwd.as_str());
        let managed = ManagedWorktree {
            id: seed.id,
            project_id: seed.project_id,
            session_id: seed.agent_id,
            path,
            agent_cwd,
            branch_name: branch,
            base_branch: seed.target_branch.clone(),
            base_commit_oid: seed.base_oid.clone(),
            target_branch: seed.target_branch.clone(),
            target_oid_at_start: seed.base_oid.clone(),
            head_oid: seed.base_oid.clone(),
            checkpoint_oid: None,
            candidate_oid: None,
            candidate_target_oid: None,
            candidate_checkpoint_oid: None,
            resolution_path: None,
            resolution_branch: None,
            resolution_target_oid: None,
            status: WorktreeStatus::Creating,
            lock_state: WorktreeLockState::Unknown,
            dirty: false,
            changed_paths: Vec::new(),
            intent: Some(infer_change_intent(seed.prompt.as_str())),
            overlap_override: false,
            overlapping_session_ids: Vec::new(),
            overlapping_paths: Vec::new(),
            overlap_risk: OverlapRisk::Absent,
            conflict_state: ConflictState::Absent,
            integration_state: IntegrationState::NotRequested,
            validation_state: ValidationState::NotRun,
            validation_checks: Vec::new(),
            operation: Some("create".to_owned()),
            last_error: None,
            created_at: now,
            updated_at: now,
            last_reconciled_at: None,
        };
        Ok((managed, args))
    }

    /// Hands a new worktree out once it holds what it should, from the answers of
    /// Git for its head, for the tree of its base and for its own tree.
    pub fn finish_worktree(
        &self,
        managed: ManagedWorktree,
        head: &GitReply,
        base_tree: &GitReply,
        tree: &GitReply,
        now: i64,
    ) -> (r: Result<CreatedWorktree, GitError>)
        ensures
            worktree_finished(managed, *head, *base_tree, *tree, now, r),
    {
        let mut managed = managed;
        let checked_out = match git_text(head) {
            Ok(text) => text,
            Err(e) => {
                return Err(e);
            },
        };
        let expected = match git_text(base_tree) {
            Ok(text) => text,
            Err(e) => {
                return Err(e);
            },
        };
        let actual = match git_text(tree) {
            Ok(text) => text,
            Err(e) => {
                return Err(e);
            },
        };
        if !same_text(checked_out.as_str(), managed.base_commit_oid.as_str()) || !same_text(
            actual.as_str(),
            expected.as_str(),
        ) {
            return Err(
                git_error(
                    "worktree_materialization_failed",
                    "Ditch could not verify the prepared project workspace. No agent was started.",
                ),
            );
        }
        managed.status = WorktreeStatus::Ready;
        managed.lock_state = WorktreeLockState::Locked;
        managed.operation = None;
        managed.updated_at = now;
        managed.last_reconciled_at = Some(now);
        let agent_cwd = managed.agent_cwd.clone();
        Ok(CreatedWorktree { managed, agent_cwd })
    }
}

/// Whether a look at the head comes to what it should.
pub open spec fn head_started(
    head: GitReply,
    status: GitReply,
    r: Result<HeadStart, GitError>,
) -> bool {
    match reply_text(head) {
        Ok(commit) => r matches Ok(HeadStart::There { commit: c }) && c@ == commit,
        Err(_) => match reply_paths(status) {
            Err(e) => ends_with_fault(r, e),
            Ok(paths) => if user_paths(in_order(paths)).len() > 0 {
                ends_with_fault(
                    r,
                    fault(
                        "unborn_repository_has_changes"@,
                        "Ditch has not finished preparing the current project files. No agent was started; try again."@,
                    ),
                )
            } else {
                r matches Ok(HeadStart::Make { args }) && texts_of(args@) == seq!["mktree"@]
            },
        },
    }
}

/// What a look at the head comes to. A repository without a commit gets a first
/// one only while the user has no files in it.
pub fn ensure_head(head: &GitReply, status: &GitReply) -> (r: Result<HeadStart, GitError>)
    ensures
        head_started(*head, *status, r),
{
    match git_text(head) {
        Ok(commit) => {
            return Ok(HeadStart::There { commit });
        },
        Err(_) => {},
    }
    let paths = match changed_paths(status) {
        Ok(paths) => paths,
        Err(e) => {
            return Err(e);
        },
    };
    proof {
        lemma_in_order(texts_of(paths@));
    }
    let users = user_changed_paths(&paths);
    assert(texts_of(users@).len() == users@.len());
    if users.len() > 0 {
        return Err(
            git_error(
                "unborn_repository_has_changes",
                "Ditch has not finished preparing the current project files. No agent was started; try again.",
            ),
        );
    }
    let args = text_list(["mktree"]);
    assert(texts_of(args@) =~= seq!["mktree"@]);
    Ok(HeadStart::Make { args })
}

/// What the making of a first commit does after a command; the first command is
/// `git mktree` on an empty input.
pub fn make_head(branch: &str, step: HeadStep, reply: &GitReply) -> (r: Result<HeadProgress, GitError>)
    ensures
        head_moves(branch@, step, *reply, r),
{
    match step {
        HeadStep::Tree => match git_text(reply) {
            Err(e) => Err(e),
            Ok(tree) => {
                let none: Vec<String> = Vec::new();
                assert(texts_of(none@) =~= Seq::empty());
                let args = commit_tree(tree.as_str(), &none, "Ditch initial baseline");
                Ok(HeadProgress::Run { args, step: HeadStep::Commit })
            },
        },
        HeadStep::Commit => match git_text(reply) {
            Err(e) => Err(e),
            Ok(commit) => {
                let reference = branch_reference(branch);
                let args = update_ref(
                    reference.as_str(),
                    commit.as_str(),
                    "0000000000000000000000000000000000000000",
                );
                Ok(HeadProgress::Run { args, step: HeadStep::Reference { commit } })
            },
        },
        HeadStep::Reference { commit } => match git_ok(reply) {
            Err(e) => Err(e),
            Ok(()) => Ok(HeadProgress::Done { commit }),
        },
    }
}

/// A new worktree belongs to its agent: it starts at the base commit, on a branch
/// that carries the identifier of the session, in a place below that of its project,
/// and is integrated into the branch that it started from.
pub proof fn lemma_new_worktree_is_the_agents_own(
    seed: WorktreeSeed,
    path_exists: bool,
    now: i64,
    r: Result<(ManagedWorktree, Vec<String>), GitError>,
)
    requires
        creation_begun(seed, path_exists, now, r),
    ensures
        r is Err <==> path_exists,
        path_exists ==> r->Err_0@.code == "worktree_path_exists"@,
        r is Ok ==> {
            let managed = r->Ok_0.0;
            let args = r->Ok_0.1;
            &&& managed.id == seed.id
            &&& managed.project_id == seed.project_id
            &&& managed.session_id == seed.agent_id
            &&& managed.base_commit_oid@ == seed.base_oid@
            &&& managed.head_oid@ == seed.base_oid@
            &&& managed.target_oid_at_start@ == seed.base_oid@
            &&& managed.base_branch@ == seed.target_branch@
            &&& managed.target_branch@ == seed.target_branch@
            &&& begins_with(managed.branch_name@, "ditch/agent/"@ + hyphenated(seed.agent_id) + "/"@)
            &&& managed.status == WorktreeStatus::Creating
            &&& managed.validation_state == ValidationState::NotRun
            &&& managed.integration_state == IntegrationState::NotRequested
            &&& managed.checkpoint_oid is None && managed.candidate_oid is None
            &&& args@.len() == 9
            &&& args@[0]@ == "worktree"@
            &&& args@[1]@ == "add"@
            &&& args@[2]@ == "--lock"@
            &&& args@[4]@ == "The Ditch session "@ + hyphenated(seed.agent_id)
            &&& args@[5]@ == "-b"@
            &&& args@[6]@ == managed.branch_name@
            &&& args@[7]@ == managed.path@
            &&& args@[8]@ == seed.base_oid@
        },
{
    if !path_exists {
        let managed = r->Ok_0.0;
        let args = r->Ok_0.1;
        assert(texts_of(args@).len() == args@.len());
        assert forall|i: int| 0 <= i < args@.len() implies #[trigger] args@[i]@ == texts_of(args@)[i] by {}
        let start = "ditch/agent/"@ + hyphenated(seed.agent_id) + "/"@;
        assert(managed.branch_name@.subrange(0, start.len() as int) =~= start);
    }
}

/// A new worktree is handed out exactly where its head is its base commit and its
/// tree is the tree of that commit.
pub proof fn lemma_worktree_holds_its_base(
    managed: ManagedWorktree,
    head: GitReply,
    base_tree: GitReply,
    tree: GitReply,
    now: i64,
    r: Result<CreatedWorktree, GitError>,
)
    requires
        worktree_finished(managed, head, base_tree, tree, now, r),
    ensures
        r is Ok <==> reply_text(head) == Ok::<Seq<char>, GitFault>(managed.base_commit_oid@) && reply_text(
            base_tree,
        ) is Ok && reply_text(tree) == reply_text(base_tree),
        r is Ok ==> r->Ok_0.managed.status == WorktreeStatus::Ready && r->Ok_0.managed.lock_state
            == WorktreeLockState::Locked && r->Ok_0.managed.operation is None && r->Ok_0.agent_cwd@
            == managed.agent_cwd@ && r->Ok_0.managed.branch_name == managed.branch_name,
{
}

/// A first commit is made only in a repository without a head in which the user has
/// no files.
pub proof fn lemma_first_commit_needs_an_empty_project(
    head: GitReply,
    status: GitReply,
    r: Result<HeadStart, GitError>,
)
    requires
        head_started(head, status, r),
    ensures
        (r matches Ok(HeadStart::There { commit }) && commit@ == reply_text(head)->Ok_0) <==> reply_text(
            head,
        ) is Ok,
        (r is Ok && r->Ok_0 is Make) <==> reply_text(head) is Err && reply_paths(status) is Ok && user_paths(
            in_order(reply_paths(status)->Ok_0),
        ).len() == 0,
{
}

/// A first commit has no parent, and the branch is moved to it from nothing.
pub proof fn lemma_first_commit_has_no_parent(
    branch: Seq<char>,
    reply: GitReply,
    tree: Result<HeadProgress, GitError>,
    commit: Result<HeadProgress, GitError>,
)
    requires
        head_moves(branch, HeadStep::Tree, reply, tree),
        head_moves(branch, HeadStep::Commit, reply, commit),
        reply_text(reply) is Ok,
    ensures
        tree matches Ok(HeadProgress::Run { args, step }) && step is Commit && args@.len() == 4 && args@[0]@
            == "commit-tree"@ && args@[1]@ == reply_text(reply)->Ok_0 && args@[2]@ == "-m"@ && args@[3]@
            == "Ditch initial baseline"@,
        commit matches Ok(HeadProgress::Run { args, step }) && args@.len() == 4 && args@[0]@ == "update-ref"@
            && args@[1]@ == "refs/heads/"@ + branch && args@[2]@ == reply_text(reply)->Ok_0 && args@[3]@
            == "0000000000000000000000000000000000000000"@ && (step matches HeadStep::Reference { commit: c }
            && c@ == args@[2]@),
{
    assert(crate::git_command::parent_args(Seq::<Seq<char>>::empty()).len() == 0);
    let first = tree->Ok_0->Run_args;
    assert(texts_of(first@).len() == first@.len());
    assert forall|i: int| 0 <= i < first@.len() implies #[trigger] first@[i]@ == texts_of(first@)[i] by {}
    let second = commit->Ok_0->Run_args;
    assert(texts_of(second@).len() == second@.len());
    assert forall|i: int| 0 <= i < second@.len() implies #[trigger] second@[i]@ == texts_of(second@)[i] by {}
}

/// An agent is given a worktree only of a project whose files are saved, that lies in
/// its repository, and that is on a branch.
pub proof fn lemma_launch_needs_a_saved_project(
    preview: InitialSnapshotPreview,
    project_place: Seq<char>,
    repository_root: Seq<char>,
    branch: GitReply,
)
    ensures
        launch_outcome(preview, project_place, repository_root, branch) is Ok <==> (preview.ready
            || preview.target_oid is None) && is_within(project_place, repository_root) && reply_text(
            branch,
        ) is Ok,
        launch_outcome(preview, project_place, repository_root, branch) is Ok ==> launch_outcome(
            preview,
            project_place,
            repository_root,
            branch,
        )->Ok_0.1 == reply_text(branch)->Ok_0,
{
}

/// The place that is made for an agent below a folder named `worktrees` is one
/// that shows that it belongs to the agent of the project, so that what is made can
/// also be taken away.
pub proof fn lemma_made_places_are_managed(root: Seq<char>, project_id: u128, agent_id: u128, prompt: Seq<char>)
    requires
        root.len() > 0,
        name_back(path_parts(root), 0) == Some("worktrees"@),
    ensures
        is_managed_place(worktree_place(root, project_id, agent_id, prompt), project_id, agent_id),
        is_within(worktree_place(root, project_id, agent_id, prompt), root),
{
    let project = simple_hex(project_id);
    let session = simple_hex(agent_id);
    let slug = slug_of(prompt);
    let name = first_chars(session, 12) + "-"@ + slug;
    let folder = joined_path(root, project);
    let place = joined_path(folder, name);
    lemma_hex_digits(project_id as nat, 32);
    lemma_hex_digits(agent_id as nat, 32);
    lemma_slugs_are_stable(prompt);
    reveal_strlit("-");
    reveal_strlit("/");
    reveal_strlit(".");
    reveal_strlit("..");
    assert forall|i: int| 0 <= i < project.len() implies project[i] != '/' by {
        assert(is_hex(hex_digits(project_id as nat, 32)[i]));
    }
    assert forall|i: int| 0 <= i < name.len() implies name[i] != '/' by {
        if i < 12 {
            assert(name[i] == session[i]);
            assert(is_hex(hex_digits(agent_id as nat, 32)[i]));
        } else if i == 12 {
            assert(name[i] == '-');
        } else {
            assert(name[i] == slug[i - 13]);
            assert(is_slug_char(slug[i - 13]));
        }
    }
    lemma_one_step(project);
    lemma_one_step(name);
    lemma_joined_is_below(root, project);
    assert(folder.len() > 0);
    lemma_joined_is_below(folder, name);
    let parts = path_parts(place);
    assert(parts == path_parts(root).push(project).push(name));
    assert(path_parts(place).take(path_parts(root).len() as int) =~= path_parts(root));
    assert(name.subrange(0, 13) =~= session.take(12) + "-"@);
}

proof fn lemma_one_step(text: Seq<char>)
    requires
        text.len() > 2,
        forall|i: int| 0 <= i < text.len() ==> text[i] != '/',
    ensures
        !is_absolute(text),
        real_steps(pieces(text, '/')) == seq![text],
{
    reveal_strlit(".");
    lemma_single_piece(text);
    let steps = seq![text];
    assert(steps.drop_last() =~= Seq::empty());
    assert(real_steps(steps.drop_last()) =~= Seq::empty());
    assert(real_steps(steps) =~= steps);
}

proof fn lemma_single_piece(text: Seq<char>)
    requires
        forall|i: int| 0 <= i < text.len() ==> text[i] != '/',
    ensures
        pieces(text, '/') == seq![text],
    decreases text.len(),
{
    if text.len() == 0 {
        assert(text =~= Seq::empty());
    } else {
        lemma_single_piece(text.drop_last());
        assert(text.drop_last().push(text.last()) =~= text);
        assert(pieces(text, '/') =~= seq![text]);
    }
}

} // verus!
