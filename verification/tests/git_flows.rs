use ditchd::git_command::{
    base_args, changed_paths, command_environment, first_oid, git_text, query_args, symbolic_head,
    update_internal_ref, GitQuery, GitReply,
};
use ditchd::git_coordinator::GitCoordinator;
use ditchd::git_integration::{
    begin_validation, end_validation, leave_validation, record_check, set_validation_result,
    validation_output_detail, validation_place,
    ApplyFacts, CheckEnd, CheckpointProgress, CheckpointStep, IntegrationProgress, IntegrationStep,
};
use ditchd::git_launch::{ensure_head, make_head, HeadProgress, HeadStart, HeadStep, WorktreeSeed};
use ditchd::git_names::infer_change_intent;
use ditchd::git_overlap::apply_overlap_projection;
use ditchd::git_paths::ListedWorktree;
use ditchd::git_refresh::{OperationFacts, RefreshFacts, SeenWorktree};
use ditchd::git_resolution::{
    abandon_resolution, begin_abandon, begin_cleanup, begin_removal, cleanup_resolution_worktree,
    continue_removal, AbandonProgress, AbandonStep, CleanupProgress, CleanupStep, FinalizeProgress,
    FinalizeStep, Removal, RemovalNext, ResolutionFacts, ResolutionPlan, ResolutionStart,
};
use ditchd::git_snapshot::{
    marker_place, sensitive_snapshot_name, snapshot_files, BuildFacts, BuildProgress, BuildStep,
    InitialSnapshotPreview, Preflight, PreflightFacts, ProjectGitOperation, ProjectGitOperationState,
    SnapshotBasis, SnapshotProgress, SnapshotStart, SnapshotStep,
};
use ditchd::git_worktree::{
    ChangeIntent, ConflictState, IntegrationState, ManagedWorktree, OverlapRisk, ValidationCheck,
    ValidationState, WorktreeLockState, WorktreeStatus,
};
use ditchd::ids::new_identifier;

const NOW: i64 = 1_787_596_800_000;

fn ok(stdout: &str) -> GitReply {
    GitReply::Ended { code: Some(0), stdout: stdout.as_bytes().to_vec(), stderr: Vec::new() }
}

fn failed(code: i32, stderr: &str) -> GitReply {
    GitReply::Ended { code: Some(code), stdout: Vec::new(), stderr: stderr.as_bytes().to_vec() }
}

fn seed(prompt: &str) -> WorktreeSeed {
    WorktreeSeed {
        id: new_identifier(),
        project_id: new_identifier(),
        agent_id: new_identifier(),
        prompt: prompt.to_owned(),
        worktrees_root: "/managed/worktrees".to_owned(),
        relative_cwd: String::new(),
        target_branch: "main".to_owned(),
        base_oid: "base".to_owned(),
    }
}

fn worktree(prompt: &str) -> ManagedWorktree {
    let coordinator = GitCoordinator::new();
    let (managed, args) = coordinator.create_journaled(&seed(prompt), false, NOW).unwrap();
    assert_eq!(args[0], "worktree");
    assert_eq!(args[1], "add");
    let created = coordinator
        .finish_worktree(managed, &ok("base\n"), &ok("tree\n"), &ok("tree\n"), NOW)
        .unwrap();
    created.managed
}

/// Drives a checkpoint with a made-up answer to each command.
fn checkpoint(coordinator: &GitCoordinator, agent: &mut ManagedWorktree, commit: &str) {
    let args = coordinator.begin_checkpoint(agent).unwrap();
    assert_eq!(args[0], "read-tree");
    let mut step = CheckpointStep::ReadTree;
    for _ in 0..8 {
        let reply = match &step {
            CheckpointStep::Commit => ok(&format!("{commit}\n")),
            CheckpointStep::WriteTree => ok("worktree-tree\n"),
            CheckpointStep::Parent { .. } => ok("base\n"),
            _ => ok(""),
        };
        match coordinator.checkpoint(agent, step, &reply, NOW).unwrap() {
            CheckpointProgress::Run { step: next, .. } => step = next,
            CheckpointProgress::Done { checkpoint } => {
                assert_eq!(checkpoint, commit);
                return;
            }
        }
    }
    panic!("a checkpoint takes a few commands");
}

/// Drives an integration with a clean merge up to its checks.
fn prepare(coordinator: &GitCoordinator, agent: &mut ManagedWorktree, target: &str) {
    let (_, mut step) = coordinator.begin_integration(agent).unwrap();
    for _ in 0..6 {
        let reply = match &step {
            IntegrationStep::Target { .. } => ok(&format!("{target}\n")),
            IntegrationStep::Merge { .. } => ok("0123456789012345678901234567890123456789\0"),
            IntegrationStep::Commit { .. } => ok("candidate\n"),
            IntegrationStep::Reference { .. } => ok(""),
        };
        match coordinator.prepare_integration(agent, step, &reply, NOW).unwrap() {
            IntegrationProgress::Run { step: next, .. } => step = next,
            IntegrationProgress::Check { candidate } => {
                assert_eq!(candidate, "candidate");
                return;
            }
            IntegrationProgress::Conflict => panic!("the merge is clean"),
        }
    }
    panic!("an integration takes a few commands");
}

fn apply_facts(target: &str, status: &str) -> ApplyFacts {
    ApplyFacts {
        target: ok(&format!("{target}\n")),
        listed: Ok(vec![SeenWorktree {
            listed: ListedWorktree {
                path: "/repo".to_owned(),
                head: Some(target.to_owned()),
                branch: Some("refs/heads/main".to_owned()),
                locked: false,
                prunable: false,
            },
            place: "/repo".to_owned(),
        }]),
        repository_place: "/repo".to_owned(),
        status: ok(status),
        branch: ok("main\n"),
    }
}

fn check(passed: bool) -> ValidationCheck {
    ValidationCheck {
        name: "test".to_owned(),
        passed,
        exit_code: Some(if passed { 0 } else { 1 }),
        output: String::new(),
    }
}

fn prepared(coordinator: &GitCoordinator) -> ManagedWorktree {
    let mut agent = worktree("Feature");
    checkpoint(coordinator, &mut agent, "checkpoint");
    prepare(coordinator, &mut agent, "base");
    agent
}

#[test]
fn clean_candidate_can_only_bypass_missing_checks_with_explicit_override() {
    let coordinator = GitCoordinator::new();
    let mut agent = prepared(&coordinator);
    assert!(!coordinator.finish_validation(&mut agent, Vec::new(), NOW));
    assert_eq!(agent.validation_state, ValidationState::NotConfigured);
    let error = coordinator.apply(&mut agent, false, &apply_facts("base", "")).unwrap_err();
    assert_eq!(error.code, "integration_not_ready");
    let args = coordinator.apply(&mut agent, true, &apply_facts("base", "")).unwrap();
    assert_eq!(args, ["merge", "--ff-only", "candidate"]);
    coordinator.finish_apply(&mut agent, &ok(""), NOW).unwrap();
    assert_eq!(agent.status, WorktreeStatus::Integrated);
    assert_eq!(agent.integration_state, IntegrationState::Applied);
}

#[test]
fn clean_merge_with_failed_combined_validation_cannot_apply() {
    let coordinator = GitCoordinator::new();
    let mut agent = prepared(&coordinator);
    let mut checks = Vec::new();
    let end = CheckEnd::Ended { code: Some(7), stdout: Vec::new(), stderr: Vec::new() };
    record_check(&mut checks, "sh -c exit 7".to_owned(), end);
    assert!(!checks[0].passed);
    coordinator.finish_validation(&mut agent, checks, NOW);
    assert_eq!(agent.validation_state, ValidationState::Failed);
    assert_eq!(agent.status, WorktreeStatus::NeedsReview);
    let error = coordinator.apply(&mut agent, false, &apply_facts("base", "")).unwrap_err();
    assert_eq!(error.code, "integration_not_ready");
    assert!(coordinator.apply(&mut agent, true, &apply_facts("base", "")).is_err());
}

#[test]
fn target_advance_invalidates_a_prepared_candidate() {
    let coordinator = GitCoordinator::new();
    let mut agent = prepared(&coordinator);
    set_validation_result(&mut agent, vec![check(true)]);
    let error = coordinator.apply(&mut agent, false, &apply_facts("moved", "")).unwrap_err();
    assert_eq!(error.code, "target_advanced");
    assert!(agent.last_error.is_some());
}

#[test]
fn dirty_canonical_workspace_blocks_apply_without_touching_user_work() {
    let coordinator = GitCoordinator::new();
    let mut agent = prepared(&coordinator);
    set_validation_result(&mut agent, vec![check(true)]);
    let error = coordinator
        .apply(&mut agent, false, &apply_facts("base", "? notes.txt\0"))
        .unwrap_err();
    assert_eq!(error.code, "canonical_workspace_dirty");
    let args = coordinator.apply(&mut agent, false, &apply_facts("base", "? .ditch/x\0")).unwrap();
    assert_eq!(args[0], "merge");
}

#[test]
fn a_new_checkpoint_makes_a_candidate_stale() {
    let coordinator = GitCoordinator::new();
    let mut agent = prepared(&coordinator);
    set_validation_result(&mut agent, vec![check(true)]);
    agent.checkpoint_oid = Some("newer".to_owned());
    let error = coordinator.apply(&mut agent, false, &apply_facts("base", "")).unwrap_err();
    assert_eq!(error.code, "candidate_stale");
}

#[test]
fn merge_tree_quarantines_same_file_conflict() {
    let coordinator = GitCoordinator::new();
    let mut agent = worktree("Conflict");
    checkpoint(&coordinator, &mut agent, "checkpoint");
    let (_, step) = coordinator.begin_integration(&mut agent).unwrap();
    let IntegrationProgress::Run { step, args } =
        coordinator.prepare_integration(&mut agent, step, &ok("base\n"), NOW).unwrap()
    else {
        panic!("the merge is run");
    };
    assert_eq!(args[0], "merge-tree");
    let progress = coordinator
        .prepare_integration(&mut agent, step, &failed(1, "CONFLICT (content)"), NOW)
        .unwrap();
    assert!(matches!(progress, IntegrationProgress::Conflict));
    assert_eq!(agent.conflict_state, ConflictState::GitConflict);
    assert_eq!(agent.integration_state, IntegrationState::Conflict);
    assert!(agent.candidate_oid.is_none());
    assert!(coordinator.apply(&mut agent, true, &apply_facts("base", "")).is_err());
}

#[test]
fn work_without_a_checkpoint_is_not_integrated() {
    let coordinator = GitCoordinator::new();
    let mut agent = worktree("Early");
    assert_eq!(coordinator.begin_integration(&mut agent).unwrap_err().code, "checkpoint_missing");
}

#[test]
fn manually_deleted_managed_directory_becomes_recovery_needed() {
    let coordinator = GitCoordinator::new();
    let mut agent = worktree("Deleted");
    let seen = RefreshFacts {
        directory_exists: false,
        place: agent.path.clone(),
        listed: Ok(Vec::new()),
        head: ok("base\n"),
        status: ok(""),
    };
    coordinator.refresh(&mut agent, &seen, NOW).unwrap();
    assert_eq!(agent.status, WorktreeStatus::RecoveryNeeded);
    assert_eq!(agent.lock_state, WorktreeLockState::Missing);
    assert!(agent.last_error.is_some());
}

#[test]
fn unsaved_work_is_discarded_only_with_consent() {
    let coordinator = GitCoordinator::new();
    let mut agent = worktree("Discard");
    let project_id = agent.project_id;
    let seen = |agent: &ManagedWorktree| RefreshFacts {
        directory_exists: true,
        place: agent.path.clone(),
        listed: Ok(vec![SeenWorktree {
            listed: ListedWorktree {
                path: agent.path.clone(),
                head: Some("base".to_owned()),
                branch: Some(format!("refs/heads/{}", agent.branch_name)),
                locked: true,
                prunable: false,
            },
            place: agent.path.clone(),
        }]),
        head: ok("base\n"),
        status: ok("? new.txt\0"),
    };
    let facts = seen(&agent);
    let error = coordinator.discard(&mut agent, project_id, false, &facts, NOW).unwrap_err();
    assert_eq!(error.code, "dirty_worktree_confirmation_required");
    let next = coordinator.discard(&mut agent, project_id, true, &facts, NOW).unwrap();
    assert_eq!(next, RemovalNext::Checkpoint);
    let error = coordinator.discard(&mut agent, project_id + 1, true, &facts, NOW).unwrap_err();
    assert_eq!(error.code, "worktree_ownership_unproven");
    let CleanupProgress::Run { args, .. } = begin_removal(&agent, true).unwrap() else {
        panic!("the worktree is taken away by commands");
    };
    assert_eq!(args[..2], ["worktree", "unlock"]);
}

#[test]
fn overlapping_work_is_recorded_on_both_sides() {
    let mut first = worktree("one");
    let mut second = worktree("two");
    let mut third = worktree("three");
    second.project_id = first.project_id;
    third.changed_paths = vec!["lib/a.rs".to_owned()];
    first.changed_paths = vec!["lib/a.rs".to_owned()];
    second.changed_paths = vec!["lib/a.rs".to_owned(), "lib/b.rs".to_owned()];
    let ids = (first.session_id, second.session_id);
    let mut all = vec![first, second, third];
    apply_overlap_projection(&mut all);
    assert_eq!(all[0].overlapping_session_ids, [ids.1]);
    assert_eq!(all[1].overlapping_session_ids, [ids.0]);
    assert_eq!(all[0].overlapping_paths, ["lib/a.rs"]);
    assert_eq!(all[0].overlap_risk, OverlapRisk::Path);
    assert!(all[2].overlapping_session_ids.is_empty());
    all[0].changed_paths.clear();
    let intent = |paths: &[&str]| {
        Some(ChangeIntent {
            summary: String::new(),
            expected_paths: paths.iter().map(|path| path.to_string()).collect(),
            shared_paths: Vec::new(),
        })
    };
    all[0].intent = intent(&["lib/**"]);
    all[1].changed_paths.clear();
    all[1].intent = intent(&["lib/b.rs"]);
    apply_overlap_projection(&mut all);
    assert_eq!(all[0].overlap_risk, OverlapRisk::Intent);
}

fn preview() -> InitialSnapshotPreview {
    InitialSnapshotPreview {
        repository_root: "/repo".to_owned(),
        target_branch: "main".to_owned(),
        included_paths: vec!["a.txt".to_owned()],
        warnings: Vec::new(),
        tree_oid: Some("tree".to_owned()),
        target_oid: None,
        ready: false,
        unsafe_to_snapshot: false,
    }
}

#[test]
fn initial_snapshot_rejects_a_changed_preview_without_creating_history() {
    let coordinator = GitCoordinator::new();
    let error = coordinator.begin_snapshot(&preview(), "other-tree", 1, 2, NOW).unwrap_err();
    assert_eq!(error.code, "initial_snapshot_changed");
    let unsafe_preview = InitialSnapshotPreview { unsafe_to_snapshot: true, ..preview() };
    assert!(coordinator.begin_snapshot(&unsafe_preview, "tree", 1, 2, NOW).is_err());
    let ready = InitialSnapshotPreview { ready: true, target_oid: Some("head".into()), ..preview() };
    assert!(matches!(
        coordinator.begin_snapshot(&ready, "tree", 1, 2, NOW),
        Ok(SnapshotStart::AlreadyThere)
    ));
}

#[test]
fn a_snapshot_is_journaled_step_by_step() {
    let coordinator = GitCoordinator::new();
    let SnapshotStart::Begin { mut operation, args } =
        coordinator.begin_snapshot(&preview(), "tree", 1, 2, NOW).unwrap()
    else {
        panic!("there is no history yet");
    };
    assert!(args.contains(&"commit-tree".to_owned()));
    assert_eq!(operation.state, ProjectGitOperationState::Preparing);
    let progress = coordinator
        .create_initial_snapshot(&mut operation, SnapshotStep::Commit, &ok("commit\n"), NOW)
        .unwrap();
    assert!(matches!(progress, SnapshotProgress::Run { step: SnapshotStep::Reference, .. }));
    assert_eq!(operation.state, ProjectGitOperationState::CommitCreated);
    assert_eq!(operation.created_commit_oid.as_deref(), Some("commit"));
    let progress = coordinator
        .create_initial_snapshot(&mut operation, SnapshotStep::Reference, &ok(""), NOW)
        .unwrap();
    assert!(matches!(progress, SnapshotProgress::Run { step: SnapshotStep::Index, .. }));
    assert_eq!(operation.state, ProjectGitOperationState::RefUpdated);
    let progress = coordinator
        .create_initial_snapshot(&mut operation, SnapshotStep::Index, &ok(""), NOW)
        .unwrap();
    assert!(matches!(progress, SnapshotProgress::Done { commit } if commit == "commit"));
    assert_eq!(operation.state, ProjectGitOperationState::Completed);
    assert!(coordinator
        .reconcile_initial_snapshot(&mut operation, &ok("commit\n"), &ok("tree\n"), NOW)
        .unwrap()
        .is_none());
}

#[test]
fn interrupted_initial_snapshot_finishes_from_its_journaled_commit() {
    let coordinator = GitCoordinator::new();
    let mut operation = ProjectGitOperation {
        id: 1,
        project_id: 2,
        kind: "initial_snapshot".to_owned(),
        target_branch: "main".to_owned(),
        expected_tree_oid: "tree".to_owned(),
        expected_old_oid: None,
        created_commit_oid: Some("commit".to_owned()),
        state: ProjectGitOperationState::CommitCreated,
        last_error: None,
        created_at: NOW,
        updated_at: NOW,
    };
    let repair = coordinator
        .reconcile_initial_snapshot(&mut operation, &failed(128, "unborn"), &ok("tree\n"), NOW)
        .unwrap()
        .expect("the journaled commit is put in place");
    assert!(repair.move_branch.is_some());
    coordinator.finish_recovery(&mut operation, NOW);
    assert_eq!(operation.state, ProjectGitOperationState::Completed);

    operation.state = ProjectGitOperationState::CommitCreated;
    let repair = coordinator
        .reconcile_initial_snapshot(&mut operation, &ok("foreign\n"), &ok("tree\n"), NOW)
        .unwrap();
    assert!(repair.is_none());
    assert_eq!(operation.state, ProjectGitOperationState::RecoveryNeeded);
}

#[test]
fn an_operation_under_way_blocks_the_snapshot() {
    let coordinator = GitCoordinator::new();
    let markers = ditchd::git_snapshot::operation_markers();
    let seen = PreflightFacts {
        branch: ok("main\n"),
        head: ok("head\n"),
        status: ok("? a.txt\0"),
        markers: markers.iter().enumerate().map(|(i, _)| (ok("MARK\n"), i == 0)).collect(),
        staged: ok(""),
        nested: vec![false],
    };
    let Preflight::Settled { preview } = coordinator.begin_inspection("/repo", &seen).unwrap() else {
        panic!("nothing is built while a merge is under way");
    };
    assert!(preview.unsafe_to_snapshot && !preview.ready);
    assert_eq!(preview.warnings.len(), 1);
}

#[test]
fn the_first_commit_of_a_repository_is_the_same_everywhere() {
    assert!(matches!(
        ensure_head(&ok("head\n"), &ok("")).unwrap(),
        HeadStart::There { commit } if commit == "head"
    ));
    assert!(matches!(ensure_head(&failed(128, "unborn"), &ok("")).unwrap(), HeadStart::Make { args } if args == ["mktree"]));
    assert!(ensure_head(&failed(128, "unborn"), &ok("? a.txt\0")).is_err());
    let HeadProgress::Run { step, args } = make_head("main", HeadStep::Tree, &ok("tree\n")).unwrap() else {
        panic!("a commit is made of the tree");
    };
    assert!(args.contains(&"commit-tree".to_owned()));
    assert!(matches!(step, HeadStep::Commit));
}

#[test]
fn credentials_are_warned_about() {
    for name in [".env", "id_rsa", "id_ed25519", "server.pem", "tls.key"] {
        assert!(sensitive_snapshot_name(name), "{name}");
    }
    assert!(!sensitive_snapshot_name("main.rs"));
    assert!(!sensitive_snapshot_name(".env.local"));
}

#[test]
fn answers_of_git_are_read_or_refused() {
    assert_eq!(git_text(&ok(" text \n")).unwrap(), "text");
    assert!(git_text(&failed(128, "fatal: bad")).unwrap_err().message.contains("fatal: bad"));
    assert!(git_text(&GitReply::NotRun("no git".into())).is_err());
    assert_eq!(symbolic_head(&ok("main\n")).unwrap(), "main");
    assert_eq!(changed_paths(&ok("? b\0? a\0")).unwrap(), ["a", "b"]);
    assert_eq!(
        first_oid(b"0123456789012345678901234567890123456789\0rest").as_deref(),
        Some("0123456789012345678901234567890123456789")
    );
    assert!(update_internal_ref("refs/heads/main", "oid", None).is_err());
    assert!(!base_args().is_empty());
}

#[test]
fn checks_are_recorded_until_one_fails() {
    let mut checks = Vec::new();
    assert!(record_check(
        &mut checks,
        "lint".to_owned(),
        CheckEnd::Ended { code: Some(0), stdout: b"fine".to_vec(), stderr: Vec::new() }
    ));
    assert!(!record_check(&mut checks, "test".to_owned(), CheckEnd::NotRun("timed out".to_owned())));
    assert_eq!(checks.len(), 2);
    assert!(checks[0].passed && !checks[1].passed);
    assert_eq!(checks[1].output, "timed out");
    assert!(validation_output_detail(b"out", b"err").contains("out"));
    assert!(begin_validation("/v/x", "candidate", true).is_err());
    let place = validation_place("/v", 1);
    assert!(place.starts_with("/v/"));
    assert!(begin_validation(&place, "candidate", false).unwrap().contains(&"candidate".to_owned()));
}

#[test]
fn intents_are_read_from_prompts() {
    let intent = infer_change_intent("Fix `src/main.rs` and lib/auth/login.dart");
    assert!(intent.expected_paths.iter().any(|path| path == "lib/auth/login.dart"));
}

/// A result whose merge met a conflict.
fn conflicting(coordinator: &GitCoordinator) -> ManagedWorktree {
    let mut agent = worktree("Conflict");
    checkpoint(coordinator, &mut agent, "checkpoint");
    let (_, step) = coordinator.begin_integration(&mut agent).unwrap();
    let IntegrationProgress::Run { step, .. } =
        coordinator.prepare_integration(&mut agent, step, &ok("base\n"), NOW).unwrap()
    else {
        panic!("the merge is run");
    };
    coordinator.prepare_integration(&mut agent, step, &failed(1, "CONFLICT"), NOW).unwrap();
    agent
}

fn no_resolution() -> ResolutionFacts {
    ResolutionFacts {
        directory_exists: false,
        unmerged: ok(""),
        merge_head: failed(128, ""),
        head: ok("base\n"),
        target: ok("base\n"),
    }
}

/// A conflict with a workspace in which it is resolved.
fn resolving(coordinator: &GitCoordinator) -> ManagedWorktree {
    let mut agent = conflicting(coordinator);
    let project_id = agent.project_id;
    let ResolutionStart::Make { plan } = coordinator
        .create_conflict_resolution(&mut agent, project_id, "/managed/resolution-worktrees", &no_resolution())
        .unwrap()
    else {
        panic!("there is no workspace yet");
    };
    assert_eq!(coordinator.merge_checkpoint(&plan), ["merge", "--no-commit", "--no-ff", "checkpoint"]);
    let path = plan.path.clone();
    assert!(path.starts_with("/managed/resolution-worktrees/"));
    assert_eq!(
        coordinator.finish_resolution(&mut agent, &plan, &failed(1, "CONFLICT"), NOW).unwrap(),
        path
    );
    assert_eq!(agent.status, WorktreeStatus::NeedsReview);
    assert_eq!(agent.resolution_path, Some(path));
    agent
}

#[test]
fn a_conflict_is_resolved_in_a_workspace_of_its_own() {
    let coordinator = GitCoordinator::new();
    let mut agent = resolving(&coordinator);
    let project_id = agent.project_id;
    coordinator.check_resolution(&agent, project_id).unwrap();
    assert_eq!(
        coordinator.check_resolution(&agent, project_id ^ 1).unwrap_err().code,
        "resolution_ownership_unproven"
    );
    let (resolution, args) = coordinator.begin_finalize(&agent, project_id).unwrap();
    assert_eq!(args, ["rev-parse", "--verify", "refs/heads/main"]);
    let mut step = FinalizeStep::Target;
    for _ in 0..10 {
        let reply = match &step {
            FinalizeStep::Target => ok("base\n"),
            FinalizeStep::Tree => ok("resolved-tree\n"),
            FinalizeStep::Commit => ok("resolved\n"),
            FinalizeStep::Previous { .. } => failed(128, "no such reference"),
            _ => ok(""),
        };
        match coordinator.finalize_conflict_resolution(&mut agent, &resolution, step, &reply).unwrap() {
            FinalizeProgress::Run { step: next, .. } => step = next,
            FinalizeProgress::Check { candidate } => {
                assert_eq!(candidate, "resolved");
                assert_eq!(agent.candidate_oid.as_deref(), Some("resolved"));
                return;
            }
        }
    }
    panic!("a resolution takes a few commands");
}

#[test]
fn an_unfinished_or_stale_resolution_is_not_accepted() {
    let coordinator = GitCoordinator::new();
    let mut agent = resolving(&coordinator);
    let project_id = agent.project_id;
    let (resolution, _) = coordinator.begin_finalize(&agent, project_id).unwrap();
    let mut refused = |step: FinalizeStep, reply: GitReply| {
        coordinator.finalize_conflict_resolution(&mut agent, &resolution, step, &reply).unwrap_err().code
    };
    assert_eq!(refused(FinalizeStep::Target, ok("moved\n")), "resolution_stale");
    assert_eq!(refused(FinalizeStep::Unmerged, ok("100644 a\0")), "resolution_incomplete");
    assert_eq!(refused(FinalizeStep::Markers, failed(2, "")), "resolution_markers_remain");
    assert!(agent.candidate_oid.is_none());
}

#[test]
fn a_merge_without_a_conflict_needs_no_resolution() {
    let coordinator = GitCoordinator::new();
    let mut agent = conflicting(&coordinator);
    let project_id = agent.project_id;
    let start = |agent: &mut ManagedWorktree| match coordinator
        .create_conflict_resolution(agent, project_id, "/managed/resolution-worktrees", &no_resolution())
        .unwrap()
    {
        ResolutionStart::Make { plan } => plan,
        ResolutionStart::Existing { .. } => panic!("there is no workspace yet"),
    };
    let plan = start(&mut agent);
    assert_eq!(
        coordinator.finish_resolution(&mut agent, &plan, &ok(""), NOW).unwrap_err().code,
        "resolution_state_changed"
    );
    let plan = start(&mut agent);
    assert_eq!(
        coordinator
            .finish_resolution(&mut agent, &plan, &GitReply::NotRun("no git".into()), NOW)
            .unwrap_err()
            .code,
        "git_io_failed"
    );
    assert!(agent.resolution_path.is_none());
}

#[test]
fn a_resolution_workspace_is_taken_away_step_by_step() {
    let coordinator = GitCoordinator::new();
    let mut agent = resolving(&coordinator);
    let (path, args) = begin_cleanup(&agent).unwrap();
    assert_eq!(args, ["worktree", "unlock", path.as_str()]);
    let mut step = CleanupStep::Unlock;
    for _ in 0..5 {
        let reply = match step {
            CleanupStep::Look => ok("base\n"),
            _ => ok(""),
        };
        match cleanup_resolution_worktree(&mut agent, &path, step, &reply).unwrap() {
            CleanupProgress::Run { step: next, .. } => step = next,
            CleanupProgress::Done => {
                assert!(agent.resolution_path.is_none());
                assert!(agent.resolution_branch.is_none());
                assert!(begin_cleanup(&agent).is_none());
                return;
            }
        }
    }
    panic!("a removal takes a few commands");
}

#[test]
fn only_an_applied_result_is_archived() {
    let coordinator = GitCoordinator::new();
    let mut agent = prepared(&coordinator);
    let project_id = agent.project_id;
    assert_eq!(coordinator.archive_integrated(&agent, project_id).unwrap_err().code, "archive_not_safe");
    set_validation_result(&mut agent, vec![check(true)]);
    coordinator.apply(&mut agent, false, &apply_facts("base", "")).unwrap();
    coordinator.finish_apply(&mut agent, &ok(""), NOW).unwrap();
    assert_eq!(
        coordinator.archive_integrated(&agent, project_id ^ 1).unwrap_err().code,
        "worktree_ownership_unproven"
    );
    coordinator.archive_integrated(&agent, project_id).unwrap();
    let CleanupProgress::Run { mut step, .. } = begin_removal(&agent, true).unwrap() else {
        panic!("the worktree is taken away by commands");
    };
    for _ in 0..5 {
        let reply = match step {
            CleanupStep::Look => ok("base\n"),
            _ => ok(""),
        };
        match continue_removal(&mut agent, Removal::Archive, step, &reply, NOW).unwrap() {
            CleanupProgress::Run { step: next, .. } => step = next,
            CleanupProgress::Done => {
                assert_eq!(agent.status, WorktreeStatus::Integrated);
                assert_eq!(agent.lock_state, WorktreeLockState::Missing);
                return;
            }
        }
    }
    panic!("a removal takes a few commands");
}

#[test]
fn an_interrupted_application_is_settled_by_what_the_target_shows() {
    let coordinator = GitCoordinator::new();
    let mut agent = prepared(&coordinator);
    let project_id = agent.project_id;
    agent.operation = Some("apply_integration".to_owned());
    let seen = RefreshFacts {
        directory_exists: true,
        place: agent.path.clone(),
        listed: Ok(vec![SeenWorktree {
            listed: ListedWorktree {
                path: agent.path.clone(),
                head: Some("base".to_owned()),
                branch: Some(format!("refs/heads/{}", agent.branch_name)),
                locked: true,
                prunable: false,
            },
            place: agent.path.clone(),
        }]),
        head: ok("base\n"),
        status: ok(""),
    };
    let left = OperationFacts {
        target: ok("candidate\n"),
        resolution_exists: false,
        unmerged: ok(""),
        merge_head: failed(128, ""),
        resolution_head: failed(128, ""),
    };
    coordinator.reconcile_operation(&mut agent, project_id, &seen, &left, NOW).unwrap();
    assert_eq!(agent.integration_state, IntegrationState::Applied);
    assert_eq!(agent.status, WorktreeStatus::Integrated);
}

#[test]
fn a_snapshot_names_its_files_in_order() {
    let coordinator = GitCoordinator::new();
    let basis = SnapshotBasis { target_branch: "main".into(), target_oid: None, warnings: Vec::new() };
    let seen = BuildFacts {
        tree: "tree".to_owned(),
        listed: b"file with space.txt\0app.txt\0.gitignore\0".to_vec(),
        entries: Vec::new(),
        head_tree: failed(128, "unborn"),
    };
    assert_eq!(
        snapshot_files(&seen.listed),
        [Some("file with space.txt".to_owned()), Some("app.txt".to_owned()), Some(".gitignore".to_owned())]
    );
    assert_eq!(snapshot_files(&b"\xff\0/etc\0a\0".to_vec()), [None, None, Some("a".to_owned())]);
    let preview = coordinator.inspect_initial_snapshot("/repo", basis, &seen).unwrap();
    assert_eq!(preview.tree_oid.as_deref(), Some("tree"));
    assert_eq!(preview.included_paths, [".gitignore", "app.txt", "file with space.txt"]);
    assert!(!preview.ready && !preview.unsafe_to_snapshot);
    assert_eq!(marker_place("/repo", &ok(".git/MERGE_HEAD\n")).unwrap(), "/repo/.git/MERGE_HEAD");
    assert!(marker_place("/repo", &failed(128, "fatal")).is_err());
}

#[test]
fn a_snapshot_is_built_without_the_metadata_of_the_runtime() {
    let coordinator = GitCoordinator::new();
    let mut args = coordinator.begin_build();
    let mut step = BuildStep::ReadTree;
    let mut commands = Vec::new();
    let (tree, listed) = loop {
        let reply = match &step {
            BuildStep::WriteTree => ok("tree\n"),
            BuildStep::List { .. } => ok("packages/app/main.rs\0"),
            _ => ok(""),
        };
        commands.push(args.join(" "));
        match coordinator.build_snapshot("/repo/packages/app", "/repo", step, &reply).unwrap() {
            BuildProgress::Run { args: next_args, step: next } => (args, step) = (next_args, next),
            BuildProgress::Done { tree, listed } => break (tree, listed),
        }
    };
    assert_eq!(
        commands,
        [
            "read-tree --empty",
            "add -A -- .",
            "rm -r --cached --ignore-unmatch -- packages/app/.ditch",
            "write-tree",
            "ls-files -z",
        ]
    );
    assert_eq!((tree.as_str(), listed.as_slice()), ("tree", b"packages/app/main.rs\0".as_slice()));
    let outside = coordinator.build_snapshot("/elsewhere", "/repo", BuildStep::AddAll, &ok(""));
    assert_eq!(outside.unwrap_err().code, "project_repository_mismatch");
    for step in [BuildStep::ReadTree, BuildStep::AddAll, BuildStep::RemoveMetadata, BuildStep::WriteTree] {
        assert!(coordinator.build_snapshot("/repo", "/repo", step, &failed(128, "fatal")).is_err());
    }
}

#[test]
fn questions_to_git_are_exact() {
    let asked = |query: GitQuery| query_args(&query).join(" ");
    assert_eq!(asked(GitQuery::Root), "rev-parse --show-toplevel");
    assert_eq!(asked(GitQuery::Branch), "symbolic-ref --quiet --short HEAD");
    assert_eq!(asked(GitQuery::Status), "status --porcelain=v2 -z --untracked-files=all");
    assert_eq!(asked(GitQuery::Worktrees), "worktree list --porcelain -z");
    assert_eq!(asked(GitQuery::Marker("MERGE_HEAD".into())), "rev-parse --git-path MERGE_HEAD");
    assert_eq!(asked(GitQuery::Staged), "diff --cached --quiet --ignore-submodules");
    assert_eq!(asked(GitQuery::Unmerged), "ls-files -u -z");
    assert_eq!(asked(GitQuery::MergeHead), "rev-parse --quiet --verify MERGE_HEAD");
    assert_eq!(
        asked(GitQuery::Changes { from: "a".into(), to: "b".into() }),
        "diff --name-status -z --find-renames a b"
    );
    assert_eq!(asked(GitQuery::Tree("head".into())), "rev-parse --verify head^{tree}");
    assert_eq!(command_environment(&vec!["status".to_owned()]), [("LC_ALL", "C")]);
    let commit = command_environment(&vec!["commit-tree".to_owned()]);
    assert_eq!(commit.len(), 5);
    assert!(commit.contains(&("GIT_AUTHOR_NAME", "The Ditch")));
    assert!(commit.contains(&("GIT_COMMITTER_EMAIL", "ditch@localhost")));
}

#[test]
fn a_workspace_without_a_conflict_is_taken_away() {
    let plan = ResolutionPlan {
        path: "/r/w".to_owned(),
        branch: "ditch/resolver/x".to_owned(),
        target: "target".to_owned(),
        checkpoint: "checkpoint".to_owned(),
        args: Vec::new(),
    };
    assert!(begin_abandon(&failed(1, "CONFLICT")).is_none());
    assert!(begin_abandon(&GitReply::NotRun("no git".into())).is_none());
    let killed = GitReply::Ended { code: None, stdout: Vec::new(), stderr: Vec::new() };
    assert!(begin_abandon(&killed).is_some());
    let commands = |found: GitReply| {
        let mut commands = vec![begin_abandon(&ok("")).unwrap().join(" ")];
        let mut step = AbandonStep::Abort;
        let ignored = failed(128, "fatal");
        while let AbandonProgress::Run { args, step: next } =
            abandon_resolution(&plan, step, if step == AbandonStep::Look { &found } else { &ignored })
        {
            commands.push(args.join(" "));
            step = next;
        }
        commands
    };
    let all = [
        "merge --abort",
        "worktree unlock /r/w",
        "worktree remove --force /r/w",
        "rev-parse --verify refs/heads/ditch/resolver/x",
        "update-ref -d refs/heads/ditch/resolver/x current",
    ];
    assert_eq!(commands(ok("current\n")), all);
    assert_eq!(commands(failed(128, "no such branch")), all[..4]);
}

#[test]
fn an_accepted_resolution_is_dated_at_the_end() {
    let coordinator = GitCoordinator::new();
    let mut agent = prepared(&coordinator);
    agent.updated_at = 5;
    assert!(coordinator.check_finalized(&mut agent, vec![check(true)]));
    assert_eq!((agent.validation_state, agent.updated_at), (ValidationState::Passed, 5));
    coordinator.finish_finalize(&mut agent, NOW);
    assert_eq!(agent.updated_at, NOW);
    assert!(!coordinator.check_finalized(&mut agent, vec![check(false)]));
}

#[test]
fn a_worktree_starts_from_a_project_with_history() {
    let coordinator = GitCoordinator::new();
    let ready = InitialSnapshotPreview { ready: true, target_oid: Some("head".into()), ..preview() };
    let (below, target) = coordinator
        .begin_worktree(&ready, "/repo/packages/app", "/repo", &ok("main\n"))
        .unwrap();
    assert_eq!(below, "packages/app");
    assert_eq!(target, "main");
    let changed = InitialSnapshotPreview { target_oid: Some("head".into()), ..preview() };
    assert_eq!(
        coordinator.begin_worktree(&changed, "/repo", "/repo", &ok("main\n")).unwrap_err().code,
        "project_snapshot_required"
    );
    assert!(coordinator.begin_worktree(&preview(), "/repo", "/repo", &ok("main\n")).is_ok());
    assert!(coordinator.begin_worktree(&ready, "/elsewhere", "/repo", &ok("main\n")).is_err());
}

#[test]
fn a_place_of_checks_that_stays_is_told() {
    assert_eq!(leave_validation("/v/x"), ["worktree", "remove", "/v/x"]);
    end_validation(&ok("")).unwrap();
    assert_eq!(end_validation(&failed(128, "locked")).unwrap_err().code, "validation_cleanup_failed");
}
