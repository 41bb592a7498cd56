use ditchd::agent_output::resume_block_reason;
use ditchd::app_server::{Event, PermissionDecision};
use ditchd::diagnostics::{
    agent_display_name, is_terminal_codex_stderr, is_transient_reconnect, is_workspace_permission_denial,
    notification_summary,
};
use ditchd::ids::new_identifier;
use ditchd::model::{
    AgentApprovalPreset, AgentChatMessage, AgentChatRole, AgentExecutionProfile, AgentResumeBlockReason,
    AgentRun, AgentState, AttentionKind, CodexLaunchMode, PermissionActionKind, PermissionRequest, Project,
    ProjectExecutionTarget, ProjectGitPolicy, RuntimeAttention,
};
use ditchd::records::SavedAgent;
use ditchd::service::{Sequence, Terminals, ProjectTerminal};
use ditchd::sessions::{
    after_grace, grace_of, guarded_remote_profile, launch_failure, launch_run, new_run,
    verify_project_git_policy, SessionKind, StopPhase,
};
use ditchd::state::{ActiveRun, AgentRecord, Effect, RuntimeState, ServerEvent};
use ditchd::turns::{approval_notice, TurnWatch, WatchStep};

const NOW: i64 = 1_787_596_800_000;

fn test_runtime() -> RuntimeState {
    RuntimeState::restore(Vec::new(), Vec::new(), Vec::new(), None, false)
}

fn project(name: &str, root: &str) -> Project {
    Project {
        id: new_identifier(),
        name: name.to_owned(),
        root: root.to_owned(),
        git_policy: ProjectGitPolicy::RequireRepository,
        execution_target: ProjectExecutionTarget::Local,
    }
}

fn agent(project: &Project, state: AgentState, thread: Option<&str>, title: Option<&str>) -> AgentRecord {
    AgentRecord {
        run: AgentRun {
            id: new_identifier(),
            state,
            can_stop: false,
            launch_mode: CodexLaunchMode::Exec,
            execution_profile: AgentExecutionProfile::standard(),
            project_id: project.id,
            native_session_id: thread.map(str::to_owned),
            codex_title: title.map(str::to_owned),
            user_title: None,
            origin_codex_home: None,
            current_prompt: Some("test".to_owned()),
            last_visible_action: None,
            state_evidence: "fixture".to_owned(),
            started_at: NOW,
            updated_at: NOW,
            finished_at: None,
            exit_code: None,
            resume_block_reason: None,
        },
        project_root: project.root.clone(),
        allow_non_git: false,
        messages: Vec::new(),
        terminal_failure: None,
    }
}

fn attention(title: &str) -> RuntimeAttention {
    RuntimeAttention {
        id: new_identifier(),
        kind: AttentionKind::Completed,
        agent_id: None,
        project_id: None,
        project_name: None,
        agent_name: None,
        title: title.to_owned(),
        body: "The agent completed".to_owned(),
        created_at: NOW,
        read_at: None,
    }
}

fn saved_runs(effects: &[Effect]) -> Vec<Option<i32>> {
    effects
        .iter()
        .filter_map(|effect| match effect {
            Effect::SaveAgent { run, .. } => Some(run.exit_code),
            _ => None,
        })
        .collect()
}

#[test]
fn local_runtime_rejects_the_internal_ssh_app_server_launch() {
    let runtime = test_runtime();
    let error = runtime
        .check_app_server_session(new_identifier(), "Remote", "/srv/remote", None)
        .expect_err("local runtime must reject the SSH-only launch");
    assert_eq!(error.code, "ssh_app_server_only");
}

#[test]
fn attention_subscribers_only_receive_attention_events() {
    let mut sequence = Sequence::new();
    let general = sequence.broadcast(&ServerEvent::ProjectDeleted { project_id: 1 });
    assert!(!general.for_attention);
    assert_eq!(general.sequence, 1);
    let attention_id = new_identifier();
    let notice = sequence.broadcast(&ServerEvent::AttentionDismissed { attention_id });
    assert!(notice.for_attention);
    assert_eq!(notice.sequence, 2);
    assert!(sequence.broadcast(&ServerEvent::AttentionRead { attention_ids: vec![attention_id] }).for_attention);
    assert!(sequence.broadcast(&ServerEvent::AttentionRaised(attention("x"))).for_attention);
    assert!(!sequence.broadcast(&ServerEvent::AttentionSnapshotReplaced(Vec::new())).for_attention);
    assert_eq!(sequence.first(), 6);
}

#[test]
fn marking_attention_read_updates_status_and_persists() {
    let mut runtime = test_runtime();
    let first = attention("Finished");
    let first_id = first.id;
    let second = attention("Another result");
    let second_id = second.id;
    runtime.attention.push(first);
    runtime.attention.push(second);
    assert_eq!(runtime.unread_attention_count(), 2);

    let targets = runtime.attention_targets(Some(&vec![first_id]));
    assert!(targets.by_host.is_empty());
    let changed = runtime.mark_attention_read(Some(&targets.local), NOW);

    assert_eq!(changed, [first_id]);
    assert_eq!(runtime.unread_attention_count(), 1);
    assert!(runtime.attention[0].read_at.is_some());
    assert!(runtime.attention[1].read_at.is_none());

    let targets = runtime.attention_targets(None);
    let changed = runtime.mark_attention_read(Some(&targets.local), NOW + 1);
    assert_eq!(changed, [second_id]);
    assert_eq!(runtime.unread_attention_count(), 0);
    assert_eq!(runtime.attention[0].read_at, Some(NOW));

    runtime.unmark_attention_read(&changed);
    assert_eq!(runtime.unread_attention_count(), 1);
}

#[test]
fn workspace_permission_denials_are_recognized() {
    assert!(is_workspace_permission_denial(
        "patch rejected: writing is blocked by read-only sandbox; rejected by user approval settings"
    ));
    assert!(!is_workspace_permission_denial("Codex exited with code 1"));
}

#[test]
fn reconnect_retries_are_not_terminal_failures() {
    assert!(is_transient_reconnect(
        "Reconnecting... 2/5 (stream disconnected before completion: Broken pipe)"
    ));
    assert!(!is_transient_reconnect("stream disconnected permanently"));
}

#[test]
fn active_writer_stderr_is_promoted_to_a_visible_terminal_failure() {
    assert!(is_terminal_codex_stderr(
        "Error: thread/resume: thread 123 already has an active writer"
    ));
    assert!(!is_terminal_codex_stderr(
        "2026-08-20 ERROR codex_core::tools::router: apply_patch failed"
    ));
}

#[test]
fn stopping_run_still_accepts_an_in_flight_thread_id() {
    let mut runtime = test_runtime();
    let project = project("Fixture", "/tmp/fixture-stopping-thread");
    let record = agent(&project, AgentState::Stopping, None, None);
    let agent_id = record.run.id;
    runtime.put_project(project);
    runtime.agents.push(record);
    let run_id = new_identifier();
    runtime.children.push(ActiveRun { agent_id, run_id, app_server: false });
    let mut effects = Vec::new();

    runtime.handle_codex_stdout_line(
        agent_id,
        Some(run_id),
        r#"{"type":"thread.started","thread_id":"thread-arrived-during-stop"}"#,
        None,
        NOW,
        new_identifier(),
        &mut effects,
    );

    assert_eq!(
        runtime.agents[0].run.native_session_id.as_deref(),
        Some("thread-arrived-during-stop")
    );
    assert_eq!(runtime.agents[0].run.state, AgentState::Stopping);
}

#[test]
fn failed_agent_creates_attention_with_stderr_detail() {
    let mut runtime = test_runtime();
    let project = project("Fixture", "/tmp/fixture");
    let project_id = project.id;
    let mut record = agent(&project, AgentState::Working, None, None);
    let agent_id = record.run.id;
    record.messages.push(AgentChatMessage {
        agent_id,
        role: AgentChatRole::System,
        text: "fixture failure".to_owned(),
        created_at: NOW,
    });
    runtime.put_project(project);
    runtime.agents.push(record);
    let mut effects = Vec::new();

    runtime.finish_agent(agent_id, None, Some(1), NOW, new_identifier(), &mut effects);

    let refused = runtime.check_prompt(agent_id).expect_err("there is no thread to resume");
    assert_eq!(refused.code, "agent_not_resumable");
    assert_eq!(runtime.agents[0].run.state, AgentState::Failed);
    assert_eq!(runtime.agents[0].run.exit_code, Some(1));
    assert!(runtime.agents[0].run.finished_at.is_some());
    assert_eq!(
        runtime.agents[0].run.resume_block_reason,
        Some(AgentResumeBlockReason::NoCodexThread)
    );
    assert_eq!(runtime.agents.len(), 1);
    assert_eq!(runtime.attention.len(), 1);
    assert_eq!(runtime.attention[0].body, "fixture failure");
    assert_eq!(runtime.attention[0].project_id, Some(project_id));
    assert_eq!(saved_runs(&effects), [Some(1)]);
}

#[test]
fn completed_agent_creates_project_scoped_attention() {
    let mut runtime = test_runtime();
    let project = project("Fixture", "/tmp/fixture-completed");
    let project_id = project.id;
    let record =
        agent(&project, AgentState::Working, Some("thread-completed"), Some("Notification test"));
    let agent_id = record.run.id;
    runtime.put_project(project);
    runtime.agents.push(record);
    let mut effects = Vec::new();

    runtime.finish_agent(agent_id, None, Some(0), NOW, new_identifier(), &mut effects);

    assert_eq!(runtime.agents[0].run.state, AgentState::Completed);
    assert_eq!(runtime.attention.len(), 1);
    assert_eq!(runtime.attention[0].kind, AttentionKind::Completed);
    assert_eq!(runtime.attention[0].agent_id, Some(agent_id));
    assert_eq!(runtime.attention[0].project_id, Some(project_id));
    assert_eq!(runtime.attention[0].project_name.as_deref(), Some("Fixture"));
    assert_eq!(runtime.attention[0].agent_name.as_deref(), Some("Notification test"));
    let saved = effects
        .iter()
        .filter(|effect| matches!(effect, Effect::SaveAttention(item) if item.kind == AttentionKind::Completed))
        .count();
    assert_eq!(saved, 1);
}

#[test]
fn assistant_and_tool_text_cannot_create_false_permission_failures() {
    let mut runtime = test_runtime();
    let project = project("Safe project", "/tmp/safe-content");
    let record = agent(&project, AgentState::Working, Some("thread-safe"), Some("Safety test"));
    let agent_id = record.run.id;
    runtime.put_project(project);
    runtime.agents.push(record);
    let mut effects = Vec::new();

    for line in [
        r#"{"type":"item.completed","item":{"type":"command_execution","command":"patch source containing writing is blocked by a read-only sandbox and block"}}"#,
        r#"{"type":"item.completed","item":{"type":"agent_message","text":"This answer discusses workspace_permission_denial and writing is blocked, but reports no failure."}}"#,
        r#"{"type":"turn.completed"}"#,
    ] {
        runtime.handle_codex_stdout_line(agent_id, None, line, None, NOW, new_identifier(), &mut effects);
    }
    runtime.finish_agent(agent_id, None, Some(0), NOW, new_identifier(), &mut effects);

    assert_eq!(runtime.agents[0].run.state, AgentState::Completed);
    assert!(runtime.agents[0].terminal_failure.is_none());
    assert_eq!(runtime.attention.len(), 1);
    assert_eq!(runtime.attention[0].kind, AttentionKind::Completed);
    assert_eq!(
        runtime.agents[0]
            .messages
            .iter()
            .filter(|message| message.role == AgentChatRole::System)
            .count(),
        0
    );
}

#[test]
fn structured_turn_failure_is_visible_in_chat_and_attention() {
    let mut runtime = test_runtime();
    let project = project("Fixture", "/tmp/fixture");
    let record = agent(&project, AgentState::Working, Some("thread-quota"), None);
    let agent_id = record.run.id;
    runtime.put_project(project);
    runtime.agents.push(record);
    let mut effects = Vec::new();

    runtime.handle_codex_stdout_line(
        agent_id,
        None,
        r#"{"type":"task_complete","payload":{"error":{"message":"You've hit your usage limit.","code":"usage_limit_exceeded"}}}"#,
        None,
        NOW,
        new_identifier(),
        &mut effects,
    );
    runtime.finish_agent(agent_id, None, Some(1), NOW, new_identifier(), &mut effects);

    assert_eq!(runtime.agents[0].messages.len(), 1);
    assert_eq!(
        runtime.agents[0].messages[0].text,
        "You've hit your usage limit. (code: usage_limit_exceeded)"
    );
    assert_eq!(
        runtime.attention[0].body,
        "You've hit your usage limit. (code: usage_limit_exceeded)"
    );
}

#[test]
fn codex_thread_cannot_resume_in_another_project() {
    let mut runtime = test_runtime();
    let project = project("Original", "/tmp/original");
    let record = agent(&project, AgentState::Failed, Some("thread-123"), None);
    runtime.put_project(project);
    runtime.agents.push(record);

    let error = runtime
        .validate_thread_project("thread-123", "/tmp/other")
        .expect_err("cross-project resume must fail");

    assert!(error.contains("belongs to /tmp/original, not /tmp/other"));
    assert!(runtime.validate_thread_project("thread-123", "/tmp/original/").is_ok());
    assert!(runtime.validate_thread_project("thread-999", "/tmp/other").is_ok());
}

#[test]
fn a_late_exit_of_an_earlier_run_changes_nothing() {
    let mut runtime = test_runtime();
    let project = project("Fixture", "/tmp/fixture");
    let record = agent(&project, AgentState::Working, Some("thread"), None);
    let agent_id = record.run.id;
    runtime.put_project(project);
    runtime.agents.push(record);
    runtime.children.push(ActiveRun { agent_id, run_id: 2, app_server: false });
    let mut effects = Vec::new();
    runtime.finish_agent(agent_id, Some(1), Some(1), NOW, new_identifier(), &mut effects);
    assert!(effects.is_empty());
    assert_eq!(runtime.agents[0].run.state, AgentState::Working);
    assert_eq!(runtime.children.len(), 1);
}

#[test]
fn stopping_is_told_and_ends_as_an_interruption() {
    let mut runtime = test_runtime();
    let project = project("Fixture", "/tmp/fixture-stop");
    let mut record = agent(&project, AgentState::Working, Some("thread-stop"), Some("Stop test"));
    record.run.can_stop = true;
    let agent_id = record.run.id;
    runtime.put_project(project);
    runtime.agents.push(record);
    let run_id = new_identifier();
    runtime.children.push(ActiveRun { agent_id, run_id, app_server: false });
    let mut effects = Vec::new();

    let child = runtime.stop_agent(agent_id, NOW, &mut effects).unwrap().expect("a process to stop");
    assert_eq!(child.run_id, run_id);
    assert_eq!(runtime.agents[0].run.state, AgentState::Stopping);
    runtime.finalize_stopped_run(agent_id, run_id, NOW, &mut effects);
    assert_eq!(runtime.agents[0].run.state, AgentState::Interrupted);
    assert_eq!(runtime.agents[0].run.last_visible_action.as_deref(), Some("Stopped by user"));
    assert!(runtime.children.is_empty());
    assert!(runtime.attention.is_empty());
}

#[test]
fn processes_are_asked_before_they_are_killed() {
    assert_eq!(grace_of(StopPhase::Interrupt), 1500);
    assert_eq!(grace_of(StopPhase::Terminate), 500);
    assert_eq!(grace_of(StopPhase::Kill), 1500);
    assert_eq!(after_grace(StopPhase::Interrupt).unwrap(), StopPhase::Terminate);
    assert_eq!(after_grace(StopPhase::Terminate).unwrap(), StopPhase::Kill);
    assert!(after_grace(StopPhase::Kill).is_err());
}

#[test]
fn a_restart_offers_no_stop_and_forgets_agents_without_a_project() {
    let kept = project("Fixture", "/tmp/fixture");
    let gone = project("Gone", "/tmp/gone");
    let mut run = agent(&kept, AgentState::Working, None, None).run;
    run.can_stop = true;
    let stray = agent(&gone, AgentState::Working, None, None).run;
    let runtime = RuntimeState::restore(
        vec![kept],
        vec![
            SavedAgent { run, messages: Vec::new(), terminal_failure: None },
            SavedAgent { run: stray, messages: Vec::new(), terminal_failure: None },
        ],
        Vec::new(),
        None,
        false,
    );
    assert_eq!(runtime.agents.len(), 1);
    assert!(!runtime.agents[0].run.can_stop);
    assert_eq!(runtime.active_session_count(), 1);
}

#[test]
fn projects_with_active_agents_are_not_deleted() {
    let mut runtime = test_runtime();
    let project = project("Fixture", "/tmp/fixture");
    let project_id = project.id;
    let record = agent(&project, AgentState::Working, None, None);
    let agent_id = record.run.id;
    runtime.put_project(project);
    runtime.agents.push(record);
    assert_eq!(runtime.check_delete_agent(agent_id).unwrap_err().code, "agent_active");
    assert_eq!(runtime.check_delete_project(project_id).unwrap_err().code, "project_active");
    assert_eq!(runtime.check_delete_project(project_id + 1).unwrap_err().code, "project_not_found");
    let mut effects = Vec::new();
    runtime.shutdown(NOW, &mut effects);
    assert_eq!(runtime.agents[0].run.state, AgentState::Interrupted);
    assert_eq!(runtime.active_session_count(), 0);
    assert!(runtime.check_delete_project(project_id).is_ok());
    runtime.delete_project(project_id, &mut effects);
    assert!(runtime.projects.is_empty() && runtime.agents.is_empty());
    assert!(matches!(
        effects.last(),
        Some(Effect::Tell(ServerEvent::ProjectDeleted { project_id: id })) if *id == project_id
    ));
}

#[test]
fn agents_are_renamed_and_shown_by_their_best_title() {
    let mut runtime = test_runtime();
    let project = project("Fixture", "/tmp/fixture");
    let record = agent(&project, AgentState::Completed, None, Some("From Codex"));
    let agent_id = record.run.id;
    runtime.put_project(project);
    runtime.agents.push(record);
    let mut effects = Vec::new();
    runtime.rename_agent(agent_id, Some("  Mine  "), NOW, &mut effects).unwrap();
    assert_eq!(agent_display_name(&runtime.agents[0].run), "Mine");
    runtime.rename_agent(agent_id, Some("   "), NOW, &mut effects).unwrap();
    assert_eq!(agent_display_name(&runtime.agents[0].run), "From Codex");
    assert_eq!(
        runtime.rename_agent(agent_id + 1, None, NOW, &mut effects).unwrap_err().code,
        "agent_not_found"
    );
}

#[test]
fn launches_hold_to_the_git_policy_and_to_guarded_profiles() {
    assert!(verify_project_git_policy(ProjectGitPolicy::RequireRepository, true).is_ok());
    assert!(verify_project_git_policy(ProjectGitPolicy::RequireRepository, false).is_err());
    assert!(verify_project_git_policy(ProjectGitPolicy::AllowOutsideGit, false).is_ok());
    let full = AgentExecutionProfile {
        approval: AgentApprovalPreset::FullAccess,
        ..AgentExecutionProfile::standard()
    };
    assert_eq!(guarded_remote_profile(full).approval, AgentApprovalPreset::Ask);
}

#[test]
fn a_launch_that_failed_is_kept_with_its_notice() {
    let mut runtime = test_runtime();
    let project = project("Fixture", "/tmp/fixture");
    let profile = AgentExecutionProfile::standard();
    let run = new_run(
        SessionKind::Start,
        7,
        project.id,
        CodexLaunchMode::Exec,
        &profile,
        "do it",
        None,
        None,
        NOW,
    );
    assert_eq!(run.last_visible_action.as_deref(), Some("Starting Codex"));
    let started = launch_run(SessionKind::Start, run.copy(), NOW + 1);
    assert!(started.can_stop);
    assert_eq!(started.state, AgentState::Working);
    let message = AgentChatMessage {
        agent_id: 7,
        role: AgentChatRole::User,
        text: "do it".to_owned(),
        created_at: NOW,
    };
    let failure = launch_failure(project, run, message, "no codex", NOW, 8);
    let mut effects = Vec::new();
    let error = runtime.persist_launch_failure(failure, &mut effects);
    assert!(error.message.contains("no codex"));
    assert_eq!(runtime.agents[0].run.state, AgentState::Failed);
    assert_eq!(runtime.attention.len(), 1);
    assert_eq!(resume_block_reason(&None), Some(AgentResumeBlockReason::NoCodexThread));
    assert_eq!(resume_block_reason(&Some("t".to_owned())), None);
}

#[test]
fn summaries_of_notices_are_short() {
    let long = "x".repeat(500);
    let summary = notification_summary(&long);
    assert_eq!(summary.chars().count(), 220);
    assert!(summary.ends_with('…'));
    assert_eq!(notification_summary("  two\n words "), "two words");
}

fn asking_runtime() -> (RuntimeState, u128, u128) {
    let mut runtime = RuntimeState::restore(Vec::new(), Vec::new(), Vec::new(), None, true);
    let project = project("Remote", "/srv/remote");
    let record = agent(&project, AgentState::Working, Some("thread"), None);
    let agent_id = record.run.id;
    runtime.put_project(project);
    runtime.agents.push(record);
    let run_id = new_identifier();
    runtime.children.push(ActiveRun { agent_id, run_id, app_server: true });
    runtime.turns.push(agent_id);
    (runtime, agent_id, run_id)
}

fn permission(id: u128, agent_id: u128, project_id: u128) -> PermissionRequest {
    PermissionRequest {
        id,
        project_id,
        agent_id: Some(agent_id),
        action: PermissionActionKind::RunCommand,
        summary: "Run cargo test".to_owned(),
        target: "/srv/remote".to_owned(),
        command: Some("cargo test".to_owned()),
        questions: Vec::new(),
        created_at: NOW,
        expires_at: None,
    }
}

#[test]
fn a_permission_is_asked_for_and_granted() {
    let (mut runtime, agent_id, run_id) = asking_runtime();
    let project_id = runtime.projects[0].id;
    let mut effects = Vec::new();
    let notice = approval_notice(&permission(9, agent_id, project_id), agent_id);
    assert_eq!(notice.title, "Agent needs permission");
    let over = runtime.handle_remote_app_server_event(
        agent_id,
        run_id,
        Event::ApprovalRequested(permission(9, agent_id, project_id)),
        true,
        NOW,
        1,
        &mut effects,
    );
    assert!(!over);
    assert_eq!(runtime.agents[0].run.state, AgentState::AwaitingApproval);
    assert_eq!(runtime.attention.len(), 1);
    assert_eq!(runtime.permissions.len(), 1);
    let (target, target_run) = runtime.target_of_decision(9).unwrap();
    assert_eq!((target, target_run), (agent_id, Some(run_id)));
    assert_eq!(runtime.target_of_decision(10).unwrap_err().message, "approval request expired");
    assert_eq!(runtime.target_of_answers(10).unwrap_err().message, "Question expired");

    runtime.finish_decision(
        agent_id,
        Some(run_id),
        9,
        PermissionDecision::ApproveForSession,
        NOW,
        &mut effects,
    );
    assert_eq!(runtime.agents[0].run.state, AgentState::Working);
    assert_eq!(
        runtime.agents[0].run.last_visible_action.as_deref(),
        Some("Permission granted for this session")
    );
    assert!(runtime.permissions.is_empty() && runtime.attention.is_empty());
    assert!(runtime.permission_agents.is_empty());
}

#[test]
fn a_decision_for_an_old_turn_changes_nothing() {
    let (mut runtime, agent_id, run_id) = asking_runtime();
    let project_id = runtime.projects[0].id;
    let mut effects = Vec::new();
    runtime.handle_remote_app_server_event(
        agent_id,
        run_id,
        Event::ApprovalRequested(permission(9, agent_id, project_id)),
        true,
        NOW,
        1,
        &mut effects,
    );
    runtime.children[0].run_id = run_id + 1;
    let told = effects.len();
    runtime.finish_decision(agent_id, Some(run_id), 9, PermissionDecision::ApproveOnce, NOW, &mut effects);
    assert_eq!(effects.len(), told);
    assert_eq!(runtime.permissions.len(), 1);
    assert_eq!(runtime.agents[0].run.state, AgentState::AwaitingApproval);
}

#[test]
fn a_turn_that_completes_clears_what_it_asked_for() {
    let (mut runtime, agent_id, run_id) = asking_runtime();
    let project_id = runtime.projects[0].id;
    let mut effects = Vec::new();
    for id in [9, 10] {
        runtime.handle_remote_app_server_event(
            agent_id,
            run_id,
            Event::ApprovalRequested(permission(id, agent_id, project_id)),
            true,
            NOW,
            1,
            &mut effects,
        );
    }
    let over = runtime.handle_remote_app_server_event(
        agent_id,
        run_id,
        Event::TurnCompleted { status: "completed".to_owned(), error: None },
        false,
        NOW,
        1,
        &mut effects,
    );
    assert!(over);
    assert!(runtime.permissions.is_empty() && runtime.attention.is_empty() && runtime.turns.is_empty());
    assert_eq!(runtime.agents[0].run.state, AgentState::Completed);
    assert_eq!(runtime.agents[0].run.exit_code, Some(0));
    assert_eq!(runtime.agents[0].run.last_visible_action.as_deref(), Some("Turn completed"));
}

#[test]
fn events_of_an_earlier_turn_end_its_watch() {
    let (mut runtime, agent_id, run_id) = asking_runtime();
    let mut effects = Vec::new();
    assert!(runtime.handle_remote_app_server_event(
        agent_id,
        run_id + 1,
        Event::ThreadReady("other".to_owned()),
        false,
        NOW,
        1,
        &mut effects,
    ));
    assert_eq!(runtime.agents[0].run.native_session_id.as_deref(), Some("thread"));
    assert!(effects.is_empty());
}

#[test]
fn an_agent_is_reserved_for_one_prompt_at_a_time() {
    let (mut runtime, agent_id, _) = asking_runtime();
    assert_eq!(runtime.reserve_turn(agent_id).unwrap_err().code, "agent_busy");
    runtime.children.clear();
    let target = runtime.reserve_turn(agent_id).unwrap();
    assert_eq!(target.thread_id.as_deref(), Some("thread"));
    assert_eq!(runtime.reserve_turn(agent_id).unwrap_err().code, "agent_busy");
    runtime.release_turn(agent_id);
    assert!(runtime.reserve_turn(agent_id).is_ok());
    runtime.release_turn(agent_id);
    runtime.agents[0].run.origin_codex_home = Some("/elsewhere".to_owned());
    assert_eq!(runtime.reserve_turn(agent_id).unwrap_err().code, "codex_home_mismatch");
    runtime.agents[0].run.native_session_id = None;
    assert_eq!(runtime.reserve_turn(agent_id).unwrap_err().code, "agent_not_resumable");
    assert_eq!(runtime.reserve_turn(agent_id + 1).unwrap_err().code, "agent_not_found");
}

#[test]
fn sessions_on_an_ssh_host_must_match_its_project() {
    let (runtime, _, _) = asking_runtime();
    let id = runtime.projects[0].id;
    assert!(runtime.check_app_server_session(id, "Remote", "/srv/remote/", None).is_ok());
    assert_eq!(
        runtime.check_app_server_session(id, "Other", "/srv/remote", None).unwrap_err().code,
        "remote_project_mismatch"
    );
    assert_eq!(
        runtime.check_app_server_session(id + 1, "Remote", "/srv/remote", None).unwrap_err().code,
        "project_not_found"
    );
}

#[test]
fn app_server_drains_final_output_before_processing_child_exit() {
    let mut watch = TurnWatch::new();
    assert_eq!(watch.step(true, 0), WatchStep::Continue);
    watch.hear(true, 100);
    assert_eq!(watch.step(true, 200), WatchStep::Continue);
    watch.close_output();
    assert_eq!(watch.step(true, 300), WatchStep::Ended);

    // The process has already ended before what it said is heard.
    let (mut runtime, agent_id, run_id) = asking_runtime();
    let mut effects = Vec::new();
    let mut watch = TurnWatch::new();
    let said = [
        (Event::AssistantMessage("final answer".to_owned()), false),
        (Event::TurnCompleted { status: "completed".to_owned(), error: None }, true),
    ];
    for (event, completes) in said {
        assert_eq!(watch.step(true, 0), WatchStep::Continue);
        runtime.handle_remote_app_server_event(agent_id, run_id, event, true, NOW, 1, &mut effects);
        watch.hear(completes, 0);
    }
    watch.close_output();
    assert_eq!(watch.step(true, 0), WatchStep::Ended);
    runtime.finish_agent(agent_id, Some(run_id), Some(0), NOW, new_identifier(), &mut effects);
    assert!(runtime.children.is_empty());
    assert_eq!(runtime.agents[0].run.state, AgentState::Completed);
    assert!(runtime.agents[0].messages.iter().any(|message| message.text == "final answer"));
}

#[test]
fn a_process_that_lingers_is_killed() {
    let mut watch = TurnWatch::new();
    watch.hear(true, 1_000);
    assert_eq!(watch.step(false, 3_000), WatchStep::Continue);
    assert_eq!(watch.step(false, 3_001), WatchStep::Kill);
    let mut cut = TurnWatch::new();
    cut.close_output();
    assert_eq!(cut.step(false, 10), WatchStep::Disconnected);
    assert_eq!(cut.step(true, 20), WatchStep::Ended);
    let mut early = TurnWatch::new();
    early.close_output();
    assert_eq!(early.step(true, 20), WatchStep::EndedEarly);
}

#[test]
fn a_project_has_one_terminal() {
    let mut terminals = Terminals::new();
    let terminal = |id: u128| ProjectTerminal { id, project_id: 1, shell: "/bin/zsh".to_owned() };
    assert!(terminals.open(terminal(5)).is_none());
    assert_eq!(terminals.open(terminal(6)).unwrap().id, 5);
    assert_eq!(terminals.of_project(1).unwrap().id, 5);
    assert!(terminals.check(5).is_ok());
    assert_eq!(terminals.check(6).unwrap_err().code, "terminal_not_found");
    assert!(terminals.close(5));
    assert!(!terminals.close(5));
    assert!(terminals.of_project(1).is_none());
}

#[test]
fn a_started_session_is_prompted_and_killed_by_its_run() {
    let mut runtime = test_runtime();
    let project = project("app", "/work/app");
    let record = agent(&project, AgentState::Working, None, None);
    let id = record.run.id;
    let message = AgentChatMessage {
        agent_id: id,
        role: AgentChatRole::User,
        text: "test".to_owned(),
        created_at: NOW,
    };
    let mut effects = Vec::new();
    assert_eq!(runtime.force_kill_agent(id).unwrap_err().code, "agent_not_found");
    runtime.start_session(project, record.run, message, 11, false, &mut effects);
    assert_eq!(runtime.force_kill_agent(id).unwrap().run_id, 11);
    assert_eq!(runtime.project_for_launch("/work/app", None, "other", 5).name, "app");
    assert_eq!(runtime.project_for_launch("/work/new", None, "new", 5).id, 5);
    runtime
        .prompt_agent(id, "again", &AgentExecutionProfile::standard(), 12, false, NOW + 1, &mut effects)
        .unwrap();
    assert_eq!(runtime.force_kill_agent(id).unwrap().run_id, 12);
    let unknown = runtime
        .prompt_agent(new_identifier(), "x", &AgentExecutionProfile::standard(), 13, false, NOW, &mut effects)
        .unwrap_err();
    assert_eq!(unknown.code, "agent_not_found");
}

#[test]
fn deleted_agents_and_dismissed_notices_are_gone() {
    let mut runtime = test_runtime();
    let record = agent(&project("app", "/work/app"), AgentState::Completed, None, None);
    let id = record.run.id;
    runtime.agents.push(record);
    let mut notice = attention("Finished");
    notice.agent_id = Some(id);
    let notice_id = notice.id;
    runtime.attention.push(notice);
    let mut effects = Vec::new();
    runtime.dismiss_attention(notice_id, &mut effects);
    assert!(runtime.attention.is_empty());
    runtime.delete_agent(id, &mut effects);
    assert!(runtime.agents.is_empty());
    assert!(effects.iter().any(|effect| matches!(
        effect,
        Effect::Tell(ServerEvent::AttentionDismissed { attention_id }) if *attention_id == notice_id
    )));
}

#[test]
fn diagnostics_of_a_stale_run_change_nothing() {
    let mut runtime = test_runtime();
    let record = agent(&project("app", "/work/app"), AgentState::Working, None, None);
    let id = record.run.id;
    runtime.agents.push(record);
    let mut effects = Vec::new();
    runtime.handle_codex_stderr_line(id, Some(99), "Error: already has an active writer", NOW, 1, &mut effects);
    assert_eq!(effects.len(), 1);
    assert!(matches!(effects[0], Effect::Log { .. }));
    assert!(runtime.agents[0].terminal_failure.is_none());
    runtime.handle_codex_stderr_line(
        id,
        None,
        "Error: thread/resume: thread 123 already has an active writer",
        NOW,
        1,
        &mut effects,
    );
    assert!(runtime.agents[0].terminal_failure.is_some());
}
