use ditchd::ids::new_identifier;
use ditchd::model::{
    AgentChatMessage, AgentChatRole, AgentExecutionProfile, AgentRun, AgentState, AttentionKind,
    CodexLaunchMode, Project, ProjectExecutionTarget, ProjectGitPolicy, ProtocolError, RuntimeAttention,
};
use ditchd::remote_hosts::{poll_result, PresenceTable};
use ditchd::requests::{
    attention_reply, check_remote_project, remote_machine_identity, AgentProvider, ClientRequest, Follow,
    HostReply, Place,
};
use ditchd::state::{AgentRecord, Effect, RuntimeState, ServerEvent, Snapshot};
use ditchd::targets::{repository_made, GitInit, Subscriptions};

const NOW: i64 = 1_787_596_800_000;

fn runtime() -> RuntimeState {
    RuntimeState::restore(Vec::new(), Vec::new(), Vec::new(), None, false)
}

fn remote_project(alias: &str, root: &str) -> Project {
    Project {
        id: new_identifier(),
        name: "Remote".to_owned(),
        root: root.to_owned(),
        git_policy: ProjectGitPolicy::RequireRepository,
        execution_target: ProjectExecutionTarget::Remote {
            remote_machine_id: new_identifier(),
            ssh_host_alias: alias.to_owned(),
        },
    }
}

fn local_project(root: &str) -> Project {
    Project { execution_target: ProjectExecutionTarget::Local, ..remote_project("", root) }
}

fn run(project: &Project) -> AgentRun {
    AgentRun {
        id: new_identifier(),
        state: AgentState::Working,
        can_stop: true,
        launch_mode: CodexLaunchMode::Exec,
        execution_profile: AgentExecutionProfile::standard(),
        project_id: project.id,
        native_session_id: None,
        codex_title: None,
        user_title: None,
        origin_codex_home: None,
        current_prompt: None,
        last_visible_action: None,
        state_evidence: String::new(),
        started_at: NOW,
        updated_at: NOW,
        finished_at: None,
        exit_code: None,
        resume_block_reason: None,
    }
}

fn notice(project: &Project) -> RuntimeAttention {
    RuntimeAttention {
        id: new_identifier(),
        kind: AttentionKind::Blocked,
        agent_id: None,
        project_id: Some(project.id),
        project_name: None,
        agent_name: None,
        title: "Blocked".to_owned(),
        body: String::new(),
        created_at: NOW,
        read_at: None,
    }
}

fn start(project_id: Option<u128>) -> ClientRequest {
    ClientRequest::StartCodexSession {
        project_id,
        project_name: "claimed".to_owned(),
        project_root: "/claimed".to_owned(),
        prompt: "go".to_owned(),
        mode: CodexLaunchMode::Exec,
        execution_profile: AgentExecutionProfile::standard(),
    }
}

#[test]
fn remote_terminal_events_are_forwarded_only_for_the_owning_host() {
    let mut runtime = runtime();
    let terminal_id = new_identifier();
    runtime.terminal_hosts.put(terminal_id, "dev-box");
    let mut effects = Vec::new();
    runtime.forward_remote_event(
        "other-box",
        ServerEvent::ProjectTerminalOutput { terminal_id, data: b"wrong host".to_vec() },
        &mut effects,
    );
    assert!(effects.is_empty());

    runtime.forward_remote_event(
        "dev-box",
        ServerEvent::ProjectTerminalOutput { terminal_id, data: b"remote shell".to_vec() },
        &mut effects,
    );
    assert_eq!(effects.len(), 1);
    assert!(matches!(
        &effects[0],
        Effect::Tell(ServerEvent::ProjectTerminalOutput { terminal_id: id, data })
            if *id == terminal_id
                && data == &[114, 101, 109, 111, 116, 101, 32, 115, 104, 101, 108, 108]
    ));
}

#[test]
fn removed_registered_project_cannot_fall_back_to_a_local_launch() {
    let mut runtime = runtime();
    let place = runtime.place(start(Some(new_identifier())));
    assert!(matches!(place, Place::Refused(error) if error.code == "project_not_found"));
    assert!(runtime.children.is_empty());
}

#[test]
fn another_ssh_host_cannot_replace_an_existing_agent_identity() {
    let mut runtime = runtime();
    let home = local_project("/home/me/project");
    let original = run(&home);
    let agent_id = original.id;
    runtime.put_project(home);
    let original_project = original.project_id;
    runtime.agents.push(AgentRecord {
        run: original,
        project_root: "/home/me/project".to_owned(),
        allow_non_git: false,
        messages: Vec::new(),
        terminal_failure: None,
    });
    let other = remote_project("other-host", "/srv/other");
    runtime.put_project(other.copy());
    let mut conflicting = runtime.agents[0].run.copy();
    conflicting.project_id = other.id;
    let mut effects = Vec::new();
    runtime.forward_remote_event(
        "other-host",
        ServerEvent::AgentChanged(conflicting.copy()),
        &mut effects,
    );
    assert_eq!(runtime.agents[0].run.project_id, original_project);
    assert!(!runtime.cache_remote_agent("other-host", &other, &conflicting, &mut effects));
    assert!(runtime.agent_hosts.host(agent_id).is_none());
    assert!(effects.is_empty());
}

#[test]
fn sessions_of_a_remote_project_are_sent_with_its_own_name_and_root() {
    let mut runtime = runtime();
    let project = remote_project("dev-box", "/srv/app");
    let id = project.id;
    runtime.put_project(project);
    let Place::Host { alias, request, subscribe, follow } = runtime.place(start(Some(id))) else {
        panic!("a remote project is worked on by its host");
    };
    assert_eq!(alias, "dev-box");
    assert!(subscribe);
    assert!(matches!(follow, Follow::CacheAgent(project) if project.id == id));
    assert!(matches!(
        request,
        ClientRequest::StartRemoteCodexAppServerSession { project_id, project_name, project_root, prompt, .. }
            if project_id == id && project_name == "Remote" && project_root == "/srv/app" && prompt == "go"
    ));
    assert!(matches!(runtime.place(start(None)), Place::Here(_)));
}

#[test]
fn agents_of_a_host_are_prompted_and_stopped_there() {
    let mut runtime = runtime();
    runtime.agent_hosts.put(4, "dev-box");
    let place = runtime.place(ClientRequest::PromptAgent {
        agent_id: 4,
        prompt: "more".to_owned(),
        execution_profile: AgentExecutionProfile::standard(),
    });
    assert!(matches!(
        place,
        Place::Host { request: ClientRequest::PromptRemoteCodexAppServerAgent { agent_id: 4, .. }, subscribe: true, .. }
    ));
    let place = runtime.place(ClientRequest::StopAgent { agent_id: 4 });
    assert!(matches!(
        place,
        Place::Host { request: ClientRequest::StopAgent { agent_id: 4 }, subscribe: false, .. }
    ));
    assert!(matches!(runtime.place(ClientRequest::StopAgent { agent_id: 5 }), Place::Here(_)));
}

#[test]
fn files_of_a_remote_project_are_read_but_not_written() {
    let mut runtime = runtime();
    let project = remote_project("dev-box", "/srv/app");
    let id = project.id;
    runtime.put_project(project);
    assert!(matches!(
        runtime.place(ClientRequest::ReadProjectFile { project_id: id, relative_path: "a".into() }),
        Place::Host { .. }
    ));
    let write = ClientRequest::WriteProjectFile {
        project_id: id,
        relative_path: "a".into(),
        expected_revision: None,
        content: String::new(),
    };
    assert!(matches!(
        runtime.place(write),
        Place::Refused(error) if error.code == "remote_source_editing_not_supported"
    ));
}

#[test]
fn local_projects_have_no_host_to_ask() {
    let mut runtime = runtime();
    let project = local_project("/tmp/here");
    let id = project.id;
    runtime.put_project(project);
    assert!(matches!(
        runtime.place(ClientRequest::CheckRemoteProject { project_id: id }),
        Place::Refused(error) if error.code == "wrong_execution_target" && error.message == "project is local"
    ));
    assert!(matches!(
        runtime.place(ClientRequest::DeleteProject { project_id: id + 1 }),
        Place::Refused(error) if error.code == "project_not_found"
    ));
    let models = ClientRequest::ListAgentModels { provider: AgentProvider::Codex, project_id: Some(id + 1) };
    assert!(matches!(runtime.place(models), Place::Here(_)));
}

#[test]
fn terminals_on_a_host_are_remembered_and_forgotten() {
    let mut runtime = runtime();
    let place = runtime.place(ClientRequest::OpenRemoteCodexAuthentication {
        alias: "dev-box".to_owned(),
        columns: 80,
        rows: 24,
    });
    let Place::Host { alias, follow, request, .. } = place else { panic!("sent to the host") };
    assert!(matches!(request, ClientRequest::OpenCodexAuthentication { columns: 80, rows: 24 }));
    let mut effects = Vec::new();
    assert!(runtime.follow_reply(&alias, &follow, &HostReply::Terminal(11), &mut effects).is_none());
    assert_eq!(runtime.terminal_hosts.host(11), Some("dev-box"));
    let place = runtime.place(ClientRequest::CloseSetupTerminal { terminal_id: 11 });
    let Place::Host { alias, follow, .. } = place else { panic!("sent to the host") };
    let unreachable = runtime
        .follow_reply(&alias, &follow, &HostReply::Unreachable("gone".into()), &mut effects)
        .expect("an unreachable host is an error");
    assert_eq!(unreachable.code, "remote_unavailable");
    assert_eq!(runtime.terminal_hosts.host(11), Some("dev-box"));
    runtime.follow_reply(&alias, &follow, &HostReply::Accepted, &mut effects);
    assert_eq!(runtime.terminal_hosts.host(11), None);
    runtime.terminal_hosts.put(12, "dev-box");
    assert!(matches!(
        runtime.place(ClientRequest::CloseProjectTerminal { terminal_id: 12 }),
        Place::Host { .. }
    ));
    assert_eq!(runtime.terminal_hosts.host(12), None);
}

#[test]
fn decisions_on_a_host_settle_its_permission() {
    let mut runtime = runtime();
    runtime.permission_hosts.put(3, "dev-box");
    let place = runtime.place(ClientRequest::DenyPermission { request_id: 3, reason: "mine".into() });
    let Place::Host { alias, follow, request, .. } = place else { panic!("sent to the host") };
    assert!(matches!(request, ClientRequest::DenyPermission { reason, .. } if reason == "Denied by user"));
    let mut effects = Vec::new();
    runtime.follow_reply(&alias, &follow, &HostReply::Accepted, &mut effects);
    assert_eq!(runtime.permission_hosts.host(3), None);
    assert!(matches!(runtime.place(ClientRequest::ApprovePermission { request_id: 3 }), Place::Here(_)));
}

#[test]
fn a_project_that_its_host_has_deleted_is_gone_here_too() {
    let mut runtime = runtime();
    let project = remote_project("dev-box", "/srv/app");
    let id = project.id;
    let run = run(&project);
    runtime.put_project(project.copy());
    let mut effects = Vec::new();
    assert!(runtime.cache_remote_agent("dev-box", &project, &run, &mut effects));
    let Place::Host { alias, follow, .. } = runtime.place(ClientRequest::DeleteProject { project_id: id }) else {
        panic!("sent to the host")
    };
    let refused = HostReply::Refused(ProtocolError { code: "busy".into(), message: String::new() });
    runtime.follow_reply(&alias, &follow, &refused, &mut effects);
    assert_eq!(runtime.projects.len(), 1);
    runtime.follow_reply(&alias, &follow, &HostReply::Accepted, &mut effects);
    assert!(runtime.projects.is_empty() && runtime.agents.is_empty());
    assert!(runtime.agent_hosts.host(run.id).is_none());
}

#[test]
fn a_runtime_on_an_ssh_host_takes_no_phones() {
    let mut runtime = RuntimeState::restore(Vec::new(), Vec::new(), Vec::new(), None, true);
    assert!(matches!(
        runtime.place(ClientRequest::CreateRemotePairing),
        Place::Refused(error) if error.code == "wrong_execution_target"
    ));
    assert!(matches!(
        runtime.place(ClientRequest::SubscribeEvents),
        Place::Refused(error) if error.code == "unsupported_request"
    ));
}

#[test]
fn notices_are_read_by_the_hosts_that_raised_them() {
    let mut runtime = runtime();
    let project = local_project("/tmp/here");
    for _ in 0..4 {
        runtime.attention.push(notice(&project));
    }
    let ids: Vec<u128> = runtime.attention.iter().map(|item| item.id).collect();
    runtime.attention_hosts.put(ids[0], "b");
    runtime.attention_hosts.put(ids[1], "a");
    runtime.attention_hosts.put(ids[3], "b");
    let targets = runtime.attention_targets(None);
    assert_eq!(targets.local, [ids[2]]);
    assert_eq!(targets.by_host.len(), 2);
    assert_eq!(targets.by_host[0].alias, "b");
    assert_eq!(targets.by_host[0].ids, [ids[0], ids[3]]);
    assert_eq!(targets.by_host[1].ids, [ids[1]]);
    assert!(attention_reply(&HostReply::Accepted).is_ok());
    assert_eq!(attention_reply(&HostReply::Other).unwrap_err().code, "remote_protocol_error");
    assert_eq!(
        attention_reply(&HostReply::Unreachable("x".into())).unwrap_err().code,
        "remote_unavailable"
    );
}

#[test]
fn answers_of_hosts_about_projects_are_told_apart() {
    assert!(check_remote_project(1, &HostReply::Projects(vec![2, 1])).is_ok());
    assert_eq!(
        check_remote_project(1, &HostReply::Projects(vec![2])).unwrap_err().code,
        "remote_project_missing"
    );
    assert_eq!(check_remote_project(1, &HostReply::Accepted).unwrap_err().code, "remote_protocol_error");
    assert_eq!(remote_machine_identity(&HostReply::Identity(7)).unwrap(), 7);
    assert_eq!(
        remote_machine_identity(&HostReply::Other).unwrap_err().code,
        "remote_identity_failed"
    );
}

#[test]
fn the_truth_of_a_host_replaces_what_was_cached() {
    let mut runtime = runtime();
    let project = remote_project("dev-box", "/srv/app");
    runtime.put_project(project.copy());
    let stale = run(&project);
    let mut effects = Vec::new();
    assert!(runtime.cache_remote_agent("dev-box", &project, &stale, &mut effects));
    let fresh = run(&project);
    let snapshot = Snapshot {
        projects: Vec::new(),
        agents: vec![fresh.copy()],
        attention: vec![notice(&project)],
        permissions: Vec::new(),
    };
    assert_eq!(runtime.hosts(), ["dev-box"]);
    let projects = runtime.projects_on("dev-box");
    assert_eq!(projects.len(), 1);
    let observed = runtime.reconcile_remote_snapshot("dev-box", &projects, 5, &snapshot, &mut effects);
    assert_eq!(observed, Some(None));
    assert_eq!(runtime.host_epochs.entries, [("dev-box".to_owned(), 5)]);
    assert_eq!(runtime.agents.len(), 1);
    assert_eq!(runtime.agents[0].run.id, fresh.id);
    assert_eq!(runtime.agent_hosts.host(stale.id), None);
    assert_eq!(runtime.attention.len(), 1);
    let attention_id = runtime.attention[0].id;
    assert_eq!(runtime.attention_hosts.host(attention_id), Some("dev-box"));
    let empty = Snapshot {
        projects: Vec::new(),
        agents: Vec::new(),
        attention: Vec::new(),
        permissions: Vec::new(),
    };
    let observed = runtime.reconcile_remote_snapshot("dev-box", &projects, 5, &empty, &mut effects);
    assert_eq!(observed, None);
    assert!(runtime.agents.is_empty() && runtime.attention.is_empty());
    let observed = runtime.reconcile_remote_snapshot("dev-box", &projects, 6, &empty, &mut effects);
    assert_eq!(observed, Some(Some("daemon_restarted")));
    let observed = runtime.reconcile_remote_snapshot("other", &projects, 6, &empty, &mut effects);
    assert_eq!(observed, Some(None));
    assert_eq!(
        runtime.host_epochs.entries,
        [("dev-box".to_owned(), 6), ("other".to_owned(), 6)]
    );
}

#[test]
fn messages_of_a_host_are_kept_once() {
    let mut runtime = runtime();
    let project = remote_project("dev-box", "/srv/app");
    runtime.put_project(project.copy());
    let run = run(&project);
    let mut effects = Vec::new();
    runtime.cache_remote_agent("dev-box", &project, &run, &mut effects);
    let message = || AgentChatMessage {
        agent_id: run.id,
        role: AgentChatRole::Assistant,
        text: "hello".to_owned(),
        created_at: NOW,
    };
    for _ in 0..2 {
        runtime.forward_remote_event(
            "dev-box",
            ServerEvent::AgentMessageAppended(message()),
            &mut effects,
        );
    }
    assert_eq!(runtime.agents[0].messages.len(), 1);
}

#[test]
fn presence_is_told_when_it_changes() {
    let mut table = PresenceTable::new();
    assert!(table.update_remote_presence("dev-box", "online", None, NOW).is_some());
    assert!(table.update_remote_presence("dev-box", "online", None, NOW).is_none());
    assert!(table
        .update_remote_presence("dev-box", "offline", Some("SSH bridge unavailable"), NOW)
        .is_some());
    assert_eq!(poll_result(true, true), ("online", None));
    assert_eq!(poll_result(false, false), ("offline", Some("SSH bridge unavailable")));
    assert_eq!(poll_result(true, false), ("offline", Some("Remote daemon unavailable")));
    let mut subscriptions = Subscriptions::new();
    assert!(subscriptions.begin("dev-box"));
    assert!(!subscriptions.begin("dev-box"));
    subscriptions.end("dev-box");
    assert!(subscriptions.begin("dev-box"));
}

#[test]
fn projects_are_created_once_in_a_folder() {
    let mut runtime = runtime();
    let first = runtime.describe_project("One", "/tmp/p", ProjectGitPolicy::InitializeRepository, 31);
    assert_eq!(first.id, 31);
    let made = repository_made(first, GitInit::Made).unwrap();
    assert_eq!(made.git_policy, ProjectGitPolicy::RequireRepository);
    let mut effects = Vec::new();
    runtime.keep_project(made, &mut effects);
    assert_eq!(effects.len(), 1);
    let again = runtime.describe_project("Two", "/tmp/p", ProjectGitPolicy::AllowOutsideGit, 32);
    assert_eq!((again.id, again.name.as_str()), (31, "Two"));
    let refused = repository_made(again, GitInit::Refused(b" fatal: no \n".to_vec())).unwrap_err();
    assert_eq!((refused.code.as_str(), refused.message.as_str()), ("git_init_failed", "fatal: no"));
}

#[test]
fn answers_go_to_the_host_that_asked() {
    let mut runtime = runtime();
    runtime.permission_hosts.put(7, "dev-box");
    let answers = |id| ClientRequest::AnswerAgentQuestions { request_id: id, answers: Vec::new() };
    assert!(matches!(
        runtime.place(answers(7)),
        Place::Host { alias, request: ClientRequest::AnswerAgentQuestions { request_id: 7, .. }, follow: Follow::Nothing, .. }
            if alias == "dev-box"
    ));
    assert!(matches!(runtime.place(answers(8)), Place::Here(_)));
}
