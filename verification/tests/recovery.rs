use ditchd::history::{rejoin_page, StoredMessage};
use ditchd::ids::{identifier_text, new_identifier};
use ditchd::json::{parse_json, render_json, Json};
use ditchd::mobile::CommandRequest;
use ditchd::model::{
    AgentChatMessage, AgentChatRole, PermissionActionKind, PermissionRequest, Project,
    ProjectExecutionTarget, ProjectGitPolicy,
};
use ditchd::receipts::{operation_step, OperationStep, Outcome, Receipts};
use ditchd::relay::command_result_frame;
use ditchd::remote_command::{
    begin_command, command_text, conclude_command, finish_command, operation_of, plan_command,
    recover_command, rejected, saved_results, CommandAction, CommandStep, RemoteCommandResult, RemoteCommandType,
};
use ditchd::remote_hosts::PresenceTable;
use ditchd::replay::{EventReplay, StreamStart};
use ditchd::requests::{ClientRequest, Place};
use ditchd::service::Sequence;
use ditchd::state::RuntimeState;

const NOW: i64 = 1_787_596_800_000;

fn parsed(text: &str) -> Json {
    parse_json(text).expect("fixture should be valid JSON")
}

fn accepted() -> Json {
    Json::Text("Accepted".to_owned())
}

/// A project, an agent and a request for permission, all on one SSH host.
fn fixture() -> (RuntimeState, u128, u128, u128) {
    let mut state = RuntimeState::restore(Vec::new(), Vec::new(), Vec::new(), None, false);
    let project = new_identifier();
    let agent = new_identifier();
    let request = new_identifier();
    state.projects.push(Project {
        id: project,
        name: "Recovery fixture".to_owned(),
        root: "/srv/project".to_owned(),
        git_policy: ProjectGitPolicy::RequireRepository,
        execution_target: ProjectExecutionTarget::Remote {
            remote_machine_id: new_identifier(),
            ssh_host_alias: "fixture-host".to_owned(),
        },
    });
    state.agent_hosts.put(agent, "fixture-host");
    state.permissions.push(PermissionRequest {
        id: request,
        project_id: project,
        agent_id: Some(agent),
        action: PermissionActionKind::RunCommand,
        summary: "Review command".to_owned(),
        target: "fixture".to_owned(),
        command: Some("pwd".to_owned()),
        questions: Vec::new(),
        created_at: NOW,
        expires_at: None,
    });
    state.permission_hosts.put(request, "fixture-host");
    (state, project, agent, request)
}

fn action_of(state: &RuntimeState, kind: RemoteCommandType, body: &str) -> Result<CommandRequest, &'static str> {
    let action = plan_command(kind, &parsed(body))?;
    state.request_of_action(action)
}

#[test]
fn mobile_actions_dispatch_through_mac_to_owning_ssh_host() {
    for kind in [
        RemoteCommandType::SessionStart,
        RemoteCommandType::SessionPrompt,
        RemoteCommandType::SessionStop,
        RemoteCommandType::SessionForceKill,
        RemoteCommandType::QuerySessionTranscript,
        RemoteCommandType::QueryApproval,
        RemoteCommandType::ApprovalRespond,
        RemoteCommandType::AttentionExecute,
    ] {
        let (mut state, project, agent, approval) = fixture();
        let (project, session, approval) =
            (identifier_text(project), identifier_text(agent), identifier_text(approval));
        let body = format!(
            "{{\"project_id\":\"{project}\",\"session_id\":\"{session}\",\"text\":\"continue\",\
             \"initial_prompt\":\"start\",\"task_title\":\"Task\",\"limit\":200,\
             \"query_id\":\"{}\",\"attention_id\":\"{approval}\",\"action_id\":\"{approval}\",\
             \"decision\":\"approve\",\"answers\":{{\"q\":[\"yes\"]}}}}",
            identifier_text(new_identifier())
        );
        let command_id = new_identifier();
        let mut receipts = Receipts::new();
        let text = command_text("kind", &parsed(&body));
        let mut calls = Vec::new();
        for fresh in [true, false] {
            let result = match begin_command(&mut receipts, command_id, &text, Some(fresh)) {
                CommandStep::CarryOut => {
                    let request = match action_of(&state, kind, &body) {
                        Ok(CommandRequest::Routed(request)) => request,
                        other => panic!("{kind:?}: {other:?}"),
                    };
                    match state.place(request) {
                        Place::Host { alias, .. } => calls.push((alias, operation_of(kind, command_id))),
                        other => panic!("{kind:?}: {other:?}"),
                    }
                    let result = finish_command(command_id, None, Some(accepted()));
                    conclude_command(&mut receipts, &result);
                    result
                }
                CommandStep::Answer(result) => result,
                CommandStep::Recover => panic!("{kind:?}: the outcome is known"),
            };
            assert_eq!(result.status, "completed", "{kind:?}: {result:?}");
        }
        assert_eq!(calls.len(), 1, "{kind:?}");
        assert_eq!(calls[0].0, "fixture-host");
        let query = matches!(
            kind,
            RemoteCommandType::QueryApproval | RemoteCommandType::QuerySessionTranscript
        );
        assert_eq!(calls[0].1, if query { None } else { Some(command_id) });
        assert!(state.children.is_empty());
    }
}

#[test]
fn duplicate_mobile_command_recovers_without_another_prompt_and_rejects_changed_body() {
    let mut receipts = Receipts::new();
    let mut carried_out = 0;
    let mut execute = |receipts: &mut Receipts, body: &str, journal: bool| -> RemoteCommandResult {
        match begin_command(receipts, 77, body, Some(journal)) {
            CommandStep::CarryOut => {
                carried_out += 1;
                let result = finish_command(77, None, Some(accepted()));
                conclude_command(receipts, &result);
                result
            }
            CommandStep::Recover => panic!("the outcome is known"),
            CommandStep::Answer(result) => result,
        }
    };
    let body = "{\"session_id\":\"a\",\"text\":\"continue\"}";
    assert_eq!(execute(&mut receipts, body, true).status, "completed");
    assert_eq!(execute(&mut receipts, body, false).status, "completed");
    let changed = "{\"session_id\":\"a\",\"text\":\"different\"}";
    assert_eq!(execute(&mut receipts, changed, false).error_code, Some("operation_conflict"));
    assert_eq!(carried_out, 1);
}

#[test]
fn lost_ack_then_mac_restart_recovers_saved_remote_receipt_without_resending() {
    let mut receipts = Receipts::new();
    assert!(matches!(begin_command(&mut receipts, 77, "body", Some(true)), CommandStep::CarryOut));
    let lost = finish_command(77, Some("operation_outcome_unknown"), None);
    assert_eq!(lost.error_code, Some("operation_outcome_unknown"));
    conclude_command(&mut receipts, &lost);
    let mut restored = Receipts { list: receipts.list };
    assert!(matches!(begin_command(&mut restored, 77, "body", Some(false)), CommandStep::Recover));
    let result = recover_command(77, Some(accepted()));
    assert_eq!(result.status, "completed");
    conclude_command(&mut restored, &result);
    match begin_command(&mut restored, 77, "body", Some(false)) {
        CommandStep::Answer(again) => assert_eq!(again.status, "completed"),
        other => panic!("{other:?}"),
    }
}

#[test]
fn relay_reconnect_redelivers_saved_result_without_redispatching_work() {
    let mut receipts = Receipts::new();
    for command_id in [77, 78, 79] {
        assert!(matches!(
            begin_command(&mut receipts, command_id, "body", Some(true)),
            CommandStep::CarryOut
        ));
    }
    conclude_command(&mut receipts, &finish_command(77, None, Some(accepted())));
    conclude_command(&mut receipts, &rejected(79, "session_not_found"));
    let told = saved_results(&receipts);
    let told: Vec<_> = told.iter().map(|r| (r.command_id, r.status, r.error_code)).collect();
    assert_eq!(told, vec![(77, "completed", None), (79, "rejected", Some("session_not_found"))]);
    let frame = parsed(&command_result_frame(77, 9, parsed("{\"ciphertext\":\"c\"}"), 5, NOW));
    assert_eq!(frame.text_at("type"), Some("command_result"));
    let payload = frame.get("payload").expect("the frame should have a payload");
    assert_eq!(payload.text_at("command_id"), Some(identifier_text(77).as_str()));
    assert_eq!(payload.get2("encrypted", "ciphertext").and_then(Json::as_text), Some("c"));
}

#[test]
fn what_became_of_a_command_may_stay_unknown() {
    let unknown = recover_command(77, None);
    assert_eq!((unknown.status, unknown.error_code), ("rejected", Some("operation_outcome_unknown")));
    let gone = recover_command(77, Some(parsed("{\"Error\":{\"code\":\"agent_not_found\",\"message\":\"x\"}}")));
    assert_eq!((gone.status, gone.error_code), ("rejected", Some("session_not_found")));
    assert!(gone.result.is_some());
}

#[test]
fn a_refusal_is_told_again() {
    for code in ["session_not_found", "approval_stale", "action_not_allowed"] {
        let mut receipts = Receipts::new();
        let _ = begin_command(&mut receipts, 77, "body", Some(true));
        conclude_command(&mut receipts, &rejected(77, code));
        match begin_command(&mut receipts, 77, "body", Some(false)) {
            CommandStep::Answer(again) => {
                assert_eq!((again.command_id, again.status, again.error_code), (77, "rejected", Some(code)));
                assert!(again.result.is_none());
            }
            other => panic!("{other:?}"),
        }
    }
    let busy = finish_command(77, Some("agent_busy"), Some(accepted()));
    assert_eq!(busy.error_code, Some("session_not_running"));
    let unread = finish_command(77, Some("message_history_failed"), Some(accepted()));
    assert_eq!(unread.error_code, Some("session_not_found"));
    assert!(unread.result.is_none() && busy.result.is_some());
    let settled = finish_command(77, Some("permission_not_found"), Some(accepted()));
    assert_eq!(settled.error_code, Some("approval_stale"));
}

#[test]
fn stale_approval_never_routes_to_a_new_turn() {
    let (mut state, _, _, request) = fixture();
    state.permissions.clear();
    let id = identifier_text(request);
    let body = format!("{{\"attention_id\":\"{id}\",\"action_id\":\"{id}\",\"decision\":\"approve\"}}");
    assert!(matches!(
        action_of(&state, RemoteCommandType::ApprovalRespond, &body),
        Err("approval_stale")
    ));
    assert!(matches!(
        action_of(&state, RemoteCommandType::QueryApproval, &body),
        Err("approval_stale")
    ));
    let body = format!("{{\"action_id\":\"{id}\",\"answers\":{{}}}}");
    assert!(matches!(
        action_of(&state, RemoteCommandType::AttentionExecute, &body),
        Err("approval_stale")
    ));
}

#[test]
fn decisions_and_answers_of_a_phone_are_read() {
    let (state, _, _, request) = fixture();
    let id = identifier_text(request);
    let routed = |rest: &str| {
        action_of(&state, RemoteCommandType::ApprovalRespond, &format!("{{\"action_id\":\"{id}\",{rest}}}"))
    };
    assert!(matches!(
        routed("\"decision\":\"approve\""),
        Ok(CommandRequest::Routed(ClientRequest::ApprovePermission { request_id })) if request_id == request
    ));
    assert!(matches!(
        routed("\"decision\":\"approve_for_session\""),
        Ok(CommandRequest::Routed(ClientRequest::ApprovePermissionForSession { request_id })) if request_id == request
    ));
    assert!(matches!(
        routed("\"decision\":\"deny\""),
        Ok(CommandRequest::Routed(ClientRequest::DenyPermission { request_id, reason }))
            if request_id == request && reason == "Denied by user"
    ));
    assert!(matches!(routed("\"decision\":\"maybe\""), Err("action_not_allowed")));
    assert!(matches!(routed("\"answers\":{\"q\":\"yes\"}"), Err("action_not_allowed")));
    assert!(matches!(routed("\"answers\":{\"q\":[\"yes\",1]}"), Err("action_not_allowed")));
    assert!(matches!(routed("\"other\":1"), Err("action_not_allowed")));
    match routed("\"answers\":{\"q\":[\"yes\",\"no\"]}") {
        Ok(CommandRequest::Routed(ClientRequest::AnswerAgentQuestions { request_id, answers })) => {
            assert_eq!(request_id, request);
            assert_eq!(answers.len(), 1);
            assert_eq!(answers[0].question_id, "q");
            assert_eq!(answers[0].values, vec!["yes".to_owned(), "no".to_owned()]);
        }
        other => panic!("{other:?}"),
    }
    assert!(matches!(
        plan_command(RemoteCommandType::AttentionSnooze, &parsed("{}")),
        Err("action_not_allowed")
    ));
}

#[test]
fn a_pending_approval_is_shown() {
    let (state, _, agent, request) = fixture();
    let shown = state.pending_permission(request).expect("the request should be pending");
    assert_eq!((shown.id, shown.agent_id, shown.summary.as_str()), (request, Some(agent), "Review command"));
    assert_eq!(state.pending_permission(5).unwrap_err().code, "permission_not_found");
    assert!(matches!(
        plan_command(RemoteCommandType::QueryApproval, &parsed("{}")),
        Err("action_not_allowed")
    ));
}

#[test]
fn a_command_is_recognised_by_its_name_and_body() {
    assert_eq!(command_text("session_stop", &parsed("{\"a\": 1}")), "session_stop\n{\"a\":1}");
}

#[test]
fn commands_about_what_is_here_stay_here() {
    let (mut state, _, _, _) = fixture();
    assert!(matches!(
        state.request_of_action(CommandAction::ReadAttention { attention_id: 5 }),
        Ok(CommandRequest::ReadAttention(5))
    ));
    assert!(matches!(
        state.request_of_action(CommandAction::Start { project_id: 5, prompt: "x".to_owned() }),
        Err("session_not_found")
    ));
    match state.request_of_action(CommandAction::Stop { agent_id: 5 }) {
        Ok(CommandRequest::Routed(request)) => assert!(matches!(state.place(request), Place::Here(_))),
        other => panic!("{other:?}"),
    }
}

#[test]
fn mac_projection_includes_ssh_work_and_separates_target_availability() {
    let mut presence = PresenceTable::new();
    assert!(presence.update_remote_presence("fixture-host", "reconnecting", None, NOW).is_some());
    let shown = presence.with_target_status(parsed("{\"state\":\"working\"}"), Some("fixture-host"));
    assert_eq!(shown.text_at("target_status"), Some("reconnecting"));
    assert_eq!(shown.text_at("state"), Some("working"));
    let local = presence.with_target_status(parsed("{}"), None);
    assert_eq!(render_json(&local), "{}");
    let unknown = presence.with_target_status(parsed("{}"), Some("other-host"));
    assert_eq!(render_json(&unknown), "{}");
}

#[test]
fn rejoin_backfills_all_pages_without_launching_or_reprompting() {
    let stored = |from: u64| -> Vec<StoredMessage> {
        (from + 1..=406)
            .take(201)
            .map(|sequence| StoredMessage {
                sequence,
                message: AgentChatMessage {
                    agent_id: 5,
                    role: AgentChatRole::Assistant,
                    text: format!("message {sequence}"),
                    created_at: NOW,
                },
            })
            .collect()
    };
    let mut cursor = 0;
    let mut collected = Vec::new();
    let mut sizes = Vec::new();
    loop {
        let page = rejoin_page(stored(cursor), cursor);
        assert!(page.messages.len() <= 200);
        assert!(page.next_sequence > cursor);
        sizes.push(page.messages.len());
        collected.extend(page.messages.iter().map(|message| message.sequence));
        cursor = page.next_sequence;
        if !page.has_more {
            break;
        }
    }
    assert_eq!(sizes, vec![200, 200, 6]);
    assert_eq!(collected.len(), 406);
    assert!(collected.windows(2).all(|pair| pair[0] < pair[1]));
    let done = rejoin_page(stored(406), 406);
    assert_eq!((done.messages.len(), done.next_sequence, done.has_more), (0, 406, false));
}

#[test]
fn operation_receipt_survives_restart_and_rejects_changed_payload() {
    let id = new_identifier();
    let mut receipts = Receipts::new();
    assert!(matches!(operation_step(receipts.begin(id, "StopAgent")), OperationStep::Run));
    let first = parsed("{\"Error\":{\"code\":\"agent_not_found\"}}");
    receipts.conclude(id, Outcome { error: Some("agent_not_found".to_owned()), response: first.copy() });
    let answered = |receipts: &mut Receipts| match operation_step(receipts.begin(id, "StopAgent")) {
        OperationStep::Answer(response) => render_json(&response),
        other => panic!("{other:?}"),
    };
    assert_eq!(answered(&mut receipts), render_json(&first));
    let mut restored = Receipts { list: receipts.list };
    assert_eq!(answered(&mut restored), render_json(&first));
    match operation_step(restored.begin(id, "ForceKillAgent")) {
        OperationStep::Refuse(error) => assert_eq!(error.code, "operation_conflict"),
        other => panic!("{other:?}"),
    }
    let uncertain = new_identifier();
    let _ = restored.begin(uncertain, "hash");
    assert!(matches!(restored.outcome_of(uncertain), Some(None)));
    assert!(restored.outcome_of(new_identifier()).is_none());
    match operation_step(restored.begin(uncertain, "hash")) {
        OperationStep::Refuse(error) => assert_eq!(error.code, "operation_outcome_unknown"),
        other => panic!("{other:?}"),
    }
}

fn kept(count: u64, filler: &str) -> EventReplay {
    let mut replay = EventReplay::new();
    for sequence in 1..=count {
        replay.keep(sequence, format!("{sequence}{filler}"));
    }
    replay
}

fn events_since(replay: &EventReplay, since: Option<(u128, u64)>) -> Option<Vec<String>> {
    match replay.start(1, since) {
        StreamStart::Events(lines) => Some(lines),
        StreamStart::Snapshot => None,
    }
}

#[test]
fn event_replay_is_bounded_and_slow_subscribers_are_disconnected() {
    let replay = kept(2100, "");
    let all = events_since(&replay, Some((1, 52))).expect("the newest events should be kept");
    assert_eq!(all.len(), 2048);
    assert_eq!(all.last().map(String::as_str), Some("2100"));
    assert!(events_since(&replay, Some((1, 51))).is_none());
    let large = kept(100, &"x".repeat(1_000_000));
    let lines = events_since(&large, Some((1, 92))).expect("eight events should be kept");
    assert!(lines.iter().map(String::len).sum::<usize>() <= 8 * 1024 * 1024);
    assert!(events_since(&large, Some((1, 91))).is_none());
}

#[test]
fn event_subscription_replays_in_order_and_replaces_an_old_epoch() {
    let replay = kept(2, "");
    assert_eq!(events_since(&replay, Some((1, 1))), Some(vec!["2".to_owned()]));
    assert_eq!(events_since(&replay, Some((1, 2))), Some(Vec::new()));
    assert_eq!(events_since(&replay, Some((9, 1))), None);
    assert_eq!(events_since(&replay, None), None);
    assert_eq!(Sequence { next: 3 }.last(), 2);
    assert_eq!(Sequence::new().last(), 0);
}
