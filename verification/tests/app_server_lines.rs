use ditchd::app_server::{
    advance_startup, awaited_id, display_json_text, initialize_request, refusal_text, remote_policy,
    startup_timeout, thread_request, turn_request, ActiveTurn, AnswerRefusal, Asker, Event, Launch,
    LineEffect, PermissionDecision, QuestionAnswer, Startup,
};
use ditchd::ids::new_identifier;
use ditchd::json::{parse_json, render_json, Json};
use ditchd::model::{AgentApprovalPreset, AgentExecutionProfile, PermissionActionKind};

fn launch(cwd: &str, prompt: &str) -> Launch {
    Launch {
        cwd: cwd.to_owned(),
        project_id: 5,
        agent_id: 6,
        prompt: prompt.to_owned(),
        resume_thread: None,
        execution_profile: AgentExecutionProfile::standard(),
    }
}

fn asker() -> Asker {
    Asker { project_id: 5, agent_id: 6, request_id: new_identifier(), now: 1_787_596_800_000 }
}

fn hear(turn: &mut ActiveTurn, line: &str) -> LineEffect {
    turn.handle_line(line, &launch("/tmp", ""), None, asker())
}

fn parsed(text: &str) -> Json {
    parse_json(text).expect("fixture should be valid JSON")
}

#[test]
fn server_approval_ids_never_collide_with_client_responses() {
    for rpc_id in ["0", "1", "2", "3", "77", "\"ditch:initialize\""] {
        let mut turn = ActiveTurn::new();
        let request = format!(
            "{{\"id\":{rpc_id},\"method\":\"item/commandExecution/requestApproval\",\"params\":{{\"command\":\"cat README.md\",\"cwd\":\"/tmp\"}}}}"
        );
        let first = hear(&mut turn, &request);
        let second = hear(&mut turn, &request);
        assert_eq!(first.events.len(), 1);
        assert!(matches!(first.events[0], Event::ApprovalRequested(_)), "{rpc_id}");
        assert!(second.events.is_empty(), "duplicate request {rpc_id}");
        assert_eq!(turn.pending.len(), 1);
    }
}

#[test]
fn questions_require_complete_answers_and_use_server_request_id() {
    let mut turn = ActiveTurn::new();
    let effect = hear(
        &mut turn,
        r#"{"id":1,"method":"item/tool/requestUserInput","params":{"questions":[
            {"id":"choice","header":"Select","question":"Which path?","options":[{"label":"A","description":"First"}]},
            {"id":"note","header":"Note","question":"Any details?","isSecret":true}
        ]}}"#,
    );
    let Event::ApprovalRequested(request) = &effect.events[0] else {
        panic!("missing questions")
    };
    assert_eq!(request.questions.len(), 2);
    assert!(request.questions[1].is_secret);
    assert!(turn.respond(request.id, PermissionDecision::ApproveOnce).is_err());
    let partial = vec![QuestionAnswer { question_id: "choice".into(), values: vec!["A".into()] }];
    assert!(turn.answer(request.id, &partial).is_err());
    assert_eq!(turn.pending.len(), 1);
    let complete = vec![
        QuestionAnswer { question_id: "choice".into(), values: vec!["A".into()] },
        QuestionAnswer { question_id: "note".into(), values: vec!["Keep it simple".into()] },
    ];
    let response = turn.answer(request.id, &complete).expect("complete answers should be sent");
    turn.close(request.id);
    assert_eq!(response.get("id").and_then(|id| id.as_signed()), Some(1));
    let note = response.get2("result", "answers").and_then(|answers| answers.get("note")).unwrap();
    assert_eq!(note.get("answers").unwrap().as_items().unwrap()[0].as_text(), Some("Keep it simple"));
    assert!(turn.pending.is_empty());
    assert!(turn.answer(request.id, &Vec::new()).is_err());
}

#[test]
fn retryable_errors_do_not_end_a_turn() {
    let mut turn = ActiveTurn::new();
    let effect = hear(
        &mut turn,
        r#"{"method":"error","params":{"willRetry":true,"error":{"message":"connection lost"}}}"#,
    );
    assert!(matches!(effect.events[0], Event::Action(_)));
    assert_eq!(effect.events.len(), 1);
}

#[test]
fn remote_policy_never_inherits_the_desktop_full_access_setting() {
    let guarded = AgentExecutionProfile::standard();
    assert_eq!(remote_policy(&guarded), ("untrusted", "danger-full-access"));
    let full = AgentExecutionProfile {
        approval: AgentApprovalPreset::FullAccess,
        ..AgentExecutionProfile::standard()
    };
    assert_eq!(remote_policy(&full), ("untrusted", "danger-full-access"));
}

#[test]
fn command_approval_is_translated_to_a_ditch_permission_request() {
    let mut turn = ActiveTurn::new();
    let asker = asker();
    let request_id = asker.request_id;
    let effect = turn.handle_line(
        r#"{"id":44,"method":"item/commandExecution/requestApproval","params":{"reason":"Install dependencies","command":"npm install","cwd":"/srv/app"}}"#,
        &launch("/srv/app", "build"),
        None,
        asker,
    );
    let Event::ApprovalRequested(request) = &effect.events[0] else {
        panic!("expected approval event");
    };
    assert_eq!(request.project_id, 5);
    assert_eq!(request.agent_id, Some(6));
    assert_eq!(request.command.as_deref(), Some("npm install"));
    assert_eq!(request.target, "/srv/app");
    assert_eq!(request.id, request_id);
    assert!(!matches!(request.action, PermissionActionKind::AnswerQuestion));
    assert_eq!(turn.pending.len(), 1);
}

#[test]
fn completed_agent_message_uses_the_authoritative_item_text() {
    let mut turn = ActiveTurn::new();
    let effect = hear(
        &mut turn,
        r#"{"method":"item/completed","params":{"item":{"type":"agentMessage","text":"Done."}}}"#,
    );
    assert_eq!(effect.events.len(), 1);
    assert!(matches!(&effect.events[0], Event::AssistantMessage(text) if text == "Done."));
}

#[test]
fn approvals_are_answered_under_the_id_of_the_server() {
    let mut turn = ActiveTurn::new();
    let effect = hear(
        &mut turn,
        r#"{"id":77,"method":"item/commandExecution/requestApproval","params":{"threadId":"thr_remote","turnId":"turn_remote","itemId":"item_1","reason":"Run tests","command":"cargo test","cwd":"/srv/app"}}"#,
    );
    let Event::ApprovalRequested(request) = &effect.events[0] else {
        panic!("expected approval event");
    };
    let answer = turn.respond(request.id, PermissionDecision::ApproveForSession).unwrap();
    assert_eq!(answer.get("id").and_then(|id| id.as_signed()), Some(77));
    assert_eq!(answer.text_at2("result", "decision"), Some("acceptForSession"));
    let denied = turn.respond(request.id, PermissionDecision::Deny).unwrap();
    assert_eq!(denied.text_at2("result", "decision"), Some("decline"));
    assert!(turn.respond(request.id + 1, PermissionDecision::Deny).is_err());
}

#[test]
fn a_turn_is_begun_under_the_guarded_policy() {
    let launch = launch("/srv/app", "Run tests");
    let first = initialize_request("1.2.3");
    assert_eq!(first.text_at("id"), Some("ditch:initialize"));
    assert_eq!(first.get2("params", "clientInfo").unwrap().text_at("version"), Some("1.2.3"));
    let thread = thread_request(&launch);
    assert_eq!(thread.text_at2("params", "approvalPolicy"), Some("untrusted"));
    assert_eq!(thread.text_at2("params", "sandbox"), Some("danger-full-access"));
    let turn = turn_request(&launch, "thr_remote");
    assert_eq!(
        turn.get2("params", "sandboxPolicy").unwrap().text_at("type"),
        Some("dangerFullAccess")
    );
    assert_eq!(turn.text_at2("params", "threadId"), Some("thr_remote"));
}

#[test]
fn requests_of_the_server_do_not_advance_the_start() {
    let asks = parsed(r#"{"id":"ditch:initialize","method":"item/commandExecution/requestApproval"}"#);
    let (_, after, _) = advance_startup(Startup::Initialize, Some(&asks));
    assert_eq!(after, Startup::Initialize);
    let answers = parsed(r#"{"id":"ditch:initialize","result":{}}"#);
    let (_, after, _) = advance_startup(Startup::Initialize, Some(&answers));
    assert_eq!(after, Startup::Thread);
    assert_eq!(awaited_id(after), Some("ditch:thread"));
    assert!(matches!(startup_timeout(Startup::Thread), Some(Event::Failed(_))));
}

#[test]
fn refusals_of_answers_are_told_apart() {
    assert_ne!(refusal_text(AnswerRefusal::Expired, true), refusal_text(AnswerRefusal::Incomplete, true));
}

#[test]
fn values_are_shown_as_text_or_as_json() {
    assert_eq!(display_json_text(&parsed("\"plain\"")), "plain");
    assert_eq!(display_json_text(&parsed("{\"a\":1}")), "{\"a\":1}");
    assert_eq!(render_json(&parsed("{\"a\": [true, null]}")), "{\"a\":[true,null]}");
}

#[test]
fn a_zero_is_a_zero_however_it_is_written() {
    let value = |text: &str| parse_json(text).expect("fixture should be valid JSON");
    assert!(value("0.0").same(&value("-0.0")));
    assert!(value("[{\"a\":-0}]").same(&value("[{\"a\":0.0}]")));
    assert!(!value("0.0").same(&value("0")));
    assert!(!value("0.5").same(&value("-0.5")));
    assert!(!value("\"0.0\"").same(&value("\"-0.0\"")));
}
