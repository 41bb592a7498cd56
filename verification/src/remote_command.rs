//! Commands of paired devices: whether they are allowed, and what they ask of
//! the runtime.

use crate::app_server::{PermissionDecision, QuestionAnswer};
use crate::clock::{is_date, valid_millis};
use crate::git_validation::texts_in;
use crate::ids::read_optional_id;
use crate::json::{all_texts, render_json, rendered_json, Json, JsonView};
use crate::receipts::{
    begun, concluded, lemma_operations_run_once, lemma_outcomes_are_given_again, receipt_at, Outcome,
    OutcomeView, ReceiptStep, ReceiptStepView, ReceiptView, Receipts,
};
use crate::relay::{find_active_device, is_authorized, read_unsigned, unsigned_at};
use crate::remote_machine::RemoteDeviceRecord;
use crate::remote_pairing::{id_at, RemoteMachineRecord};
use crate::text::{same_text, texts_of};
use vstd::prelude::*;
use vstd::string::*;

verus! {

/// What a device can ask for.
#[derive(Clone, Copy, Debug, PartialEq, Eq, Structural)]
pub enum RemoteCommandType {
    SessionStart,
    SessionPrompt,
    SessionStop,
    SessionForceKill,
    AttentionAcknowledge,
    QuerySessionTranscript,
    QueryApproval,
    ApprovalRespond,
    AttentionExecute,
    AttentionSnooze,
    IntegrationApply,
    QuerySessionReview,
}

/// How a command has to be confirmed, from the least to the most.
#[derive(Clone, Copy, Debug, PartialEq, Eq, Structural)]
pub enum ConfirmationClass {
    /// On the device, or not at all.
    Device,
    /// By authenticating as the owner on the device.
    DeviceOwnerAuthentication,
    /// On the desktop alone.
    DesktopOnly,
}

/// Why the envelope of a command is not valid.
#[derive(Clone, Copy, Debug, PartialEq, Eq, Structural)]
pub enum RemoteError {
    UnsupportedProtocol,
    CommandExpired,
    CommandDuplicate,
    Other,
}

/// The envelope of a command.
#[derive(Debug)]
pub struct RemoteCommand {
    pub protocol_version: u32,
    pub command_id: u128,
    pub idempotency_key: String,
    pub owner_id: u128,
    pub machine_id: u128,
    pub device_id: u128,
    pub command_type: RemoteCommandType,
    pub created_at: i64,
    pub expires_at: i64,
}

/// The code of an invalid envelope.
pub open spec fn envelope_code(error: RemoteError) -> Seq<char> {
    match error {
        RemoteError::UnsupportedProtocol => "unsupported_protocol"@,
        RemoteError::CommandExpired => "command_expired"@,
        RemoteError::CommandDuplicate => "command_duplicate"@,
        RemoteError::Other => "action_not_allowed"@,
    }
}

/// The code of an invalid envelope.
pub fn remote_error_code(error: RemoteError) -> (r: &'static str)
    ensures
        r@ == envelope_code(error),
{
    match error {
        RemoteError::UnsupportedProtocol => "unsupported_protocol",
        RemoteError::CommandExpired => "command_expired",
        RemoteError::CommandDuplicate => "command_duplicate",
        RemoteError::Other => "action_not_allowed",
    }
}

/// Whether this machine is the one that a command is for.
pub open spec fn is_addressed(command: RemoteCommand, machine: Option<RemoteMachineRecord>) -> bool {
    machine matches Some(record) && record.enabled && record.machine_id == command.machine_id
        && record.owner_id == Some(command.owner_id)
}

/// Why a command is refused before anything is done, where it is.
pub open spec fn refusal_code(
    command: RemoteCommand,
    envelope: Result<ConfirmationClass, RemoteError>,
    owner_authenticated: bool,
    remote_runtime: bool,
    machine: Option<RemoteMachineRecord>,
    devices: Seq<RemoteDeviceRecord>,
) -> Option<Seq<char>> {
    match envelope {
        Err(error) => Some(envelope_code(error)),
        Ok(class) => if class == ConfirmationClass::DesktopOnly || (class
            == ConfirmationClass::DeviceOwnerAuthentication && !owner_authenticated) {
            Some("action_not_allowed"@)
        } else if remote_runtime || !is_addressed(command, machine) {
            Some("unauthorized"@)
        } else if !is_authorized(devices, command.device_id) {
            Some("device_revoked"@)
        } else if !is_date(command.expires_at) {
            Some("command_expired"@)
        } else {
            None
        },
    }
}

/// Why a command is refused before anything is done, where it is. What the
/// envelope's own checks gave is told by `envelope`.
pub fn check_command(
    command: &RemoteCommand,
    envelope: Result<ConfirmationClass, RemoteError>,
    owner_authenticated: bool,
    remote_runtime: bool,
    machine: &Option<RemoteMachineRecord>,
    devices: &Vec<RemoteDeviceRecord>,
) -> (r: Result<(), &'static str>)
    ensures
        match refusal_code(*command, envelope, owner_authenticated, remote_runtime, *machine, devices@) {
            Some(code) => r matches Err(text) && text@ == code,
            None => r is Ok,
        },
{
    let class = match envelope {
        Ok(class) => class,
        Err(error) => {
            return Err(remote_error_code(error));
        },
    };
    let refused = match class {
        ConfirmationClass::DesktopOnly => true,
        ConfirmationClass::DeviceOwnerAuthentication => !owner_authenticated,
        ConfirmationClass::Device => false,
    };
    if refused {
        return Err("action_not_allowed");
    }
    let addressed = match machine {
        Some(record) => record.enabled && record.machine_id == command.machine_id && (
        match record.owner_id {
            Some(owner) => owner == command.owner_id,
            None => false,
        }),
        None => false,
    };
    if remote_runtime || !addressed {
        return Err("unauthorized");
    }
    if find_active_device(devices, command.device_id).is_none() {
        return Err("device_revoked");
    }
    if !valid_millis(command.expires_at) {
        return Err("command_expired");
    }
    Ok(())
}

/// Whether a command asks for something and changes nothing.
pub open spec fn is_query(kind: RemoteCommandType) -> bool {
    kind == RemoteCommandType::QuerySessionTranscript || kind == RemoteCommandType::QueryApproval || kind
        == RemoteCommandType::QuerySessionReview
}

/// The identifier under which a command is one operation on an SSH host: its own,
/// where it changes something.
pub fn operation_of(kind: RemoteCommandType, command_id: u128) -> (r: Option<u128>)
    ensures
        r == (if is_query(kind) {
            None
        } else {
            Some(command_id)
        }),
{
    match kind {
        RemoteCommandType::QuerySessionTranscript
        | RemoteCommandType::QueryApproval
        | RemoteCommandType::QuerySessionReview => None,
        _ => Some(command_id),
    }
}

/// The text that a command is recognised by when it comes again: the name of what
/// it asks for, and its body.
pub fn command_text(command_type: &str, body: &Json) -> (r: String)
    ensures
        r@ == command_type@ + "\n"@ + rendered_json(body@),
{
    let mut text = command_type.to_owned();
    text.append("\n");
    text.append(render_json(body).as_str());
    text
}

/// What a command asks of the runtime.
#[derive(Debug)]
pub enum CommandAction {
    Start { project_id: u128, prompt: String },
    Prompt { agent_id: u128, text: String },
    Stop { agent_id: u128 },
    ForceKill { agent_id: u128 },
    ReadAttention { attention_id: u128 },
    Transcript { agent_id: u128, before: Option<u64>, limit: u64 },
    Decide { request_id: u128, decision: PermissionDecision },
    Answer { request_id: u128, answers: Vec<QuestionAnswer> },
    ShowApproval { request_id: u128 },
}

/// The mathematical value of an answer to one question.
pub struct AnswerView {
    pub question_id: Seq<char>,
    pub values: Seq<Seq<char>>,
}

/// The views of answers.
pub open spec fn answer_views(answers: Seq<QuestionAnswer>) -> Seq<AnswerView> {
    answers.map_values(
        |answer: QuestionAnswer|
            AnswerView { question_id: answer.question_id@, values: texts_of(answer.values@) },
    )
}

/// The mathematical value of what a command asks.
pub enum ActionView {
    Start { project_id: u128, prompt: Seq<char> },
    Prompt { agent_id: u128, text: Seq<char> },
    Stop { agent_id: u128 },
    ForceKill { agent_id: u128 },
    ReadAttention { attention_id: u128 },
    Transcript { agent_id: u128, before: Option<u64>, limit: u64 },
    Decide { request_id: u128, decision: PermissionDecision },
    Answer { request_id: u128, answers: Seq<AnswerView> },
    ShowApproval { request_id: u128 },
}

impl View for CommandAction {
    type V = ActionView;

    open spec fn view(&self) -> ActionView {
        match self {
            CommandAction::Start { project_id, prompt } => ActionView::Start {
                project_id: *project_id,
                prompt: prompt@,
            },
            CommandAction::Prompt { agent_id, text } => ActionView::Prompt {
                agent_id: *agent_id,
                text: text@,
            },
            CommandAction::Stop { agent_id } => ActionView::Stop { agent_id: *agent_id },
            CommandAction::ForceKill { agent_id } => ActionView::ForceKill { agent_id: *agent_id },
            CommandAction::ReadAttention { attention_id } => ActionView::ReadAttention {
                attention_id: *attention_id,
            },
            CommandAction::Transcript { agent_id, before, limit } => ActionView::Transcript {
                agent_id: *agent_id,
                before: *before,
                limit: *limit,
            },
            CommandAction::Decide { request_id, decision } => ActionView::Decide {
                request_id: *request_id,
                decision: *decision,
            },
            CommandAction::Answer { request_id, answers } => ActionView::Answer {
                request_id: *request_id,
                answers: answer_views(answers@),
            },
            CommandAction::ShowApproval { request_id } => ActionView::ShowApproval {
                request_id: *request_id,
            },
        }
    }
}

/// The longest prompt and the longest title, in characters, and the most
/// messages of a transcript.
pub const MAX_PROMPT_CHARS: usize = 100000;

pub const MAX_TITLE_CHARS: usize = 200;

pub const MAX_TRANSCRIPT_MESSAGES: u64 = 200;

/// Whether a text may be a prompt.
pub open spec fn is_prompt(text: Seq<char>) -> bool {
    0 < text.len() <= MAX_PROMPT_CHARS
}

/// The number that a transcript is read before, where one is given.
pub open spec fn before_sequence(body: JsonView) -> Option<Option<u64>> {
    match body.member("before_sequence"@) {
        None => Some(None),
        Some(JsonView::Null) => Some(None),
        Some(value) => match value.unsigned() {
            Some(n) => Some(Some(n)),
            None => None,
        },
    }
}

/// The decision that a text stands for.
pub open spec fn decision_of(text: Seq<char>) -> Option<PermissionDecision> {
    if text == "approve"@ {
        Some(PermissionDecision::ApproveOnce)
    } else if text == "approve_for_session"@ {
        Some(PermissionDecision::ApproveForSession)
    } else if text == "deny"@ {
        Some(PermissionDecision::Deny)
    } else {
        None
    }
}

/// The answers that an object of lists of texts stands for.
pub open spec fn answers_in(members: Seq<(Seq<char>, JsonView)>) -> Option<Seq<AnswerView>>
    decreases members.len(),
{
    if members.len() == 0 {
        Some(Seq::empty())
    } else {
        match (answers_in(members.drop_last()), members.last().1) {
            (Some(before), JsonView::Array(items)) => match all_texts(items) {
                Some(values) => Some(before.push(AnswerView { question_id: members.last().0, values })),
                None => None,
            },
            _ => None,
        }
    }
}

/// What the answer of a device to a request of an agent asks: a decision, or the
/// answers to its questions.
pub open spec fn responded(body: JsonView) -> Option<ActionView> {
    match id_at(body, "action_id"@) {
        None => None,
        Some(request_id) => match body.text_at("decision"@) {
            Some(text) => match decision_of(text) {
                Some(decision) => Some(ActionView::Decide { request_id, decision }),
                None => None,
            },
            None => match body.member("answers"@) {
                Some(JsonView::Object(members)) => match answers_in(members) {
                    Some(answers) => Some(ActionView::Answer { request_id, answers }),
                    None => None,
                },
                _ => None,
            },
        },
    }
}

/// What the body of a command asks of the runtime, where that is allowed.
pub open spec fn asked(kind: RemoteCommandType, body: JsonView) -> Option<ActionView> {
    let session = id_at(body, "session_id"@);
    match kind {
        RemoteCommandType::SessionStart => match (
            id_at(body, "project_id"@),
            body.text_at("initial_prompt"@),
            body.text_at("task_title"@),
        ) {
            (Some(project_id), Some(prompt), Some(title)) => if is_prompt(prompt) && title.len()
                <= MAX_TITLE_CHARS {
                Some(ActionView::Start { project_id, prompt })
            } else {
                None
            },
            _ => None,
        },
        RemoteCommandType::SessionPrompt => match (session, body.text_at("text"@)) {
            (Some(agent_id), Some(text)) => if is_prompt(text) {
                Some(ActionView::Prompt { agent_id, text })
            } else {
                None
            },
            _ => None,
        },
        RemoteCommandType::SessionStop => match session {
            Some(agent_id) => Some(ActionView::Stop { agent_id }),
            None => None,
        },
        RemoteCommandType::SessionForceKill => match session {
            Some(agent_id) => Some(ActionView::ForceKill { agent_id }),
            None => None,
        },
        RemoteCommandType::AttentionAcknowledge => match id_at(body, "attention_id"@) {
            Some(attention_id) => Some(ActionView::ReadAttention { attention_id }),
            None => None,
        },
        RemoteCommandType::QuerySessionTranscript => match (
            session,
            before_sequence(body),
            unsigned_at(body, "limit"@),
        ) {
            (Some(agent_id), Some(before), Some(limit)) => if 0 < limit <= MAX_TRANSCRIPT_MESSAGES {
                Some(ActionView::Transcript { agent_id, before, limit })
            } else {
                None
            },
            _ => None,
        },
        RemoteCommandType::QueryApproval => match id_at(body, "action_id"@) {
            Some(request_id) => Some(ActionView::ShowApproval { request_id }),
            None => None,
        },
        RemoteCommandType::ApprovalRespond => responded(body),
        RemoteCommandType::AttentionExecute => responded(body),
        RemoteCommandType::AttentionSnooze => None,
        RemoteCommandType::IntegrationApply => None,
        RemoteCommandType::QuerySessionReview => None,
    }
}

/// Whether a text is longer than so many characters.
fn longer_than(text: &str, most: usize) -> (r: bool)
    ensures
        r == (text@.len() > most),
{
    text.unicode_len() > most
}

/// The decision that a text stands for.
fn read_decision(text: &str) -> (r: Option<PermissionDecision>)
    ensures
        r == decision_of(text@),
{
    if same_text(text, "approve") {
        Some(PermissionDecision::ApproveOnce)
    } else if same_text(text, "approve_for_session") {
        Some(PermissionDecision::ApproveForSession)
    } else if same_text(text, "deny") {
        Some(PermissionDecision::Deny)
    } else {
        None
    }
}

/// What is no answer among the first members is none among all.
proof fn lemma_not_answers(members: Seq<(Seq<char>, JsonView)>, at: int)
    requires
        0 <= at <= members.len(),
        answers_in(members.take(at)) is None,
    ensures
        answers_in(members) is None,
    decreases members.len() - at,
{
    if at == members.len() {
        assert(members.take(at) =~= members);
    } else {
        assert(members.take(at + 1).drop_last() =~= members.take(at));
        lemma_not_answers(members, at + 1);
    }
}

/// The answers that an object of lists of texts stands for.
fn read_answers(body: &Json) -> (r: Option<Vec<QuestionAnswer>>)
    ensures
        match body@ {
            JsonView::Object(members) => match answers_in(members) {
                Some(answers) => r matches Some(a) && answer_views(a@) == answers,
                None => r is None,
            },
            _ => r is None,
        },
{
    let members = match body {
        Json::Object(members) => members,
        _ => {
            return None;
        },
    };
    let ghost views = body@->Object_0;
    let mut answers: Vec<QuestionAnswer> = Vec::new();
    let mut i: usize = 0;
    proof {
        assert(views.take(0) =~= Seq::empty());
        assert(answer_views(answers@) =~= Seq::empty());
    }
    while i < members.len()
        invariant
            0 <= i <= members.len(),
            *body == Json::Object(*members),
            body@ == JsonView::Object(views),
            views.len() == members.len(),
            answers_in(views.take(i as int)) == Some(answer_views(answers@)),
        decreases members.len() - i,
    {
        let ghost before = answer_views(answers@);
        proof {
            assert(views.take(i + 1).drop_last() =~= views.take(i as int));
            assert(views.take(i + 1).last() == (members@[i as int].0@, members@[i as int].1@));
        }
        let values = match &members[i].1 {
            Json::Array(items) => {
                proof {
                    assert(members@[i as int].1@->Array_0 =~= items@.map_values(|item: Json| item@));
                }
                texts_in(items)
            },
            _ => None,
        };
        match values {
            Some(values) => {
                let ghost shown = AnswerView { question_id: views[i as int].0, values: texts_of(values@) };
                answers.push(QuestionAnswer { question_id: members[i].0.clone(), values });
                assert(answer_views(answers@) =~= before.push(shown));
            },
            None => {
                proof {
                    lemma_not_answers(views, i + 1);
                }
                return None;
            },
        }
        i += 1;
    }
    assert(views.take(views.len() as int) =~= views);
    Some(answers)
}

/// What the answer of a device to a request of an agent asks.
fn plan_response(body: &Json) -> (r: Result<CommandAction, &'static str>)
    ensures
        match responded(body@) {
            Some(action) => r matches Ok(a) && a@ == action,
            None => r matches Err(text) && text@ == "action_not_allowed"@,
        },
{
    let request_id = match read_optional_id(body.text_at("action_id")) {
        Some(id) => id,
        None => {
            return Err("action_not_allowed");
        },
    };
    match body.text_at("decision") {
        Some(text) => match read_decision(text) {
            Some(decision) => Ok(CommandAction::Decide { request_id, decision }),
            None => Err("action_not_allowed"),
        },
        None => match body.get("answers") {
            Some(value) => match read_answers(value) {
                Some(answers) => Ok(CommandAction::Answer { request_id, answers }),
                None => Err("action_not_allowed"),
            },
            None => Err("action_not_allowed"),
        },
    }
}

/// What the body of a command asks of the runtime. What the runtime has no
/// service for is refused.
pub fn plan_command(kind: RemoteCommandType, body: &Json) -> (r: Result<CommandAction, &'static str>)
    ensures
        match asked(kind, body@) {
            Some(action) => r matches Ok(a) && a@ == action,
            None => r matches Err(text) && text@ == "action_not_allowed"@,
        },
{
    let refused: Result<CommandAction, &'static str> = Err("action_not_allowed");
    let session = read_optional_id(body.text_at("session_id"));
    match kind {
        RemoteCommandType::SessionStart => match (
            read_optional_id(body.text_at("project_id")),
            body.text_at("initial_prompt"),
            body.text_at("task_title"),
        ) {
            (Some(project_id), Some(prompt), Some(title)) => if prompt.is_empty() || longer_than(
                prompt,
                MAX_PROMPT_CHARS,
            ) || longer_than(title, MAX_TITLE_CHARS) {
                refused
            } else {
                Ok(CommandAction::Start { project_id, prompt: prompt.to_owned() })
            },
            _ => refused,
        },
        RemoteCommandType::SessionPrompt => match (session, body.text_at("text")) {
            (Some(agent_id), Some(text)) => if text.is_empty() || longer_than(text, MAX_PROMPT_CHARS) {
                refused
            } else {
                Ok(CommandAction::Prompt { agent_id, text: text.to_owned() })
            },
            _ => refused,
        },
        RemoteCommandType::SessionStop => match session {
            Some(agent_id) => Ok(CommandAction::Stop { agent_id }),
            None => refused,
        },
        RemoteCommandType::SessionForceKill => match session {
            Some(agent_id) => Ok(CommandAction::ForceKill { agent_id }),
            None => refused,
        },
        RemoteCommandType::AttentionAcknowledge => match read_optional_id(body.text_at("attention_id")) {
            Some(attention_id) => Ok(CommandAction::ReadAttention { attention_id }),
            None => refused,
        },
        RemoteCommandType::QuerySessionTranscript => {
            let before: Option<Option<u64>> = match body.get("before_sequence") {
                None => Some(None),
                Some(Json::Null) => Some(None),
                Some(value) => match value.as_unsigned() {
                    Some(n) => Some(Some(n)),
                    None => None,
                },
            };
            match (session, before, read_unsigned(body, "limit")) {
                (Some(agent_id), Some(before), Some(limit)) => if limit == 0 || limit
                    > MAX_TRANSCRIPT_MESSAGES {
                    refused
                } else {
                    Ok(CommandAction::Transcript { agent_id, before, limit })
                },
                _ => refused,
            }
        },
        RemoteCommandType::QueryApproval => match read_optional_id(body.text_at("action_id")) {
            Some(request_id) => Ok(CommandAction::ShowApproval { request_id }),
            None => refused,
        },
        RemoteCommandType::ApprovalRespond => plan_response(body),
        RemoteCommandType::AttentionExecute => plan_response(body),
        RemoteCommandType::AttentionSnooze => refused,
        RemoteCommandType::IntegrationApply => refused,
        RemoteCommandType::QuerySessionReview => refused,
    }
}

/// What became of a command, as the device is told.
#[derive(Debug)]
pub struct RemoteCommandResult {
    pub command_id: u128,
    pub status: &'static str,
    pub error_code: Option<&'static str>,
    pub result: Option<Json>,
}

/// The mathematical value of what became of a command.
pub struct ResultView {
    pub command_id: u128,
    pub status: Seq<char>,
    pub error_code: Option<Seq<char>>,
    pub result: Option<JsonView>,
}

impl View for RemoteCommandResult {
    type V = ResultView;

    open spec fn view(&self) -> ResultView {
        ResultView {
            command_id: self.command_id,
            status: self.status@,
            error_code: match self.error_code {
                Some(code) => Some(code@),
                None => None,
            },
            result: match self.result {
                Some(result) => Some(result@),
                None => None,
            },
        }
    }
}

/// The code that a device is told for an error of the runtime.
pub open spec fn device_code(code: Seq<char>) -> Seq<char> {
    if code == "agent_not_found"@ || code == "message_history_failed"@ {
        "session_not_found"@
    } else if code == "agent_busy"@ {
        "session_not_running"@
    } else if code == "permission_not_found"@ {
        "approval_stale"@
    } else if code == "operation_outcome_unknown"@ {
        "operation_outcome_unknown"@
    } else {
        "action_not_allowed"@
    }
}

/// What becomes of a command that is refused.
pub open spec fn refused_with(command_id: u128, code: Seq<char>) -> ResultView {
    ResultView { command_id, status: "rejected"@, error_code: Some(code), result: None }
}

/// What becomes of a command that the runtime has answered. A transcript that
/// could not be read leaves no result.
pub open spec fn answered_with(
    command_id: u128,
    error_code: Option<Seq<char>>,
    result: Option<JsonView>,
) -> ResultView {
    match error_code {
        Some(code) => ResultView {
            command_id,
            status: "rejected"@,
            error_code: Some(device_code(code)),
            result: if code == "message_history_failed"@ {
                None
            } else {
                result
            },
        },
        None => ResultView { command_id, status: "completed"@, error_code: None, result },
    }
}

/// What becomes of a command that is refused.
pub fn rejected(command_id: u128, code: &'static str) -> (r: RemoteCommandResult)
    ensures
        r@ == refused_with(command_id, code@),
{
    RemoteCommandResult { command_id, status: "rejected", error_code: Some(code), result: None }
}

/// What becomes of a command that the runtime has answered, with the code of the
/// answer where it is an error.
pub fn finish_command(command_id: u128, error_code: Option<&str>, result: Option<Json>) -> (r:
    RemoteCommandResult)
    ensures
        r@ == answered_with(
            command_id,
            match error_code {
                Some(code) => Some(code@),
                None => None,
            },
            match result {
                Some(result) => Some(result@),
                None => None,
            },
        ),
{
    match error_code {
        Some(code) => {
            let told = if same_text(code, "agent_not_found") || same_text(code, "message_history_failed") {
                "session_not_found"
            } else if same_text(code, "agent_busy") {
                "session_not_running"
            } else if same_text(code, "permission_not_found") {
                "approval_stale"
            } else if same_text(code, "operation_outcome_unknown") {
                "operation_outcome_unknown"
            } else {
                "action_not_allowed"
            };
            let result = if same_text(code, "message_history_failed") {
                None
            } else {
                result
            };
            RemoteCommandResult { command_id, status: "rejected", error_code: Some(told), result }
        },
        None => RemoteCommandResult { command_id, status: "completed", error_code: None, result },
    }
}

/// The code that a device is told again for one that was kept.
pub open spec fn kept_code(code: Seq<char>) -> Seq<char> {
    if code == "session_not_found"@ || code == "session_not_running"@ || code == "approval_stale"@ {
        code
    } else {
        "action_not_allowed"@
    }
}

/// What is told again of a command that was carried out.
pub open spec fn told_again(command_id: u128, outcome: OutcomeView) -> ResultView {
    ResultView {
        command_id,
        status: if outcome.error is Some {
            "rejected"@
        } else {
            "completed"@
        },
        error_code: match outcome.error {
            Some(code) => Some(kept_code(code)),
            None => None,
        },
        result: if outcome.response is Null {
            None
        } else {
            Some(outcome.response)
        },
    }
}

/// What is told again of a command that was carried out.
fn tell_again(command_id: u128, outcome: Outcome) -> (r: RemoteCommandResult)
    ensures
        r@ == told_again(command_id, outcome@),
{
    let error_code: Option<&'static str> = match &outcome.error {
        Some(code) => Some(
            if same_text(code.as_str(), "session_not_found") {
                "session_not_found"
            } else if same_text(code.as_str(), "session_not_running") {
                "session_not_running"
            } else if same_text(code.as_str(), "approval_stale") {
                "approval_stale"
            } else {
                "action_not_allowed"
            },
        ),
        None => None,
    };
    let status = match &outcome.error {
        Some(_) => "rejected",
        None => "completed",
    };
    let result = match outcome.response {
        Json::Null => None,
        response => Some(response),
    };
    RemoteCommandResult { command_id, status, error_code, result }
}

/// What is done about a command that is allowed.
#[derive(Debug)]
pub enum CommandStep {
    /// It is carried out.
    CarryOut,
    /// It was sent before, and what became of it has to be asked.
    Recover,
    /// It is answered without being carried out.
    Answer(RemoteCommandResult),
}

/// The mathematical value of what is done about a command.
pub enum CommandStepView {
    CarryOut,
    Recover,
    Answer(ResultView),
}

impl View for CommandStep {
    type V = CommandStepView;

    open spec fn view(&self) -> CommandStepView {
        match self {
            CommandStep::CarryOut => CommandStepView::CarryOut,
            CommandStep::Recover => CommandStepView::Recover,
            CommandStep::Answer(result) => CommandStepView::Answer(result@),
        }
    }
}

/// The receipts after a command is allowed, and what is done about it. `journal`
/// tells whether the journal of commands took it as a new one, where that could
/// be asked.
pub open spec fn command_begun(
    list: Seq<ReceiptView>,
    command_id: u128,
    fingerprint: Seq<char>,
    journal: Option<bool>,
) -> (Seq<ReceiptView>, CommandStepView) {
    match journal {
        None => (list, CommandStepView::Answer(refused_with(command_id, "internal_error"@))),
        Some(fresh) => if !fresh && receipt_at(list, command_id) is None {
            (list, CommandStepView::Answer(refused_with(command_id, "command_duplicate"@)))
        } else {
            let (after, step) = begun(list, command_id, fingerprint);
            (
                after,
                match step {
                    ReceiptStepView::Run => CommandStepView::CarryOut,
                    ReceiptStepView::Saved(outcome) => CommandStepView::Answer(
                        told_again(command_id, outcome),
                    ),
                    ReceiptStepView::Conflict => CommandStepView::Answer(
                        refused_with(command_id, "operation_conflict"@),
                    ),
                    ReceiptStepView::Unknown => CommandStepView::Recover,
                },
            )
        },
    }
}

/// A command that is allowed is carried out once. One that comes again is told
/// what became of it, and one with another body under the same identifier is
/// refused.
pub fn begin_command(
    receipts: &mut Receipts,
    command_id: u128,
    fingerprint: &str,
    journal: Option<bool>,
) -> (r: CommandStep)
    ensures
        (final(receipts)@, r@) == command_begun(old(receipts)@, command_id, fingerprint@, journal),
{
    let fresh = match journal {
        Some(fresh) => fresh,
        None => {
            return CommandStep::Answer(rejected(command_id, "internal_error"));
        },
    };
    if !fresh && receipts.outcome_of(command_id).is_none() {
        return CommandStep::Answer(rejected(command_id, "command_duplicate"));
    }
    match receipts.begin(command_id, fingerprint) {
        ReceiptStep::Run => CommandStep::CarryOut,
        ReceiptStep::Saved(outcome) => CommandStep::Answer(tell_again(command_id, outcome)),
        ReceiptStep::Conflict => CommandStep::Answer(rejected(command_id, "operation_conflict")),
        ReceiptStep::Unknown => CommandStep::Recover,
    }
}

/// Whether what became of a command is known.
pub open spec fn is_settled(result: ResultView) -> bool {
    result.error_code != Some("operation_outcome_unknown"@)
}

/// What is kept of what became of a command.
pub open spec fn kept_outcome(result: ResultView) -> OutcomeView {
    OutcomeView {
        error: result.error_code,
        response: match result.result {
            Some(value) => value,
            None => JsonView::Null,
        },
    }
}

/// The receipts after a command was carried out.
pub open spec fn command_concluded(list: Seq<ReceiptView>, result: ResultView) -> Seq<ReceiptView> {
    if is_settled(result) {
        concluded(list, result.command_id, kept_outcome(result))
    } else {
        list
    }
}

/// Keeps what became of a command. Where that is not known its receipt stays
/// open.
pub fn conclude_command(receipts: &mut Receipts, result: &RemoteCommandResult)
    ensures
        final(receipts)@ == command_concluded(old(receipts)@, result@),
{
    let settled = match result.error_code {
        Some(code) => !same_text(code, "operation_outcome_unknown"),
        None => true,
    };
    if settled {
        let error: Option<String> = match result.error_code {
            Some(code) => Some(code.to_owned()),
            None => None,
        };
        let response = match &result.result {
            Some(value) => value.copy(),
            None => Json::Null,
        };
        receipts.conclude(result.command_id, Outcome { error, response });
    }
}

/// What is told of the commands whose outcome is known.
pub open spec fn known_results(list: Seq<ReceiptView>) -> Seq<ResultView>
    decreases list.len(),
{
    if list.len() == 0 {
        Seq::empty()
    } else {
        let before = known_results(list.drop_last());
        match list.last().outcome {
            Some(outcome) => before.push(told_again(list.last().id, outcome)),
            None => before,
        }
    }
}

/// The views of results.
pub open spec fn result_views(results: Seq<RemoteCommandResult>) -> Seq<ResultView> {
    results.map_values(|result: RemoteCommandResult| result@)
}

/// What is told again, once a connection is back, of the commands whose outcome
/// is known. None of them is carried out again.
pub fn saved_results(receipts: &Receipts) -> (r: Vec<RemoteCommandResult>)
    ensures
        result_views(r@) == known_results(receipts@),
{
    let ghost list = receipts@;
    let mut results: Vec<RemoteCommandResult> = Vec::new();
    let mut i: usize = 0;
    assert(list.take(0) =~= Seq::empty());
    assert(result_views(results@) =~= Seq::empty());
    while i < receipts.list.len()
        invariant
            0 <= i <= receipts.list.len(),
            list == receipts@,
            result_views(results@) == known_results(list.take(i as int)),
        decreases receipts.list.len() - i,
    {
        let ghost before = result_views(results@);
        assert(list.take(i + 1).drop_last() =~= list.take(i as int));
        assert(list.take(i + 1).last() == receipts.list@[i as int]@);
        match &receipts.list[i].outcome {
            Some(outcome) => {
                let told = tell_again(receipts.list[i].id, outcome.copy());
                let ghost shown = told@;
                results.push(told);
                assert(result_views(results@) =~= before.push(shown));
            },
            None => {},
        }
        i += 1;
    }
    assert(list.take(list.len() as int) =~= list);
    results
}

/// What became of a command that was sent before, once its outcome has been asked
/// for: what the runtime answered then, where that is known.
pub open spec fn recovered(command_id: u128, response: Option<JsonView>) -> ResultView {
    match response {
        None => refused_with(command_id, "operation_outcome_unknown"@),
        Some(value) => answered_with(
            command_id,
            match value.member2("Error"@, "code"@) {
                Some(code) => code.text(),
                None => None,
            },
            Some(value),
        ),
    }
}

/// What became of a command that was sent before.
pub fn recover_command(command_id: u128, response: Option<Json>) -> (r: RemoteCommandResult)
    ensures
        r@ == recovered(
            command_id,
            match response {
                Some(value) => Some(value@),
                None => None,
            },
        ),
{
    match response {
        None => rejected(command_id, "operation_outcome_unknown"),
        Some(value) => {
            let code: Option<String> = match value.get2("Error", "code") {
                Some(code) => match code.as_text() {
                    Some(text) => Some(text.to_owned()),
                    None => None,
                },
                None => None,
            };
            match &code {
                Some(text) => finish_command(command_id, Some(text.as_str()), Some(value)),
                None => finish_command(command_id, None, Some(value)),
            }
        },
    }
}

/// A command is carried out at most once. Whatever the runtime answered, a device
/// that sends the command again is told the same, and a changed body under its
/// identifier is refused.
pub proof fn lemma_repeated_commands_are_told_the_same(
    list: Seq<ReceiptView>,
    command_id: u128,
    fingerprint: Seq<char>,
    changed: Seq<char>,
    error_code: Option<Seq<char>>,
    value: JsonView,
    fresh: bool,
)
    requires
        command_begun(list, command_id, fingerprint, Some(true)).1 is CarryOut,
        changed != fingerprint,
        !(value is Null),
        error_code != Some("operation_outcome_unknown"@),
    ensures
        ({
            let result = answered_with(command_id, error_code, Some(value));
            let open = command_begun(list, command_id, fingerprint, Some(true)).0;
            let after = command_concluded(open, result);
            &&& command_begun(open, command_id, fingerprint, Some(fresh)) == (
                open,
                CommandStepView::Recover,
            )
            &&& command_begun(after, command_id, fingerprint, Some(fresh)) == (
                after,
                CommandStepView::Answer(result),
            )
            &&& command_begun(after, command_id, changed, Some(fresh)) == (
                after,
                CommandStepView::Answer(refused_with(command_id, "operation_conflict"@)),
            )
        }),
{
    let result = answered_with(command_id, error_code, Some(value));
    let open = command_begun(list, command_id, fingerprint, Some(true)).0;
    let receipt = ReceiptView { id: command_id, fingerprint, outcome: None };
    assert(open.drop_last() =~= list);
    assert(open.last() == receipt);
    reveal_strlit("operation_outcome_unknown");
    reveal_strlit("session_not_found");
    reveal_strlit("session_not_running");
    reveal_strlit("approval_stale");
    reveal_strlit("action_not_allowed");
    assert("operation_outcome_unknown"@.len() == 25);
    assert("session_not_found"@.len() == 17);
    assert("session_not_running"@.len() == 19);
    assert("approval_stale"@.len() == 14);
    assert("action_not_allowed"@.len() == 18);
    assert(is_settled(result));
    lemma_operations_run_once(open, command_id, fingerprint, command_id, kept_outcome(result));
    lemma_outcomes_are_given_again(open, command_id, fingerprint, changed, kept_outcome(result));
}

/// No command is carried out for a device that is not active, for another owner
/// or machine, nor on a runtime that serves an SSH host.
pub proof fn lemma_strangers_are_refused(
    command: RemoteCommand,
    envelope: Result<ConfirmationClass, RemoteError>,
    owner_authenticated: bool,
    remote_runtime: bool,
    machine: Option<RemoteMachineRecord>,
    devices: Seq<RemoteDeviceRecord>,
)
    ensures
        !is_authorized(devices, command.device_id) || !is_addressed(command, machine) || remote_runtime
            || envelope == Ok::<ConfirmationClass, RemoteError>(ConfirmationClass::DesktopOnly)
            ==> refusal_code(
            command,
            envelope,
            owner_authenticated,
            remote_runtime,
            machine,
            devices,
        ) is Some,
{
}

/// A command is let in exactly where its envelope is sound, it is confirmed as it has
/// to be, it is for this machine and its owner, its device is still paired, and its
/// time is a date; each refusal has its own code, in this order.
pub proof fn lemma_what_lets_a_command_in(
    command: RemoteCommand,
    envelope: Result<ConfirmationClass, RemoteError>,
    owner_authenticated: bool,
    remote_runtime: bool,
    machine: Option<RemoteMachineRecord>,
    devices: Seq<RemoteDeviceRecord>,
)
    ensures
        ({
            let refused = refusal_code(
                command,
                envelope,
                owner_authenticated,
                remote_runtime,
                machine,
                devices,
            );
            let confirmed = envelope == Ok::<ConfirmationClass, RemoteError>(ConfirmationClass::Device) || (envelope
                == Ok::<ConfirmationClass, RemoteError>(ConfirmationClass::DeviceOwnerAuthentication)
                && owner_authenticated);
            let addressed = !remote_runtime && machine is Some && machine->0.enabled && machine->0.machine_id
                == command.machine_id && machine->0.owner_id == Some(command.owner_id);
            &&& refused is None <==> confirmed && addressed && is_authorized(devices, command.device_id)
                && is_date(command.expires_at)
            &&& envelope == Err::<ConfirmationClass, RemoteError>(RemoteError::CommandExpired) ==> refused == Some(
                "command_expired"@,
            )
            &&& envelope == Err::<ConfirmationClass, RemoteError>(RemoteError::CommandDuplicate) ==> refused == Some(
                "command_duplicate"@,
            )
            &&& envelope == Err::<ConfirmationClass, RemoteError>(RemoteError::UnsupportedProtocol) ==> refused
                == Some("unsupported_protocol"@)
            &&& envelope is Ok && !confirmed ==> refused == Some("action_not_allowed"@)
            &&& confirmed && !addressed ==> refused == Some("unauthorized"@)
            &&& confirmed && addressed && !is_authorized(devices, command.device_id) ==> refused == Some(
                "device_revoked"@,
            )
        }),
{
}

/// The three words of a device stand for three decisions, and no other word for any.
pub proof fn lemma_words_of_decisions(text: Seq<char>)
    ensures
        decision_of("approve"@) == Some(PermissionDecision::ApproveOnce),
        decision_of("approve_for_session"@) == Some(PermissionDecision::ApproveForSession),
        decision_of("deny"@) == Some(PermissionDecision::Deny),
        decision_of(text) is Some <==> text == "approve"@ || text == "approve_for_session"@ || text == "deny"@,
{
    reveal_strlit("approve");
    reveal_strlit("approve_for_session");
    reveal_strlit("deny");
    assert("approve"@.len() == 7);
    assert("approve_for_session"@.len() == 19);
    assert("deny"@.len() == 4);
}

/// What the commands of a device mean: each names what it is about, a prompt is passed
/// on word for word, and blank or overlong prompts are refused.
pub proof fn lemma_commands_mean_what_they_say(body: JsonView)
    ensures
        asked(RemoteCommandType::SessionStop, body) == (match id_at(body, "session_id"@) {
            Some(agent_id) => Some(ActionView::Stop { agent_id }),
            None => None,
        }),
        asked(RemoteCommandType::SessionForceKill, body) == (match id_at(body, "session_id"@) {
            Some(agent_id) => Some(ActionView::ForceKill { agent_id }),
            None => None,
        }),
        asked(RemoteCommandType::AttentionAcknowledge, body) == (match id_at(body, "attention_id"@) {
            Some(attention_id) => Some(ActionView::ReadAttention { attention_id }),
            None => None,
        }),
        asked(RemoteCommandType::QueryApproval, body) == (match id_at(body, "action_id"@) {
            Some(request_id) => Some(ActionView::ShowApproval { request_id }),
            None => None,
        }),
        asked(RemoteCommandType::SessionPrompt, body) matches Some(action) ==> (
        action matches ActionView::Prompt { agent_id, text } && id_at(body, "session_id"@) == Some(agent_id)
            && body.text_at("text"@) == Some(text) && 0 < text.len() <= 100000),
        asked(RemoteCommandType::SessionStart, body) matches Some(action) ==> (
        action matches ActionView::Start { project_id, prompt } && id_at(body, "project_id"@) == Some(project_id)
            && body.text_at("initial_prompt"@) == Some(prompt) && 0 < prompt.len() <= 100000 && body.text_at(
            "task_title"@,
        ) is Some && body.text_at("task_title"@)->0.len() <= 200),
        asked(RemoteCommandType::QuerySessionTranscript, body) matches Some(action) ==> (
        action matches ActionView::Transcript { agent_id, limit, .. } && id_at(body, "session_id"@) == Some(
            agent_id,
        ) && unsigned_at(body, "limit"@) == Some(limit) && 0 < limit <= 200),
        asked(RemoteCommandType::AttentionSnooze, body) is None,
        asked(RemoteCommandType::IntegrationApply, body) is None,
        asked(RemoteCommandType::QuerySessionReview, body) is None,
        asked(RemoteCommandType::ApprovalRespond, body) == asked(RemoteCommandType::AttentionExecute, body),
{
}

/// A decision of a device reaches the request that it names, as the decision that its
/// word stands for.
pub proof fn lemma_responses_keep_their_decision(body: JsonView, request_id: u128)
    requires
        id_at(body, "action_id"@) == Some(request_id),
    ensures
        body.text_at("decision"@) == Some("approve"@) ==> asked(RemoteCommandType::ApprovalRespond, body) == Some(
            ActionView::Decide { request_id, decision: PermissionDecision::ApproveOnce },
        ),
        body.text_at("decision"@) == Some("approve_for_session"@) ==> asked(
            RemoteCommandType::ApprovalRespond,
            body,
        ) == Some(ActionView::Decide { request_id, decision: PermissionDecision::ApproveForSession }),
        body.text_at("decision"@) == Some("deny"@) ==> asked(RemoteCommandType::ApprovalRespond, body) == Some(
            ActionView::Decide { request_id, decision: PermissionDecision::Deny },
        ),
{
    lemma_words_of_decisions("approve"@);
}

/// What a device is told of an error: a code of its own for what it can act on, and
/// one for everything else. A success is told as completed, with its result.
pub proof fn lemma_devices_are_told_how_it_went(command_id: u128, code: Seq<char>, result: Option<JsonView>)
    ensures
        answered_with(command_id, None, result).status == "completed"@,
        answered_with(command_id, None, result).error_code is None,
        answered_with(command_id, None, result).result == result,
        answered_with(command_id, Some(code), result).status == "rejected"@,
        answered_with(command_id, Some(code), result).error_code is Some,
        answered_with(command_id, Some(code), result).command_id == command_id,
        device_code("agent_not_found"@) == "session_not_found"@,
        device_code("agent_busy"@) == "session_not_running"@,
        device_code("permission_not_found"@) == "approval_stale"@,
        code != "agent_not_found"@ && code != "message_history_failed"@ && code != "agent_busy"@ && code
            != "permission_not_found"@ && code != "operation_outcome_unknown"@ ==> device_code(code)
            == "action_not_allowed"@,
        refused_with(command_id, code).status == "rejected"@,
        refused_with(command_id, code).error_code == Some(code),
{
    reveal_strlit("agent_not_found");
    reveal_strlit("message_history_failed");
    reveal_strlit("agent_busy");
    reveal_strlit("permission_not_found");
    assert("agent_not_found"@.len() == 15);
    assert("message_history_failed"@.len() == 22);
    assert("agent_busy"@.len() == 10);
    assert("permission_not_found"@.len() == 20);
}

/// A command is carried out only where the journal took it and no receipt of it is
/// kept.
pub proof fn lemma_only_new_commands_are_carried_out(
    list: Seq<ReceiptView>,
    command_id: u128,
    fingerprint: Seq<char>,
    journal: Option<bool>,
)
    ensures
        command_begun(list, command_id, fingerprint, journal).1 is CarryOut <==> journal == Some(true)
            && receipt_at(list, command_id) is None,
        journal is None ==> command_begun(list, command_id, fingerprint, journal).1 == CommandStepView::Answer(
            refused_with(command_id, "internal_error"@),
        ),
        journal == Some(false) && receipt_at(list, command_id) is None ==> command_begun(
            list,
            command_id,
            fingerprint,
            journal,
        ).1 == CommandStepView::Answer(refused_with(command_id, "command_duplicate"@)),
{
}

/// A command whose outcome could not be learned is told as unknown and stays open.
pub proof fn lemma_unknown_outcomes_stay_open(list: Seq<ReceiptView>, command_id: u128)
    ensures
        recovered(command_id, None).error_code == Some("operation_outcome_unknown"@),
        recovered(command_id, None).status == "rejected"@,
        command_concluded(list, recovered(command_id, None)) == list,
{
}

/// Every command whose outcome is known is told again, and no other: as rejected
/// where it failed, as completed where it did not.
pub proof fn lemma_known_outcomes_are_told_again(list: Seq<ReceiptView>, at: int)
    requires
        0 <= at < list.len(),
    ensures
        list[at].outcome is Some ==> exists|i: int|
            0 <= i < known_results(list).len() && (#[trigger] known_results(list)[i]).command_id == list[at].id && (
            known_results(list)[i].status == "rejected"@ <==> list[at].outcome->0.error is Some),
        known_results(list).len() <= list.len(),
        (forall|k: int| 0 <= k < list.len() ==> (#[trigger] list[k]).outcome is None) ==> known_results(list).len()
            == 0,
    decreases list.len(),
{
    reveal_strlit("rejected");
    reveal_strlit("completed");
    assert("rejected"@.len() == 8 && "completed"@.len() == 9);
    let before = list.drop_last();
    let told = known_results(list);
    let told_before = known_results(before);
    assert(forall|k: int| 0 <= k < before.len() ==> #[trigger] before[k] == list[k]);
    if before.len() > 0 {
        lemma_known_outcomes_are_told_again(
            before,
            if at < before.len() {
                at
            } else {
                0
            },
        );
        if forall|k: int| 0 <= k < list.len() ==> (#[trigger] list[k]).outcome is None {
            assert(forall|k: int| 0 <= k < before.len() ==> (#[trigger] before[k]).outcome is None);
        }
    }
    assert(list.last() == list[list.len() - 1]);
    if list[at].outcome is Some {
        if at < before.len() {
            let i = choose|i: int|
                0 <= i < told_before.len() && (#[trigger] told_before[i]).command_id == before[at].id && (
                told_before[i].status == "rejected"@ <==> before[at].outcome->0.error is Some);
            assert(told[i] == told_before[i]);
        } else {
            assert(told[told.len() - 1] == told_again(list[at].id, list[at].outcome->0));
        }
    }
}

/// Each reason to refuse a command has a code of its own.
pub proof fn lemma_refusals_are_told_apart()
    ensures
        envelope_code(RemoteError::UnsupportedProtocol) == "unsupported_protocol"@,
        envelope_code(RemoteError::CommandExpired) == "command_expired"@,
        envelope_code(RemoteError::CommandDuplicate) == "command_duplicate"@,
        envelope_code(RemoteError::Other) == "action_not_allowed"@,
        "unsupported_protocol"@ != "command_expired"@,
        "unsupported_protocol"@ != "command_duplicate"@,
        "unsupported_protocol"@ != "action_not_allowed"@,
        "command_expired"@ != "command_duplicate"@,
        "command_expired"@ != "action_not_allowed"@,
        "command_duplicate"@ != "action_not_allowed"@,
{
    reveal_strlit("unsupported_protocol");
    reveal_strlit("command_expired");
    reveal_strlit("command_duplicate");
    reveal_strlit("action_not_allowed");
    assert("unsupported_protocol"@.len() == 20 && "command_expired"@.len() == 15 && "command_duplicate"@.len()
        == 17 && "action_not_allowed"@.len() == 18);
}

/// Only commands that change nothing are questions.
pub proof fn lemma_questions_change_nothing(kind: RemoteCommandType)
    ensures
        is_query(kind) ==> kind is QuerySessionTranscript || kind is QueryApproval || kind is QuerySessionReview,
        kind is QuerySessionTranscript || kind is QueryApproval || kind is QuerySessionReview ==> is_query(kind),
{
}

} // verus!
