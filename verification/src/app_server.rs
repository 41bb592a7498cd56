//! The conversation with a Codex app server: starting a turn, reading what the
//! server says, and answering what it asks.

use crate::json::{
    lemma_member_of_extended, no_members, parsed_json, read_json, rendered_json, same_value, write_json, Json, JsonNumber, JsonView, NumberView,
};
use crate::model::{
    copy_questions, questions_view, AgentExecutionProfile, AgentQuestion, PermissionActionKind,
    PermissionRequest, PermissionView, QuestionOption, QuestionView,
};
use crate::text::{
    byte_count, byte_len, glue_texts, glued, same_text, text_of, texts_of, trim, trimmed,
};
use vstd::prelude::*;
use vstd::string::*;

verus! {

/// What the user decides on a request for permission.
#[derive(Clone, Copy, Debug, PartialEq, Eq, Structural)]
pub enum PermissionDecision {
    ApproveOnce,
    ApproveForSession,
    Deny,
}

/// What the app server has told.
#[derive(Debug)]
pub enum Event {
    ThreadReady(String),
    TurnStarted,
    Action(String),
    AssistantMessage(String),
    ToolMessage(String),
    ApprovalRequested(PermissionRequest),
    TurnCompleted { status: String, error: Option<String> },
    Diagnostic(String),
    Failed(String),
    OutputClosed,
    PermissionResolved(u128),
}

/// The mathematical value of an event.
pub enum EventView {
    ThreadReady(Seq<char>),
    TurnStarted,
    Action(Seq<char>),
    AssistantMessage(Seq<char>),
    ToolMessage(Seq<char>),
    ApprovalRequested(PermissionView),
    TurnCompleted { status: Seq<char>, error: Option<Seq<char>> },
    Diagnostic(Seq<char>),
    Failed(Seq<char>),
    OutputClosed,
    PermissionResolved(u128),
}

impl View for Event {
    type V = EventView;

    open spec fn view(&self) -> EventView {
        match self {
            Event::ThreadReady(text) => EventView::ThreadReady(text@),
            Event::TurnStarted => EventView::TurnStarted,
            Event::Action(text) => EventView::Action(text@),
            Event::AssistantMessage(text) => EventView::AssistantMessage(text@),
            Event::ToolMessage(text) => EventView::ToolMessage(text@),
            Event::ApprovalRequested(request) => EventView::ApprovalRequested(request@),
            Event::TurnCompleted { status, error } => EventView::TurnCompleted {
                status: status@,
                error: text_of(*error),
            },
            Event::Diagnostic(text) => EventView::Diagnostic(text@),
            Event::Failed(text) => EventView::Failed(text@),
            Event::OutputClosed => EventView::OutputClosed,
            Event::PermissionResolved(id) => EventView::PermissionResolved(*id),
        }
    }
}

/// What the app server waits for.
#[derive(Debug)]
pub enum ApprovalKind {
    Decision,
    Permissions(Json),
    Questions(Vec<AgentQuestion>),
}

/// The mathematical value of what the app server waits for.
pub enum KindView {
    Decision,
    Permissions(JsonView),
    Questions(Seq<QuestionView>),
}

impl View for ApprovalKind {
    type V = KindView;

    open spec fn view(&self) -> KindView {
        match self {
            ApprovalKind::Decision => KindView::Decision,
            ApprovalKind::Permissions(value) => KindView::Permissions(value@),
            ApprovalKind::Questions(list) => KindView::Questions(questions_view(list@)),
        }
    }
}

/// A request of the app server that has not been answered.
#[derive(Debug)]
pub struct PendingApproval {
    pub id: u128,
    pub rpc_id: Json,
    pub kind: ApprovalKind,
}

/// The mathematical value of an open request.
pub struct PendingView {
    pub id: u128,
    pub rpc_id: JsonView,
    pub kind: KindView,
}

impl View for PendingApproval {
    type V = PendingView;

    open spec fn view(&self) -> PendingView {
        PendingView { id: self.id, rpc_id: self.rpc_id@, kind: self.kind@ }
    }
}

/// A turn of the app server, with the requests that it has not been answered.
#[derive(Debug)]
pub struct ActiveTurn {
    pub pending: Vec<PendingApproval>,
}

impl View for ActiveTurn {
    type V = Seq<PendingView>;

    open spec fn view(&self) -> Seq<PendingView> {
        self.pending@.map_values(|entry: PendingApproval| entry@)
    }
}

/// The open request with the given identifier.
pub open spec fn pending_at(list: Seq<PendingView>, id: u128) -> Option<PendingView>
    decreases list.len(),
{
    if list.len() == 0 {
        None
    } else if list[0].id == id {
        Some(list[0])
    } else {
        pending_at(list.skip(1), id)
    }
}

/// The open requests without those of an identifier.
pub open spec fn without_id(list: Seq<PendingView>, id: u128) -> Seq<PendingView>
    decreases list.len(),
{
    if list.len() == 0 {
        Seq::empty()
    } else if list.last().id == id {
        without_id(list.drop_last(), id)
    } else {
        without_id(list.drop_last(), id).push(list.last())
    }
}

/// The open requests without those of a server request, in the order of the
/// list, and the identifiers of those.
pub open spec fn without_rpc(list: Seq<PendingView>, rpc_id: JsonView) -> (Seq<PendingView>, Seq<u128>)
    decreases list.len(),
{
    if list.len() == 0 {
        (Seq::empty(), Seq::empty())
    } else {
        let (kept, gone) = without_rpc(list.drop_last(), rpc_id);
        if same_value(list.last().rpc_id, rpc_id) {
            (kept, gone.push(list.last().id))
        } else {
            (kept.push(list.last()), gone)
        }
    }
}

/// Whether a request of the server is open.
pub open spec fn is_open(list: Seq<PendingView>, rpc_id: JsonView) -> bool {
    exists|i: int| 0 <= i < list.len() && same_value((#[trigger] list[i]).rpc_id, rpc_id)
}

/// The identifiers of the three requests that start a turn.
pub open spec fn initialize_id() -> Seq<char> {
    "ditch:initialize"@
}

pub open spec fn thread_id() -> Seq<char> {
    "ditch:thread"@
}

pub open spec fn turn_id() -> Seq<char> {
    "ditch:turn"@
}

/// What a turn is started with.
#[derive(Debug)]
pub struct Launch {
    pub cwd: String,
    pub project_id: u128,
    pub agent_id: u128,
    pub prompt: String,
    pub resume_thread: Option<String>,
    pub execution_profile: AgentExecutionProfile,
}

/// The policy for approvals and the sandbox of a turn on an SSH host: always
/// guarded by approvals, whatever the profile says.
pub fn remote_policy(profile: &AgentExecutionProfile) -> (r: (&'static str, &'static str))
    ensures
        r.0@ == "untrusted"@,
        r.1@ == "danger-full-access"@,
{
    ("untrusted", "danger-full-access")
}

/// The request that opens the conversation.
pub open spec fn initialize_message(version: Seq<char>) -> JsonView {
    no_members().with("id"@, JsonView::Text(initialize_id())).with(
        "method"@,
        JsonView::Text("initialize"@),
    ).with(
        "params"@,
        no_members().with(
            "clientInfo"@,
            no_members().with("name"@, JsonView::Text("the_ditch_ssh"@)).with(
                "title"@,
                JsonView::Text("The Ditch SSH"@),
            ).with("version"@, JsonView::Text(version)),
        ),
    )
}

/// The request that opens the conversation.
pub fn initialize_request(version: &str) -> (r: Json)
    ensures
        r@ == initialize_message(version@),
{
    let client = Json::object().with("name", Json::of_text("the_ditch_ssh")).with(
        "title",
        Json::of_text("The Ditch SSH"),
    ).with("version", Json::of_text(version));
    Json::object().with("id", Json::of_text("ditch:initialize")).with(
        "method",
        Json::of_text("initialize"),
    ).with("params", Json::object().with("clientInfo", client))
}

/// The object with one more text, where there is one.
pub open spec fn with_text(value: JsonView, key: Seq<char>, text: Option<Seq<char>>) -> JsonView {
    match text {
        Some(text) => value.with(key, JsonView::Text(text)),
        None => value,
    }
}

/// The object with one more text, where there is one.
fn add_text(value: Json, key: &str, text: &Option<String>) -> (r: Json)
    ensures
        r@ == with_text(value@, key@, text_of(*text)),
{
    match text {
        Some(text) => value.with(key, Json::of_text(text.as_str())),
        None => value,
    }
}

/// The parameters of the request for a thread.
pub open spec fn thread_params(launch: Launch) -> JsonView {
    with_text(
        with_text(
            no_members().with("cwd"@, JsonView::Text(launch.cwd@)).with(
                "approvalPolicy"@,
                JsonView::Text("untrusted"@),
            ).with("approvalsReviewer"@, JsonView::Text("user"@)).with(
                "sandbox"@,
                JsonView::Text("danger-full-access"@),
            ).with("serviceName"@, JsonView::Text("the_ditch_ssh"@)).with(
                "config"@,
                no_members().with("web_search"@, JsonView::Text("live"@)).with(
                    "tools"@,
                    no_members().with("web_search"@, JsonView::Bool(true)),
                ),
            ),
            "model"@,
            text_of(launch.execution_profile.model),
        ),
        "threadId"@,
        text_of(launch.resume_thread),
    )
}

/// The request for a thread: a new one, or the one to resume.
pub open spec fn thread_message(launch: Launch) -> JsonView {
    no_members().with("id"@, JsonView::Text(thread_id())).with(
        "method"@,
        JsonView::Text(
            if launch.resume_thread is Some {
                "thread/resume"@
            } else {
                "thread/start"@
            },
        ),
    ).with("params"@, thread_params(launch))
}

/// The request for a thread.
pub fn thread_request(launch: &Launch) -> (r: Json)
    ensures
        r@ == thread_message(*launch),
{
    let (approval, sandbox) = remote_policy(&launch.execution_profile);
    let config = Json::object().with("web_search", Json::of_text("live")).with(
        "tools",
        Json::object().with("web_search", Json::Bool(true)),
    );
    let params = Json::object().with("cwd", Json::of_text(launch.cwd.as_str())).with(
        "approvalPolicy",
        Json::of_text(approval),
    ).with("approvalsReviewer", Json::of_text("user")).with("sandbox", Json::of_text(sandbox)).with(
        "serviceName",
        Json::of_text("the_ditch_ssh"),
    ).with("config", config);
    let params = add_text(params, "model", &launch.execution_profile.model);
    let params = add_text(params, "threadId", &launch.resume_thread);
    let method = if launch.resume_thread.is_some() {
        "thread/resume"
    } else {
        "thread/start"
    };
    Json::object().with("id", Json::of_text("ditch:thread")).with("method", Json::of_text(method)).with(
        "params",
        params,
    )
}

/// The request that starts a turn in a thread.
pub open spec fn turn_message(launch: Launch, thread: Seq<char>) -> JsonView {
    no_members().with("id"@, JsonView::Text(turn_id())).with("method"@, JsonView::Text("turn/start"@)).with(
        "params"@,
        with_text(
            with_text(
                no_members().with("threadId"@, JsonView::Text(thread)).with(
                    "input"@,
                    JsonView::Array(
                        seq![
                            no_members().with("type"@, JsonView::Text("text"@)).with(
                                "text"@,
                                JsonView::Text(launch.prompt@),
                            ),
                        ],
                    ),
                ).with("cwd"@, JsonView::Text(launch.cwd@)).with(
                    "approvalPolicy"@,
                    JsonView::Text("untrusted"@),
                ).with("approvalsReviewer"@, JsonView::Text("user"@)).with(
                    "sandboxPolicy"@,
                    no_members().with("type"@, JsonView::Text("dangerFullAccess"@)),
                ),
                "model"@,
                text_of(launch.execution_profile.model),
            ),
            "effort"@,
            text_of(launch.execution_profile.reasoning_effort),
        ),
    )
}

/// The request that starts a turn in a thread.
pub fn turn_request(launch: &Launch, thread: &str) -> (r: Json)
    ensures
        r@ == turn_message(*launch, thread@),
{
    let (approval, _) = remote_policy(&launch.execution_profile);
    let mut input: Vec<Json> = Vec::new();
    input.push(
        Json::object().with("type", Json::of_text("text")).with(
            "text",
            Json::of_text(launch.prompt.as_str()),
        ),
    );
    let ghost only = input@[0]@;
    assert(input@.map_values(|item: Json| item@) =~= seq![only]);
    let params = Json::object().with("threadId", Json::of_text(thread)).with(
        "input",
        Json::of_items(input),
    ).with("cwd", Json::of_text(launch.cwd.as_str())).with("approvalPolicy", Json::of_text(approval)).with(
        "approvalsReviewer",
        Json::of_text("user"),
    ).with("sandboxPolicy", Json::object().with("type", Json::of_text("dangerFullAccess")));
    let params = add_text(params, "model", &launch.execution_profile.model);
    let params = add_text(params, "effort", &launch.execution_profile.reasoning_effort);
    Json::object().with("id", Json::of_text("ditch:turn")).with("method", Json::of_text("turn/start")).with(
        "params",
        params,
    )
}

/// The mathematical value of a value that may be missing.
pub open spec fn shown(value: Option<&Json>) -> Option<JsonView> {
    match value {
        Some(value) => Some(value@),
        None => None,
    }
}

/// The step that the start of a turn waits for.
#[derive(Clone, Copy, Debug, PartialEq, Eq, Structural)]
pub enum Startup {
    Initialize,
    Thread,
    Turn,
    Done,
}

/// The identifier of the request whose answer a step waits for.
pub open spec fn awaited(step: Startup) -> Option<Seq<char>> {
    match step {
        Startup::Initialize => Some(initialize_id()),
        Startup::Thread => Some(thread_id()),
        Startup::Turn => Some(turn_id()),
        Startup::Done => None,
    }
}

/// The step that follows.
pub open spec fn next_step(step: Startup) -> Startup {
    match step {
        Startup::Initialize => Startup::Thread,
        Startup::Thread => Startup::Turn,
        Startup::Turn => Startup::Done,
        Startup::Done => Startup::Done,
    }
}

/// What the start of a turn makes of a line: whether the line is handled, the
/// step that is waited for then, and whether the wait begins anew. An answer is
/// handled only where it is the one that is waited for.
pub open spec fn startup_step(step: Startup, line: Option<JsonView>) -> (bool, Startup, bool) {
    match line {
        None => (true, step, false),
        Some(value) => if value.member("method"@) is Some {
            (true, step, false)
        } else if value.text_at("id"@) is None || value.text_at("id"@) != awaited(step) {
            (false, step, false)
        } else if value.member("error"@) is Some {
            (true, step, false)
        } else {
            (true, next_step(step), true)
        },
    }
}

/// The identifier of the request whose answer a step waits for.
pub fn awaited_id(step: Startup) -> (r: Option<&'static str>)
    ensures
        match r {
            Some(id) => awaited(step) == Some(id@),
            None => awaited(step) is None,
        },
{
    match step {
        Startup::Initialize => Some("ditch:initialize"),
        Startup::Thread => Some("ditch:thread"),
        Startup::Turn => Some("ditch:turn"),
        Startup::Done => None,
    }
}

/// What the start of a turn makes of a line.
pub fn advance_startup(step: Startup, line: Option<&Json>) -> (r: (bool, Startup, bool))
    ensures
        r == startup_step(
            step,
            shown(line),
        ),
{
    let value = match line {
        Some(value) => value,
        None => {
            return (true, step, false);
        },
    };
    if value.get("method").is_some() {
        return (true, step, false);
    }
    let expected = match (value.text_at("id"), awaited_id(step)) {
        (Some(id), Some(wanted)) => same_text(id, wanted),
        _ => false,
    };
    if !expected {
        return (false, step, false);
    }
    if value.get("error").is_some() {
        return (true, step, false);
    }
    let next = match step {
        Startup::Initialize => Startup::Thread,
        Startup::Thread => Startup::Turn,
        Startup::Turn => Startup::Done,
        Startup::Done => Startup::Done,
    };
    (true, next, true)
}

/// What is told where a step has been waited for too long.
pub fn startup_timeout(step: Startup) -> (r: Option<Event>)
    ensures
        match awaited(step) {
            Some(id) => r matches Some(event) && event@ == EventView::Failed(
                "Codex App Server timed out waiting for "@ + id,
            ),
            None => r is None,
        },
{
    match awaited_id(step) {
        Some(id) => {
            let mut text = "Codex App Server timed out waiting for ".to_owned();
            text.append(id);
            Some(Event::Failed(text))
        },
        None => None,
    }
}

/// The error of an answer, where it has one.
pub open spec fn answer_error(value: JsonView) -> Option<Seq<char>> {
    match value.member("error"@) {
        None => None,
        Some(error) => Some(
            match error.text_at("message"@) {
                Some(message) => message,
                None => "Codex App Server request failed"@,
            },
        ),
    }
}

/// The error of an answer, where it has one.
pub fn rpc_error(value: &Json) -> (r: Option<String>)
    ensures
        text_of(r) == answer_error(value@),
{
    match value.get("error") {
        None => None,
        Some(error) => match error.text_at("message") {
            Some(message) => Some(message.to_owned()),
            None => Some("Codex App Server request failed".to_owned()),
        },
    }
}

/// The texts among some values.
pub open spec fn texts_among(items: Seq<JsonView>) -> Seq<Seq<char>>
    decreases items.len(),
{
    if items.len() == 0 {
        Seq::empty()
    } else {
        match items.last().text() {
            Some(text) => texts_among(items.drop_last()).push(text),
            None => texts_among(items.drop_last()),
        }
    }
}

/// A value as people read it: a text itself, the texts of an array with spaces
/// between them, and anything else as JSON.
pub open spec fn displayed(value: JsonView) -> Seq<char> {
    match value {
        JsonView::Text(text) => text,
        JsonView::Array(items) => glued(texts_among(items), " "@),
        other => rendered_json(other),
    }
}

/// A value as people read it.
pub fn display_json_text(value: &Json) -> (r: String)
    ensures
        r@ == displayed(value@),
{
    if let Some(text) = value.as_text() {
        return text.to_owned();
    }
    if let Some(items) = value.as_items() {
        let ghost views = items@.map_values(|item: Json| item@);
        let mut texts: Vec<String> = Vec::new();
        let mut i: usize = 0;
        proof {
            assert(views.take(0) =~= Seq::empty());
            assert(texts_of(texts@) =~= Seq::empty());
        }
        while i < items.len()
            invariant
                0 <= i <= items.len(),
                views == items@.map_values(|item: Json| item@),
                texts_of(texts@) == texts_among(views.take(i as int)),
            decreases items.len() - i,
        {
            let ghost before = texts_of(texts@);
            proof {
                assert(views.take(i + 1).drop_last() =~= views.take(i as int));
                assert(views.take(i + 1).last() == items@[i as int]@);
            }
            if let Some(text) = items[i].as_text() {
                texts.push(text.to_owned());
                assert(texts_of(texts@) =~= before.push(text@));
            }
            i += 1;
        }
        assert(views.take(items@.len() as int) =~= views);
        return glue_texts(&texts, " ");
    }
    write_json(value)
}

/// What a line of the app server leads to: what is told, what is written back in
/// order, what a failed write is told with, and the requests that are open then.
pub struct LineOutcome {
    pub events: Seq<EventView>,
    pub messages: Seq<JsonView>,
    pub write_failure: Option<Seq<char>>,
    pub pending: Seq<PendingView>,
}

/// What a line leads to where it leaves the open requests alone.
pub open spec fn tells(pending: Seq<PendingView>, events: Seq<EventView>) -> LineOutcome {
    LineOutcome { events, messages: Seq::empty(), write_failure: None, pending }
}

/// The parameters of a message.
pub open spec fn params_of(value: JsonView) -> JsonView {
    match value.member("params"@) {
        Some(params) => params,
        None => JsonView::Null,
    }
}

/// What an item that begins is shown as.
pub open spec fn item_action(kind: Option<Seq<char>>) -> Seq<char> {
    if kind == Some("commandExecution"@) {
        "Running a command"@
    } else if kind == Some("fileChange"@) {
        "Changing project files"@
    } else if kind == Some("agentMessage"@) {
        "Writing a response"@
    } else if kind == Some("webSearch"@) {
        "Searching the web"@
    } else {
        "Codex is working"@
    }
}

/// What an item that is completed leads to.
pub open spec fn completed_item(params: JsonView) -> Seq<EventView> {
    match params.member("item"@) {
        None => Seq::empty(),
        Some(item) => if item.text_at("type"@) == Some("agentMessage"@) {
            match item.text_at("text"@) {
                Some(text) => seq![EventView::AssistantMessage(trimmed(text))],
                None => Seq::empty(),
            }
        } else if item.text_at("type"@) == Some("commandExecution"@) {
            let command = match item.member("command"@) {
                Some(command) => displayed(command),
                None => Seq::empty(),
            };
            if trimmed(command).len() == 0 {
                Seq::empty()
            } else {
                seq![EventView::ToolMessage(command)]
            }
        } else {
            Seq::empty()
        },
    }
}

/// The first of some texts.
pub open spec fn either(first: Option<Seq<char>>, second: Option<Seq<char>>) -> Option<Seq<char>> {
    match first {
        Some(text) => Some(text),
        None => second,
    }
}

/// What a request for permission is about.
pub open spec fn approval_target(params: JsonView, command: Option<Seq<char>>) -> Seq<char> {
    match either(
        either(
            either(params.text_at2("networkApprovalContext"@, "host"@), params.text_at("grantRoot"@)),
            params.text_at("cwd"@),
        ),
        command,
    ) {
        Some(target) => target,
        None => "Remote project"@,
    }
}

/// What a request for permission says where it gives no reason.
pub open spec fn approval_summary(action: PermissionActionKind) -> Seq<char> {
    match action {
        PermissionActionKind::AnswerQuestion => "Codex needs your answer to continue"@,
        PermissionActionKind::AccessNetwork => "Codex requests network access on the SSH host"@,
        PermissionActionKind::EditFiles => "Codex requests permission to change remote files"@,
        PermissionActionKind::RunCommand => "Codex requests permission to run a remote command"@,
    }
}

/// Who asks, under which identifier and when.
#[derive(Clone, Copy, Debug)]
pub struct Asker {
    pub project_id: u128,
    pub agent_id: u128,
    pub request_id: u128,
    pub now: i64,
}

/// The request for permission that a message of the app server stands for.
pub open spec fn asked_permission(
    value: JsonView,
    asker: Asker,
    action: PermissionActionKind,
    kind: KindView,
) -> PermissionView {
    let params = params_of(value);
    let command = match params.member("command"@) {
        Some(command) => Some(displayed(command)),
        None => None,
    };
    let actual = if params.member("networkApprovalContext"@) is Some {
        PermissionActionKind::AccessNetwork
    } else {
        action
    };
    PermissionView {
        id: asker.request_id,
        project_id: asker.project_id,
        agent_id: Some(asker.agent_id),
        action: actual,
        summary: match params.text_at("reason"@) {
            Some(reason) => reason,
            None => approval_summary(actual),
        },
        target: approval_target(params, command),
        command,
        questions: match kind {
            KindView::Questions(list) => list,
            _ => Seq::empty(),
        },
        created_at: asker.now,
        expires_at: None,
    }
}

/// What a request of the app server for permission leads to. One that is open
/// already is not asked again.
pub open spec fn queued_approval(
    value: JsonView,
    pending: Seq<PendingView>,
    asker: Asker,
    action: PermissionActionKind,
    kind: KindView,
) -> LineOutcome {
    match value.member("id"@) {
        None => tells(
            pending,
            seq![
                EventView::Failed("Codex App Server sent an approval without a request id"@),
            ],
        ),
        Some(rpc_id) => if is_open(pending, rpc_id) {
            tells(pending, Seq::empty())
        } else {
            tells(
                without_id(pending, asker.request_id).push(
                    PendingView { id: asker.request_id, rpc_id, kind },
                ),
                seq![EventView::ApprovalRequested(asked_permission(value, asker, action, kind))],
            )
        },
    }
}

/// The offered answer that a value stands for.
pub open spec fn option_in(value: JsonView) -> Option<(Seq<char>, Seq<char>)> {
    match (value.text_at("label"@), value.text_at("description"@)) {
        (Some(label), Some(description)) => Some((label, description)),
        _ => None,
    }
}

/// The offered answers that a list stands for, where it stands for any.
pub open spec fn options_in(items: Seq<JsonView>) -> Option<Seq<(Seq<char>, Seq<char>)>>
    decreases items.len(),
{
    if items.len() == 0 {
        Some(Seq::empty())
    } else {
        match (options_in(items.drop_last()), option_in(items.last())) {
            (Some(before), Some(option)) => Some(before.push(option)),
            _ => None,
        }
    }
}

/// The question that a value stands for. Its options and whether it is secret
/// may be left out.
pub open spec fn question_in(value: JsonView) -> Option<QuestionView> {
    let options = match value.member("options"@) {
        None => Some(Seq::empty()),
        Some(JsonView::Null) => Some(Seq::empty()),
        Some(JsonView::Array(items)) => options_in(items),
        Some(_) => None,
    };
    let is_secret = match value.member("isSecret"@) {
        None => Some(false),
        Some(secret) => secret.truth(),
    };
    match (
        value.text_at("id"@),
        value.text_at("header"@),
        value.text_at("question"@),
        options,
        is_secret,
    ) {
        (Some(id), Some(header), Some(question), Some(options), Some(is_secret)) => Some(
            QuestionView { id, header, question, is_secret, options },
        ),
        _ => None,
    }
}

/// The questions that a list stands for.
pub open spec fn questions_in(items: Seq<JsonView>) -> Option<Seq<QuestionView>>
    decreases items.len(),
{
    if items.len() == 0 {
        Some(Seq::empty())
    } else {
        match (questions_in(items.drop_last()), question_in(items.last())) {
            (Some(before), Some(question)) => Some(before.push(question)),
            _ => None,
        }
    }
}

/// The questions of a request for answers: one to three.
pub open spec fn asked_questions(params: JsonView) -> Option<Seq<QuestionView>> {
    match params.member("questions"@) {
        Some(JsonView::Array(items)) => match questions_in(items) {
            Some(list) => if 1 <= list.len() <= 3 {
                Some(list)
            } else {
                None
            },
            None => None,
        },
        _ => None,
    }
}

/// A refusal of a request of the app server.
pub open spec fn refusal(id: JsonView, code: i64, message: Seq<char>) -> JsonView {
    no_members().with("id"@, id).with(
        "error"@,
        no_members().with("code"@, JsonView::Number(NumberView::Negative(code))).with(
            "message"@,
            JsonView::Text(message),
        ),
    )
}

/// The permissions that a request asks for.
pub open spec fn requested_permissions(params: JsonView) -> JsonView {
    match params.member("permissions"@) {
        Some(value) => value,
        None => no_members(),
    }
}

/// What a request for permissions asks for.
pub open spec fn permissions_action(requested: JsonView) -> PermissionActionKind {
    match requested.member2("network"@, "enabled"@) {
        Some(JsonView::Bool(true)) => PermissionActionKind::AccessNetwork,
        _ => PermissionActionKind::EditFiles,
    }
}

/// The text of the member of a member of a member.
pub open spec fn text_at3(value: JsonView, a: Seq<char>, b: Seq<char>, c: Seq<char>) -> Option<Seq<char>> {
    match value.member2(a, b) {
        Some(inner) => inner.text_at(c),
        None => None,
    }
}

/// What an answer of the app server to one of the requests that start a turn
/// leads to.
pub open spec fn answered(
    value: JsonView,
    launch: Launch,
    thread_request: Option<JsonView>,
    pending: Seq<PendingView>,
) -> LineOutcome {
    let error = answer_error(value);
    if value.text_at("id"@) == Some(initialize_id()) {
        match (error, thread_request) {
            (Some(error), _) => tells(pending, seq![EventView::Failed(error)]),
            (None, None) => tells(pending, Seq::empty()),
            (None, Some(request)) => LineOutcome {
                events: Seq::empty(),
                messages: seq![
                    no_members().with("method"@, JsonView::Text("initialized"@)).with(
                        "params"@,
                        no_members(),
                    ),
                    request,
                ],
                write_failure: Some("Failed to initialize Codex: "@),
                pending,
            },
        }
    } else if value.text_at("id"@) == Some(thread_id()) {
        match error {
            Some(error) => tells(pending, seq![EventView::Failed(error)]),
            None => match text_at3(value, "result"@, "thread"@, "id"@) {
                None => tells(
                    pending,
                    seq![EventView::Failed("Codex App Server did not return a thread id"@)],
                ),
                Some(thread) => LineOutcome {
                    events: seq![EventView::ThreadReady(thread)],
                    messages: seq![turn_message(launch, thread)],
                    write_failure: Some("Failed to start Codex App Server turn: "@),
                    pending,
                },
            },
        }
    } else if value.text_at("id"@) == Some(turn_id()) {
        match error {
            Some(error) => tells(pending, seq![EventView::Failed(error)]),
            None => tells(pending, Seq::empty()),
        }
    } else {
        tells(pending, Seq::empty())
    }
}

/// What an error of the app server leads to: one that it retries is shown, any
/// other ends the turn.
pub open spec fn reported_error(params: JsonView) -> Seq<EventView> {
    match params.text_at2("error"@, "message"@) {
        None => Seq::empty(),
        Some(message) => if params.member("willRetry"@) == Some(JsonView::Bool(true)) {
            seq![EventView::Action("Codex reconnecting: "@ + message)]
        } else {
            seq![EventView::Failed(message)]
        },
    }
}

/// The text of a warning of the app server.
pub open spec fn warning_text(params: JsonView) -> Seq<char> {
    let source = match params.member("message"@) {
        Some(value) => Some(value),
        None => params.member("summary"@),
    };
    match source {
        Some(JsonView::Text(text)) => text,
        _ => "Codex App Server warning"@,
    }
}

/// The events that tell of resolved requests.
pub open spec fn resolved_events(ids: Seq<u128>) -> Seq<EventView> {
    ids.map_values(|id: u128| EventView::PermissionResolved(id))
}

/// What a request or notice of the app server leads to.
pub open spec fn notified(
    method: Seq<char>,
    value: JsonView,
    pending: Seq<PendingView>,
    asker: Asker,
) -> LineOutcome {
    let params = params_of(value);
    if method == "serverRequest/resolved"@ {
        match params.member("requestId"@) {
            None => tells(pending, Seq::empty()),
            Some(rpc_id) => tells(
                without_rpc(pending, rpc_id).0,
                resolved_events(without_rpc(pending, rpc_id).1),
            ),
        }
    } else if method == "turn/started"@ {
        tells(pending, seq![EventView::TurnStarted])
    } else if method == "item/started"@ {
        tells(pending, seq![EventView::Action(item_action(params.text_at2("item"@, "type"@)))])
    } else if method == "item/completed"@ {
        tells(pending, completed_item(params))
    } else if method == "item/commandExecution/requestApproval"@ {
        queued_approval(value, pending, asker, PermissionActionKind::RunCommand, KindView::Decision)
    } else if method == "item/fileChange/requestApproval"@ {
        queued_approval(value, pending, asker, PermissionActionKind::EditFiles, KindView::Decision)
    } else if method == "item/tool/requestUserInput"@ || method == "tool/requestUserInput"@ {
        match asked_questions(params) {
            Some(list) => queued_approval(
                value,
                pending,
                asker,
                PermissionActionKind::AnswerQuestion,
                KindView::Questions(list),
            ),
            None => LineOutcome {
                events: Seq::empty(),
                messages: seq![
                    refusal(
                        match value.member("id"@) {
                            Some(id) => id,
                            None => JsonView::Null,
                        },
                        -32602i64,
                        "Invalid questions"@,
                    ),
                ],
                write_failure: None,
                pending,
            },
        }
    } else if method == "item/permissions/requestApproval"@ {
        queued_approval(
            value,
            pending,
            asker,
            permissions_action(requested_permissions(params)),
            KindView::Permissions(requested_permissions(params)),
        )
    } else if method == "turn/completed"@ {
        tells(
            pending,
            seq![
                EventView::TurnCompleted {
                    status: match params.text_at2("turn"@, "status"@) {
                        Some(status) => status,
                        None => "failed"@,
                    },
                    error: text_at3(params, "turn"@, "error"@, "message"@),
                },
            ],
        )
    } else if method == "error"@ {
        tells(pending, reported_error(params))
    } else if method == "warning"@ || method == "configWarning"@ {
        tells(pending, seq![EventView::Diagnostic(warning_text(params))])
    } else {
        match value.member("id"@) {
            None => tells(pending, Seq::empty()),
            Some(id) => LineOutcome {
                events: seq![
                    EventView::ToolMessage("Unsupported Codex request was rejected: "@ + method),
                ],
                messages: seq![refusal(id, -32601i64, "Ditch does not support "@ + method)],
                write_failure: None,
                pending,
            },
        }
    }
}

/// What a line of the app server leads to.
pub open spec fn line_outcome(
    line: Seq<char>,
    value: Option<JsonView>,
    launch: Launch,
    thread_request: Option<JsonView>,
    pending: Seq<PendingView>,
    asker: Asker,
) -> LineOutcome {
    match value {
        None => if trimmed(line).len() == 0 {
            tells(pending, Seq::empty())
        } else {
            tells(pending, seq![EventView::Diagnostic(trimmed(line))])
        },
        Some(value) => match value.member("method"@) {
            None => answered(value, launch, thread_request, pending),
            Some(method) => match method.text() {
                None => tells(pending, Seq::empty()),
                Some(method) => notified(method, value, pending, asker),
            },
        },
    }
}

/// What a line of the app server leads to, but for the open requests.
#[derive(Debug)]
pub struct LineEffect {
    pub events: Vec<Event>,
    pub messages: Vec<Json>,
    pub write_failure: Option<&'static str>,
}

/// Whether an effect and the open requests are the outcome of a line.
pub open spec fn is_outcome(effect: LineEffect, pending: Seq<PendingView>, outcome: LineOutcome) -> bool {
    &&& effect.events@.map_values(|event: Event| event@) == outcome.events
    &&& effect.messages@.map_values(|message: Json| message@) == outcome.messages
    &&& match effect.write_failure {
        Some(text) => outcome.write_failure == Some(text@),
        None => outcome.write_failure is None,
    }
    &&& pending == outcome.pending
}

/// The effect that tells one thing.
fn telling(event: Event) -> (r: LineEffect)
    ensures
        forall|pending: Seq<PendingView>| #[trigger]
            is_outcome(r, pending, tells(pending, seq![event@])),
{
    let mut events: Vec<Event> = Vec::new();
    events.push(event);
    let r = LineEffect { events, messages: Vec::new(), write_failure: None };
    assert(r.events@.map_values(|event: Event| event@) =~= seq![event@]);
    assert(r.messages@.map_values(|message: Json| message@) =~= Seq::empty());
    r
}

/// The effect that tells nothing.
fn silence() -> (r: LineEffect)
    ensures
        forall|pending: Seq<PendingView>| #[trigger]
            is_outcome(r, pending, tells(pending, Seq::empty())),
{
    let r = LineEffect { events: Vec::new(), messages: Vec::new(), write_failure: None };
    assert(r.events@.map_values(|event: Event| event@) =~= Seq::empty());
    assert(r.messages@.map_values(|message: Json| message@) =~= Seq::empty());
    r
}

/// Whether a value is the given text.
fn text_is(value: Option<&str>, text: &str) -> (r: bool)
    ensures
        r == (value is Some && value->0@ == text@),
{
    match value {
        Some(value) => same_text(value, text),
        None => false,
    }
}

/// The parameters of a message.
fn read_params(value: &Json) -> (r: Json)
    ensures
        r@ == params_of(value@),
{
    match value.get("params") {
        Some(params) => params.copy(),
        None => Json::Null,
    }
}

/// The effect of an item that is completed.
pub fn handle_completed_item(params: &Json) -> (r: LineEffect)
    ensures
        forall|pending: Seq<PendingView>| #[trigger]
            is_outcome(r, pending, tells(pending, completed_item(params@))),
{
    let item = match params.get("item") {
        Some(item) => item,
        None => {
            return silence();
        },
    };
    let kind = item.text_at("type");
    if text_is(kind, "agentMessage") {
        return match item.text_at("text") {
            Some(text) => telling(Event::AssistantMessage(trim(text))),
            None => silence(),
        };
    }
    if text_is(kind, "commandExecution") {
        let command = match item.get("command") {
            Some(command) => display_json_text(command),
            None => String::new(),
        };
        if trim(command.as_str()).as_str().is_empty() {
            return silence();
        }
        return telling(Event::ToolMessage(command));
    }
    silence()
}

impl ActiveTurn {
    /// No request is open.
    pub fn new() -> (r: ActiveTurn)
        ensures
            r@ == Seq::<PendingView>::empty(),
    {
        let r = ActiveTurn { pending: Vec::new() };
        assert(r@ =~= Seq::<PendingView>::empty());
        r
    }

    /// The place of the first open request with an identifier.
    fn find(&self, id: u128) -> (r: Option<usize>)
        ensures
            match r {
                Some(i) => i < self.pending.len() && pending_at(self@, id) == Some(
                    self.pending@[i as int]@,
                ),
                None => pending_at(self@, id) is None,
            },
    {
        let ghost views = self@;
        let mut i: usize = 0;
        assert(views.skip(0) =~= views);
        while i < self.pending.len()
            invariant
                0 <= i <= self.pending.len(),
                views == self@,
                pending_at(views, id) == pending_at(views.skip(i as int), id),
            decreases self.pending.len() - i,
        {
            assert(views.skip(i as int)[0] == self.pending@[i as int]@);
            if self.pending[i].id == id {
                return Some(i);
            }
            assert(views.skip(i as int).skip(1) =~= views.skip(i + 1));
            i += 1;
        }
        None
    }

    /// Takes away the open requests with an identifier.
    fn take_away(&mut self, id: u128)
        ensures
            final(self)@ == without_id(old(self)@, id),
    {
        let ghost before = self@;
        let ghost all = self.pending@;
        let mut i: usize = 0;
        let ghost mut place: int = 0;
        assert(before.take(0) =~= Seq::empty());
        assert(all.skip(0) =~= all);
        assert(self@.take(0) =~= Seq::empty());
        while i < self.pending.len()
            invariant
                0 <= i <= self.pending.len(),
                0 <= place <= all.len(),
                before == all.map_values(|entry: PendingApproval| entry@),
                self.pending@.len() - i == all.len() - place,
                self.pending@.skip(i as int) == all.skip(place),
                self@.take(i as int) == without_id(before.take(place), id),
            decreases self.pending.len() - i,
        {
            let ghost now = self.pending@;
            let ghost kept = self@.take(i as int);
            proof {
                assert(now.skip(i as int)[0] == now[i as int]);
                assert(all.skip(place)[0] == all[place]);
                assert(before.take(place + 1).drop_last() =~= before.take(place));
                assert(before.take(place + 1).last() == all[place]@);
                assert(all.skip(place).skip(1) =~= all.skip(place + 1));
                assert(now.skip(i as int).skip(1) =~= now.skip(i + 1));
            }
            if self.pending[i].id == id {
                self.pending.remove(i);
                proof {
                    assert(self.pending@.skip(i as int) =~= now.skip(i + 1));
                    assert(self@.take(i as int) =~= kept);
                }
            } else {
                i += 1;
                assert(self@.take(i as int) =~= kept.push(all[place]@));
            }
            proof {
                place = place + 1;
            }
        }
        proof {
            assert(self@.take(self.pending@.len() as int) =~= self@);
            assert(before.take(all.len() as int) =~= before);
        }
    }

    /// Takes away the open requests for a server request, and tells which.
    fn resolve(&mut self, rpc_id: &Json) -> (r: Vec<u128>)
        ensures
            final(self)@ == without_rpc(old(self)@, rpc_id@).0,
            r@ == without_rpc(old(self)@, rpc_id@).1,
    {
        let ghost before = self@;
        let ghost all = self.pending@;
        let mut gone: Vec<u128> = Vec::new();
        let mut i: usize = 0;
        let ghost mut place: int = 0;
        assert(before.take(0) =~= Seq::empty());
        assert(all.skip(0) =~= all);
        assert(self@.take(0) =~= Seq::empty());
        while i < self.pending.len()
            invariant
                0 <= i <= self.pending.len(),
                0 <= place <= all.len(),
                before == all.map_values(|entry: PendingApproval| entry@),
                self.pending@.len() - i == all.len() - place,
                self.pending@.skip(i as int) == all.skip(place),
                self@.take(i as int) == without_rpc(before.take(place), rpc_id@).0,
                gone@ == without_rpc(before.take(place), rpc_id@).1,
            decreases self.pending.len() - i,
        {
            let ghost now = self.pending@;
            let ghost kept = self@.take(i as int);
            proof {
                assert(now.skip(i as int)[0] == now[i as int]);
                assert(all.skip(place)[0] == all[place]);
                assert(before.take(place + 1).drop_last() =~= before.take(place));
                assert(before.take(place + 1).last() == all[place]@);
                assert(all.skip(place).skip(1) =~= all.skip(place + 1));
                assert(now.skip(i as int).skip(1) =~= now.skip(i + 1));
            }
            if self.pending[i].rpc_id.same(rpc_id) {
                gone.push(self.pending[i].id);
                self.pending.remove(i);
                proof {
                    assert(self.pending@.skip(i as int) =~= now.skip(i + 1));
                    assert(self@.take(i as int) =~= kept);
                }
            } else {
                i += 1;
                assert(self@.take(i as int) =~= kept.push(all[place]@));
            }
            proof {
                place = place + 1;
            }
        }
        proof {
            assert(self@.take(self.pending@.len() as int) =~= self@);
            assert(before.take(all.len() as int) =~= before);
            assert(self.pending@.skip(i as int).len() == 0);
            assert(all.skip(place).len() == 0);
        }
        gone
    }

    /// Whether a request of the server is open.
    fn asks(&self, rpc_id: &Json) -> (r: bool)
        ensures
            r == is_open(self@, rpc_id@),
    {
        let ghost views = self@;
        let mut i: usize = 0;
        while i < self.pending.len()
            invariant
                0 <= i <= self.pending.len(),
                views == self@,
                forall|k: int| 0 <= k < i ==> !same_value((#[trigger] views[k]).rpc_id, rpc_id@),
            decreases self.pending.len() - i,
        {
            assert(views[i as int] == self.pending@[i as int]@);
            if self.pending[i].rpc_id.same(rpc_id) {
                assert(same_value(views[i as int].rpc_id, rpc_id@));
                return true;
            }
            i += 1;
        }
        false
    }

    /// Opens a request for permission.
    pub fn queue_approval(
        &mut self,
        value: &Json,
        asker: Asker,
        action: PermissionActionKind,
        kind: ApprovalKind,
    ) -> (r: LineEffect)
        ensures
            is_outcome(r, final(self)@, queued_approval(value@, old(self)@, asker, action, kind@)),
    {
        let rpc_id = match value.get("id") {
            Some(id) => id.copy(),
            None => {
                return telling(
                    Event::Failed("Codex App Server sent an approval without a request id".to_owned()),
                );
            },
        };
        if self.asks(&rpc_id) {
            return silence();
        }
        let params = read_params(value);
        let command = match params.get("command") {
            Some(command) => Some(display_json_text(command)),
            None => None,
        };
        let action = if params.get("networkApprovalContext").is_some() {
            PermissionActionKind::AccessNetwork
        } else {
            action
        };
        let target = if let Some(host) = params.text_at2("networkApprovalContext", "host") {
            host.to_owned()
        } else if let Some(root) = params.text_at("grantRoot") {
            root.to_owned()
        } else if let Some(cwd) = params.text_at("cwd") {
            cwd.to_owned()
        } else if let Some(command) = &command {
            command.clone()
        } else {
            "Remote project".to_owned()
        };
        let summary = match params.text_at("reason") {
            Some(reason) => reason.to_owned(),
            None => match action {
                PermissionActionKind::AnswerQuestion => "Codex needs your answer to continue".to_owned(),
                PermissionActionKind::AccessNetwork => {
                    "Codex requests network access on the SSH host".to_owned()
                },
                PermissionActionKind::EditFiles => {
                    "Codex requests permission to change remote files".to_owned()
                },
                PermissionActionKind::RunCommand => {
                    "Codex requests permission to run a remote command".to_owned()
                },
            },
        };
        let questions = match &kind {
            ApprovalKind::Questions(list) => copy_questions(list),
            _ => Vec::new(),
        };
        proof {
            if !(kind is Questions) {
                assert(questions_view(questions@) =~= Seq::empty());
            }
        }
        self.take_away(asker.request_id);
        let ghost kept = self@;
        self.pending.push(PendingApproval { id: asker.request_id, rpc_id, kind });
        assert(self@ =~= kept.push(
            PendingView { id: asker.request_id, rpc_id: rpc_id@, kind: kind@ },
        ));
        telling(
            Event::ApprovalRequested(
                PermissionRequest {
                    id: asker.request_id,
                    project_id: asker.project_id,
                    agent_id: Some(asker.agent_id),
                    action,
                    summary,
                    target,
                    command,
                    questions,
                    created_at: asker.now,
                    expires_at: None,
                },
            ),
        )
    }
}

/// The offered answers that a list stands for.
fn read_options(items: &Vec<Json>) -> (r: Option<Vec<QuestionOption>>)
    ensures
        match r {
            Some(list) => options_in(items@.map_values(|item: Json| item@)) == Some(
                list@.map_values(|o: QuestionOption| (o.label@, o.description@)),
            ),
            None => options_in(items@.map_values(|item: Json| item@)) is None,
        },
{
    let ghost views = items@.map_values(|item: Json| item@);
    let mut list: Vec<QuestionOption> = Vec::new();
    let mut i: usize = 0;
    proof {
        assert(views.take(0) =~= Seq::empty());
        assert(list@.map_values(|o: QuestionOption| (o.label@, o.description@)) =~= Seq::empty());
    }
    while i < items.len()
        invariant
            0 <= i <= items.len(),
            views == items@.map_values(|item: Json| item@),
            options_in(views.take(i as int)) == Some(
                list@.map_values(|o: QuestionOption| (o.label@, o.description@)),
            ),
        decreases items.len() - i,
    {
        let ghost before = list@.map_values(|o: QuestionOption| (o.label@, o.description@));
        proof {
            assert(views.take(i + 1).drop_last() =~= views.take(i as int));
            assert(views.take(i + 1).last() == items@[i as int]@);
        }
        match (items[i].text_at("label"), items[i].text_at("description")) {
            (Some(label), Some(description)) => {
                list.push(
                    QuestionOption { label: label.to_owned(), description: description.to_owned() },
                );
                assert(list@.map_values(|o: QuestionOption| (o.label@, o.description@)) =~= before.push(
                    (label@, description@),
                ));
            },
            _ => {
                proof {
                    lemma_options_fail(views, i + 1);
                }
                return None;
            },
        }
        i += 1;
    }
    assert(views.take(items@.len() as int) =~= views);
    Some(list)
}

proof fn lemma_options_fail(items: Seq<JsonView>, at: int)
    requires
        0 <= at <= items.len(),
        options_in(items.take(at)) is None,
    ensures
        options_in(items) is None,
    decreases items.len() - at,
{
    if at == items.len() {
        assert(items.take(at) =~= items);
    } else {
        assert(items.take(at + 1).drop_last() =~= items.take(at));
        lemma_options_fail(items, at + 1);
    }
}

proof fn lemma_questions_fail(items: Seq<JsonView>, at: int)
    requires
        0 <= at <= items.len(),
        questions_in(items.take(at)) is None,
    ensures
        questions_in(items) is None,
    decreases items.len() - at,
{
    if at == items.len() {
        assert(items.take(at) =~= items);
    } else {
        assert(items.take(at + 1).drop_last() =~= items.take(at));
        lemma_questions_fail(items, at + 1);
    }
}

proof fn lemma_questions_count(items: Seq<JsonView>)
    ensures
        questions_in(items) is Some ==> questions_in(items)->0.len() == items.len(),
    decreases items.len(),
{
    if items.len() > 0 {
        lemma_questions_count(items.drop_last());
    }
}

/// The question that a value stands for.
fn read_question(value: &Json) -> (r: Option<AgentQuestion>)
    ensures
        match r {
            Some(question) => question_in(value@) == Some(question@),
            None => question_in(value@) is None,
        },
{
    let options: Option<Vec<QuestionOption>> = match value.get("options") {
        None => Some(Vec::new()),
        Some(Json::Null) => Some(Vec::new()),
        Some(other) => match other.as_items() {
            Some(items) => read_options(items),
            None => None,
        },
    };
    let is_secret = match value.get("isSecret") {
        None => Some(false),
        Some(secret) => secret.as_bool(),
    };
    proof {
        if options is Some && options->0@.len() == 0 {
            assert(options->0@.map_values(|o: QuestionOption| (o.label@, o.description@)) =~= Seq::empty());
        }
    }
    match (value.text_at("id"), value.text_at("header"), value.text_at("question"), options, is_secret) {
        (Some(id), Some(header), Some(question), Some(options), Some(is_secret)) => Some(
            AgentQuestion {
                id: id.to_owned(),
                header: header.to_owned(),
                question: question.to_owned(),
                is_secret,
                options,
            },
        ),
        _ => None,
    }
}

/// The questions of a request for answers: one to three.
pub fn read_questions(params: &Json) -> (r: Option<Vec<AgentQuestion>>)
    ensures
        match r {
            Some(list) => asked_questions(params@) == Some(questions_view(list@)),
            None => asked_questions(params@) is None,
        },
{
    let items = match params.get("questions") {
        Some(value) => match value.as_items() {
            Some(items) => items,
            None => {
                return None;
            },
        },
        None => {
            return None;
        },
    };
    let ghost views = items@.map_values(|item: Json| item@);
    proof {
        lemma_questions_count(views);
    }
    if items.len() == 0 || items.len() > 3 {
        return None;
    }
    let mut list: Vec<AgentQuestion> = Vec::new();
    let mut i: usize = 0;
    proof {
        assert(views.take(0) =~= Seq::empty());
        assert(questions_view(list@) =~= Seq::empty());
    }
    while i < items.len()
        invariant
            0 <= i <= items.len(),
            views == items@.map_values(|item: Json| item@),
            params@.member("questions"@) == Some(JsonView::Array(views)),
            questions_in(views.take(i as int)) == Some(questions_view(list@)),
        decreases items.len() - i,
    {
        let ghost before = questions_view(list@);
        proof {
            assert(views.take(i + 1).drop_last() =~= views.take(i as int));
            assert(views.take(i + 1).last() == items@[i as int]@);
        }
        match read_question(&items[i]) {
            Some(question) => {
                list.push(question);
                assert(questions_view(list@) =~= before.push(question@));
            },
            None => {
                proof {
                    lemma_questions_fail(views, i + 1);
                }
                return None;
            },
        }
        i += 1;
    }
    assert(views.take(items@.len() as int) =~= views);
    Some(list)
}

/// A refusal of a request of the app server.
fn refuse(id: Json, code: i64, message: &str) -> (r: Json)
    ensures
        r@ == refusal(id@, code, message@),
{
    Json::object().with("id", id).with(
        "error",
        Json::object().with("code", Json::Number(JsonNumber::Negative(code))).with(
            "message",
            Json::of_text(message),
        ),
    )
}

/// The effect that writes one message.
fn writing(message: Json, write_failure: Option<&'static str>) -> (r: LineEffect)
    ensures
        r.events@.map_values(|event: Event| event@) == Seq::<EventView>::empty(),
        r.messages@ == seq![message],
        r.messages@.map_values(|message: Json| message@) == seq![message@],
        r.write_failure == write_failure,
{
    let mut messages: Vec<Json> = Vec::new();
    messages.push(message);
    let r = LineEffect { events: Vec::new(), messages, write_failure };
    assert(r.events@.map_values(|event: Event| event@) =~= Seq::<EventView>::empty());
    assert(r.messages@.map_values(|message: Json| message@) =~= seq![message@]);
    r
}

/// The effect of an answer to one of the requests that start a turn.
fn handle_answer(value: &Json, launch: &Launch, thread_request: Option<&Json>) -> (r: LineEffect)
    ensures
        forall|pending: Seq<PendingView>| #[trigger]
            is_outcome(
                r,
                pending,
                answered(
                    value@,
                    *launch,
                    shown(thread_request),
                    pending,
                ),
            ),
{
    let id = value.text_at("id");
    if text_is(id, "ditch:initialize") {
        if let Some(error) = rpc_error(value) {
            return telling(Event::Failed(error));
        }
        return match thread_request {
            None => silence(),
            Some(request) => {
                let mut effect = writing(
                    Json::object().with("method", Json::of_text("initialized")).with(
                        "params",
                        Json::object(),
                    ),
                    Some("Failed to initialize Codex: "),
                );
                let ghost first = effect.messages@[0]@;
                effect.messages.push(request.copy());
                assert(effect.messages@.map_values(|message: Json| message@) =~= seq![first, request@]);
                effect
            },
        };
    }
    if text_is(id, "ditch:thread") {
        if let Some(error) = rpc_error(value) {
            return telling(Event::Failed(error));
        }
        let thread = match value.get2("result", "thread") {
            Some(inner) => inner.text_at("id"),
            None => None,
        };
        return match thread {
            None => telling(
                Event::Failed("Codex App Server did not return a thread id".to_owned()),
            ),
            Some(thread) => {
                let mut effect = writing(
                    turn_request(launch, thread),
                    Some("Failed to start Codex App Server turn: "),
                );
                effect.events.push(Event::ThreadReady(thread.to_owned()));
                assert(effect.events@.map_values(|event: Event| event@) =~= seq![
                    EventView::ThreadReady(thread@),
                ]);
                effect
            },
        };
    }
    if text_is(id, "ditch:turn") {
        if let Some(error) = rpc_error(value) {
            return telling(Event::Failed(error));
        }
    }
    silence()
}

/// The effect of an error of the app server.
fn handle_error(params: &Json) -> (r: LineEffect)
    ensures
        forall|pending: Seq<PendingView>| #[trigger]
            is_outcome(r, pending, tells(pending, reported_error(params@))),
{
    match params.text_at2("error", "message") {
        None => silence(),
        Some(message) => {
            let retried = match params.get("willRetry") {
                Some(value) => match value.as_bool() {
                    Some(b) => b,
                    None => false,
                },
                None => false,
            };
            if retried {
                let mut text = "Codex reconnecting: ".to_owned();
                text.append(message);
                telling(Event::Action(text))
            } else {
                telling(Event::Failed(message.to_owned()))
            }
        },
    }
}

impl ActiveTurn {
    /// The effect of a request or notice of the app server.
    fn handle_notice(&mut self, method: &str, value: &Json, asker: Asker) -> (r: LineEffect)
        ensures
            is_outcome(r, final(self)@, notified(method@, value@, old(self)@, asker)),
    {
        let params = read_params(value);
        if same_text(method, "serverRequest/resolved") {
            let rpc_id = match params.get("requestId") {
                Some(id) => id,
                None => {
                    return silence();
                },
            };
            let gone = self.resolve(rpc_id);
            let mut events: Vec<Event> = Vec::new();
            let mut i: usize = 0;
            while i < gone.len()
                invariant
                    0 <= i <= gone.len(),
                    events.len() == i,
                    forall|k: int|
                        0 <= k < i ==> (#[trigger] events@[k])@ == EventView::PermissionResolved(gone@[k]),
                decreases gone.len() - i,
            {
                events.push(Event::PermissionResolved(gone[i]));
                i += 1;
            }
            let effect = LineEffect { events, messages: Vec::new(), write_failure: None };
            assert(effect.events@.map_values(|event: Event| event@) =~= resolved_events(gone@));
            assert(effect.messages@.map_values(|message: Json| message@) =~= Seq::empty());
            return effect;
        }
        if same_text(method, "turn/started") {
            return telling(Event::TurnStarted);
        }
        if same_text(method, "item/started") {
            let kind = params.text_at2("item", "type");
            let action = if text_is(kind, "commandExecution") {
                "Running a command"
            } else if text_is(kind, "fileChange") {
                "Changing project files"
            } else if text_is(kind, "agentMessage") {
                "Writing a response"
            } else if text_is(kind, "webSearch") {
                "Searching the web"
            } else {
                "Codex is working"
            };
            return telling(Event::Action(action.to_owned()));
        }
        if same_text(method, "item/completed") {
            return handle_completed_item(&params);
        }
        if same_text(method, "item/commandExecution/requestApproval") {
            return self.queue_approval(
                value,
                asker,
                PermissionActionKind::RunCommand,
                ApprovalKind::Decision,
            );
        }
        if same_text(method, "item/fileChange/requestApproval") {
            return self.queue_approval(
                value,
                asker,
                PermissionActionKind::EditFiles,
                ApprovalKind::Decision,
            );
        }
        if same_text(method, "item/tool/requestUserInput") || same_text(method, "tool/requestUserInput") {
            return match read_questions(&params) {
                Some(list) => self.queue_approval(
                    value,
                    asker,
                    PermissionActionKind::AnswerQuestion,
                    ApprovalKind::Questions(list),
                ),
                None => {
                    let id = match value.get("id") {
                        Some(id) => id.copy(),
                        None => Json::Null,
                    };
                    writing(refuse(id, -32602, "Invalid questions"), None)
                },
            };
        }
        if same_text(method, "item/permissions/requestApproval") {
            let requested = match params.get("permissions") {
                Some(value) => value.copy(),
                None => Json::object(),
            };
            let network = match requested.get2("network", "enabled") {
                Some(value) => match value.as_bool() {
                    Some(b) => b,
                    None => false,
                },
                None => false,
            };
            let action = if network {
                PermissionActionKind::AccessNetwork
            } else {
                PermissionActionKind::EditFiles
            };
            return self.queue_approval(value, asker, action, ApprovalKind::Permissions(requested));
        }
        if same_text(method, "turn/completed") {
            let status = match params.text_at2("turn", "status") {
                Some(status) => status.to_owned(),
                None => "failed".to_owned(),
            };
            let error = match params.get2("turn", "error") {
                Some(inner) => match inner.text_at("message") {
                    Some(message) => Some(message.to_owned()),
                    None => None,
                },
                None => None,
            };
            return telling(Event::TurnCompleted { status, error });
        }
        if same_text(method, "error") {
            return handle_error(&params);
        }
        if same_text(method, "warning") || same_text(method, "configWarning") {
            let source = match params.get("message") {
                Some(value) => Some(value),
                None => params.get("summary"),
            };
            let text = match source {
                Some(value) => match value.as_text() {
                    Some(text) => text.to_owned(),
                    None => "Codex App Server warning".to_owned(),
                },
                None => "Codex App Server warning".to_owned(),
            };
            return telling(Event::Diagnostic(text));
        }
        match value.get("id") {
            None => silence(),
            Some(id) => {
                let mut message = "Ditch does not support ".to_owned();
                message.append(method);
                let mut effect = writing(refuse(id.copy(), -32601, message.as_str()), None);
                let mut told = "Unsupported Codex request was rejected: ".to_owned();
                told.append(method);
                effect.events.push(Event::ToolMessage(told));
                assert(effect.events@.map_values(|event: Event| event@) =~= seq![
                    EventView::ToolMessage("Unsupported Codex request was rejected: "@ + method@),
                ]);
                effect
            },
        }
    }

    /// The effect of a line whose JSON value has been read.
    pub fn handle_value(
        &mut self,
        line: &str,
        value: Option<&Json>,
        launch: &Launch,
        thread_request: Option<&Json>,
        asker: Asker,
    ) -> (r: LineEffect)
        ensures
            is_outcome(
                r,
                final(self)@,
                line_outcome(
                    line@,
                    shown(value),
                    *launch,
                    shown(thread_request),
                    old(self)@,
                    asker,
                ),
            ),
    {
        let value = match value {
            Some(value) => value,
            None => {
                let text = trim(line);
                if text.as_str().is_empty() {
                    return silence();
                }
                return telling(Event::Diagnostic(text));
            },
        };
        match value.get("method") {
            None => handle_answer(value, launch, thread_request),
            Some(method) => match method.as_text() {
                None => silence(),
                Some(method) => self.handle_notice(method, value, asker),
            },
        }
    }

    /// The effect of a line of the app server.
    pub fn handle_line(
        &mut self,
        line: &str,
        launch: &Launch,
        thread_request: Option<&Json>,
        asker: Asker,
    ) -> (r: LineEffect)
        ensures
            is_outcome(
                r,
                final(self)@,
                line_outcome(
                    line@,
                    parsed_json(line@),
                    *launch,
                    shown(thread_request),
                    old(self)@,
                    asker,
                ),
            ),
    {
        match read_json(line) {
            Some(value) => self.handle_value(line, Some(&value), launch, thread_request, asker),
            None => self.handle_value(line, None, launch, thread_request, asker),
        }
    }
}

/// The result that a decision is answered with.
pub open spec fn decision_result(kind: KindView, decision: PermissionDecision) -> JsonView {
    match kind {
        KindView::Permissions(requested) => no_members().with(
            "permissions"@,
            if decision == PermissionDecision::Deny {
                no_members()
            } else {
                requested
            },
        ).with(
            "scope"@,
            JsonView::Text(
                if decision == PermissionDecision::ApproveForSession {
                    "session"@
                } else {
                    "turn"@
                },
            ),
        ),
        _ => no_members().with(
            "decision"@,
            JsonView::Text(
                match decision {
                    PermissionDecision::ApproveOnce => "accept"@,
                    PermissionDecision::ApproveForSession => "acceptForSession"@,
                    PermissionDecision::Deny => "decline"@,
                },
            ),
        ),
    }
}

/// An answer to a request of the app server.
pub open spec fn answer_message(rpc_id: JsonView, result: JsonView) -> JsonView {
    no_members().with("id"@, rpc_id).with("result"@, result)
}

/// Why an answer is refused.
#[derive(Clone, Copy, Debug, PartialEq, Eq, Structural)]
pub enum AnswerRefusal {
    /// The request is no longer open.
    Expired,
    /// The request does not ask for this.
    NotThis,
    /// A question is left without a proper answer.
    Incomplete,
}

/// The answers to one question.
#[derive(Debug)]
pub struct QuestionAnswer {
    pub question_id: String,
    pub values: Vec<String>,
}

/// The answers to the question with an identifier.
pub open spec fn answers_to(answers: Seq<QuestionAnswer>, id: Seq<char>) -> Option<Seq<Seq<char>>>
    decreases answers.len(),
{
    if answers.len() == 0 {
        None
    } else if answers[0].question_id@ == id {
        Some(texts_of(answers[0].values@))
    } else {
        answers_to(answers.skip(1), id)
    }
}

/// Whether the answers to one question are proper: one to twenty, none longer
/// than twenty thousand bytes.
pub open spec fn proper(values: Seq<Seq<char>>) -> bool {
    1 <= values.len() <= 20 && forall|i: int|
        0 <= i < values.len() ==> byte_count(#[trigger] values[i]) <= 20000
}

/// Whether a question has been answered properly.
pub open spec fn is_answered(answers: Seq<QuestionAnswer>, question: QuestionView) -> bool {
    answers_to(answers, question.id) matches Some(values) && proper(values)
}

/// Whether each question has been answered properly, and nothing else.
pub open spec fn is_complete(answers: Seq<QuestionAnswer>, questions: Seq<QuestionView>) -> bool {
    answers.len() == questions.len() && forall|i: int|
        0 <= i < questions.len() ==> is_answered(answers, #[trigger] questions[i])
}

/// The object of the answers.
pub open spec fn answers_object(answers: Seq<QuestionAnswer>) -> JsonView
    decreases answers.len(),
{
    if answers.len() == 0 {
        no_members()
    } else {
        answers_object(answers.drop_last()).with(
            answers.last().question_id@,
            no_members().with(
                "answers"@,
                JsonView::Array(
                    answers.last().values@.map_values(|text: String| JsonView::Text(text@)),
                ),
            ),
        )
    }
}

/// What answers to questions come to.
pub open spec fn answers_outcome(
    pending: Seq<PendingView>,
    id: u128,
    answers: Seq<QuestionAnswer>,
) -> Result<JsonView, AnswerRefusal> {
    match pending_at(pending, id) {
        None => Err(AnswerRefusal::Expired),
        Some(entry) => match entry.kind {
            KindView::Questions(questions) => if is_complete(answers, questions) {
                Ok(
                    answer_message(
                        entry.rpc_id,
                        no_members().with("answers"@, answers_object(answers)),
                    ),
                )
            } else {
                Err(AnswerRefusal::Incomplete)
            },
            _ => Err(AnswerRefusal::NotThis),
        },
    }
}

/// What a decision comes to.
pub open spec fn decision_outcome(
    pending: Seq<PendingView>,
    id: u128,
    decision: PermissionDecision,
) -> Result<JsonView, AnswerRefusal> {
    match pending_at(pending, id) {
        None => Err(AnswerRefusal::Expired),
        Some(entry) => match entry.kind {
            KindView::Questions(_) => Err(AnswerRefusal::NotThis),
            kind => Ok(answer_message(entry.rpc_id, decision_result(kind, decision))),
        },
    }
}

/// Whether a question has been answered properly.
fn answered_properly(answers: &Vec<QuestionAnswer>, question: &AgentQuestion) -> (r: bool)
    ensures
        r == is_answered(answers@, question@),
{
    let mut i: usize = 0;
    assert(answers@.skip(0) =~= answers@);
    while i < answers.len()
        invariant
            0 <= i <= answers.len(),
            answers_to(answers@, question.id@) == answers_to(answers@.skip(i as int), question.id@),
        decreases answers.len() - i,
    {
        if same_text(answers[i].question_id.as_str(), question.id.as_str()) {
            let values = &answers[i].values;
            let ghost views = texts_of(values@);
            assert(views.len() == values@.len());
            if values.len() == 0 || values.len() > 20 {
                return false;
            }
            let mut k: usize = 0;
            while k < values.len()
                invariant
                    0 <= k <= values.len(),
                    views == texts_of(values@),
                    values@ == answers@[i as int].values@,
                    answers_to(answers@, question.id@) == Some(views),
                    forall|m: int| 0 <= m < k ==> byte_count(#[trigger] views[m]) <= 20000,
                decreases values.len() - k,
            {
                assert(views[k as int] == values@[k as int]@);
                if byte_len(values[k].as_str()) > 20000 {
                    return false;
                }
                k += 1;
            }
            return true;
        }
        assert(answers@.skip(i as int).skip(1) =~= answers@.skip(i + 1));
        i += 1;
    }
    false
}

impl ActiveTurn {
    /// The message that answers the questions of an open request. The request
    /// stays open until the message is written.
    pub fn answer(&self, request_id: u128, answers: &Vec<QuestionAnswer>) -> (r: Result<
        Json,
        AnswerRefusal,
    >)
        ensures
            match answers_outcome(self@, request_id, answers@) {
                Ok(message) => r matches Ok(m) && m@ == message,
                Err(refused) => r matches Err(e) && e == refused,
            },
    {
        let entry = match self.find(request_id) {
            Some(i) => &self.pending[i],
            None => {
                return Err(AnswerRefusal::Expired);
            },
        };
        let questions = match &entry.kind {
            ApprovalKind::Questions(questions) => questions,
            _ => {
                return Err(AnswerRefusal::NotThis);
            },
        };
        let ghost views = questions_view(questions@);
        assert(views.len() == questions@.len());
        if answers.len() != questions.len() {
            return Err(AnswerRefusal::Incomplete);
        }
        let mut i: usize = 0;
        while i < questions.len()
            invariant
                0 <= i <= questions.len(),
                views == questions_view(questions@),
                pending_at(self@, request_id) matches Some(e) && e.kind == KindView::Questions(views),
                forall|k: int| 0 <= k < i ==> is_answered(answers@, #[trigger] views[k]),
            decreases questions.len() - i,
        {
            assert(views[i as int] == questions@[i as int]@);
            if !answered_properly(answers, &questions[i]) {
                return Err(AnswerRefusal::Incomplete);
            }
            i += 1;
        }
        let mut object = Json::object();
        let mut k: usize = 0;
        assert(answers@.take(0) =~= Seq::empty());
        while k < answers.len()
            invariant
                0 <= k <= answers.len(),
                object@ == answers_object(answers@.take(k as int)),
            decreases answers.len() - k,
        {
            assert(answers@.take(k + 1).drop_last() =~= answers@.take(k as int));
            object = object.with(
                answers[k].question_id.as_str(),
                Json::object().with("answers", Json::of_texts(&answers[k].values)),
            );
            k += 1;
        }
        assert(answers@.take(answers@.len() as int) =~= answers@);
        Ok(
            Json::object().with("id", entry.rpc_id.copy()).with(
                "result",
                Json::object().with("answers", object),
            ),
        )
    }

    /// The message that tells a decision on an open request. The request stays
    /// open until the message is written.
    pub fn respond(&self, request_id: u128, decision: PermissionDecision) -> (r: Result<
        Json,
        AnswerRefusal,
    >)
        ensures
            match decision_outcome(self@, request_id, decision) {
                Ok(message) => r matches Ok(m) && m@ == message,
                Err(refused) => r matches Err(e) && e == refused,
            },
    {
        let entry = match self.find(request_id) {
            Some(i) => &self.pending[i],
            None => {
                return Err(AnswerRefusal::Expired);
            },
        };
        let result = match &entry.kind {
            ApprovalKind::Questions(_) => {
                return Err(AnswerRefusal::NotThis);
            },
            ApprovalKind::Decision => {
                let word = match decision {
                    PermissionDecision::ApproveOnce => "accept",
                    PermissionDecision::ApproveForSession => "acceptForSession",
                    PermissionDecision::Deny => "decline",
                };
                Json::object().with("decision", Json::of_text(word))
            },
            ApprovalKind::Permissions(requested) => {
                let granted = if matches!(decision, PermissionDecision::Deny) {
                    Json::object()
                } else {
                    requested.copy()
                };
                let scope = if matches!(decision, PermissionDecision::ApproveForSession) {
                    "session"
                } else {
                    "turn"
                };
                Json::object().with("permissions", granted).with("scope", Json::of_text(scope))
            },
        };
        Ok(Json::object().with("id", entry.rpc_id.copy()).with("result", result))
    }

    /// Closes a request once its answer is written.
    pub fn close(&mut self, request_id: u128)
        ensures
            final(self)@ == without_id(old(self)@, request_id),
    {
        self.take_away(request_id);
    }
}

/// What a refused answer is told.
pub fn refusal_text(refused: AnswerRefusal, for_questions: bool) -> (r: &'static str)
    ensures
        r@ == (match refused {
            AnswerRefusal::Expired => if for_questions {
                "Question expired"@
            } else {
                "approval request expired"@
            },
            AnswerRefusal::NotThis => if for_questions {
                "Not a question"@
            } else {
                "This request needs answers, not an approval"@
            },
            AnswerRefusal::Incomplete => "Answer each requested question"@,
        }),
{
    match refused {
        AnswerRefusal::Expired => if for_questions {
            "Question expired"
        } else {
            "approval request expired"
        },
        AnswerRefusal::NotThis => if for_questions {
            "Not a question"
        } else {
            "This request needs answers, not an approval"
        },
        AnswerRefusal::Incomplete => "Answer each requested question",
    }
}

/// Closing a request leaves the others open.
pub proof fn lemma_closing_keeps_the_others(list: Seq<PendingView>, id: u128, i: int)
    requires
        0 <= i < list.len(),
        list[i].id != id,
    ensures
        without_id(list, id).contains(list[i]),
    decreases list.len(),
{
    let rest = without_id(list.drop_last(), id);
    if i == list.len() - 1 {
        assert(without_id(list, id) == rest.push(list[i]));
        assert(rest.push(list[i])[rest.len() as int] == list[i]);
    } else {
        lemma_closing_keeps_the_others(list.drop_last(), id, i);
        let k = choose|k: int| 0 <= k < rest.len() && rest[k] == list[i];
        assert(without_id(list, id)[k] == list[i]);
    }
}

proof fn lemma_without_id_drops(list: Seq<PendingView>, id: u128)
    ensures
        pending_at(without_id(list, id), id) is None,
        forall|i: int| 0 <= i < without_id(list, id).len() ==> (#[trigger] without_id(list, id)[i]).id != id,
    decreases list.len(),
{
    if list.len() > 0 {
        lemma_without_id_drops(list.drop_last(), id);
    }
    lemma_absent(without_id(list, id), id);
}

proof fn lemma_absent(list: Seq<PendingView>, id: u128)
    requires
        forall|i: int| 0 <= i < list.len() ==> (#[trigger] list[i]).id != id,
    ensures
        pending_at(list, id) is None,
    decreases list.len(),
{
    if list.len() > 0 {
        assert(list[0].id != id);
        assert forall|i: int| 0 <= i < list.skip(1).len() implies (#[trigger] list.skip(1)[i]).id != id by {
            assert(list.skip(1)[i] == list[i + 1]);
        }
        lemma_absent(list.skip(1), id);
    }
}

/// Once a request is closed it cannot be answered again, neither by a decision
/// nor by answers.
pub proof fn lemma_closed_requests_stay_closed(
    pending: Seq<PendingView>,
    id: u128,
    decision: PermissionDecision,
    answers: Seq<QuestionAnswer>,
)
    ensures
        decision_outcome(without_id(pending, id), id, decision) == Err::<JsonView, AnswerRefusal>(
            AnswerRefusal::Expired,
        ),
        answers_outcome(without_id(pending, id), id, answers) == Err::<JsonView, AnswerRefusal>(
            AnswerRefusal::Expired,
        ),
{
    lemma_without_id_drops(pending, id);
}

/// A request of the server that is open is asked once, however often the server
/// repeats it, and whatever its identifier is.
pub proof fn lemma_repeated_requests_are_asked_once(
    value: JsonView,
    pending: Seq<PendingView>,
    asker: Asker,
    again: Asker,
    action: PermissionActionKind,
    kind: KindView,
)
    ensures
        ({
            let first = queued_approval(value, pending, asker, action, kind);
            value.member("id"@) is Some ==> queued_approval(value, first.pending, again, action, kind)
                == tells(first.pending, Seq::empty())
        }),
{
    match value.member("id"@) {
        None => {},
        Some(rpc_id) => {
            let first = queued_approval(value, pending, asker, action, kind);
            if !is_open(pending, rpc_id) {
                let at = first.pending.len() - 1;
                assert(first.pending[at].rpc_id == rpc_id);
                assert(is_open(first.pending, rpc_id));
            }
        },
    }
}

/// Requests of the server never pass for answers to the runtime's own requests:
/// a message with a method leaves the start of a turn where it is.
pub proof fn lemma_server_requests_do_not_advance_startup(step: Startup, value: JsonView)
    requires
        value.member("method"@) is Some,
    ensures
        startup_step(step, Some(value)) == (true, step, false),
{
}

proof fn lemma_answer_keys_differ()
    ensures
        "id"@ != "result"@,
        "permissions"@ != "scope"@,
        "accept"@ != "acceptForSession"@,
        "accept"@ != "decline"@,
        "acceptForSession"@ != "decline"@,
        "session"@ != "turn"@,
        "id"@ != "error"@,
        "code"@ != "message"@,
{
    reveal_strlit("id");
    reveal_strlit("result");
    reveal_strlit("permissions");
    reveal_strlit("scope");
    reveal_strlit("accept");
    reveal_strlit("acceptForSession");
    reveal_strlit("decline");
    reveal_strlit("session");
    reveal_strlit("turn");
    reveal_strlit("error");
    reveal_strlit("code");
    reveal_strlit("message");
    assert("id"@.len() == 2);
    assert("result"@.len() == 6);
    assert("permissions"@.len() == 11);
    assert("scope"@.len() == 5);
    assert("accept"@.len() == 6);
    assert("acceptForSession"@.len() == 16);
    assert("decline"@.len() == 7);
    assert("session"@.len() == 7);
    assert("turn"@.len() == 4);
    assert("error"@.len() == 5);
    assert("code"@.len() == 4);
    assert("message"@.len() == 7);
}

/// The open request that is found has the identifier that was looked for, stands
/// in the list, and is the first that does.
pub proof fn lemma_open_requests_are_found(list: Seq<PendingView>, id: u128)
    ensures
        match pending_at(list, id) {
            Some(entry) => entry.id == id && exists|i: int|
                0 <= i < list.len() && #[trigger] list[i] == entry && (forall|k: int|
                    0 <= k < i ==> (#[trigger] list[k]).id != id),
            None => forall|k: int| 0 <= k < list.len() ==> (#[trigger] list[k]).id != id,
        },
    decreases list.len(),
{
    if list.len() > 0 {
        let rest = list.skip(1);
        assert(forall|k: int| 0 <= k < rest.len() ==> #[trigger] rest[k] == list[k + 1]);
        lemma_open_requests_are_found(rest, id);
        if list[0].id == id {
            assert(list[0] == pending_at(list, id)->0);
        } else {
            match pending_at(rest, id) {
                Some(entry) => {
                    let i = choose|i: int|
                        0 <= i < rest.len() && #[trigger] rest[i] == entry && (forall|k: int|
                            0 <= k < i ==> (#[trigger] rest[k]).id != id);
                    assert(list[i + 1] == entry);
                    assert forall|k: int| 0 <= k < i + 1 implies (#[trigger] list[k]).id != id by {
                        if k > 0 {
                            assert(rest[k - 1] == list[k]);
                        }
                    }
                },
                None => {
                    assert forall|k: int| 0 <= k < list.len() implies (#[trigger] list[k]).id != id by {
                        if k > 0 {
                            assert(rest[k - 1] == list[k]);
                        }
                    }
                },
            }
        }
    }
}

/// A decision on an open request is told to the server under the server's own
/// identifier, each decision with a word of its own.
pub proof fn lemma_decisions_have_their_words(pending: Seq<PendingView>, id: u128, decision: PermissionDecision)
    requires
        pending_at(pending, id) is Some,
        pending_at(pending, id)->0.kind is Decision,
    ensures
        decision_outcome(pending, id, decision) is Ok,
        decision_outcome(pending, id, decision)->Ok_0.member("id"@) == Some(pending_at(pending, id)->0.rpc_id),
        decision == PermissionDecision::ApproveOnce ==> decision_outcome(pending, id, decision)->Ok_0.text_at2(
            "result"@,
            "decision"@,
        ) == Some("accept"@),
        decision == PermissionDecision::ApproveForSession ==> decision_outcome(
            pending,
            id,
            decision,
        )->Ok_0.text_at2("result"@, "decision"@) == Some("acceptForSession"@),
        decision == PermissionDecision::Deny ==> decision_outcome(pending, id, decision)->Ok_0.text_at2(
            "result"@,
            "decision"@,
        ) == Some("decline"@),
{
    broadcast use lemma_member_of_extended;

    lemma_answer_keys_differ();
}

/// Two different decisions on one open request are never told with the same
/// message.
pub proof fn lemma_decisions_are_told_apart(
    pending: Seq<PendingView>,
    id: u128,
    first: PermissionDecision,
    second: PermissionDecision,
)
    requires
        pending_at(pending, id) is Some,
        pending_at(pending, id)->0.kind is Decision,
        first != second,
    ensures
        decision_outcome(pending, id, first) != decision_outcome(pending, id, second),
{
    lemma_decisions_have_their_words(pending, id, first);
    lemma_decisions_have_their_words(pending, id, second);
    lemma_answer_keys_differ();
}

/// Permissions that were asked for are granted as they were asked for, or not at
/// all, and for the session only where the user says so.
pub proof fn lemma_permissions_are_granted_as_asked(
    pending: Seq<PendingView>,
    id: u128,
    decision: PermissionDecision,
)
    requires
        pending_at(pending, id) is Some,
        pending_at(pending, id)->0.kind is Permissions,
    ensures
        decision_outcome(pending, id, decision) is Ok,
        decision_outcome(pending, id, decision)->Ok_0.member("id"@) == Some(pending_at(pending, id)->0.rpc_id),
        decision != PermissionDecision::Deny ==> decision_outcome(pending, id, decision)->Ok_0.member2(
            "result"@,
            "permissions"@,
        ) == Some(pending_at(pending, id)->0.kind->Permissions_0),
        decision == PermissionDecision::Deny ==> decision_outcome(pending, id, decision)->Ok_0.member2(
            "result"@,
            "permissions"@,
        ) == Some(JsonView::Object(Seq::empty())),
        decision_outcome(pending, id, decision)->Ok_0.text_at2("result"@, "scope"@) == Some("session"@)
            <==> decision == PermissionDecision::ApproveForSession,
        decision_outcome(pending, id, decision)->Ok_0.text_at2("result"@, "scope"@) == Some("turn"@)
            <==> decision != PermissionDecision::ApproveForSession,
{
    broadcast use lemma_member_of_extended;

    lemma_answer_keys_differ();
}

/// A request that is not open is answered by nobody, questions are not settled by
/// a decision, and nothing but questions is settled by answers.
pub proof fn lemma_answers_fit_their_requests(
    pending: Seq<PendingView>,
    id: u128,
    decision: PermissionDecision,
    answers: Seq<QuestionAnswer>,
)
    ensures
        pending_at(pending, id) is None ==> decision_outcome(pending, id, decision) == Err::<
            JsonView,
            AnswerRefusal,
        >(AnswerRefusal::Expired) && answers_outcome(pending, id, answers) == Err::<JsonView, AnswerRefusal>(
            AnswerRefusal::Expired,
        ),
        pending_at(pending, id) is Some ==> {
            &&& decision_outcome(pending, id, decision) is Ok <==> !(pending_at(pending, id)->0.kind is Questions)
            &&& answers_outcome(pending, id, answers) is Ok ==> pending_at(pending, id)->0.kind is Questions
            &&& !(pending_at(pending, id)->0.kind is Questions) ==> answers_outcome(pending, id, answers)
                == Err::<JsonView, AnswerRefusal>(AnswerRefusal::NotThis)
        },
{
}

proof fn lemma_first_answer(answers: Seq<QuestionAnswer>, id: Seq<char>)
    ensures
        match answers_object(answers).member(id) {
            Some(value) => answers_to(answers, id) is Some && value.member("answers"@) == Some(
                JsonView::Array(
                    answers_to(answers, id)->0.map_values(|text: Seq<char>| JsonView::Text(text)),
                ),
            ),
            None => answers_to(answers, id) is None,
        },
        answers_object(answers) is Object,
    decreases answers.len(),
{
    broadcast use lemma_member_of_extended;

    if answers.len() > 0 {
        let before = answers.drop_last();
        lemma_first_answer(before, id);
        lemma_answers_to_last(answers, id);
        let texts = texts_of(answers.last().values@).map_values(|text: Seq<char>| JsonView::Text(text));
        assert(texts =~= answers.last().values@.map_values(|text: String| JsonView::Text(text@)));
    }
}

proof fn lemma_answers_to_last(answers: Seq<QuestionAnswer>, id: Seq<char>)
    requires
        answers.len() > 0,
    ensures
        answers_to(answers, id) == (match answers_to(answers.drop_last(), id) {
            Some(values) => Some(values),
            None => if answers.last().question_id@ == id {
                Some(texts_of(answers.last().values@))
            } else {
                None
            },
        }),
    decreases answers.len(),
{
    if answers.len() == 1 {
        assert(answers.skip(1).len() == 0);
        assert(answers.drop_last().len() == 0);
    } else {
        assert(answers.skip(1).drop_last() =~= answers.drop_last().skip(1));
        assert(answers.skip(1).last() == answers.last());
        lemma_answers_to_last(answers.skip(1), id);
    }
}

/// Answers are accepted exactly where each question has an answer of one to twenty
/// texts, none of them longer than twenty thousand bytes, and there are no more
/// answers than questions. Each question is then told the texts that were given
/// for it.
pub proof fn lemma_questions_get_their_answers(
    pending: Seq<PendingView>,
    id: u128,
    answers: Seq<QuestionAnswer>,
    k: int,
)
    requires
        pending_at(pending, id) is Some,
        pending_at(pending, id)->0.kind is Questions,
        0 <= k < pending_at(pending, id)->0.kind->Questions_0.len(),
    ensures
        ({
            let entry = pending_at(pending, id)->0;
            let question = entry.kind->Questions_0[k].id;
            match answers_outcome(pending, id, answers) {
                Ok(message) => {
                    &&& message.member("id"@) == Some(entry.rpc_id)
                    &&& answers.len() == entry.kind->Questions_0.len()
                    &&& answers_to(answers, question) is Some
                    &&& 1 <= answers_to(answers, question)->0.len() <= 20
                    &&& forall|i: int|
                        0 <= i < answers_to(answers, question)->0.len() ==> byte_count(
                            #[trigger] answers_to(answers, question)->0[i],
                        ) <= 20000
                    &&& message.member2("result"@, "answers"@) is Some
                    &&& message.member2("result"@, "answers"@)->0.member2(question, "answers"@) == Some(
                        JsonView::Array(
                            answers_to(answers, question)->0.map_values(|text: Seq<char>| JsonView::Text(text)),
                        ),
                    )
                },
                Err(refused) => refused == AnswerRefusal::Incomplete,
            }
        }),
{
    broadcast use lemma_member_of_extended;

    lemma_answer_keys_differ();
    let question = pending_at(pending, id)->0.kind->Questions_0[k];
    lemma_first_answer(answers, question.id);
    if answers_outcome(pending, id, answers) is Ok {
        assert(is_answered(answers, question));
    }
}

proof fn lemma_request_keys()
    ensures
        "id"@.len() == 2,
        "method"@.len() == 6,
        "params"@.len() == 6,
        "cwd"@.len() == 3,
        "approvalPolicy"@.len() == 14,
        "approvalsReviewer"@.len() == 17,
        "sandbox"@.len() == 7,
        "serviceName"@.len() == 11,
        "config"@.len() == 6,
        "model"@.len() == 5,
        "threadId"@.len() == 8,
        "input"@.len() == 5,
        "sandboxPolicy"@.len() == 13,
        "effort"@.len() == 6,
        "type"@.len() == 4,
        "text"@.len() == 4,
        "method"@ != "params"@,
        "config"@ != "effort"@,
        "input"@ != "model"@,
        "type"@ != "text"@,
{
    reveal_strlit("id");
    reveal_strlit("method");
    reveal_strlit("params");
    reveal_strlit("cwd");
    reveal_strlit("approvalPolicy");
    reveal_strlit("approvalsReviewer");
    reveal_strlit("sandbox");
    reveal_strlit("serviceName");
    reveal_strlit("config");
    reveal_strlit("model");
    reveal_strlit("threadId");
    reveal_strlit("input");
    reveal_strlit("sandboxPolicy");
    reveal_strlit("effort");
    reveal_strlit("type");
    reveal_strlit("text");
    assert("id"@.len() == 2);
    assert("method"@.len() == 6);
    assert("params"@.len() == 6);
    assert("cwd"@.len() == 3);
    assert("approvalPolicy"@.len() == 14);
    assert("approvalsReviewer"@.len() == 17);
    assert("sandbox"@.len() == 7);
    assert("serviceName"@.len() == 11);
    assert("config"@.len() == 6);
    assert("model"@.len() == 5);
    assert("threadId"@.len() == 8);
    assert("input"@.len() == 5);
    assert("sandboxPolicy"@.len() == 13);
    assert("effort"@.len() == 6);
    assert("type"@.len() == 4);
    assert("text"@.len() == 4);
    assert("method"@[0] == 'm' && "params"@[0] == 'p');
    assert("config"@[0] == 'c' && "effort"@[0] == 'e');
    assert("input"@[0] == 'i' && "model"@[0] == 'm');
    assert("type"@[1] == 'y' && "text"@[1] == 'e');
}

/// The request for a thread: an agent with a thread resumes that thread, one
/// without starts a new one. Either way the request names the agent's folder and
/// the model of its profile, where it has one, and asks for every approval.
pub proof fn lemma_thread_request_names_the_agent(launch: Launch)
    ensures
        thread_message(launch).text_at("id"@) == Some("ditch:thread"@),
        launch.resume_thread is Some ==> thread_message(launch).text_at("method"@) == Some("thread/resume"@)
            && thread_message(launch).text_at2("params"@, "threadId"@) == Some(launch.resume_thread->0@),
        launch.resume_thread is None ==> thread_message(launch).text_at("method"@) == Some("thread/start"@)
            && thread_message(launch).member2("params"@, "threadId"@) is None,
        thread_message(launch).text_at2("params"@, "cwd"@) == Some(launch.cwd@),
        thread_message(launch).text_at2("params"@, "approvalPolicy"@) == Some("untrusted"@),
        thread_message(launch).text_at2("params"@, "approvalsReviewer"@) == Some("user"@),
        thread_message(launch).text_at2("params"@, "sandbox"@) == Some("danger-full-access"@),
        launch.execution_profile.model is Some ==> thread_message(launch).text_at2("params"@, "model"@)
            == Some(launch.execution_profile.model->0@),
        launch.execution_profile.model is None ==> thread_message(launch).member2("params"@, "model"@) is None,
{
    broadcast use lemma_member_of_extended;

    lemma_request_keys();
}

/// The request for a turn: it goes to the thread that was made, holds the prompt
/// as its only input, and names the folder, the model and the effort of the agent.
pub proof fn lemma_turn_request_carries_the_prompt(launch: Launch, thread: Seq<char>)
    ensures
        turn_message(launch, thread).text_at("id"@) == Some("ditch:turn"@),
        turn_message(launch, thread).text_at("method"@) == Some("turn/start"@),
        turn_message(launch, thread).text_at2("params"@, "threadId"@) == Some(thread),
        turn_message(launch, thread).text_at2("params"@, "cwd"@) == Some(launch.cwd@),
        turn_message(launch, thread).text_at2("params"@, "approvalPolicy"@) == Some("untrusted"@),
        turn_message(launch, thread).text_at2("params"@, "approvalsReviewer"@) == Some("user"@),
        turn_message(launch, thread).member2("params"@, "input"@) is Some,
        turn_message(launch, thread).member2("params"@, "input"@)->0.items() is Some,
        turn_message(launch, thread).member2("params"@, "input"@)->0.items()->0.len() == 1,
        turn_message(launch, thread).member2("params"@, "input"@)->0.items()->0[0].text_at("type"@) == Some(
            "text"@,
        ),
        turn_message(launch, thread).member2("params"@, "input"@)->0.items()->0[0].text_at("text"@) == Some(
            launch.prompt@,
        ),
        launch.execution_profile.model is Some ==> turn_message(launch, thread).text_at2(
            "params"@,
            "model"@,
        ) == Some(launch.execution_profile.model->0@),
        launch.execution_profile.reasoning_effort is Some ==> turn_message(launch, thread).text_at2(
            "params"@,
            "effort"@,
        ) == Some(launch.execution_profile.reasoning_effort->0@),
        launch.execution_profile.model is None ==> turn_message(launch, thread).member2(
            "params"@,
            "model"@,
        ) is None,
        launch.execution_profile.reasoning_effort is None ==> turn_message(launch, thread).member2(
            "params"@,
            "effort"@,
        ) is None,
{
    broadcast use lemma_member_of_extended;

    lemma_request_keys();
}

proof fn lemma_startup_ids()
    ensures
        "ditch:initialize"@ != "ditch:thread"@,
        "ditch:initialize"@ != "ditch:turn"@,
        "ditch:thread"@ != "ditch:turn"@,
{
    reveal_strlit("ditch:initialize");
    reveal_strlit("ditch:thread");
    reveal_strlit("ditch:turn");
    assert("ditch:initialize"@.len() == 16);
    assert("ditch:thread"@.len() == 12);
    assert("ditch:turn"@.len() == 10);
}

/// The start of a turn takes its three steps in order, one for each answer, and
/// only an answer without an error takes one.
pub proof fn lemma_startup_takes_its_steps(step: Startup, value: JsonView)
    requires
        value.member("method"@) is None,
    ensures
        startup_step(step, Some(value)).1 != step <==> value.member("error"@) is None && ({
            ||| step == Startup::Initialize && value.text_at("id"@) == Some("ditch:initialize"@)
            ||| step == Startup::Thread && value.text_at("id"@) == Some("ditch:thread"@)
            ||| step == Startup::Turn && value.text_at("id"@) == Some("ditch:turn"@)
        }),
        startup_step(step, Some(value)).1 != step ==> startup_step(step, Some(value)).1 == (match step {
            Startup::Initialize => Startup::Thread,
            Startup::Thread => Startup::Turn,
            _ => Startup::Done,
        }),
        startup_step(step, Some(value)).2 <==> startup_step(step, Some(value)).1 != step,
        startup_step(Startup::Done, Some(value)).0 == false,
{
}

/// What the answers that start a turn lead to: the first opens a thread, the second
/// starts the turn in the thread that the answer names, and an error of any of them
/// ends the turn.
pub proof fn lemma_startup_answers(
    value: JsonView,
    launch: Launch,
    request: JsonView,
    pending: Seq<PendingView>,
)
    ensures
        answered(value, launch, Some(request), pending).pending == pending,
        value.text_at("id"@) == Some("ditch:initialize"@) && value.member("error"@) is None ==> {
            let r = answered(value, launch, Some(request), pending);
            &&& r.messages.len() == 2
            &&& r.messages[0].text_at("method"@) == Some("initialized"@)
            &&& r.messages[1] == request
            &&& r.events.len() == 0
        },
        value.text_at("id"@) == Some("ditch:thread"@) && value.member("error"@) is None ==> {
            let r = answered(value, launch, Some(request), pending);
            match text_at3(value, "result"@, "thread"@, "id"@) {
                Some(thread) => r.messages == seq![turn_message(launch, thread)] && r.events == seq![
                    EventView::ThreadReady(thread),
                ],
                None => r.messages.len() == 0 && r.events.len() == 1 && r.events[0] is Failed,
            }
        },
        (value.text_at("id"@) == Some("ditch:initialize"@) || value.text_at("id"@) == Some("ditch:thread"@)
            || value.text_at("id"@) == Some("ditch:turn"@)) && value.member("error"@) is Some ==> {
            let r = answered(value, launch, Some(request), pending);
            &&& r.messages.len() == 0
            &&& r.events.len() == 1
            &&& r.events[0] is Failed
            &&& value.text_at2("error"@, "message"@) is Some ==> r.events[0] == EventView::Failed(
                value.text_at2("error"@, "message"@)->0,
            )
        },
{
    broadcast use lemma_member_of_extended;

    lemma_startup_ids();
    lemma_request_keys();
}

proof fn lemma_methods_differ()
    ensures
        "serverRequest/resolved"@.len() == 22,
        "turn/started"@.len() == 12,
        "item/started"@.len() == 12,
        "item/completed"@.len() == 14,
        "item/commandExecution/requestApproval"@.len() == 37,
        "item/fileChange/requestApproval"@.len() == 31,
        "item/tool/requestUserInput"@.len() == 26,
        "tool/requestUserInput"@.len() == 21,
        "item/permissions/requestApproval"@.len() == 32,
        "turn/completed"@.len() == 14,
        "error"@.len() == 5,
        "warning"@.len() == 7,
        "configWarning"@.len() == 13,
        "turn/started"@ != "item/started"@,
        "item/completed"@ != "turn/completed"@,
{
    reveal_strlit("serverRequest/resolved");
    reveal_strlit("turn/started");
    reveal_strlit("item/started");
    reveal_strlit("item/completed");
    reveal_strlit("item/commandExecution/requestApproval");
    reveal_strlit("item/fileChange/requestApproval");
    reveal_strlit("item/tool/requestUserInput");
    reveal_strlit("tool/requestUserInput");
    reveal_strlit("item/permissions/requestApproval");
    reveal_strlit("turn/completed");
    reveal_strlit("error");
    reveal_strlit("warning");
    reveal_strlit("configWarning");
    assert("serverRequest/resolved"@.len() == 22);
    assert("turn/started"@.len() == 12);
    assert("item/started"@.len() == 12);
    assert("item/completed"@.len() == 14);
    assert("item/commandExecution/requestApproval"@.len() == 37);
    assert("item/fileChange/requestApproval"@.len() == 31);
    assert("item/tool/requestUserInput"@.len() == 26);
    assert("tool/requestUserInput"@.len() == 21);
    assert("item/permissions/requestApproval"@.len() == 32);
    assert("turn/completed"@.len() == 14);
    assert("error"@.len() == 5);
    assert("warning"@.len() == 7);
    assert("configWarning"@.len() == 13);
    assert("turn/started"@[0] == 't' && "item/started"@[0] == 'i');
    assert("turn/completed"@[0] == 't' && "item/completed"@[0] == 'i');
}

/// A request of the server for an approval is opened under the identifier that the
/// runtime gave it, with the server's own kept for the answer: commands and file
/// changes wait for a decision, permissions for a grant of what was asked.
pub proof fn lemma_approvals_are_opened(
    method: Seq<char>,
    value: JsonView,
    pending: Seq<PendingView>,
    asker: Asker,
)
    requires
        method == "item/commandExecution/requestApproval"@ || method == "item/fileChange/requestApproval"@
            || method == "item/permissions/requestApproval"@,
        value.member("id"@) is Some,
        !is_open(pending, value.member("id"@)->0),
    ensures
        ({
            let r = notified(method, value, pending, asker);
            let network = value.member2("params"@, "networkApprovalContext"@) is Some;
            &&& r.messages.len() == 0
            &&& r.pending.len() > 0
            &&& r.pending.last().id == asker.request_id
            &&& r.pending.last().rpc_id == value.member("id"@)->0
            &&& r.pending.drop_last() == without_id(pending, asker.request_id)
            &&& method != "item/permissions/requestApproval"@ ==> r.pending.last().kind is Decision
            &&& method == "item/permissions/requestApproval"@ ==> (
            r.pending.last().kind matches KindView::Permissions(asked) && asked == (match value.member2(
                "params"@,
                "permissions"@,
            ) {
                Some(asked) => asked,
                None => JsonView::Object(Seq::empty()),
            }))
            &&& r.events.len() == 1
            &&& r.events[0] matches EventView::ApprovalRequested(request) && {
                &&& request.id == asker.request_id
                &&& request.project_id == asker.project_id
                &&& request.agent_id == Some(asker.agent_id)
                &&& request.created_at == asker.now
                &&& network ==> request.action == PermissionActionKind::AccessNetwork
                &&& !network && method == "item/commandExecution/requestApproval"@ ==> request.action
                    == PermissionActionKind::RunCommand
                &&& !network && method == "item/fileChange/requestApproval"@ ==> request.action
                    == PermissionActionKind::EditFiles
                &&& value.text_at2("params"@, "reason"@) is Some ==> request.summary == value.text_at2(
                    "params"@,
                    "reason"@,
                )->0
            }
        }),
{
    lemma_methods_differ();
    let r = notified(method, value, pending, asker);
    assert(r.pending.drop_last() =~= without_id(pending, asker.request_id));
}

/// Questions of the server are opened as questions where they can be read and there
/// are one to three of them; any other request for answers is refused at once and
/// nothing is opened.
pub proof fn lemma_questions_are_opened(
    method: Seq<char>,
    value: JsonView,
    pending: Seq<PendingView>,
    asker: Asker,
)
    requires
        method == "item/tool/requestUserInput"@ || method == "tool/requestUserInput"@,
        value.member("id"@) is Some,
    ensures
        ({
            let r = notified(method, value, pending, asker);
            match asked_questions(params_of(value)) {
                Some(list) => {
                    &&& 1 <= list.len() <= 3
                    &&& !is_open(pending, value.member("id"@)->0) ==> r.pending.len() > 0
                        && r.pending.last().kind == KindView::Questions(list) && r.pending.last().id
                        == asker.request_id && r.pending.last().rpc_id == value.member("id"@)->0
                },
                None => {
                    &&& r.pending == pending
                    &&& r.events.len() == 0
                    &&& r.messages.len() == 1
                    &&& r.messages[0].member("id"@) == Some(value.member("id"@)->0)
                    &&& r.messages[0].member2("error"@, "code"@) == Some(
                        JsonView::Number(NumberView::Negative(-32602i64)),
                    )
                    &&& r.messages[0].text_at2("error"@, "message"@) == Some("Invalid questions"@)
                },
            }
        }),
{
    broadcast use lemma_member_of_extended;

    lemma_methods_differ();
    lemma_answer_keys_differ();
}

/// A request that is not known is refused under its own identifier and shown; a
/// notice that is not known is passed over. Neither opens anything.
pub proof fn lemma_unknown_requests_are_refused(
    method: Seq<char>,
    value: JsonView,
    pending: Seq<PendingView>,
    asker: Asker,
)
    requires
        method != "serverRequest/resolved"@,
        method != "turn/started"@,
        method != "item/started"@,
        method != "item/completed"@,
        method != "item/commandExecution/requestApproval"@,
        method != "item/fileChange/requestApproval"@,
        method != "item/tool/requestUserInput"@,
        method != "tool/requestUserInput"@,
        method != "item/permissions/requestApproval"@,
        method != "turn/completed"@,
        method != "error"@,
        method != "warning"@,
        method != "configWarning"@,
    ensures
        ({
            let r = notified(method, value, pending, asker);
            &&& r.pending == pending
            &&& value.member("id"@) is None ==> r.messages.len() == 0 && r.events.len() == 0
            &&& value.member("id"@) is Some ==> r.messages.len() == 1 && r.messages[0].member("id"@)
                == value.member("id"@) && r.messages[0].member2("error"@, "code"@) == Some(
                JsonView::Number(NumberView::Negative(-32601i64)),
            ) && r.messages[0].text_at2("error"@, "message"@) == Some("Ditch does not support "@ + method)
                && r.events.len() == 1
        }),
{
    broadcast use lemma_member_of_extended;

    lemma_answer_keys_differ();
}

/// The end of a turn is told with the status and the error of that turn; one
/// without a status counts as failed. An error that the server retries does not end
/// the turn, any other does.
pub proof fn lemma_turn_notices(value: JsonView, pending: Seq<PendingView>, asker: Asker)
    ensures
        notified("turn/started"@, value, pending, asker).events == seq![EventView::TurnStarted],
        notified("turn/started"@, value, pending, asker).pending == pending,
        ({
            let r = notified("turn/completed"@, value, pending, asker);
            &&& r.pending == pending
            &&& r.messages.len() == 0
            &&& r.events.len() == 1
            &&& r.events[0] matches EventView::TurnCompleted { status, error } && {
                &&& text_at3(value, "params"@, "turn"@, "status"@) is Some ==> status == text_at3(
                    value,
                    "params"@,
                    "turn"@,
                    "status"@,
                )->0
                &&& text_at3(value, "params"@, "turn"@, "status"@) is None ==> status == "failed"@
                &&& error == text_at3(params_of(value), "turn"@, "error"@, "message"@)
            }
        }),
        ({
            let r = notified("error"@, value, pending, asker);
            let message = text_at3(value, "params"@, "error"@, "message"@);
            let retried = value.member2("params"@, "willRetry"@) == Some(JsonView::Bool(true));
            &&& r.pending == pending
            &&& message is Some && retried ==> r.events == seq![
                EventView::Action("Codex reconnecting: "@ + message->0),
            ]
            &&& message is Some && !retried ==> r.events == seq![EventView::Failed(message->0)]
            &&& message is None ==> r.events.len() == 0
        }),
{
    lemma_methods_differ();
    let params = params_of(value);
    assert(JsonView::Null.member("turn"@) is None);
    assert(JsonView::Null.member("error"@) is None);
}

/// What the server settles by itself is closed here too, with exactly the open
/// requests of that server request, and each of them is told.
pub proof fn lemma_resolved_requests_are_closed(value: JsonView, pending: Seq<PendingView>, asker: Asker, i: int)
    requires
        value.member2("params"@, "requestId"@) is Some,
        0 <= i < pending.len(),
    ensures
        ({
            let r = notified("serverRequest/resolved"@, value, pending, asker);
            let settled = same_value(pending[i].rpc_id, value.member2("params"@, "requestId"@)->0);
            &&& settled ==> r.events.contains(EventView::PermissionResolved(pending[i].id))
            &&& !settled ==> r.pending.contains(pending[i])
            &&& forall|k: int|
                0 <= k < r.pending.len() ==> !same_value(
                    (#[trigger] r.pending[k]).rpc_id,
                    value.member2("params"@, "requestId"@)->0,
                )
        }),
{
    lemma_methods_differ();
    let rpc_id = value.member2("params"@, "requestId"@)->0;
    lemma_without_rpc(pending, rpc_id, i);
    let gone = without_rpc(pending, rpc_id).1;
    if same_value(pending[i].rpc_id, rpc_id) {
        let at = choose|at: int| 0 <= at < gone.len() && gone[at] == pending[i].id;
        assert(resolved_events(gone)[at] == EventView::PermissionResolved(pending[i].id));
    }
}

proof fn lemma_without_rpc(list: Seq<PendingView>, rpc_id: JsonView, i: int)
    requires
        0 <= i < list.len(),
    ensures
        same_value(list[i].rpc_id, rpc_id) ==> without_rpc(list, rpc_id).1.contains(list[i].id),
        !same_value(list[i].rpc_id, rpc_id) ==> without_rpc(list, rpc_id).0.contains(list[i]),
        forall|k: int|
            0 <= k < without_rpc(list, rpc_id).0.len() ==> !same_value(
                (#[trigger] without_rpc(list, rpc_id).0[k]).rpc_id,
                rpc_id,
            ),
    decreases list.len(),
{
    let shorter = list.drop_last();
    let (kept, gone) = without_rpc(shorter, rpc_id);
    if i < shorter.len() {
        lemma_without_rpc(shorter, rpc_id, i);
        assert(shorter[i] == list[i]);
        if same_value(list[i].rpc_id, rpc_id) {
            let at = choose|at: int| 0 <= at < gone.len() && gone[at] == list[i].id;
            assert(without_rpc(list, rpc_id).1[at] == list[i].id);
        } else {
            let at = choose|at: int| 0 <= at < kept.len() && kept[at] == list[i];
            assert(without_rpc(list, rpc_id).0[at] == list[i]);
        }
    } else {
        if shorter.len() > 0 {
            lemma_without_rpc(shorter, rpc_id, 0);
        } else {
            assert(without_rpc(shorter, rpc_id).0.len() == 0);
        }
        if same_value(list[i].rpc_id, rpc_id) {
            assert(without_rpc(list, rpc_id).1[gone.len() as int] == list[i].id);
        } else {
            assert(without_rpc(list, rpc_id).0[kept.len() as int] == list[i]);
        }
    }
}

/// A text is displayed as it is, a list of texts with spaces between them.
pub proof fn lemma_texts_are_displayed(text: Seq<char>, items: Seq<JsonView>, more: Seq<char>)
    ensures
        displayed(JsonView::Text(text)) == text,
        displayed(JsonView::Array(seq![JsonView::Text(text)])) == text,
        displayed(JsonView::Array(seq![JsonView::Text(text), JsonView::Text(more)])) == text + " "@ + more,
        displayed(JsonView::Array(items.push(JsonView::Null))) == displayed(JsonView::Array(items)),
{
    let one = seq![JsonView::Text(text)];
    let two = seq![JsonView::Text(text), JsonView::Text(more)];
    assert(one.drop_last() =~= Seq::empty());
    assert(texts_among(one.drop_last()) =~= Seq::empty());
    assert(texts_among(one) =~= seq![text]);
    assert(two.drop_last() =~= one);
    assert(texts_among(two) =~= seq![text, more]);
    assert(glued(seq![text], " "@) == text);
    assert(seq![text, more].drop_last() =~= seq![text]);
    assert(glued(seq![text, more], " "@) == text + " "@ + more);
    assert(items.push(JsonView::Null).drop_last() =~= items);
}

/// The server is greeted with the request whose answer is awaited first. Each
/// request of a start has a name of its own, so that no answer is taken for
/// another.
pub proof fn lemma_requests_of_a_start_are_told_apart(version: Seq<char>)
    ensures
        initialize_message(version).member("method"@) == Some(JsonView::Text("initialize"@)),
        initialize_message(version).text_at("id"@) == awaited(Startup::Initialize),
        awaited(Startup::Initialize) is Some,
        awaited(Startup::Thread) is Some,
        awaited(Startup::Turn) is Some,
        awaited(Startup::Done) is None,
        awaited(Startup::Initialize) != awaited(Startup::Thread),
        awaited(Startup::Initialize) != awaited(Startup::Turn),
        awaited(Startup::Thread) != awaited(Startup::Turn),
{
    broadcast use lemma_member_of_extended;

    reveal_strlit("id");
    reveal_strlit("method");
    reveal_strlit("params");
    reveal_strlit("ditch:initialize");
    reveal_strlit("ditch:thread");
    reveal_strlit("ditch:turn");
    assert("id"@.len() == 2);
    assert("method"@.len() == 6 && "params"@.len() == 6 && "method"@[0] != "params"@[0]);
    assert("ditch:initialize"@.len() == 16 && "ditch:thread"@.len() == 12 && "ditch:turn"@.len() == 10);
}

/// An answer with an error is a failed one, with the error's own message where it
/// has one; an answer without is not.
pub proof fn lemma_failed_answers_say_why(value: JsonView, error: JsonView, message: Seq<char>)
    ensures
        value.member("error"@) is None <==> answer_error(value) is None,
        value.member("error"@) == Some(error) && error.text_at("message"@) == Some(message) ==> answer_error(value)
            == Some(message),
        value.member("error"@) == Some(error) && error.text_at("message"@) is None ==> answer_error(value) == Some(
            "Codex App Server request failed"@,
        ),
{
}

/// A line that is no message is passed on as it is, unless it is blank; a message
/// without a method is an answer, one with a method a notice or a request.
pub proof fn lemma_lines_have_their_meaning(
    line: Seq<char>,
    value: JsonView,
    launch: Launch,
    thread_request: Option<JsonView>,
    pending: Seq<PendingView>,
    asker: Asker,
    method: Seq<char>,
)
    ensures
        trimmed(line).len() > 0 ==> line_outcome(line, None, launch, thread_request, pending, asker).events
            == seq![EventView::Diagnostic(trimmed(line))],
        trimmed(line).len() == 0 ==> line_outcome(line, None, launch, thread_request, pending, asker).events.len()
            == 0,
        line_outcome(line, None, launch, thread_request, pending, asker).pending == pending,
        line_outcome(line, None, launch, thread_request, pending, asker).messages.len() == 0,
        value.member("method"@) is None ==> line_outcome(
            line,
            Some(value),
            launch,
            thread_request,
            pending,
            asker,
        ) == answered(value, launch, thread_request, pending),
        value.member("method"@) == Some(JsonView::Text(method)) ==> line_outcome(
            line,
            Some(value),
            launch,
            thread_request,
            pending,
            asker,
        ) == notified(method, value, pending, asker),
{
}

} // verus!
