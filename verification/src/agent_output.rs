//! What an agent's process says and how it ends: the agent's state, its chat and
//! what calls for attention.

use crate::diagnostics::{
    agent_display_name, codex_session_title, diagnostic_message, display_name, explicit_error,
    extract_diagnostic_message, extract_explicit_error, is_denial, is_diagnostic, is_reconnect,
    is_terminal_codex_stderr, is_terminal_error, is_transient_reconnect,
    is_workspace_permission_denial, looks_like_diagnostic, notification_summary, session_title,
    summary_of,
};
use crate::json::{parsed_json, read_json, Json, JsonView};
use crate::model::{
    AgentChatMessage, AgentChatRole, AgentResumeBlockReason, AgentState, AttentionKind, AttentionView,
    MessageView, RunView, RuntimeAttention,
};
use crate::state::{
    after, agent_ids, agent_saved, does, effects_view, lemma_found_agent_has_its_id, lemma_position,
    lemma_saved_agent_is_found, messages_view, push_effect, stays, without_child, without_turn,
    AgentView, Effect, EffectView, RuntimeState, RuntimeView, ServerEvent,
    ServerEventView, Step,
};
use crate::text::{
    copy_text, lemma_trimming_is_settled, same_text, signed_decimal, signed_decimal_text, str_of, text_of, trim, trimmed,
};
use vstd::prelude::*;
use vstd::string::*;

verus! {

/// Why an agent cannot be resumed: Codex never made a thread for it.
pub open spec fn resume_block(native_session_id: Option<Seq<char>>) -> Option<AgentResumeBlockReason> {
    match native_session_id {
        Some(_) => None,
        None => Some(AgentResumeBlockReason::NoCodexThread),
    }
}

/// The thread whose stored title is looked up when a line of Codex is heard: one
/// that has been started, and that of the agent once a turn is over.
pub open spec fn thread_to_title(state: RuntimeView, agent_id: u128, value: JsonView) -> Option<Seq<char>> {
    if value.text_at("type"@) == Some("thread.started"@) {
        value.text_at("thread_id"@)
    } else if value.text_at("type"@) == Some("turn.completed"@) {
        match state.agent(agent_id) {
            Some(agent) => agent.run.native_session_id,
            None => None,
        }
    } else {
        None
    }
}

/// Why an agent cannot be resumed: Codex never made a thread for it.
pub fn resume_block_reason(native_session_id: &Option<String>) -> (r: Option<AgentResumeBlockReason>)
    ensures
        r == resume_block(text_of(*native_session_id)),
{
    match native_session_id {
        Some(_) => None,
        None => Some(AgentResumeBlockReason::NoCodexThread),
    }
}

/// The place of an agent, where what a run says of it still counts.
pub open spec fn heard_at(state: RuntimeView, agent_id: u128, run_id: Option<u128>) -> Option<int> {
    if state.is_stale(agent_id, run_id) {
        None
    } else {
        state.agent_at(agent_id)
    }
}

/// The place of an agent that is not being stopped, where what a run says of it
/// still counts.
pub open spec fn working_at(state: RuntimeView, agent_id: u128, run_id: Option<u128>) -> Option<int> {
    match heard_at(state, agent_id, run_id) {
        Some(i) => if state.agents[i].run.state == AgentState::Stopping {
            None
        } else {
            Some(i)
        },
        None => None,
    }
}

/// A turn of an agent has begun.
pub open spec fn turn_started(state: RuntimeView, agent_id: u128, run_id: Option<u128>, now: i64) -> Step {
    match working_at(state, agent_id, run_id) {
        None => stays(state),
        Some(i) => {
            let agent = state.agents[i];
            agent_saved(
                state,
                i,
                AgentView {
                    terminal_failure: None,
                    run: RunView {
                        state: AgentState::Working,
                        last_visible_action: Some("Codex is working"@),
                        updated_at: now,
                        ..agent.run
                    },
                    ..agent
                },
            )
        },
    }
}

/// An agent shows what it is doing.
pub open spec fn action_shown(
    state: RuntimeView,
    agent_id: u128,
    action: Seq<char>,
    run_id: Option<u128>,
    now: i64,
) -> Step {
    match working_at(state, agent_id, run_id) {
        None => stays(state),
        Some(i) => {
            let agent = state.agents[i];
            agent_saved(
                state,
                i,
                AgentView {
                    run: RunView { last_visible_action: Some(action), updated_at: now, ..agent.run },
                    ..agent
                },
            )
        },
    }
}

/// A message joins an agent's chat.
pub open spec fn message_appended(
    state: RuntimeView,
    agent_id: u128,
    role: AgentChatRole,
    text: Seq<char>,
    run_id: Option<u128>,
    now: i64,
) -> Step {
    if trimmed(text).len() == 0 {
        stays(state)
    } else {
        match heard_at(state, agent_id, run_id) {
            None => stays(state),
            Some(i) => {
                let message = MessageView { agent_id, role, text, created_at: now };
                let agent = AgentView {
                    messages: state.agents[i].messages.push(message),
                    run: RunView { updated_at: now, ..state.agents[i].run },
                    ..state.agents[i]
                };
                Step {
                    state: state.with_agent(i, agent),
                    effects: seq![
                        EffectView::SaveMessage(message),
                        EffectView::SaveAgent { run: agent.run, failure: agent.terminal_failure },
                        EffectView::Tell(ServerEventView::AgentMessageAppended(message)),
                    ],
                }
            },
        }
    }
}

/// The title of the notice that a project cannot be written.
pub open spec fn denial_title() -> Seq<char> {
    "Codex cannot write this project"@
}

/// Whether an agent's denial has been raised already.
pub open spec fn has_denial(list: Seq<AttentionView>, agent_id: u128) -> bool {
    exists|i: int|
        0 <= i < list.len() && (#[trigger] list[i]).agent_id == Some(agent_id) && list[i].title
            == denial_title()
}

/// Whether an agent is blocked by a denial that has been raised.
pub open spec fn has_blocked(list: Seq<AttentionView>, agent_id: u128) -> bool {
    exists|i: int|
        0 <= i < list.len() && (#[trigger] list[i]).agent_id == Some(agent_id) && list[i].kind
            == AttentionKind::Blocked && list[i].title == denial_title()
}

/// The name of a project, where it is known.
pub open spec fn project_name(state: RuntimeView, project_id: Option<u128>) -> Option<Seq<char>> {
    match project_id {
        Some(id) => match state.project(id) {
            Some(project) => Some(project.name),
            None => None,
        },
        None => None,
    }
}

/// A notice is raised: it is kept, saved and told.
pub open spec fn raised(state: RuntimeView, item: AttentionView) -> Step {
    Step {
        state: RuntimeView { attention: state.attention.push(item), ..state },
        effects: seq![
            EffectView::SaveAttention(item),
            EffectView::Tell(ServerEventView::AttentionRaised(item)),
        ],
    }
}

/// The notice that an agent cannot write its project.
pub open spec fn denial_notice(
    state: RuntimeView,
    agent_id: u128,
    body: Seq<char>,
    now: i64,
    fresh: u128,
) -> AttentionView {
    let project_id = match state.agent(agent_id) {
        Some(agent) => Some(agent.run.project_id),
        None => None,
    };
    AttentionView {
        id: fresh,
        kind: AttentionKind::Blocked,
        agent_id: Some(agent_id),
        project_id,
        project_name: project_name(state, project_id),
        agent_name: match state.agent(agent_id) {
            Some(agent) => Some(display_name(agent.run)),
            None => None,
        },
        title: denial_title(),
        body: summary_of(body),
        created_at: now,
        read_at: None,
    }
}

/// That an agent cannot write its project is raised, once.
pub open spec fn denial_raised(
    state: RuntimeView,
    agent_id: u128,
    body: Seq<char>,
    now: i64,
    fresh: u128,
) -> Step {
    if has_denial(state.attention, agent_id) {
        stays(state)
    } else {
        raised(state, denial_notice(state, agent_id, body, now, fresh))
    }
}

/// An agent's run has failed.
pub open spec fn failure_recorded(
    state: RuntimeView,
    agent_id: u128,
    message: Seq<char>,
    run_id: Option<u128>,
    now: i64,
    fresh: u128,
) -> Step {
    let text = trimmed(message);
    if text.len() == 0 {
        stays(state)
    } else {
        match working_at(state, agent_id, run_id) {
            None => stays(state),
            Some(i) => {
                let agent = state.agents[i];
                let failed = state.with_agent(
                    i,
                    AgentView {
                        terminal_failure: Some(text),
                        run: RunView { state: AgentState::Failed, ..agent.run },
                        ..agent
                    },
                );
                let told = message_appended(failed, agent_id, AgentChatRole::System, text, run_id, now);
                if is_denial(text) {
                    after(told.effects, denial_raised(told.state, agent_id, text, now, fresh))
                } else {
                    told
                }
            },
        }
    }
}

/// Codex has made a thread for an agent.
pub open spec fn thread_started(
    state: RuntimeView,
    agent_id: u128,
    thread: Seq<char>,
    title: Option<Seq<char>>,
    run_id: Option<u128>,
    now: i64,
) -> Step {
    match heard_at(state, agent_id, run_id) {
        None => stays(state),
        Some(i) => {
            let agent = state.agents[i];
            agent_saved(
                state,
                i,
                AgentView {
                    run: RunView {
                        native_session_id: Some(thread),
                        codex_title: match title {
                            Some(title) => Some(title),
                            None => agent.run.codex_title,
                        },
                        updated_at: now,
                        resume_block_reason: None,
                        ..agent.run
                    },
                    ..agent
                },
            )
        },
    }
}

/// Codex has given an agent's session a title.
pub open spec fn title_given(
    state: RuntimeView,
    agent_id: u128,
    title: Seq<char>,
    run_id: Option<u128>,
    now: i64,
) -> Step {
    match heard_at(state, agent_id, run_id) {
        None => stays(state),
        Some(i) => {
            let agent = state.agents[i];
            agent_saved(
                state,
                i,
                AgentView {
                    run: RunView { codex_title: Some(title), updated_at: now, ..agent.run },
                    ..agent
                },
            )
        },
    }
}

/// A turn of an agent is complete.
pub open spec fn turn_completed(
    state: RuntimeView,
    agent_id: u128,
    title: Option<Seq<char>>,
    run_id: Option<u128>,
    now: i64,
) -> Step {
    match working_at(state, agent_id, run_id) {
        None => stays(state),
        Some(i) => {
            let agent = state.agents[i];
            agent_saved(
                state,
                i,
                AgentView {
                    terminal_failure: None,
                    run: RunView {
                        state: AgentState::Completed,
                        last_visible_action: Some("Turn completed"@),
                        codex_title: match title {
                            Some(title) => Some(title),
                            None => agent.run.codex_title,
                        },
                        updated_at: now,
                        ..agent.run
                    },
                    ..agent
                },
            )
        },
    }
}

/// What an item that begins is shown as.
pub open spec fn item_shown(kind: Option<Seq<char>>) -> Seq<char> {
    if kind == Some("command_execution"@) {
        "Running a command"@
    } else if kind == Some("agent_message"@) {
        "Writing a response"@
    } else {
        "Processing"@
    }
}

/// What an item that is completed leads to.
pub open spec fn item_completed(
    state: RuntimeView,
    agent_id: u128,
    value: JsonView,
    run_id: Option<u128>,
    now: i64,
    fresh: u128,
) -> Step {
    match value.member("item"@) {
        None => stays(state),
        Some(item) => if item.text_at("type"@) == Some("agent_message"@) {
            match item.text_at("text"@) {
                Some(text) => message_appended(
                    state,
                    agent_id,
                    AgentChatRole::Assistant,
                    trimmed(text),
                    run_id,
                    now,
                ),
                None => stays(state),
            }
        } else if item.text_at("type"@) == Some("command_execution"@) {
            match item.text_at("command"@) {
                Some(text) => message_appended(
                    state,
                    agent_id,
                    AgentChatRole::Tool,
                    trimmed(text),
                    run_id,
                    now,
                ),
                None => stays(state),
            }
        } else if item.text_at("type"@) == Some("error"@) {
            match diagnostic_message(value) {
                Some(message) => failure_recorded(state, agent_id, message, run_id, now, fresh),
                None => stays(state),
            }
        } else {
            stays(state)
        },
    }
}

/// What an event of Codex leads to. `stored` is the title that Codex keeps for
/// the thread, where it keeps one.
pub open spec fn event_heard(
    state: RuntimeView,
    agent_id: u128,
    run_id: Option<u128>,
    kind: Seq<char>,
    value: JsonView,
    stored: Option<Seq<char>>,
    now: i64,
    fresh: u128,
) -> Step {
    if kind == "turn.started"@ {
        turn_started(state, agent_id, run_id, now)
    } else if kind == "thread.started"@ {
        match value.text_at("thread_id"@) {
            Some(thread) => thread_started(
                state,
                agent_id,
                thread,
                match session_title(value) {
                    Some(title) => Some(title),
                    None => stored,
                },
                run_id,
                now,
            ),
            None => stays(state),
        }
    } else if kind == "thread.updated"@ || kind == "thread.renamed"@ || kind == "session.updated"@ {
        match session_title(value) {
            Some(title) => title_given(state, agent_id, title, run_id, now),
            None => stays(state),
        }
    } else if kind == "item.started"@ {
        action_shown(state, agent_id, item_shown(value.text_at2("item"@, "type"@)), run_id, now)
    } else if kind == "item.completed"@ {
        item_completed(state, agent_id, value, run_id, now, fresh)
    } else if kind == "turn.completed"@ {
        turn_completed(state, agent_id, stored, run_id, now)
    } else if kind == "turn.failed"@ || kind == "error"@ {
        let message = match diagnostic_message(value) {
            Some(message) => message,
            None => "Codex reported "@ + kind,
        };
        if is_reconnect(message) {
            message_appended(state, agent_id, AgentChatRole::System, message, run_id, now)
        } else {
            failure_recorded(state, agent_id, message, run_id, now, fresh)
        }
    } else {
        match explicit_error(value) {
            Some(message) => failure_recorded(state, agent_id, message, run_id, now, fresh),
            None => stays(state),
        }
    }
}

/// What a line of Codex leads to.
pub open spec fn line_heard(
    state: RuntimeView,
    agent_id: u128,
    run_id: Option<u128>,
    line: Seq<char>,
    value: Option<JsonView>,
    stored: Option<Seq<char>>,
    now: i64,
    fresh: u128,
) -> Step {
    match value {
        None => if is_diagnostic(trimmed(line)) {
            Step {
                state,
                effects: seq![EffectView::Log { stream: "stdout"@, text: trimmed(line) }],
            }
        } else {
            stays(state)
        },
        Some(value) => match value.text_at("type"@) {
            None => stays(state),
            Some(kind) => event_heard(state, agent_id, run_id, kind, value, stored, now, fresh),
        },
    }
}

/// What a line of diagnostics leads to.
pub open spec fn diagnostics_heard(
    state: RuntimeView,
    agent_id: u128,
    run_id: Option<u128>,
    line: Seq<char>,
    now: i64,
    fresh: u128,
) -> Step {
    let text = trimmed(line);
    if text.len() == 0 {
        stays(state)
    } else {
        let logged = seq![EffectView::Log { stream: "stderr"@, text }];
        if is_terminal_error(text) {
            after(logged, failure_recorded(state, agent_id, text, run_id, now, fresh))
        } else {
            Step { state, effects: logged }
        }
    }
}

/// The last message of the system in a chat.
pub open spec fn last_system_text(messages: Seq<MessageView>) -> Option<Seq<char>>
    decreases messages.len(),
{
    if messages.len() == 0 {
        None
    } else if messages.last().role == AgentChatRole::System {
        Some(messages.last().text)
    } else {
        last_system_text(messages.drop_last())
    }
}

/// Whether an app server had told how its turn ended.
pub open spec fn has_ended(state: AgentState) -> bool {
    state == AgentState::Completed || state == AgentState::Failed || state == AgentState::Interrupted
}

/// An agent whose process has ended.
pub open spec fn finished_agent(agent: AgentView, app_server: bool, code: Option<i32>, now: i64) -> AgentView {
    let stopping = agent.run.state == AgentState::Stopping;
    let told = app_server && has_ended(agent.run.state);
    let decided = !stopping && agent.run.state != AgentState::Interrupted && !told;
    AgentView {
        run: RunView {
            can_stop: false,
            state: if stopping {
                AgentState::Interrupted
            } else if decided {
                if agent.terminal_failure is None && code == Some(0i32) {
                    AgentState::Completed
                } else {
                    AgentState::Failed
                }
            } else {
                agent.run.state
            },
            last_visible_action: if stopping {
                Some("Stopped by user"@)
            } else if decided {
                Some(
                    match code {
                        Some(code) => "Codex exited with code "@ + signed_decimal(code as int),
                        None => "Codex exited without a code"@,
                    },
                )
            } else {
                agent.run.last_visible_action
            },
            updated_at: now,
            finished_at: Some(now),
            exit_code: if told {
                agent.run.exit_code
            } else {
                code
            },
            resume_block_reason: resume_block(agent.run.native_session_id),
            ..agent.run
        },
        ..agent
    }
}

/// What calls for attention when an agent has ended.
pub open spec fn finish_notice(
    agent: AgentView,
    blocked: bool,
    name: Option<Seq<char>>,
    now: i64,
    fresh: u128,
) -> Option<AttentionView> {
    let common = AttentionView {
        id: fresh,
        kind: AttentionKind::Failed,
        agent_id: Some(agent.run.id),
        project_id: Some(agent.run.project_id),
        project_name: name,
        agent_name: Some(display_name(agent.run)),
        title: "Agent failed"@,
        body: summary_of(
            match agent.terminal_failure {
                Some(text) => text,
                None => match last_system_text(agent.messages) {
                    Some(text) => text,
                    None => match agent.run.last_visible_action {
                        Some(text) => text,
                        None => "The agent failed"@,
                    },
                },
            },
        ),
        created_at: now,
        read_at: None,
    };
    if agent.run.state == AgentState::Failed {
        if blocked {
            None
        } else {
            Some(common)
        }
    } else if agent.run.state == AgentState::Completed {
        Some(
            AttentionView {
                kind: AttentionKind::Completed,
                title: "Agent finished"@,
                body: "Task completed successfully."@,
                ..common
            },
        )
    } else {
        None
    }
}

/// The process that worked for an agent has ended.
pub open spec fn agent_finished(
    state: RuntimeView,
    agent_id: u128,
    run_id: Option<u128>,
    code: Option<i32>,
    now: i64,
    fresh: u128,
) -> Step {
    if state.is_stale(agent_id, run_id) {
        stays(state)
    } else {
        let app_server = state.child(agent_id) matches Some(child) && child.app_server;
        let freed = without_child(state, agent_id);
        let freed = if app_server {
            without_turn(freed, agent_id)
        } else {
            freed
        };
        match freed.agent_at(agent_id) {
            None => stays(freed),
            Some(i) => {
                let agent = finished_agent(freed.agents[i], app_server, code, now);
                let saved = agent_saved(freed, i, agent);
                match finish_notice(
                    agent,
                    has_blocked(freed.attention, agent_id),
                    project_name(freed, Some(agent.run.project_id)),
                    now,
                    fresh,
                ) {
                    Some(item) => after(saved.effects, raised(saved.state, item)),
                    None => saved,
                }
            },
        }
    }
}

/// An agent that the user stopped.
pub open spec fn stopped_agent(agent: AgentView, now: i64) -> AgentView {
    AgentView {
        run: RunView {
            state: AgentState::Interrupted,
            can_stop: false,
            last_visible_action: Some("Stopped by user"@),
            updated_at: now,
            finished_at: Some(now),
            resume_block_reason: resume_block(agent.run.native_session_id),
            ..agent.run
        },
        ..agent
    }
}

/// A run that was stopped is over, though nobody saw its process end.
pub open spec fn run_stopped(state: RuntimeView, agent_id: u128, run_id: u128, now: i64) -> Step {
    if !state.is_current(agent_id, run_id) {
        stays(state)
    } else {
        let freed = without_child(state, agent_id);
        match freed.agent_at(agent_id) {
            None => stays(freed),
            Some(i) => agent_saved(freed, i, stopped_agent(freed.agents[i], now)),
        }
    }
}

// ---- execution ----

impl RuntimeState {
    /// The place of an agent, where what a run says of it still counts.
    pub(crate) fn find_heard(&self, agent_id: u128, run_id: Option<u128>) -> (r: Option<usize>)
        ensures
            match r {
                Some(i) => i < self.agents.len() && heard_at(self@, agent_id, run_id) == Some(i as int)
                    && self.agents@[i as int].run.id == agent_id,
                None => heard_at(self@, agent_id, run_id) is None,
            },
    {
        if self.is_stale_run(agent_id, run_id) {
            return None;
        }
        self.find_agent(agent_id)
    }

    /// The place of an agent that is not being stopped, where what a run says of
    /// it still counts.
    fn find_working(&self, agent_id: u128, run_id: Option<u128>) -> (r: Option<usize>)
        ensures
            match r {
                Some(i) => i < self.agents.len() && working_at(self@, agent_id, run_id) == Some(i as int)
                    && self.agents@[i as int].run.id == agent_id,
                None => working_at(self@, agent_id, run_id) is None,
            },
    {
        match self.find_heard(agent_id, run_id) {
            Some(i) => {
                assert(self@.agents[i as int] == self.agents@[i as int]@);
                if matches!(self.agents[i].run.state, AgentState::Stopping) {
                    None
                } else {
                    Some(i)
                }
            },
            None => None,
        }
    }

    /// A turn of an agent has begun.
    pub fn start_agent_turn(&mut self, agent_id: u128, run_id: Option<u128>, now: i64, effects: &mut Vec<Effect>)
        ensures
            does(
                old(effects)@,
                *final(self),
                final(effects)@,
                turn_started(old(self)@, agent_id, run_id, now),
            ),
    {
        let ghost before = self@;
        match self.find_working(agent_id, run_id) {
            Some(i) => {
                self.agents[i].terminal_failure = None;
                self.agents[i].run.state = AgentState::Working;
                self.agents[i].run.last_visible_action = Some("Codex is working".to_owned());
                self.agents[i].run.updated_at = now;
                self.tell_agent(i, effects);
                assert(self@.agents =~= turn_started(before, agent_id, run_id, now).state.agents);
            },
            None => {
                assert(effects_view(effects@) =~= effects_view(old(effects)@) + Seq::empty());
            },
        }
    }

    /// An agent shows what it is doing.
    pub fn update_agent_action(
        &mut self,
        agent_id: u128,
        action: &str,
        run_id: Option<u128>,
        now: i64,
        effects: &mut Vec<Effect>,
    )
        ensures
            does(
                old(effects)@,
                *final(self),
                final(effects)@,
                action_shown(old(self)@, agent_id, action@, run_id, now),
            ),
    {
        let ghost before = self@;
        match self.find_working(agent_id, run_id) {
            Some(i) => {
                self.agents[i].run.last_visible_action = Some(action.to_owned());
                self.agents[i].run.updated_at = now;
                self.tell_agent(i, effects);
                assert(self@.agents =~= action_shown(before, agent_id, action@, run_id, now).state.agents);
            },
            None => {
                assert(effects_view(effects@) =~= effects_view(old(effects)@) + Seq::empty());
            },
        }
    }

    /// A message joins an agent's chat.
    pub fn append_message(
        &mut self,
        agent_id: u128,
        role: AgentChatRole,
        text: &str,
        run_id: Option<u128>,
        now: i64,
        effects: &mut Vec<Effect>,
    )
        ensures
            does(
                old(effects)@,
                *final(self),
                final(effects)@,
                message_appended(old(self)@, agent_id, role, text@, run_id, now),
            ),
    {
        let ghost before = self@;
        let ghost told = effects_view(effects@);
        let ghost step = message_appended(before, agent_id, role, text@, run_id, now);
        if trim(text).as_str().is_empty() {
            assert(effects_view(effects@) =~= told + Seq::empty());
            return ;
        }
        match self.find_heard(agent_id, run_id) {
            Some(i) => {
                let message = AgentChatMessage { agent_id, role, text: text.to_owned(), created_at: now };
                let ghost messages = messages_view(self.agents@[i as int].messages@);
                self.agents[i].messages.push(message.copy());
                self.agents[i].run.updated_at = now;
                push_effect(effects, Effect::SaveMessage(message.copy()));
                let record = &self.agents[i];
                push_effect(
                    effects,
                    Effect::SaveAgent {
                        run: record.run.copy(),
                        failure: copy_text(&record.terminal_failure),
                    },
                );
                push_effect(effects, Effect::Tell(ServerEvent::AgentMessageAppended(message)));
                proof {
                    assert(messages_view(self.agents@[i as int].messages@) =~= messages.push(message@));
                    assert(self@.agents =~= step.state.agents);
                    assert(effects_view(effects@) =~= told + step.effects);
                }
            },
            None => {
                assert(effects_view(effects@) =~= told + Seq::empty());
            },
        }
    }

    /// Whether an agent's denial has been raised already, and whether as one that
    /// blocks it.
    fn find_denial(&self, agent_id: u128) -> (r: (bool, bool))
        ensures
            r.0 == has_denial(self@.attention, agent_id),
            r.1 == has_blocked(self@.attention, agent_id),
    {
        let ghost list = self@.attention;
        let mut any = false;
        let mut blocked = false;
        let mut i: usize = 0;
        while i < self.attention.len()
            invariant
                0 <= i <= self.attention.len(),
                list == self@.attention,
                any == exists|k: int|
                    0 <= k < i && (#[trigger] list[k]).agent_id == Some(agent_id) && list[k].title
                        == denial_title(),
                blocked == exists|k: int|
                    0 <= k < i && (#[trigger] list[k]).agent_id == Some(agent_id) && list[k].kind
                        == AttentionKind::Blocked && list[k].title == denial_title(),
            decreases self.attention.len() - i,
        {
            assert(list[i as int] == self.attention@[i as int]@);
            let item = &self.attention[i];
            let mine = match item.agent_id {
                Some(owner) => owner == agent_id,
                None => false,
            };
            if mine && same_text(item.title.as_str(), "Codex cannot write this project") {
                any = true;
                assert(list[i as int].agent_id == Some(agent_id));
                if matches!(item.kind, AttentionKind::Blocked) {
                    blocked = true;
                }
            }
            i += 1;
        }
        (any, blocked)
    }

    /// The name of a project, where it is known.
    pub(crate) fn name_of_project(&self, project_id: u128) -> (r: Option<String>)
        ensures
            text_of(r) == project_name(self@, Some(project_id)),
    {
        match self.find_project(project_id) {
            Some(i) => Some(self.projects[i].name.clone()),
            None => None,
        }
    }

    /// Raises a notice.
    pub(crate) fn raise(&mut self, item: RuntimeAttention, effects: &mut Vec<Effect>)
        ensures
            does(old(effects)@, *final(self), final(effects)@, raised(old(self)@, item@)),
    {
        let ghost before = self@;
        let ghost told = effects_view(effects@);
        self.attention.push(item.copy());
        push_effect(effects, Effect::SaveAttention(item.copy()));
        push_effect(effects, Effect::Tell(ServerEvent::AttentionRaised(item)));
        proof {
            assert(self@.attention =~= before.attention.push(item@));
            assert(effects_view(effects@) =~= told + raised(before, item@).effects);
        }
    }

    /// Raises, once, that an agent cannot write its project.
    pub fn raise_workspace_permission_attention(
        &mut self,
        agent_id: u128,
        body: &str,
        now: i64,
        fresh: u128,
        effects: &mut Vec<Effect>,
    )
        ensures
            does(
                old(effects)@,
                *final(self),
                final(effects)@,
                denial_raised(old(self)@, agent_id, body@, now, fresh),
            ),
    {
        if self.find_denial(agent_id).0 {
            assert(effects_view(effects@) =~= effects_view(old(effects)@) + Seq::empty());
            return ;
        }
        let found = self.find_agent(agent_id);
        let project_id = match found {
            Some(i) => Some(self.agents[i].run.project_id),
            None => None,
        };
        let project_name = match project_id {
            Some(id) => self.name_of_project(id),
            None => None,
        };
        let agent_name = match found {
            Some(i) => Some(agent_display_name(&self.agents[i].run)),
            None => None,
        };
        let item = RuntimeAttention {
            id: fresh,
            kind: AttentionKind::Blocked,
            agent_id: Some(agent_id),
            project_id,
            project_name,
            agent_name,
            title: "Codex cannot write this project".to_owned(),
            body: notification_summary(body),
            created_at: now,
            read_at: None,
        };
        self.raise(item, effects);
    }

    /// An agent's run has failed.
    pub fn record_terminal_failure(
        &mut self,
        agent_id: u128,
        message: &str,
        run_id: Option<u128>,
        now: i64,
        fresh: u128,
        effects: &mut Vec<Effect>,
    )
        ensures
            does(
                old(effects)@,
                *final(self),
                final(effects)@,
                failure_recorded(old(self)@, agent_id, message@, run_id, now, fresh),
            ),
    {
        let ghost before = self@;
        let ghost told = effects_view(effects@);
        let text = trim(message);
        if text.as_str().is_empty() {
            assert(effects_view(effects@) =~= told + Seq::empty());
            return ;
        }
        match self.find_working(agent_id, run_id) {
            Some(i) => {
                self.agents[i].terminal_failure = Some(text.clone());
                self.agents[i].run.state = AgentState::Failed;
                let ghost failed = before.with_agent(
                    i as int,
                    AgentView {
                        terminal_failure: Some(text@),
                        run: RunView { state: AgentState::Failed, ..before.agents[i as int].run },
                        ..before.agents[i as int]
                    },
                );
                assert(self@.agents =~= failed.agents);
                self.append_message(agent_id, AgentChatRole::System, text.as_str(), run_id, now, effects);
                let ghost step = message_appended(
                    failed,
                    agent_id,
                    AgentChatRole::System,
                    text@,
                    run_id,
                    now,
                );
                if is_workspace_permission_denial(text.as_str()) {
                    let ghost raise = denial_raised(step.state, agent_id, text@, now, fresh);
                    self.raise_workspace_permission_attention(agent_id, text.as_str(), now, fresh, effects);
                    assert(effects_view(effects@) =~= told + (step.effects + raise.effects));
                }
            },
            None => {
                assert(effects_view(effects@) =~= told + Seq::empty());
            },
        }
    }

    /// Codex has made a thread for an agent.
    fn start_thread(
        &mut self,
        agent_id: u128,
        thread: &str,
        title: Option<String>,
        run_id: Option<u128>,
        now: i64,
        effects: &mut Vec<Effect>,
    )
        ensures
            does(
                old(effects)@,
                *final(self),
                final(effects)@,
                thread_started(old(self)@, agent_id, thread@, text_of(title), run_id, now),
            ),
    {
        let ghost before = self@;
        let ghost step = thread_started(before, agent_id, thread@, text_of(title), run_id, now);
        match self.find_heard(agent_id, run_id) {
            Some(i) => {
                self.agents[i].run.native_session_id = Some(thread.to_owned());
                if title.is_some() {
                    self.agents[i].run.codex_title = title;
                }
                self.agents[i].run.updated_at = now;
                self.agents[i].run.resume_block_reason = None;
                self.tell_agent(i, effects);
                assert(self@.agents =~= step.state.agents);
            },
            None => {
                assert(effects_view(effects@) =~= effects_view(old(effects)@) + Seq::empty());
            },
        }
    }

    /// Codex has given an agent's session a title.
    fn give_title(
        &mut self,
        agent_id: u128,
        title: String,
        run_id: Option<u128>,
        now: i64,
        effects: &mut Vec<Effect>,
    )
        ensures
            does(
                old(effects)@,
                *final(self),
                final(effects)@,
                title_given(old(self)@, agent_id, title@, run_id, now),
            ),
    {
        let ghost before = self@;
        let ghost step = title_given(before, agent_id, title@, run_id, now);
        match self.find_heard(agent_id, run_id) {
            Some(i) => {
                self.agents[i].run.codex_title = Some(title);
                self.agents[i].run.updated_at = now;
                self.tell_agent(i, effects);
                assert(self@.agents =~= step.state.agents);
            },
            None => {
                assert(effects_view(effects@) =~= effects_view(old(effects)@) + Seq::empty());
            },
        }
    }

    /// A turn of an agent is complete.
    fn complete_turn(
        &mut self,
        agent_id: u128,
        title: Option<String>,
        run_id: Option<u128>,
        now: i64,
        effects: &mut Vec<Effect>,
    )
        ensures
            does(
                old(effects)@,
                *final(self),
                final(effects)@,
                turn_completed(old(self)@, agent_id, text_of(title), run_id, now),
            ),
    {
        let ghost before = self@;
        let ghost step = turn_completed(before, agent_id, text_of(title), run_id, now);
        match self.find_working(agent_id, run_id) {
            Some(i) => {
                self.agents[i].run.state = AgentState::Completed;
                self.agents[i].terminal_failure = None;
                self.agents[i].run.last_visible_action = Some("Turn completed".to_owned());
                if title.is_some() {
                    self.agents[i].run.codex_title = title;
                }
                self.agents[i].run.updated_at = now;
                self.tell_agent(i, effects);
                assert(self@.agents =~= step.state.agents);
            },
            None => {
                assert(effects_view(effects@) =~= effects_view(old(effects)@) + Seq::empty());
            },
        }
    }

    /// What an item that is completed leads to.
    fn complete_item(
        &mut self,
        agent_id: u128,
        value: &Json,
        run_id: Option<u128>,
        now: i64,
        fresh: u128,
        effects: &mut Vec<Effect>,
    )
        ensures
            does(
                old(effects)@,
                *final(self),
                final(effects)@,
                item_completed(old(self)@, agent_id, value@, run_id, now, fresh),
            ),
    {
        assert(effects_view(effects@) =~= effects_view(old(effects)@) + Seq::empty());
        let item = match value.get("item") {
            Some(item) => item,
            None => {
                return ;
            },
        };
        let kind = match item.text_at("type") {
            Some(kind) => kind,
            None => {
                return ;
            },
        };
        if same_text(kind, "agent_message") {
            if let Some(text) = item.text_at("text") {
                self.append_message(
                    agent_id,
                    AgentChatRole::Assistant,
                    trim(text).as_str(),
                    run_id,
                    now,
                    effects,
                );
            }
        } else if same_text(kind, "command_execution") {
            if let Some(text) = item.text_at("command") {
                self.append_message(
                    agent_id,
                    AgentChatRole::Tool,
                    trim(text).as_str(),
                    run_id,
                    now,
                    effects,
                );
            }
        } else if same_text(kind, "error") {
            if let Some(message) = extract_diagnostic_message(value) {
                self.record_terminal_failure(agent_id, message.as_str(), run_id, now, fresh, effects);
            }
        }
    }

    /// What an event of Codex leads to.
    fn hear_event(
        &mut self,
        agent_id: u128,
        run_id: Option<u128>,
        kind: &str,
        value: &Json,
        stored: Option<String>,
        now: i64,
        fresh: u128,
        effects: &mut Vec<Effect>,
    )
        ensures
            does(
                old(effects)@,
                *final(self),
                final(effects)@,
                event_heard(old(self)@, agent_id, run_id, kind@, value@, text_of(stored), now, fresh),
            ),
    {
        assert(effects_view(effects@) =~= effects_view(old(effects)@) + Seq::empty());
        if same_text(kind, "turn.started") {
            self.start_agent_turn(agent_id, run_id, now, effects);
            return ;
        }
        if same_text(kind, "thread.started") {
            if let Some(thread) = value.text_at("thread_id") {
                let title = match codex_session_title(value) {
                    Some(title) => Some(title),
                    None => stored,
                };
                self.start_thread(agent_id, thread, title, run_id, now, effects);
            }
            return ;
        }
        if same_text(kind, "thread.updated") || same_text(kind, "thread.renamed") || same_text(
            kind,
            "session.updated",
        ) {
            if let Some(title) = codex_session_title(value) {
                self.give_title(agent_id, title, run_id, now, effects);
            }
            return ;
        }
        if same_text(kind, "item.started") {
            let action = match value.text_at2("item", "type") {
                Some(item) => if same_text(item, "command_execution") {
                    "Running a command"
                } else if same_text(item, "agent_message") {
                    "Writing a response"
                } else {
                    "Processing"
                },
                None => "Processing",
            };
            self.update_agent_action(agent_id, action, run_id, now, effects);
            return ;
        }
        if same_text(kind, "item.completed") {
            self.complete_item(agent_id, value, run_id, now, fresh, effects);
            return ;
        }
        if same_text(kind, "turn.completed") {
            self.complete_turn(agent_id, stored, run_id, now, effects);
            return ;
        }
        if same_text(kind, "turn.failed") || same_text(kind, "error") {
            let message = match extract_diagnostic_message(value) {
                Some(message) => message,
                None => {
                    let mut text = "Codex reported ".to_owned();
                    text.append(kind);
                    text
                },
            };
            if is_transient_reconnect(message.as_str()) {
                self.append_message(
                    agent_id,
                    AgentChatRole::System,
                    message.as_str(),
                    run_id,
                    now,
                    effects,
                );
            } else {
                self.record_terminal_failure(agent_id, message.as_str(), run_id, now, fresh, effects);
            }
            return ;
        }
        if let Some(message) = extract_explicit_error(value) {
            self.record_terminal_failure(agent_id, message.as_str(), run_id, now, fresh, effects);
        }
    }

    /// The thread whose stored title is looked up when a line of Codex is heard.
    pub fn titled_thread(&self, agent_id: u128, value: &Json) -> (r: Option<String>)
        ensures
            text_of(r) == thread_to_title(self@, agent_id, value@),
    {
        let kind = match value.text_at("type") {
            Some(kind) => kind,
            None => {
                return None;
            },
        };
        if same_text(kind, "thread.started") {
            match value.text_at("thread_id") {
                Some(thread) => Some(thread.to_owned()),
                None => None,
            }
        } else if same_text(kind, "turn.completed") {
            match self.find_agent(agent_id) {
                Some(i) => copy_text(&self.agents[i].run.native_session_id),
                None => None,
            }
        } else {
            None
        }
    }

    /// What a line of Codex leads to, its value having been read.
    pub fn handle_codex_value(
        &mut self,
        agent_id: u128,
        run_id: Option<u128>,
        line: &str,
        value: Option<&Json>,
        stored: Option<String>,
        now: i64,
        fresh: u128,
        effects: &mut Vec<Effect>,
    )
        ensures
            does(
                old(effects)@,
                *final(self),
                final(effects)@,
                line_heard(
                    old(self)@,
                    agent_id,
                    run_id,
                    line@,
                    crate::app_server::shown(value),
                    text_of(stored),
                    now,
                    fresh,
                ),
            ),
    {
        let ghost told = effects_view(effects@);
        assert(told =~= told + Seq::empty());
        match value {
            None => {
                let text = trim(line);
                if looks_like_diagnostic(text.as_str()) {
                    push_effect(effects, Effect::Log { stream: "stdout", text });
                    assert(effects_view(effects@) =~= told + seq![
                        EffectView::Log { stream: "stdout"@, text: text@ },
                    ]);
                }
            },
            Some(value) => {
                if let Some(kind) = value.text_at("type") {
                    self.hear_event(agent_id, run_id, kind, value, stored, now, fresh, effects);
                }
            },
        }
    }

    /// What a line of Codex leads to.
    pub fn handle_codex_stdout_line(
        &mut self,
        agent_id: u128,
        run_id: Option<u128>,
        line: &str,
        stored: Option<String>,
        now: i64,
        fresh: u128,
        effects: &mut Vec<Effect>,
    )
        ensures
            does(
                old(effects)@,
                *final(self),
                final(effects)@,
                line_heard(
                    old(self)@,
                    agent_id,
                    run_id,
                    line@,
                    parsed_json(line@),
                    text_of(stored),
                    now,
                    fresh,
                ),
            ),
    {
        match read_json(line) {
            Some(value) => self.handle_codex_value(
                agent_id,
                run_id,
                line,
                Some(&value),
                stored,
                now,
                fresh,
                effects,
            ),
            None => self.handle_codex_value(agent_id, run_id, line, None, stored, now, fresh, effects),
        }
    }

    /// What a line of diagnostics leads to.
    pub fn handle_codex_stderr_line(
        &mut self,
        agent_id: u128,
        run_id: Option<u128>,
        line: &str,
        now: i64,
        fresh: u128,
        effects: &mut Vec<Effect>,
    )
        ensures
            does(
                old(effects)@,
                *final(self),
                final(effects)@,
                diagnostics_heard(old(self)@, agent_id, run_id, line@, now, fresh),
            ),
    {
        let ghost told = effects_view(effects@);
        let ghost before = self@;
        let text = trim(line);
        if text.as_str().is_empty() {
            assert(told =~= told + Seq::empty());
            return ;
        }
        push_effect(effects, Effect::Log { stream: "stderr", text: text.clone() });
        let ghost logged = seq![EffectView::Log { stream: "stderr"@, text: text@ }];
        assert(effects_view(effects@) =~= told + logged);
        if is_terminal_codex_stderr(text.as_str()) {
            self.record_terminal_failure(agent_id, text.as_str(), run_id, now, fresh, effects);
            assert(effects_view(effects@) =~= told + (logged + failure_recorded(
                before,
                agent_id,
                text@,
                run_id,
                now,
                fresh,
            ).effects));
        }
    }

    /// What calls for attention when an agent has ended.
    fn notice_of_end(&self, i: usize, blocked: bool, name: Option<String>, now: i64, fresh: u128) -> (r: Option<
        RuntimeAttention,
    >)
        requires
            i < self.agents.len(),
        ensures
            match finish_notice(self@.agents[i as int], blocked, text_of(name), now, fresh) {
                Some(item) => r matches Some(notice) && notice@ == item,
                None => r is None,
            },
    {
        let record = &self.agents[i];
        let failed = match record.run.state {
            AgentState::Failed => true,
            AgentState::Completed => false,
            _ => {
                return None;
            },
        };
        if failed && blocked {
            return None;
        }
        let (kind, title, body) = if failed {
            let body = if let Some(text) = &record.terminal_failure {
                notification_summary(text.as_str())
            } else if let Some(text) = last_system_message(&record.messages) {
                notification_summary(text)
            } else if let Some(text) = &record.run.last_visible_action {
                notification_summary(text.as_str())
            } else {
                notification_summary("The agent failed")
            };
            (AttentionKind::Failed, "Agent failed", body)
        } else {
            (AttentionKind::Completed, "Agent finished", "Task completed successfully.".to_owned())
        };
        Some(
            RuntimeAttention {
                id: fresh,
                kind,
                agent_id: Some(record.run.id),
                project_id: Some(record.run.project_id),
                project_name: name,
                agent_name: Some(agent_display_name(&record.run)),
                title: title.to_owned(),
                body,
                created_at: now,
                read_at: None,
            },
        )
    }

    /// The process that worked for an agent has ended.
    pub fn finish_agent(
        &mut self,
        agent_id: u128,
        run_id: Option<u128>,
        code: Option<i32>,
        now: i64,
        fresh: u128,
        effects: &mut Vec<Effect>,
    )
        ensures
            does(
                old(effects)@,
                *final(self),
                final(effects)@,
                agent_finished(old(self)@, agent_id, run_id, code, now, fresh),
            ),
    {
        let ghost told = effects_view(effects@);
        assert(told =~= told + Seq::empty());
        if self.is_stale_run(agent_id, run_id) {
            return ;
        }
        let app_server = match self.find_child(agent_id) {
            Some(i) => self.children[i].app_server,
            None => false,
        };
        self.forget_child(agent_id);
        if app_server {
            self.forget_turn(agent_id);
        }
        let ghost freed = self@;
        let i = match self.find_agent(agent_id) {
            Some(i) => i,
            None => {
                return ;
            },
        };
        let blocked = self.find_denial(agent_id).1;
        let name = self.name_of_project(self.agents[i].run.project_id);
        let ghost agent = freed.agents[i as int];
        let stopping = matches!(self.agents[i].run.state, AgentState::Stopping);
        let interrupted = matches!(self.agents[i].run.state, AgentState::Interrupted);
        let told_end = app_server && (match self.agents[i].run.state {
            AgentState::Completed => true,
            AgentState::Failed => true,
            AgentState::Interrupted => true,
            _ => false,
        });
        self.agents[i].run.can_stop = false;
        if stopping {
            self.agents[i].run.state = AgentState::Interrupted;
            self.agents[i].run.last_visible_action = Some("Stopped by user".to_owned());
        } else if !interrupted && !told_end {
            let clean = match code {
                Some(code) => code == 0,
                None => false,
            };
            self.agents[i].run.state = if self.agents[i].terminal_failure.is_none() && clean {
                AgentState::Completed
            } else {
                AgentState::Failed
            };
            let action = match code {
                Some(code) => {
                    let mut text = "Codex exited with code ".to_owned();
                    text.append(signed_decimal_text(code as i64).as_str());
                    text
                },
                None => "Codex exited without a code".to_owned(),
            };
            self.agents[i].run.last_visible_action = Some(action);
        }
        self.agents[i].run.updated_at = now;
        self.agents[i].run.finished_at = Some(now);
        if !told_end {
            self.agents[i].run.exit_code = code;
        }
        let reason = resume_block_reason(&self.agents[i].run.native_session_id);
        self.agents[i].run.resume_block_reason = reason;
        let ghost saved = agent_saved(freed, i as int, finished_agent(agent, app_server, code, now));
        assert(self@.agents =~= saved.state.agents);
        let notice = self.notice_of_end(i, blocked, name, now, fresh);
        self.tell_agent(i, effects);
        if let Some(item) = notice {
            self.raise(item, effects);
            assert(effects_view(effects@) =~= told + (saved.effects + raised(saved.state, item@).effects));
        }
    }

    /// A run that was stopped is over, though nobody saw its process end.
    pub fn finalize_stopped_run(&mut self, agent_id: u128, run_id: u128, now: i64, effects: &mut Vec<Effect>)
        ensures
            does(
                old(effects)@,
                *final(self),
                final(effects)@,
                run_stopped(old(self)@, agent_id, run_id, now),
            ),
    {
        let ghost told = effects_view(effects@);
        assert(told =~= told + Seq::empty());
        if !self.is_current_run(agent_id, run_id) {
            return ;
        }
        self.forget_child(agent_id);
        let ghost freed = self@;
        let i = match self.find_agent(agent_id) {
            Some(i) => i,
            None => {
                return ;
            },
        };
        self.agents[i].run.state = AgentState::Interrupted;
        self.agents[i].run.can_stop = false;
        self.agents[i].run.last_visible_action = Some("Stopped by user".to_owned());
        self.agents[i].run.updated_at = now;
        self.agents[i].run.finished_at = Some(now);
        let reason = resume_block_reason(&self.agents[i].run.native_session_id);
        self.agents[i].run.resume_block_reason = reason;
        assert(self@.agents =~= freed.agents.update(
            i as int,
            stopped_agent(freed.agents[i as int], now),
        ));
        self.tell_agent(i, effects);
    }
}

/// The last message of the system in a chat.
fn last_system_message(messages: &Vec<AgentChatMessage>) -> (r: Option<&str>)
    ensures
        str_of(r) == last_system_text(messages_view(messages@)),
{
    let ghost views = messages_view(messages@);
    let mut i: usize = messages.len();
    assert(views.take(views.len() as int) =~= views);
    while i > 0
        invariant
            0 <= i <= messages.len(),
            views == messages_view(messages@),
            last_system_text(views) == last_system_text(views.take(i as int)),
        decreases i,
    {
        assert(views.take(i as int).drop_last() =~= views.take(i - 1));
        assert(views.take(i as int).last() == messages@[i - 1]@);
        if matches!(messages[i - 1].role, AgentChatRole::System) {
            return Some(messages[i - 1].text.as_str());
        }
        i -= 1;
    }
    None
}

// ---- laws ----

/// What comes from a run that another has replaced changes nothing.
pub proof fn lemma_stale_runs_change_nothing(
    state: RuntimeView,
    agent_id: u128,
    run_id: u128,
    line: Seq<char>,
    value: JsonView,
    stored: Option<Seq<char>>,
    code: Option<i32>,
    now: i64,
    fresh: u128,
)
    requires
        !state.is_current(agent_id, run_id),
    ensures
        line_heard(state, agent_id, Some(run_id), line, Some(value), stored, now, fresh) == stays(state),
        agent_finished(state, agent_id, Some(run_id), code, now, fresh) == stays(state),
        run_stopped(state, agent_id, run_id, now) == stays(state),
{
}

/// While an agent is being stopped, nothing that its process says makes it work,
/// fail or succeed.
pub proof fn lemma_stopping_is_not_undone(
    state: RuntimeView,
    agent_id: u128,
    run_id: Option<u128>,
    message: Seq<char>,
    action: Seq<char>,
    title: Option<Seq<char>>,
    now: i64,
    fresh: u128,
)
    requires
        state.agent(agent_id) matches Some(agent) && agent.run.state == AgentState::Stopping,
    ensures
        turn_started(state, agent_id, run_id, now) == stays(state),
        action_shown(state, agent_id, action, run_id, now) == stays(state),
        failure_recorded(state, agent_id, message, run_id, now, fresh) == stays(state),
        turn_completed(state, agent_id, title, run_id, now) == stays(state),
{
}

/// A process that ends while its agent is being stopped leaves the agent
/// interrupted, whatever its code and whatever it said.
pub proof fn lemma_stopped_agents_are_interrupted(
    agent: AgentView,
    app_server: bool,
    code: Option<i32>,
    blocked: bool,
    name: Option<Seq<char>>,
    now: i64,
    fresh: u128,
)
    requires
        agent.run.state == AgentState::Stopping,
    ensures
        finished_agent(agent, app_server, code, now).run.state == AgentState::Interrupted,
        finish_notice(finished_agent(agent, app_server, code, now), blocked, name, now, fresh) is None,
{
}

/// An agent that has ended cannot be stopped, and can be resumed only where
/// Codex made a thread for it.
pub proof fn lemma_ended_agents_are_at_rest(agent: AgentView, app_server: bool, code: Option<i32>, now: i64)
    ensures
        ({
            let ended = finished_agent(agent, app_server, code, now);
            &&& !ended.run.can_stop
            &&& ended.run.finished_at == Some(now)
            &&& ended.run.resume_block_reason is None <==> ended.run.native_session_id is Some
            &&& ended.messages == agent.messages
        }),
{
}

/// How a process ended decides for its agent, unless the agent was being stopped or
/// an app server had told the end already: it is completed exactly where the code is
/// zero and nothing failed before.
pub proof fn lemma_exit_code_decides(agent: AgentView, app_server: bool, code: Option<i32>, now: i64)
    requires
        agent.run.state != AgentState::Stopping,
        agent.run.state != AgentState::Interrupted,
        !(app_server && (agent.run.state == AgentState::Completed || agent.run.state == AgentState::Failed)),
    ensures
        ({
            let ended = finished_agent(agent, app_server, code, now);
            &&& ended.run.state == AgentState::Completed <==> code == Some(0i32) && agent.terminal_failure is None
            &&& ended.run.state != AgentState::Completed ==> ended.run.state == AgentState::Failed
            &&& ended.run.exit_code == code
            &&& ended.terminal_failure == agent.terminal_failure
            &&& code is None ==> ended.run.last_visible_action == Some("Codex exited without a code"@)
            &&& code is Some ==> ended.run.last_visible_action == Some(
                "Codex exited with code "@ + signed_decimal(code->0 as int),
            )
        }),
{
}

/// What an app server told of the end of its turn stands, whatever the code of its
/// process is.
pub proof fn lemma_told_end_stands(agent: AgentView, code: Option<i32>, now: i64)
    requires
        agent.run.state == AgentState::Completed || agent.run.state == AgentState::Failed || agent.run.state
            == AgentState::Interrupted,
    ensures
        finished_agent(agent, true, code, now).run.state == agent.run.state,
        finished_agent(agent, true, code, now).run.exit_code == agent.run.exit_code,
        finished_agent(agent, true, code, now).run.last_visible_action == agent.run.last_visible_action,
{
}

/// An agent that ended is told of once: a failure as a failure, unless a denial was
/// raised for it already, a success as a success, and an interruption not at all.
pub proof fn lemma_ends_are_told(
    agent: AgentView,
    blocked: bool,
    name: Option<Seq<char>>,
    now: i64,
    fresh: u128,
)
    ensures
        ({
            let notice = finish_notice(agent, blocked, name, now, fresh);
            &&& notice is Some <==> agent.run.state == AgentState::Completed || (agent.run.state
                == AgentState::Failed && !blocked)
            &&& notice is Some ==> notice->0.id == fresh && notice->0.agent_id == Some(agent.run.id)
                && notice->0.project_id == Some(agent.run.project_id) && notice->0.project_name == name
                && notice->0.created_at == now && notice->0.read_at is None
            &&& agent.run.state == AgentState::Completed ==> notice->0.kind == AttentionKind::Completed
                && notice->0.title == "Agent finished"@
            &&& agent.run.state == AgentState::Failed && !blocked ==> notice->0.kind == AttentionKind::Failed
                && notice->0.title == "Agent failed"@
            &&& agent.run.state == AgentState::Failed && !blocked && agent.terminal_failure is Some
                ==> notice->0.body == summary_of(agent.terminal_failure->0)
        }),
{
}

/// A turn that begins makes its agent work and forgets an earlier failure; one that
/// is complete leaves it completed.
pub proof fn lemma_turns_move_their_agent(
    state: RuntimeView,
    agent_id: u128,
    run_id: Option<u128>,
    title: Option<Seq<char>>,
    now: i64,
)
    requires
        !state.is_stale(agent_id, run_id),
        state.agent(agent_id) is Some,
        state.agent(agent_id)->0.run.state != AgentState::Stopping,
    ensures
        ({
            let begun = turn_started(state, agent_id, run_id, now).state.agent(agent_id);
            &&& begun is Some
            &&& begun->0.run.state == AgentState::Working
            &&& begun->0.terminal_failure is None
            &&& begun->0.run.updated_at == now
            &&& begun->0.messages == state.agent(agent_id)->0.messages
        }),
        ({
            let ended = turn_completed(state, agent_id, title, run_id, now).state.agent(agent_id);
            &&& ended is Some
            &&& ended->0.run.state == AgentState::Completed
            &&& ended->0.terminal_failure is None
            &&& ended->0.run.last_visible_action == Some("Turn completed"@)
            &&& title is Some ==> ended->0.run.codex_title == title
            &&& title is None ==> ended->0.run.codex_title == state.agent(agent_id)->0.run.codex_title
        }),
{
    lemma_found_agent_has_its_id(state, agent_id);
    let i = state.agent_at(agent_id)->0;
    let agent = state.agents[i];
    lemma_saved_agent_is_found(
        state,
        agent_id,
        turn_started(state, agent_id, run_id, now).state.agents[i],
        agent_id,
    );
    lemma_saved_agent_is_found(
        state,
        agent_id,
        turn_completed(state, agent_id, title, run_id, now).state.agents[i],
        agent_id,
    );
}

/// A message joins the chat of its agent at the end, with its role and its words, and
/// is saved and told; a blank one does not.
pub proof fn lemma_messages_join_the_chat(
    state: RuntimeView,
    agent_id: u128,
    role: AgentChatRole,
    text: Seq<char>,
    run_id: Option<u128>,
    now: i64,
)
    requires
        !state.is_stale(agent_id, run_id),
        state.agent(agent_id) is Some,
    ensures
        ({
            let before = state.agent(agent_id)->0;
            let step = message_appended(state, agent_id, role, text, run_id, now);
            let after = step.state.agent(agent_id);
            if trimmed(text).len() == 0 {
                step.state == state && step.effects.len() == 0
            } else {
                &&& after is Some
                &&& after->0.messages.len() == before.messages.len() + 1
                &&& after->0.messages.drop_last() == before.messages
                &&& after->0.messages.last().agent_id == agent_id
                &&& after->0.messages.last().role == role
                &&& after->0.messages.last().text == text
                &&& after->0.messages.last().created_at == now
                &&& after->0.run.state == before.run.state
                &&& after->0.terminal_failure == before.terminal_failure
                &&& step.effects.contains(EffectView::SaveMessage(after->0.messages.last()))
                &&& step.effects.contains(
                    EffectView::Tell(ServerEventView::AgentMessageAppended(after->0.messages.last())),
                )
            }
        }),
{
    lemma_found_agent_has_its_id(state, agent_id);
    let i = state.agent_at(agent_id)->0;
    let step = message_appended(state, agent_id, role, text, run_id, now);
    if trimmed(text).len() > 0 {
        let agent = step.state.agents[i];
        lemma_saved_agent_is_found(state, agent_id, agent, agent_id);
        assert(step.state == agent_saved(state, i, agent).state);
        assert(agent.messages.drop_last() =~= state.agents[i].messages);
        assert(step.effects[0] == EffectView::SaveMessage(agent.messages.last()));
        assert(step.effects[2] == EffectView::Tell(
            ServerEventView::AgentMessageAppended(agent.messages.last()),
        ));
    }
}

/// A failure that Codex reports leaves its agent failed, with the words kept as the
/// failure and as the last message of the system.
pub proof fn lemma_failures_are_kept(
    state: RuntimeView,
    agent_id: u128,
    message: Seq<char>,
    run_id: Option<u128>,
    now: i64,
    fresh: u128,
)
    requires
        !state.is_stale(agent_id, run_id),
        state.agent(agent_id) is Some,
        state.agent(agent_id)->0.run.state != AgentState::Stopping,
        trimmed(message).len() > 0,
    ensures
        ({
            let before = state.agent(agent_id)->0;
            let after = failure_recorded(state, agent_id, message, run_id, now, fresh).state.agent(agent_id);
            &&& after is Some
            &&& after->0.run.state == AgentState::Failed
            &&& after->0.terminal_failure == Some(trimmed(message))
            &&& after->0.messages.drop_last() == before.messages
            &&& after->0.messages.last().role == AgentChatRole::System
            &&& after->0.messages.last().text == trimmed(message)
        }),
{
    lemma_found_agent_has_its_id(state, agent_id);
    let i = state.agent_at(agent_id)->0;
    let agent = state.agents[i];
    let text = trimmed(message);
    lemma_trimming_is_settled(message);
    let marked = AgentView {
        terminal_failure: Some(text),
        run: RunView { state: AgentState::Failed, ..agent.run },
        ..agent
    };
    let failed = state.with_agent(i, marked);
    lemma_saved_agent_is_found(state, agent_id, marked, agent_id);
    assert(failed == agent_saved(state, i, marked).state);
    lemma_found_agent_has_its_id(failed, agent_id);
    lemma_messages_join_the_chat(failed, agent_id, AgentChatRole::System, text, run_id, now);
    let told = message_appended(failed, agent_id, AgentChatRole::System, text, run_id, now);
    let noticed = denial_raised(told.state, agent_id, text, now, fresh);
    assert(noticed.state.agents == told.state.agents);
}

/// That an agent cannot write its project is raised once: with a notice that blocks,
/// in the name of the agent, and never a second time.
pub proof fn lemma_denials_are_raised_once(
    state: RuntimeView,
    agent_id: u128,
    body: Seq<char>,
    again: Seq<char>,
    now: i64,
    later: i64,
    fresh: u128,
    other: u128,
)
    ensures
        ({
            let first = denial_raised(state, agent_id, body, now, fresh);
            &&& denial_raised(first.state, agent_id, again, later, other) == stays(first.state)
            &&& first.state.attention.len() > state.attention.len() ==> {
                &&& first.state.attention.drop_last() == state.attention
                &&& first.state.attention.last().kind == AttentionKind::Blocked
                &&& first.state.attention.last().agent_id == Some(agent_id)
                &&& first.state.attention.last().title == "Codex cannot write this project"@
                &&& first.state.attention.last().body == summary_of(body)
                &&& first.state.attention.last().id == fresh
            }
            &&& first.state.agents == state.agents
        }),
{
    let first = denial_raised(state, agent_id, body, now, fresh);
    if !has_denial(state.attention, agent_id) {
        let at = state.attention.len() as int;
        assert(first.state.attention[at].agent_id == Some(agent_id));
        assert(has_denial(first.state.attention, agent_id));
        assert(first.state.attention.drop_last() =~= state.attention);
    }
}

proof fn lemma_event_kinds()
    ensures
        "turn.started"@.len() == 12,
        "thread.started"@.len() == 14,
        "thread.updated"@.len() == 14,
        "thread.renamed"@.len() == 14,
        "session.updated"@.len() == 15,
        "item.started"@.len() == 12,
        "item.completed"@.len() == 14,
        "turn.completed"@.len() == 14,
        "turn.failed"@.len() == 11,
        "error"@.len() == 5,
        "turn.started"@ != "item.started"@,
        "turn.completed"@ != "thread.started"@,
        "turn.completed"@ != "thread.updated"@,
        "turn.completed"@ != "thread.renamed"@,
        "turn.completed"@ != "item.completed"@,
        "item.completed"@ != "thread.started"@,
        "item.completed"@ != "thread.updated"@,
        "item.completed"@ != "thread.renamed"@,
{
    reveal_strlit("turn.started");
    reveal_strlit("thread.started");
    reveal_strlit("thread.updated");
    reveal_strlit("thread.renamed");
    reveal_strlit("session.updated");
    reveal_strlit("item.started");
    reveal_strlit("item.completed");
    reveal_strlit("turn.completed");
    reveal_strlit("turn.failed");
    reveal_strlit("error");
    assert("turn.started"@[0] == 't' && "item.started"@[0] == 'i');
    assert("turn.completed"@[1] == 'u');
    assert("thread.started"@[1] == 'h' && "thread.updated"@[1] == 'h' && "thread.renamed"@[1] == 'h');
    assert("item.completed"@[1] == 't');
}

/// What the events of Codex mean: the start and the end of a turn move the agent, a
/// thread is kept, and a failure fails the agent unless Codex is merely reconnecting,
/// which only leaves a message.
pub proof fn lemma_events_have_their_meaning(
    state: RuntimeView,
    agent_id: u128,
    run_id: Option<u128>,
    value: JsonView,
    stored: Option<Seq<char>>,
    message: Seq<char>,
    thread: Seq<char>,
    now: i64,
    fresh: u128,
)
    ensures
        event_heard(state, agent_id, run_id, "turn.started"@, value, stored, now, fresh) == turn_started(
            state,
            agent_id,
            run_id,
            now,
        ),
        event_heard(state, agent_id, run_id, "turn.completed"@, value, stored, now, fresh) == turn_completed(
            state,
            agent_id,
            stored,
            run_id,
            now,
        ),
        diagnostic_message(value) == Some(message) && is_reconnect(message) ==> event_heard(
            state,
            agent_id,
            run_id,
            "turn.failed"@,
            value,
            stored,
            now,
            fresh,
        ) == message_appended(state, agent_id, AgentChatRole::System, message, run_id, now),
        diagnostic_message(value) == Some(message) && !is_reconnect(message) ==> event_heard(
            state,
            agent_id,
            run_id,
            "turn.failed"@,
            value,
            stored,
            now,
            fresh,
        ) == failure_recorded(state, agent_id, message, run_id, now, fresh),
        event_heard(state, agent_id, run_id, "error"@, value, stored, now, fresh) == event_heard(
            state,
            agent_id,
            run_id,
            "turn.failed"@,
            value,
            stored,
            now,
            fresh,
        ) || diagnostic_message(value) is None,
        value.text_at("thread_id"@) == Some(thread) && !state.is_stale(agent_id, run_id) && state.agent(
            agent_id,
        ) is Some ==> {
            let after = event_heard(
                state,
                agent_id,
                run_id,
                "thread.started"@,
                value,
                stored,
                now,
                fresh,
            ).state.agent(agent_id);
            &&& after is Some
            &&& after->0.run.native_session_id == Some(thread)
            &&& after->0.run.resume_block_reason is None
            &&& after->0.run.state == state.agent(agent_id)->0.run.state
        },
{
    lemma_event_kinds();
    lemma_found_agent_has_its_id(state, agent_id);
    if value.text_at("thread_id"@) == Some(thread) && heard_at(state, agent_id, run_id) is Some {
        let step = event_heard(state, agent_id, run_id, "thread.started"@, value, stored, now, fresh);
        lemma_saved_agent_is_found(
            state,
            agent_id,
            step.state.agents[state.agent_at(agent_id)->0],
            agent_id,
        );
    }
}

/// Items that are completed join the chat: the words of Codex as the assistant's, its
/// commands as a tool's.
pub proof fn lemma_items_join_the_chat(
    state: RuntimeView,
    agent_id: u128,
    run_id: Option<u128>,
    value: JsonView,
    text: Seq<char>,
    now: i64,
    fresh: u128,
)
    ensures
        value.text_at2("item"@, "type"@) == Some("agent_message"@) && value.text_at2("item"@, "text"@) == Some(
            text,
        ) ==> item_completed(state, agent_id, value, run_id, now, fresh) == message_appended(
            state,
            agent_id,
            AgentChatRole::Assistant,
            trimmed(text),
            run_id,
            now,
        ),
        value.text_at2("item"@, "type"@) == Some("command_execution"@) && value.text_at2("item"@, "command"@)
            == Some(text) ==> item_completed(state, agent_id, value, run_id, now, fresh) == message_appended(
            state,
            agent_id,
            AgentChatRole::Tool,
            trimmed(text),
            run_id,
            now,
        ),
{
    reveal_strlit("agent_message");
    reveal_strlit("command_execution");
    assert("agent_message"@.len() == 13);
    assert("command_execution"@.len() == 17);
}

/// A line of diagnostics is always logged and fails the agent only where it tells of
/// an end.
pub proof fn lemma_diagnostics_are_logged(
    state: RuntimeView,
    agent_id: u128,
    run_id: Option<u128>,
    line: Seq<char>,
    now: i64,
    fresh: u128,
)
    requires
        trimmed(line).len() > 0,
    ensures
        ({
            let step = diagnostics_heard(state, agent_id, run_id, line, now, fresh);
            &&& step.effects.len() > 0
            &&& step.effects[0] == EffectView::Log { stream: "stderr"@, text: trimmed(line) }
            &&& !is_terminal_error(trimmed(line)) ==> step.state == state && step.effects.len() == 1
            &&& is_terminal_error(trimmed(line)) ==> step.state == failure_recorded(
                state,
                agent_id,
                trimmed(line),
                run_id,
                now,
                fresh,
            ).state
        }),
{
}

/// A thread gets its title when it starts and when a turn is completed, the
/// agent's own in the second case, and at no other event.
pub proof fn lemma_threads_get_their_titles(state: RuntimeView, agent_id: u128, value: JsonView)
    ensures
        value.text_at("type"@) == Some("thread.started"@) ==> thread_to_title(state, agent_id, value) == value.text_at(
            "thread_id"@,
        ),
        value.text_at("type"@) == Some("turn.completed"@) && state.agent(agent_id) is Some ==> thread_to_title(
            state,
            agent_id,
            value,
        ) == state.agent(agent_id)->0.run.native_session_id,
        value.text_at("type"@) == Some("turn.failed"@) || value.text_at("type"@) is None ==> thread_to_title(
            state,
            agent_id,
            value,
        ) is None,
{
    reveal_strlit("thread.started");
    reveal_strlit("turn.completed");
    reveal_strlit("turn.failed");
    assert("thread.started"@.len() == 14 && "turn.completed"@.len() == 14 && "turn.failed"@.len() == 11);
    assert("thread.started"@[1] != "turn.completed"@[1]);
}

/// A notice that is raised is kept, saved and told, and changes nothing else.
pub proof fn lemma_raised_notices_are_saved_and_told(state: RuntimeView, item: AttentionView)
    ensures
        raised(state, item).state.attention.contains(item),
        raised(state, item).state.attention.drop_last() == state.attention,
        raised(state, item).state == (RuntimeView {
            attention: raised(state, item).state.attention,
            ..state
        }),
        raised(state, item).effects.contains(EffectView::SaveAttention(item)),
        raised(state, item).effects.contains(EffectView::Tell(ServerEventView::AttentionRaised(item))),
        raised(state, item).effects.len() == 2,
{
    let step = raised(state, item);
    assert(step.state.attention[state.attention.len() as int] == item);
    assert(step.state.attention.drop_last() =~= state.attention);
    assert(step.effects[0] == EffectView::SaveAttention(item));
    assert(step.effects[1] == EffectView::Tell(ServerEventView::AttentionRaised(item)));
}

/// An agent that was stopped is interrupted, cannot be stopped again and has
/// ended; its thread and its messages stay.
pub proof fn lemma_stopped_agents_keep_their_thread(agent: AgentView, now: i64)
    ensures
        stopped_agent(agent, now).run.state == AgentState::Interrupted,
        !stopped_agent(agent, now).run.can_stop,
        stopped_agent(agent, now).run.finished_at == Some(now),
        stopped_agent(agent, now).run.updated_at == now,
        stopped_agent(agent, now).run.id == agent.run.id,
        stopped_agent(agent, now).run.native_session_id == agent.run.native_session_id,
        stopped_agent(agent, now).messages == agent.messages,
{
}

/// The notice of a denial is that the agent is blocked, names the agent and its
/// project, and has not been read.
pub proof fn lemma_denials_are_noticed(state: RuntimeView, agent_id: u128, body: Seq<char>, now: i64, fresh: u128)
    ensures
        denial_notice(state, agent_id, body, now, fresh).kind == AttentionKind::Blocked,
        denial_notice(state, agent_id, body, now, fresh).id == fresh,
        denial_notice(state, agent_id, body, now, fresh).agent_id == Some(agent_id),
        denial_notice(state, agent_id, body, now, fresh).body == summary_of(body),
        denial_notice(state, agent_id, body, now, fresh).created_at == now,
        denial_notice(state, agent_id, body, now, fresh).read_at is None,
        state.agent(agent_id) matches Some(agent) ==> denial_notice(state, agent_id, body, now, fresh).project_id
            == Some(agent.run.project_id),
{
}

/// A title that Codex gives is kept for the agent that is heard, and for no other;
/// the title that the user gave stays.
pub proof fn lemma_titles_are_kept(state: RuntimeView, agent_id: u128, title: Seq<char>, run_id: Option<u128>, now: i64, i: int)
    requires
        0 <= i < state.agents.len(),
    ensures
        heard_at(state, agent_id, run_id) is None ==> title_given(state, agent_id, title, run_id, now).state == state
            && title_given(state, agent_id, title, run_id, now).effects.len() == 0,
        heard_at(state, agent_id, run_id) == Some(i) ==> ({
            let agents = title_given(state, agent_id, title, run_id, now).state.agents;
            &&& agents[i].run.codex_title == Some(title)
            &&& agents[i].run.user_title == state.agents[i].run.user_title
            &&& agents[i].run.state == state.agents[i].run.state
            &&& agents[i].messages == state.agents[i].messages
        }),
        heard_at(state, agent_id, run_id) is Some && heard_at(state, agent_id, run_id) != Some(i) ==> title_given(
            state,
            agent_id,
            title,
            run_id,
            now,
        ).state.agents[i] == state.agents[i],
{
    lemma_position(agent_ids(state.agents), agent_id);
}

} // verus!
