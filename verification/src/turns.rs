//! Turns of an app server on an SSH host: how they are begun, what they tell,
//! the permissions that they wait for, and how they end.

use crate::agent_output::{action_shown, failure_recorded, message_appended, turn_started};
use crate::app_server::{Event, EventView, PermissionDecision};
use crate::model::{
    error_of, protocol_error, AgentChatRole, AgentState, AttentionKind, AttentionView, ErrorView,
    PermissionRequest, PermissionView, Project, ProtocolError, RunView, RuntimeAttention,
};
use crate::paths::path_parts;
use crate::records::other_notice;
use crate::remote_hosts::{permission_dropped, permission_put};
use crate::sessions::{agent_not_found, is_target, same_path, thread_refusal, PromptTarget};
use crate::state::{
    after, agent_saved, does, effects_view, lemma_found_agent_has_its_id, lemma_position,
    lemma_saved_agent_is_found, other_than, permission_ids, position, push_effect,
    remove_id, stays, waiting_ids, AgentView, Effect, EffectView, RuntimeState, RuntimeView,
    ServerEvent, ServerEventView, Step,
};
use crate::text::{copy_text, same_optional_text, same_text, str_of};
use vstd::prelude::*;

verus! {

// ---- beginning ----

/// Why a session of an app server is refused before anything is touched.
pub open spec fn session_refusal(
    state: RuntimeView,
    project_id: u128,
    name: Seq<char>,
    root: Seq<char>,
    thread: Option<Seq<char>>,
) -> Option<ErrorView> {
    if !state.remote_runtime {
        Some(
            error_of(
                "ssh_app_server_only"@,
                "Codex App Server launches are accepted only by an SSH runtime"@,
            ),
        )
    } else {
        match state.project(project_id) {
            None => Some(error_of("project_not_found"@, "remote project was not found"@)),
            Some(project) => if project.name != name || path_parts(project.root) != path_parts(root) {
                Some(
                    error_of(
                        "remote_project_mismatch"@,
                        "the SSH project identity does not match the remote runtime"@,
                    ),
                )
            } else {
                match thread {
                    None => None,
                    Some(thread) => match thread_refusal(state, thread, project.root) {
                        Some(message) => Some(error_of("codex_thread_project_mismatch"@, message)),
                        None => None,
                    },
                }
            },
        }
    }
}

/// Why a prompt to an app server is refused.
pub open spec fn turn_refusal(state: RuntimeView, agent_id: u128) -> Option<ErrorView> {
    if !state.remote_runtime {
        Some(
            error_of(
                "ssh_app_server_only"@,
                "Codex App Server prompts are accepted only by an SSH runtime"@,
            ),
        )
    } else {
        match state.agent(agent_id) {
            None => Some(error_of("agent_not_found"@, "agent session was not found"@)),
            Some(agent) => if state.child(agent_id) is Some || state.launching.contains(agent_id) {
                Some(error_of("agent_busy"@, "agent session is already working"@))
            } else if agent.run.native_session_id is None {
                Some(
                    error_of(
                        "agent_not_resumable"@,
                        "Codex App Server never created a thread for this agent"@,
                    ),
                )
            } else if agent.run.origin_codex_home != state.codex_home {
                Some(
                    error_of(
                        "codex_home_mismatch"@,
                        "Resume this session with its original Codex home"@,
                    ),
                )
            } else {
                None
            },
        }
    }
}

impl RuntimeState {
    /// The project of a session of an app server, where the session is allowed.
    /// The root is a canonical one.
    pub fn check_app_server_session(
        &self,
        project_id: u128,
        name: &str,
        root: &str,
        thread: Option<&str>,
    ) -> (r: Result<Project, ProtocolError>)
        ensures
            match session_refusal(self@, project_id, name@, root@, str_of(thread)) {
                Some(error) => r matches Err(e) && e@ == error,
                None => r matches Ok(project) && self@.project(project_id) == Some(project@),
            },
    {
        if !self.remote_runtime {
            return Err(
                protocol_error(
                    "ssh_app_server_only",
                    "Codex App Server launches are accepted only by an SSH runtime",
                ),
            );
        }
        let project = match self.find_project(project_id) {
            Some(i) => self.projects[i].copy(),
            None => {
                return Err(protocol_error("project_not_found", "remote project was not found"));
            },
        };
        if !same_text(project.name.as_str(), name) || !same_path(project.root.as_str(), root) {
            return Err(
                protocol_error(
                    "remote_project_mismatch",
                    "the SSH project identity does not match the remote runtime",
                ),
            );
        }
        if let Some(thread) = thread {
            if let Err(message) = self.validate_thread_project(thread, project.root.as_str()) {
                return Err(protocol_error("codex_thread_project_mismatch", message.as_str()));
            }
        }
        Ok(project)
    }

    /// Reserves an agent for a prompt to an app server, where it can be prompted.
    pub fn reserve_turn(&mut self, agent_id: u128) -> (r: Result<PromptTarget, ProtocolError>)
        ensures
            match turn_refusal(old(self)@, agent_id) {
                Some(error) => (r matches Err(e) && e@ == error) && final(self)@ == old(self)@,
                None => {
                    &&& r matches Ok(target) && old(self)@.agent(agent_id) is Some && is_target(
                        target,
                        old(self)@.agent(agent_id)->0,
                    )
                    &&& final(self)@ == (RuntimeView {
                        launching: old(self)@.launching.push(agent_id),
                        ..old(self)@
                    })
                },
            },
    {
        if !self.remote_runtime {
            return Err(
                protocol_error(
                    "ssh_app_server_only",
                    "Codex App Server prompts are accepted only by an SSH runtime",
                ),
            );
        }
        let i = match self.find_agent(agent_id) {
            Some(i) => i,
            None => {
                return Err(agent_not_found());
            },
        };
        if self.find_child(agent_id).is_some() || crate::kept::holds_id(&self.launching, agent_id) {
            return Err(protocol_error("agent_busy", "agent session is already working"));
        }
        let record = &self.agents[i];
        if record.run.native_session_id.is_none() {
            return Err(
                protocol_error(
                    "agent_not_resumable",
                    "Codex App Server never created a thread for this agent",
                ),
            );
        }
        if !same_optional_text(&record.run.origin_codex_home, &self.codex_home) {
            return Err(
                protocol_error(
                    "codex_home_mismatch",
                    "Resume this session with its original Codex home",
                ),
            );
        }
        let target = PromptTarget {
            project_id: record.run.project_id,
            project_root: record.project_root.clone(),
            thread_id: copy_text(&record.run.native_session_id),
            allow_non_git: record.allow_non_git,
        };
        self.launching.push(agent_id);
        Ok(target)
    }

    /// Gives a reservation back.
    pub fn release_turn(&mut self, agent_id: u128)
        ensures
            final(self)@ == (RuntimeView {
                launching: old(self)@.launching.filter(other_than(agent_id)),
                ..old(self)@
            }),
    {
        remove_id(&mut self.launching, agent_id);
    }
}

/// An agent that is reserved cannot be reserved again.
pub proof fn lemma_turns_are_exclusive(state: RuntimeView, agent_id: u128)
    requires
        turn_refusal(state, agent_id) is None,
    ensures
        turn_refusal(
            RuntimeView { launching: state.launching.push(agent_id), ..state },
            agent_id,
        ) == Some(error_of("agent_busy"@, "agent session is already working"@)),
{
    let reserved = RuntimeView { launching: state.launching.push(agent_id), ..state };
    assert(reserved.launching[state.launching.len() as int] == agent_id);
    assert(reserved.agent(agent_id) == state.agent(agent_id));
}

// ---- permissions ----

/// The agents that wait, with one of them under its request.
pub open spec fn waiting_put(list: Seq<(u128, u128)>, request: u128, agent: u128) -> Seq<(u128, u128)> {
    match position(waiting_ids(list), request) {
        Some(i) => list.update(i, (request, agent)),
        None => list.push((request, agent)),
    }
}

/// The agents that wait, without one request.
pub open spec fn waiting_dropped(list: Seq<(u128, u128)>, request: u128) -> Seq<(u128, u128)> {
    match position(waiting_ids(list), request) {
        Some(i) => list.remove(i),
        None => list,
    }
}

/// The agent that waits for a request.
pub open spec fn waiter(list: Seq<(u128, u128)>, request: u128) -> Option<u128> {
    match position(waiting_ids(list), request) {
        Some(i) => Some(list[i].1),
        None => None,
    }
}

/// A request is settled: nobody waits for it, and its notice is taken away.
pub open spec fn request_settled(state: RuntimeView, id: u128) -> Step {
    Step {
        state: RuntimeView {
            permission_agents: waiting_dropped(state.permission_agents, id),
            permissions: permission_dropped(state.permissions, id),
            attention: state.attention.filter(other_notice(id)),
            ..state
        },
        effects: seq![
            EffectView::ForgetAttention(id),
            EffectView::Tell(ServerEventView::PermissionResolved { request_id: id }),
            EffectView::Tell(ServerEventView::AttentionDismissed { attention_id: id }),
        ],
    }
}

/// Requests are settled one after the other.
pub open spec fn requests_settled(state: RuntimeView, ids: Seq<u128>) -> Step
    decreases ids.len(),
{
    if ids.len() == 0 {
        stays(state)
    } else {
        let before = requests_settled(state, ids.drop_last());
        after(before.effects, request_settled(before.state, ids.last()))
    }
}

/// That a request is an agent's.
pub open spec fn request_of(agent_id: u128) -> spec_fn(PermissionView) -> bool {
    |request: PermissionView| request.agent_id == Some(agent_id)
}

/// All requests of an agent are settled.
pub open spec fn agent_settled(state: RuntimeView, agent_id: u128) -> Step {
    requests_settled(state, permission_ids(state.permissions.filter(request_of(agent_id))))
}

/// Whether an agent waits for a permission.
pub open spec fn is_waiting(state: RuntimeView, agent_id: u128) -> bool {
    exists|i: int|
        0 <= i < state.permissions.len() && (#[trigger] state.permissions[i]).agent_id == Some(agent_id)
}

impl RuntimeState {
    /// The place of a request that an agent waits for.
    fn find_waiting(&self, request: u128) -> (r: Option<usize>)
        ensures
            match r {
                Some(i) => i < self.permission_agents.len() && position(
                    waiting_ids(self@.permission_agents),
                    request,
                ) == Some(i as int),
                None => position(waiting_ids(self@.permission_agents), request) is None,
            },
    {
        let ghost ids = waiting_ids(self@.permission_agents);
        let mut i: usize = 0;
        assert(ids.take(0) =~= Seq::empty());
        while i < self.permission_agents.len()
            invariant
                0 <= i <= self.permission_agents.len(),
                ids == waiting_ids(self@.permission_agents),
                position(ids.take(i as int), request) is None,
            decreases self.permission_agents.len() - i,
        {
            assert(ids.take(i + 1).drop_last() =~= ids.take(i as int));
            assert(ids.take(i + 1).last() == self.permission_agents@[i as int].0);
            if self.permission_agents[i].0 == request {
                proof {
                    crate::state::lemma_position_found(ids, request, i + 1);
                }
                return Some(i);
            }
            i += 1;
        }
        assert(ids.take(ids.len() as int) =~= ids);
        None
    }

    /// Settles a request.
    pub fn settle_request(&mut self, id: u128, effects: &mut Vec<Effect>)
        ensures
            does(old(effects)@, *final(self), final(effects)@, request_settled(old(self)@, id)),
    {
        let ghost told = effects_view(effects@);
        let ghost before = self@;
        if let Some(i) = self.find_waiting(id) {
            self.permission_agents.remove(i);
        }
        self.drop_permission(id);
        self.drop_notice(id);
        push_effect(effects, Effect::ForgetAttention(id));
        push_effect(effects, Effect::Tell(ServerEvent::PermissionResolved { request_id: id }));
        push_effect(effects, Effect::Tell(ServerEvent::AttentionDismissed { attention_id: id }));
        assert(effects_view(effects@) =~= told + request_settled(before, id).effects);
    }

    /// Settles all requests of an agent.
    pub fn clear_agent_permissions(&mut self, agent_id: u128, effects: &mut Vec<Effect>)
        ensures
            does(old(effects)@, *final(self), final(effects)@, agent_settled(old(self)@, agent_id)),
    {
        let ghost told = effects_view(effects@);
        let ghost before = self@;
        let ghost views = self@.permissions;
        let ghost mine = request_of(agent_id);
        let mut ids: Vec<u128> = Vec::new();
        let mut i: usize = 0;
        proof {
            reveal(Seq::filter);
            assert(views.take(0) =~= Seq::empty());
            assert(permission_ids(views.take(0).filter(mine)) =~= Seq::empty());
        }
        while i < self.permissions.len()
            invariant
                0 <= i <= self.permissions.len(),
                views == self@.permissions,
                mine == request_of(agent_id),
                ids@ == permission_ids(views.take(i as int).filter(mine)),
            decreases self.permissions.len() - i,
        {
            let ghost so_far = views.take(i as int).filter(mine);
            proof {
                reveal(Seq::filter);
                assert(views.take(i + 1).drop_last() =~= views.take(i as int));
                assert(views.take(i + 1).last() == self.permissions@[i as int]@);
            }
            let owned = match self.permissions[i].agent_id {
                Some(owner) => owner == agent_id,
                None => false,
            };
            if owned {
                ids.push(self.permissions[i].id);
                assert(permission_ids(so_far.push(views[i as int])) =~= permission_ids(so_far).push(
                    views[i as int].id,
                ));
            }
            i += 1;
        }
        assert(views.take(views.len() as int) =~= views);
        let mut k: usize = 0;
        proof {
            assert(ids@.take(0) =~= Seq::empty());
            assert(told =~= told + Seq::empty());
        }
        while k < ids.len()
            invariant
                0 <= k <= ids.len(),
                self@ == requests_settled(before, ids@.take(k as int)).state,
                effects_view(effects@) == told + requests_settled(before, ids@.take(k as int)).effects,
            decreases ids.len() - k,
        {
            let ghost done = requests_settled(before, ids@.take(k as int));
            assert(ids@.take(k + 1).drop_last() =~= ids@.take(k as int));
            self.settle_request(ids[k], effects);
            assert(effects_view(effects@) =~= told + (done.effects + request_settled(
                done.state,
                ids@[k as int],
            ).effects));
            k += 1;
        }
        assert(ids@.take(ids@.len() as int) =~= ids@);
    }

    /// Whether an agent waits for a permission.
    fn waits(&self, agent_id: u128) -> (r: bool)
        ensures
            r == is_waiting(self@, agent_id),
    {
        let ghost list = self@.permissions;
        let mut i: usize = 0;
        while i < self.permissions.len()
            invariant
                0 <= i <= self.permissions.len(),
                list == self@.permissions,
                forall|k: int| 0 <= k < i ==> (#[trigger] list[k]).agent_id != Some(agent_id),
            decreases self.permissions.len() - i,
        {
            assert(list[i as int] == self.permissions@[i as int]@);
            let owned = match self.permissions[i].agent_id {
                Some(owner) => owner == agent_id,
                None => false,
            };
            if owned {
                assert(self@.permissions[i as int].agent_id == Some(agent_id));
                return true;
            }
            i += 1;
        }
        false
    }
}

// ---- what a turn tells ----

/// The notice that an agent needs a permission.
pub open spec fn permission_notice(request: PermissionView, agent_id: u128) -> AttentionView {
    AttentionView {
        id: request.id,
        kind: AttentionKind::ApprovalRequired,
        agent_id: Some(agent_id),
        project_id: Some(request.project_id),
        project_name: None,
        agent_name: None,
        title: "Agent needs permission"@,
        body: "Review the pending request to continue this turn."@,
        created_at: request.created_at,
        read_at: None,
    }
}

/// The notice that an agent needs a permission.
pub fn approval_notice(request: &PermissionRequest, agent_id: u128) -> (r: RuntimeAttention)
    ensures
        r@ == permission_notice(request@, agent_id),
{
    RuntimeAttention {
        id: request.id,
        kind: AttentionKind::ApprovalRequired,
        agent_id: Some(agent_id),
        project_id: Some(request.project_id),
        project_name: None,
        agent_name: None,
        title: "Agent needs permission".to_owned(),
        body: "Review the pending request to continue this turn.".to_owned(),
        created_at: request.created_at,
        read_at: None,
    }
}

/// What the end of a turn is told as.
pub open spec fn end_state(status: Seq<char>) -> AgentState {
    if status == "completed"@ {
        AgentState::Completed
    } else if status == "interrupted"@ {
        AgentState::Interrupted
    } else {
        AgentState::Failed
    }
}

/// What the end of a turn is shown as.
pub open spec fn end_action(state: AgentState) -> Seq<char> {
    match state {
        AgentState::Completed => "Turn completed"@,
        AgentState::Interrupted => "Turn interrupted"@,
        _ => "Turn failed"@,
    }
}

/// The runtime without an agent's turn.
pub open spec fn turn_dropped(state: RuntimeView, agent_id: u128) -> RuntimeView {
    RuntimeView { turns: state.turns.filter(other_than(agent_id)), ..state }
}

/// A permission has been settled by the server.
pub open spec fn permission_resolved(state: RuntimeView, agent_id: u128, id: u128, now: i64) -> Step {
    let settled = request_settled(state, id);
    match settled.state.agent_at(agent_id) {
        Some(i) => if !is_waiting(settled.state, agent_id) && settled.state.agents[i].run.state
            == AgentState::AwaitingApproval {
            let agent = settled.state.agents[i];
            after(
                settled.effects,
                agent_saved(
                    settled.state,
                    i,
                    AgentView {
                        run: RunView {
                            state: AgentState::Working,
                            updated_at: now,
                            last_visible_action: Some("Agent request resolved"@),
                            ..agent.run
                        },
                        ..agent
                    },
                ),
            )
        } else {
            settled
        },
        None => settled,
    }
}

/// A permission is asked for. Whether its notice could be saved is told by
/// `notice_saved`.
pub open spec fn permission_asked(
    state: RuntimeView,
    agent_id: u128,
    request: PermissionView,
    notice_saved: bool,
    now: i64,
) -> (Step, bool) {
    let asked = RuntimeView {
        permission_agents: waiting_put(state.permission_agents, request.id, agent_id),
        permissions: permission_put(state.permissions, request),
        ..state
    };
    match asked.agent_at(agent_id) {
        None => (stays(asked), true),
        Some(i) => {
            let agent = asked.agents[i];
            let saved = agent_saved(
                asked,
                i,
                AgentView {
                    run: RunView {
                        state: AgentState::AwaitingApproval,
                        last_visible_action: Some(request.summary),
                        updated_at: now,
                        ..agent.run
                    },
                    ..agent
                },
            );
            let notice = permission_notice(request, agent_id);
            let told = seq![EffectView::Tell(ServerEventView::PermissionRequested(request))];
            if notice_saved {
                (
                    Step {
                        state: RuntimeView {
                            attention: saved.state.attention.push(notice),
                            ..saved.state
                        },
                        effects: saved.effects + (seq![
                            EffectView::Tell(ServerEventView::AttentionRaised(notice)),
                        ] + told),
                    },
                    false,
                )
            } else {
                (Step { state: saved.state, effects: saved.effects + told }, false)
            }
        },
    }
}

/// An agent is told as at rest after a turn that ended.
pub open spec fn turn_concluded(state: RuntimeView, agent_id: u128, status: Seq<char>, now: i64) -> Step {
    match state.agent_at(agent_id) {
        None => stays(state),
        Some(i) => {
            let agent = state.agents[i];
            let end = end_state(status);
            agent_saved(
                state,
                i,
                AgentView {
                    run: RunView {
                        can_stop: false,
                        updated_at: now,
                        finished_at: Some(now),
                        state: end,
                        exit_code: Some(
                            if end == AgentState::Completed {
                                0i32
                            } else {
                                1i32
                            },
                        ),
                        last_visible_action: Some(end_action(end)),
                        ..agent.run
                    },
                    ..agent
                },
            )
        },
    }
}

/// A turn has ended.
pub open spec fn turn_ended(
    state: RuntimeView,
    agent_id: u128,
    run_id: u128,
    status: Seq<char>,
    error: Option<Seq<char>>,
    now: i64,
    fresh: u128,
) -> Step {
    let failed = match error {
        Some(message) => failure_recorded(state, agent_id, message, Some(run_id), now, fresh),
        None => stays(state),
    };
    if !failed.state.is_current(agent_id, run_id) {
        failed
    } else {
        let settled = agent_settled(turn_dropped(failed.state, agent_id), agent_id);
        after(
            failed.effects + settled.effects,
            turn_concluded(settled.state, agent_id, status, now),
        )
    }
}

/// A turn has failed.
pub open spec fn turn_failed(
    state: RuntimeView,
    agent_id: u128,
    run_id: u128,
    message: Seq<char>,
    now: i64,
    fresh: u128,
) -> Step {
    let failed = failure_recorded(state, agent_id, message, Some(run_id), now, fresh);
    after(failed.effects, agent_settled(turn_dropped(failed.state, agent_id), agent_id))
}

/// What an event of an app server leads to, and whether its turn is over.
pub open spec fn turn_heard(
    state: RuntimeView,
    agent_id: u128,
    run_id: u128,
    event: EventView,
    notice_saved: bool,
    now: i64,
    fresh: u128,
) -> (Step, bool) {
    let run = Some(run_id);
    match event {
        EventView::OutputClosed => (stays(state), true),
        EventView::PermissionResolved(id) => if !state.is_current(agent_id, run_id) {
            (stays(state), true)
        } else {
            (permission_resolved(state, agent_id, id, now), false)
        },
        EventView::ThreadReady(thread) => if !state.is_current(agent_id, run_id) {
            (stays(state), true)
        } else {
            match state.agent_at(agent_id) {
                None => (stays(state), true),
                Some(i) => (
                    agent_saved(
                        state,
                        i,
                        AgentView {
                            run: RunView {
                                native_session_id: Some(thread),
                                resume_block_reason: None,
                                updated_at: now,
                                ..state.agents[i].run
                            },
                            ..state.agents[i]
                        },
                    ),
                    false,
                ),
            }
        },
        EventView::TurnStarted => (turn_started(state, agent_id, run, now), false),
        EventView::Action(action) => (action_shown(state, agent_id, action, run, now), false),
        EventView::AssistantMessage(text) => (
            message_appended(state, agent_id, AgentChatRole::Assistant, text, run, now),
            false,
        ),
        EventView::ToolMessage(text) => (
            message_appended(state, agent_id, AgentChatRole::Tool, text, run, now),
            false,
        ),
        EventView::ApprovalRequested(request) => if !state.is_current(agent_id, run_id) {
            (stays(state), true)
        } else {
            permission_asked(state, agent_id, request, notice_saved, now)
        },
        EventView::TurnCompleted { status, error } => (
            turn_ended(state, agent_id, run_id, status, error, now, fresh),
            true,
        ),
        EventView::Diagnostic(text) => (
            Step { state, effects: seq![EffectView::Log { stream: "app-server"@, text }] },
            false,
        ),
        EventView::Failed(message) => (
            turn_failed(state, agent_id, run_id, message, now, fresh),
            true,
        ),
    }
}

impl RuntimeState {
    /// A permission has been settled by the server.
    fn resolve_permission(&mut self, agent_id: u128, id: u128, now: i64, effects: &mut Vec<Effect>)
        ensures
            does(
                old(effects)@,
                *final(self),
                final(effects)@,
                permission_resolved(old(self)@, agent_id, id, now),
            ),
    {
        let ghost told = effects_view(effects@);
        let ghost before = self@;
        let ghost step = permission_resolved(before, agent_id, id, now);
        self.settle_request(id, effects);
        let ghost settled = request_settled(before, id);
        let waiting = self.waits(agent_id);
        if let Some(i) = self.find_agent(agent_id) {
            assert(self@.agents[i as int] == self.agents@[i as int]@);
            if !waiting && matches!(self.agents[i].run.state, AgentState::AwaitingApproval) {
                self.agents[i].run.state = AgentState::Working;
                self.agents[i].run.updated_at = now;
                self.agents[i].run.last_visible_action = Some("Agent request resolved".to_owned());
                assert(self@.agents =~= step.state.agents);
                self.tell_agent(i, effects);
                assert(effects_view(effects@) =~= told + step.effects);
            }
        }
    }

    /// A permission is asked for.
    fn ask_permission(
        &mut self,
        agent_id: u128,
        request: PermissionRequest,
        notice_saved: bool,
        now: i64,
        effects: &mut Vec<Effect>,
    ) -> (r: bool)
        ensures
            does(
                old(effects)@,
                *final(self),
                final(effects)@,
                permission_asked(old(self)@, agent_id, request@, notice_saved, now).0,
            ),
            r == permission_asked(old(self)@, agent_id, request@, notice_saved, now).1,
    {
        let ghost told = effects_view(effects@);
        let ghost before = self@;
        let ghost step = permission_asked(before, agent_id, request@, notice_saved, now).0;
        match self.find_waiting(request.id) {
            Some(i) => {
                self.permission_agents.set(i, (request.id, agent_id));
            },
            None => {
                self.permission_agents.push((request.id, agent_id));
            },
        }
        self.put_permission(request.copy());
        let i = match self.find_agent(agent_id) {
            Some(i) => i,
            None => {
                assert(told =~= told + Seq::empty());
                return true;
            },
        };
        self.agents[i].run.state = AgentState::AwaitingApproval;
        self.agents[i].run.last_visible_action = Some(request.summary.clone());
        self.agents[i].run.updated_at = now;
        assert(self@.agents =~= step.state.agents);
        self.tell_agent(i, effects);
        if notice_saved {
            let notice = approval_notice(&request, agent_id);
            let ghost attention = self@.attention;
            self.attention.push(notice.copy());
            assert(self@.attention =~= attention.push(notice@));
            push_effect(effects, Effect::Tell(ServerEvent::AttentionRaised(notice)));
        }
        push_effect(effects, Effect::Tell(ServerEvent::PermissionRequested(request)));
        assert(effects_view(effects@) =~= told + step.effects);
        false
    }

    /// An agent is told as at rest after a turn that ended.
    fn conclude_turn(&mut self, agent_id: u128, status: &str, now: i64, effects: &mut Vec<Effect>)
        ensures
            does(
                old(effects)@,
                *final(self),
                final(effects)@,
                turn_concluded(old(self)@, agent_id, status@, now),
            ),
    {
        let ghost told = effects_view(effects@);
        let ghost step = turn_concluded(self@, agent_id, status@, now);
        let i = match self.find_agent(agent_id) {
            Some(i) => i,
            None => {
                assert(told =~= told + Seq::empty());
                return ;
            },
        };
        let end = if same_text(status, "completed") {
            AgentState::Completed
        } else if same_text(status, "interrupted") {
            AgentState::Interrupted
        } else {
            AgentState::Failed
        };
        let (code, action) = match end {
            AgentState::Completed => (0i32, "Turn completed"),
            AgentState::Interrupted => (1i32, "Turn interrupted"),
            _ => (1i32, "Turn failed"),
        };
        self.agents[i].run.can_stop = false;
        self.agents[i].run.updated_at = now;
        self.agents[i].run.finished_at = Some(now);
        self.agents[i].run.state = end;
        self.agents[i].run.exit_code = Some(code);
        self.agents[i].run.last_visible_action = Some(action.to_owned());
        assert(self@.agents =~= step.state.agents);
        self.tell_agent(i, effects);
    }

    /// A turn has ended.
    fn end_turn(
        &mut self,
        agent_id: u128,
        run_id: u128,
        status: &str,
        error: Option<&str>,
        now: i64,
        fresh: u128,
        effects: &mut Vec<Effect>,
    )
        ensures
            does(
                old(effects)@,
                *final(self),
                final(effects)@,
                turn_ended(old(self)@, agent_id, run_id, status@, str_of(error), now, fresh),
            ),
    {
        let ghost told = effects_view(effects@);
        let ghost step = turn_ended(self@, agent_id, run_id, status@, str_of(error), now, fresh);
        assert(told =~= told + Seq::empty());
        if let Some(message) = error {
            self.record_terminal_failure(agent_id, message, Some(run_id), now, fresh, effects);
        }
        if !self.is_current_run(agent_id, run_id) {
            return ;
        }
        remove_id(&mut self.turns, agent_id);
        self.clear_agent_permissions(agent_id, effects);
        self.conclude_turn(agent_id, status, now, effects);
        assert(effects_view(effects@) =~= told + step.effects);
    }

    /// What an event of an app server leads to, and whether its turn is over. The
    /// notice of a request for permission has been saved, or could not be.
    pub fn handle_remote_app_server_event(
        &mut self,
        agent_id: u128,
        run_id: u128,
        event: Event,
        notice_saved: bool,
        now: i64,
        fresh: u128,
        effects: &mut Vec<Effect>,
    ) -> (r: bool)
        ensures
            does(
                old(effects)@,
                *final(self),
                final(effects)@,
                turn_heard(old(self)@, agent_id, run_id, event@, notice_saved, now, fresh).0,
            ),
            r == turn_heard(old(self)@, agent_id, run_id, event@, notice_saved, now, fresh).1,
    {
        let ghost told = effects_view(effects@);
        let ghost before = self@;
        assert(told =~= told + Seq::empty());
        match event {
            Event::OutputClosed => true,
            Event::PermissionResolved(id) => {
                if !self.is_current_run(agent_id, run_id) {
                    return true;
                }
                self.resolve_permission(agent_id, id, now, effects);
                false
            },
            Event::ThreadReady(thread) => {
                if !self.is_current_run(agent_id, run_id) {
                    return true;
                }
                let i = match self.find_agent(agent_id) {
                    Some(i) => i,
                    None => {
                        return true;
                    },
                };
                self.agents[i].run.native_session_id = Some(thread);
                self.agents[i].run.resume_block_reason = None;
                self.agents[i].run.updated_at = now;
                assert(self@.agents =~= turn_heard(
                    before,
                    agent_id,
                    run_id,
                    event@,
                    notice_saved,
                    now,
                    fresh,
                ).0.state.agents);
                self.tell_agent(i, effects);
                false
            },
            Event::TurnStarted => {
                self.start_agent_turn(agent_id, Some(run_id), now, effects);
                false
            },
            Event::Action(action) => {
                self.update_agent_action(agent_id, action.as_str(), Some(run_id), now, effects);
                false
            },
            Event::AssistantMessage(text) => {
                self.append_message(
                    agent_id,
                    AgentChatRole::Assistant,
                    text.as_str(),
                    Some(run_id),
                    now,
                    effects,
                );
                false
            },
            Event::ToolMessage(text) => {
                self.append_message(
                    agent_id,
                    AgentChatRole::Tool,
                    text.as_str(),
                    Some(run_id),
                    now,
                    effects,
                );
                false
            },
            Event::ApprovalRequested(request) => {
                if !self.is_current_run(agent_id, run_id) {
                    return true;
                }
                self.ask_permission(agent_id, request, notice_saved, now, effects)
            },
            Event::TurnCompleted { status, error } => {
                self.end_turn(
                    agent_id,
                    run_id,
                    status.as_str(),
                    crate::text::borrowed(&error),
                    now,
                    fresh,
                    effects,
                );
                true
            },
            Event::Diagnostic(text) => {
                push_effect(effects, Effect::Log { stream: "app-server", text });
                assert(effects_view(effects@) =~= told + seq![
                    EffectView::Log { stream: "app-server"@, text: text@ },
                ]);
                false
            },
            Event::Failed(message) => {
                let ghost failed = failure_recorded(
                    before,
                    agent_id,
                    message@,
                    Some(run_id),
                    now,
                    fresh,
                );
                self.record_terminal_failure(
                    agent_id,
                    message.as_str(),
                    Some(run_id),
                    now,
                    fresh,
                    effects,
                );
                remove_id(&mut self.turns, agent_id);
                self.clear_agent_permissions(agent_id, effects);
                assert(effects_view(effects@) =~= told + (failed.effects + agent_settled(
                    turn_dropped(failed.state, agent_id),
                    agent_id,
                ).effects));
                true
            },
        }
    }
}

// ---- answers to permissions ----

/// The agent and the run that a decision on a request goes to.
pub open spec fn decision_target(state: RuntimeView, request_id: u128, expired: Seq<char>, ended: Seq<char>) -> Result<
    (u128, Option<u128>),
    ErrorView,
> {
    match waiter(state.permission_agents, request_id) {
        None => Err(error_of("permission_not_found"@, expired)),
        Some(agent_id) => if !state.turns.contains(agent_id) {
            Err(error_of("permission_not_found"@, ended))
        } else {
            Ok(
                (
                    agent_id,
                    match state.child(agent_id) {
                        Some(child) => Some(child.run_id),
                        None => None,
                    },
                ),
            )
        },
    }
}

/// A request has been answered: the agent goes on, or waits for another.
pub open spec fn request_answered(state: RuntimeView, agent_id: u128, request_id: u128, action: Seq<char>, now: i64) -> Step {
    let settled = request_settled(state, request_id);
    match settled.state.agent_at(agent_id) {
        None => settled,
        Some(i) => {
            let agent = settled.state.agents[i];
            after(
                settled.effects,
                agent_saved(
                    settled.state,
                    i,
                    AgentView {
                        run: RunView {
                            state: if is_waiting(settled.state, agent_id) {
                                AgentState::AwaitingApproval
                            } else {
                                AgentState::Working
                            },
                            last_visible_action: Some(action),
                            updated_at: now,
                            ..agent.run
                        },
                        ..agent
                    },
                ),
            )
        },
    }
}

/// What a decision is shown as.
pub open spec fn decision_action(decision: PermissionDecision) -> Seq<char> {
    match decision {
        PermissionDecision::ApproveOnce => "Permission granted once"@,
        PermissionDecision::ApproveForSession => "Permission granted for this session"@,
        PermissionDecision::Deny => "Permission denied"@,
    }
}

/// A decision has reached the app server. It counts only while the run that asked
/// still works and the request is still open.
pub open spec fn decision_made(
    state: RuntimeView,
    agent_id: u128,
    run_id: Option<u128>,
    request_id: u128,
    decision: PermissionDecision,
    now: i64,
) -> Step {
    let current = match state.child(agent_id) {
        Some(child) => Some(child.run_id),
        None => None,
    };
    if current != run_id || position(permission_ids(state.permissions), request_id) is None {
        stays(state)
    } else {
        request_answered(state, agent_id, request_id, decision_action(decision), now)
    }
}

impl RuntimeState {
    /// The agent and the run that a decision on a request goes to.
    pub fn target_of_decision(&self, request_id: u128) -> (r: Result<(u128, Option<u128>), ProtocolError>)
        ensures
            match decision_target(
                self@,
                request_id,
                "approval request expired"@,
                "Codex turn is no longer active"@,
            ) {
                Ok(target) => r == Ok::<(u128, Option<u128>), ProtocolError>(target),
                Err(error) => r matches Err(e) && e@ == error,
            },
    {
        self.target_of(request_id, "approval request expired", "Codex turn is no longer active")
    }

    /// The agent and the run that answers to a request go to.
    pub fn target_of_answers(&self, request_id: u128) -> (r: Result<(u128, Option<u128>), ProtocolError>)
        ensures
            match decision_target(self@, request_id, "Question expired"@, "Turn ended"@) {
                Ok(target) => r == Ok::<(u128, Option<u128>), ProtocolError>(target),
                Err(error) => r matches Err(e) && e@ == error,
            },
    {
        self.target_of(request_id, "Question expired", "Turn ended")
    }

    /// The agent and the run that wait for a request.
    fn target_of(&self, request_id: u128, expired: &str, ended: &str) -> (r: Result<
        (u128, Option<u128>),
        ProtocolError,
    >)
        ensures
            match decision_target(self@, request_id, expired@, ended@) {
                Ok(target) => r == Ok::<(u128, Option<u128>), ProtocolError>(target),
                Err(error) => r matches Err(e) && e@ == error,
            },
    {
        let agent_id = match self.find_waiting(request_id) {
            Some(i) => self.permission_agents[i].1,
            None => {
                return Err(protocol_error("permission_not_found", expired));
            },
        };
        if !crate::kept::holds_id(&self.turns, agent_id) {
            return Err(protocol_error("permission_not_found", ended));
        }
        let run_id = match self.find_child(agent_id) {
            Some(i) => Some(self.children[i].run_id),
            None => None,
        };
        Ok((agent_id, run_id))
    }

    /// A request has been answered.
    fn answer_request(
        &mut self,
        agent_id: u128,
        request_id: u128,
        action: &str,
        now: i64,
        effects: &mut Vec<Effect>,
    )
        ensures
            does(
                old(effects)@,
                *final(self),
                final(effects)@,
                request_answered(old(self)@, agent_id, request_id, action@, now),
            ),
    {
        let ghost told = effects_view(effects@);
        let ghost before = self@;
        let ghost step = request_answered(before, agent_id, request_id, action@, now);
        self.settle_request(request_id, effects);
        let waiting = self.waits(agent_id);
        if let Some(i) = self.find_agent(agent_id) {
            self.agents[i].run.state = if waiting {
                AgentState::AwaitingApproval
            } else {
                AgentState::Working
            };
            self.agents[i].run.last_visible_action = Some(action.to_owned());
            self.agents[i].run.updated_at = now;
            assert(self@.agents =~= step.state.agents);
            self.tell_agent(i, effects);
            assert(effects_view(effects@) =~= told + step.effects);
        }
    }

    /// A decision has reached the app server.
    pub fn finish_decision(
        &mut self,
        agent_id: u128,
        run_id: Option<u128>,
        request_id: u128,
        decision: PermissionDecision,
        now: i64,
        effects: &mut Vec<Effect>,
    )
        ensures
            does(
                old(effects)@,
                *final(self),
                final(effects)@,
                decision_made(old(self)@, agent_id, run_id, request_id, decision, now),
            ),
    {
        assert(effects_view(effects@) =~= effects_view(effects@) + Seq::empty());
        let current = match self.find_child(agent_id) {
            Some(i) => Some(self.children[i].run_id),
            None => None,
        };
        let same = match (current, run_id) {
            (Some(a), Some(b)) => a == b,
            (None, None) => true,
            _ => false,
        };
        if !same || self.find_permission(request_id).is_none() {
            return ;
        }
        let action = match decision {
            PermissionDecision::ApproveOnce => "Permission granted once",
            PermissionDecision::ApproveForSession => "Permission granted for this session",
            PermissionDecision::Deny => "Permission denied",
        };
        self.answer_request(agent_id, request_id, action, now, effects);
    }

    /// Answers have reached the app server.
    pub fn finish_answers(&mut self, agent_id: u128, request_id: u128, now: i64, effects: &mut Vec<Effect>)
        ensures
            does(
                old(effects)@,
                *final(self),
                final(effects)@,
                request_answered(old(self)@, agent_id, request_id, "Answer sent to Codex"@, now),
            ),
    {
        self.answer_request(agent_id, request_id, "Answer sent to Codex", now, effects);
    }

    /// A decision or answers have been accepted by the host of a request.
    pub fn settle_on_host(&mut self, request_id: u128)
        ensures
            final(self)@ == (RuntimeView {
                permission_hosts: crate::state::host_dropped(old(self)@.permission_hosts, request_id),
                permissions: permission_dropped(old(self)@.permissions, request_id),
                ..old(self)@
            }),
    {
        self.permission_hosts.remove(request_id);
        self.drop_permission(request_id);
    }
}

/// A decision on a request of an earlier run never touches the run that works
/// now.
pub proof fn lemma_stale_decisions_change_nothing(
    state: RuntimeView,
    agent_id: u128,
    run_id: u128,
    request_id: u128,
    decision: PermissionDecision,
    now: i64,
)
    requires
        !state.is_current(agent_id, run_id),
    ensures
        decision_made(state, agent_id, Some(run_id), request_id, decision, now) == stays(state),
{
}

// ---- the end of a turn's process ----

/// What is known of a turn's process.
#[derive(Clone, Copy, Debug, PartialEq, Eq, Structural)]
pub struct TurnWatch {
    /// The turn is over.
    pub terminal: bool,
    /// Its output has ended.
    pub output_closed: bool,
    /// Since when its process is expected to end.
    pub cleanup_since: Option<u64>,
}

/// What is to be done about a turn's process.
#[derive(Clone, Copy, Debug, PartialEq, Eq, Structural)]
pub enum WatchStep {
    /// It is watched on.
    Continue,
    /// It has ended, though its turn is not over.
    EndedEarly,
    /// It has ended.
    Ended,
    /// Its output has ended, though its turn is not over.
    Disconnected,
    /// It has not ended in time and is killed.
    Kill,
}

/// How long a process may take to end, in milliseconds.
pub const CLEANUP_GRACE: u64 = 2000;

/// What is to be done about a turn's process, and what is known of it then. The
/// end of a process counts only once its output has been read to the end.
pub open spec fn watched(watch: TurnWatch, exited: bool, now: u64) -> (TurnWatch, WatchStep) {
    if exited && watch.output_closed {
        (
            watch,
            if watch.terminal {
                WatchStep::Ended
            } else {
                WatchStep::EndedEarly
            },
        )
    } else {
        let since = match watch.cleanup_since {
            Some(at) => Some(at),
            None => if exited {
                Some(now)
            } else {
                None
            },
        };
        if watch.output_closed && !watch.terminal {
            (TurnWatch { terminal: true, cleanup_since: Some(now), ..watch }, WatchStep::Disconnected)
        } else {
            (
                TurnWatch { cleanup_since: since, ..watch },
                if since matches Some(at) && now >= at && now - at > CLEANUP_GRACE {
                    WatchStep::Kill
                } else {
                    WatchStep::Continue
                },
            )
        }
    }
}

impl TurnWatch {
    /// A turn has begun.
    pub fn new() -> (r: TurnWatch)
        ensures
            r == (TurnWatch { terminal: false, output_closed: false, cleanup_since: None }),
    {
        TurnWatch { terminal: false, output_closed: false, cleanup_since: None }
    }

    /// The output has ended.
    pub fn close_output(&mut self)
        ensures
            *final(self) == (TurnWatch { output_closed: true, ..*old(self) }),
    {
        self.output_closed = true;
    }

    /// An event has been heard, after which the turn is over or not.
    pub fn hear(&mut self, terminal: bool, now: u64)
        ensures
            *final(self) == (if !old(self).terminal && terminal {
                TurnWatch { terminal: true, cleanup_since: Some(now), ..*old(self) }
            } else {
                *old(self)
            }),
    {
        if !self.terminal && terminal {
            self.terminal = true;
            self.cleanup_since = Some(now);
        }
    }

    /// What is to be done about the process. The time is one that only grows.
    pub fn step(&mut self, exited: bool, now: u64) -> (r: WatchStep)
        ensures
            (*final(self), r) == watched(*old(self), exited, now),
    {
        if exited && self.output_closed {
            return if self.terminal {
                WatchStep::Ended
            } else {
                WatchStep::EndedEarly
            };
        }
        if exited && self.cleanup_since.is_none() {
            self.cleanup_since = Some(now);
        }
        if self.output_closed && !self.terminal {
            self.terminal = true;
            self.cleanup_since = Some(now);
            return WatchStep::Disconnected;
        }
        match self.cleanup_since {
            Some(at) => if now >= at && now - at > CLEANUP_GRACE {
                WatchStep::Kill
            } else {
                WatchStep::Continue
            },
            None => WatchStep::Continue,
        }
    }
}

/// A process is never taken for ended before its output has been read to the end.
pub proof fn lemma_output_is_drained_first(watch: TurnWatch, exited: bool, now: u64)
    requires
        !watch.output_closed,
    ensures
        watched(watch, exited, now).1 != WatchStep::Ended,
        watched(watch, exited, now).1 != WatchStep::EndedEarly,
{
}

/// The words with which an app server ends a turn decide for the agent: `completed`
/// and `interrupted` are taken as they are, anything else is a failure. The code of
/// the run is zero exactly for a turn that was completed.
pub proof fn lemma_status_decides(state: RuntimeView, agent_id: u128, status: Seq<char>, now: i64)
    requires
        state.agent(agent_id) is Some,
    ensures
        ({
            let after = turn_concluded(state, agent_id, status, now).state.agent(agent_id);
            &&& after is Some
            &&& after->0.run.state == AgentState::Completed <==> status == "completed"@
            &&& after->0.run.state == AgentState::Interrupted <==> status == "interrupted"@
            &&& after->0.run.state == AgentState::Completed || after->0.run.state == AgentState::Interrupted
                || after->0.run.state == AgentState::Failed
            &&& after->0.run.exit_code == Some(0i32) <==> status == "completed"@
            &&& after->0.run.exit_code is Some
            &&& !after->0.run.can_stop
            &&& after->0.run.finished_at == Some(now)
            &&& after->0.run.state == AgentState::Completed ==> after->0.run.last_visible_action == Some(
                "Turn completed"@,
            )
            &&& after->0.run.state == AgentState::Interrupted ==> after->0.run.last_visible_action == Some(
                "Turn interrupted"@,
            )
            &&& after->0.run.state == AgentState::Failed ==> after->0.run.last_visible_action == Some(
                "Turn failed"@,
            )
        }),
{
    reveal_strlit("completed");
    reveal_strlit("interrupted");
    assert("completed"@.len() == 9);
    assert("interrupted"@.len() == 11);
    lemma_found_agent_has_its_id(state, agent_id);
    let i = state.agent_at(agent_id)->0;
    let step = turn_concluded(state, agent_id, status, now);
    lemma_saved_agent_is_found(state, agent_id, step.state.agents[i], agent_id);
}

proof fn lemma_waiting_put(list: Seq<(u128, u128)>, request: u128, agent: u128)
    ensures
        waiter(waiting_put(list, request, agent), request) == Some(agent),
{
    lemma_position(waiting_ids(list), request);
    let after = waiting_put(list, request, agent);
    match position(waiting_ids(list), request) {
        Some(i) => {
            assert(waiting_ids(after) =~= waiting_ids(list));
        },
        None => {
            assert(waiting_ids(after) =~= waiting_ids(list).push(request));
            assert(waiting_ids(after).drop_last() =~= waiting_ids(list));
        },
    }
}

/// A permission that is asked for makes its agent wait, is kept under its own
/// identifier for that agent, and is told; it never ends the turn.
pub proof fn lemma_asking_makes_an_agent_wait(
    state: RuntimeView,
    agent_id: u128,
    request: PermissionView,
    notice_saved: bool,
    now: i64,
)
    requires
        state.agent(agent_id) is Some,
    ensures
        ({
            let (step, over) = permission_asked(state, agent_id, request, notice_saved, now);
            let after = step.state.agent(agent_id);
            &&& !over
            &&& after is Some
            &&& after->0.run.state == AgentState::AwaitingApproval
            &&& after->0.run.last_visible_action == Some(request.summary)
            &&& waiter(step.state.permission_agents, request.id) == Some(agent_id)
            &&& step.state.permissions.contains(request)
            &&& step.effects.contains(EffectView::Tell(ServerEventView::PermissionRequested(request)))
            &&& notice_saved ==> step.state.attention.len() == state.attention.len() + 1
                && step.state.attention.last().id == request.id && step.state.attention.last().kind
                == AttentionKind::ApprovalRequired && step.state.attention.last().agent_id == Some(agent_id)
            &&& !notice_saved ==> step.state.attention == state.attention
        }),
{
    let asked = RuntimeView {
        permission_agents: waiting_put(state.permission_agents, request.id, agent_id),
        permissions: permission_put(state.permissions, request),
        ..state
    };
    lemma_found_agent_has_its_id(asked, agent_id);
    let i = asked.agent_at(agent_id)->0;
    let (step, over) = permission_asked(state, agent_id, request, notice_saved, now);
    lemma_saved_agent_is_found(asked, agent_id, step.state.agents[i], agent_id);
    lemma_waiting_put(state.permission_agents, request.id, agent_id);
    lemma_position(permission_ids(state.permissions), request.id);
    match position(permission_ids(state.permissions), request.id) {
        Some(k) => {
            assert(step.state.permissions[k] == request);
        },
        None => {
            assert(step.state.permissions[state.permissions.len() as int] == request);
        },
    }
    assert(step.effects.last() == EffectView::Tell(ServerEventView::PermissionRequested(request)));
}

/// An answer lets its agent go on exactly where it waits for nothing else, and the
/// notice and the request are gone.
pub proof fn lemma_answers_let_agents_go_on(
    state: RuntimeView,
    agent_id: u128,
    request_id: u128,
    action: Seq<char>,
    now: i64,
    i: int,
)
    requires
        state.agent(agent_id) is Some,
    ensures
        ({
            let step = request_answered(state, agent_id, request_id, action, now);
            let after = step.state.agent(agent_id);
            &&& after is Some
            &&& after->0.run.last_visible_action == Some(action)
            &&& after->0.run.state == AgentState::AwaitingApproval || after->0.run.state == AgentState::Working
            &&& after->0.run.state == AgentState::AwaitingApproval <==> exists|k: int|
                0 <= k < step.state.permissions.len() && (#[trigger] step.state.permissions[k]).agent_id == Some(
                    agent_id,
                )
            &&& 0 <= i < step.state.attention.len() ==> step.state.attention[i].id != request_id
            &&& step.effects.contains(
                EffectView::Tell(ServerEventView::PermissionResolved { request_id }),
            )
        }),
{
    let settled = request_settled(state, request_id);
    lemma_found_agent_has_its_id(settled.state, agent_id);
    let step = request_answered(state, agent_id, request_id, action, now);
    let at = settled.state.agent_at(agent_id)->0;
    lemma_saved_agent_is_found(settled.state, agent_id, step.state.agents[at], agent_id);
    assert(step.effects[1] == EffectView::Tell(ServerEventView::PermissionResolved { request_id }));
    if 0 <= i < step.state.attention.len() {
        broadcast use vstd::seq_lib::group_filter_ensures;

        assert(other_notice(request_id)(step.state.attention[i]));
    }
}

/// The three decisions are shown with three different words.
pub proof fn lemma_decisions_are_shown(decision: PermissionDecision)
    ensures
        decision == PermissionDecision::ApproveOnce ==> decision_action(decision) == "Permission granted once"@,
        decision == PermissionDecision::ApproveForSession ==> decision_action(decision)
            == "Permission granted for this session"@,
        decision == PermissionDecision::Deny ==> decision_action(decision) == "Permission denied"@,
{
}

/// A decision goes to the agent that waits for the request and to its run; nobody
/// else is told, and a request whose turn is over is told to nobody.
pub proof fn lemma_decisions_go_to_the_waiting_agent(
    state: RuntimeView,
    request_id: u128,
    expired: Seq<char>,
    ended: Seq<char>,
)
    ensures
        match decision_target(state, request_id, expired, ended) {
            Ok((agent_id, run_id)) => {
                &&& waiter(state.permission_agents, request_id) == Some(agent_id)
                &&& state.turns.contains(agent_id)
                &&& state.child(agent_id) is Some ==> run_id == Some(state.child(agent_id)->0.run_id)
                &&& state.child(agent_id) is None ==> run_id is None
            },
            Err(error) => {
                &&& error.code == "permission_not_found"@
                &&& waiter(state.permission_agents, request_id) is None ==> error.message == expired
                &&& waiter(state.permission_agents, request_id) is Some ==> error.message == ended
                    && !state.turns.contains(waiter(state.permission_agents, request_id)->0)
            },
        },
{
}

/// What the app server settles by itself lets the agent go on only where it waited
/// and waits for nothing else.
pub proof fn lemma_settled_requests_let_agents_go_on(
    state: RuntimeView,
    agent_id: u128,
    id: u128,
    now: i64,
)
    requires
        state.agent(agent_id) is Some,
    ensures
        ({
            let before = state.agent(agent_id)->0;
            let step = permission_resolved(state, agent_id, id, now);
            let after = step.state.agent(agent_id);
            let waits = is_waiting(request_settled(state, id).state, agent_id);
            &&& after is Some
            &&& before.run.state == AgentState::AwaitingApproval && !waits ==> after->0.run.state
                == AgentState::Working
            &&& before.run.state != AgentState::AwaitingApproval || waits ==> after->0.run.state
                == before.run.state
        }),
{
    let settled = request_settled(state, id);
    lemma_found_agent_has_its_id(settled.state, agent_id);
    lemma_found_agent_has_its_id(state, agent_id);
    let step = permission_resolved(state, agent_id, id, now);
    let at = settled.state.agent_at(agent_id)->0;
    lemma_saved_agent_is_found(settled.state, agent_id, step.state.agents[at], agent_id);
}

/// A session of an app server is taken only by a runtime on an SSH host and only for
/// the project that was meant.
pub proof fn lemma_sessions_are_for_the_right_project(
    state: RuntimeView,
    project_id: u128,
    name: Seq<char>,
    root: Seq<char>,
    thread: Option<Seq<char>>,
)
    ensures
        session_refusal(state, project_id, name, root, thread) is None <==> {
            &&& state.remote_runtime
            &&& state.project(project_id) is Some
            &&& state.project(project_id)->0.name == name
            &&& path_parts(state.project(project_id)->0.root) == path_parts(root)
            &&& thread is Some ==> thread_refusal(state, thread->0, state.project(project_id)->0.root) is None
        },
        !state.remote_runtime ==> session_refusal(state, project_id, name, root, thread)->0.code
            == "ssh_app_server_only"@,
        state.remote_runtime && state.project(project_id) is None ==> session_refusal(
            state,
            project_id,
            name,
            root,
            thread,
        )->0.code == "project_not_found"@,
{
}

/// A prompt to an app server is taken only by a runtime on an SSH host, for an agent
/// that is known, not at work, has a thread, and belongs to the Codex home in use.
pub proof fn lemma_turns_need_an_agent_at_rest(state: RuntimeView, agent_id: u128)
    ensures
        turn_refusal(state, agent_id) is None <==> {
            &&& state.remote_runtime
            &&& state.agent(agent_id) is Some
            &&& state.child(agent_id) is None
            &&& !state.launching.contains(agent_id)
            &&& state.agent(agent_id)->0.run.native_session_id is Some
            &&& state.agent(agent_id)->0.run.origin_codex_home == state.codex_home
        },
{
}

/// Which events end a turn: its completion, its failure and the end of its output.
pub proof fn lemma_what_ends_a_turn(
    state: RuntimeView,
    agent_id: u128,
    run_id: u128,
    event: EventView,
    notice_saved: bool,
    now: i64,
    fresh: u128,
)
    requires
        state.is_current(agent_id, run_id),
        state.agent(agent_id) is Some,
    ensures
        turn_heard(state, agent_id, run_id, event, notice_saved, now, fresh).1 <==> event is TurnCompleted
            || event is Failed || event is OutputClosed,
        event is OutputClosed || event is Diagnostic ==> turn_heard(
            state,
            agent_id,
            run_id,
            event,
            notice_saved,
            now,
            fresh,
        ).0.state == state,
        event matches EventView::ThreadReady(thread) ==> {
            let after = turn_heard(state, agent_id, run_id, event, notice_saved, now, fresh).0.state.agent(
                agent_id,
            );
            after is Some && after->0.run.native_session_id == Some(thread) && after->0.run.resume_block_reason is None
        },
        event matches EventView::AssistantMessage(text) ==> turn_heard(
            state,
            agent_id,
            run_id,
            event,
            notice_saved,
            now,
            fresh,
        ).0 == message_appended(state, agent_id, AgentChatRole::Assistant, text, Some(run_id), now),
        event matches EventView::ToolMessage(text) ==> turn_heard(
            state,
            agent_id,
            run_id,
            event,
            notice_saved,
            now,
            fresh,
        ).0 == message_appended(state, agent_id, AgentChatRole::Tool, text, Some(run_id), now),
{
    lemma_found_agent_has_its_id(state, agent_id);
    if event is ThreadReady {
        let i = state.agent_at(agent_id)->0;
        let step = turn_heard(state, agent_id, run_id, event, notice_saved, now, fresh).0;
        lemma_saved_agent_is_found(state, agent_id, step.state.agents[i], agent_id);
    }
    if event is ApprovalRequested {
        lemma_asking_makes_an_agent_wait(
            state,
            agent_id,
            event->ApprovalRequested_0,
            notice_saved,
            now,
        );
    }
}

/// A process is killed only when it has been expected to end for more than two
/// seconds, and is reported as ended early exactly where its turn was not over.
pub proof fn lemma_processes_get_their_time(watch: TurnWatch, exited: bool, now: u64)
    ensures
        watched(watch, exited, now).1 == WatchStep::Kill ==> watch.cleanup_since is Some && now
            > watch.cleanup_since->0 + 2000,
        watched(watch, exited, now).1 == WatchStep::Ended <==> exited && watch.output_closed && watch.terminal,
        watched(watch, exited, now).1 == WatchStep::EndedEarly <==> exited && watch.output_closed
            && !watch.terminal,
        watched(watch, exited, now).1 == WatchStep::Disconnected <==> !exited && watch.output_closed
            && !watch.terminal,
        watch.cleanup_since is Some && now > watch.cleanup_since->0 + 2000 && watch.terminal && !(exited
            && watch.output_closed) ==> watched(watch, exited, now).1 == WatchStep::Kill,
        watched(watch, exited, now).0.output_closed == watch.output_closed,
{
}

/// Settling a request takes it away together with its notice, and tells of both;
/// other requests and notices stay.
pub proof fn lemma_settled_requests_are_gone(state: RuntimeView, id: u128)
    ensures
        ({
            let step = request_settled(state, id);
            &&& step.effects.contains(EffectView::ForgetAttention(id))
            &&& step.effects.contains(
                EffectView::Tell(ServerEventView::PermissionResolved { request_id: id }),
            )
            &&& step.effects.contains(
                EffectView::Tell(ServerEventView::AttentionDismissed { attention_id: id }),
            )
            &&& step.effects.len() == 3
            &&& forall|item: AttentionView|
                #[trigger] step.state.attention.contains(item) <==> state.attention.contains(item) && item.id != id
            &&& step.state.agents == state.agents
            &&& step.state.projects == state.projects
        }),
{
    broadcast use vstd::seq_lib::group_filter_ensures;

    let step = request_settled(state, id);
    assert(step.effects[0] == EffectView::ForgetAttention(id));
    assert(step.effects[1] == EffectView::Tell(ServerEventView::PermissionResolved { request_id: id }));
    assert(step.effects[2] == EffectView::Tell(ServerEventView::AttentionDismissed { attention_id: id }));
    let kept = state.attention.filter(other_notice(id));
    assert forall|item: AttentionView| #[trigger] step.state.attention.contains(item) implies state.attention.contains(
        item,
    ) && item.id != id by {
        let i = choose|i: int| 0 <= i < kept.len() && kept[i] == item;
        assert(other_notice(id)(kept[i]));
        state.attention.lemma_filter_contains_rev(other_notice(id), item);
    }
    assert forall|item: AttentionView| state.attention.contains(item) && item.id != id implies #[trigger] step.state.attention.contains(
        item,
    ) by {
        let i = choose|i: int| 0 <= i < state.attention.len() && state.attention[i] == item;
        assert(other_notice(id)(state.attention[i]));
        state.attention.lemma_filter_contains(other_notice(id), i);
    }
}

/// A request for permission is shown as such, under its own identifier, with its
/// agent and its project, and has not been read.
pub proof fn lemma_requests_are_shown_unread(request: PermissionView, agent_id: u128)
    ensures
        permission_notice(request, agent_id).id == request.id,
        permission_notice(request, agent_id).kind == AttentionKind::ApprovalRequired,
        permission_notice(request, agent_id).agent_id == Some(agent_id),
        permission_notice(request, agent_id).project_id == Some(request.project_id),
        permission_notice(request, agent_id).created_at == request.created_at,
        permission_notice(request, agent_id).read_at is None,
{
}

} // verus!
