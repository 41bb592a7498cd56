//! What runs on SSH hosts: what the hosts tell, what is kept of it here, and
//! where a request is to be carried out.

use crate::json::{Json, JsonView};
use crate::model::{
    AgentChatMessage, AgentRun, MessageView, PermissionRequest, PermissionView, Project, ProjectGitPolicy,
    ProjectView, RunView,
};
use crate::sessions::agent_put;
use crate::state::{
    agent_ids, does, effects_view, host_dropped, host_of, host_put, lemma_position, messages_view,
    permission_ids, position,
    push_effect, stays, AgentRecord, AgentView, Effect, EffectView, RemoteHostPresence,
    RuntimeState, RuntimeView, ServerEvent, ServerEventView, Step,
};
use crate::text::{same_text, str_of};
use vstd::prelude::*;

verus! {

// ---- events of hosts ----

/// Whether a project is on a host.
pub open spec fn is_hosted(projects: Seq<ProjectView>, project_id: u128, alias: Seq<char>) -> bool {
    exists|i: int|
        0 <= i < projects.len() && (#[trigger] projects[i]).id == project_id && projects[i].host() == Some(
            alias,
        )
}

/// Whether a host may speak for an agent: one that is its own, or that nobody
/// knows yet.
pub open spec fn may_speak_for(state: RuntimeView, alias: Seq<char>, agent_id: u128) -> bool {
    match host_of(state.agent_hosts, agent_id) {
        Some(host) => host == alias,
        None => state.agent_at(agent_id) is None,
    }
}

/// The requests for permission with one of them put under its identifier.
pub open spec fn permission_put(list: Seq<PermissionView>, request: PermissionView) -> Seq<PermissionView> {
    match position(permission_ids(list), request.id) {
        Some(i) => list.update(i, request),
        None => list.push(request),
    }
}

/// The requests for permission without one.
pub open spec fn permission_dropped(list: Seq<PermissionView>, id: u128) -> Seq<PermissionView> {
    match position(permission_ids(list), id) {
        Some(i) => list.remove(i),
        None => list,
    }
}

/// What an event of a host leads to.
pub open spec fn host_spoke(state: RuntimeView, alias: Seq<char>, event: ServerEventView) -> Step {
    match event {
        ServerEventView::AgentChanged(run) => if !is_hosted(state.projects, run.project_id, alias)
            || !may_speak_for(state, alias, run.id) {
            stays(state)
        } else {
            Step {
                state: RuntimeView {
                    agent_hosts: host_put(state.agent_hosts, run.id, alias),
                    agents: match state.agent_at(run.id) {
                        Some(i) => state.agents.update(i, AgentView { run, ..state.agents[i] }),
                        None => state.agents,
                    },
                    ..state
                },
                effects: seq![EffectView::Tell(event)],
            }
        },
        ServerEventView::AgentMessageAppended(message) => if host_of(state.agent_hosts, message.agent_id)
            != Some(alias) {
            stays(state)
        } else {
            Step {
                state: RuntimeView {
                    agents: match state.agent_at(message.agent_id) {
                        Some(i) => if state.agents[i].messages.contains(message) {
                            state.agents
                        } else {
                            state.agents.update(
                                i,
                                AgentView {
                                    messages: state.agents[i].messages.push(message),
                                    ..state.agents[i]
                                },
                            )
                        },
                        None => state.agents,
                    },
                    ..state
                },
                effects: seq![EffectView::Tell(event)],
            }
        },
        ServerEventView::PermissionRequested(request) => if !is_hosted(
            state.projects,
            request.project_id,
            alias,
        ) {
            stays(state)
        } else {
            Step {
                state: RuntimeView {
                    agent_hosts: match request.agent_id {
                        Some(id) => host_put(state.agent_hosts, id, alias),
                        None => state.agent_hosts,
                    },
                    permission_hosts: host_put(state.permission_hosts, request.id, alias),
                    permissions: permission_put(state.permissions, request),
                    ..state
                },
                effects: seq![EffectView::Tell(event)],
            }
        },
        ServerEventView::ProjectTerminalOutput { terminal_id, .. } => if host_of(
            state.terminal_hosts,
            terminal_id,
        ) == Some(alias) {
            Step { state, effects: seq![EffectView::Tell(event)] }
        } else {
            stays(state)
        },
        ServerEventView::ProjectTerminalExited { terminal_id } => if host_of(
            state.terminal_hosts,
            terminal_id,
        ) == Some(alias) {
            Step {
                state: RuntimeView {
                    terminal_hosts: host_dropped(state.terminal_hosts, terminal_id),
                    ..state
                },
                effects: seq![EffectView::Tell(event)],
            }
        } else {
            stays(state)
        },
        _ => stays(state),
    }
}

impl RuntimeState {
    /// Whether a project is on a host.
    fn hosts_project(&self, project_id: u128, alias: &str) -> (r: bool)
        ensures
            r == is_hosted(self@.projects, project_id, alias@),
    {
        let ghost list = self@.projects;
        let mut i: usize = 0;
        while i < self.projects.len()
            invariant
                0 <= i <= self.projects.len(),
                list == self@.projects,
                forall|k: int|
                    0 <= k < i && (#[trigger] list[k]).id == project_id ==> list[k].host() != Some(alias@),
            decreases self.projects.len() - i,
        {
            assert(list[i as int] == self.projects@[i as int]@);
            let here = match self.projects[i].host_alias() {
                Some(host) => same_text(host, alias),
                None => false,
            };
            if self.projects[i].id == project_id && here {
                assert(self@.projects[i as int].id == project_id);
                return true;
            }
            i += 1;
        }
        false
    }

    /// Whether a host may speak for an agent.
    fn lets_speak(&self, alias: &str, agent_id: u128) -> (r: bool)
        ensures
            r == may_speak_for(self@, alias@, agent_id),
    {
        match self.agent_hosts.host(agent_id) {
            Some(host) => same_text(host, alias),
            None => self.find_agent(agent_id).is_none(),
        }
    }

    /// The place of a request for permission.
    pub(crate) fn find_permission(&self, id: u128) -> (r: Option<usize>)
        ensures
            match r {
                Some(i) => i < self.permissions.len() && position(
                    permission_ids(self@.permissions),
                    id,
                ) == Some(i as int),
                None => position(permission_ids(self@.permissions), id) is None,
            },
    {
        let ghost ids = permission_ids(self@.permissions);
        let mut i: usize = 0;
        assert(ids.take(0) =~= Seq::empty());
        while i < self.permissions.len()
            invariant
                0 <= i <= self.permissions.len(),
                ids == permission_ids(self@.permissions),
                position(ids.take(i as int), id) is None,
            decreases self.permissions.len() - i,
        {
            assert(ids.take(i + 1).drop_last() =~= ids.take(i as int));
            assert(ids.take(i + 1).last() == self.permissions@[i as int].id);
            if self.permissions[i].id == id {
                proof {
                    crate::state::lemma_position_found(ids, id, i + 1);
                }
                return Some(i);
            }
            i += 1;
        }
        assert(ids.take(ids.len() as int) =~= ids);
        None
    }

    /// Puts a request for permission under its identifier.
    pub(crate) fn put_permission(&mut self, request: PermissionRequest)
        ensures
            final(self)@ == (RuntimeView {
                permissions: permission_put(old(self)@.permissions, request@),
                ..old(self)@
            }),
    {
        let ghost before = self@.permissions;
        match self.find_permission(request.id) {
            Some(i) => {
                self.permissions.set(i, request);
                assert(self@.permissions =~= before.update(i as int, request@));
            },
            None => {
                self.permissions.push(request);
                assert(self@.permissions =~= before.push(request@));
            },
        }
    }

    /// Takes a request for permission away.
    pub(crate) fn drop_permission(&mut self, id: u128)
        ensures
            final(self)@ == (RuntimeView {
                permissions: permission_dropped(old(self)@.permissions, id),
                ..old(self)@
            }),
    {
        let ghost before = self@.permissions;
        match self.find_permission(id) {
            Some(i) => {
                self.permissions.remove(i);
                assert(self@.permissions =~= before.remove(i as int));
            },
            None => {},
        }
    }

    /// What an event of a host leads to.
    pub fn forward_remote_event(&mut self, alias: &str, event: ServerEvent, effects: &mut Vec<Effect>)
        ensures
            does(
                old(effects)@,
                *final(self),
                final(effects)@,
                host_spoke(old(self)@, alias@, event@),
            ),
    {
        let ghost told = effects_view(effects@);
        let ghost before = self@;
        let ghost step = host_spoke(before, alias@, event@);
        assert(told =~= told + Seq::empty());
        assert(told.push(EffectView::Tell(event@)) =~= told + seq![EffectView::Tell(event@)]);
        match event {
            ServerEvent::AgentChanged(run) => {
                if !self.hosts_project(run.project_id, alias) || !self.lets_speak(alias, run.id) {
                    return ;
                }
                if let Some(i) = self.find_agent(run.id) {
                    self.agents[i].run = run.copy();
                }
                self.agent_hosts.put(run.id, alias);
                assert(self@.agents =~= step.state.agents);
                push_effect(effects, Effect::Tell(ServerEvent::AgentChanged(run)));
            },
            ServerEvent::AgentMessageAppended(message) => {
                if !self.agent_hosts.is_on(message.agent_id, alias) {
                    return ;
                }
                if let Some(i) = self.find_agent(message.agent_id) {
                    if !holds_message(&self.agents[i].messages, &message) {
                        let ghost messages = messages_view(self.agents@[i as int].messages@);
                        self.agents[i].messages.push(message.copy());
                        assert(messages_view(self.agents@[i as int].messages@) =~= messages.push(message@));
                    }
                }
                assert(self@.agents =~= step.state.agents);
                push_effect(effects, Effect::Tell(ServerEvent::AgentMessageAppended(message)));
            },
            ServerEvent::PermissionRequested(request) => {
                if !self.hosts_project(request.project_id, alias) {
                    return ;
                }
                if let Some(id) = request.agent_id {
                    self.agent_hosts.put(id, alias);
                }
                self.permission_hosts.put(request.id, alias);
                self.put_permission(request.copy());
                push_effect(effects, Effect::Tell(ServerEvent::PermissionRequested(request)));
            },
            ServerEvent::ProjectTerminalOutput { terminal_id, data } => {
                if self.terminal_hosts.is_on(terminal_id, alias) {
                    push_effect(
                        effects,
                        Effect::Tell(ServerEvent::ProjectTerminalOutput { terminal_id, data }),
                    );
                }
            },
            ServerEvent::ProjectTerminalExited { terminal_id } => {
                if self.terminal_hosts.is_on(terminal_id, alias) {
                    self.terminal_hosts.remove(terminal_id);
                    push_effect(
                        effects,
                        Effect::Tell(ServerEvent::ProjectTerminalExited { terminal_id }),
                    );
                }
            },
            _ => {},
        }
    }
}

/// Whether a message is in a chat.
fn holds_message(messages: &Vec<AgentChatMessage>, message: &AgentChatMessage) -> (r: bool)
    ensures
        r == messages_view(messages@).contains(message@),
{
    let ghost views = messages_view(messages@);
    let mut i: usize = 0;
    while i < messages.len()
        invariant
            0 <= i <= messages.len(),
            views == messages_view(messages@),
            forall|k: int| 0 <= k < i ==> views[k] != message@,
        decreases messages.len() - i,
    {
        assert(views[i as int] == messages@[i as int]@);
        let other = &messages[i];
        if other.agent_id == message.agent_id && other.role == message.role && other.created_at
            == message.created_at && same_text(other.text.as_str(), message.text.as_str()) {
            assert(views[i as int] == message@);
            return true;
        }
        i += 1;
    }
    false
}

/// An agent that a host has started is kept here.
pub open spec fn agent_cached(state: RuntimeView, alias: Seq<char>, project: ProjectView, run: RunView) -> Step {
    if !may_speak_for(state, alias, run.id) {
        stays(state)
    } else {
        Step {
            state: RuntimeView {
                agent_hosts: host_put(state.agent_hosts, run.id, alias),
                agents: agent_put(state.agents, hosted_agent(project, run)),
                ..state
            },
            effects: seq![EffectView::Tell(ServerEventView::AgentChanged(run))],
        }
    }
}

/// An agent of a host as it is kept here: its chat stays with the host.
pub open spec fn hosted_agent(project: ProjectView, run: RunView) -> AgentView {
    AgentView {
        run,
        project_root: project.root,
        allow_non_git: project.git_policy == ProjectGitPolicy::AllowOutsideGit,
        messages: Seq::empty(),
        terminal_failure: None,
    }
}

/// The record of an agent of a host.
fn host_record(project: &Project, run: &AgentRun) -> (r: AgentRecord)
    ensures
        r@ == hosted_agent(project@, run@),
{
    let r = AgentRecord {
        run: run.copy(),
        project_root: project.root.clone(),
        allow_non_git: matches!(project.git_policy, ProjectGitPolicy::AllowOutsideGit),
        messages: Vec::new(),
        terminal_failure: None,
    };
    assert(r@.messages =~= Seq::empty());
    r
}

impl RuntimeState {
    /// Keeps an agent that a host has started, unless the agent is another's.
    pub fn cache_remote_agent(
        &mut self,
        alias: &str,
        project: &Project,
        run: &AgentRun,
        effects: &mut Vec<Effect>,
    ) -> (r: bool)
        ensures
            r == may_speak_for(old(self)@, alias@, run.id),
            does(
                old(effects)@,
                *final(self),
                final(effects)@,
                agent_cached(old(self)@, alias@, project@, run@),
            ),
    {
        let ghost told = effects_view(effects@);
        if !self.lets_speak(alias, run.id) {
            assert(told =~= told + Seq::empty());
            return false;
        }
        self.agent_hosts.put(run.id, alias);
        self.put_agent(host_record(project, run));
        push_effect(effects, Effect::Tell(ServerEvent::AgentChanged(run.copy())));
        assert(effects_view(effects@) =~= told + seq![
            EffectView::Tell(ServerEventView::AgentChanged(run@)),
        ]);
        true
    }
}

/// No host changes an agent that is not its own.
pub proof fn lemma_hosts_speak_for_their_own(state: RuntimeView, alias: Seq<char>, project: ProjectView, run: RunView)
    requires
        state.agent_at(run.id) is Some,
        host_of(state.agent_hosts, run.id) != Some(alias),
    ensures
        host_spoke(state, alias, ServerEventView::AgentChanged(run)) == stays(state),
        agent_cached(state, alias, project, run) == stays(state),
{
}

// ---- whether hosts are there ----

/// Which hosts are there, by their aliases.
#[derive(Debug)]
pub struct PresenceTable {
    pub entries: Vec<(String, String)>,
}

impl View for PresenceTable {
    type V = Seq<(Seq<char>, Seq<char>)>;

    open spec fn view(&self) -> Seq<(Seq<char>, Seq<char>)> {
        self.entries@.map_values(|entry: (String, String)| (entry.0@, entry.1@))
    }
}

/// The place of a host.
pub open spec fn presence_at(list: Seq<(Seq<char>, Seq<char>)>, alias: Seq<char>) -> Option<int>
    decreases list.len(),
{
    if list.len() == 0 {
        None
    } else {
        match presence_at(list.drop_last(), alias) {
            Some(i) => Some(i),
            None => if list.last().0 == alias {
                Some(list.len() - 1)
            } else {
                None
            },
        }
    }
}

proof fn lemma_presence_found(list: Seq<(Seq<char>, Seq<char>)>, alias: Seq<char>, at: int)
    requires
        0 <= at <= list.len(),
        presence_at(list.take(at), alias) is Some,
    ensures
        presence_at(list, alias) == presence_at(list.take(at), alias),
    decreases list.len() - at,
{
    if at == list.len() {
        assert(list.take(at) =~= list);
    } else {
        assert(list.take(at + 1).drop_last() =~= list.take(at));
        lemma_presence_found(list, alias, at + 1);
    }
}

/// The table with what is known of a host.
pub open spec fn presence_put(list: Seq<(Seq<char>, Seq<char>)>, alias: Seq<char>, status: Seq<char>) -> Seq<
    (Seq<char>, Seq<char>),
> {
    match presence_at(list, alias) {
        Some(i) => list.update(i, (alias, status)),
        None => list.push((alias, status)),
    }
}

/// Whether a host is known to be in a state.
pub open spec fn is_known_as(list: Seq<(Seq<char>, Seq<char>)>, alias: Seq<char>, status: Seq<char>) -> bool {
    presence_at(list, alias) matches Some(i) && list[i].1 == status
}

/// A shown project with the state of the host that it is on, where it is on one
/// whose state is known.
pub open spec fn status_shown(
    list: Seq<(Seq<char>, Seq<char>)>,
    value: JsonView,
    host: Option<Seq<char>>,
) -> JsonView {
    match host {
        Some(alias) => match presence_at(list, alias) {
            Some(i) => value.with("target_status"@, JsonView::Text(list[i].1)),
            None => value,
        },
        None => value,
    }
}

impl PresenceTable {
    /// Nothing is known.
    pub fn new() -> (r: PresenceTable)
        ensures
            r@ == Seq::<(Seq<char>, Seq<char>)>::empty(),
    {
        let r = PresenceTable { entries: Vec::new() };
        assert(r@ =~= Seq::<(Seq<char>, Seq<char>)>::empty());
        r
    }

    /// The place of a host.
    fn find(&self, alias: &str) -> (r: Option<usize>)
        ensures
            match r {
                Some(i) => i < self.entries.len() && presence_at(self@, alias@) == Some(i as int),
                None => presence_at(self@, alias@) is None,
            },
    {
        let ghost list = self@;
        let mut i: usize = 0;
        assert(list.take(0) =~= Seq::empty());
        while i < self.entries.len()
            invariant
                0 <= i <= self.entries.len(),
                list == self@,
                presence_at(list.take(i as int), alias@) is None,
            decreases self.entries.len() - i,
        {
            assert(list.take(i + 1).drop_last() =~= list.take(i as int));
            if same_text(self.entries[i].0.as_str(), alias) {
                proof {
                    lemma_presence_found(list, alias@, i + 1);
                }
                return Some(i);
            }
            i += 1;
        }
        assert(list.take(list.len() as int) =~= list);
        None
    }

    /// A shown project with the state of the host that it is on. The state of the
    /// work on the host is shown by itself and stays as it is.
    pub fn with_target_status(&self, value: Json, host: Option<&str>) -> (r: Json)
        ensures
            r@ == status_shown(
                self@,
                value@,
                match host {
                    Some(alias) => Some(alias@),
                    None => None,
                },
            ),
    {
        match host {
            Some(alias) => match self.find(alias) {
                Some(i) => {
                    assert(self@[i as int].1 == self.entries@[i as int].1@);
                    value.with("target_status", Json::Text(self.entries[i].1.clone()))
                },
                None => value,
            },
            None => value,
        }
    }

    /// What is told of a host, where what is known of it changes.
    pub fn update_remote_presence(&mut self, alias: &str, status: &str, detail: Option<&str>, now: i64) -> (r: Option<
        ServerEvent,
    >)
        ensures
            if is_known_as(old(self)@, alias@, status@) {
                r is None && final(self)@ == old(self)@
            } else {
                &&& final(self)@ == presence_put(old(self)@, alias@, status@)
                &&& r matches Some(event) && event@ == (ServerEventView::RemoteHostStatusChanged {
                    host: alias@,
                    status: status@,
                    updated_at: now,
                    detail: str_of(detail),
                })
            },
    {
        let ghost before = self@;
        match self.find(alias) {
            Some(i) => {
                if same_text(self.entries[i].1.as_str(), status) {
                    return None;
                }
                self.entries.set(i, (alias.to_owned(), status.to_owned()));
                assert(self@ =~= before.update(i as int, (alias@, status@)));
            },
            None => {
                self.entries.push((alias.to_owned(), status.to_owned()));
                assert(self@ =~= before.push((alias@, status@)));
            },
        }
        Some(
            ServerEvent::RemoteHostStatusChanged(
                RemoteHostPresence {
                    ssh_host_alias: alias.to_owned(),
                    state: status.to_owned(),
                    updated_at: now,
                    detail: match detail {
                        Some(detail) => Some(detail.to_owned()),
                        None => None,
                    },
                },
            ),
        )
    }
}

/// What a poll of a host shows of it.
pub fn poll_result(status_answered: bool, snapshot_answered: bool) -> (r: (&'static str, Option<&'static str>))
    ensures
        if !status_answered {
            r.0@ == "offline"@ && r.1 is Some && r.1->0@ == "SSH bridge unavailable"@
        } else if !snapshot_answered {
            r.0@ == "offline"@ && r.1 is Some && r.1->0@ == "Remote daemon unavailable"@
        } else {
            r.0@ == "online"@ && r.1 is None
        },
{
    if !status_answered {
        ("offline", Some("SSH bridge unavailable"))
    } else if !snapshot_answered {
        ("offline", Some("Remote daemon unavailable"))
    } else {
        ("online", None)
    }
}

/// What a host says of an agent of its own is kept and told on: the run as the host
/// tells it, and each message once.
pub proof fn lemma_hosts_are_heard_for_their_own(
    state: RuntimeView,
    alias: Seq<char>,
    run: RunView,
    message: MessageView,
)
    requires
        is_hosted(state.projects, run.project_id, alias),
        host_of(state.agent_hosts, run.id) == Some(alias),
        state.agent_at(run.id) is Some,
        message.agent_id == run.id,
    ensures
        ({
            let step = host_spoke(state, alias, ServerEventView::AgentChanged(run));
            let after = step.state.agents[state.agent_at(run.id)->0];
            &&& after.run == run
            &&& after.messages == state.agents[state.agent_at(run.id)->0].messages
            &&& step.effects == seq![EffectView::Tell(ServerEventView::AgentChanged(run))]
        }),
        ({
            let step = host_spoke(state, alias, ServerEventView::AgentMessageAppended(message));
            let before = state.agents[state.agent_at(run.id)->0];
            let after = step.state.agents[state.agent_at(run.id)->0];
            &&& before.messages.contains(message) ==> after.messages == before.messages
            &&& !before.messages.contains(message) ==> after.messages == before.messages.push(message)
            &&& after.run == before.run
            &&& step.effects == seq![EffectView::Tell(ServerEventView::AgentMessageAppended(message))]
        }),
{
    lemma_position(agent_ids(state.agents), run.id);
}

/// What a host says of what is not its own changes nothing and is told to nobody.
pub proof fn lemma_hosts_are_not_heard_for_others(
    state: RuntimeView,
    alias: Seq<char>,
    message: MessageView,
    request: PermissionView,
    terminal_id: u128,
)
    ensures
        host_of(state.agent_hosts, message.agent_id) != Some(alias) ==> host_spoke(
            state,
            alias,
            ServerEventView::AgentMessageAppended(message),
        ) == stays(state),
        !is_hosted(state.projects, request.project_id, alias) ==> host_spoke(
            state,
            alias,
            ServerEventView::PermissionRequested(request),
        ) == stays(state),
        host_of(state.terminal_hosts, terminal_id) != Some(alias) ==> host_spoke(
            state,
            alias,
            ServerEventView::ProjectTerminalExited { terminal_id },
        ) == stays(state),
        host_of(state.terminal_hosts, terminal_id) == Some(alias) ==> host_spoke(
            state,
            alias,
            ServerEventView::ProjectTerminalExited { terminal_id },
        ).state.terminal_hosts == host_dropped(state.terminal_hosts, terminal_id),
{
}

/// A permission that a host asks for is kept under its own identifier, and answers to it
/// go to that host.
pub proof fn lemma_permissions_of_hosts_are_kept(state: RuntimeView, alias: Seq<char>, request: PermissionView)
    requires
        is_hosted(state.projects, request.project_id, alias),
    ensures
        ({
            let step = host_spoke(state, alias, ServerEventView::PermissionRequested(request));
            &&& step.state.permissions.contains(request)
            &&& host_of(step.state.permission_hosts, request.id) == Some(alias)
            &&& step.effects == seq![EffectView::Tell(ServerEventView::PermissionRequested(request))]
        }),
{
    let step = host_spoke(state, alias, ServerEventView::PermissionRequested(request));
    lemma_position(permission_ids(state.permissions), request.id);
    match position(permission_ids(state.permissions), request.id) {
        Some(k) => {
            assert(step.state.permissions[k] == request);
        },
        None => {
            assert(step.state.permissions[state.permissions.len() as int] == request);
        },
    }
    crate::requests::lemma_host_is_kept(state.permission_hosts, request.id, alias);
}

/// What is put down of a host is known of it, and what is known of other hosts
/// stays. A thing on a host is shown with what is known of the host.
pub proof fn lemma_presence_is_remembered(
    list: Seq<(Seq<char>, Seq<char>)>,
    alias: Seq<char>,
    status: Seq<char>,
    other: Seq<char>,
    value: JsonView,
)
    ensures
        is_known_as(presence_put(list, alias, status), alias, status),
        other != alias ==> (is_known_as(presence_put(list, alias, status), other, status) <==> is_known_as(
            list,
            other,
            status,
        )),
        status_shown(presence_put(list, alias, status), value, Some(alias)) == value.with(
            "target_status"@,
            JsonView::Text(status),
        ),
        status_shown(list, value, None) == value,
{
    lemma_presence_place(list, alias);
    lemma_presence_place(list, other);
    let after = presence_put(list, alias, status);
    lemma_presence_place(after, alias);
    lemma_presence_place(after, other);
    match presence_at(list, alias) {
        Some(i) => {
            assert(after[i].0 == alias);
            let j = presence_at(after, alias)->0;
            assert(presence_at(after, alias) is Some);
            assert(j == i) by {
                if j < i {
                    assert(list[j].0 != alias);
                }
            }
            if other != alias {
                assert forall|k: int| 0 <= k < list.len() implies (#[trigger] after[k]).0 == list[k].0 by {}
                if presence_at(list, other) is Some && presence_at(after, other) is Some {
                    let a = presence_at(list, other)->0;
                    let b = presence_at(after, other)->0;
                    assert(after[a].0 == other && list[b].0 == other);
                    assert(a == b);
                } else if presence_at(list, other) is Some {
                    assert(after[presence_at(list, other)->0].0 == other);
                } else if presence_at(after, other) is Some {
                    assert(list[presence_at(after, other)->0].0 == other);
                }
            }
        },
        None => {
            let n = list.len() as int;
            assert(after[n] == (alias, status));
            assert(presence_at(after, alias) is Some);
            let j = presence_at(after, alias)->0;
            if j < n {
                assert(list[j].0 != alias);
            }
            assert(after.drop_last() =~= list);
        },
    }
}

proof fn lemma_presence_place(list: Seq<(Seq<char>, Seq<char>)>, alias: Seq<char>)
    ensures
        match presence_at(list, alias) {
            Some(i) => 0 <= i < list.len() && list[i].0 == alias && forall|k: int|
                0 <= k < i ==> (#[trigger] list[k]).0 != alias,
            None => forall|k: int| 0 <= k < list.len() ==> (#[trigger] list[k]).0 != alias,
        },
    decreases list.len(),
{
    if list.len() > 0 {
        let before = list.drop_last();
        lemma_presence_place(before, alias);
        assert forall|k: int| 0 <= k < before.len() implies #[trigger] before[k] == list[k] by {}
        match presence_at(list, alias) {
            Some(i) => {
                assert forall|k: int| 0 <= k < i implies (#[trigger] list[k]).0 != alias by {
                    assert(before[k].0 != alias);
                }
            },
            None => {
                assert forall|k: int| 0 <= k < list.len() implies (#[trigger] list[k]).0 != alias by {
                    if k < before.len() {
                        assert(before[k].0 != alias);
                    }
                }
            },
        }
    }
}

} // verus!
