//! What the runtime keeps in memory, and what its operations lead to: records
//! that are saved and events that are told.

use crate::host_epochs::EpochTable;
use crate::kept::{keep_masked, lemma_masked_filter, lemma_masked_map};
use crate::model::{
    AgentChatMessage, AgentRun, AgentState, AttentionView, MessageView, PermissionRequest,
    PermissionView, Project, ProjectView, RunView, RuntimeAttention,
};
use crate::text::{copy_text, same_text, str_of, text_of};
use vstd::prelude::*;

verus! {

/// An agent with its chat.
#[derive(Debug)]
pub struct AgentRecord {
    pub run: AgentRun,
    pub project_root: String,
    pub allow_non_git: bool,
    pub messages: Vec<AgentChatMessage>,
    pub terminal_failure: Option<String>,
}

/// The mathematical value of an agent with its chat.
pub struct AgentView {
    pub run: RunView,
    pub project_root: Seq<char>,
    pub allow_non_git: bool,
    pub messages: Seq<MessageView>,
    pub terminal_failure: Option<Seq<char>>,
}

/// The mathematical values of some messages.
pub open spec fn messages_view(list: Seq<AgentChatMessage>) -> Seq<MessageView> {
    list.map_values(|message: AgentChatMessage| message@)
}

impl View for AgentRecord {
    type V = AgentView;

    open spec fn view(&self) -> AgentView {
        AgentView {
            run: self.run@,
            project_root: self.project_root@,
            allow_non_git: self.allow_non_git,
            messages: messages_view(self.messages@),
            terminal_failure: text_of(self.terminal_failure),
        }
    }
}

/// The process that works for an agent. Its run tells it from the processes that
/// worked for the agent before.
#[derive(Clone, Copy, Debug, PartialEq, Eq, Structural)]
pub struct ActiveRun {
    pub agent_id: u128,
    pub run_id: u128,
    pub app_server: bool,
}

/// Things that belong to SSH hosts, by their identifiers.
#[derive(Debug)]
pub struct HostTable {
    pub entries: Vec<(u128, String)>,
}

impl View for HostTable {
    type V = Seq<(u128, Seq<char>)>;

    open spec fn view(&self) -> Seq<(u128, Seq<char>)> {
        self.entries@.map_values(|entry: (u128, String)| (entry.0, entry.1@))
    }
}

/// All that the runtime keeps in memory.
#[derive(Debug)]
pub struct RuntimeState {
    pub projects: Vec<Project>,
    pub agents: Vec<AgentRecord>,
    pub children: Vec<ActiveRun>,
    pub attention: Vec<RuntimeAttention>,
    pub permissions: Vec<PermissionRequest>,
    /// The agents that wait for permissions, by the requests.
    pub permission_agents: Vec<(u128, u128)>,
    /// The agents that an app server works for.
    pub turns: Vec<u128>,
    /// The agents for which an app server is being launched.
    pub launching: Vec<u128>,
    pub agent_hosts: HostTable,
    pub permission_hosts: HostTable,
    pub attention_hosts: HostTable,
    pub terminal_hosts: HostTable,
    pub host_epochs: EpochTable,
    pub codex_home: Option<String>,
    pub remote_runtime: bool,
}

/// The mathematical value of all that the runtime keeps.
pub struct RuntimeView {
    pub projects: Seq<ProjectView>,
    pub agents: Seq<AgentView>,
    pub children: Seq<ActiveRun>,
    pub attention: Seq<AttentionView>,
    pub permissions: Seq<PermissionView>,
    pub permission_agents: Seq<(u128, u128)>,
    pub turns: Seq<u128>,
    pub launching: Seq<u128>,
    pub agent_hosts: Seq<(u128, Seq<char>)>,
    pub permission_hosts: Seq<(u128, Seq<char>)>,
    pub attention_hosts: Seq<(u128, Seq<char>)>,
    pub terminal_hosts: Seq<(u128, Seq<char>)>,
    pub host_epochs: Seq<(Seq<char>, u128)>,
    pub codex_home: Option<Seq<char>>,
    pub remote_runtime: bool,
}

/// The mathematical values of some projects.
pub open spec fn projects_view(list: Seq<Project>) -> Seq<ProjectView> {
    list.map_values(|project: Project| project@)
}

/// The mathematical values of some agents.
pub open spec fn agents_view(list: Seq<AgentRecord>) -> Seq<AgentView> {
    list.map_values(|record: AgentRecord| record@)
}

/// The mathematical values of some notices.
pub open spec fn attention_view(list: Seq<RuntimeAttention>) -> Seq<AttentionView> {
    list.map_values(|item: RuntimeAttention| item@)
}

/// The mathematical values of some requests for permission.
pub open spec fn permissions_view(list: Seq<PermissionRequest>) -> Seq<PermissionView> {
    list.map_values(|request: PermissionRequest| request@)
}

impl View for RuntimeState {
    type V = RuntimeView;

    open spec fn view(&self) -> RuntimeView {
        RuntimeView {
            projects: projects_view(self.projects@),
            agents: agents_view(self.agents@),
            children: self.children@,
            attention: attention_view(self.attention@),
            permissions: permissions_view(self.permissions@),
            permission_agents: self.permission_agents@,
            turns: self.turns@,
            launching: self.launching@,
            agent_hosts: self.agent_hosts@,
            permission_hosts: self.permission_hosts@,
            attention_hosts: self.attention_hosts@,
            terminal_hosts: self.terminal_hosts@,
            host_epochs: self.host_epochs@,
            codex_home: text_of(self.codex_home),
            remote_runtime: self.remote_runtime,
        }
    }
}

/// An SSH host and whether it is there.
#[derive(Debug)]
pub struct RemoteHostPresence {
    pub ssh_host_alias: String,
    pub state: String,
    pub updated_at: i64,
    pub detail: Option<String>,
}

/// What the runtime shows of all that it keeps.
#[derive(Debug)]
pub struct Snapshot {
    pub projects: Vec<Project>,
    pub agents: Vec<AgentRun>,
    pub attention: Vec<RuntimeAttention>,
    pub permissions: Vec<PermissionRequest>,
}

/// The mathematical value of what the runtime shows.
pub struct SnapshotView {
    pub projects: Seq<ProjectView>,
    pub agents: Seq<RunView>,
    pub attention: Seq<AttentionView>,
    pub permissions: Seq<PermissionView>,
}

/// The mathematical values of some runs.
pub open spec fn runs_view(list: Seq<AgentRun>) -> Seq<RunView> {
    list.map_values(|run: AgentRun| run@)
}

impl View for Snapshot {
    type V = SnapshotView;

    open spec fn view(&self) -> SnapshotView {
        SnapshotView {
            projects: projects_view(self.projects@),
            agents: runs_view(self.agents@),
            attention: attention_view(self.attention@),
            permissions: permissions_view(self.permissions@),
        }
    }
}

/// What the runtime tells those who listen.
#[derive(Debug)]
pub enum ServerEvent {
    ProjectChanged(Project),
    ProjectDeleted { project_id: u128 },
    AgentChanged(AgentRun),
    AgentDeleted { agent_id: u128 },
    AgentMessageAppended(AgentChatMessage),
    AttentionRaised(RuntimeAttention),
    AttentionDismissed { attention_id: u128 },
    AttentionRead { attention_ids: Vec<u128> },
    AttentionSnapshotReplaced(Vec<RuntimeAttention>),
    SnapshotReplaced(Snapshot),
    PermissionRequested(PermissionRequest),
    PermissionResolved { request_id: u128 },
    RemoteHostStatusChanged(RemoteHostPresence),
    ProjectTerminalOutput { terminal_id: u128, data: Vec<u8> },
    ProjectTerminalExited { terminal_id: u128 },
}

/// The mathematical value of what the runtime tells.
pub enum ServerEventView {
    ProjectChanged(ProjectView),
    ProjectDeleted { project_id: u128 },
    AgentChanged(RunView),
    AgentDeleted { agent_id: u128 },
    AgentMessageAppended(MessageView),
    AttentionRaised(AttentionView),
    AttentionDismissed { attention_id: u128 },
    AttentionRead { attention_ids: Seq<u128> },
    AttentionSnapshotReplaced(Seq<AttentionView>),
    SnapshotReplaced(SnapshotView),
    PermissionRequested(PermissionView),
    PermissionResolved { request_id: u128 },
    RemoteHostStatusChanged {
        host: Seq<char>,
        status: Seq<char>,
        updated_at: i64,
        detail: Option<Seq<char>>,
    },
    ProjectTerminalOutput { terminal_id: u128, data: Seq<u8> },
    ProjectTerminalExited { terminal_id: u128 },
}

impl View for ServerEvent {
    type V = ServerEventView;

    open spec fn view(&self) -> ServerEventView {
        match self {
            ServerEvent::ProjectChanged(project) => ServerEventView::ProjectChanged(project@),
            ServerEvent::ProjectDeleted { project_id } => ServerEventView::ProjectDeleted {
                project_id: *project_id,
            },
            ServerEvent::AgentChanged(run) => ServerEventView::AgentChanged(run@),
            ServerEvent::AgentDeleted { agent_id } => ServerEventView::AgentDeleted {
                agent_id: *agent_id,
            },
            ServerEvent::AgentMessageAppended(message) => ServerEventView::AgentMessageAppended(
                message@,
            ),
            ServerEvent::AttentionRaised(item) => ServerEventView::AttentionRaised(item@),
            ServerEvent::AttentionDismissed { attention_id } => ServerEventView::AttentionDismissed {
                attention_id: *attention_id,
            },
            ServerEvent::AttentionRead { attention_ids } => ServerEventView::AttentionRead {
                attention_ids: attention_ids@,
            },
            ServerEvent::AttentionSnapshotReplaced(list) => ServerEventView::AttentionSnapshotReplaced(
                attention_view(list@),
            ),
            ServerEvent::SnapshotReplaced(snapshot) => ServerEventView::SnapshotReplaced(snapshot@),
            ServerEvent::PermissionRequested(request) => ServerEventView::PermissionRequested(request@),
            ServerEvent::PermissionResolved { request_id } => ServerEventView::PermissionResolved {
                request_id: *request_id,
            },
            ServerEvent::RemoteHostStatusChanged(presence) => ServerEventView::RemoteHostStatusChanged {
                host: presence.ssh_host_alias@,
                status: presence.state@,
                updated_at: presence.updated_at,
                detail: text_of(presence.detail),
            },
            ServerEvent::ProjectTerminalOutput { terminal_id, data } => {
                ServerEventView::ProjectTerminalOutput { terminal_id: *terminal_id, data: data@ }
            },
            ServerEvent::ProjectTerminalExited { terminal_id } => {
                ServerEventView::ProjectTerminalExited { terminal_id: *terminal_id }
            },
        }
    }
}

/// What an operation leads to outside the runtime's memory.
#[derive(Debug)]
pub enum Effect {
    SaveAgent { run: AgentRun, failure: Option<String> },
    SaveMessage(AgentChatMessage),
    SaveAttention(RuntimeAttention),
    ForgetAttention(u128),
    Log { stream: &'static str, text: String },
    Tell(ServerEvent),
}

/// The mathematical value of what an operation leads to.
pub enum EffectView {
    SaveAgent { run: RunView, failure: Option<Seq<char>> },
    SaveMessage(MessageView),
    SaveAttention(AttentionView),
    ForgetAttention(u128),
    Log { stream: Seq<char>, text: Seq<char> },
    Tell(ServerEventView),
}

impl View for Effect {
    type V = EffectView;

    open spec fn view(&self) -> EffectView {
        match self {
            Effect::SaveAgent { run, failure } => EffectView::SaveAgent {
                run: run@,
                failure: text_of(*failure),
            },
            Effect::SaveMessage(message) => EffectView::SaveMessage(message@),
            Effect::SaveAttention(item) => EffectView::SaveAttention(item@),
            Effect::ForgetAttention(id) => EffectView::ForgetAttention(*id),
            Effect::Log { stream, text } => EffectView::Log { stream: stream@, text: text@ },
            Effect::Tell(event) => EffectView::Tell(event@),
        }
    }
}

/// The mathematical values of some effects.
pub open spec fn effects_view(list: Seq<Effect>) -> Seq<EffectView> {
    list.map_values(|effect: Effect| effect@)
}

/// What an operation makes of the runtime, and what it leads to.
pub struct Step {
    pub state: RuntimeView,
    pub effects: Seq<EffectView>,
}

/// The operation that does nothing.
pub open spec fn stays(state: RuntimeView) -> Step {
    Step { state, effects: Seq::empty() }
}

/// What has been done, and then what follows.
pub open spec fn after(before: Seq<EffectView>, step: Step) -> Step {
    Step { state: step.state, effects: before + step.effects }
}

/// Whether an operation did what a step says.
pub open spec fn does(
    before: Seq<Effect>,
    state: RuntimeState,
    effects: Seq<Effect>,
    step: Step,
) -> bool {
    state@ == step.state && effects_view(effects) == effects_view(before) + step.effects
}

/// The place of the first of some identifiers that is the given one.
pub open spec fn position(ids: Seq<u128>, id: u128) -> Option<int>
    decreases ids.len(),
{
    if ids.len() == 0 {
        None
    } else {
        match position(ids.drop_last(), id) {
            Some(i) => Some(i),
            None => if ids.last() == id {
                Some(ids.len() - 1)
            } else {
                None
            },
        }
    }
}

/// What a place that was found, or not found, means.
pub proof fn lemma_position(ids: Seq<u128>, id: u128)
    ensures
        match position(ids, id) {
            Some(i) => 0 <= i < ids.len() && ids[i] == id && forall|k: int| 0 <= k < i ==> ids[k] != id,
            None => forall|k: int| 0 <= k < ids.len() ==> ids[k] != id,
        },
    decreases ids.len(),
{
    if ids.len() > 0 {
        lemma_position(ids.drop_last(), id);
        assert forall|k: int| 0 <= k < ids.len() - 1 implies ids[k] == ids.drop_last()[k] by {}
    }
}

/// What is found among the first identifiers is found among all of them.
pub proof fn lemma_position_found(ids: Seq<u128>, id: u128, at: int)
    requires
        0 <= at <= ids.len(),
        position(ids.take(at), id) is Some,
    ensures
        position(ids, id) == position(ids.take(at), id),
    decreases ids.len() - at,
{
    if at == ids.len() {
        assert(ids.take(at) =~= ids);
    } else {
        assert(ids.take(at + 1).drop_last() =~= ids.take(at));
        lemma_position_found(ids, id, at + 1);
    }
}

/// The identifiers of some agents.
pub open spec fn agent_ids(agents: Seq<AgentView>) -> Seq<u128> {
    agents.map_values(|agent: AgentView| agent.run.id)
}

/// The identifiers of the agents that processes work for.
pub open spec fn child_ids(children: Seq<ActiveRun>) -> Seq<u128> {
    children.map_values(|child: ActiveRun| child.agent_id)
}

/// The identifiers of some projects.
pub open spec fn project_ids(projects: Seq<ProjectView>) -> Seq<u128> {
    projects.map_values(|project: ProjectView| project.id)
}

/// The identifiers of some requests for permission.
pub open spec fn permission_ids(permissions: Seq<PermissionView>) -> Seq<u128> {
    permissions.map_values(|request: PermissionView| request.id)
}

/// The identifiers of some notices.
pub open spec fn attention_ids(list: Seq<AttentionView>) -> Seq<u128> {
    list.map_values(|item: AttentionView| item.id)
}

/// The identifiers of things on SSH hosts.
pub open spec fn host_ids(entries: Seq<(u128, Seq<char>)>) -> Seq<u128> {
    entries.map_values(|entry: (u128, Seq<char>)| entry.0)
}

/// The requests of waiting agents.
pub open spec fn waiting_ids(entries: Seq<(u128, u128)>) -> Seq<u128> {
    entries.map_values(|entry: (u128, u128)| entry.0)
}

impl RuntimeView {
    /// The place of an agent.
    pub open spec fn agent_at(self, id: u128) -> Option<int> {
        position(agent_ids(self.agents), id)
    }

    /// The agent with an identifier.
    pub open spec fn agent(self, id: u128) -> Option<AgentView> {
        match self.agent_at(id) {
            Some(i) => Some(self.agents[i]),
            None => None,
        }
    }

    /// The process that works for an agent.
    pub open spec fn child(self, id: u128) -> Option<ActiveRun> {
        match position(child_ids(self.children), id) {
            Some(i) => Some(self.children[i]),
            None => None,
        }
    }

    /// The project with an identifier.
    pub open spec fn project(self, id: u128) -> Option<ProjectView> {
        match position(project_ids(self.projects), id) {
            Some(i) => Some(self.projects[i]),
            None => None,
        }
    }

    /// The agents with one of them changed.
    pub open spec fn with_agent(self, at: int, agent: AgentView) -> RuntimeView {
        RuntimeView { agents: self.agents.update(at, agent), ..self }
    }

    /// Whether a run is the one that works for an agent now.
    pub open spec fn is_current(self, agent_id: u128, run_id: u128) -> bool {
        self.child(agent_id) matches Some(child) && child.run_id == run_id
    }

    /// Whether what comes from a run no longer counts.
    pub open spec fn is_stale(self, agent_id: u128, run_id: Option<u128>) -> bool {
        run_id matches Some(run_id) && !self.is_current(agent_id, run_id)
    }
}

/// The host of a thing.
pub open spec fn host_of(entries: Seq<(u128, Seq<char>)>, id: u128) -> Option<Seq<char>> {
    match position(host_ids(entries), id) {
        Some(i) => Some(entries[i].1),
        None => None,
    }
}

/// The table with the host of a thing set.
pub open spec fn host_put(entries: Seq<(u128, Seq<char>)>, id: u128, host: Seq<char>) -> Seq<
    (u128, Seq<char>),
> {
    match position(host_ids(entries), id) {
        Some(i) => entries.update(i, (id, host)),
        None => entries.push((id, host)),
    }
}

/// The table without a thing.
pub open spec fn host_dropped(entries: Seq<(u128, Seq<char>)>, id: u128) -> Seq<(u128, Seq<char>)> {
    match position(host_ids(entries), id) {
        Some(i) => entries.remove(i),
        None => entries,
    }
}

impl HostTable {
    /// Nothing is on an SSH host.
    pub fn new() -> (r: HostTable)
        ensures
            r@ == Seq::<(u128, Seq<char>)>::empty(),
    {
        let r = HostTable { entries: Vec::new() };
        assert(r@ =~= Seq::<(u128, Seq<char>)>::empty());
        r
    }

    /// The place of a thing.
    pub fn find(&self, id: u128) -> (r: Option<usize>)
        ensures
            match r {
                Some(i) => i < self.entries.len() && position(host_ids(self@), id) == Some(i as int),
                None => position(host_ids(self@), id) is None,
            },
    {
        let ghost ids = host_ids(self@);
        let mut i: usize = 0;
        assert(ids.take(0) =~= Seq::empty());
        while i < self.entries.len()
            invariant
                0 <= i <= self.entries.len(),
                ids == host_ids(self@),
                position(ids.take(i as int), id) is None,
            decreases self.entries.len() - i,
        {
            assert(ids.take(i + 1).drop_last() =~= ids.take(i as int));
            assert(ids.take(i + 1).last() == self.entries@[i as int].0);
            if self.entries[i].0 == id {
                proof {
                    lemma_position_found(ids, id, i + 1);
                }
                return Some(i);
            }
            i += 1;
        }
        assert(ids.take(ids.len() as int) =~= ids);
        None
    }

    /// The host of a thing.
    pub fn host(&self, id: u128) -> (r: Option<&str>)
        ensures
            str_of(r) == host_of(self@, id),
    {
        match self.find(id) {
            Some(i) => Some(self.entries[i].1.as_str()),
            None => None,
        }
    }

    /// Whether a thing is on a host.
    pub fn is_on(&self, id: u128, host: &str) -> (r: bool)
        ensures
            r == (host_of(self@, id) == Some(host@)),
    {
        match self.host(id) {
            Some(found) => same_text(found, host),
            None => false,
        }
    }

    /// Sets the host of a thing.
    pub fn put(&mut self, id: u128, host: &str)
        ensures
            final(self)@ == host_put(old(self)@, id, host@),
    {
        let ghost before = self@;
        match self.find(id) {
            Some(i) => {
                self.entries.set(i, (id, host.to_owned()));
                assert(self@ =~= before.update(i as int, (id, host@)));
            },
            None => {
                self.entries.push((id, host.to_owned()));
                assert(self@ =~= before.push((id, host@)));
            },
        }
    }

    /// Forgets a thing.
    pub fn remove(&mut self, id: u128)
        ensures
            final(self)@ == host_dropped(old(self)@, id),
    {
        let ghost before = self@;
        match self.find(id) {
            Some(i) => {
                self.entries.remove(i);
                assert(self@ =~= before.remove(i as int));
            },
            None => {},
        }
    }
}

impl RuntimeState {
    /// The place of an agent.
    pub fn find_agent(&self, id: u128) -> (r: Option<usize>)
        ensures
            match r {
                Some(i) => i < self.agents.len() && self@.agent_at(id) == Some(i as int)
                    && self@.agent(id) == Some(self.agents@[i as int]@) && self.agents@[i as int].run.id
                    == id,
                None => self@.agent_at(id) is None,
            },
    {
        let ghost ids = agent_ids(self@.agents);
        let mut i: usize = 0;
        assert(ids.take(0) =~= Seq::empty());
        while i < self.agents.len()
            invariant
                0 <= i <= self.agents.len(),
                ids == agent_ids(self@.agents),
                position(ids.take(i as int), id) is None,
            decreases self.agents.len() - i,
        {
            assert(ids.take(i + 1).drop_last() =~= ids.take(i as int));
            assert(ids.take(i + 1).last() == self.agents@[i as int].run.id);
            if self.agents[i].run.id == id {
                proof {
                    lemma_position_found(ids, id, i + 1);
                }
                return Some(i);
            }
            i += 1;
        }
        assert(ids.take(ids.len() as int) =~= ids);
        None
    }

    /// The place of the process that works for an agent.
    pub fn find_child(&self, id: u128) -> (r: Option<usize>)
        ensures
            match r {
                Some(i) => i < self.children.len() && position(child_ids(self@.children), id) == Some(
                    i as int,
                ) && self@.child(id) == Some(self.children@[i as int]),
                None => self@.child(id) is None && position(child_ids(self@.children), id) is None,
            },
    {
        let ghost ids = child_ids(self@.children);
        let mut i: usize = 0;
        assert(ids.take(0) =~= Seq::empty());
        while i < self.children.len()
            invariant
                0 <= i <= self.children.len(),
                ids == child_ids(self@.children),
                position(ids.take(i as int), id) is None,
            decreases self.children.len() - i,
        {
            assert(ids.take(i + 1).drop_last() =~= ids.take(i as int));
            assert(ids.take(i + 1).last() == self.children@[i as int].agent_id);
            if self.children[i].agent_id == id {
                proof {
                    lemma_position_found(ids, id, i + 1);
                }
                return Some(i);
            }
            i += 1;
        }
        assert(ids.take(ids.len() as int) =~= ids);
        None
    }

    /// The place of a project.
    pub fn find_project(&self, id: u128) -> (r: Option<usize>)
        ensures
            match r {
                Some(i) => i < self.projects.len() && position(project_ids(self@.projects), id) == Some(
                    i as int,
                ) && self@.project(id) == Some(self.projects@[i as int]@),
                None => self@.project(id) is None && position(project_ids(self@.projects), id) is None,
            },
    {
        let ghost ids = project_ids(self@.projects);
        let mut i: usize = 0;
        assert(ids.take(0) =~= Seq::empty());
        while i < self.projects.len()
            invariant
                0 <= i <= self.projects.len(),
                ids == project_ids(self@.projects),
                position(ids.take(i as int), id) is None,
            decreases self.projects.len() - i,
        {
            assert(ids.take(i + 1).drop_last() =~= ids.take(i as int));
            assert(ids.take(i + 1).last() == self.projects@[i as int].id);
            if self.projects[i].id == id {
                proof {
                    lemma_position_found(ids, id, i + 1);
                }
                return Some(i);
            }
            i += 1;
        }
        assert(ids.take(ids.len() as int) =~= ids);
        None
    }

    /// Whether a run is the one that works for an agent now.
    pub fn is_current_run(&self, agent_id: u128, run_id: u128) -> (r: bool)
        ensures
            r == self@.is_current(agent_id, run_id),
    {
        match self.find_child(agent_id) {
            Some(i) => self.children[i].run_id == run_id,
            None => false,
        }
    }

    /// Whether what comes from a run no longer counts.
    pub fn is_stale_run(&self, agent_id: u128, run_id: Option<u128>) -> (r: bool)
        ensures
            r == self@.is_stale(agent_id, run_id),
    {
        match run_id {
            Some(run_id) => !self.is_current_run(agent_id, run_id),
            None => false,
        }
    }

    /// The agent at a place as it is saved and told.
    pub(crate) fn tell_agent(&self, i: usize, effects: &mut Vec<Effect>)
        requires
            i < self.agents.len(),
        ensures
            effects_view(final(effects)@) == effects_view(old(effects)@) + agent_effects(
                self@.agents[i as int],
            ),
    {
        let ghost before = effects_view(effects@);
        let record = &self.agents[i];
        effects.push(
            Effect::SaveAgent { run: record.run.copy(), failure: copy_text(&record.terminal_failure) },
        );
        effects.push(Effect::Tell(ServerEvent::AgentChanged(record.run.copy())));
        assert(effects_view(effects@) =~= before + agent_effects(self@.agents[i as int]));
    }
}

/// That an agent is saved and told.
pub open spec fn agent_effects(agent: AgentView) -> Seq<EffectView> {
    seq![
        EffectView::SaveAgent { run: agent.run, failure: agent.terminal_failure },
        EffectView::Tell(ServerEventView::AgentChanged(agent.run)),
    ]
}

/// An agent is changed, saved and told.
pub open spec fn agent_saved(state: RuntimeView, at: int, agent: AgentView) -> Step {
    Step { state: state.with_agent(at, agent), effects: agent_effects(agent) }
}

/// Adds one effect.
pub(crate) fn push_effect(effects: &mut Vec<Effect>, effect: Effect)
    ensures
        effects_view(final(effects)@) == effects_view(old(effects)@).push(effect@),
{
    let ghost before = effects_view(effects@);
    effects.push(effect);
    assert(effects_view(effects@) =~= before.push(effect@));
}

/// That a request for permission is another agent's.
pub open spec fn request_of_other(agent_id: u128) -> spec_fn(PermissionView) -> bool {
    |request: PermissionView| request.agent_id != Some(agent_id)
}

/// That another agent waits.
pub open spec fn wait_of_other(agent_id: u128) -> spec_fn((u128, u128)) -> bool {
    |entry: (u128, u128)| entry.1 != agent_id
}

/// That an identifier is another one.
pub open spec fn other_than(id: u128) -> spec_fn(u128) -> bool {
    |other: u128| other != id
}

/// The runtime without the process that works for an agent.
pub open spec fn without_child(state: RuntimeView, agent_id: u128) -> RuntimeView {
    match position(child_ids(state.children), agent_id) {
        Some(i) => RuntimeView { children: state.children.remove(i), ..state },
        None => state,
    }
}

/// The runtime without an agent's turn of an app server and all it waits for.
pub open spec fn without_turn(state: RuntimeView, agent_id: u128) -> RuntimeView {
    RuntimeView {
        turns: state.turns.filter(other_than(agent_id)),
        permission_agents: state.permission_agents.filter(wait_of_other(agent_id)),
        permissions: state.permissions.filter(request_of_other(agent_id)),
        ..state
    }
}

/// Takes an identifier out of a list.
pub(crate) fn remove_id(list: &mut Vec<u128>, id: u128)
    ensures
        final(list)@ == old(list)@.filter(other_than(id)),
{
    let mut mask: Vec<bool> = Vec::new();
    let mut i: usize = 0;
    while i < list.len()
        invariant
            0 <= i <= list.len(),
            mask.len() == i,
            forall|k: int| 0 <= k < i ==> #[trigger] mask@[k] == other_than(id)(list@[k]),
        decreases list.len() - i,
    {
        mask.push(list[i] != id);
        i += 1;
    }
    proof {
        lemma_masked_filter(list@, mask@, other_than(id));
    }
    keep_masked(list, &mask);
}

/// Takes an agent's entries out of those that wait.
fn remove_waiting(list: &mut Vec<(u128, u128)>, agent_id: u128)
    ensures
        final(list)@ == old(list)@.filter(wait_of_other(agent_id)),
{
    let mut mask: Vec<bool> = Vec::new();
    let mut i: usize = 0;
    while i < list.len()
        invariant
            0 <= i <= list.len(),
            mask.len() == i,
            forall|k: int| 0 <= k < i ==> #[trigger] mask@[k] == wait_of_other(agent_id)(list@[k]),
        decreases list.len() - i,
    {
        mask.push(list[i].1 != agent_id);
        i += 1;
    }
    proof {
        lemma_masked_filter(list@, mask@, wait_of_other(agent_id));
    }
    keep_masked(list, &mask);
}

/// Takes an agent's requests out of those that are open.
fn remove_requests(list: &mut Vec<PermissionRequest>, agent_id: u128)
    ensures
        permissions_view(final(list)@) == permissions_view(old(list)@).filter(
            request_of_other(agent_id),
        ),
{
    let ghost views = permissions_view(list@);
    let mut mask: Vec<bool> = Vec::new();
    let mut i: usize = 0;
    while i < list.len()
        invariant
            0 <= i <= list.len(),
            views == permissions_view(list@),
            mask.len() == i,
            forall|k: int| 0 <= k < i ==> #[trigger] mask@[k] == request_of_other(agent_id)(views[k]),
        decreases list.len() - i,
    {
        mask.push(
            match list[i].agent_id {
                Some(owner) => owner != agent_id,
                None => true,
            },
        );
        i += 1;
    }
    proof {
        lemma_masked_filter(views, mask@, request_of_other(agent_id));
        lemma_masked_map(list@, mask@, |request: PermissionRequest| request@);
    }
    keep_masked(list, &mask);
}

impl RuntimeState {
    /// Forgets the process that works for an agent.
    pub(crate) fn forget_child(&mut self, agent_id: u128)
        ensures
            final(self)@ == without_child(old(self)@, agent_id),
    {
        match self.find_child(agent_id) {
            Some(i) => {
                self.children.remove(i);
            },
            None => {},
        }
    }

    /// Forgets an agent's turn of an app server and all it waits for.
    pub(crate) fn forget_turn(&mut self, agent_id: u128)
        ensures
            final(self)@ == without_turn(old(self)@, agent_id),
    {
        remove_id(&mut self.turns, agent_id);
        remove_waiting(&mut self.permission_agents, agent_id);
        remove_requests(&mut self.permissions, agent_id);
    }
}

/// Whether an agent's state is one in which it works or waits.
pub open spec fn is_busy_state(state: AgentState) -> bool {
    state == AgentState::Starting || state == AgentState::Working || state == AgentState::Stopping || state
        == AgentState::AwaitingApproval || state == AgentState::Blocked
}

/// Whether an agent's state is one in which it works or waits.
pub fn is_busy(state: AgentState) -> (r: bool)
    ensures
        r == is_busy_state(state),
{
    match state {
        AgentState::Starting => true,
        AgentState::Working => true,
        AgentState::Stopping => true,
        AgentState::AwaitingApproval => true,
        AgentState::Blocked => true,
        AgentState::Completed => false,
        AgentState::Failed => false,
        AgentState::Interrupted => false,
        AgentState::Stale => false,
    }
}

/// Whether an agent's state is one in which it works.
pub open spec fn is_working_state(state: AgentState) -> bool {
    state == AgentState::Starting || state == AgentState::Working || state == AgentState::Stopping
}

/// Whether an agent's state is one in which it works.
pub fn is_working(state: AgentState) -> (r: bool)
    ensures
        r == is_working_state(state),
{
    match state {
        AgentState::Starting => true,
        AgentState::Working => true,
        AgentState::Stopping => true,
        _ => false,
    }
}

/// An agent that is changed is found changed under its identifier, every other agent
/// is found as it was, and the change is saved and told.
pub proof fn lemma_saved_agent_is_found(state: RuntimeView, id: u128, agent: AgentView, other: u128)
    requires
        state.agent_at(id) is Some,
        agent.run.id == id,
    ensures
        ({
            let step = agent_saved(state, state.agent_at(id)->0, agent);
            &&& step.state.agent(id) == Some(agent)
            &&& other != id ==> step.state.agent(other) == state.agent(other)
            &&& step.state.agents.len() == state.agents.len()
            &&& step.state.children == state.children
            &&& step.state.turns == state.turns
            &&& step.effects.len() == 2
            &&& step.effects[0] == EffectView::SaveAgent { run: agent.run, failure: agent.terminal_failure }
            &&& step.effects[1] == EffectView::Tell(ServerEventView::AgentChanged(agent.run))
        }),
{
    let i = state.agent_at(id)->0;
    lemma_position(agent_ids(state.agents), id);
    lemma_position(agent_ids(state.agents), other);
    let changed = state.agents.update(i, agent);
    assert(agent_ids(changed) =~= agent_ids(state.agents));
}

/// The agent that is found under an identifier has that identifier.
pub proof fn lemma_found_agent_has_its_id(state: RuntimeView, id: u128)
    ensures
        state.agent_at(id) is Some ==> 0 <= state.agent_at(id)->0 < state.agents.len()
            && state.agents[state.agent_at(id)->0].run.id == id && state.agent(id) == Some(
            state.agents[state.agent_at(id)->0],
        ),
        state.agent_at(id) is None ==> state.agent(id) is None && forall|k: int|
            0 <= k < state.agents.len() ==> (#[trigger] state.agents[k]).run.id != id,
{
    lemma_position(agent_ids(state.agents), id);
    assert forall|k: int| 0 <= k < state.agents.len() implies agent_ids(state.agents)[k] == (
    #[trigger] state.agents[k]).run.id by {}
}

/// The process that is found for an agent is that agent's.
pub proof fn lemma_found_child_has_its_agent(state: RuntimeView, id: u128)
    ensures
        state.child(id) is Some ==> state.child(id)->0.agent_id == id && state.children.contains(
            state.child(id)->0,
        ),
        state.child(id) is None ==> forall|k: int|
            0 <= k < state.children.len() ==> (#[trigger] state.children[k]).agent_id != id,
{
    lemma_position(child_ids(state.children), id);
    assert forall|k: int| 0 <= k < state.children.len() implies child_ids(state.children)[k] == (
    #[trigger] state.children[k]).agent_id by {}
}

/// An agent that is starting, working or stopping works; one that waits for an
/// answer is busy but does not work; one that has ended is neither.
pub proof fn lemma_states_of_agents(state: AgentState)
    ensures
        state == AgentState::Starting || state == AgentState::Working || state == AgentState::Stopping
            ==> is_working_state(state) && is_busy_state(state),
        state == AgentState::AwaitingApproval || state == AgentState::Blocked ==> !is_working_state(state)
            && is_busy_state(state),
        state == AgentState::Completed || state == AgentState::Failed || state == AgentState::Interrupted
            || state == AgentState::Stale ==> !is_working_state(state) && !is_busy_state(state),
{
}

} // verus!
