//! The records that the runtime keeps: what is restored, shown, renamed, read,
//! deleted, and what becomes of it when the runtime ends.

use crate::host_epochs::EpochTable;
use crate::kept::{holds_id, keep_masked, lemma_masked_filter, lemma_masked_map};
use crate::model::{
    error_of, protocol_error, AgentChatMessage, AgentRun, AgentState, AttentionView, ErrorView,
    PermissionRequest, Project, ProjectGitPolicy, ProjectView, ProtocolError, RunView, RuntimeAttention,
};
use crate::sessions::{agent_not_found, key_at, project_put};
use crate::state::{
    agent_ids, agent_saved, attention_ids, attention_view, does, effects_view, is_busy,
    is_busy_state, is_working, is_working_state, lemma_found_agent_has_its_id, lemma_position,
    lemma_saved_agent_is_found, messages_view, position, project_ids,
    projects_view, push_effect, stays, ActiveRun, AgentRecord, AgentView, Effect, EffectView,
    HostTable, RuntimeState, RuntimeView, ServerEvent, ServerEventView, Snapshot, SnapshotView,
    Step,
};
use crate::text::{copy_text, text_of};
use vstd::prelude::*;
use vstd::string::*;

verus! {

// ---- what is shown ----

/// The runs of some agents.
pub open spec fn runs_of(agents: Seq<AgentView>) -> Seq<RunView> {
    agents.map_values(|agent: AgentView| agent.run)
}

/// What the runtime shows of all that it keeps.
pub open spec fn shown_of(state: RuntimeView) -> SnapshotView {
    SnapshotView {
        projects: state.projects,
        agents: runs_of(state.agents),
        attention: state.attention,
        permissions: state.permissions,
    }
}

/// Copies of some projects.
pub(crate) fn copy_projects(list: &Vec<Project>) -> (r: Vec<Project>)
    ensures
        projects_view(r@) == projects_view(list@),
{
    let mut copies: Vec<Project> = Vec::new();
    let mut i: usize = 0;
    while i < list.len()
        invariant
            0 <= i <= list.len(),
            copies.len() == i,
            forall|k: int| 0 <= k < i ==> #[trigger] copies@[k] == list@[k],
        decreases list.len() - i,
    {
        copies.push(list[i].copy());
        i += 1;
    }
    assert(copies@ =~= list@);
    copies
}

/// Copies of some notices.
pub(crate) fn copy_attention(list: &Vec<RuntimeAttention>) -> (r: Vec<RuntimeAttention>)
    ensures
        r@ == list@,
{
    let mut copies: Vec<RuntimeAttention> = Vec::new();
    let mut i: usize = 0;
    while i < list.len()
        invariant
            0 <= i <= list.len(),
            copies.len() == i,
            forall|k: int| 0 <= k < i ==> #[trigger] copies@[k] == list@[k],
        decreases list.len() - i,
    {
        copies.push(list[i].copy());
        i += 1;
    }
    assert(copies@ =~= list@);
    copies
}

impl RuntimeState {
    /// What the runtime shows of all that it keeps.
    pub fn snapshot(&self) -> (r: Snapshot)
        ensures
            r@ == shown_of(self@),
    {
        let mut agents: Vec<AgentRun> = Vec::new();
        let mut i: usize = 0;
        while i < self.agents.len()
            invariant
                0 <= i <= self.agents.len(),
                agents.len() == i,
                forall|k: int| 0 <= k < i ==> (#[trigger] agents@[k])@ == self.agents@[k]@.run,
            decreases self.agents.len() - i,
        {
            agents.push(self.agents[i].run.copy());
            i += 1;
        }
        let mut permissions: Vec<PermissionRequest> = Vec::new();
        let mut j: usize = 0;
        while j < self.permissions.len()
            invariant
                0 <= j <= self.permissions.len(),
                permissions.len() == j,
                forall|k: int| 0 <= k < j ==> (#[trigger] permissions@[k])@ == self.permissions@[k]@,
            decreases self.permissions.len() - j,
        {
            permissions.push(self.permissions[j].copy());
            j += 1;
        }
        let r = Snapshot {
            projects: copy_projects(&self.projects),
            agents,
            attention: copy_attention(&self.attention),
            permissions,
        };
        proof {
            assert(r@.agents =~= runs_of(self@.agents));
            assert(r@.permissions =~= self@.permissions);
        }
        r
    }

    /// How many sessions are under way.
    pub fn active_session_count(&self) -> (r: usize)
        ensures
            r == self@.agents.filter(under_way()).len(),
    {
        let ghost list = self@.agents;
        let mut n: usize = 0;
        let mut i: usize = 0;
        proof {
            reveal(Seq::filter);
            assert(list.take(0) =~= Seq::empty());
        }
        while i < self.agents.len()
            invariant
                0 <= i <= self.agents.len(),
                list == self@.agents,
                n <= i,
                n == list.take(i as int).filter(under_way()).len(),
            decreases self.agents.len() - i,
        {
            proof {
                reveal(Seq::filter);
                assert(list.take(i + 1).drop_last() =~= list.take(i as int));
                assert(list.take(i + 1).last() == self.agents@[i as int]@);
            }
            if is_busy(self.agents[i].run.state) {
                n += 1;
            }
            i += 1;
        }
        assert(list.take(list.len() as int) =~= list);
        n
    }

    /// How many notices have not been read.
    pub fn unread_attention_count(&self) -> (r: usize)
        ensures
            r == self@.attention.filter(unread()).len(),
    {
        let ghost list = self@.attention;
        let mut n: usize = 0;
        let mut i: usize = 0;
        proof {
            reveal(Seq::filter);
            assert(list.take(0) =~= Seq::empty());
        }
        while i < self.attention.len()
            invariant
                0 <= i <= self.attention.len(),
                list == self@.attention,
                n <= i,
                n == list.take(i as int).filter(unread()).len(),
            decreases self.attention.len() - i,
        {
            proof {
                reveal(Seq::filter);
                assert(list.take(i + 1).drop_last() =~= list.take(i as int));
                assert(list.take(i + 1).last() == self.attention@[i as int]@);
            }
            if self.attention[i].read_at.is_none() {
                n += 1;
            }
            i += 1;
        }
        assert(list.take(list.len() as int) =~= list);
        n
    }
}

/// That an agent's session is under way.
pub open spec fn under_way() -> spec_fn(AgentView) -> bool {
    |agent: AgentView| is_busy_state(agent.run.state)
}

/// That a notice has not been read.
pub open spec fn unread() -> spec_fn(AttentionView) -> bool {
    |item: AttentionView| item.read_at is None
}

// ---- what is restored ----

/// An agent as it was saved.
#[derive(Debug)]
pub struct SavedAgent {
    pub run: AgentRun,
    pub messages: Vec<AgentChatMessage>,
    pub terminal_failure: Option<String>,
}

/// The projects that are kept after some were put one after the other.
pub open spec fn projects_put(list: Seq<Project>) -> Seq<ProjectView>
    decreases list.len(),
{
    if list.len() == 0 {
        Seq::empty()
    } else {
        project_put(projects_put(list.drop_last()), list.last()@)
    }
}

/// The agent that a saved one is restored as: its project must be known, and no
/// process works for it.
pub open spec fn restored_agent(projects: Seq<ProjectView>, saved: SavedAgent) -> Option<AgentView> {
    match position(project_ids(projects), saved.run.project_id) {
        None => None,
        Some(i) => Some(
            AgentView {
                run: RunView { can_stop: false, ..saved.run@ },
                project_root: projects[i].root,
                allow_non_git: projects[i].git_policy == ProjectGitPolicy::AllowOutsideGit,
                messages: messages_view(saved.messages@),
                terminal_failure: text_of(saved.terminal_failure),
            },
        ),
    }
}

/// The agents that saved ones are restored as.
pub open spec fn restored_agents(projects: Seq<ProjectView>, saved: Seq<SavedAgent>) -> Seq<AgentView>
    decreases saved.len(),
{
    if saved.len() == 0 {
        Seq::empty()
    } else {
        match restored_agent(projects, saved.last()) {
            Some(agent) => crate::sessions::agent_put(restored_agents(projects, saved.drop_last()), agent),
            None => restored_agents(projects, saved.drop_last()),
        }
    }
}

/// The runtime as it starts: nothing runs, nothing is on an SSH host.
pub open spec fn restored(
    projects: Seq<Project>,
    saved: Seq<SavedAgent>,
    attention: Seq<AttentionView>,
    codex_home: Option<Seq<char>>,
    remote_runtime: bool,
) -> RuntimeView {
    RuntimeView {
        projects: projects_put(projects),
        agents: restored_agents(projects_put(projects), saved),
        children: Seq::empty(),
        attention,
        permissions: Seq::empty(),
        permission_agents: Seq::empty(),
        turns: Seq::empty(),
        launching: Seq::empty(),
        agent_hosts: Seq::empty(),
        permission_hosts: Seq::empty(),
        attention_hosts: Seq::empty(),
        terminal_hosts: Seq::empty(),
        host_epochs: Seq::empty(),
        codex_home,
        remote_runtime,
    }
}

impl RuntimeState {
    /// The runtime as it starts, with what was saved.
    pub fn restore(
        projects: Vec<Project>,
        saved: Vec<SavedAgent>,
        attention: Vec<RuntimeAttention>,
        codex_home: Option<String>,
        remote_runtime: bool,
    ) -> (r: RuntimeState)
        ensures
            r@ == restored(
                projects@,
                saved@,
                attention_view(attention@),
                text_of(codex_home),
                remote_runtime,
            ),
    {
        let mut state = RuntimeState {
            projects: Vec::new(),
            agents: Vec::new(),
            children: Vec::new(),
            attention,
            permissions: Vec::new(),
            permission_agents: Vec::new(),
            turns: Vec::new(),
            launching: Vec::new(),
            agent_hosts: HostTable::new(),
            permission_hosts: HostTable::new(),
            attention_hosts: HostTable::new(),
            terminal_hosts: HostTable::new(),
            host_epochs: EpochTable::new(),
            codex_home,
            remote_runtime,
        };
        proof {
            assert(state@.projects =~= Seq::empty());
            assert(state@.agents =~= Seq::empty());
            assert(state@.permissions =~= Seq::empty());
        }
        let ghost empty = state@;
        let mut i: usize = 0;
        assert(projects@.take(0) =~= Seq::empty());
        while i < projects.len()
            invariant
                0 <= i <= projects.len(),
                state@ == (RuntimeView { projects: projects_put(projects@.take(i as int)), ..empty }),
            decreases projects.len() - i,
        {
            assert(projects@.take(i + 1).drop_last() =~= projects@.take(i as int));
            state.put_project(projects[i].copy());
            i += 1;
        }
        assert(projects@.take(projects@.len() as int) =~= projects@);
        let ghost known = projects_put(projects@);
        let mut j: usize = 0;
        assert(saved@.take(0) =~= Seq::empty());
        while j < saved.len()
            invariant
                0 <= j <= saved.len(),
                known == projects_put(projects@),
                state@ == (RuntimeView {
                    projects: known,
                    agents: restored_agents(known, saved@.take(j as int)),
                    ..empty
                }),
            decreases saved.len() - j,
        {
            assert(saved@.take(j + 1).drop_last() =~= saved@.take(j as int));
            let agent = &saved[j];
            if let Some(k) = state.find_project(agent.run.project_id) {
                let mut run = agent.run.copy();
                run.can_stop = false;
                let record = AgentRecord {
                    run,
                    project_root: state.projects[k].root.clone(),
                    allow_non_git: matches!(state.projects[k].git_policy, ProjectGitPolicy::AllowOutsideGit),
                    messages: copy_messages(&agent.messages),
                    terminal_failure: copy_text(&agent.terminal_failure),
                };
                assert(record@ == restored_agent(known, *agent)->0);
                state.put_agent(record);
            }
            j += 1;
        }
        assert(saved@.take(saved@.len() as int) =~= saved@);
        state
    }
}

/// Copies of some messages.
pub(crate) fn copy_messages(list: &Vec<AgentChatMessage>) -> (r: Vec<AgentChatMessage>)
    ensures
        r@ == list@,
{
    let mut copies: Vec<AgentChatMessage> = Vec::new();
    let mut i: usize = 0;
    while i < list.len()
        invariant
            0 <= i <= list.len(),
            copies.len() == i,
            forall|k: int| 0 <= k < i ==> #[trigger] copies@[k] == list@[k],
        decreases list.len() - i,
    {
        copies.push(list[i].copy());
        i += 1;
    }
    assert(copies@ =~= list@);
    copies
}

/// No agent can be stopped after a restart: its process is gone.
pub proof fn lemma_restart_offers_no_stop(projects: Seq<ProjectView>, saved: Seq<SavedAgent>)
    ensures
        forall|i: int|
            0 <= i < restored_agents(projects, saved).len() ==> !(#[trigger] restored_agents(
                projects,
                saved,
            )[i]).run.can_stop,
    decreases saved.len(),
{
    if saved.len() > 0 {
        lemma_restart_offers_no_stop(projects, saved.drop_last());
        if let Some(agent) = restored_agent(projects, saved.last()) {
            let before = restored_agents(projects, saved.drop_last());
            crate::state::lemma_position(agent_ids(before), agent.run.id);
            assert forall|i: int| 0 <= i < restored_agents(projects, saved).len() implies !(
            #[trigger] restored_agents(projects, saved)[i]).run.can_stop by {
                if i < before.len() && restored_agents(projects, saved)[i] != agent {
                    assert(restored_agents(projects, saved)[i] == before[i]);
                }
            }
        }
    }
}

// ---- names ----

/// The title that a user gives, or takes away.
pub open spec fn user_title(title: Option<Seq<char>>) -> Option<Seq<char>> {
    crate::diagnostics::title_in(title)
}

/// An agent has been renamed.
pub open spec fn renamed(state: RuntimeView, agent_id: u128, title: Option<Seq<char>>, now: i64) -> Option<Step> {
    match state.agent_at(agent_id) {
        None => None,
        Some(i) => Some(
            agent_saved(
                state,
                i,
                AgentView {
                    run: RunView { user_title: user_title(title), updated_at: now, ..state.agents[i].run },
                    ..state.agents[i]
                },
            ),
        ),
    }
}

impl RuntimeState {
    /// Renames an agent. An empty title takes the user's title away.
    pub fn rename_agent(&mut self, agent_id: u128, title: Option<&str>, now: i64, effects: &mut Vec<Effect>) -> (r:
        Result<(), ProtocolError>)
        ensures
            match renamed(old(self)@, agent_id, crate::text::str_of(title), now) {
                Some(step) => r is Ok && does(old(effects)@, *final(self), final(effects)@, step),
                None => (r matches Err(e) && e@ == error_of(
                    "agent_not_found"@,
                    "agent session was not found"@,
                )) && does(old(effects)@, *final(self), final(effects)@, stays(old(self)@)),
            },
    {
        let ghost before = self@;
        let title_given = crate::diagnostics::read_title(title);
        match self.find_agent(agent_id) {
            Some(i) => {
                self.agents[i].run.user_title = title_given;
                self.agents[i].run.updated_at = now;
                assert(self@.agents =~= renamed(
                    before,
                    agent_id,
                    crate::text::str_of(title),
                    now,
                )->0.state.agents);
                self.tell_agent(i, effects);
                Ok(())
            },
            None => {
                assert(effects_view(effects@) =~= effects_view(old(effects)@) + Seq::empty());
                Err(agent_not_found())
            },
        }
    }
}

// ---- deletion ----

/// That a notice is not about an agent.
pub open spec fn not_about(agent_id: u128) -> spec_fn(AttentionView) -> bool {
    |item: AttentionView| item.agent_id != Some(agent_id)
}

/// Why an agent cannot be deleted, where it cannot.
pub open spec fn delete_refusal(state: RuntimeView, agent_id: u128) -> Option<ErrorView> {
    match state.agent(agent_id) {
        None => Some(error_of("agent_not_found"@, "agent session was not found"@)),
        Some(agent) => if is_working_state(agent.run.state) || state.child(agent_id) is Some {
            Some(error_of("agent_active"@, "Stop this agent before deleting it permanently."@))
        } else {
            None
        },
    }
}

/// An agent has been deleted.
pub open spec fn agent_deleted(state: RuntimeView, agent_id: u128) -> Step {
    Step {
        state: RuntimeView {
            agents: match state.agent_at(agent_id) {
                Some(i) => state.agents.remove(i),
                None => state.agents,
            },
            attention: state.attention.filter(not_about(agent_id)),
            ..state
        },
        effects: seq![EffectView::Tell(ServerEventView::AgentDeleted { agent_id })],
    }
}

/// That an agent is of another project.
pub open spec fn of_other_project(project_id: u128) -> spec_fn(AgentView) -> bool {
    |agent: AgentView| agent.run.project_id != project_id
}

/// That an agent is of a project.
pub open spec fn of_project(project_id: u128) -> spec_fn(AgentView) -> bool {
    |agent: AgentView| agent.run.project_id == project_id
}

/// That a process works for none of some agents.
pub open spec fn works_for_none(ids: Seq<u128>) -> spec_fn(ActiveRun) -> bool {
    |child: ActiveRun| !ids.contains(child.agent_id)
}

/// That a thing is none of some.
pub open spec fn is_none_of(ids: Seq<u128>) -> spec_fn((u128, Seq<char>)) -> bool {
    |entry: (u128, Seq<char>)| !ids.contains(entry.0)
}

/// That a notice is neither about a project nor about some agents.
pub open spec fn not_of_project(project_id: u128, ids: Seq<u128>) -> spec_fn(AttentionView) -> bool {
    |item: AttentionView|
        item.project_id != Some(project_id) && (item.agent_id matches Some(id) ==> !ids.contains(id))
}

/// That a project is another one.
pub open spec fn other_project(project_id: u128) -> spec_fn(ProjectView) -> bool {
    |project: ProjectView| project.id != project_id
}

/// The identifiers of a project's agents.
pub open spec fn agents_of(state: RuntimeView, project_id: u128) -> Seq<u128> {
    agent_ids(state.agents.filter(of_project(project_id)))
}

/// Whether an agent of a project is at work.
pub open spec fn has_active_agent(state: RuntimeView, project_id: u128) -> bool {
    exists|i: int|
        0 <= i < state.agents.len() && (#[trigger] state.agents[i]).run.project_id == project_id && (
        state.agents[i].run.can_stop || state.child(state.agents[i].run.id) is Some || is_busy_state(
            state.agents[i].run.state,
        ))
}

/// Why a project cannot be deleted, where it cannot.
pub open spec fn project_refusal(state: RuntimeView, project_id: u128) -> Option<ErrorView> {
    if state.project(project_id) is None {
        Some(error_of("project_not_found"@, "project was not found"@))
    } else if has_active_agent(state, project_id) {
        Some(error_of("project_active"@, "Stop this project's active agents before deleting it."@))
    } else {
        None
    }
}

/// A project has been deleted, with its agents and what is said of them.
pub open spec fn project_deleted(state: RuntimeView, project_id: u128) -> Step {
    let ids = agents_of(state, project_id);
    Step {
        state: RuntimeView {
            agents: state.agents.filter(of_other_project(project_id)),
            children: state.children.filter(works_for_none(ids)),
            attention: state.attention.filter(not_of_project(project_id, ids)),
            projects: match position(project_ids(state.projects), project_id) {
                Some(i) => state.projects.remove(i),
                None => state.projects,
            },
            ..state
        },
        effects: seq![EffectView::Tell(ServerEventView::ProjectDeleted { project_id })],
    }
}

/// A project of an SSH host has been deleted there and is forgotten here.
pub open spec fn remote_project_deleted(state: RuntimeView, project_id: u128) -> Step {
    let ids = agents_of(state, project_id);
    Step {
        state: RuntimeView {
            agents: state.agents.filter(of_other_project(project_id)),
            agent_hosts: state.agent_hosts.filter(is_none_of(ids)),
            attention: state.attention.filter(not_of_project(project_id, ids)),
            projects: state.projects.filter(other_project(project_id)),
            ..state
        },
        effects: seq![EffectView::Tell(ServerEventView::ProjectDeleted { project_id })],
    }
}

impl HostTable {
    /// Forgets some things.
    pub(crate) fn remove_all(&mut self, ids: &Vec<u128>)
        ensures
            final(self)@ == old(self)@.filter(is_none_of(ids@)),
    {
        let ghost views = self@;
        let mut mask: Vec<bool> = Vec::new();
        let mut i: usize = 0;
        while i < self.entries.len()
            invariant
                0 <= i <= self.entries.len(),
                views == self@,
                mask.len() == i,
                forall|k: int| 0 <= k < i ==> #[trigger] mask@[k] == is_none_of(ids@)(views[k]),
            decreases self.entries.len() - i,
        {
            mask.push(!holds_id(ids, self.entries[i].0));
            i += 1;
        }
        proof {
            lemma_masked_filter(views, mask@, is_none_of(ids@));
            lemma_masked_map(self.entries@, mask@, |entry: (u128, String)| (entry.0, entry.1@));
        }
        keep_masked(&mut self.entries, &mask);
    }
}

impl RuntimeState {
    /// Keeps the notices that are neither about a project nor about some agents.
    fn drop_attention(&mut self, project_id: u128, ids: &Vec<u128>)
        ensures
            final(self)@ == (RuntimeView {
                attention: old(self)@.attention.filter(not_of_project(project_id, ids@)),
                ..old(self)@
            }),
    {
        let ghost views = self@.attention;
        let ghost keep = not_of_project(project_id, ids@);
        let mut mask: Vec<bool> = Vec::new();
        let mut i: usize = 0;
        while i < self.attention.len()
            invariant
                0 <= i <= self.attention.len(),
                views == self@.attention,
                keep == not_of_project(project_id, ids@),
                mask.len() == i,
                forall|k: int| 0 <= k < i ==> #[trigger] mask@[k] == keep(views[k]),
            decreases self.attention.len() - i,
        {
            let about = match self.attention[i].project_id {
                Some(id) => id == project_id,
                None => false,
            };
            let of_agent = match self.attention[i].agent_id {
                Some(id) => holds_id(ids, id),
                None => false,
            };
            mask.push(!about && !of_agent);
            i += 1;
        }
        proof {
            lemma_masked_filter(views, mask@, keep);
            lemma_masked_map(self.attention@, mask@, |item: RuntimeAttention| item@);
        }
        keep_masked(&mut self.attention, &mask);
    }

    /// Takes a project's agents away, and says which they were.
    fn drop_agents(&mut self, project_id: u128) -> (r: Vec<u128>)
        ensures
            final(self)@ == (RuntimeView {
                agents: old(self)@.agents.filter(of_other_project(project_id)),
                ..old(self)@
            }),
            r@ == agents_of(old(self)@, project_id),
    {
        let ghost views = self@.agents;
        let ghost keep = of_other_project(project_id);
        let ghost mine = of_project(project_id);
        let mut mask: Vec<bool> = Vec::new();
        let mut ids: Vec<u128> = Vec::new();
        let mut i: usize = 0;
        proof {
            reveal(Seq::filter);
            assert(views.take(0) =~= Seq::empty());
            assert(agent_ids(views.take(0).filter(mine)) =~= Seq::empty());
        }
        while i < self.agents.len()
            invariant
                0 <= i <= self.agents.len(),
                views == self@.agents,
                keep == of_other_project(project_id),
                mine == of_project(project_id),
                mask.len() == i,
                forall|k: int| 0 <= k < i ==> #[trigger] mask@[k] == keep(views[k]),
                ids@ == agent_ids(views.take(i as int).filter(mine)),
            decreases self.agents.len() - i,
        {
            let ghost before = views.take(i as int).filter(mine);
            proof {
                reveal(Seq::filter);
                assert(views.take(i + 1).drop_last() =~= views.take(i as int));
                assert(views.take(i + 1).last() == self.agents@[i as int]@);
            }
            if self.agents[i].run.project_id == project_id {
                ids.push(self.agents[i].run.id);
                mask.push(false);
                assert(agent_ids(before.push(views[i as int])) =~= agent_ids(before).push(
                    views[i as int].run.id,
                ));
            } else {
                mask.push(true);
            }
            i += 1;
        }
        proof {
            assert(views.take(views.len() as int) =~= views);
            lemma_masked_filter(views, mask@, keep);
            lemma_masked_map(self.agents@, mask@, |record: AgentRecord| record@);
        }
        keep_masked(&mut self.agents, &mask);
        ids
    }

    /// Takes the processes of some agents away.
    fn drop_children(&mut self, ids: &Vec<u128>)
        ensures
            final(self)@ == (RuntimeView {
                children: old(self)@.children.filter(works_for_none(ids@)),
                ..old(self)@
            }),
    {
        let ghost keep = works_for_none(ids@);
        let mut mask: Vec<bool> = Vec::new();
        let mut i: usize = 0;
        while i < self.children.len()
            invariant
                0 <= i <= self.children.len(),
                keep == works_for_none(ids@),
                mask.len() == i,
                forall|k: int| 0 <= k < i ==> #[trigger] mask@[k] == keep(self.children@[k]),
            decreases self.children.len() - i,
        {
            mask.push(!holds_id(ids, self.children[i].agent_id));
            i += 1;
        }
        proof {
            lemma_masked_filter(self.children@, mask@, keep);
        }
        keep_masked(&mut self.children, &mask);
    }

    /// Whether an agent can be deleted.
    pub fn check_delete_agent(&self, agent_id: u128) -> (r: Result<(), ProtocolError>)
        ensures
            match delete_refusal(self@, agent_id) {
                Some(error) => r matches Err(e) && e@ == error,
                None => r is Ok,
            },
    {
        match self.find_agent(agent_id) {
            None => Err(agent_not_found()),
            Some(i) => if is_working(self.agents[i].run.state) || self.find_child(agent_id).is_some() {
                Err(protocol_error("agent_active", "Stop this agent before deleting it permanently."))
            } else {
                Ok(())
            },
        }
    }

    /// Forgets an agent that has been deleted from the store.
    pub fn delete_agent(&mut self, agent_id: u128, effects: &mut Vec<Effect>)
        ensures
            does(old(effects)@, *final(self), final(effects)@, agent_deleted(old(self)@, agent_id)),
    {
        let ghost told = effects_view(effects@);
        let ghost before = self@;
        if let Some(i) = self.find_agent(agent_id) {
            self.agents.remove(i);
            assert(self@.agents =~= before.agents.remove(i as int));
        }
        let ghost views = self@.attention;
        let ghost keep = not_about(agent_id);
        let mut mask: Vec<bool> = Vec::new();
        let mut i: usize = 0;
        while i < self.attention.len()
            invariant
                0 <= i <= self.attention.len(),
                views == self@.attention,
                keep == not_about(agent_id),
                mask.len() == i,
                forall|k: int| 0 <= k < i ==> #[trigger] mask@[k] == keep(views[k]),
            decreases self.attention.len() - i,
        {
            mask.push(
                match self.attention[i].agent_id {
                    Some(id) => id != agent_id,
                    None => true,
                },
            );
            i += 1;
        }
        proof {
            lemma_masked_filter(views, mask@, keep);
            lemma_masked_map(self.attention@, mask@, |item: RuntimeAttention| item@);
        }
        keep_masked(&mut self.attention, &mask);
        push_effect(effects, Effect::Tell(ServerEvent::AgentDeleted { agent_id }));
        assert(effects_view(effects@) =~= told + agent_deleted(before, agent_id).effects);
    }

    /// Whether a project can be deleted.
    pub fn check_delete_project(&self, project_id: u128) -> (r: Result<(), ProtocolError>)
        ensures
            match project_refusal(self@, project_id) {
                Some(error) => r matches Err(e) && e@ == error,
                None => r is Ok,
            },
    {
        if self.find_project(project_id).is_none() {
            return Err(protocol_error("project_not_found", "project was not found"));
        }
        let ghost list = self@.agents;
        let mut i: usize = 0;
        while i < self.agents.len()
            invariant
                0 <= i <= self.agents.len(),
                list == self@.agents,
                self@.project(project_id) is Some,
                forall|k: int|
                    0 <= k < i && (#[trigger] list[k]).run.project_id == project_id ==> !list[k].run.can_stop
                        && self@.child(list[k].run.id) is None && !is_busy_state(list[k].run.state),
            decreases self.agents.len() - i,
        {
            assert(list[i as int] == self.agents@[i as int]@);
            let run = &self.agents[i].run;
            if run.project_id == project_id && (run.can_stop || self.find_child(run.id).is_some() || is_busy(
                run.state,
            )) {
                assert(self@.agents[i as int].run.project_id == project_id);
                return Err(
                    protocol_error(
                        "project_active",
                        "Stop this project's active agents before deleting it.",
                    ),
                );
            }
            i += 1;
        }
        Ok(())
    }

    /// Forgets a project that has been deleted from the store.
    pub fn delete_project(&mut self, project_id: u128, effects: &mut Vec<Effect>)
        ensures
            does(old(effects)@, *final(self), final(effects)@, project_deleted(old(self)@, project_id)),
    {
        let ghost told = effects_view(effects@);
        let ghost before = self@;
        let ids = self.drop_agents(project_id);
        self.drop_children(&ids);
        self.drop_attention(project_id, &ids);
        if let Some(i) = self.find_project(project_id) {
            self.projects.remove(i);
            assert(self@.projects =~= before.projects.remove(i as int));
        }
        push_effect(effects, Effect::Tell(ServerEvent::ProjectDeleted { project_id }));
        assert(effects_view(effects@) =~= told + project_deleted(before, project_id).effects);
    }

    /// Forgets a project of an SSH host that has been deleted there and from the
    /// store.
    pub fn delete_remote_project(&mut self, project_id: u128, effects: &mut Vec<Effect>)
        ensures
            does(
                old(effects)@,
                *final(self),
                final(effects)@,
                remote_project_deleted(old(self)@, project_id),
            ),
    {
        let ghost told = effects_view(effects@);
        let ghost before = self@;
        let ids = self.drop_agents(project_id);
        self.agent_hosts.remove_all(&ids);
        self.drop_attention(project_id, &ids);
        let ghost views = self@.projects;
        let ghost keep = other_project(project_id);
        let mut mask: Vec<bool> = Vec::new();
        let mut i: usize = 0;
        while i < self.projects.len()
            invariant
                0 <= i <= self.projects.len(),
                views == self@.projects,
                keep == other_project(project_id),
                mask.len() == i,
                forall|k: int| 0 <= k < i ==> #[trigger] mask@[k] == keep(views[k]),
            decreases self.projects.len() - i,
        {
            mask.push(self.projects[i].id != project_id);
            i += 1;
        }
        proof {
            lemma_masked_filter(views, mask@, keep);
            lemma_masked_map(self.projects@, mask@, |project: Project| project@);
        }
        keep_masked(&mut self.projects, &mask);
        push_effect(effects, Effect::Tell(ServerEvent::ProjectDeleted { project_id }));
        assert(effects_view(effects@) =~= told + remote_project_deleted(before, project_id).effects);
    }
}

// ---- attention ----

/// Whether a notice is among those that are to be read.
pub open spec fn is_selected(selected: Option<Seq<u128>>, id: u128) -> bool {
    match selected {
        Some(ids) => ids.contains(id),
        None => true,
    }
}

/// A notice after it has been read with others.
pub open spec fn read_item(selected: Option<Seq<u128>>, now: i64) -> spec_fn(AttentionView) -> AttentionView {
    |item: AttentionView|
        if is_selected(selected, item.id) && item.read_at is None {
            AttentionView { read_at: Some(now), ..item }
        } else {
            item
        }
}

/// That a notice is read now.
pub open spec fn newly_read(selected: Option<Seq<u128>>) -> spec_fn(AttentionView) -> bool {
    |item: AttentionView| is_selected(selected, item.id) && item.read_at is None
}

/// The identifiers of some notices as an option over a list.
pub open spec fn selection(ids: Option<&Vec<u128>>) -> Option<Seq<u128>> {
    match ids {
        Some(ids) => Some(ids@),
        None => None,
    }
}

/// A notice as it was before it was read with others.
pub open spec fn unread_item(ids: Seq<u128>) -> spec_fn(AttentionView) -> AttentionView {
    |item: AttentionView|
        if ids.contains(item.id) {
            AttentionView { read_at: None, ..item }
        } else {
            item
        }
}

impl RuntimeState {
    /// Marks notices as read, all of them or those that are named, and says which
    /// were not read before.
    pub fn mark_attention_read(&mut self, selected: Option<&Vec<u128>>, now: i64) -> (r: Vec<u128>)
        ensures
            final(self)@ == (RuntimeView {
                attention: old(self)@.attention.map_values(read_item(selection(selected), now)),
                ..old(self)@
            }),
            r@ == attention_ids(old(self)@.attention.filter(newly_read(selection(selected)))),
    {
        let ghost before = self@;
        let ghost list = self@.attention;
        let ghost picked = selection(selected);
        let ghost fresh = newly_read(picked);
        let mut changed: Vec<u128> = Vec::new();
        let mut i: usize = 0;
        proof {
            reveal(Seq::filter);
            assert(list.take(0) =~= Seq::empty());
            assert(attention_ids(list.take(0).filter(fresh)) =~= Seq::empty());
        }
        while i < self.attention.len()
            invariant
                0 <= i <= self.attention.len(),
                self.attention@.len() == list.len(),
                picked == selection(selected),
                fresh == newly_read(picked),
                self@ == (RuntimeView { attention: self@.attention, ..before }),
                forall|k: int| 0 <= k < i ==> #[trigger] self@.attention[k] == read_item(picked, now)(list[k]),
                forall|k: int| i <= k < list.len() ==> #[trigger] self@.attention[k] == list[k],
                changed@ == attention_ids(list.take(i as int).filter(fresh)),
            decreases self.attention.len() - i,
        {
            let ghost so_far = list.take(i as int).filter(fresh);
            let ghost then = self@.attention;
            proof {
                reveal(Seq::filter);
                assert(list.take(i + 1).drop_last() =~= list.take(i as int));
                assert(then[i as int] == list[i as int]);
                assert(then[i as int] == self.attention@[i as int]@);
            }
            let id = self.attention[i].id;
            let chosen = match selected {
                Some(ids) => holds_id(ids, id),
                None => true,
            };
            if chosen && self.attention[i].read_at.is_none() {
                self.attention[i].read_at = Some(now);
                changed.push(id);
                proof {
                    assert(self@.attention =~= then.update(
                        i as int,
                        AttentionView { read_at: Some(now), ..then[i as int] },
                    ));
                    assert(attention_ids(so_far.push(list[i as int])) =~= attention_ids(so_far).push(id));
                }
            }
            i += 1;
        }
        proof {
            assert(list.take(list.len() as int) =~= list);
            assert(self@.attention =~= list.map_values(read_item(picked, now)));
        }
        changed
    }

    /// Marks notices as unread again, where that they were read could not be
    /// saved.
    pub fn unmark_attention_read(&mut self, ids: &Vec<u128>)
        ensures
            final(self)@ == (RuntimeView {
                attention: old(self)@.attention.map_values(unread_item(ids@)),
                ..old(self)@
            }),
    {
        let ghost before = self@;
        let ghost list = self@.attention;
        let mut i: usize = 0;
        while i < self.attention.len()
            invariant
                0 <= i <= self.attention.len(),
                self.attention@.len() == list.len(),
                self@ == (RuntimeView { attention: self@.attention, ..before }),
                forall|k: int| 0 <= k < i ==> #[trigger] self@.attention[k] == unread_item(ids@)(list[k]),
                forall|k: int| i <= k < list.len() ==> #[trigger] self@.attention[k] == list[k],
            decreases self.attention.len() - i,
        {
            let ghost then = self@.attention;
            proof {
                assert(then[i as int] == list[i as int]);
                assert(then[i as int] == self.attention@[i as int]@);
            }
            if holds_id(ids, self.attention[i].id) {
                self.attention[i].read_at = None;
                assert(self@.attention =~= then.update(
                    i as int,
                    AttentionView { read_at: None, ..then[i as int] },
                ));
            }
            i += 1;
        }
        assert(self@.attention =~= list.map_values(unread_item(ids@)));
    }

    /// Takes a notice away that has been dismissed.
    pub fn dismiss_attention(&mut self, attention_id: u128, effects: &mut Vec<Effect>)
        ensures
            does(
                old(effects)@,
                *final(self),
                final(effects)@,
                attention_dismissed(old(self)@, attention_id),
            ),
    {
        let ghost told = effects_view(effects@);
        let ghost before = self@;
        self.drop_notice(attention_id);
        push_effect(effects, Effect::Tell(ServerEvent::AttentionDismissed { attention_id }));
        assert(effects_view(effects@) =~= told + attention_dismissed(before, attention_id).effects);
    }

    /// Takes a notice away.
    pub(crate) fn drop_notice(&mut self, attention_id: u128)
        ensures
            final(self)@ == (RuntimeView {
                attention: old(self)@.attention.filter(other_notice(attention_id)),
                ..old(self)@
            }),
    {
        let ghost views = self@.attention;
        let ghost keep = other_notice(attention_id);
        let mut mask: Vec<bool> = Vec::new();
        let mut i: usize = 0;
        while i < self.attention.len()
            invariant
                0 <= i <= self.attention.len(),
                views == self@.attention,
                keep == other_notice(attention_id),
                mask.len() == i,
                forall|k: int| 0 <= k < i ==> #[trigger] mask@[k] == keep(views[k]),
            decreases self.attention.len() - i,
        {
            mask.push(self.attention[i].id != attention_id);
            i += 1;
        }
        proof {
            lemma_masked_filter(views, mask@, keep);
            lemma_masked_map(self.attention@, mask@, |item: RuntimeAttention| item@);
        }
        keep_masked(&mut self.attention, &mask);
    }
}

/// That a notice is another one.
pub open spec fn other_notice(id: u128) -> spec_fn(AttentionView) -> bool {
    |item: AttentionView| item.id != id
}

/// A notice has been dismissed.
pub open spec fn attention_dismissed(state: RuntimeView, attention_id: u128) -> Step {
    Step {
        state: RuntimeView { attention: state.attention.filter(other_notice(attention_id)), ..state },
        effects: seq![EffectView::Tell(ServerEventView::AttentionDismissed { attention_id })],
    }
}

/// Once notices have been read, none of them is read anew, and when each was read
/// stays as it was.
pub proof fn lemma_reading_is_settled(list: Seq<AttentionView>, selected: Option<Seq<u128>>, now: i64, later: i64)
    ensures
        ({
            let read = list.map_values(read_item(selected, now));
            &&& read.map_values(read_item(selected, later)) == read
            &&& read.filter(newly_read(selected)) == Seq::<AttentionView>::empty()
        }),
    decreases list.len(),
{
    let read = list.map_values(read_item(selected, now));
    assert(read.map_values(read_item(selected, later)) =~= read);
    reveal(Seq::filter);
    if list.len() > 0 {
        lemma_reading_is_settled(list.drop_last(), selected, now, later);
        assert(read.drop_last() =~= list.drop_last().map_values(read_item(selected, now)));
    }
}

// ---- the end ----

/// An agent when the runtime ends.
pub open spec fn halted(now: i64) -> spec_fn(AgentView) -> AgentView {
    |agent: AgentView|
        if is_busy_state(agent.run.state) {
            AgentView {
                run: RunView {
                    state: AgentState::Interrupted,
                    last_visible_action: Some("Runtime stopped by user"@),
                    updated_at: now,
                    ..agent.run
                },
                ..agent
            }
        } else {
            agent
        }
}

/// The agents that are saved when the runtime ends.
pub open spec fn halt_effects(agents: Seq<AgentView>, now: i64) -> Seq<EffectView>
    decreases agents.len(),
{
    if agents.len() == 0 {
        Seq::empty()
    } else {
        let before = halt_effects(agents.drop_last(), now);
        let agent = halted(now)(agents.last());
        if is_busy_state(agents.last().run.state) {
            before.push(EffectView::SaveAgent { run: agent.run, failure: agent.terminal_failure })
        } else {
            before
        }
    }
}

impl RuntimeState {
    /// Ends all work: the agents that were at work are interrupted and saved, and
    /// no process works any more.
    pub fn shutdown(&mut self, now: i64, effects: &mut Vec<Effect>)
        ensures
            does(
                old(effects)@,
                *final(self),
                final(effects)@,
                Step {
                    state: RuntimeView {
                        agents: old(self)@.agents.map_values(halted(now)),
                        children: Seq::empty(),
                        ..old(self)@
                    },
                    effects: halt_effects(old(self)@.agents, now),
                },
            ),
    {
        let ghost told = effects_view(effects@);
        let ghost before = self@;
        let ghost list = self@.agents;
        self.children.clear();
        let mut i: usize = 0;
        proof {
            assert(list.take(0) =~= Seq::empty());
            assert(told =~= told + Seq::empty());
        }
        while i < self.agents.len()
            invariant
                0 <= i <= self.agents.len(),
                self.agents@.len() == list.len(),
                self@ == (RuntimeView {
                    agents: self@.agents,
                    children: Seq::empty(),
                    ..before
                }),
                forall|k: int| 0 <= k < i ==> #[trigger] self@.agents[k] == halted(now)(list[k]),
                forall|k: int| i <= k < list.len() ==> #[trigger] self@.agents[k] == list[k],
                effects_view(effects@) == told + halt_effects(list.take(i as int), now),
            decreases self.agents.len() - i,
        {
            let ghost then = self@.agents;
            proof {
                assert(list.take(i + 1).drop_last() =~= list.take(i as int));
                assert(then[i as int] == list[i as int]);
                assert(then[i as int] == self.agents@[i as int]@);
            }
            if is_busy(self.agents[i].run.state) {
                self.agents[i].run.state = AgentState::Interrupted;
                self.agents[i].run.last_visible_action = Some("Runtime stopped by user".to_owned());
                self.agents[i].run.updated_at = now;
                let record = &self.agents[i];
                push_effect(
                    effects,
                    Effect::SaveAgent {
                        run: record.run.copy(),
                        failure: copy_text(&record.terminal_failure),
                    },
                );
                proof {
                    assert(self@.agents =~= then.update(i as int, halted(now)(list[i as int])));
                    assert(effects_view(effects@) =~= told + halt_effects(list.take(i + 1), now));
                }
            }
            i += 1;
        }
        proof {
            assert(list.take(list.len() as int) =~= list);
            assert(self@.agents =~= list.map_values(halted(now)));
        }
    }
}

/// No agent is left at work when the runtime has ended.
pub proof fn lemma_nothing_works_after_the_end(agents: Seq<AgentView>, now: i64, i: int)
    requires
        0 <= i < agents.len(),
    ensures
        !is_busy_state(agents.map_values(halted(now))[i].run.state),
        agents.map_values(halted(now))[i].messages == agents[i].messages,
{
}

/// An agent is deleted only at rest: never while it works and never while a process
/// works for it.
pub proof fn lemma_only_agents_at_rest_are_deleted(state: RuntimeView, agent_id: u128)
    ensures
        delete_refusal(state, agent_id) is None <==> {
            &&& state.agent(agent_id) is Some
            &&& state.child(agent_id) is None
            &&& state.agent(agent_id)->0.run.state != AgentState::Starting
            &&& state.agent(agent_id)->0.run.state != AgentState::Working
            &&& state.agent(agent_id)->0.run.state != AgentState::Stopping
        },
        state.agent(agent_id) is None ==> delete_refusal(state, agent_id)->0.code == "agent_not_found"@,
        state.agent(agent_id) is Some && delete_refusal(state, agent_id) is Some ==> delete_refusal(
            state,
            agent_id,
        )->0.code == "agent_active"@,
{
}

/// An agent that is deleted goes with everything that was said of it, and no other
/// agent goes with it.
pub proof fn lemma_deleted_agents_leave_no_notice(state: RuntimeView, agent_id: u128, i: int)
    ensures
        ({
            let step = agent_deleted(state, agent_id);
            &&& state.agent(agent_id) is Some ==> step.state.agents.len() == state.agents.len() - 1
            &&& 0 <= i < step.state.attention.len() ==> step.state.attention[i].agent_id != Some(agent_id)
            &&& 0 <= i < state.attention.len() && state.attention[i].agent_id != Some(agent_id)
                ==> step.state.attention.contains(state.attention[i])
            &&& 0 <= i < state.agents.len() && state.agents[i].run.id != agent_id
                ==> step.state.agents.contains(state.agents[i])
            &&& step.effects == seq![EffectView::Tell(ServerEventView::AgentDeleted { agent_id })]
            &&& step.state.projects == state.projects
        }),
{
    broadcast use vstd::seq_lib::group_filter_ensures;

    let step = agent_deleted(state, agent_id);
    lemma_found_agent_has_its_id(state, agent_id);
    if 0 <= i < step.state.attention.len() {
        assert(not_about(agent_id)(step.state.attention[i]));
    }
    if 0 <= i < state.attention.len() && state.attention[i].agent_id != Some(agent_id) {
        state.attention.lemma_filter_contains(not_about(agent_id), i);
    }
    if 0 <= i < state.agents.len() && state.agents[i].run.id != agent_id {
        match state.agent_at(agent_id) {
            Some(at) => {
                if i < at {
                    assert(step.state.agents[i] == state.agents[i]);
                } else {
                    assert(step.state.agents[i - 1] == state.agents[i]);
                }
            },
            None => {
                assert(step.state.agents[i] == state.agents[i]);
            },
        }
    }
}

/// A project is deleted only while none of its agents is at work, and with it go its
/// agents, their processes and their notices, and those of no other project.
pub proof fn lemma_deleted_projects_take_their_own(state: RuntimeView, project_id: u128, i: int)
    ensures
        project_refusal(state, project_id) is None ==> state.project(project_id) is Some && (0 <= i
            < state.agents.len() && state.agents[i].run.project_id == project_id ==> !state.agents[i].run.can_stop
            && state.child(state.agents[i].run.id) is None && !is_busy_state(state.agents[i].run.state)),
        state.project(project_id) is None ==> project_refusal(state, project_id) is Some && project_refusal(
            state,
            project_id,
        )->0.code == "project_not_found"@,
        ({
            let step = project_deleted(state, project_id);
            &&& 0 <= i < step.state.agents.len() ==> step.state.agents[i].run.project_id != project_id
            &&& 0 <= i < state.agents.len() && state.agents[i].run.project_id != project_id
                ==> step.state.agents.contains(state.agents[i])
            &&& 0 <= i < step.state.attention.len() ==> step.state.attention[i].project_id != Some(project_id)
            &&& state.project(project_id) is Some ==> step.state.projects.len() == state.projects.len() - 1
            &&& step.effects == seq![EffectView::Tell(ServerEventView::ProjectDeleted { project_id })]
        }),
        ({
            let step = remote_project_deleted(state, project_id);
            &&& 0 <= i < step.state.agents.len() ==> step.state.agents[i].run.project_id != project_id
            &&& 0 <= i < step.state.attention.len() ==> step.state.attention[i].project_id != Some(project_id)
            &&& 0 <= i < step.state.projects.len() ==> step.state.projects[i].id != project_id
        }),
{
    broadcast use vstd::seq_lib::group_filter_ensures;

    lemma_position(project_ids(state.projects), project_id);
    let step = project_deleted(state, project_id);
    let remote = remote_project_deleted(state, project_id);
    let ids = agents_of(state, project_id);
    if 0 <= i < step.state.agents.len() {
        assert(of_other_project(project_id)(step.state.agents[i]));
    }
    if 0 <= i < state.agents.len() && state.agents[i].run.project_id != project_id {
        state.agents.lemma_filter_contains(of_other_project(project_id), i);
    }
    if 0 <= i < step.state.attention.len() {
        assert(not_of_project(project_id, ids)(step.state.attention[i]));
    }
    if 0 <= i < remote.state.projects.len() {
        assert(other_project(project_id)(remote.state.projects[i]));
    }
}

/// Reading notices marks exactly those that were meant and not read before, with the
/// time of the reading, and changes nothing else of them.
pub proof fn lemma_reading_marks_what_was_meant(item: AttentionView, selected: Option<Seq<u128>>, now: i64)
    ensures
        ({
            let meant = selected is None || selected->0.contains(item.id);
            let read = read_item(selected, now)(item);
            &&& meant && item.read_at is None ==> read.read_at == Some(now)
            &&& !meant || item.read_at is Some ==> read == item
            &&& read.id == item.id && read.title == item.title && read.body == item.body
            &&& newly_read(selected)(item) <==> meant && item.read_at is None
        }),
{
}

/// A reading that could not be saved is taken back: the notices that were newly read
/// are unread again, and the others are as they were.
pub proof fn lemma_reading_can_be_taken_back(item: AttentionView, selected: Option<Seq<u128>>, ids: Seq<u128>, now: i64)
    requires
        ids.contains(item.id) <==> newly_read(selected)(item),
    ensures
        unread_item(ids)(read_item(selected, now)(item)) == item,
{
}

/// A notice that is dismissed is gone, and no other is.
pub proof fn lemma_dismissed_notices_are_gone(state: RuntimeView, attention_id: u128, i: int)
    ensures
        ({
            let step = attention_dismissed(state, attention_id);
            &&& 0 <= i < step.state.attention.len() ==> step.state.attention[i].id != attention_id
            &&& 0 <= i < state.attention.len() && state.attention[i].id != attention_id
                ==> step.state.attention.contains(state.attention[i])
            &&& step.effects == seq![EffectView::Tell(ServerEventView::AttentionDismissed { attention_id })]
        }),
{
    broadcast use vstd::seq_lib::group_filter_ensures;

    let step = attention_dismissed(state, attention_id);
    if 0 <= i < step.state.attention.len() {
        assert(other_notice(attention_id)(step.state.attention[i]));
    }
    if 0 <= i < state.attention.len() && state.attention[i].id != attention_id {
        state.attention.lemma_filter_contains(other_notice(attention_id), i);
    }
}

/// When the runtime ends, exactly the agents at work are interrupted, and what was
/// at rest stays as it was.
pub proof fn lemma_the_end_interrupts_what_works(agent: AgentView, now: i64)
    ensures
        ({
            let busy = agent.run.state == AgentState::Starting || agent.run.state == AgentState::Working
                || agent.run.state == AgentState::Stopping || agent.run.state == AgentState::AwaitingApproval
                || agent.run.state == AgentState::Blocked;
            &&& busy ==> halted(now)(agent).run.state == AgentState::Interrupted && halted(now)(
                agent,
            ).run.last_visible_action == Some("Runtime stopped by user"@) && halted(now)(agent).run.updated_at
                == now
            &&& !busy ==> halted(now)(agent) == agent
        }),
{
}

/// An agent is restored exactly where its project is known, with the folder and the
/// rules of that project and with all that was saved of it.
pub proof fn lemma_agents_are_restored_with_their_project(projects: Seq<ProjectView>, saved: SavedAgent)
    ensures
        restored_agent(projects, saved) is Some <==> project_ids(projects).contains(saved.run.project_id),
        restored_agent(projects, saved) matches Some(agent) ==> {
            &&& agent.run.id == saved.run@.id
            &&& agent.run.state == saved.run@.state
            &&& agent.run.native_session_id == saved.run@.native_session_id
            &&& !agent.run.can_stop
            &&& agent.messages == messages_view(saved.messages@)
            &&& agent.terminal_failure == text_of(saved.terminal_failure)
            &&& exists|i: int|
                0 <= i < projects.len() && (#[trigger] projects[i]).id == saved.run.project_id
                    && agent.project_root == projects[i].root && (agent.allow_non_git <==> projects[i].git_policy
                    == ProjectGitPolicy::AllowOutsideGit)
        },
{
    lemma_position(project_ids(projects), saved.run.project_id);
    match position(project_ids(projects), saved.run.project_id) {
        Some(i) => {
            assert(project_ids(projects)[i] == projects[i].id);
        },
        None => {},
    }
}

/// A name that the user gives is the title of the agent; a blank one takes the user's
/// title away.
pub proof fn lemma_names_are_the_users(state: RuntimeView, agent_id: u128, title: Option<Seq<char>>, now: i64)
    ensures
        renamed(state, agent_id, title, now) is Some <==> state.agent(agent_id) is Some,
        state.agent(agent_id) is Some ==> {
            let after = renamed(state, agent_id, title, now)->0.state.agent(agent_id);
            &&& after is Some
            &&& after->0.run.user_title == user_title(title)
            &&& after->0.run.codex_title == state.agent(agent_id)->0.run.codex_title
            &&& after->0.run.state == state.agent(agent_id)->0.run.state
            &&& after->0.run.updated_at == now
        },
{
    lemma_found_agent_has_its_id(state, agent_id);
    if state.agent(agent_id) is Some {
        let i = state.agent_at(agent_id)->0;
        let step = renamed(state, agent_id, title, now)->0;
        lemma_saved_agent_is_found(state, agent_id, step.state.agents[i], agent_id);
    }
}

/// After a restart nothing runs, nothing waits for an answer and nothing is known
/// of other hosts; the notices are those that were saved.
pub proof fn lemma_restarts_begin_quietly(
    projects: Seq<Project>,
    saved: Seq<SavedAgent>,
    attention: Seq<AttentionView>,
    codex_home: Option<Seq<char>>,
    remote_runtime: bool,
)
    ensures
        ({
            let state = restored(projects, saved, attention, codex_home, remote_runtime);
            &&& state.children.len() == 0
            &&& state.permissions.len() == 0
            &&& state.permission_agents.len() == 0
            &&& state.turns.len() == 0
            &&& state.launching.len() == 0
            &&& state.agent_hosts.len() == 0
            &&& state.permission_hosts.len() == 0
            &&& state.attention_hosts.len() == 0
            &&& state.terminal_hosts.len() == 0
            &&& state.host_epochs.len() == 0
            &&& state.attention == attention
            &&& state.codex_home == codex_home
            &&& state.remote_runtime == remote_runtime
            &&& projects.len() > 0 ==> state.projects.contains(projects.last()@)
        }),
{
    if projects.len() > 0 {
        let before = projects_put(projects.drop_last());
        let list = project_put(before, projects.last()@);
        lemma_key_place(before, projects.last()@.key());
        match key_at(before, projects.last()@.key()) {
            Some(i) => {
                assert(list[i] == projects.last()@);
            },
            None => {
                assert(list[before.len() as int] == projects.last()@);
            },
        }
    }
}

proof fn lemma_key_place(projects: Seq<ProjectView>, key: Seq<char>)
    ensures
        key_at(projects, key) matches Some(i) ==> 0 <= i < projects.len(),
    decreases projects.len(),
{
    if projects.len() > 0 {
        lemma_key_place(projects.drop_last(), key);
    }
}

/// A session counts as active until it has come to an end, also while it waits
/// for an answer; a notice counts as unread until it has been read.
pub proof fn lemma_what_is_counted(agent: AgentView, item: AttentionView)
    ensures
        under_way()(agent) <==> !(agent.run.state == AgentState::Completed || agent.run.state
            == AgentState::Failed || agent.run.state == AgentState::Interrupted || agent.run.state
            == AgentState::Stale),
        unread()(item) <==> item.read_at is None,
{
}

/// When the runtime ends, every agent that is under way is saved as interrupted,
/// and no other is saved.
pub proof fn lemma_interrupted_agents_are_saved(agents: Seq<AgentView>, now: i64, i: int)
    requires
        0 <= i < agents.len(),
    ensures
        is_busy_state(agents[i].run.state) ==> halt_effects(agents, now).contains(
            EffectView::SaveAgent {
                run: halted(now)(agents[i]).run,
                failure: halted(now)(agents[i]).terminal_failure,
            },
        ),
        halt_effects(agents, now).len() <= agents.len(),
        (forall|k: int| 0 <= k < agents.len() ==> !is_busy_state((#[trigger] agents[k]).run.state))
            ==> halt_effects(agents, now).len() == 0,
    decreases agents.len(),
{
    let before = agents.drop_last();
    let told = halt_effects(before, now);
    let all = halt_effects(agents, now);
    assert(forall|k: int| 0 <= k < before.len() ==> #[trigger] before[k] == agents[k]);
    assert(agents.last() == agents[agents.len() - 1]);
    if before.len() > 0 {
        lemma_interrupted_agents_are_saved(
            before,
            now,
            if i < before.len() {
                i
            } else {
                0
            },
        );
        if forall|k: int| 0 <= k < agents.len() ==> !is_busy_state((#[trigger] agents[k]).run.state) {
            assert(forall|k: int| 0 <= k < before.len() ==> !is_busy_state((#[trigger] before[k]).run.state));
        }
    }
    if is_busy_state(agents[i].run.state) {
        let effect = EffectView::SaveAgent {
            run: halted(now)(agents[i]).run,
            failure: halted(now)(agents[i]).terminal_failure,
        };
        if i < before.len() {
            let k = choose|k: int| 0 <= k < told.len() && told[k] == effect;
            assert(all[k] == effect);
        } else {
            assert(all[all.len() - 1] == effect);
        }
    }
}

} // verus!
