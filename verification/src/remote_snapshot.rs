//! What is kept of an SSH host after it has shown all that it keeps: its own
//! agents, requests and notices are replaced, and nothing else is touched.

use crate::host_epochs::{epoch_of, epoch_put, lemma_epoch_is_kept, observation};
use crate::kept::{holds_id, keep_masked, lemma_masked_filter, lemma_masked_map};
use crate::model::{
    AgentRun, AttentionView, PermissionRequest, PermissionView, Project, ProjectView, RunView,
    RuntimeAttention,
};
use crate::records::{copy_attention, shown_of};
use crate::remote_hosts::{hosted_agent, permission_put};
use crate::sessions::agent_put;
use crate::state::{
    agent_ids, attention_view, does, effects_view, host_ids, host_of, host_put, lemma_position,
    permissions_view, position, project_ids, projects_view, push_effect, runs_view, AgentRecord,
    AgentView, Effect, EffectView, HostTable, RuntimeState, RuntimeView, ServerEvent,
    ServerEventView, Snapshot, SnapshotView, Step,
};
use crate::text::same_text;
use vstd::prelude::*;

verus! {

/// That a run is of one of some projects.
pub open spec fn run_of_projects(ids: Seq<u128>) -> spec_fn(RunView) -> bool {
    |run: RunView| ids.contains(run.project_id)
}

/// That a request is of one of some projects.
pub open spec fn request_of_projects(ids: Seq<u128>) -> spec_fn(PermissionView) -> bool {
    |request: PermissionView| ids.contains(request.project_id)
}

/// That a notice is of one of some projects or of one of some agents.
pub open spec fn notice_of(projects: Seq<u128>, agents: Seq<u128>) -> spec_fn(AttentionView) -> bool {
    |item: AttentionView|
        (item.project_id matches Some(id) && projects.contains(id)) || (item.agent_id matches Some(id)
            && agents.contains(id))
}

/// The identifiers of some runs.
pub open spec fn run_ids(runs: Seq<RunView>) -> Seq<u128> {
    runs.map_values(|run: RunView| run.id)
}

/// The identifiers of some requests.
pub open spec fn request_ids(list: Seq<PermissionView>) -> Seq<u128> {
    list.map_values(|request: PermissionView| request.id)
}

/// That a thing of a host is not among those that the host shows.
pub open spec fn gone_from(alias: Seq<char>, shown: Seq<u128>) -> spec_fn((u128, Seq<char>)) -> bool {
    |entry: (u128, Seq<char>)| entry.1 == alias && !shown.contains(entry.0)
}

/// The identifiers of the things of a host that it no longer shows.
pub open spec fn gone_ids(entries: Seq<(u128, Seq<char>)>, alias: Seq<char>, shown: Seq<u128>) -> Seq<u128> {
    host_ids(entries.filter(gone_from(alias, shown)))
}

/// That a thing is not among some that are gone.
pub open spec fn stays_hosted(gone: Seq<u128>) -> spec_fn((u128, Seq<char>)) -> bool {
    |entry: (u128, Seq<char>)| !gone.contains(entry.0)
}

/// That an agent is not among some that are gone.
pub open spec fn agent_stays(gone: Seq<u128>) -> spec_fn(AgentView) -> bool {
    |agent: AgentView| !gone.contains(agent.run.id)
}

/// That a request is not among some that are gone.
pub open spec fn request_stays(gone: Seq<u128>) -> spec_fn(PermissionView) -> bool {
    |request: PermissionView| !gone.contains(request.id)
}

/// That a notice is not among some that are gone.
pub open spec fn notice_stays(gone: Seq<u128>) -> spec_fn(AttentionView) -> bool {
    |item: AttentionView| !gone.contains(item.id)
}

/// The table of agents' hosts with some runs of a host.
pub open spec fn hosts_with_runs(entries: Seq<(u128, Seq<char>)>, alias: Seq<char>, ids: Seq<u128>) -> Seq<
    (u128, Seq<char>),
>
    decreases ids.len(),
{
    if ids.len() == 0 {
        entries
    } else {
        host_put(hosts_with_runs(entries, alias, ids.drop_last()), ids.last(), alias)
    }
}

/// The agents with some runs of a host.
pub open spec fn agents_with_runs(agents: Seq<AgentView>, projects: Seq<ProjectView>, runs: Seq<RunView>) -> Seq<
    AgentView,
>
    decreases runs.len(),
{
    if runs.len() == 0 {
        agents
    } else {
        let before = agents_with_runs(agents, projects, runs.drop_last());
        match position(project_ids(projects), runs.last().project_id) {
            Some(i) => agent_put(before, hosted_agent(projects[i], runs.last())),
            None => before,
        }
    }
}

/// The requests with some of a host.
pub open spec fn requests_with(list: Seq<PermissionView>, more: Seq<PermissionView>) -> Seq<PermissionView>
    decreases more.len(),
{
    if more.len() == 0 {
        list
    } else {
        permission_put(requests_with(list, more.drop_last()), more.last())
    }
}

/// The identifiers of some notices.
pub open spec fn notice_ids(list: Seq<AttentionView>) -> Seq<u128> {
    list.map_values(|item: AttentionView| item.id)
}

/// What is kept once a host has shown all that it keeps of some projects.
pub open spec fn host_shown(
    state: RuntimeView,
    alias: Seq<char>,
    projects: Seq<ProjectView>,
    snapshot: SnapshotView,
) -> RuntimeView {
    let ids = project_ids(projects);
    let runs = snapshot.agents.filter(run_of_projects(ids));
    let requests = snapshot.permissions.filter(request_of_projects(ids));
    let notices = snapshot.attention.filter(notice_of(ids, run_ids(runs)));
    let gone_agents = gone_ids(state.agent_hosts, alias, run_ids(runs));
    let gone_requests = gone_ids(state.permission_hosts, alias, request_ids(requests));
    let gone_notices = gone_ids(state.attention_hosts, alias, Seq::empty());
    RuntimeView {
        agent_hosts: hosts_with_runs(
            state.agent_hosts.filter(stays_hosted(gone_agents)),
            alias,
            run_ids(runs),
        ),
        agents: agents_with_runs(state.agents.filter(agent_stays(gone_agents)), projects, runs),
        permission_hosts: hosts_with_runs(
            state.permission_hosts.filter(stays_hosted(gone_requests)),
            alias,
            request_ids(requests),
        ),
        permissions: requests_with(state.permissions.filter(request_stays(gone_requests)), requests),
        attention_hosts: hosts_with_runs(
            state.attention_hosts.filter(stays_hosted(gone_notices)),
            alias,
            notice_ids(notices),
        ),
        attention: state.attention.filter(notice_stays(gone_notices)) + notices,
        ..state
    }
}

/// What is kept and told once a host has shown all that it keeps.
pub open spec fn reconciled(
    state: RuntimeView,
    alias: Seq<char>,
    projects: Seq<ProjectView>,
    epoch: u128,
    snapshot: SnapshotView,
) -> Step {
    let shown = RuntimeView {
        host_epochs: epoch_put(state.host_epochs, alias, epoch),
        ..host_shown(state, alias, projects, snapshot)
    };
    Step {
        state: shown,
        effects: seq![
            EffectView::Tell(ServerEventView::SnapshotReplaced(shown_of(shown))),
            EffectView::Tell(ServerEventView::AttentionSnapshotReplaced(shown.attention)),
        ],
    }
}

// ---- execution ----

impl HostTable {
    /// Forgets the things of a host that it no longer shows, and says which they
    /// were.
    fn forget_gone(&mut self, alias: &str, shown: &Vec<u128>) -> (r: Vec<u128>)
        ensures
            r@ == gone_ids(old(self)@, alias@, shown@),
            final(self)@ == old(self)@.filter(stays_hosted(r@)),
    {
        let ghost views = self@;
        let ghost gone = gone_from(alias@, shown@);
        let mut ids: Vec<u128> = Vec::new();
        let mut i: usize = 0;
        proof {
            reveal(Seq::filter);
            assert(views.take(0) =~= Seq::empty());
            assert(host_ids(views.take(0).filter(gone)) =~= Seq::empty());
        }
        while i < self.entries.len()
            invariant
                0 <= i <= self.entries.len(),
                views == self@,
                gone == gone_from(alias@, shown@),
                ids@ == host_ids(views.take(i as int).filter(gone)),
            decreases self.entries.len() - i,
        {
            let ghost before = views.take(i as int).filter(gone);
            proof {
                reveal(Seq::filter);
                assert(views.take(i + 1).drop_last() =~= views.take(i as int));
                assert(views.take(i + 1).last() == (
                    self.entries@[i as int].0,
                    self.entries@[i as int].1@,
                ));
            }
            if same_text(self.entries[i].1.as_str(), alias) && !holds_id(shown, self.entries[i].0) {
                ids.push(self.entries[i].0);
                assert(host_ids(before.push(views[i as int])) =~= host_ids(before).push(
                    views[i as int].0,
                ));
            }
            i += 1;
        }
        assert(views.take(views.len() as int) =~= views);
        let ghost keep = stays_hosted(ids@);
        let mut mask: Vec<bool> = Vec::new();
        let mut j: usize = 0;
        while j < self.entries.len()
            invariant
                0 <= j <= self.entries.len(),
                views == self@,
                keep == stays_hosted(ids@),
                mask.len() == j,
                forall|k: int| 0 <= k < j ==> #[trigger] mask@[k] == keep(views[k]),
            decreases self.entries.len() - j,
        {
            mask.push(!holds_id(&ids, self.entries[j].0));
            j += 1;
        }
        proof {
            lemma_masked_filter(views, mask@, keep);
            lemma_masked_map(self.entries@, mask@, |entry: (u128, String)| (entry.0, entry.1@));
        }
        keep_masked(&mut self.entries, &mask);
        ids
    }

    /// Sets the host of some things.
    fn put_all(&mut self, ids: &Vec<u128>, alias: &str)
        ensures
            final(self)@ == hosts_with_runs(old(self)@, alias@, ids@),
    {
        let ghost before = self@;
        let mut i: usize = 0;
        assert(ids@.take(0) =~= Seq::empty());
        while i < ids.len()
            invariant
                0 <= i <= ids.len(),
                self@ == hosts_with_runs(before, alias@, ids@.take(i as int)),
            decreases ids.len() - i,
        {
            assert(ids@.take(i + 1).drop_last() =~= ids@.take(i as int));
            self.put(ids[i], alias);
            i += 1;
        }
        assert(ids@.take(ids@.len() as int) =~= ids@);
    }
}

/// The identifiers of some projects.
fn ids_of_projects(projects: &Vec<Project>) -> (r: Vec<u128>)
    ensures
        r@ == project_ids(projects_view(projects@)),
{
    let mut ids: Vec<u128> = Vec::new();
    let mut i: usize = 0;
    while i < projects.len()
        invariant
            0 <= i <= projects.len(),
            ids.len() == i,
            forall|k: int| 0 <= k < i ==> #[trigger] ids@[k] == projects@[k].id,
        decreases projects.len() - i,
    {
        ids.push(projects[i].id);
        i += 1;
    }
    assert(ids@ =~= project_ids(projects_view(projects@)));
    ids
}

/// The runs of some projects, and their identifiers.
fn runs_of_projects(runs: &Vec<AgentRun>, ids: &Vec<u128>) -> (r: (Vec<AgentRun>, Vec<u128>))
    ensures
        runs_view(r.0@) == runs_view(runs@).filter(run_of_projects(ids@)),
        r.1@ == run_ids(runs_view(r.0@)),
{
    let ghost views = runs_view(runs@);
    let ghost keep = run_of_projects(ids@);
    let mut kept: Vec<AgentRun> = Vec::new();
    let mut kept_ids: Vec<u128> = Vec::new();
    let mut i: usize = 0;
    proof {
        reveal(Seq::filter);
        assert(views.take(0) =~= Seq::empty());
        assert(runs_view(kept@) =~= Seq::empty());
    }
    while i < runs.len()
        invariant
            0 <= i <= runs.len(),
            views == runs_view(runs@),
            keep == run_of_projects(ids@),
            runs_view(kept@) == views.take(i as int).filter(keep),
            kept_ids@ == run_ids(runs_view(kept@)),
        decreases runs.len() - i,
    {
        let ghost before = runs_view(kept@);
        let ghost before_ids = kept_ids@;
        proof {
            reveal(Seq::filter);
            assert(views.take(i + 1).drop_last() =~= views.take(i as int));
            assert(views.take(i + 1).last() == runs@[i as int]@);
        }
        if holds_id(ids, runs[i].project_id) {
            kept.push(runs[i].copy());
            kept_ids.push(runs[i].id);
            assert(runs_view(kept@) =~= before.push(views[i as int]));
            assert(kept_ids@ =~= run_ids(runs_view(kept@)));
        }
        i += 1;
    }
    assert(views.take(views.len() as int) =~= views);
    (kept, kept_ids)
}

/// The requests of some projects, and their identifiers.
fn requests_of_projects(requests: &Vec<PermissionRequest>, ids: &Vec<u128>) -> (r: (
    Vec<PermissionRequest>,
    Vec<u128>,
))
    ensures
        permissions_view(r.0@) == permissions_view(requests@).filter(request_of_projects(ids@)),
        r.1@ == request_ids(permissions_view(r.0@)),
{
    let ghost views = permissions_view(requests@);
    let ghost keep = request_of_projects(ids@);
    let mut kept: Vec<PermissionRequest> = Vec::new();
    let mut kept_ids: Vec<u128> = Vec::new();
    let mut i: usize = 0;
    proof {
        reveal(Seq::filter);
        assert(views.take(0) =~= Seq::empty());
        assert(permissions_view(kept@) =~= Seq::empty());
    }
    while i < requests.len()
        invariant
            0 <= i <= requests.len(),
            views == permissions_view(requests@),
            keep == request_of_projects(ids@),
            permissions_view(kept@) == views.take(i as int).filter(keep),
            kept_ids@ == request_ids(permissions_view(kept@)),
        decreases requests.len() - i,
    {
        let ghost before = permissions_view(kept@);
        proof {
            reveal(Seq::filter);
            assert(views.take(i + 1).drop_last() =~= views.take(i as int));
            assert(views.take(i + 1).last() == requests@[i as int]@);
        }
        if holds_id(ids, requests[i].project_id) {
            kept.push(requests[i].copy());
            kept_ids.push(requests[i].id);
            assert(permissions_view(kept@) =~= before.push(views[i as int]));
            assert(kept_ids@ =~= request_ids(permissions_view(kept@)));
        }
        i += 1;
    }
    assert(views.take(views.len() as int) =~= views);
    (kept, kept_ids)
}

/// The notices of some projects or agents, and their identifiers.
fn notices_of(notices: &Vec<RuntimeAttention>, projects: &Vec<u128>, agents: &Vec<u128>) -> (r: (
    Vec<RuntimeAttention>,
    Vec<u128>,
))
    ensures
        attention_view(r.0@) == attention_view(notices@).filter(notice_of(projects@, agents@)),
        r.1@ == notice_ids(attention_view(r.0@)),
{
    let ghost views = attention_view(notices@);
    let ghost keep = notice_of(projects@, agents@);
    let mut kept: Vec<RuntimeAttention> = Vec::new();
    let mut kept_ids: Vec<u128> = Vec::new();
    let mut i: usize = 0;
    proof {
        reveal(Seq::filter);
        assert(views.take(0) =~= Seq::empty());
        assert(attention_view(kept@) =~= Seq::empty());
    }
    while i < notices.len()
        invariant
            0 <= i <= notices.len(),
            views == attention_view(notices@),
            keep == notice_of(projects@, agents@),
            attention_view(kept@) == views.take(i as int).filter(keep),
            kept_ids@ == notice_ids(attention_view(kept@)),
        decreases notices.len() - i,
    {
        let ghost before = attention_view(kept@);
        proof {
            reveal(Seq::filter);
            assert(views.take(i + 1).drop_last() =~= views.take(i as int));
            assert(views.take(i + 1).last() == notices@[i as int]@);
        }
        let of_project = match notices[i].project_id {
            Some(id) => holds_id(projects, id),
            None => false,
        };
        let of_agent = match notices[i].agent_id {
            Some(id) => holds_id(agents, id),
            None => false,
        };
        if of_project || of_agent {
            kept.push(notices[i].copy());
            kept_ids.push(notices[i].id);
            assert(attention_view(kept@) =~= before.push(views[i as int]));
            assert(kept_ids@ =~= notice_ids(attention_view(kept@)));
        }
        i += 1;
    }
    assert(views.take(views.len() as int) =~= views);
    (kept, kept_ids)
}

/// The place of a project in a list.
fn place_of_project(projects: &Vec<Project>, id: u128) -> (r: Option<usize>)
    ensures
        match r {
            Some(i) => i < projects.len() && position(project_ids(projects_view(projects@)), id) == Some(
                i as int,
            ),
            None => position(project_ids(projects_view(projects@)), id) is None,
        },
{
    let ghost ids = project_ids(projects_view(projects@));
    let mut i: usize = 0;
    assert(ids.take(0) =~= Seq::empty());
    while i < projects.len()
        invariant
            0 <= i <= projects.len(),
            ids == project_ids(projects_view(projects@)),
            position(ids.take(i as int), id) is None,
        decreases projects.len() - i,
    {
        assert(ids.take(i + 1).drop_last() =~= ids.take(i as int));
        assert(ids.take(i + 1).last() == projects@[i as int].id);
        if projects[i].id == id {
            proof {
                crate::state::lemma_position_found(ids, id, i + 1);
            }
            return Some(i);
        }
        i += 1;
    }
    assert(ids.take(ids.len() as int) =~= ids);
    None
}

impl RuntimeState {
    /// Takes some agents away.
    fn drop_gone_agents(&mut self, gone: &Vec<u128>)
        ensures
            final(self)@ == (RuntimeView {
                agents: old(self)@.agents.filter(agent_stays(gone@)),
                ..old(self)@
            }),
    {
        let ghost views = self@.agents;
        let ghost keep = agent_stays(gone@);
        let mut mask: Vec<bool> = Vec::new();
        let mut i: usize = 0;
        while i < self.agents.len()
            invariant
                0 <= i <= self.agents.len(),
                views == self@.agents,
                keep == agent_stays(gone@),
                mask.len() == i,
                forall|k: int| 0 <= k < i ==> #[trigger] mask@[k] == keep(views[k]),
            decreases self.agents.len() - i,
        {
            mask.push(!holds_id(gone, self.agents[i].run.id));
            i += 1;
        }
        proof {
            lemma_masked_filter(views, mask@, keep);
            lemma_masked_map(self.agents@, mask@, |record: AgentRecord| record@);
        }
        keep_masked(&mut self.agents, &mask);
    }

    /// Takes some requests away.
    fn drop_gone_requests(&mut self, gone: &Vec<u128>)
        ensures
            final(self)@ == (RuntimeView {
                permissions: old(self)@.permissions.filter(request_stays(gone@)),
                ..old(self)@
            }),
    {
        let ghost views = self@.permissions;
        let ghost keep = request_stays(gone@);
        let mut mask: Vec<bool> = Vec::new();
        let mut i: usize = 0;
        while i < self.permissions.len()
            invariant
                0 <= i <= self.permissions.len(),
                views == self@.permissions,
                keep == request_stays(gone@),
                mask.len() == i,
                forall|k: int| 0 <= k < i ==> #[trigger] mask@[k] == keep(views[k]),
            decreases self.permissions.len() - i,
        {
            mask.push(!holds_id(gone, self.permissions[i].id));
            i += 1;
        }
        proof {
            lemma_masked_filter(views, mask@, keep);
            lemma_masked_map(self.permissions@, mask@, |request: PermissionRequest| request@);
        }
        keep_masked(&mut self.permissions, &mask);
    }

    /// Takes some notices away.
    fn drop_gone_notices(&mut self, gone: &Vec<u128>)
        ensures
            final(self)@ == (RuntimeView {
                attention: old(self)@.attention.filter(notice_stays(gone@)),
                ..old(self)@
            }),
    {
        let ghost views = self@.attention;
        let ghost keep = notice_stays(gone@);
        let mut mask: Vec<bool> = Vec::new();
        let mut i: usize = 0;
        while i < self.attention.len()
            invariant
                0 <= i <= self.attention.len(),
                views == self@.attention,
                keep == notice_stays(gone@),
                mask.len() == i,
                forall|k: int| 0 <= k < i ==> #[trigger] mask@[k] == keep(views[k]),
            decreases self.attention.len() - i,
        {
            mask.push(!holds_id(gone, self.attention[i].id));
            i += 1;
        }
        proof {
            lemma_masked_filter(views, mask@, keep);
            lemma_masked_map(self.attention@, mask@, |item: RuntimeAttention| item@);
        }
        keep_masked(&mut self.attention, &mask);
    }

    /// Puts the agents of some runs of a host.
    fn put_runs(&mut self, projects: &Vec<Project>, runs: &Vec<AgentRun>)
        ensures
            final(self)@ == (RuntimeView {
                agents: agents_with_runs(
                    old(self)@.agents,
                    projects_view(projects@),
                    runs_view(runs@),
                ),
                ..old(self)@
            }),
    {
        let ghost before = self@;
        let ghost views = runs_view(runs@);
        let ghost known = projects_view(projects@);
        let mut i: usize = 0;
        assert(views.take(0) =~= Seq::empty());
        while i < runs.len()
            invariant
                0 <= i <= runs.len(),
                views == runs_view(runs@),
                known == projects_view(projects@),
                self@ == (RuntimeView {
                    agents: agents_with_runs(before.agents, known, views.take(i as int)),
                    ..before
                }),
            decreases runs.len() - i,
        {
            proof {
                assert(views.take(i + 1).drop_last() =~= views.take(i as int));
                assert(views.take(i + 1).last() == runs@[i as int]@);
            }
            if let Some(k) = place_of_project(projects, runs[i].project_id) {
                let project = &projects[k];
                let record = AgentRecord {
                    run: runs[i].copy(),
                    project_root: project.root.clone(),
                    allow_non_git: matches!(
                        project.git_policy,
                        crate::model::ProjectGitPolicy::AllowOutsideGit
                    ),
                    messages: Vec::new(),
                    terminal_failure: None,
                };
                assert(record@.messages =~= Seq::empty());
                assert(record@ == hosted_agent(known[k as int], views[i as int]));
                self.put_agent(record);
            }
            i += 1;
        }
        assert(views.take(views.len() as int) =~= views);
    }

    /// Puts some requests of a host.
    fn put_requests(&mut self, requests: Vec<PermissionRequest>)
        ensures
            final(self)@ == (RuntimeView {
                permissions: requests_with(old(self)@.permissions, permissions_view(requests@)),
                ..old(self)@
            }),
    {
        let ghost before = self@;
        let ghost views = permissions_view(requests@);
        let mut i: usize = 0;
        assert(views.take(0) =~= Seq::empty());
        while i < requests.len()
            invariant
                0 <= i <= requests.len(),
                views == permissions_view(requests@),
                self@ == (RuntimeView {
                    permissions: requests_with(before.permissions, views.take(i as int)),
                    ..before
                }),
            decreases requests.len() - i,
        {
            proof {
                assert(views.take(i + 1).drop_last() =~= views.take(i as int));
                assert(views.take(i + 1).last() == requests@[i as int]@);
            }
            self.put_permission(requests[i].copy());
            i += 1;
        }
        assert(views.take(views.len() as int) =~= views);
    }

    /// Keeps what a host has shown of some projects, with the epoch of the runtime
    /// that showed it, and tells it. Says what is observed of the host.
    pub fn reconcile_remote_snapshot(
        &mut self,
        alias: &str,
        projects: &Vec<Project>,
        epoch: u128,
        snapshot: &Snapshot,
        effects: &mut Vec<Effect>,
    ) -> (r: Option<Option<&'static str>>)
        ensures
            does(
                old(effects)@,
                *final(self),
                final(effects)@,
                reconciled(old(self)@, alias@, projects_view(projects@), epoch, snapshot@),
            ),
            epoch_of(final(self)@.host_epochs, alias@) == Some(epoch),
            match observation(old(self)@.host_epochs, alias@, epoch) {
                None => r is None,
                Some(None) => r matches Some(detail) && detail is None,
                Some(Some(text)) => r matches Some(Some(detail)) && detail@ == text,
            },
    {
        let ghost told = effects_view(effects@);
        let ghost before = self@;
        let ghost step = reconciled(before, alias@, projects_view(projects@), epoch, snapshot@);
        proof {
            lemma_epoch_is_kept(before.host_epochs, alias@, epoch, alias@);
        }
        let observed = self.host_epochs.note(alias, epoch);
        let ids = ids_of_projects(projects);
        let (runs, run_ids) = runs_of_projects(&snapshot.agents, &ids);
        let (requests, request_ids) = requests_of_projects(&snapshot.permissions, &ids);
        let (notices, notice_ids) = notices_of(&snapshot.attention, &ids, &run_ids);

        let gone_agents = self.agent_hosts.forget_gone(alias, &run_ids);
        self.drop_gone_agents(&gone_agents);
        self.agent_hosts.put_all(&run_ids, alias);
        self.put_runs(projects, &runs);

        let gone_requests = self.permission_hosts.forget_gone(alias, &request_ids);
        self.drop_gone_requests(&gone_requests);
        self.permission_hosts.put_all(&request_ids, alias);
        self.put_requests(requests);

        let none: Vec<u128> = Vec::new();
        let gone_notices = self.attention_hosts.forget_gone(alias, &none);
        self.drop_gone_notices(&gone_notices);
        self.attention_hosts.put_all(&notice_ids, alias);
        let ghost kept = self@.attention;
        let ghost shown = attention_view(notices@);
        let mut notices = notices;
        self.attention.append(&mut notices);
        assert(self@.attention =~= kept + shown);
        assert(self@ == step.state);

        push_effect(effects, Effect::Tell(ServerEvent::SnapshotReplaced(self.snapshot())));
        let attention = copy_attention(&self.attention);
        push_effect(effects, Effect::Tell(ServerEvent::AttentionSnapshotReplaced(attention)));
        assert(effects_view(effects@) =~= told + step.effects);
        observed
    }
}

// ---- laws ----

proof fn lemma_filter_keeps<T>(list: Seq<T>, keep: spec_fn(T) -> bool, i: int)
    requires
        0 <= i < list.len(),
        keep(list[i]),
    ensures
        list.filter(keep).contains(list[i]),
    decreases list.len(),
{
    reveal(Seq::filter);
    let rest = list.drop_last().filter(keep);
    if i == list.len() - 1 {
        assert(list.filter(keep) == rest.push(list[i]));
        assert(rest.push(list[i])[rest.len() as int] == list[i]);
    } else {
        lemma_filter_keeps(list.drop_last(), keep, i);
        let k = choose|k: int| 0 <= k < rest.len() && rest[k] == list[i];
        assert(list.filter(keep)[k] == list[i]);
    }
}

proof fn lemma_filter_only<T>(list: Seq<T>, keep: spec_fn(T) -> bool, i: int)
    requires
        0 <= i < list.filter(keep).len(),
    ensures
        keep(list.filter(keep)[i]),
        list.contains(list.filter(keep)[i]),
    decreases list.len(),
{
    reveal(Seq::filter);
    if list.len() > 0 {
        let rest = list.drop_last().filter(keep);
        if i < rest.len() {
            lemma_filter_only(list.drop_last(), keep, i);
            assert(list.filter(keep)[i] == rest[i]);
            let k = choose|k: int| 0 <= k < list.drop_last().len() && list.drop_last()[k] == rest[i];
            assert(list[k] == rest[i]);
        } else {
            assert(list.filter(keep)[i] == list.last());
        }
    }
}

proof fn lemma_put_keeps_others(agents: Seq<AgentView>, agent: AgentView, other: AgentView)
    requires
        agents.contains(other),
        other.run.id != agent.run.id,
    ensures
        agent_put(agents, agent).contains(other),
{
    lemma_position(agent_ids(agents), agent.run.id);
    let k = choose|k: int| 0 <= k < agents.len() && agents[k] == other;
    assert(agent_ids(agents)[k] == other.run.id);
    assert(agent_put(agents, agent)[k] == other);
}

proof fn lemma_runs_keep_others(agents: Seq<AgentView>, projects: Seq<ProjectView>, runs: Seq<RunView>, other: AgentView)
    requires
        agents.contains(other),
        !run_ids(runs).contains(other.run.id),
    ensures
        agents_with_runs(agents, projects, runs).contains(other),
    decreases runs.len(),
{
    if runs.len() > 0 {
        assert forall|k: int| 0 <= k < runs.len() implies runs[k].id != other.run.id by {
            assert(run_ids(runs)[k] == runs[k].id);
        }
        assert(!run_ids(runs.drop_last()).contains(other.run.id)) by {
            if run_ids(runs.drop_last()).contains(other.run.id) {
                let k = choose|k: int|
                    0 <= k < runs.drop_last().len() && run_ids(runs.drop_last())[k] == other.run.id;
                assert(runs[k].id == other.run.id);
            }
        }
        lemma_runs_keep_others(agents, projects, runs.drop_last(), other);
        let before = agents_with_runs(agents, projects, runs.drop_last());
        match position(project_ids(projects), runs.last().project_id) {
            Some(i) => {
                assert(runs[runs.len() - 1].id != other.run.id);
                lemma_put_keeps_others(before, hosted_agent(projects[i], runs.last()), other);
            },
            None => {},
        }
    }
}

/// What a host shows touches nobody else's agents: an agent that is not the
/// host's, and that the host does not show, stays as it is.
pub proof fn lemma_other_agents_stay(
    state: RuntimeView,
    alias: Seq<char>,
    projects: Seq<ProjectView>,
    snapshot: SnapshotView,
    agent: AgentView,
)
    requires
        state.agents.contains(agent),
        forall|i: int|
            0 <= i < state.agent_hosts.len() && (#[trigger] state.agent_hosts[i]).0 == agent.run.id
                ==> state.agent_hosts[i].1 != alias,
        !run_ids(snapshot.agents.filter(run_of_projects(project_ids(projects)))).contains(agent.run.id),
    ensures
        host_shown(state, alias, projects, snapshot).agents.contains(agent),
{
    let runs = snapshot.agents.filter(run_of_projects(project_ids(projects)));
    let gone = gone_ids(state.agent_hosts, alias, run_ids(runs));
    if gone.contains(agent.run.id) {
        let entries = state.agent_hosts.filter(gone_from(alias, run_ids(runs)));
        let k = choose|k: int| 0 <= k < gone.len() && gone[k] == agent.run.id;
        lemma_filter_only(state.agent_hosts, gone_from(alias, run_ids(runs)), k);
        assert(gone[k] == entries[k].0);
        let m = choose|m: int| 0 <= m < state.agent_hosts.len() && state.agent_hosts[m] == entries[k];
        assert(state.agent_hosts[m].0 == agent.run.id);
    }
    let i = choose|i: int| 0 <= i < state.agents.len() && state.agents[i] == agent;
    lemma_filter_keeps(state.agents, agent_stays(gone), i);
    lemma_runs_keep_others(state.agents.filter(agent_stays(gone)), projects, runs, agent);
}

proof fn lemma_hosted_are_shown(
    entries: Seq<(u128, Seq<char>)>,
    alias: Seq<char>,
    ids: Seq<u128>,
    shown: Seq<u128>,
)
    requires
        forall|i: int|
            0 <= i < entries.len() && (#[trigger] entries[i]).1 == alias ==> shown.contains(entries[i].0),
        forall|i: int| 0 <= i < ids.len() ==> shown.contains(#[trigger] ids[i]),
    ensures
        forall|i: int|
            0 <= i < hosts_with_runs(entries, alias, ids).len() && (#[trigger] hosts_with_runs(
                entries,
                alias,
                ids,
            )[i]).1 == alias ==> shown.contains(hosts_with_runs(entries, alias, ids)[i].0),
    decreases ids.len(),
{
    if ids.len() > 0 {
        assert forall|i: int| 0 <= i < ids.drop_last().len() implies shown.contains(
            #[trigger] ids.drop_last()[i],
        ) by {
            assert(ids.drop_last()[i] == ids[i]);
        }
        lemma_hosted_are_shown(entries, alias, ids.drop_last(), shown);
        let before = hosts_with_runs(entries, alias, ids.drop_last());
        lemma_position(host_ids(before), ids.last());
        assert(shown.contains(ids[ids.len() - 1]));
        let result = host_put(before, ids.last(), alias);
        assert forall|i: int| 0 <= i < result.len() && (#[trigger] result[i]).1 == alias implies shown.contains(
            result[i].0,
        ) by {
            if result[i] != (ids.last(), alias) {
                assert(result[i] == before[i]);
            }
        }
    }
}

/// What stays at a host is what it shows.
proof fn lemma_kept_are_shown(entries: Seq<(u128, Seq<char>)>, alias: Seq<char>, shown: Seq<u128>)
    ensures
        ({
            let kept = entries.filter(stays_hosted(gone_ids(entries, alias, shown)));
            forall|i: int|
                0 <= i < kept.len() && (#[trigger] kept[i]).1 == alias ==> shown.contains(kept[i].0)
        }),
{
    let gone = gone_ids(entries, alias, shown);
    let kept = entries.filter(stays_hosted(gone));
    assert forall|i: int| 0 <= i < kept.len() && (#[trigger] kept[i]).1 == alias implies shown.contains(
        kept[i].0,
    ) by {
        lemma_filter_only(entries, stays_hosted(gone), i);
        if !shown.contains(kept[i].0) {
            let m = choose|m: int| 0 <= m < entries.len() && entries[m] == kept[i];
            lemma_filter_keeps(entries, gone_from(alias, shown), m);
            let left = entries.filter(gone_from(alias, shown));
            let k = choose|k: int| 0 <= k < left.len() && left[k] == kept[i];
            assert(gone[k] == kept[i].0);
        }
    }
}

/// What a host shows is all that is kept of it: every agent that is taken for the
/// host's afterwards is one that it showed.
pub proof fn lemma_host_truth_wins(
    state: RuntimeView,
    alias: Seq<char>,
    projects: Seq<ProjectView>,
    snapshot: SnapshotView,
)
    ensures
        ({
            let shown = run_ids(snapshot.agents.filter(run_of_projects(project_ids(projects))));
            let hosts = host_shown(state, alias, projects, snapshot).agent_hosts;
            forall|i: int|
                0 <= i < hosts.len() && (#[trigger] hosts[i]).1 == alias ==> shown.contains(hosts[i].0)
        }),
{
    let shown = run_ids(snapshot.agents.filter(run_of_projects(project_ids(projects))));
    let kept = state.agent_hosts.filter(stays_hosted(gone_ids(state.agent_hosts, alias, shown)));
    lemma_kept_are_shown(state.agent_hosts, alias, shown);
    assert forall|i: int| 0 <= i < shown.len() implies shown.contains(#[trigger] shown[i]) by {}
    lemma_hosted_are_shown(kept, alias, shown, shown);
}

/// Putting things at a host leaves each of them there.
proof fn lemma_shown_are_hosted(entries: Seq<(u128, Seq<char>)>, alias: Seq<char>, ids: Seq<u128>, id: u128)
    requires
        ids.contains(id),
    ensures
        host_of(hosts_with_runs(entries, alias, ids), id) == Some(alias),
    decreases ids.len(),
{
    let before = hosts_with_runs(entries, alias, ids.drop_last());
    let after = host_put(before, ids.last(), alias);
    let k = choose|k: int| 0 <= k < ids.len() && ids[k] == id;
    lemma_host_put(before, ids.last(), alias, id);
    if id != ids.last() {
        assert(ids.drop_last()[k] == id);
        lemma_shown_are_hosted(entries, alias, ids.drop_last(), id);
    }
    assert(hosts_with_runs(entries, alias, ids) == after);
}

/// The host of a thing once one is set.
proof fn lemma_host_put(entries: Seq<(u128, Seq<char>)>, set: u128, alias: Seq<char>, id: u128)
    ensures
        host_of(host_put(entries, set, alias), id) == (if id == set {
            Some(alias)
        } else {
            host_of(entries, id)
        }),
{
    let after = host_put(entries, set, alias);
    lemma_position(host_ids(entries), set);
    if position(host_ids(entries), set) is Some {
        assert(host_ids(after) =~= host_ids(entries));
        lemma_position(host_ids(entries), id);
    } else {
        assert(host_ids(after).drop_last() =~= host_ids(entries));
        lemma_position(host_ids(entries), id);
    }
}

/// Every snapshot of a host replaces what is kept of it: the agents and requests
/// that are taken for the host's are exactly those of its projects that it showed,
/// and its epoch is the one that it showed.
pub proof fn lemma_snapshot_replaces_the_cache(
    state: RuntimeView,
    alias: Seq<char>,
    projects: Seq<ProjectView>,
    epoch: u128,
    snapshot: SnapshotView,
    id: u128,
)
    ensures
        ({
            let after = reconciled(state, alias, projects, epoch, snapshot).state;
            let ids = project_ids(projects);
            &&& epoch_of(after.host_epochs, alias) == Some(epoch)
            &&& host_of(after.agent_hosts, id) == Some(alias) <==> run_ids(
                snapshot.agents.filter(run_of_projects(ids)),
            ).contains(id)
            &&& host_of(after.permission_hosts, id) == Some(alias) <==> request_ids(
                snapshot.permissions.filter(request_of_projects(ids)),
            ).contains(id)
        }),
{
    let ids = project_ids(projects);
    let runs = run_ids(snapshot.agents.filter(run_of_projects(ids)));
    let requests = request_ids(snapshot.permissions.filter(request_of_projects(ids)));
    lemma_epoch_is_kept(state.host_epochs, alias, epoch, alias);
    lemma_table_is_replaced(state.agent_hosts, alias, runs, id);
    lemma_table_is_replaced(state.permission_hosts, alias, requests, id);
}

/// What is taken for a host's after it has shown some things is what it showed.
proof fn lemma_table_is_replaced(
    entries: Seq<(u128, Seq<char>)>,
    alias: Seq<char>,
    shown: Seq<u128>,
    id: u128,
)
    ensures
        host_of(
            hosts_with_runs(entries.filter(stays_hosted(gone_ids(entries, alias, shown))), alias, shown),
            id,
        ) == Some(alias) <==> shown.contains(id),
{
    let gone = gone_ids(entries, alias, shown);
    let kept = entries.filter(stays_hosted(gone));
    let after = hosts_with_runs(kept, alias, shown);
    if shown.contains(id) {
        lemma_shown_are_hosted(kept, alias, shown, id);
    }
    lemma_kept_are_shown(entries, alias, shown);
    assert forall|i: int| 0 <= i < shown.len() implies shown.contains(#[trigger] shown[i]) by {}
    lemma_hosted_are_shown(kept, alias, shown, shown);
    lemma_position(host_ids(after), id);
    if host_of(after, id) == Some(alias) {
        let i = position(host_ids(after), id)->0;
        assert(host_ids(after)[i] == after[i].0);
        assert(after[i].1 == alias);
    }
}

/// What a host shows of the projects that are its own is kept as it shows it: its
/// notices are all there, and nothing of other projects is taken over.
pub proof fn lemma_shown_notices_are_kept(
    state: RuntimeView,
    alias: Seq<char>,
    projects: Seq<ProjectView>,
    snapshot: SnapshotView,
    i: int,
)
    requires
        0 <= i < snapshot.attention.len(),
        snapshot.attention[i].project_id is Some,
        project_ids(projects).contains(snapshot.attention[i].project_id->0),
    ensures
        host_shown(state, alias, projects, snapshot).attention.contains(snapshot.attention[i]),
{
    let ids = project_ids(projects);
    let runs = snapshot.agents.filter(run_of_projects(ids));
    let keep = notice_of(ids, run_ids(runs));
    assert(keep(snapshot.attention[i]));
    lemma_filter_keeps(snapshot.attention, keep, i);
    let notices = snapshot.attention.filter(keep);
    let at = choose|at: int| 0 <= at < notices.len() && notices[at] == snapshot.attention[i];
    let all = host_shown(state, alias, projects, snapshot).attention;
    let before = all.len() - notices.len();
    assert(all[before + at] == notices[at]);
}

/// What is kept once a host has shown itself is told to everybody at once.
pub proof fn lemma_shown_hosts_are_told(
    state: RuntimeView,
    alias: Seq<char>,
    projects: Seq<ProjectView>,
    epoch: u128,
    snapshot: SnapshotView,
)
    ensures
        ({
            let step = reconciled(state, alias, projects, epoch, snapshot);
            &&& step.effects.len() == 2
            &&& step.effects[0] == EffectView::Tell(ServerEventView::SnapshotReplaced(shown_of(step.state)))
            &&& step.effects[1] == EffectView::Tell(
                ServerEventView::AttentionSnapshotReplaced(step.state.attention),
            )
            &&& step.state.projects == state.projects
            &&& step.state.children == state.children
        }),
{
}

} // verus!
