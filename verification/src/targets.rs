//! What is on which SSH host: notices that are read by host, hosts that are
//! asked, and projects that are created.

use crate::model::{
    error_of, protocol_error, ErrorView, Project, ProjectExecutionTarget, ProjectGitPolicy,
    ProjectView, ProtocolError, TargetView,
};
use crate::sessions::{key_at, project_put};
use crate::state::{
    attention_ids, does, effects_view, host_of, projects_view, push_effect, Effect, EffectView,
    RuntimeState, RuntimeView, ServerEvent, ServerEventView, Step,
};
use crate::text::{lossy_text, same_text, text_lossy, texts_of, trim, trimmed};
use vstd::prelude::*;

verus! {

// ---- things by host ----

/// Things of one host.
#[derive(Debug)]
pub struct HostGroup {
    pub alias: String,
    pub ids: Vec<u128>,
}

/// The mathematical value of groups.
pub open spec fn groups_view(groups: Seq<HostGroup>) -> Seq<(Seq<char>, Seq<u128>)> {
    groups.map_values(|group: HostGroup| (group.alias@, group.ids@))
}

/// The place of a host's group.
pub open spec fn group_at(groups: Seq<(Seq<char>, Seq<u128>)>, alias: Seq<char>) -> Option<int>
    decreases groups.len(),
{
    if groups.len() == 0 {
        None
    } else {
        match group_at(groups.drop_last(), alias) {
            Some(i) => Some(i),
            None => if groups.last().0 == alias {
                Some(groups.len() - 1)
            } else {
                None
            },
        }
    }
}

/// The groups with one thing more, at the end of its host's group.
pub open spec fn group_put(groups: Seq<(Seq<char>, Seq<u128>)>, alias: Seq<char>, id: u128) -> Seq<
    (Seq<char>, Seq<u128>),
> {
    match group_at(groups, alias) {
        Some(i) => groups.update(i, (alias, groups[i].1.push(id))),
        None => groups.push((alias, seq![id])),
    }
}

/// Things by host, the hosts in the order in which they first occur.
pub open spec fn grouped(hosts: Seq<(u128, Seq<char>)>, ids: Seq<u128>) -> Seq<(Seq<char>, Seq<u128>)>
    decreases ids.len(),
{
    if ids.len() == 0 {
        Seq::empty()
    } else {
        let before = grouped(hosts, ids.drop_last());
        match host_of(hosts, ids.last()) {
            Some(alias) => group_put(before, alias, ids.last()),
            None => before,
        }
    }
}

/// That a thing is on no host.
pub open spec fn on_no_host(hosts: Seq<(u128, Seq<char>)>) -> spec_fn(u128) -> bool {
    |id: u128| host_of(hosts, id) is None
}

/// That a thing is on a host.
pub open spec fn on_host(hosts: Seq<(u128, Seq<char>)>, alias: Seq<char>) -> spec_fn(u128) -> bool {
    |id: u128| host_of(hosts, id) == Some(alias)
}

proof fn lemma_group_at(groups: Seq<(Seq<char>, Seq<u128>)>, alias: Seq<char>)
    ensures
        match group_at(groups, alias) {
            Some(i) => 0 <= i < groups.len() && groups[i].0 == alias && forall|k: int|
                0 <= k < i ==> (#[trigger] groups[k]).0 != alias,
            None => forall|k: int| 0 <= k < groups.len() ==> (#[trigger] groups[k]).0 != alias,
        },
    decreases groups.len(),
{
    if groups.len() > 0 {
        let shorter = groups.drop_last();
        lemma_group_at(shorter, alias);
        assert forall|k: int| 0 <= k < shorter.len() implies groups[k] == #[trigger] shorter[k] by {}
        match group_at(shorter, alias) {
            Some(_) => {
                assert forall|k: int| 0 <= k < group_at(shorter, alias)->0 implies (
                #[trigger] groups[k]).0 != alias by {
                    assert(shorter[k].0 != alias);
                }
            },
            None => {
                assert forall|k: int| 0 <= k < shorter.len() implies (#[trigger] groups[k]).0
                    != alias by {
                    assert(shorter[k].0 != alias);
                }
            },
        }
    }
}

proof fn lemma_group_found(groups: Seq<(Seq<char>, Seq<u128>)>, alias: Seq<char>, at: int)
    requires
        0 <= at <= groups.len(),
        group_at(groups.take(at), alias) is Some,
    ensures
        group_at(groups, alias) == group_at(groups.take(at), alias),
    decreases groups.len() - at,
{
    if at == groups.len() {
        assert(groups.take(at) =~= groups);
    } else {
        assert(groups.take(at + 1).drop_last() =~= groups.take(at));
        lemma_group_found(groups, alias, at + 1);
    }
}

/// Grouping loses nothing and mixes nothing: no two groups are of one host, each
/// group holds just the things of its host, in their order, and every host of a
/// thing has a group.
pub proof fn lemma_groups_are_exact(hosts: Seq<(u128, Seq<char>)>, ids: Seq<u128>)
    ensures
        forall|i: int, j: int|
            0 <= i < j < grouped(hosts, ids).len() ==> (#[trigger] grouped(hosts, ids)[i]).0 != (
            #[trigger] grouped(hosts, ids)[j]).0,
        forall|i: int|
            0 <= i < grouped(hosts, ids).len() ==> (#[trigger] grouped(hosts, ids)[i]).1 == ids.filter(
                on_host(hosts, grouped(hosts, ids)[i].0),
            ),
        forall|k: int|
            0 <= k < ids.len() && host_of(hosts, #[trigger] ids[k]) is Some ==> group_at(
                grouped(hosts, ids),
                host_of(hosts, ids[k])->0,
            ) is Some,
    decreases ids.len(),
{
    reveal(Seq::filter);
    if ids.len() > 0 {
        let shorter = ids.drop_last();
        let id = ids.last();
        let before = grouped(hosts, shorter);
        let groups = grouped(hosts, ids);
        lemma_groups_are_exact(hosts, shorter);
        match host_of(hosts, id) {
            None => {
                assert forall|i: int| 0 <= i < groups.len() implies (#[trigger] groups[i]).1
                    == ids.filter(on_host(hosts, groups[i].0)) by {
                    assert(before[i].1 == shorter.filter(on_host(hosts, before[i].0)));
                }
            },
            Some(alias) => {
                lemma_group_at(before, alias);
                match group_at(before, alias) {
                    Some(at) => {
                        assert forall|i: int| 0 <= i < groups.len() implies (#[trigger] groups[i]).1
                            == ids.filter(on_host(hosts, groups[i].0)) by {
                            assert(before[i].1 == shorter.filter(on_host(hosts, before[i].0)));
                            if i != at {
                                assert(before[i].0 != before[at].0);
                            }
                        }
                        assert forall|i: int, j: int| 0 <= i < j < groups.len() implies (
                        #[trigger] groups[i]).0 != (#[trigger] groups[j]).0 by {
                            assert(before[i].0 != before[j].0);
                        }
                    },
                    None => {
                        assert forall|i: int| 0 <= i < groups.len() implies (#[trigger] groups[i]).1
                            == ids.filter(on_host(hosts, groups[i].0)) by {
                            if i < before.len() {
                                assert(before[i].1 == shorter.filter(on_host(hosts, before[i].0)));
                            } else {
                                assert forall|k: int| 0 <= k < shorter.len() implies !on_host(
                                    hosts,
                                    alias,
                                )(#[trigger] shorter[k]) by {}
                                lemma_filter_none(shorter, on_host(hosts, alias));
                                assert(Seq::<u128>::empty().push(id) =~= seq![id]);
                            }
                        }
                        assert forall|i: int, j: int| 0 <= i < j < groups.len() implies (
                        #[trigger] groups[i]).0 != (#[trigger] groups[j]).0 by {
                            assert(groups[i] == before[i]);
                            if j < before.len() {
                                assert(groups[j] == before[j]);
                            }
                        }
                    },
                }
            },
        }
        assert forall|k: int| 0 <= k < ids.len() && host_of(hosts, #[trigger] ids[k]) is Some implies group_at(
            groups,
            host_of(hosts, ids[k])->0,
        ) is Some by {
            let wanted = host_of(hosts, ids[k])->0;
            lemma_group_at(groups, wanted);
            lemma_group_at(before, wanted);
            if k < shorter.len() {
                assert(shorter[k] == ids[k]);
                let at = group_at(before, wanted)->0;
                assert(before[at].0 == wanted);
                assert(groups[at].0 == wanted);
            } else {
                lemma_group_at(before, wanted);
                match group_at(before, wanted) {
                    Some(at) => {
                        assert(groups[at].0 == wanted);
                    },
                    None => {
                        assert(groups[before.len() as int].0 == wanted);
                    },
                }
            }
        }
    }
}

proof fn lemma_filter_none(ids: Seq<u128>, keep: spec_fn(u128) -> bool)
    requires
        forall|k: int| 0 <= k < ids.len() ==> !keep(#[trigger] ids[k]),
    ensures
        ids.filter(keep) == Seq::<u128>::empty(),
    decreases ids.len(),
{
    reveal(Seq::filter);
    if ids.len() > 0 {
        let shorter = ids.drop_last();
        assert forall|k: int| 0 <= k < shorter.len() implies !keep(#[trigger] shorter[k]) by {
            assert(shorter[k] == ids[k]);
        }
        lemma_filter_none(shorter, keep);
    }
}

/// Puts a thing into its host's group.
fn put_in_group(groups: &mut Vec<HostGroup>, alias: &str, id: u128)
    ensures
        groups_view(final(groups)@) == group_put(groups_view(old(groups)@), alias@, id),
{
    let ghost before = groups_view(groups@);
    let mut i: usize = 0;
    assert(before.take(0) =~= Seq::empty());
    while i < groups.len()
        invariant
            0 <= i <= groups.len(),
            before == groups_view(groups@),
            before == groups_view(old(groups)@),
            group_at(before.take(i as int), alias@) is None,
        decreases groups.len() - i,
    {
        assert(before.take(i + 1).drop_last() =~= before.take(i as int));
        assert(before.take(i + 1).last() == (groups@[i as int].alias@, groups@[i as int].ids@));
        if same_text(groups[i].alias.as_str(), alias) {
            proof {
                lemma_group_found(before, alias@, i + 1);
            }
            groups[i].ids.push(id);
            assert(groups_view(groups@) =~= before.update(
                i as int,
                (alias@, before[i as int].1.push(id)),
            ));
            return ;
        }
        i += 1;
    }
    assert(before.take(before.len() as int) =~= before);
    let group = HostGroup { alias: alias.to_owned(), ids: vec![id] };
    assert(group.ids@ =~= seq![id]);
    groups.push(group);
    assert(groups_view(groups@) =~= before.push((alias@, seq![id])));
}

/// Notices by host, and those that are on none.
#[derive(Debug)]
pub struct AttentionTargets {
    pub by_host: Vec<HostGroup>,
    pub local: Vec<u128>,
}

impl RuntimeState {
    /// The notices that are to be taken as read, by host: those that were named,
    /// or all.
    pub fn attention_targets(&self, requested: Option<&Vec<u128>>) -> (r: AttentionTargets)
        ensures
            ({
                let selected = match requested {
                    Some(ids) => ids@,
                    None => attention_ids(self@.attention),
                };
                groups_view(r.by_host@) == grouped(self@.attention_hosts, selected) && r.local@
                    == selected.filter(on_no_host(self@.attention_hosts))
            }),
    {
        let selected: Vec<u128> = match requested {
            Some(ids) => copy_ids(ids),
            None => self.all_notices(),
        };
        let ghost hosts = self@.attention_hosts;
        let mut by_host: Vec<HostGroup> = Vec::new();
        let mut local: Vec<u128> = Vec::new();
        let mut i: usize = 0;
        proof {
            reveal(Seq::filter);
            assert(selected@.take(0) =~= Seq::empty());
            assert(groups_view(by_host@) =~= Seq::empty());
        }
        while i < selected.len()
            invariant
                0 <= i <= selected.len(),
                hosts == self@.attention_hosts,
                groups_view(by_host@) == grouped(hosts, selected@.take(i as int)),
                local@ == selected@.take(i as int).filter(on_no_host(hosts)),
            decreases selected.len() - i,
        {
            proof {
                reveal(Seq::filter);
                assert(selected@.take(i + 1).drop_last() =~= selected@.take(i as int));
                assert(selected@.take(i + 1).last() == selected@[i as int]);
            }
            let id = selected[i];
            match self.attention_hosts.host(id) {
                Some(alias) => put_in_group(&mut by_host, alias, id),
                None => local.push(id),
            }
            i += 1;
        }
        assert(selected@.take(selected@.len() as int) =~= selected@);
        AttentionTargets { by_host, local }
    }

    /// All notices.
    fn all_notices(&self) -> (r: Vec<u128>)
        ensures
            r@ == attention_ids(self@.attention),
    {
        let mut ids: Vec<u128> = Vec::new();
        let mut i: usize = 0;
        while i < self.attention.len()
            invariant
                0 <= i <= self.attention.len(),
                ids@ == attention_ids(self@.attention).take(i as int),
            decreases self.attention.len() - i,
        {
            ids.push(self.attention[i].id);
            assert(ids@ =~= attention_ids(self@.attention).take(i + 1));
            i += 1;
        }
        assert(ids@ =~= attention_ids(self@.attention));
        ids
    }
}

/// Ids equal to these.
fn copy_ids(ids: &Vec<u128>) -> (r: Vec<u128>)
    ensures
        r@ == ids@,
{
    let mut copy: Vec<u128> = Vec::new();
    let mut i: usize = 0;
    while i < ids.len()
        invariant
            0 <= i <= ids.len(),
            copy@ == ids@.take(i as int),
        decreases ids.len() - i,
    {
        copy.push(ids[i]);
        assert(copy@ =~= ids@.take(i + 1));
        i += 1;
    }
    assert(copy@ =~= ids@);
    copy
}

// ---- hosts that are asked ----

/// The hosts of projects, each once, in the order in which they first occur.
pub open spec fn hosts_of(projects: Seq<ProjectView>) -> Seq<Seq<char>>
    decreases projects.len(),
{
    if projects.len() == 0 {
        Seq::empty()
    } else {
        let before = hosts_of(projects.drop_last());
        match projects.last().host() {
            Some(alias) => if before.contains(alias) {
                before
            } else {
                before.push(alias)
            },
            None => before,
        }
    }
}

/// That a project is on a host.
pub open spec fn is_on_host(alias: Seq<char>) -> spec_fn(ProjectView) -> bool {
    |project: ProjectView| project.host() == Some(alias)
}

impl RuntimeState {
    /// The hosts that are asked for news.
    pub fn hosts(&self) -> (r: Vec<String>)
        ensures
            texts_of(r@) == hosts_of(self@.projects),
    {
        let ghost projects = self@.projects;
        let mut hosts: Vec<String> = Vec::new();
        let mut i: usize = 0;
        proof {
            assert(projects.take(0) =~= Seq::empty());
            assert(texts_of(hosts@) =~= Seq::empty());
        }
        while i < self.projects.len()
            invariant
                0 <= i <= self.projects.len(),
                projects == self@.projects,
                texts_of(hosts@) == hosts_of(projects.take(i as int)),
            decreases self.projects.len() - i,
        {
            proof {
                assert(projects.take(i + 1).drop_last() =~= projects.take(i as int));
                assert(projects.take(i + 1).last() == self.projects@[i as int]@);
            }
            let ghost before = texts_of(hosts@);
            if let Some(alias) = self.projects[i].host_alias() {
                if !crate::text::holds_text(&hosts, alias) {
                    hosts.push(alias.to_owned());
                    assert(texts_of(hosts@) =~= before.push(alias@));
                }
            }
            i += 1;
        }
        assert(projects.take(projects.len() as int) =~= projects);
        hosts
    }

    /// The projects that are on a host.
    pub fn projects_on(&self, alias: &str) -> (r: Vec<Project>)
        ensures
            projects_view(r@) == self@.projects.filter(is_on_host(alias@)),
    {
        let ghost projects = self@.projects;
        let ghost keep = is_on_host(alias@);
        let mut list: Vec<Project> = Vec::new();
        let mut i: usize = 0;
        proof {
            reveal(Seq::filter);
            assert(projects.take(0) =~= Seq::empty());
            assert(projects_view(list@) =~= Seq::empty());
        }
        while i < self.projects.len()
            invariant
                0 <= i <= self.projects.len(),
                projects == self@.projects,
                keep == is_on_host(alias@),
                projects_view(list@) == projects.take(i as int).filter(keep),
            decreases self.projects.len() - i,
        {
            proof {
                reveal(Seq::filter);
                assert(projects.take(i + 1).drop_last() =~= projects.take(i as int));
                assert(projects.take(i + 1).last() == self.projects@[i as int]@);
            }
            let ghost before = projects_view(list@);
            let here = match self.projects[i].host_alias() {
                Some(host) => same_text(host, alias),
                None => false,
            };
            if here {
                list.push(self.projects[i].copy());
                assert(projects_view(list@) =~= before.push(projects[i as int]));
            }
            i += 1;
        }
        assert(projects.take(projects.len() as int) =~= projects);
        list
    }
}

/// The hosts whose events are followed.
#[derive(Debug)]
pub struct Subscriptions {
    pub hosts: Vec<String>,
}

impl View for Subscriptions {
    type V = Seq<Seq<char>>;

    open spec fn view(&self) -> Seq<Seq<char>> {
        texts_of(self.hosts@)
    }
}

/// That a host is another.
pub open spec fn other_host(alias: Seq<char>) -> spec_fn(Seq<char>) -> bool {
    |host: Seq<char>| host != alias
}

impl Subscriptions {
    /// No host is followed.
    pub fn new() -> (r: Subscriptions)
        ensures
            r@ == Seq::<Seq<char>>::empty(),
    {
        let r = Subscriptions { hosts: Vec::new() };
        assert(r@ =~= Seq::<Seq<char>>::empty());
        r
    }

    /// Whether a host is to be followed from now on: not where it is already.
    pub fn begin(&mut self, alias: &str) -> (r: bool)
        ensures
            r == !old(self)@.contains(alias@),
            final(self)@ == (if r {
                old(self)@.push(alias@)
            } else {
                old(self)@
            }),
    {
        let ghost before = self@;
        if crate::text::holds_text(&self.hosts, alias) {
            return false;
        }
        self.hosts.push(alias.to_owned());
        assert(self@ =~= before.push(alias@));
        true
    }

    /// A host is no longer followed.
    pub fn end(&mut self, alias: &str)
        ensures
            final(self)@ == old(self)@.filter(other_host(alias@)),
    {
        let ghost before = self@;
        let ghost keep = other_host(alias@);
        let mut mask: Vec<bool> = Vec::new();
        let mut i: usize = 0;
        while i < self.hosts.len()
            invariant
                0 <= i <= self.hosts.len(),
                before == self@,
                keep == other_host(alias@),
                mask.len() == i,
                forall|k: int| 0 <= k < i ==> #[trigger] mask@[k] == keep(before[k]),
            decreases self.hosts.len() - i,
        {
            mask.push(!same_text(self.hosts[i].as_str(), alias));
            i += 1;
        }
        proof {
            crate::kept::lemma_masked_filter(before, mask@, keep);
            crate::kept::lemma_masked_map(self.hosts@, mask@, |text: String| text@);
        }
        crate::kept::keep_masked(&mut self.hosts, &mask);
    }
}

// ---- projects that are created ----

/// A project as it is created in a folder: the one that is kept there, with a new
/// name and a new policy, else a new one.
pub open spec fn project_described(
    state: RuntimeView,
    name: Seq<char>,
    root: Seq<char>,
    policy: ProjectGitPolicy,
    fresh: u128,
) -> ProjectView {
    match key_at(state.projects, root) {
        Some(i) => ProjectView { name, root, git_policy: policy, ..state.projects[i] },
        None => ProjectView {
            id: fresh,
            name,
            root,
            git_policy: policy,
            execution_target: TargetView::Local,
        },
    }
}

/// What making a repository led to.
#[derive(Debug)]
pub enum GitInit {
    /// It was made.
    Made,
    /// Git refused, with what it printed as an error.
    Refused(Vec<u8>),
    /// Git could not be run.
    NotRun(String),
}

/// The project once its repository has been made.
pub open spec fn with_repository(project: ProjectView, outcome: GitInit) -> Result<ProjectView, ErrorView> {
    match outcome {
        GitInit::Made => Ok(
            ProjectView { git_policy: ProjectGitPolicy::RequireRepository, ..project },
        ),
        GitInit::Refused(printed) => Err(
            error_of("git_init_failed"@, trimmed(lossy_text(printed@))),
        ),
        GitInit::NotRun(text) => Err(error_of("git_init_failed"@, text@)),
    }
}

/// The project once its repository has been made.
pub fn repository_made(project: Project, outcome: GitInit) -> (r: Result<Project, ProtocolError>)
    ensures
        match with_repository(project@, outcome) {
            Ok(made) => r matches Ok(p) && p@ == made,
            Err(error) => r matches Err(e) && e@ == error,
        },
{
    match outcome {
        GitInit::Made => {
            let mut project = project;
            project.git_policy = ProjectGitPolicy::RequireRepository;
            Ok(project)
        },
        GitInit::Refused(printed) => {
            let text = text_lossy(&printed);
            Err(protocol_error("git_init_failed", trim(text.as_str()).as_str()))
        },
        GitInit::NotRun(text) => Err(protocol_error("git_init_failed", text.as_str())),
    }
}

/// A project has been created or changed.
pub open spec fn project_changed(state: RuntimeView, project: ProjectView) -> Step {
    Step {
        state: RuntimeView { projects: project_put(state.projects, project), ..state },
        effects: seq![EffectView::Tell(ServerEventView::ProjectChanged(project))],
    }
}

impl RuntimeState {
    /// A project as it is created in a folder. The root is a canonical one.
    pub fn describe_project(&self, name: &str, root: &str, policy: ProjectGitPolicy, fresh: u128) -> (r: Project)
        ensures
            r@ == project_described(self@, name@, root@, policy, fresh),
    {
        match self.find_key(root) {
            Some(i) => {
                let mut project = self.projects[i].copy();
                project.name = name.to_owned();
                project.root = root.to_owned();
                project.git_policy = policy;
                project
            },
            None => Project {
                id: fresh,
                name: name.to_owned(),
                root: root.to_owned(),
                git_policy: policy,
                execution_target: ProjectExecutionTarget::Local,
            },
        }
    }

    /// Keeps a project that has been saved.
    pub fn keep_project(&mut self, project: Project, effects: &mut Vec<Effect>)
        ensures
            does(
                old(effects)@,
                *final(self),
                final(effects)@,
                project_changed(old(self)@, project@),
            ),
    {
        let ghost told = effects_view(effects@);
        let told_project = project.copy();
        self.put_project(project);
        push_effect(effects, Effect::Tell(ServerEvent::ProjectChanged(told_project)));
        assert(effects_view(effects@) =~= told + seq![
            EffectView::Tell(ServerEventView::ProjectChanged(project@)),
        ]);
    }
}

/// A host is asked exactly if a project is on it, and none is asked twice.
pub proof fn lemma_hosts_are_those_of_projects(projects: Seq<ProjectView>, alias: Seq<char>)
    ensures
        hosts_of(projects).contains(alias) <==> exists|i: int|
            0 <= i < projects.len() && (#[trigger] projects[i]).host() == Some(alias),
        hosts_of(projects).no_duplicates(),
    decreases projects.len(),
{
    if projects.len() > 0 {
        let before = projects.drop_last();
        lemma_hosts_are_those_of_projects(before, alias);
        let old_list = hosts_of(before);
        let list = hosts_of(projects);
        assert forall|i: int| 0 <= i < before.len() implies #[trigger] before[i] == projects[i] by {}
        if old_list.contains(alias) {
            let i = choose|i: int| 0 <= i < before.len() && (#[trigger] before[i]).host() == Some(alias);
            assert(projects[i].host() == Some(alias));
            let k = choose|k: int| 0 <= k < old_list.len() && old_list[k] == alias;
            assert(list[k] == alias);
        }
        if projects.last().host() == Some(alias) {
            assert(projects[projects.len() - 1].host() == Some(alias));
            if !old_list.contains(alias) {
                assert(list[list.len() - 1] == alias);
            }
        }
        if list.contains(alias) && !old_list.contains(alias) {
            let k = choose|k: int| 0 <= k < list.len() && list[k] == alias;
            if k < old_list.len() {
                assert(old_list[k] == alias);
            }
        }
        if exists|i: int| 0 <= i < projects.len() && (#[trigger] projects[i]).host() == Some(alias) {
            let i = choose|i: int| 0 <= i < projects.len() && (#[trigger] projects[i]).host() == Some(alias);
            if i < before.len() {
                assert(before[i].host() == Some(alias));
            }
        }
        assert forall|a: int, b: int| 0 <= a < list.len() && 0 <= b < list.len() && a != b implies list[a]
            != list[b] by {
            if a < old_list.len() && b < old_list.len() {
                assert(old_list[a] != old_list[b]);
            } else if a < old_list.len() {
                assert(old_list.contains(old_list[a]));
            } else if b < old_list.len() {
                assert(old_list.contains(old_list[b]));
            }
        }
    }
}

/// A project that is created has the name, the root and the policy that were asked
/// for. In a folder without a project it is a new one on this machine; in one with
/// a project it keeps the identifier and the place of that project.
pub proof fn lemma_created_projects_are_as_asked(
    state: RuntimeView,
    name: Seq<char>,
    root: Seq<char>,
    policy: ProjectGitPolicy,
    fresh: u128,
)
    ensures
        ({
            let project = project_described(state, name, root, policy, fresh);
            &&& project.name == name
            &&& project.root == root
            &&& project.git_policy == policy
            &&& (forall|i: int| 0 <= i < state.projects.len() ==> (#[trigger] state.projects[i]).key() != root)
                ==> project.id == fresh && project.execution_target == TargetView::Local
            &&& (exists|i: int| 0 <= i < state.projects.len() && (#[trigger] state.projects[i]).key() == root)
                ==> exists|i: int|
                0 <= i < state.projects.len() && (#[trigger] state.projects[i]).key() == root && project.id
                    == state.projects[i].id && project.execution_target == state.projects[i].execution_target
        }),
{
    lemma_found_key(state.projects, root);
    if key_at(state.projects, root) is Some {
        let i = key_at(state.projects, root)->0;
        assert(state.projects[i].key() == root);
    }
}

proof fn lemma_found_key(projects: Seq<ProjectView>, key: Seq<char>)
    ensures
        match key_at(projects, key) {
            Some(i) => 0 <= i < projects.len() && projects[i].key() == key,
            None => forall|i: int| 0 <= i < projects.len() ==> (#[trigger] projects[i]).key() != key,
        },
    decreases projects.len(),
{
    if projects.len() > 0 {
        let before = projects.drop_last();
        lemma_found_key(before, key);
        assert forall|i: int| 0 <= i < before.len() implies #[trigger] before[i] == projects[i] by {}
        if key_at(projects, key) is None {
            assert forall|i: int| 0 <= i < projects.len() implies (#[trigger] projects[i]).key() != key by {
                if i < before.len() {
                    assert(before[i].key() != key);
                }
            }
        }
    }
}

/// A project whose repository was made requires it from then on, and is else
/// unchanged. Where Git refused or could not be run there is no such project.
pub proof fn lemma_made_repositories_are_required(project: ProjectView, outcome: GitInit)
    ensures
        with_repository(project, outcome) is Ok <==> outcome is Made,
        with_repository(project, outcome) matches Ok(made) ==> made.git_policy
            == ProjectGitPolicy::RequireRepository && made.id == project.id && made.name == project.name
            && made.root == project.root && made.execution_target == project.execution_target,
        with_repository(project, outcome) matches Err(e) ==> e.code == "git_init_failed"@,
        outcome matches GitInit::NotRun(text) ==> (with_repository(project, outcome) matches Err(e)
            && e.message == text@),
        outcome matches GitInit::Refused(printed) ==> (with_repository(project, outcome) matches Err(e)
            && e.message == trimmed(lossy_text(printed@))),
{
}

/// A project that has changed is told, once, and kept; nothing else is touched
/// but the project that was kept under its key.
pub proof fn lemma_changed_projects_are_kept_and_told(state: RuntimeView, project: ProjectView)
    ensures
        ({
            let step = project_changed(state, project);
            &&& step.effects == seq![EffectView::Tell(ServerEventView::ProjectChanged(project))]
            &&& step.state.projects.contains(project)
            &&& step.state == RuntimeView { projects: step.state.projects, ..state }
            &&& forall|i: int|
                0 <= i < state.projects.len() && (#[trigger] state.projects[i]).key() != project.key()
                    ==> step.state.projects[i] == state.projects[i]
        }),
{
    lemma_found_key(state.projects, project.key());
    let after = project_changed(state, project).state.projects;
    match key_at(state.projects, project.key()) {
        Some(i) => {
            assert(after[i] == project);
        },
        None => {
            assert(after[state.projects.len() as int] == project);
        },
    }
}

} // verus!
