//! Sessions of agents: how they are started, prompted, stopped, renamed and
//! deleted, and what is refused.

use crate::agent_output::{project_name, resume_block, resume_block_reason, stopped_agent};
use crate::diagnostics::{agent_display_name, display_name, notification_summary, summary_of};
use crate::model::{
    error_of, protocol_error, AgentApprovalPreset, AgentChatMessage, AgentChatRole,
    AgentExecutionProfile, AgentRun, AgentState, AttentionKind, AttentionView, CodexLaunchMode,
    ErrorView, MessageView, ProfileView, Project, ProjectExecutionTarget, ProjectGitPolicy, ProjectView,
    ProtocolError, RunView, RuntimeAttention, TargetView,
};
use crate::paths::{parts_of, path_parts};
use crate::state::{
    agent_ids, agent_saved, child_ids, does, effects_view, is_working, is_working_state,
    lemma_found_agent_has_its_id, lemma_position, lemma_saved_agent_is_found, messages_view, position, push_effect, stays, without_turn, ActiveRun, AgentRecord, AgentView,
    Effect, EffectView, RuntimeState, RuntimeView, ServerEvent, ServerEventView, Step,
};
use crate::text::{copy_text, is_text, same_optional_text, same_text, str_of, text_of, texts_of};
use vstd::prelude::*;
use vstd::string::*;

verus! {

// ---- projects ----

/// The place of the project that is kept under a key.
pub open spec fn key_at(projects: Seq<ProjectView>, key: Seq<char>) -> Option<int>
    decreases projects.len(),
{
    if projects.len() == 0 {
        None
    } else {
        match key_at(projects.drop_last(), key) {
            Some(i) => Some(i),
            None => if projects.last().key() == key {
                Some(projects.len() - 1)
            } else {
                None
            },
        }
    }
}

/// The projects with one of them kept under its key.
pub open spec fn project_put(projects: Seq<ProjectView>, project: ProjectView) -> Seq<ProjectView> {
    match key_at(projects, project.key()) {
        Some(i) => projects.update(i, project),
        None => projects.push(project),
    }
}

proof fn lemma_key_found(projects: Seq<ProjectView>, key: Seq<char>, at: int)
    requires
        0 <= at <= projects.len(),
        key_at(projects.take(at), key) is Some,
    ensures
        key_at(projects, key) == key_at(projects.take(at), key),
    decreases projects.len() - at,
{
    if at == projects.len() {
        assert(projects.take(at) =~= projects);
    } else {
        assert(projects.take(at + 1).drop_last() =~= projects.take(at));
        lemma_key_found(projects, key, at + 1);
    }
}

impl RuntimeState {
    /// The place of the project that is kept under a key.
    pub fn find_key(&self, key: &str) -> (r: Option<usize>)
        ensures
            match r {
                Some(i) => i < self.projects.len() && key_at(self@.projects, key@) == Some(i as int),
                None => key_at(self@.projects, key@) is None,
            },
    {
        let ghost list = self@.projects;
        let mut i: usize = 0;
        assert(list.take(0) =~= Seq::empty());
        while i < self.projects.len()
            invariant
                0 <= i <= self.projects.len(),
                list == self@.projects,
                key_at(list.take(i as int), key@) is None,
            decreases self.projects.len() - i,
        {
            assert(list.take(i + 1).drop_last() =~= list.take(i as int));
            assert(list.take(i + 1).last() == self.projects@[i as int]@);
            if same_text(self.projects[i].root_key().as_str(), key) {
                proof {
                    lemma_key_found(list, key@, i + 1);
                }
                return Some(i);
            }
            i += 1;
        }
        assert(list.take(list.len() as int) =~= list);
        None
    }

    /// Keeps a project under its key.
    pub fn put_project(&mut self, project: Project)
        ensures
            final(self)@ == (RuntimeView {
                projects: project_put(old(self)@.projects, project@),
                ..old(self)@
            }),
    {
        let ghost before = self@.projects;
        let key = project.root_key();
        match self.find_key(key.as_str()) {
            Some(i) => {
                self.projects.set(i, project);
                assert(self@.projects =~= before.update(i as int, project@));
            },
            None => {
                self.projects.push(project);
                assert(self@.projects =~= before.push(project@));
            },
        }
    }

    /// The project that is launched in a folder: the one that is kept, else the
    /// one that the folder describes, else a new one.
    pub fn project_for_launch(&self, root: &str, described: Option<Project>, name: &str, fresh: u128) -> (r:
        Project)
        ensures
            r@ == (match key_at(self@.projects, root@) {
                Some(i) => self@.projects[i],
                None => match described {
                    Some(project) => project@,
                    None => ProjectView {
                        id: fresh,
                        name: name@,
                        root: root@,
                        git_policy: ProjectGitPolicy::RequireRepository,
                        execution_target: TargetView::Local,
                    },
                },
            }),
    {
        match self.find_key(root) {
            Some(i) => self.projects[i].copy(),
            None => match described {
                Some(project) => project,
                None => Project {
                    id: fresh,
                    name: name.to_owned(),
                    root: root.to_owned(),
                    git_policy: ProjectGitPolicy::RequireRepository,
                    execution_target: ProjectExecutionTarget::Local,
                },
            },
        }
    }
}

/// Whether a project may be worked on: only inside a repository, unless it may
/// be outside.
pub fn verify_project_git_policy(policy: ProjectGitPolicy, is_repository: bool) -> (r: Result<
    (),
    ProtocolError,
>)
    ensures
        if policy == ProjectGitPolicy::AllowOutsideGit || is_repository {
            r is Ok
        } else {
            r matches Err(e) && e@ == error_of(
                "git_repository_required"@,
                "This project is not inside a Git repository. Initialize Git or explicitly allow Codex outside Git."@,
            )
        },
{
    if matches!(policy, ProjectGitPolicy::AllowOutsideGit) || is_repository {
        Ok(())
    } else {
        Err(
            protocol_error(
                "git_repository_required",
                "This project is not inside a Git repository. Initialize Git or explicitly allow Codex outside Git.",
            ),
        )
    }
}

/// Whether two paths have the same parts.
pub fn same_path(left: &str, right: &str) -> (r: bool)
    ensures
        r == (path_parts(left@) == path_parts(right@)),
{
    let a = parts_of(left);
    let b = parts_of(right);
    let ghost x = texts_of(a@);
    let ghost y = texts_of(b@);
    if a.len() != b.len() {
        assert(x.len() != y.len());
        return false;
    }
    let mut i: usize = 0;
    while i < a.len()
        invariant
            0 <= i <= a.len(),
            a.len() == b.len(),
            x == texts_of(a@) && x == path_parts(left@),
            y == texts_of(b@) && y == path_parts(right@),
            forall|k: int| 0 <= k < i ==> x[k] == y[k],
        decreases a.len() - i,
    {
        if !same_text(a[i].as_str(), b[i].as_str()) {
            assert(x[i as int] != y[i as int]);
            return false;
        }
        i += 1;
    }
    assert(x =~= y);
    true
}

// ---- new sessions ----

/// How a session is started.
#[derive(Clone, Copy, Debug, PartialEq, Eq, Structural)]
pub enum SessionKind {
    Start,
    Resume,
    AppServerStart,
    AppServerResume,
}

/// What a session that is being started shows.
pub open spec fn starting_action(kind: SessionKind) -> Seq<char> {
    match kind {
        SessionKind::Start => "Starting Codex"@,
        SessionKind::Resume => "Resuming Codex"@,
        SessionKind::AppServerStart => "Starting Codex App Server"@,
        SessionKind::AppServerResume => "Resuming Codex App Server"@,
    }
}

/// Why a session is said to be starting.
pub open spec fn starting_evidence(kind: SessionKind) -> Seq<char> {
    match kind {
        SessionKind::Start => "Ditch Runtime accepted the session and is launching Codex."@,
        SessionKind::Resume => "Ditch Runtime accepted the session and is resuming Codex."@,
        SessionKind::AppServerStart => "The SSH runtime accepted an App Server session."@,
        SessionKind::AppServerResume => "The SSH runtime accepted an App Server session."@,
    }
}

/// Why a session is said to be working.
pub open spec fn working_evidence(kind: SessionKind) -> Seq<char> {
    match kind {
        SessionKind::Start => "Codex process is running under Ditch Runtime."@,
        SessionKind::Resume => "Codex resume process is running under Ditch Runtime."@,
        SessionKind::AppServerStart => "Codex App Server is running on the SSH host."@,
        SessionKind::AppServerResume => "Codex App Server is running on the SSH host."@,
    }
}

/// The run of a new session.
pub open spec fn new_run_view(
    kind: SessionKind,
    id: u128,
    project_id: u128,
    mode: CodexLaunchMode,
    profile: ProfileView,
    prompt: Seq<char>,
    thread: Option<Seq<char>>,
    home: Option<Seq<char>>,
    now: i64,
) -> RunView {
    RunView {
        id,
        state: AgentState::Starting,
        can_stop: false,
        launch_mode: mode,
        execution_profile: profile,
        project_id,
        native_session_id: thread,
        codex_title: None,
        user_title: None,
        origin_codex_home: home,
        current_prompt: Some(prompt),
        last_visible_action: Some(starting_action(kind)),
        state_evidence: starting_evidence(kind),
        started_at: now,
        updated_at: now,
        finished_at: None,
        exit_code: None,
        resume_block_reason: None,
    }
}

/// The run of a new session.
pub fn new_run(
    kind: SessionKind,
    id: u128,
    project_id: u128,
    mode: CodexLaunchMode,
    profile: &AgentExecutionProfile,
    prompt: &str,
    thread: Option<&str>,
    home: Option<&str>,
    now: i64,
) -> (r: AgentRun)
    ensures
        r@ == new_run_view(
            kind,
            id,
            project_id,
            mode,
            profile@,
            prompt@,
            str_of(thread),
            str_of(home),
            now,
        ),
{
    let (action, evidence) = match kind {
        SessionKind::Start => (
            "Starting Codex",
            "Ditch Runtime accepted the session and is launching Codex.",
        ),
        SessionKind::Resume => (
            "Resuming Codex",
            "Ditch Runtime accepted the session and is resuming Codex.",
        ),
        SessionKind::AppServerStart => (
            "Starting Codex App Server",
            "The SSH runtime accepted an App Server session.",
        ),
        SessionKind::AppServerResume => (
            "Resuming Codex App Server",
            "The SSH runtime accepted an App Server session.",
        ),
    };
    AgentRun {
        id,
        state: AgentState::Starting,
        can_stop: false,
        launch_mode: mode,
        execution_profile: profile.copy(),
        project_id,
        native_session_id: match thread {
            Some(thread) => Some(thread.to_owned()),
            None => None,
        },
        codex_title: None,
        user_title: None,
        origin_codex_home: match home {
            Some(home) => Some(home.to_owned()),
            None => None,
        },
        current_prompt: Some(prompt.to_owned()),
        last_visible_action: Some(action.to_owned()),
        state_evidence: evidence.to_owned(),
        started_at: now,
        updated_at: now,
        finished_at: None,
        exit_code: None,
        resume_block_reason: None,
    }
}

/// The profile of a session on an SSH host: whatever was chosen, it asks.
pub fn guarded_remote_profile(profile: AgentExecutionProfile) -> (r: AgentExecutionProfile)
    ensures
        r == (AgentExecutionProfile { approval: AgentApprovalPreset::Ask, ..profile }),
{
    AgentExecutionProfile { approval: AgentApprovalPreset::Ask, ..profile }
}

/// The run of a session whose process has been started.
pub open spec fn launched_run(kind: SessionKind, run: RunView, now: i64) -> RunView {
    RunView {
        state: AgentState::Working,
        can_stop: true,
        updated_at: now,
        state_evidence: working_evidence(kind),
        ..run
    }
}

/// The run of a session whose process has been started.
pub fn launch_run(kind: SessionKind, run: AgentRun, now: i64) -> (r: AgentRun)
    ensures
        r@ == launched_run(kind, run@, now),
{
    let evidence = match kind {
        SessionKind::Start => "Codex process is running under Ditch Runtime.",
        SessionKind::Resume => "Codex resume process is running under Ditch Runtime.",
        SessionKind::AppServerStart => "Codex App Server is running on the SSH host.",
        SessionKind::AppServerResume => "Codex App Server is running on the SSH host.",
    };
    AgentRun {
        state: AgentState::Working,
        can_stop: true,
        updated_at: now,
        state_evidence: evidence.to_owned(),
        ..run
    }
}

/// The agents with one of them put under its identifier.
pub open spec fn agent_put(agents: Seq<AgentView>, agent: AgentView) -> Seq<AgentView> {
    match position(agent_ids(agents), agent.run.id) {
        Some(i) => agents.update(i, agent),
        None => agents.push(agent),
    }
}

/// The processes with one of them put under its agent.
pub open spec fn child_put(children: Seq<ActiveRun>, child: ActiveRun) -> Seq<ActiveRun> {
    match position(child_ids(children), child.agent_id) {
        Some(i) => children.update(i, child),
        None => children.push(child),
    }
}

impl RuntimeState {
    /// Puts an agent under its identifier.
    pub(crate) fn put_agent(&mut self, record: AgentRecord)
        ensures
            final(self)@ == (RuntimeView {
                agents: agent_put(old(self)@.agents, record@),
                ..old(self)@
            }),
    {
        let ghost before = self@.agents;
        match self.find_agent(record.run.id) {
            Some(i) => {
                self.agents.set(i, record);
                assert(self@.agents =~= before.update(i as int, record@));
            },
            None => {
                self.agents.push(record);
                assert(self@.agents =~= before.push(record@));
            },
        }
    }

    /// Puts a process under its agent.
    pub(crate) fn put_child(&mut self, child: ActiveRun)
        ensures
            final(self)@ == (RuntimeView {
                children: child_put(old(self)@.children, child),
                ..old(self)@
            }),
    {
        match self.find_child(child.agent_id) {
            Some(i) => {
                self.children.set(i, child);
            },
            None => {
                self.children.push(child);
            },
        }
    }
}

/// The agent of a new session.
pub open spec fn session_agent(project: ProjectView, run: RunView, messages: Seq<MessageView>, failure: Option<
    Seq<char>,
>) -> AgentView {
    AgentView {
        run,
        project_root: project.root,
        allow_non_git: project.git_policy == ProjectGitPolicy::AllowOutsideGit,
        messages,
        terminal_failure: failure,
    }
}

/// A session has been started by a process.
pub open spec fn session_started(
    state: RuntimeView,
    project: ProjectView,
    run: RunView,
    message: MessageView,
    run_id: u128,
    app_server: bool,
) -> Step {
    let agent = session_agent(project, run, seq![message], None);
    let told = seq![
        EffectView::Tell(ServerEventView::AgentChanged(run)),
        EffectView::Tell(ServerEventView::AgentMessageAppended(message)),
    ];
    Step {
        state: RuntimeView {
            projects: if app_server {
                state.projects
            } else {
                project_put(state.projects, project)
            },
            agents: agent_put(state.agents, agent),
            children: child_put(state.children, ActiveRun { agent_id: run.id, run_id, app_server }),
            turns: if app_server {
                state.turns.push(run.id)
            } else {
                state.turns
            },
            ..state
        },
        effects: if app_server {
            told
        } else {
            seq![EffectView::Tell(ServerEventView::ProjectChanged(project))] + told
        },
    }
}

impl RuntimeState {
    /// A session has been started by a process, and its records are saved.
    pub fn start_session(
        &mut self,
        project: Project,
        run: AgentRun,
        message: AgentChatMessage,
        run_id: u128,
        app_server: bool,
        effects: &mut Vec<Effect>,
    )
        ensures
            does(
                old(effects)@,
                *final(self),
                final(effects)@,
                session_started(old(self)@, project@, run@, message@, run_id, app_server),
            ),
    {
        let ghost told = effects_view(effects@);
        let ghost step = session_started(self@, project@, run@, message@, run_id, app_server);
        let mut messages: Vec<AgentChatMessage> = Vec::new();
        messages.push(message.copy());
        assert(messages_view(messages@) =~= seq![message@]);
        let record = AgentRecord {
            run: run.copy(),
            project_root: project.root.clone(),
            allow_non_git: matches!(project.git_policy, ProjectGitPolicy::AllowOutsideGit),
            messages,
            terminal_failure: None,
        };
        self.put_agent(record);
        self.put_child(ActiveRun { agent_id: run.id, run_id, app_server });
        if app_server {
            self.turns.push(run.id);
        } else {
            self.put_project(project.copy());
            push_effect(effects, Effect::Tell(ServerEvent::ProjectChanged(project)));
        }
        push_effect(effects, Effect::Tell(ServerEvent::AgentChanged(run)));
        push_effect(effects, Effect::Tell(ServerEvent::AgentMessageAppended(message)));
        assert(effects_view(effects@) =~= told + step.effects);
    }
}

/// The run of a session whose process could not be started.
pub open spec fn failed_run(run: RunView, error: Seq<char>, now: i64) -> RunView {
    RunView {
        state: AgentState::Failed,
        updated_at: now,
        last_visible_action: Some("Codex could not be started"@),
        state_evidence: error,
        finished_at: Some(now),
        resume_block_reason: resume_block(run.native_session_id),
        ..run
    }
}

/// The notice of a session whose process could not be started.
pub open spec fn launch_notice(project: ProjectView, run: RunView, error: Seq<char>, now: i64, fresh: u128) -> AttentionView {
    AttentionView {
        id: fresh,
        kind: AttentionKind::Failed,
        agent_id: Some(run.id),
        project_id: Some(project.id),
        project_name: Some(project.name),
        agent_name: Some(display_name(run)),
        title: "Codex failed to start"@,
        body: summary_of(error),
        created_at: now,
        read_at: None,
    }
}

/// What is saved of a session whose process could not be started.
#[derive(Debug)]
pub struct LaunchFailure {
    pub project: Project,
    pub run: AgentRun,
    pub user_message: AgentChatMessage,
    pub system_message: AgentChatMessage,
    pub attention: RuntimeAttention,
}

/// What is to be saved of a session whose process could not be started.
pub fn launch_failure(
    project: Project,
    run: AgentRun,
    user_message: AgentChatMessage,
    error: &str,
    now: i64,
    fresh: u128,
) -> (r: LaunchFailure)
    ensures
        r.project == project,
        r.run@ == failed_run(run@, error@, now),
        r.user_message == user_message,
        r.system_message@ == (MessageView {
            agent_id: run.id,
            role: AgentChatRole::System,
            text: error@,
            created_at: now,
        }),
        r.attention@ == launch_notice(project@, failed_run(run@, error@, now), error@, now, fresh),
{
    let reason = resume_block_reason(&run.native_session_id);
    let run = AgentRun {
        state: AgentState::Failed,
        updated_at: now,
        last_visible_action: Some("Codex could not be started".to_owned()),
        state_evidence: error.to_owned(),
        finished_at: Some(now),
        resume_block_reason: reason,
        ..run
    };
    let system_message = AgentChatMessage {
        agent_id: run.id,
        role: AgentChatRole::System,
        text: error.to_owned(),
        created_at: now,
    };
    let attention = RuntimeAttention {
        id: fresh,
        kind: AttentionKind::Failed,
        agent_id: Some(run.id),
        project_id: Some(project.id),
        project_name: Some(project.name.clone()),
        agent_name: Some(agent_display_name(&run)),
        title: "Codex failed to start".to_owned(),
        body: notification_summary(error),
        created_at: now,
        read_at: None,
    };
    LaunchFailure { project, run, user_message, system_message, attention }
}

/// A session whose process could not be started is kept and told.
pub open spec fn launch_failed(state: RuntimeView, failure: LaunchFailure) -> Step {
    Step {
        state: RuntimeView {
            projects: project_put(state.projects, failure.project@),
            agents: agent_put(
                state.agents,
                session_agent(
                    failure.project@,
                    failure.run@,
                    seq![failure.user_message@, failure.system_message@],
                    Some(failure.system_message.text@),
                ),
            ),
            attention: state.attention.push(failure.attention@),
            ..state
        },
        effects: seq![
            EffectView::Tell(ServerEventView::ProjectChanged(failure.project@)),
            EffectView::Tell(ServerEventView::AgentChanged(failure.run@)),
            EffectView::Tell(ServerEventView::AgentMessageAppended(failure.user_message@)),
            EffectView::Tell(ServerEventView::AgentMessageAppended(failure.system_message@)),
            EffectView::Tell(ServerEventView::AttentionRaised(failure.attention@)),
        ],
    }
}

impl RuntimeState {
    /// Keeps and tells a session whose process could not be started, its records
    /// having been saved, and says what is answered.
    pub fn persist_launch_failure(&mut self, failure: LaunchFailure, effects: &mut Vec<Effect>) -> (r: ProtocolError)
        ensures
            does(
                old(effects)@,
                *final(self),
                final(effects)@,
                launch_failed(old(self)@, failure),
            ),
            r@ == error_of("codex_start_failed"@, failure.system_message.text@),
    {
        let ghost told = effects_view(effects@);
        let ghost before = self@;
        let ghost step = launch_failed(self@, failure);
        let error = protocol_error("codex_start_failed", failure.system_message.text.as_str());
        let LaunchFailure { project, run, user_message, system_message, attention } = failure;
        let mut messages: Vec<AgentChatMessage> = Vec::new();
        messages.push(user_message.copy());
        messages.push(system_message.copy());
        assert(messages_view(messages@) =~= seq![user_message@, system_message@]);
        let record = AgentRecord {
            run: run.copy(),
            project_root: project.root.clone(),
            allow_non_git: matches!(project.git_policy, ProjectGitPolicy::AllowOutsideGit),
            messages,
            terminal_failure: Some(system_message.text.clone()),
        };
        self.put_project(project.copy());
        self.put_agent(record);
        self.attention.push(attention.copy());
        push_effect(effects, Effect::Tell(ServerEvent::ProjectChanged(project)));
        push_effect(effects, Effect::Tell(ServerEvent::AgentChanged(run)));
        push_effect(effects, Effect::Tell(ServerEvent::AgentMessageAppended(user_message)));
        push_effect(effects, Effect::Tell(ServerEvent::AgentMessageAppended(system_message)));
        push_effect(effects, Effect::Tell(ServerEvent::AttentionRaised(attention)));
        proof {
            assert(self@.attention =~= before.attention.push(attention@));
            assert(effects_view(effects@) =~= told + step.effects);
        }
        error
    }
}

// ---- threads and prompts ----

/// The place of the first agent that Codex made a thread for.
pub open spec fn thread_at(agents: Seq<AgentView>, thread: Seq<char>) -> Option<int>
    decreases agents.len(),
{
    if agents.len() == 0 {
        None
    } else {
        match thread_at(agents.drop_last(), thread) {
            Some(i) => Some(i),
            None => if agents.last().run.native_session_id == Some(thread) {
                Some(agents.len() - 1)
            } else {
                None
            },
        }
    }
}

proof fn lemma_thread_found(agents: Seq<AgentView>, thread: Seq<char>, at: int)
    requires
        0 <= at <= agents.len(),
        thread_at(agents.take(at), thread) is Some,
    ensures
        thread_at(agents, thread) == thread_at(agents.take(at), thread),
    decreases agents.len() - at,
{
    if at == agents.len() {
        assert(agents.take(at) =~= agents);
    } else {
        assert(agents.take(at + 1).drop_last() =~= agents.take(at));
        lemma_thread_found(agents, thread, at + 1);
    }
}

/// Why a thread cannot be resumed for a project, where it cannot.
pub open spec fn thread_refusal(state: RuntimeView, thread: Seq<char>, root: Seq<char>) -> Option<Seq<char>> {
    match thread_at(state.agents, thread) {
        None => None,
        Some(i) => if path_parts(state.agents[i].project_root) != path_parts(root) {
            Some(
                "Codex thread "@ + thread + " belongs to "@ + state.agents[i].project_root + ", not "@
                    + root + ". Start a new Codex session for the selected project."@,
            )
        } else if state.agents[i].run.origin_codex_home != state.codex_home {
            Some(
                "This Codex thread was created under a different CODEX_HOME. Its history is readable, but it cannot be resumed with the current Codex account."@,
            )
        } else {
            None
        },
    }
}

/// Why an agent cannot be prompted, where it cannot.
pub open spec fn prompt_refusal(state: RuntimeView, agent_id: u128) -> Option<ErrorView> {
    match state.agent(agent_id) {
        None => Some(error_of("agent_not_found"@, "agent session was not found"@)),
        Some(agent) => if state.child(agent_id) is Some || is_working_state(agent.run.state) {
            Some(error_of("agent_busy"@, "agent session is already working"@))
        } else if agent.run.native_session_id is None && (agent.run.state == AgentState::Failed
            || agent.run.state == AgentState::Interrupted || agent.run.state == AgentState::Stale) {
            Some(
                error_of(
                    "agent_not_resumable"@,
                    "This session cannot accept another prompt because Codex never created a thread. Start a new agent instead."@,
                ),
            )
        } else if agent.run.origin_codex_home != state.codex_home {
            Some(
                error_of(
                    "codex_home_mismatch"@,
                    "This session belongs to a different CODEX_HOME. Start a new agent with the current Codex account."@,
                ),
            )
        } else {
            None
        },
    }
}

/// What a prompt is run with.
#[derive(Debug)]
pub struct PromptTarget {
    pub project_id: u128,
    pub project_root: String,
    pub thread_id: Option<String>,
    pub allow_non_git: bool,
}

/// Whether a target is that of an agent.
pub open spec fn is_target(target: PromptTarget, agent: AgentView) -> bool {
    &&& target.project_id == agent.run.project_id
    &&& target.project_root@ == agent.project_root
    &&& text_of(target.thread_id) == agent.run.native_session_id
    &&& target.allow_non_git == agent.allow_non_git
}

/// A prompt has been handed to a process.
pub open spec fn prompted(
    state: RuntimeView,
    agent_id: u128,
    prompt: Seq<char>,
    profile: ProfileView,
    run_id: u128,
    app_server: bool,
    now: i64,
) -> Option<Step> {
    match state.agent_at(agent_id) {
        None => None,
        Some(i) => {
            let message = MessageView { agent_id, role: AgentChatRole::User, text: prompt, created_at: now };
            let agent = AgentView {
                run: RunView {
                    state: AgentState::Working,
                    can_stop: true,
                    execution_profile: profile,
                    current_prompt: Some(prompt),
                    last_visible_action: Some(
                        if app_server {
                            "Prompt sent to Codex App Server"@
                        } else {
                            "Prompt sent to Codex"@
                        },
                    ),
                    updated_at: now,
                    finished_at: None,
                    exit_code: None,
                    resume_block_reason: None,
                    ..state.agents[i].run
                },
                terminal_failure: None,
                messages: state.agents[i].messages.push(message),
                ..state.agents[i]
            };
            Some(
                Step {
                    state: RuntimeView {
                        agents: state.agents.update(i, agent),
                        children: child_put(
                            state.children,
                            ActiveRun { agent_id, run_id, app_server },
                        ),
                        turns: if app_server {
                            state.turns.push(agent_id)
                        } else {
                            state.turns
                        },
                        ..state
                    },
                    effects: seq![
                        EffectView::SaveMessage(message),
                        EffectView::SaveAgent { run: agent.run, failure: None },
                        EffectView::Tell(ServerEventView::AgentChanged(agent.run)),
                        EffectView::Tell(ServerEventView::AgentMessageAppended(message)),
                    ],
                },
            )
        },
    }
}

/// The error that no agent has an identifier.
pub fn agent_not_found() -> (r: ProtocolError)
    ensures
        r@ == error_of("agent_not_found"@, "agent session was not found"@),
{
    protocol_error("agent_not_found", "agent session was not found")
}

impl RuntimeState {
    /// The place of the first agent that Codex made a thread for.
    fn find_thread(&self, thread: &str) -> (r: Option<usize>)
        ensures
            match r {
                Some(i) => i < self.agents.len() && thread_at(self@.agents, thread@) == Some(i as int),
                None => thread_at(self@.agents, thread@) is None,
            },
    {
        let ghost list = self@.agents;
        let mut i: usize = 0;
        assert(list.take(0) =~= Seq::empty());
        while i < self.agents.len()
            invariant
                0 <= i <= self.agents.len(),
                list == self@.agents,
                thread_at(list.take(i as int), thread@) is None,
            decreases self.agents.len() - i,
        {
            assert(list.take(i + 1).drop_last() =~= list.take(i as int));
            assert(list.take(i + 1).last() == self.agents@[i as int]@);
            if is_text(&self.agents[i].run.native_session_id, thread) {
                proof {
                    lemma_thread_found(list, thread@, i + 1);
                }
                return Some(i);
            }
            i += 1;
        }
        assert(list.take(list.len() as int) =~= list);
        None
    }

    /// Whether a thread can be resumed for a project.
    pub fn validate_thread_project(&self, thread: &str, root: &str) -> (r: Result<(), String>)
        ensures
            match thread_refusal(self@, thread@, root@) {
                Some(message) => r matches Err(text) && text@ == message,
                None => r is Ok,
            },
    {
        let i = match self.find_thread(thread) {
            Some(i) => i,
            None => {
                return Ok(());
            },
        };
        assert(self@.agents[i as int] == self.agents@[i as int]@);
        let record = &self.agents[i];
        if !same_path(record.project_root.as_str(), root) {
            let mut text = "Codex thread ".to_owned();
            text.append(thread);
            text.append(" belongs to ");
            text.append(record.project_root.as_str());
            text.append(", not ");
            text.append(root);
            text.append(". Start a new Codex session for the selected project.");
            return Err(text);
        }
        if !same_optional_text(&record.run.origin_codex_home, &self.codex_home) {
            return Err(
                "This Codex thread was created under a different CODEX_HOME. Its history is readable, but it cannot be resumed with the current Codex account.".to_owned(),
            );
        }
        Ok(())
    }

    /// What a prompt to an agent is run with, where the agent can be prompted.
    pub fn check_prompt(&self, agent_id: u128) -> (r: Result<PromptTarget, ProtocolError>)
        ensures
            match prompt_refusal(self@, agent_id) {
                Some(error) => r matches Err(e) && e@ == error,
                None => r matches Ok(target) && self@.agent(agent_id) is Some && is_target(
                    target,
                    self@.agent(agent_id)->0,
                ),
            },
    {
        let i = match self.find_agent(agent_id) {
            Some(i) => i,
            None => {
                return Err(agent_not_found());
            },
        };
        let record = &self.agents[i];
        if self.find_child(agent_id).is_some() || is_working(record.run.state) {
            return Err(protocol_error("agent_busy", "agent session is already working"));
        }
        let ended = match record.run.state {
            AgentState::Failed => true,
            AgentState::Interrupted => true,
            AgentState::Stale => true,
            _ => false,
        };
        if record.run.native_session_id.is_none() && ended {
            return Err(
                protocol_error(
                    "agent_not_resumable",
                    "This session cannot accept another prompt because Codex never created a thread. Start a new agent instead.",
                ),
            );
        }
        if !same_optional_text(&record.run.origin_codex_home, &self.codex_home) {
            return Err(
                protocol_error(
                    "codex_home_mismatch",
                    "This session belongs to a different CODEX_HOME. Start a new agent with the current Codex account.",
                ),
            );
        }
        Ok(
            PromptTarget {
                project_id: record.run.project_id,
                project_root: record.project_root.clone(),
                thread_id: copy_text(&record.run.native_session_id),
                allow_non_git: record.allow_non_git,
            },
        )
    }

    /// A prompt has been handed to a process.
    pub fn prompt_agent(
        &mut self,
        agent_id: u128,
        prompt: &str,
        profile: &AgentExecutionProfile,
        run_id: u128,
        app_server: bool,
        now: i64,
        effects: &mut Vec<Effect>,
    ) -> (r: Result<(), ProtocolError>)
        ensures
            match prompted(old(self)@, agent_id, prompt@, profile@, run_id, app_server, now) {
                Some(step) => r is Ok && does(old(effects)@, *final(self), final(effects)@, step),
                None => (r matches Err(e) && e@ == error_of(
                    "agent_not_found"@,
                    "agent session was not found"@,
                )) && does(old(effects)@, *final(self), final(effects)@, stays(old(self)@)),
            },
    {
        let ghost told = effects_view(effects@);
        let ghost before = self@;
        let i = match self.find_agent(agent_id) {
            Some(i) => i,
            None => {
                assert(told =~= told + Seq::empty());
                return Err(agent_not_found());
            },
        };
        let message = AgentChatMessage {
            agent_id,
            role: AgentChatRole::User,
            text: prompt.to_owned(),
            created_at: now,
        };
        let ghost messages = messages_view(self.agents@[i as int].messages@);
        let action = if app_server {
            "Prompt sent to Codex App Server"
        } else {
            "Prompt sent to Codex"
        };
        self.agents[i].run.state = AgentState::Working;
        self.agents[i].run.can_stop = true;
        self.agents[i].run.execution_profile = profile.copy();
        self.agents[i].run.current_prompt = Some(prompt.to_owned());
        self.agents[i].run.last_visible_action = Some(action.to_owned());
        self.agents[i].run.updated_at = now;
        self.agents[i].run.finished_at = None;
        self.agents[i].run.exit_code = None;
        self.agents[i].run.resume_block_reason = None;
        self.agents[i].terminal_failure = None;
        self.agents[i].messages.push(message.copy());
        assert(messages_view(self.agents@[i as int].messages@) =~= messages.push(message@));
        push_effect(effects, Effect::SaveMessage(message.copy()));
        push_effect(effects, Effect::SaveAgent { run: self.agents[i].run.copy(), failure: None });
        push_effect(effects, Effect::Tell(ServerEvent::AgentChanged(self.agents[i].run.copy())));
        push_effect(effects, Effect::Tell(ServerEvent::AgentMessageAppended(message)));
        self.put_child(ActiveRun { agent_id, run_id, app_server });
        if app_server {
            self.turns.push(agent_id);
        }
        proof {
            let step = prompted(before, agent_id, prompt@, profile@, run_id, app_server, now)->0;
            assert(self@.agents =~= step.state.agents);
            assert(effects_view(effects@) =~= told + step.effects);
        }
        Ok(())
    }
}

// ---- stopping ----

/// The runtime without the turn of an app server that is to be stopped.
pub open spec fn stop_freed(state: RuntimeView, agent_id: u128) -> RuntimeView {
    if state.child(agent_id) matches Some(child) && child.app_server {
        without_turn(state, agent_id)
    } else {
        state
    }
}

/// An agent that is to be stopped.
pub open spec fn stop_asked(state: RuntimeView, agent_id: u128, now: i64) -> Option<Step> {
    let active = state.child(agent_id);
    let freed = stop_freed(state, agent_id);
    match freed.agent_at(agent_id) {
        None => None,
        Some(i) => Some(
            agent_saved(
                freed,
                i,
                match active {
                    Some(_) => AgentView {
                        run: RunView {
                            state: AgentState::Stopping,
                            can_stop: false,
                            last_visible_action: Some("Stopping Codex"@),
                            updated_at: now,
                            ..freed.agents[i].run
                        },
                        ..freed.agents[i]
                    },
                    None => stopped_agent(freed.agents[i], now),
                },
            ),
        ),
    }
}

impl RuntimeState {
    /// Begins to stop an agent, and says which process is to be ended.
    pub fn stop_agent(&mut self, agent_id: u128, now: i64, effects: &mut Vec<Effect>) -> (r: Result<
        Option<ActiveRun>,
        ProtocolError,
    >)
        ensures
            match stop_asked(old(self)@, agent_id, now) {
                Some(step) => r == Ok::<Option<ActiveRun>, ProtocolError>(old(self)@.child(agent_id)) && does(
                    old(effects)@,
                    *final(self),
                    final(effects)@,
                    step,
                ),
                None => (r matches Err(e) && e@ == error_of(
                    "agent_not_found"@,
                    "agent session was not found"@,
                )) && does(old(effects)@, *final(self), final(effects)@, stays(stop_freed(old(self)@, agent_id))),
            },
    {
        let ghost told = effects_view(effects@);
        let ghost before = self@;
        let active = match self.find_child(agent_id) {
            Some(i) => Some(self.children[i]),
            None => None,
        };
        if let Some(child) = active {
            if child.app_server {
                self.forget_turn(agent_id);
            }
        }
        let ghost freed = self@;
        let i = match self.find_agent(agent_id) {
            Some(i) => i,
            None => {
                assert(told =~= told + Seq::empty());
                return Err(agent_not_found());
            },
        };
        if active.is_some() {
            self.agents[i].run.state = AgentState::Stopping;
            self.agents[i].run.last_visible_action = Some("Stopping Codex".to_owned());
        } else {
            self.agents[i].run.state = AgentState::Interrupted;
            self.agents[i].run.last_visible_action = Some("Stopped by user".to_owned());
            self.agents[i].run.finished_at = Some(now);
            let reason = resume_block_reason(&self.agents[i].run.native_session_id);
            self.agents[i].run.resume_block_reason = reason;
        }
        self.agents[i].run.can_stop = false;
        self.agents[i].run.updated_at = now;
        assert(self@.agents =~= stop_asked(before, agent_id, now)->0.state.agents);
        self.tell_agent(i, effects);
        Ok(active)
    }

    /// The process that is to be killed for an agent.
    pub fn force_kill_agent(&self, agent_id: u128) -> (r: Result<ActiveRun, ProtocolError>)
        ensures
            match (self@.agent(agent_id), self@.child(agent_id)) {
                (None, _) => r matches Err(e) && e@ == error_of(
                    "agent_not_found"@,
                    "agent session was not found"@,
                ),
                (Some(_), None) => r matches Err(e) && e@ == error_of(
                    "agent_not_running"@,
                    "agent session is not running"@,
                ),
                (Some(_), Some(child)) => r == Ok::<ActiveRun, ProtocolError>(child),
            },
    {
        if self.find_agent(agent_id).is_none() {
            return Err(agent_not_found());
        }
        match self.find_child(agent_id) {
            Some(i) => Ok(self.children[i]),
            None => Err(protocol_error("agent_not_running", "agent session is not running")),
        }
    }
}

/// How a process is made to end: it is asked, then its whole group is told, then
/// the group is killed.
#[derive(Clone, Copy, Debug, PartialEq, Eq, Structural)]
pub enum StopPhase {
    Interrupt,
    Terminate,
    Kill,
}

/// How long a process is waited for, in milliseconds.
pub open spec fn stop_grace(phase: StopPhase) -> u64 {
    match phase {
        StopPhase::Interrupt => 1500,
        StopPhase::Terminate => 500,
        StopPhase::Kill => 1500,
    }
}

/// How long a process is waited for, in milliseconds.
pub fn grace_of(phase: StopPhase) -> (r: u64)
    ensures
        r == stop_grace(phase),
{
    match phase {
        StopPhase::Interrupt => 1500,
        StopPhase::Terminate => 500,
        StopPhase::Kill => 1500,
    }
}

/// What is done where a process has not ended.
pub open spec fn next_phase(phase: StopPhase) -> Option<StopPhase> {
    match phase {
        StopPhase::Interrupt => Some(StopPhase::Terminate),
        StopPhase::Terminate => Some(StopPhase::Kill),
        StopPhase::Kill => None,
    }
}

/// What is done where a process has not ended: more, or the stop has failed.
pub fn after_grace(phase: StopPhase) -> (r: Result<StopPhase, ProtocolError>)
    ensures
        match next_phase(phase) {
            Some(next) => r == Ok::<StopPhase, ProtocolError>(next),
            None => r matches Err(e) && e@ == error_of(
                "agent_stop_failed"@,
                "Codex did not release its process group; this session is not safe to resume yet."@,
            ),
        },
{
    match phase {
        StopPhase::Interrupt => Ok(StopPhase::Terminate),
        StopPhase::Terminate => Ok(StopPhase::Kill),
        StopPhase::Kill => Err(
            protocol_error(
                "agent_stop_failed",
                "Codex did not release its process group; this session is not safe to resume yet.",
            ),
        ),
    }
}

/// A process is asked to end first, then its group is told to, then the group is
/// killed, and only when that does not help the stop has failed.
pub proof fn lemma_stopping_grows_firmer()
    ensures
        next_phase(StopPhase::Interrupt) == Some(StopPhase::Terminate),
        next_phase(StopPhase::Terminate) == Some(StopPhase::Kill),
        next_phase(StopPhase::Kill) is None,
        forall|phase: StopPhase| 0 < #[trigger] stop_grace(phase) <= 1500,
        stop_grace(StopPhase::Interrupt) == 1500,
        stop_grace(StopPhase::Terminate) == 500,
        stop_grace(StopPhase::Kill) == 1500,
{
}

/// An agent that is asked to stop is stopping while its process lives and interrupted
/// where it has none; it can no longer be stopped either way, and an app server's
/// turn is over at once.
pub proof fn lemma_stop_is_taken_up(state: RuntimeView, agent_id: u128, now: i64)
    requires
        state.agent(agent_id) is Some,
    ensures
        stop_asked(state, agent_id, now) is Some,
        ({
            let step = stop_asked(state, agent_id, now)->0;
            let after = step.state.agent(agent_id);
            &&& after is Some
            &&& !after->0.run.can_stop
            &&& after->0.run.updated_at == now
            &&& after->0.messages == state.agent(agent_id)->0.messages
            &&& state.child(agent_id) is Some ==> after->0.run.state == AgentState::Stopping
                && after->0.run.last_visible_action == Some("Stopping Codex"@)
            &&& state.child(agent_id) is None ==> after->0.run.state == AgentState::Interrupted
                && after->0.run.last_visible_action == Some("Stopped by user"@) && after->0.run.finished_at
                == Some(now)
            &&& step.state.children == state.children
            &&& !(state.child(agent_id) is Some && state.child(agent_id)->0.app_server) ==> step.state.turns
                == state.turns && step.state.permissions == state.permissions
        }),
{
    let freed = stop_freed(state, agent_id);
    assert(freed.agents == state.agents);
    lemma_found_agent_has_its_id(freed, agent_id);
    let step = stop_asked(state, agent_id, now)->0;
    let i = freed.agent_at(agent_id)->0;
    lemma_saved_agent_is_found(freed, agent_id, step.state.agents[i], agent_id);
}

/// A prompt that reached a process makes its agent work on that prompt with that
/// profile, clears what is left of an earlier run, and joins the chat as the user's.
pub proof fn lemma_prompts_are_taken_up(
    state: RuntimeView,
    agent_id: u128,
    prompt: Seq<char>,
    profile: ProfileView,
    run_id: u128,
    app_server: bool,
    now: i64,
)
    ensures
        prompted(state, agent_id, prompt, profile, run_id, app_server, now) is Some <==> state.agent(
            agent_id,
        ) is Some,
        state.agent(agent_id) is Some ==> {
            let step = prompted(state, agent_id, prompt, profile, run_id, app_server, now)->0;
            let after = step.state.agent(agent_id);
            &&& after is Some
            &&& after->0.run.state == AgentState::Working
            &&& after->0.run.can_stop
            &&& after->0.run.execution_profile == profile
            &&& after->0.run.current_prompt == Some(prompt)
            &&& after->0.run.finished_at is None
            &&& after->0.run.exit_code is None
            &&& after->0.run.native_session_id == state.agent(agent_id)->0.run.native_session_id
            &&& after->0.terminal_failure is None
            &&& after->0.messages.drop_last() == state.agent(agent_id)->0.messages
            &&& after->0.messages.last().role == AgentChatRole::User
            &&& after->0.messages.last().text == prompt
            &&& step.state.child(agent_id) == Some(ActiveRun { agent_id, run_id, app_server })
            &&& app_server ==> step.state.turns == state.turns.push(agent_id)
            &&& !app_server ==> step.state.turns == state.turns
        },
{
    lemma_found_agent_has_its_id(state, agent_id);
    if state.agent(agent_id) is Some {
        let i = state.agent_at(agent_id)->0;
        let step = prompted(state, agent_id, prompt, profile, run_id, app_server, now)->0;
        let agent = step.state.agents[i];
        lemma_saved_agent_is_found(state, agent_id, agent, agent_id);
        assert(step.state.agents == agent_saved(state, i, agent).state.agents);
        assert(agent.messages.drop_last() =~= state.agents[i].messages);
        lemma_child_put(state.children, ActiveRun { agent_id, run_id, app_server });
    }
}

proof fn lemma_child_put(children: Seq<ActiveRun>, child: ActiveRun)
    ensures
        position(child_ids(child_put(children, child)), child.agent_id) is Some,
        child_put(children, child)[position(child_ids(child_put(children, child)), child.agent_id)->0] == child,
{
    lemma_position(child_ids(children), child.agent_id);
    let after = child_put(children, child);
    match position(child_ids(children), child.agent_id) {
        Some(i) => {
            assert(child_ids(after) =~= child_ids(children));
        },
        None => {
            assert(child_ids(after) =~= child_ids(children).push(child.agent_id));
            assert(child_ids(after).drop_last() =~= child_ids(children));
        },
    }
}

/// An agent takes a prompt exactly where it is known, at rest, can be resumed, and
/// belongs to the Codex home that is in use; each refusal has its own code.
pub proof fn lemma_prompts_need_an_agent_at_rest(state: RuntimeView, agent_id: u128)
    ensures
        state.agent(agent_id) is None ==> prompt_refusal(state, agent_id) is Some && prompt_refusal(
            state,
            agent_id,
        )->0.code == "agent_not_found"@,
        state.agent(agent_id) is Some ==> {
            let run = state.agent(agent_id)->0.run;
            let busy = state.child(agent_id) is Some || run.state == AgentState::Starting || run.state
                == AgentState::Working || run.state == AgentState::Stopping;
            let threadless = run.native_session_id is None && (run.state == AgentState::Failed || run.state
                == AgentState::Interrupted || run.state == AgentState::Stale);
            let refused = prompt_refusal(state, agent_id);
            &&& refused is None <==> !busy && !threadless && run.origin_codex_home == state.codex_home
            &&& busy ==> refused->0.code == "agent_busy"@
            &&& !busy && threadless ==> refused->0.code == "agent_not_resumable"@
            &&& !busy && !threadless && run.origin_codex_home != state.codex_home ==> refused->0.code
                == "codex_home_mismatch"@
        },
{
}

/// A thread is resumed only for the project that it was made in, and only with the
/// Codex home that it was made under.
pub proof fn lemma_threads_stay_with_their_project(state: RuntimeView, thread: Seq<char>, root: Seq<char>)
    ensures
        match thread_at(state.agents, thread) {
            None => thread_refusal(state, thread, root) is None,
            Some(i) => {
                &&& 0 <= i < state.agents.len()
                &&& state.agents[i].run.native_session_id == Some(thread)
                &&& thread_refusal(state, thread, root) is None <==> path_parts(state.agents[i].project_root)
                    == path_parts(root) && state.agents[i].run.origin_codex_home == state.codex_home
            },
        },
{
    lemma_thread_is_of_an_agent(state.agents, thread);
}

proof fn lemma_thread_is_of_an_agent(agents: Seq<AgentView>, thread: Seq<char>)
    ensures
        match thread_at(agents, thread) {
            Some(i) => 0 <= i < agents.len() && agents[i].run.native_session_id == Some(thread),
            None => forall|k: int|
                0 <= k < agents.len() ==> (#[trigger] agents[k]).run.native_session_id != Some(thread),
        },
    decreases agents.len(),
{
    if agents.len() > 0 {
        lemma_thread_is_of_an_agent(agents.drop_last(), thread);
        assert forall|k: int| 0 <= k < agents.len() - 1 implies agents.drop_last()[k] == agents[k] by {}
    }
}

/// A new session starts with what was asked: its prompt, its profile and its thread;
/// once its process runs it works and can be stopped, and one whose process could not
/// be started has failed.
pub proof fn lemma_new_sessions_are_as_asked(
    kind: SessionKind,
    id: u128,
    project_id: u128,
    mode: CodexLaunchMode,
    profile: ProfileView,
    prompt: Seq<char>,
    thread: Option<Seq<char>>,
    home: Option<Seq<char>>,
    error: Seq<char>,
    now: i64,
)
    ensures
        ({
            let run = new_run_view(kind, id, project_id, mode, profile, prompt, thread, home, now);
            let launched = launched_run(kind, run, now);
            let failed = failed_run(run, error, now);
            &&& run.id == id && run.project_id == project_id && run.launch_mode == mode
            &&& run.execution_profile == profile
            &&& run.current_prompt == Some(prompt)
            &&& run.native_session_id == thread
            &&& run.origin_codex_home == home
            &&& run.state == AgentState::Starting && !run.can_stop
            &&& launched.state == AgentState::Working && launched.can_stop
            &&& launched.execution_profile == profile && launched.current_prompt == Some(prompt)
            &&& failed.state == AgentState::Failed && !failed.can_stop
            &&& failed.state_evidence == error
            &&& failed.finished_at == Some(now)
            &&& failed.resume_block_reason is None <==> thread is Some
        }),
{
}

/// A session that was started is kept with its project's folder and rules, with its
/// process, and with the first message of its chat.
pub proof fn lemma_started_sessions_are_kept(
    state: RuntimeView,
    project: ProjectView,
    run: RunView,
    message: MessageView,
    run_id: u128,
    app_server: bool,
)
    ensures
        ({
            let step = session_started(state, project, run, message, run_id, app_server);
            let agent = step.state.agent(run.id);
            &&& agent is Some
            &&& agent->0.run == run
            &&& agent->0.project_root == project.root
            &&& agent->0.allow_non_git <==> project.git_policy == ProjectGitPolicy::AllowOutsideGit
            &&& agent->0.messages == seq![message]
            &&& agent->0.terminal_failure is None
            &&& step.state.child(run.id) == Some(ActiveRun { agent_id: run.id, run_id, app_server })
            &&& app_server ==> step.state.turns == state.turns.push(run.id)
            &&& !app_server ==> step.state.turns == state.turns
            &&& step.effects.contains(EffectView::Tell(ServerEventView::AgentChanged(run)))
        }),
{
    let step = session_started(state, project, run, message, run_id, app_server);
    lemma_child_put(state.children, ActiveRun { agent_id: run.id, run_id, app_server });
    let agent = session_agent(project, run, seq![message], None);
    lemma_position(agent_ids(state.agents), run.id);
    match position(agent_ids(state.agents), run.id) {
        Some(i) => {
            assert(agent_ids(step.state.agents) =~= agent_ids(state.agents));
        },
        None => {
            assert(agent_ids(step.state.agents) =~= agent_ids(state.agents).push(run.id));
            assert(agent_ids(step.state.agents).drop_last() =~= agent_ids(state.agents));
        },
    }
    if app_server {
        assert(step.effects[0] == EffectView::Tell(ServerEventView::AgentChanged(run)));
    } else {
        assert(step.effects[1] == EffectView::Tell(ServerEventView::AgentChanged(run)));
    }
}

/// A session that could not be started is kept as failed, with the reason as its
/// last message and its failure; nothing of it can be mistaken for a run that
/// ended.
pub proof fn lemma_failed_starts_are_kept(run: RunView, error: Seq<char>, now: i64)
    ensures
        failed_run(run, error, now).state == AgentState::Failed,
        failed_run(run, error, now).id == run.id,
        failed_run(run, error, now).project_id == run.project_id,
        failed_run(run, error, now).state_evidence == error,
        failed_run(run, error, now).finished_at == Some(now),
        failed_run(run, error, now).updated_at == now,
        failed_run(run, error, now).native_session_id == run.native_session_id,
{
}

/// The notice of a failed start names the agent and its project, has not been
/// read, and is of the kind for failures.
pub proof fn lemma_failed_starts_are_noticed(project: ProjectView, run: RunView, error: Seq<char>, now: i64, fresh: u128)
    ensures
        launch_notice(project, run, error, now, fresh).id == fresh,
        launch_notice(project, run, error, now, fresh).kind == AttentionKind::Failed,
        launch_notice(project, run, error, now, fresh).agent_id == Some(run.id),
        launch_notice(project, run, error, now, fresh).project_id == Some(project.id),
        launch_notice(project, run, error, now, fresh).project_name == Some(project.name),
        launch_notice(project, run, error, now, fresh).body == summary_of(error),
        launch_notice(project, run, error, now, fresh).created_at == now,
        launch_notice(project, run, error, now, fresh).read_at is None,
{
}

/// A failed start keeps its project, its agent with both messages, and its notice,
/// and tells of each of them.
pub proof fn lemma_failed_starts_are_told(state: RuntimeView, failure: LaunchFailure)
    ensures
        ({
            let step = launch_failed(state, failure);
            &&& step.state.attention == state.attention.push(failure.attention@)
            &&& exists|i: int|
                0 <= i < step.state.agents.len() && (#[trigger] step.state.agents[i]).run == failure.run@
                    && step.state.agents[i].messages == seq![failure.user_message@, failure.system_message@]
                    && step.state.agents[i].terminal_failure == Some(failure.system_message.text@)
                    && step.state.agents[i].project_root == failure.project@.root
            &&& step.effects.len() == 5
            &&& step.effects.contains(EffectView::Tell(ServerEventView::ProjectChanged(failure.project@)))
            &&& step.effects.contains(EffectView::Tell(ServerEventView::AgentChanged(failure.run@)))
            &&& step.effects.contains(
                EffectView::Tell(ServerEventView::AgentMessageAppended(failure.user_message@)),
            )
            &&& step.effects.contains(
                EffectView::Tell(ServerEventView::AgentMessageAppended(failure.system_message@)),
            )
            &&& step.effects.contains(EffectView::Tell(ServerEventView::AttentionRaised(failure.attention@)))
            &&& step.state.children == state.children
            &&& step.state.turns == state.turns
        }),
{
    let step = launch_failed(state, failure);
    assert(step.effects[0] == EffectView::Tell(ServerEventView::ProjectChanged(failure.project@)));
    assert(step.effects[1] == EffectView::Tell(ServerEventView::AgentChanged(failure.run@)));
    assert(step.effects[2] == EffectView::Tell(
        ServerEventView::AgentMessageAppended(failure.user_message@),
    ));
    assert(step.effects[3] == EffectView::Tell(
        ServerEventView::AgentMessageAppended(failure.system_message@),
    ));
    assert(step.effects[4] == EffectView::Tell(ServerEventView::AttentionRaised(failure.attention@)));
    let agent = session_agent(
        failure.project@,
        failure.run@,
        seq![failure.user_message@, failure.system_message@],
        Some(failure.system_message.text@),
    );
    lemma_position(agent_ids(state.agents), agent.run.id);
    match position(agent_ids(state.agents), agent.run.id) {
        Some(i) => {
            assert(step.state.agents[i] == agent);
        },
        None => {
            assert(step.state.agents[state.agents.len() as int] == agent);
        },
    }
}

} // verus!
