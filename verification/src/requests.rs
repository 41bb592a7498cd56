//! Where a request is carried out: here, or on the SSH host that the thing it is
//! about belongs to.

use crate::app_server::QuestionAnswer;
use crate::model::{
    error_of, protocol_error, AgentExecutionProfile, AgentRun, CodexLaunchMode, ErrorView, Project,
    ProjectView, ProtocolError,
};
use crate::records::remote_project_deleted;
use crate::remote_hosts::{agent_cached, permission_dropped};
use crate::state::{
    does, effects_view, host_dropped, host_ids, host_of, host_put, lemma_position, position, stays, Effect,
    RuntimeState, RuntimeView,
    Step,
};
use vstd::prelude::*;

verus! {

/// Who makes an agent.
#[derive(Clone, Copy, Debug, PartialEq, Eq, Structural)]
pub enum AgentProvider {
    Codex,
    Claude,
}

/// A request whose place depends on what it is about.
#[allow(inconsistent_fields)]
#[derive(Debug)]
pub enum ClientRequest {
    ListAgentMessages { agent_id: u128, before_sequence: Option<u64>, limit: u64 },
    PromptAgent { agent_id: u128, prompt: String, execution_profile: AgentExecutionProfile },
    StopAgent { agent_id: u128 },
    ForceKillAgent { agent_id: u128 },
    DeleteAgent { agent_id: u128 },
    RenameAgent { agent_id: u128, title: Option<String> },
    PromptRemoteCodexAppServerAgent {
        agent_id: u128,
        prompt: String,
        execution_profile: AgentExecutionProfile,
    },
    StartCodexSession {
        project_id: Option<u128>,
        project_name: String,
        project_root: String,
        prompt: String,
        mode: CodexLaunchMode,
        execution_profile: AgentExecutionProfile,
    },
    ResumeCodexSession {
        project_id: Option<u128>,
        project_name: String,
        project_root: String,
        thread_id: String,
        prompt: String,
        execution_profile: AgentExecutionProfile,
    },
    StartRemoteCodexAppServerSession {
        project_id: u128,
        project_name: String,
        project_root: String,
        prompt: String,
        execution_profile: AgentExecutionProfile,
    },
    ResumeRemoteCodexAppServerSession {
        project_id: u128,
        project_name: String,
        project_root: String,
        thread_id: String,
        prompt: String,
        execution_profile: AgentExecutionProfile,
    },
    ListAgentModels { provider: AgentProvider, project_id: Option<u128> },
    DeleteProject { project_id: u128 },
    CheckRemoteProject { project_id: u128 },
    ListProjectDirectory { project_id: u128, relative_path: String },
    ReadProjectFile { project_id: u128, relative_path: String },
    WriteProjectFile {
        project_id: u128,
        relative_path: String,
        expected_revision: Option<String>,
        content: String,
    },
    OpenProjectTerminal { project_id: u128, columns: u16, rows: u16 },
    WriteProjectTerminal { terminal_id: u128, data: Vec<u8> },
    ResizeProjectTerminal { terminal_id: u128, columns: u16, rows: u16 },
    CloseProjectTerminal { terminal_id: u128 },
    OpenRemoteCodexSandboxSetup { alias: String, columns: u16, rows: u16 },
    OpenRemoteCodexAuthentication { alias: String, columns: u16, rows: u16 },
    OpenCodexSandboxSetup { columns: u16, rows: u16 },
    OpenCodexAuthentication { columns: u16, rows: u16 },
    WriteSetupTerminal { terminal_id: u128, data: Vec<u8> },
    ResizeSetupTerminal { terminal_id: u128, columns: u16, rows: u16 },
    TakeSetupTerminalOutput { terminal_id: u128 },
    CloseSetupTerminal { terminal_id: u128 },
    DismissAttention { attention_id: u128 },
    ApprovePermission { request_id: u128 },
    ApprovePermissionForSession { request_id: u128 },
    DenyPermission { request_id: u128, reason: String },
    AnswerAgentQuestions { request_id: u128, answers: Vec<QuestionAnswer> },
    GetPermission { request_id: u128 },
    Snapshot,
    RemoteControlStatus,
    CreateRemotePairing,
    GetRemotePairing { pairing_id: u128 },
    ConfirmRemotePairing { pairing_id: u128 },
    CancelRemotePairing { pairing_id: u128 },
    RevokeRemoteDevice { device_id: u128 },
    DisableRemoteControl,
    StartCodex,
    SubscribeEvents,
    SubscribeAttention,
}

/// What is kept here once a host has answered.
#[derive(Debug)]
pub enum Follow {
    /// Nothing.
    Nothing,
    /// The host of the terminal that it opened.
    KeepTerminal,
    /// The terminal is no longer on a host.
    DropTerminal(u128),
    /// The permission is settled.
    SettlePermission(u128),
    /// The agent that it started for a project.
    CacheAgent(Project),
    /// The project is gone.
    DropProject(u128),
}

/// The mathematical value of what is kept here.
pub enum FollowView {
    Nothing,
    KeepTerminal,
    DropTerminal(u128),
    SettlePermission(u128),
    CacheAgent(ProjectView),
    DropProject(u128),
}

impl View for Follow {
    type V = FollowView;

    open spec fn view(&self) -> FollowView {
        match self {
            Follow::Nothing => FollowView::Nothing,
            Follow::KeepTerminal => FollowView::KeepTerminal,
            Follow::DropTerminal(id) => FollowView::DropTerminal(*id),
            Follow::SettlePermission(id) => FollowView::SettlePermission(*id),
            Follow::CacheAgent(project) => FollowView::CacheAgent(project@),
            Follow::DropProject(id) => FollowView::DropProject(*id),
        }
    }
}

/// Where a request is carried out.
#[derive(Debug)]
pub enum Place {
    /// Nowhere.
    Refused(ProtocolError),
    /// By this runtime.
    Here(ClientRequest),
    /// By the runtime on an SSH host. Where `subscribe` is set, the events of the
    /// host are followed first.
    Host { alias: String, request: ClientRequest, subscribe: bool, follow: Follow },
}

/// Where a request is carried out, without what is sent to a host.
pub enum PlaceView {
    Refused(ErrorView),
    Here,
    Host { alias: Seq<char>, subscribe: bool, follow: FollowView },
}

/// The place of what has a host of its own in a table.
pub open spec fn hosted_place(hosts: Seq<(u128, Seq<char>)>, id: u128, subscribe: bool, follow: FollowView) -> PlaceView {
    match host_of(hosts, id) {
        Some(alias) => PlaceView::Host { alias, subscribe, follow },
        None => PlaceView::Here,
    }
}

/// That a project is not known.
pub open spec fn unknown_project() -> PlaceView {
    PlaceView::Refused(error_of("project_not_found"@, "project was not found"@))
}

/// The place of what is done in a project.
pub open spec fn project_place(state: RuntimeView, project_id: u128, subscribe: bool, follow: FollowView) -> PlaceView {
    match state.project(project_id) {
        None => unknown_project(),
        Some(project) => match project.host() {
            Some(alias) => PlaceView::Host { alias, subscribe, follow },
            None => PlaceView::Here,
        },
    }
}

/// The place of a session. One that names a project never runs anywhere but
/// where the project is.
pub open spec fn session_place(state: RuntimeView, project_id: Option<u128>) -> PlaceView {
    match project_id {
        None => PlaceView::Here,
        Some(id) => match state.project(id) {
            None => unknown_project(),
            Some(project) => project_place(state, id, true, FollowView::CacheAgent(project)),
        },
    }
}

/// The place of a request about a phone.
pub open spec fn mobile_place(state: RuntimeView) -> PlaceView {
    if state.remote_runtime {
        PlaceView::Refused(
            error_of(
                "wrong_execution_target"@,
                "Mobile control is available through the Mac runtime only"@,
            ),
        )
    } else {
        PlaceView::Here
    }
}

/// Where a request is carried out.
pub open spec fn place_of(state: RuntimeView, request: ClientRequest) -> PlaceView {
    match request {
        ClientRequest::ListAgentMessages { agent_id, .. } => hosted_place(
            state.agent_hosts,
            agent_id,
            false,
            FollowView::Nothing,
        ),
        ClientRequest::PromptAgent { agent_id, .. } => hosted_place(
            state.agent_hosts,
            agent_id,
            true,
            FollowView::Nothing,
        ),
        ClientRequest::StopAgent { agent_id } => hosted_place(
            state.agent_hosts,
            agent_id,
            false,
            FollowView::Nothing,
        ),
        ClientRequest::ForceKillAgent { agent_id } => hosted_place(
            state.agent_hosts,
            agent_id,
            false,
            FollowView::Nothing,
        ),
        ClientRequest::DeleteAgent { agent_id } => hosted_place(
            state.agent_hosts,
            agent_id,
            false,
            FollowView::Nothing,
        ),
        ClientRequest::RenameAgent { agent_id, .. } => hosted_place(
            state.agent_hosts,
            agent_id,
            false,
            FollowView::Nothing,
        ),
        ClientRequest::StartCodexSession { project_id, .. } => session_place(state, project_id),
        ClientRequest::ResumeCodexSession { project_id, .. } => session_place(state, project_id),
        ClientRequest::ListAgentModels { project_id, .. } => match project_id {
            Some(id) => match state.project(id) {
                Some(_) => project_place(state, id, false, FollowView::Nothing),
                None => PlaceView::Here,
            },
            None => PlaceView::Here,
        },
        ClientRequest::DeleteProject { project_id } => project_place(
            state,
            project_id,
            false,
            FollowView::DropProject(project_id),
        ),
        ClientRequest::CheckRemoteProject { project_id } => match state.project(project_id) {
            Some(project) if project.host() is None => PlaceView::Refused(
                error_of("wrong_execution_target"@, "project is local"@),
            ),
            _ => project_place(state, project_id, false, FollowView::Nothing),
        },
        ClientRequest::ListProjectDirectory { project_id, .. } => project_place(
            state,
            project_id,
            false,
            FollowView::Nothing,
        ),
        ClientRequest::ReadProjectFile { project_id, .. } => project_place(
            state,
            project_id,
            false,
            FollowView::Nothing,
        ),
        ClientRequest::WriteProjectFile { project_id, .. } => match state.project(project_id) {
            Some(project) if project.host() is Some => PlaceView::Refused(
                error_of(
                    "remote_source_editing_not_supported"@,
                    "remote project files are read-only in the desktop file browser"@,
                ),
            ),
            _ => project_place(state, project_id, false, FollowView::Nothing),
        },
        ClientRequest::OpenProjectTerminal { project_id, .. } => project_place(
            state,
            project_id,
            true,
            FollowView::KeepTerminal,
        ),
        ClientRequest::WriteProjectTerminal { terminal_id, .. } => hosted_place(
            state.terminal_hosts,
            terminal_id,
            false,
            FollowView::Nothing,
        ),
        ClientRequest::ResizeProjectTerminal { terminal_id, .. } => hosted_place(
            state.terminal_hosts,
            terminal_id,
            false,
            FollowView::Nothing,
        ),
        ClientRequest::CloseProjectTerminal { terminal_id } => hosted_place(
            state.terminal_hosts,
            terminal_id,
            false,
            FollowView::Nothing,
        ),
        ClientRequest::OpenRemoteCodexSandboxSetup { alias, .. } => PlaceView::Host {
            alias: alias@,
            subscribe: false,
            follow: FollowView::KeepTerminal,
        },
        ClientRequest::OpenRemoteCodexAuthentication { alias, .. } => PlaceView::Host {
            alias: alias@,
            subscribe: false,
            follow: FollowView::KeepTerminal,
        },
        ClientRequest::WriteSetupTerminal { terminal_id, .. } => hosted_place(
            state.terminal_hosts,
            terminal_id,
            false,
            FollowView::Nothing,
        ),
        ClientRequest::ResizeSetupTerminal { terminal_id, .. } => hosted_place(
            state.terminal_hosts,
            terminal_id,
            false,
            FollowView::Nothing,
        ),
        ClientRequest::TakeSetupTerminalOutput { terminal_id } => hosted_place(
            state.terminal_hosts,
            terminal_id,
            false,
            FollowView::Nothing,
        ),
        ClientRequest::CloseSetupTerminal { terminal_id } => hosted_place(
            state.terminal_hosts,
            terminal_id,
            false,
            FollowView::DropTerminal(terminal_id),
        ),
        ClientRequest::DismissAttention { attention_id } => hosted_place(
            state.attention_hosts,
            attention_id,
            false,
            FollowView::Nothing,
        ),
        ClientRequest::AnswerAgentQuestions { request_id, .. } => hosted_place(
            state.permission_hosts,
            request_id,
            false,
            FollowView::Nothing,
        ),
        ClientRequest::GetPermission { request_id } => hosted_place(
            state.permission_hosts,
            request_id,
            false,
            FollowView::Nothing,
        ),
        ClientRequest::ApprovePermission { request_id } => hosted_place(
            state.permission_hosts,
            request_id,
            false,
            FollowView::SettlePermission(request_id),
        ),
        ClientRequest::ApprovePermissionForSession { request_id } => hosted_place(
            state.permission_hosts,
            request_id,
            false,
            FollowView::SettlePermission(request_id),
        ),
        ClientRequest::DenyPermission { request_id, .. } => hosted_place(
            state.permission_hosts,
            request_id,
            false,
            FollowView::SettlePermission(request_id),
        ),
        ClientRequest::RemoteControlStatus
        | ClientRequest::CreateRemotePairing
        | ClientRequest::GetRemotePairing { .. }
        | ClientRequest::ConfirmRemotePairing { .. }
        | ClientRequest::CancelRemotePairing { .. }
        | ClientRequest::RevokeRemoteDevice { .. }
        | ClientRequest::DisableRemoteControl => mobile_place(state),
        ClientRequest::StartCodex
        | ClientRequest::SubscribeEvents
        | ClientRequest::SubscribeAttention => PlaceView::Refused(
            error_of("unsupported_request"@, "request is not implemented by this runtime"@),
        ),
        _ => PlaceView::Here,
    }
}

/// That a request is sent to a host in the form that the host carries out.
pub open spec fn is_sent(state: RuntimeView, request: ClientRequest, sent: ClientRequest) -> bool {
    match request {
        ClientRequest::PromptAgent { agent_id, prompt, execution_profile } => sent
            == ClientRequest::PromptRemoteCodexAppServerAgent { agent_id, prompt, execution_profile },
        ClientRequest::StartCodexSession { project_id, prompt, execution_profile, .. } => {
            &&& project_id is Some
            &&& state.project(project_id->0) matches Some(project)
            &&& sent matches ClientRequest::StartRemoteCodexAppServerSession {
                project_id: id,
                project_name: name,
                project_root: root,
                prompt: text,
                execution_profile: profile,
            }
            &&& id == project.id
            &&& name@ == project.name
            &&& root@ == project.root
            &&& text == prompt
            &&& profile == execution_profile
        },
        ClientRequest::ResumeCodexSession { project_id, thread_id, prompt, execution_profile, .. } => {
            &&& project_id is Some
            &&& state.project(project_id->0) matches Some(project)
            &&& sent matches ClientRequest::ResumeRemoteCodexAppServerSession {
                project_id: id,
                project_name: name,
                project_root: root,
                thread_id: thread,
                prompt: text,
                execution_profile: profile,
            }
            &&& id == project.id
            &&& name@ == project.name
            &&& root@ == project.root
            &&& thread == thread_id
            &&& text == prompt
            &&& profile == execution_profile
        },
        ClientRequest::CheckRemoteProject { .. } => sent == ClientRequest::Snapshot,
        ClientRequest::OpenRemoteCodexSandboxSetup { columns, rows, .. } => sent
            == ClientRequest::OpenCodexSandboxSetup { columns, rows },
        ClientRequest::OpenRemoteCodexAuthentication { columns, rows, .. } => sent
            == ClientRequest::OpenCodexAuthentication { columns, rows },
        ClientRequest::DenyPermission { request_id, .. } => {
            &&& sent matches ClientRequest::DenyPermission { request_id: id, reason }
            &&& id == request_id
            &&& reason@ == "Denied by user"@
        },
        _ => sent == request,
    }
}

/// What changes here as soon as a request is placed: a project's terminal that is
/// closed is no longer on a host.
pub open spec fn placed_state(state: RuntimeView, request: ClientRequest) -> RuntimeView {
    match request {
        ClientRequest::CloseProjectTerminal { terminal_id } => RuntimeView {
            terminal_hosts: host_dropped(state.terminal_hosts, terminal_id),
            ..state
        },
        _ => state,
    }
}

/// That a place is what a request calls for.
pub open spec fn is_place(state: RuntimeView, request: ClientRequest, place: Place) -> bool {
    match place_of(state, request) {
        PlaceView::Refused(error) => place matches Place::Refused(e) && e@ == error,
        PlaceView::Here => place == Place::Here(request),
        PlaceView::Host { alias, subscribe, follow } => {
            &&& place matches Place::Host { alias: a, request: sent, subscribe: s, follow: f }
            &&& a@ == alias
            &&& s == subscribe
            &&& f@ == follow
            &&& is_sent(state, request, sent)
        },
    }
}

/// That a project is not known.
fn no_project() -> (r: Place)
    ensures
        r matches Place::Refused(e) && e@ == error_of("project_not_found"@, "project was not found"@),
{
    Place::Refused(protocol_error("project_not_found", "project was not found"))
}

/// A request about what may be on a host is sent there unchanged.
fn forwarded(host: Option<&str>, request: ClientRequest, follow: Follow) -> (r: Place)
    ensures
        match host {
            Some(alias) => r matches Place::Host { alias: a, request: sent, subscribe: false, follow: f }
                && a@ == alias@ && sent == request && f == follow,
            None => r == Place::Here(request),
        },
{
    match host {
        Some(alias) => Place::Host { alias: alias.to_owned(), request, subscribe: false, follow },
        None => Place::Here(request),
    }
}

/// Where a project is.
enum ProjectPlace {
    Unknown,
    Local,
    Remote(String, Project),
}

impl RuntimeState {
    /// Where a project is.
    fn find_place(&self, project_id: u128) -> (r: ProjectPlace)
        ensures
            match r {
                ProjectPlace::Unknown => self@.project(project_id) is None,
                ProjectPlace::Local => self@.project(project_id) matches Some(project)
                    && project.host() is None,
                ProjectPlace::Remote(alias, project) => self@.project(project_id) == Some(project@)
                    && project@.host() == Some(alias@),
            },
    {
        match self.find_project(project_id) {
            None => ProjectPlace::Unknown,
            Some(i) => match self.projects[i].host_alias() {
                Some(alias) => ProjectPlace::Remote(alias.to_owned(), self.projects[i].copy()),
                None => ProjectPlace::Local,
            },
        }
    }

    /// A request about a project is carried out where the project is.
    fn project_request(&self, project_id: u128, request: ClientRequest, subscribe: bool, follow: Follow) -> (r:
        Place)
        ensures
            match project_place(self@, project_id, subscribe, follow@) {
                PlaceView::Refused(error) => r matches Place::Refused(e) && e@ == error,
                PlaceView::Here => r == Place::Here(request),
                PlaceView::Host { alias, .. } => r matches Place::Host {
                    alias: a,
                    request: sent,
                    subscribe: s,
                    follow: f,
                } && a@ == alias && sent == request && s == subscribe && f == follow,
            },
    {
        match self.find_place(project_id) {
            ProjectPlace::Unknown => no_project(),
            ProjectPlace::Local => Place::Here(request),
            ProjectPlace::Remote(alias, _) => Place::Host { alias, request, subscribe, follow },
        }
    }

    /// Where a request about an agent is carried out.
    fn place_agent(&self, agent_id: u128, request: ClientRequest) -> (r: Place)
        ensures
            match host_of(self@.agent_hosts, agent_id) {
                Some(alias) => r matches Place::Host { alias: a, request: sent, subscribe: false, follow: f }
                    && a@ == alias && sent == request && f == Follow::Nothing,
                None => r == Place::Here(request),
            },
    {
        forwarded(self.agent_hosts.host(agent_id), request, Follow::Nothing)
    }

    /// Where a request about a terminal is carried out.
    fn place_terminal(&self, terminal_id: u128, request: ClientRequest, follow: Follow) -> (r: Place)
        ensures
            match host_of(self@.terminal_hosts, terminal_id) {
                Some(alias) => r matches Place::Host { alias: a, request: sent, subscribe: false, follow: f }
                    && a@ == alias && sent == request && f == follow,
                None => r == Place::Here(request),
            },
    {
        forwarded(self.terminal_hosts.host(terminal_id), request, follow)
    }

    /// Where a request that begins a session is carried out.
    fn place_session(&self, request: ClientRequest) -> (r: Place)
        requires
            request is StartCodexSession || request is ResumeCodexSession,
        ensures
            is_place(self@, request, r),
    {
        let named = match &request {
            ClientRequest::StartCodexSession { project_id, .. } => *project_id,
            ClientRequest::ResumeCodexSession { project_id, .. } => *project_id,
            _ => None,
        };
        let id = match named {
            Some(id) => id,
            None => {
                return Place::Here(request);
            },
        };
        let (alias, project) = match self.find_place(id) {
            ProjectPlace::Unknown => {
                return no_project();
            },
            ProjectPlace::Local => {
                return Place::Here(request);
            },
            ProjectPlace::Remote(alias, project) => (alias, project),
        };
        let sent = match request {
            ClientRequest::StartCodexSession { prompt, execution_profile, .. } => {
                ClientRequest::StartRemoteCodexAppServerSession {
                    project_id: project.id,
                    project_name: project.name.clone(),
                    project_root: project.root.clone(),
                    prompt,
                    execution_profile,
                }
            },
            ClientRequest::ResumeCodexSession { thread_id, prompt, execution_profile, .. } => {
                ClientRequest::ResumeRemoteCodexAppServerSession {
                    project_id: project.id,
                    project_name: project.name.clone(),
                    project_root: project.root.clone(),
                    thread_id,
                    prompt,
                    execution_profile,
                }
            },
            other => other,
        };
        Place::Host { alias, request: sent, subscribe: true, follow: Follow::CacheAgent(project) }
    }

    /// Where a request about a project is carried out.
    fn place_project(&self, request: ClientRequest) -> (r: Place)
        requires
            request is ListAgentModels || request is DeleteProject || request is CheckRemoteProject
                || request is ListProjectDirectory || request is ReadProjectFile
                || request is WriteProjectFile || request is OpenProjectTerminal,
        ensures
            is_place(self@, request, r),
    {
        match &request {
            ClientRequest::ListAgentModels { project_id: Some(id), .. } => {
                let id = *id;
                match self.find_place(id) {
                    ProjectPlace::Remote(alias, _) => Place::Host {
                        alias,
                        request,
                        subscribe: false,
                        follow: Follow::Nothing,
                    },
                    _ => Place::Here(request),
                }
            },
            ClientRequest::DeleteProject { project_id } => {
                let id = *project_id;
                self.project_request(id, request, false, Follow::DropProject(id))
            },
            ClientRequest::CheckRemoteProject { project_id } => {
                match self.find_place(*project_id) {
                    ProjectPlace::Unknown => no_project(),
                    ProjectPlace::Local => Place::Refused(
                        protocol_error("wrong_execution_target", "project is local"),
                    ),
                    ProjectPlace::Remote(alias, _) => Place::Host {
                        alias,
                        request: ClientRequest::Snapshot,
                        subscribe: false,
                        follow: Follow::Nothing,
                    },
                }
            },
            ClientRequest::ListProjectDirectory { project_id, .. } => {
                let id = *project_id;
                self.project_request(id, request, false, Follow::Nothing)
            },
            ClientRequest::ReadProjectFile { project_id, .. } => {
                let id = *project_id;
                self.project_request(id, request, false, Follow::Nothing)
            },
            ClientRequest::WriteProjectFile { project_id, .. } => {
                match self.find_place(*project_id) {
                    ProjectPlace::Unknown => no_project(),
                    ProjectPlace::Local => Place::Here(request),
                    ProjectPlace::Remote(_, _) => Place::Refused(
                        protocol_error(
                            "remote_source_editing_not_supported",
                            "remote project files are read-only in the desktop file browser",
                        ),
                    ),
                }
            },
            ClientRequest::OpenProjectTerminal { project_id, .. } => {
                let id = *project_id;
                self.project_request(id, request, true, Follow::KeepTerminal)
            },
            _ => Place::Here(request),
        }
    }

    /// Where a request about a permission is carried out.
    fn place_permission(&self, request: ClientRequest) -> (r: Place)
        requires
            request is ApprovePermission || request is ApprovePermissionForSession
                || request is DenyPermission,
        ensures
            is_place(self@, request, r),
    {
        let id = match &request {
            ClientRequest::ApprovePermission { request_id } => *request_id,
            ClientRequest::ApprovePermissionForSession { request_id } => *request_id,
            ClientRequest::DenyPermission { request_id, .. } => *request_id,
            _ => {
                return Place::Here(request);
            },
        };
        match self.permission_hosts.host(id) {
            None => Place::Here(request),
            Some(alias) => {
                let sent = match request {
                    ClientRequest::DenyPermission { request_id, .. } => ClientRequest::DenyPermission {
                        request_id,
                        reason: "Denied by user".to_owned(),
                    },
                    other => other,
                };
                Place::Host {
                    alias: alias.to_owned(),
                    request: sent,
                    subscribe: false,
                    follow: Follow::SettlePermission(id),
                }
            },
        }
    }

    /// Where a request is carried out.
    pub fn place(&mut self, request: ClientRequest) -> (r: Place)
        ensures
            is_place(old(self)@, request, r),
            final(self)@ == placed_state(old(self)@, request),
    {
        match &request {
            ClientRequest::ListAgentMessages { agent_id, .. } => {
                let id = *agent_id;
                self.place_agent(id, request)
            },
            ClientRequest::StopAgent { agent_id } => {
                let id = *agent_id;
                self.place_agent(id, request)
            },
            ClientRequest::ForceKillAgent { agent_id } => {
                let id = *agent_id;
                self.place_agent(id, request)
            },
            ClientRequest::DeleteAgent { agent_id } => {
                let id = *agent_id;
                self.place_agent(id, request)
            },
            ClientRequest::RenameAgent { agent_id, .. } => {
                let id = *agent_id;
                self.place_agent(id, request)
            },
            ClientRequest::PromptAgent { .. } => self.place_prompt(request),
            ClientRequest::StartCodexSession { .. } | ClientRequest::ResumeCodexSession { .. } => {
                self.place_session(request)
            },
            ClientRequest::ListAgentModels { .. }
            | ClientRequest::DeleteProject { .. }
            | ClientRequest::CheckRemoteProject { .. }
            | ClientRequest::ListProjectDirectory { .. }
            | ClientRequest::ReadProjectFile { .. }
            | ClientRequest::WriteProjectFile { .. }
            | ClientRequest::OpenProjectTerminal { .. } => self.place_project(request),
            ClientRequest::WriteProjectTerminal { terminal_id, .. } => {
                let id = *terminal_id;
                self.place_terminal(id, request, Follow::Nothing)
            },
            ClientRequest::ResizeProjectTerminal { terminal_id, .. } => {
                let id = *terminal_id;
                self.place_terminal(id, request, Follow::Nothing)
            },
            ClientRequest::CloseProjectTerminal { terminal_id } => {
                let id = *terminal_id;
                let place = self.place_terminal(id, request, Follow::Nothing);
                self.terminal_hosts.remove(id);
                place
            },
            ClientRequest::OpenRemoteCodexSandboxSetup { alias, columns, rows } => Place::Host {
                alias: alias.clone(),
                request: ClientRequest::OpenCodexSandboxSetup { columns: *columns, rows: *rows },
                subscribe: false,
                follow: Follow::KeepTerminal,
            },
            ClientRequest::OpenRemoteCodexAuthentication { alias, columns, rows } => Place::Host {
                alias: alias.clone(),
                request: ClientRequest::OpenCodexAuthentication { columns: *columns, rows: *rows },
                subscribe: false,
                follow: Follow::KeepTerminal,
            },
            ClientRequest::WriteSetupTerminal { terminal_id, .. } => {
                let id = *terminal_id;
                self.place_terminal(id, request, Follow::Nothing)
            },
            ClientRequest::ResizeSetupTerminal { terminal_id, .. } => {
                let id = *terminal_id;
                self.place_terminal(id, request, Follow::Nothing)
            },
            ClientRequest::TakeSetupTerminalOutput { terminal_id } => {
                let id = *terminal_id;
                self.place_terminal(id, request, Follow::Nothing)
            },
            ClientRequest::CloseSetupTerminal { terminal_id } => {
                let id = *terminal_id;
                self.place_terminal(id, request, Follow::DropTerminal(id))
            },
            ClientRequest::DismissAttention { attention_id } => {
                let id = *attention_id;
                forwarded(self.attention_hosts.host(id), request, Follow::Nothing)
            },
            ClientRequest::AnswerAgentQuestions { request_id, .. } => {
                let id = *request_id;
                forwarded(self.permission_hosts.host(id), request, Follow::Nothing)
            },
            ClientRequest::GetPermission { request_id } => {
                let id = *request_id;
                forwarded(self.permission_hosts.host(id), request, Follow::Nothing)
            },
            ClientRequest::ApprovePermission { .. }
            | ClientRequest::ApprovePermissionForSession { .. }
            | ClientRequest::DenyPermission { .. } => self.place_permission(request),
            ClientRequest::RemoteControlStatus
            | ClientRequest::CreateRemotePairing
            | ClientRequest::GetRemotePairing { .. }
            | ClientRequest::ConfirmRemotePairing { .. }
            | ClientRequest::CancelRemotePairing { .. }
            | ClientRequest::RevokeRemoteDevice { .. }
            | ClientRequest::DisableRemoteControl => if self.remote_runtime {
                Place::Refused(
                    protocol_error(
                        "wrong_execution_target",
                        "Mobile control is available through the Mac runtime only",
                    ),
                )
            } else {
                Place::Here(request)
            },
            ClientRequest::StartCodex
            | ClientRequest::SubscribeEvents
            | ClientRequest::SubscribeAttention => Place::Refused(
                protocol_error("unsupported_request", "request is not implemented by this runtime"),
            ),
            _ => Place::Here(request),
        }
    }

    /// Where a prompt is carried out.
    fn place_prompt(&self, request: ClientRequest) -> (r: Place)
        requires
            request is PromptAgent,
        ensures
            is_place(self@, request, r),
    {
        match request {
            ClientRequest::PromptAgent { agent_id, prompt, execution_profile } => {
                match self.agent_hosts.host(agent_id) {
                    Some(alias) => Place::Host {
                        alias: alias.to_owned(),
                        request: ClientRequest::PromptRemoteCodexAppServerAgent {
                            agent_id,
                            prompt,
                            execution_profile,
                        },
                        subscribe: true,
                        follow: Follow::Nothing,
                    },
                    None => Place::Here(
                        ClientRequest::PromptAgent { agent_id, prompt, execution_profile },
                    ),
                }
            },
            other => Place::Here(other),
        }
    }
}

// ---- what a host answers ----

/// What a host answers, as far as it matters here.
#[derive(Debug)]
pub enum HostReply {
    /// It has done what was asked.
    Accepted,
    /// It has opened a terminal.
    Terminal(u128),
    /// It has started an agent.
    AgentStarted(AgentRun),
    /// It refuses.
    Refused(ProtocolError),
    /// Its projects.
    Projects(Vec<u128>),
    /// Its identity.
    Identity(u128),
    /// Anything else.
    Other,
    /// It cannot be reached.
    Unreachable(String),
}

/// What an answer of a host changes here.
pub open spec fn reply_followed(state: RuntimeView, alias: Seq<char>, follow: FollowView, reply: HostReply) -> Step {
    match (follow, reply) {
        (FollowView::KeepTerminal, HostReply::Terminal(id)) => stays(
            RuntimeView { terminal_hosts: host_put(state.terminal_hosts, id, alias), ..state },
        ),
        (FollowView::DropTerminal(id), HostReply::Accepted) => stays(
            RuntimeView { terminal_hosts: host_dropped(state.terminal_hosts, id), ..state },
        ),
        (FollowView::SettlePermission(id), HostReply::Accepted) => stays(
            RuntimeView {
                permission_hosts: host_dropped(state.permission_hosts, id),
                permissions: permission_dropped(state.permissions, id),
                ..state
            },
        ),
        (FollowView::CacheAgent(project), HostReply::AgentStarted(run)) => agent_cached(
            state,
            alias,
            project,
            run@,
        ),
        (FollowView::DropProject(id), HostReply::Accepted) => remote_project_deleted(state, id),
        _ => stays(state),
    }
}

/// What is answered in the place of a host's answer.
pub open spec fn reply_error(reply: HostReply) -> Option<ErrorView> {
    match reply {
        HostReply::Unreachable(text) => Some(error_of("remote_unavailable"@, text@)),
        _ => None,
    }
}

impl RuntimeState {
    /// Follows the answer of a host. The answer is handed on, but for a host that
    /// cannot be reached.
    pub fn follow_reply(&mut self, alias: &str, follow: &Follow, reply: &HostReply, effects: &mut Vec<Effect>) -> (r:
        Option<ProtocolError>)
        ensures
            does(
                old(effects)@,
                *final(self),
                final(effects)@,
                reply_followed(old(self)@, alias@, follow@, *reply),
            ),
            match reply_error(*reply) {
                Some(error) => r matches Some(e) && e@ == error,
                None => r is None,
            },
    {
        assert(effects_view(effects@) =~= effects_view(effects@) + Seq::empty());
        match (follow, reply) {
            (Follow::KeepTerminal, HostReply::Terminal(id)) => {
                self.terminal_hosts.put(*id, alias);
            },
            (Follow::DropTerminal(id), HostReply::Accepted) => {
                self.terminal_hosts.remove(*id);
            },
            (Follow::SettlePermission(id), HostReply::Accepted) => {
                self.settle_on_host(*id);
            },
            (Follow::CacheAgent(project), HostReply::AgentStarted(run)) => {
                self.cache_remote_agent(alias, project, run, effects);
            },
            (Follow::DropProject(id), HostReply::Accepted) => {
                self.delete_remote_project(*id, effects);
            },
            _ => {},
        }
        match reply {
            HostReply::Unreachable(text) => Some(protocol_error("remote_unavailable", text.as_str())),
            _ => None,
        }
    }
}

/// A request about a thing of a host never changes anything here by itself: it is
/// refused or sent to that host, and what a host that cannot be reached was asked
/// is not done here instead.
pub proof fn lemma_host_requests_stay_with_their_host(state: RuntimeView, request: ClientRequest, alias: Seq<char>, text: String)
    requires
        place_of(state, request) matches PlaceView::Host { alias: a, .. } && a == alias,
    ensures
        forall|place: Place| #[trigger]
            is_place(state, request, place) ==> place is Host,
        forall|follow: FollowView| #[trigger]
            reply_followed(state, alias, follow, HostReply::Unreachable(text)) == stays(state),
{
}

/// A session that names a project is begun where the project is: on its host, or
/// here where it is on none, and nowhere where it is not known.
pub proof fn lemma_sessions_run_where_their_project_is(state: RuntimeView, request: ClientRequest, project_id: u128)
    requires
        match request {
            ClientRequest::StartCodexSession { project_id: id, .. } => id == Some(project_id),
            ClientRequest::ResumeCodexSession { project_id: id, .. } => id == Some(project_id),
            _ => false,
        },
    ensures
        match state.project(project_id) {
            None => place_of(state, request) is Refused,
            Some(project) => match project.host() {
                Some(alias) => place_of(state, request) matches PlaceView::Host { alias: a, .. } && a
                    == alias,
                None => place_of(state, request) is Here,
            },
        },
{
}

/// Whether a host still has a project.
pub fn check_remote_project(project_id: u128, reply: &HostReply) -> (r: Result<(), ProtocolError>)
    ensures
        match *reply {
            HostReply::Projects(ids) => if ids@.contains(project_id) {
                r is Ok
            } else {
                r matches Err(e) && e@ == error_of(
                    "remote_project_missing"@,
                    "The remote daemon no longer has this project registration."@,
                )
            },
            HostReply::Refused(error) => r matches Err(e) && e@ == error@,
            HostReply::Unreachable(text) => r matches Err(e) && e@ == error_of(
                "remote_unavailable"@,
                text@,
            ),
            _ => r matches Err(e) && e@ == error_of(
                "remote_protocol_error"@,
                "remote daemon returned an unexpected response"@,
            ),
        },
{
    match reply {
        HostReply::Projects(ids) => if crate::kept::holds_id(ids, project_id) {
            Ok(())
        } else {
            Err(
                protocol_error(
                    "remote_project_missing",
                    "The remote daemon no longer has this project registration.",
                ),
            )
        },
        HostReply::Refused(error) => Err(
            protocol_error(error.code.as_str(), error.message.as_str()),
        ),
        HostReply::Unreachable(text) => Err(protocol_error("remote_unavailable", text.as_str())),
        _ => Err(
            protocol_error(
                "remote_protocol_error",
                "remote daemon returned an unexpected response",
            ),
        ),
    }
}

/// The machine on which a project is to be created.
pub fn remote_machine_identity(reply: &HostReply) -> (r: Result<u128, ProtocolError>)
    ensures
        match *reply {
            HostReply::Identity(id) => r == Ok::<u128, ProtocolError>(id),
            HostReply::Refused(error) => r matches Err(e) && e@ == error@,
            HostReply::Unreachable(text) => r matches Err(e) && e@ == error_of(
                "remote_unavailable"@,
                text@,
            ),
            _ => r matches Err(e) && e@ == error_of(
                "remote_identity_failed"@,
                "The remote daemon did not provide a stable machine identity."@,
            ),
        },
{
    match reply {
        HostReply::Identity(id) => Ok(*id),
        HostReply::Refused(error) => Err(
            protocol_error(error.code.as_str(), error.message.as_str()),
        ),
        HostReply::Unreachable(text) => Err(protocol_error("remote_unavailable", text.as_str())),
        _ => Err(
            protocol_error(
                "remote_identity_failed",
                "The remote daemon did not provide a stable machine identity.",
            ),
        ),
    }
}

/// Whether a host has taken its share of notices as read.
pub fn attention_reply(reply: &HostReply) -> (r: Result<(), ProtocolError>)
    ensures
        match *reply {
            HostReply::Accepted => r is Ok,
            HostReply::Refused(error) => r matches Err(e) && e@ == error@,
            HostReply::Unreachable(text) => r matches Err(e) && e@ == error_of(
                "remote_unavailable"@,
                text@,
            ),
            _ => r matches Err(e) && e@ == error_of(
                "remote_protocol_error"@,
                "unexpected attention response"@,
            ),
        },
{
    match reply {
        HostReply::Accepted => Ok(()),
        HostReply::Refused(error) => Err(
            protocol_error(error.code.as_str(), error.message.as_str()),
        ),
        HostReply::Unreachable(text) => Err(protocol_error("remote_unavailable", text.as_str())),
        _ => Err(protocol_error("remote_protocol_error", "unexpected attention response")),
    }
}

/// A request about an agent goes to the host of that agent and to no other; one about
/// an agent that is on no host is carried out here.
pub proof fn lemma_agent_requests_follow_the_agent(
    state: RuntimeView,
    request: ClientRequest,
    agent_id: u128,
    place: Place,
)
    requires
        match request {
            ClientRequest::ListAgentMessages { agent_id: id, .. } => id == agent_id,
            ClientRequest::PromptAgent { agent_id: id, .. } => id == agent_id,
            ClientRequest::StopAgent { agent_id: id } => id == agent_id,
            ClientRequest::ForceKillAgent { agent_id: id } => id == agent_id,
            ClientRequest::DeleteAgent { agent_id: id } => id == agent_id,
            ClientRequest::RenameAgent { agent_id: id, .. } => id == agent_id,
            _ => false,
        },
        is_place(state, request, place),
    ensures
        match host_of(state.agent_hosts, agent_id) {
            Some(alias) => place matches Place::Host { alias: a, request: sent, subscribe, follow } && a@ == alias
                && follow is Nothing && (subscribe <==> request is PromptAgent) && (!(request is PromptAgent)
                ==> sent == request),
            None => place == Place::Here(request),
        },
{
}

/// A prompt for an agent on a host is sent as a prompt to the app server there, word
/// for word and with its profile.
pub proof fn lemma_prompts_are_sent_unchanged(
    state: RuntimeView,
    agent_id: u128,
    prompt: String,
    execution_profile: AgentExecutionProfile,
    place: Place,
)
    requires
        is_place(state, ClientRequest::PromptAgent { agent_id, prompt, execution_profile }, place),
        host_of(state.agent_hosts, agent_id) is Some,
    ensures
        place matches Place::Host { request: sent, subscribe: true, .. } && sent
            == (ClientRequest::PromptRemoteCodexAppServerAgent { agent_id, prompt, execution_profile }),
{
}

/// A session for a project on a host is sent there with the identity of that project
/// and with what the user asked for, and its agent is kept here once it is started.
pub proof fn lemma_sessions_are_sent_with_their_project(
    state: RuntimeView,
    project_id: u128,
    project_name: String,
    project_root: String,
    prompt: String,
    mode: CodexLaunchMode,
    execution_profile: AgentExecutionProfile,
    place: Place,
)
    requires
        is_place(
            state,
            ClientRequest::StartCodexSession {
                project_id: Some(project_id),
                project_name,
                project_root,
                prompt,
                mode,
                execution_profile,
            },
            place,
        ),
        state.project(project_id) is Some,
        state.project(project_id)->0.host() is Some,
    ensures
        place matches Place::Host { alias, request: sent, subscribe, follow } && {
            let project = state.project(project_id)->0;
            &&& alias@ == project.host()->0
            &&& subscribe
            &&& follow matches Follow::CacheAgent(kept) && kept@ == project
            &&& sent matches ClientRequest::StartRemoteCodexAppServerSession {
                project_id: id,
                project_name: name,
                project_root: root,
                prompt: text,
                execution_profile: profile,
            } && id == project.id && name@ == project.name && root@ == project.root && text == prompt && profile
                == execution_profile
        },
{
}

/// A decision on a request of a host goes to that host as it was made, and the
/// request is settled here once the host has accepted it.
pub proof fn lemma_decisions_go_to_the_asking_host(
    state: RuntimeView,
    request: ClientRequest,
    request_id: u128,
    place: Place,
)
    requires
        match request {
            ClientRequest::ApprovePermission { request_id: id } => id == request_id,
            ClientRequest::ApprovePermissionForSession { request_id: id } => id == request_id,
            ClientRequest::DenyPermission { request_id: id, .. } => id == request_id,
            _ => false,
        },
        is_place(state, request, place),
    ensures
        match host_of(state.permission_hosts, request_id) {
            Some(alias) => place matches Place::Host { alias: a, request: sent, follow, .. } && a@ == alias
                && follow == Follow::SettlePermission(request_id) && (request is ApprovePermission ==> sent
                == request) && (request is ApprovePermissionForSession ==> sent == request) && (
            request is DenyPermission ==> sent is DenyPermission && sent->DenyPermission_request_id
                == request_id),
            None => place == Place::Here(request),
        },
{
}

/// Files of a project on a host are never written from here, and files of a project
/// that is not known neither.
pub proof fn lemma_remote_files_are_read_only(
    state: RuntimeView,
    project_id: u128,
    relative_path: String,
    expected_revision: Option<String>,
    content: String,
)
    ensures
        ({
            let place = place_of(
                state,
                ClientRequest::WriteProjectFile { project_id, relative_path, expected_revision, content },
            );
            match state.project(project_id) {
                None => place matches PlaceView::Refused(e) && e.code == "project_not_found"@,
                Some(project) => if project.host() is Some {
                    place matches PlaceView::Refused(e) && e.code == "remote_source_editing_not_supported"@
                } else {
                    place is Here
                },
            }
        }),
{
}

/// A runtime on an SSH host answers no request about phones; any other answers them
/// all.
pub proof fn lemma_phones_talk_to_the_desktop(state: RuntimeView, request: ClientRequest)
    requires
        request is RemoteControlStatus || request is CreateRemotePairing || request is GetRemotePairing
            || request is ConfirmRemotePairing || request is CancelRemotePairing
            || request is RevokeRemoteDevice || request is DisableRemoteControl,
    ensures
        state.remote_runtime ==> (place_of(state, request) matches PlaceView::Refused(e) && e.code
            == "wrong_execution_target"@),
        !state.remote_runtime ==> place_of(state, request) is Here,
{
}

/// What an answer of a host changes here: a terminal is kept with its host, a settled
/// permission is gone, and an answer that does not fit changes nothing.
pub proof fn lemma_answers_of_hosts_are_followed(
    state: RuntimeView,
    alias: Seq<char>,
    id: u128,
    error: ProtocolError,
    follow: FollowView,
)
    ensures
        host_of(
            reply_followed(state, alias, FollowView::KeepTerminal, HostReply::Terminal(id)).state.terminal_hosts,
            id,
        ) == Some(alias),
        reply_followed(state, alias, FollowView::SettlePermission(id), HostReply::Accepted).state.permissions
            == permission_dropped(state.permissions, id),
        reply_followed(state, alias, FollowView::SettlePermission(id), HostReply::Accepted).state.permission_hosts
            == host_dropped(state.permission_hosts, id),
        reply_followed(state, alias, follow, HostReply::Refused(error)) == stays(state),
        reply_followed(state, alias, follow, HostReply::Other) == stays(state),
{
    lemma_host_is_kept(state.terminal_hosts, id, alias);
}

/// The host that was set for a thing is the host of that thing, and every other thing
/// keeps its host.
pub proof fn lemma_host_is_kept(entries: Seq<(u128, Seq<char>)>, id: u128, alias: Seq<char>)
    ensures
        host_of(host_put(entries, id, alias), id) == Some(alias),
        forall|other: u128| other != id ==> #[trigger] host_of(host_put(entries, id, alias), other) == host_of(
            entries,
            other,
        ),
{
    let after = host_put(entries, id, alias);
    lemma_position(host_ids(entries), id);
    match position(host_ids(entries), id) {
        Some(i) => {
            assert(host_ids(after) =~= host_ids(entries));
            assert forall|other: u128| other != id implies #[trigger] host_of(after, other) == host_of(
                entries,
                other,
            ) by {
                lemma_position(host_ids(entries), other);
            }
        },
        None => {
            assert(host_ids(after) =~= host_ids(entries).push(id));
            assert(host_ids(after).drop_last() =~= host_ids(entries));
            assert forall|other: u128| other != id implies #[trigger] host_of(after, other) == host_of(
                entries,
                other,
            ) by {
                lemma_position(host_ids(entries), other);
            }
        },
    }
}

/// Only closing a terminal changes what is known of hosts here, and only for that
/// terminal.
pub proof fn lemma_closed_terminals_are_forgotten(state: RuntimeView, request: ClientRequest)
    ensures
        request matches ClientRequest::CloseProjectTerminal { terminal_id } ==> placed_state(state, request)
            == (RuntimeView { terminal_hosts: host_dropped(state.terminal_hosts, terminal_id), ..state }),
        !(request is CloseProjectTerminal) ==> placed_state(state, request) == state,
{
}

} // verus!
