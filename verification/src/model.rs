//! The things that the runtime keeps and shows: projects, agents, messages,
//! attention and permissions.

use crate::ids::{hyphenated, id_text};
use crate::text::{copy_text, str_of, text_of};
use vstd::prelude::*;
use vstd::string::*;

verus! {

/// An error as it is told to a client.
#[derive(Debug)]
pub struct ProtocolError {
    pub code: String,
    pub message: String,
}

/// The mathematical value of an error.
pub struct ErrorView {
    pub code: Seq<char>,
    pub message: Seq<char>,
}

impl View for ProtocolError {
    type V = ErrorView;

    open spec fn view(&self) -> ErrorView {
        ErrorView { code: self.code@, message: self.message@ }
    }
}

/// The error with the given code and message.
pub open spec fn error_of(code: Seq<char>, message: Seq<char>) -> ErrorView {
    ErrorView { code, message }
}

/// The error with the given code and message.
pub fn protocol_error(code: &str, message: &str) -> (r: ProtocolError)
    ensures
        r@ == error_of(code@, message@),
{
    ProtocolError { code: code.to_owned(), message: message.to_owned() }
}

/// Where the work of an agent stands.
#[derive(Clone, Copy, Debug, PartialEq, Eq, Structural)]
pub enum AgentState {
    Starting,
    Working,
    AwaitingApproval,
    Blocked,
    Stopping,
    Completed,
    Failed,
    Interrupted,
    Stale,
}

/// How Codex is launched.
#[derive(Clone, Copy, Debug, PartialEq, Eq, Structural)]
pub enum CodexLaunchMode {
    Exec,
    InteractiveTui,
}

/// How far an agent may act without asking.
#[derive(Clone, Copy, Debug, PartialEq, Eq, Structural)]
pub enum AgentApprovalPreset {
    Ask,
    ApproveForMe,
    FullAccess,
}

/// How an agent is run.
#[derive(Debug)]
pub struct AgentExecutionProfile {
    pub model: Option<String>,
    pub reasoning_effort: Option<String>,
    pub approval: AgentApprovalPreset,
}

impl AgentExecutionProfile {
    /// The profile that is used where none is chosen.
    pub fn standard() -> (r: AgentExecutionProfile)
        ensures
            r.model is None,
            r.reasoning_effort is None,
            r.approval == AgentApprovalPreset::ApproveForMe,
    {
        AgentExecutionProfile {
            model: None,
            reasoning_effort: None,
            approval: AgentApprovalPreset::ApproveForMe,
        }
    }

    /// A profile equal to this one.
    pub fn copy(&self) -> (r: AgentExecutionProfile)
        ensures
            r == *self,
    {
        AgentExecutionProfile {
            model: copy_text(&self.model),
            reasoning_effort: copy_text(&self.reasoning_effort),
            approval: self.approval,
        }
    }
}

/// The mathematical value of how an agent is run.
pub struct ProfileView {
    pub model: Option<Seq<char>>,
    pub reasoning_effort: Option<Seq<char>>,
    pub approval: AgentApprovalPreset,
}

impl View for AgentExecutionProfile {
    type V = ProfileView;

    open spec fn view(&self) -> ProfileView {
        ProfileView {
            model: text_of(self.model),
            reasoning_effort: text_of(self.reasoning_effort),
            approval: self.approval,
        }
    }
}

/// Why an agent cannot be resumed.
#[derive(Clone, Copy, Debug, PartialEq, Eq, Structural)]
pub enum AgentResumeBlockReason {
    NoCodexThread,
}

/// One agent and its current or last run.
#[derive(Debug)]
pub struct AgentRun {
    pub id: u128,
    pub state: AgentState,
    pub can_stop: bool,
    pub launch_mode: CodexLaunchMode,
    pub execution_profile: AgentExecutionProfile,
    pub project_id: u128,
    pub native_session_id: Option<String>,
    pub codex_title: Option<String>,
    pub user_title: Option<String>,
    pub origin_codex_home: Option<String>,
    pub current_prompt: Option<String>,
    pub last_visible_action: Option<String>,
    pub state_evidence: String,
    pub started_at: i64,
    pub updated_at: i64,
    pub finished_at: Option<i64>,
    pub exit_code: Option<i32>,
    pub resume_block_reason: Option<AgentResumeBlockReason>,
}

/// The mathematical value of an agent's run.
pub struct RunView {
    pub id: u128,
    pub state: AgentState,
    pub can_stop: bool,
    pub launch_mode: CodexLaunchMode,
    pub execution_profile: ProfileView,
    pub project_id: u128,
    pub native_session_id: Option<Seq<char>>,
    pub codex_title: Option<Seq<char>>,
    pub user_title: Option<Seq<char>>,
    pub origin_codex_home: Option<Seq<char>>,
    pub current_prompt: Option<Seq<char>>,
    pub last_visible_action: Option<Seq<char>>,
    pub state_evidence: Seq<char>,
    pub started_at: i64,
    pub updated_at: i64,
    pub finished_at: Option<i64>,
    pub exit_code: Option<i32>,
    pub resume_block_reason: Option<AgentResumeBlockReason>,
}

impl View for AgentRun {
    type V = RunView;

    open spec fn view(&self) -> RunView {
        RunView {
            id: self.id,
            state: self.state,
            can_stop: self.can_stop,
            launch_mode: self.launch_mode,
            execution_profile: self.execution_profile@,
            project_id: self.project_id,
            native_session_id: text_of(self.native_session_id),
            codex_title: text_of(self.codex_title),
            user_title: text_of(self.user_title),
            origin_codex_home: text_of(self.origin_codex_home),
            current_prompt: text_of(self.current_prompt),
            last_visible_action: text_of(self.last_visible_action),
            state_evidence: self.state_evidence@,
            started_at: self.started_at,
            updated_at: self.updated_at,
            finished_at: self.finished_at,
            exit_code: self.exit_code,
            resume_block_reason: self.resume_block_reason,
        }
    }
}

impl AgentRun {
    /// A run equal to this one.
    pub fn copy(&self) -> (r: AgentRun)
        ensures
            r == *self,
    {
        AgentRun {
            id: self.id,
            state: self.state,
            can_stop: self.can_stop,
            launch_mode: self.launch_mode,
            execution_profile: self.execution_profile.copy(),
            project_id: self.project_id,
            native_session_id: copy_text(&self.native_session_id),
            codex_title: copy_text(&self.codex_title),
            user_title: copy_text(&self.user_title),
            origin_codex_home: copy_text(&self.origin_codex_home),
            current_prompt: copy_text(&self.current_prompt),
            last_visible_action: copy_text(&self.last_visible_action),
            state_evidence: self.state_evidence.clone(),
            started_at: self.started_at,
            updated_at: self.updated_at,
            finished_at: self.finished_at,
            exit_code: self.exit_code,
            resume_block_reason: self.resume_block_reason,
        }
    }
}

/// Who speaks in a chat.
#[derive(Clone, Copy, Debug, PartialEq, Eq, Structural)]
pub enum AgentChatRole {
    User,
    Assistant,
    Tool,
    System,
}

/// One message of a chat.
#[derive(Debug)]
pub struct AgentChatMessage {
    pub agent_id: u128,
    pub role: AgentChatRole,
    pub text: String,
    pub created_at: i64,
}

/// The mathematical value of a message.
pub struct MessageView {
    pub agent_id: u128,
    pub role: AgentChatRole,
    pub text: Seq<char>,
    pub created_at: i64,
}

impl View for AgentChatMessage {
    type V = MessageView;

    open spec fn view(&self) -> MessageView {
        MessageView {
            agent_id: self.agent_id,
            role: self.role,
            text: self.text@,
            created_at: self.created_at,
        }
    }
}

impl AgentChatMessage {
    /// A message equal to this one.
    pub fn copy(&self) -> (r: AgentChatMessage)
        ensures
            r == *self,
    {
        AgentChatMessage {
            agent_id: self.agent_id,
            role: self.role,
            text: self.text.clone(),
            created_at: self.created_at,
        }
    }
}

/// What calls for attention.
#[derive(Clone, Copy, Debug, PartialEq, Eq, Structural)]
pub enum AttentionKind {
    Completed,
    Failed,
    Blocked,
    ApprovalRequired,
}

/// Something that calls for the user's attention.
#[derive(Debug)]
pub struct RuntimeAttention {
    pub id: u128,
    pub kind: AttentionKind,
    pub agent_id: Option<u128>,
    pub project_id: Option<u128>,
    pub project_name: Option<String>,
    pub agent_name: Option<String>,
    pub title: String,
    pub body: String,
    pub created_at: i64,
    pub read_at: Option<i64>,
}

/// The mathematical value of something that calls for attention.
pub struct AttentionView {
    pub id: u128,
    pub kind: AttentionKind,
    pub agent_id: Option<u128>,
    pub project_id: Option<u128>,
    pub project_name: Option<Seq<char>>,
    pub agent_name: Option<Seq<char>>,
    pub title: Seq<char>,
    pub body: Seq<char>,
    pub created_at: i64,
    pub read_at: Option<i64>,
}

impl View for RuntimeAttention {
    type V = AttentionView;

    open spec fn view(&self) -> AttentionView {
        AttentionView {
            id: self.id,
            kind: self.kind,
            agent_id: self.agent_id,
            project_id: self.project_id,
            project_name: text_of(self.project_name),
            agent_name: text_of(self.agent_name),
            title: self.title@,
            body: self.body@,
            created_at: self.created_at,
            read_at: self.read_at,
        }
    }
}

impl RuntimeAttention {
    /// An item equal to this one.
    pub fn copy(&self) -> (r: RuntimeAttention)
        ensures
            r == *self,
    {
        RuntimeAttention {
            id: self.id,
            kind: self.kind,
            agent_id: self.agent_id,
            project_id: self.project_id,
            project_name: copy_text(&self.project_name),
            agent_name: copy_text(&self.agent_name),
            title: self.title.clone(),
            body: self.body.clone(),
            created_at: self.created_at,
            read_at: self.read_at,
        }
    }
}

/// Whether agents may work outside a Git repository.
#[derive(Clone, Copy, Debug, PartialEq, Eq, Structural)]
pub enum ProjectGitPolicy {
    RequireRepository,
    InitializeRepository,
    AllowOutsideGit,
}

/// Where the agents of a project run.
#[derive(Debug)]
pub enum ProjectExecutionTarget {
    Local,
    Remote { remote_machine_id: u128, ssh_host_alias: String },
}

/// A project.
#[derive(Debug)]
pub struct Project {
    pub id: u128,
    pub name: String,
    pub root: String,
    pub git_policy: ProjectGitPolicy,
    pub execution_target: ProjectExecutionTarget,
}

/// The mathematical value of where agents run.
pub enum TargetView {
    Local,
    Remote { remote_machine_id: u128, ssh_host_alias: Seq<char> },
}

/// The mathematical value of a project.
pub struct ProjectView {
    pub id: u128,
    pub name: Seq<char>,
    pub root: Seq<char>,
    pub git_policy: ProjectGitPolicy,
    pub execution_target: TargetView,
}

impl View for ProjectExecutionTarget {
    type V = TargetView;

    open spec fn view(&self) -> TargetView {
        match self {
            ProjectExecutionTarget::Local => TargetView::Local,
            ProjectExecutionTarget::Remote { remote_machine_id, ssh_host_alias } => TargetView::Remote {
                remote_machine_id: *remote_machine_id,
                ssh_host_alias: ssh_host_alias@,
            },
        }
    }
}

impl View for Project {
    type V = ProjectView;

    open spec fn view(&self) -> ProjectView {
        ProjectView {
            id: self.id,
            name: self.name@,
            root: self.root@,
            git_policy: self.git_policy,
            execution_target: self.execution_target@,
        }
    }
}

impl ProjectView {
    /// The SSH host on which the project is, where it is on one.
    pub open spec fn host(self) -> Option<Seq<char>> {
        match self.execution_target {
            TargetView::Local => None,
            TargetView::Remote { ssh_host_alias, .. } => Some(ssh_host_alias),
        }
    }

    /// What the project is kept under.
    pub open spec fn key(self) -> Seq<char> {
        match self.execution_target {
            TargetView::Local => self.root,
            TargetView::Remote { remote_machine_id, .. } => "remote://"@ + hyphenated(remote_machine_id)
                + self.root,
        }
    }
}

impl Project {
    /// The SSH host on which the project is, where it is on one.
    pub fn host_alias(&self) -> (r: Option<&str>)
        ensures
            str_of(r) == self@.host(),
    {
        match &self.execution_target {
            ProjectExecutionTarget::Local => None,
            ProjectExecutionTarget::Remote { ssh_host_alias, .. } => Some(ssh_host_alias.as_str()),
        }
    }

    /// What the project is kept under.
    pub fn root_key(&self) -> (r: String)
        ensures
            r@ == self@.key(),
    {
        match &self.execution_target {
            ProjectExecutionTarget::Local => self.root.clone(),
            ProjectExecutionTarget::Remote { remote_machine_id, .. } => {
                let mut key = "remote://".to_owned();
                key.append(id_text(*remote_machine_id).as_str());
                key.append(self.root.as_str());
                key
            },
        }
    }

    /// A project equal to this one.
    pub fn copy(&self) -> (r: Project)
        ensures
            r == *self,
    {
        Project {
            id: self.id,
            name: self.name.clone(),
            root: self.root.clone(),
            git_policy: self.git_policy,
            execution_target: match &self.execution_target {
                ProjectExecutionTarget::Local => ProjectExecutionTarget::Local,
                ProjectExecutionTarget::Remote { remote_machine_id, ssh_host_alias } => {
                    ProjectExecutionTarget::Remote {
                        remote_machine_id: *remote_machine_id,
                        ssh_host_alias: ssh_host_alias.clone(),
                    }
                },
            },
        }
    }
}

/// What an agent asks permission for.
#[derive(Clone, Copy, Debug, PartialEq, Eq, Structural)]
pub enum PermissionActionKind {
    RunCommand,
    EditFiles,
    AccessNetwork,
    AnswerQuestion,
}

/// An answer that is offered for a question.
#[derive(Debug)]
pub struct QuestionOption {
    pub label: String,
    pub description: String,
}

/// A question of an agent.
#[derive(Debug)]
pub struct AgentQuestion {
    pub id: String,
    pub header: String,
    pub question: String,
    pub is_secret: bool,
    pub options: Vec<QuestionOption>,
}

/// The mathematical value of a question.
pub struct QuestionView {
    pub id: Seq<char>,
    pub header: Seq<char>,
    pub question: Seq<char>,
    pub is_secret: bool,
    pub options: Seq<(Seq<char>, Seq<char>)>,
}

impl View for AgentQuestion {
    type V = QuestionView;

    open spec fn view(&self) -> QuestionView {
        QuestionView {
            id: self.id@,
            header: self.header@,
            question: self.question@,
            is_secret: self.is_secret,
            options: self.options@.map_values(|o: QuestionOption| (o.label@, o.description@)),
        }
    }
}

/// The views of some questions.
pub open spec fn questions_view(list: Seq<AgentQuestion>) -> Seq<QuestionView> {
    list.map_values(|question: AgentQuestion| question@)
}

/// A copy of a list of questions.
pub fn copy_questions(list: &Vec<AgentQuestion>) -> (r: Vec<AgentQuestion>)
    ensures
        questions_view(r@) == questions_view(list@),
{
    let mut copies: Vec<AgentQuestion> = Vec::new();
    let mut i: usize = 0;
    while i < list.len()
        invariant
            0 <= i <= list.len(),
            copies.len() == i,
            forall|k: int| 0 <= k < i ==> (#[trigger] copies@[k])@ == list@[k]@,
        decreases list.len() - i,
    {
        let question = &list[i];
        let mut options: Vec<QuestionOption> = Vec::new();
        let mut j: usize = 0;
        while j < question.options.len()
            invariant
                0 <= j <= question.options.len(),
                options.len() == j,
                forall|k: int|
                    0 <= k < j ==> (#[trigger] options@[k]).label@ == question.options@[k].label@
                        && options@[k].description@ == question.options@[k].description@,
            decreases question.options.len() - j,
        {
            options.push(
                QuestionOption {
                    label: question.options[j].label.clone(),
                    description: question.options[j].description.clone(),
                },
            );
            j += 1;
        }
        let copy = AgentQuestion {
            id: question.id.clone(),
            header: question.header.clone(),
            question: question.question.clone(),
            is_secret: question.is_secret,
            options,
        };
        assert(copy@.options =~= question@.options);
        copies.push(copy);
        i += 1;
    }
    assert(questions_view(copies@) =~= questions_view(list@));
    copies
}

/// A request of an agent for permission, or for answers.
#[derive(Debug)]
pub struct PermissionRequest {
    pub id: u128,
    pub project_id: u128,
    pub agent_id: Option<u128>,
    pub action: PermissionActionKind,
    pub summary: String,
    pub target: String,
    pub command: Option<String>,
    pub questions: Vec<AgentQuestion>,
    pub created_at: i64,
    pub expires_at: Option<i64>,
}

/// The mathematical value of a request for permission.
pub struct PermissionView {
    pub id: u128,
    pub project_id: u128,
    pub agent_id: Option<u128>,
    pub action: PermissionActionKind,
    pub summary: Seq<char>,
    pub target: Seq<char>,
    pub command: Option<Seq<char>>,
    pub questions: Seq<QuestionView>,
    pub created_at: i64,
    pub expires_at: Option<i64>,
}

impl View for PermissionRequest {
    type V = PermissionView;

    open spec fn view(&self) -> PermissionView {
        PermissionView {
            id: self.id,
            project_id: self.project_id,
            agent_id: self.agent_id,
            action: self.action,
            summary: self.summary@,
            target: self.target@,
            command: text_of(self.command),
            questions: questions_view(self.questions@),
            created_at: self.created_at,
            expires_at: self.expires_at,
        }
    }
}

impl PermissionRequest {
    /// A request equal to this one.
    pub fn copy(&self) -> (r: PermissionRequest)
        ensures
            r@ == self@,
    {
        PermissionRequest {
            id: self.id,
            project_id: self.project_id,
            agent_id: self.agent_id,
            action: self.action,
            summary: self.summary.clone(),
            target: self.target.clone(),
            command: copy_text(&self.command),
            questions: copy_questions(&self.questions),
            created_at: self.created_at,
            expires_at: self.expires_at,
        }
    }
}

} // verus!
