//! Commands of paired devices as requests to the runtime: a device reaches an
//! agent through this runtime, wherever the agent is.

use crate::app_server::PermissionDecision;
use crate::model::{
    error_of, protocol_error, AgentApprovalPreset, AgentExecutionProfile, CodexLaunchMode,
    PermissionRequest, ProtocolError,
};
use crate::remote_command::{answer_views, ActionView, CommandAction};
use crate::requests::{place_of, ClientRequest, PlaceView};
use crate::state::{host_of, permission_ids, position, RuntimeState, RuntimeView};
use vstd::prelude::*;
use vstd::string::*;

verus! {

/// What a command is carried out by.
#[derive(Debug)]
pub enum CommandRequest {
    /// A request, at the place that it has.
    Routed(ClientRequest),
    /// Marking a notice as read, here.
    ReadAttention(u128),
}

/// Why a command cannot be carried out in a state, where it cannot: its project
/// is gone, or what it answers is no longer asked.
pub open spec fn action_code(state: RuntimeView, action: ActionView) -> Option<Seq<char>> {
    match action {
        ActionView::Start { project_id, .. } => if state.project(project_id) is None {
            Some("session_not_found"@)
        } else {
            None
        },
        ActionView::Decide { request_id, .. } => if position(
            permission_ids(state.permissions),
            request_id,
        ) is None {
            Some("approval_stale"@)
        } else {
            None
        },
        ActionView::Answer { request_id, .. } => if position(
            permission_ids(state.permissions),
            request_id,
        ) is None {
            Some("approval_stale"@)
        } else {
            None
        },
        ActionView::ShowApproval { request_id } => if position(
            permission_ids(state.permissions),
            request_id,
        ) is None {
            Some("approval_stale"@)
        } else {
            None
        },
        _ => None,
    }
}

/// Whether an execution profile is the one that is used where none is chosen.
pub open spec fn is_standard(profile: AgentExecutionProfile) -> bool {
    profile.model is None && profile.reasoning_effort is None && profile.approval
        == AgentApprovalPreset::ApproveForMe
}

/// Whether a request is the one that settles a permission as decided.
pub open spec fn settles(request: ClientRequest, id: u128, decision: PermissionDecision) -> bool {
    match decision {
        PermissionDecision::ApproveOnce => request == ClientRequest::ApprovePermission {
            request_id: id,
        },
        PermissionDecision::ApproveForSession => request
            == ClientRequest::ApprovePermissionForSession { request_id: id },
        PermissionDecision::Deny => request matches ClientRequest::DenyPermission { request_id, reason }
            && request_id == id && reason@ == "Denied by user"@,
    }
}

/// Whether a request is the one that an action is carried out by.
pub open spec fn carries_out(state: RuntimeView, action: ActionView, request: CommandRequest) -> bool {
    match action {
        ActionView::Start { project_id, prompt } => {
            &&& state.project(project_id) matches Some(project)
            &&& request matches CommandRequest::Routed(
                ClientRequest::StartCodexSession {
                    project_id: id,
                    project_name,
                    project_root,
                    prompt: text,
                    mode,
                    execution_profile,
                },
            )
            &&& id == Some(project_id)
            &&& project_name@ == project.name
            &&& project_root@ == project.root
            &&& text@ == prompt
            &&& mode == CodexLaunchMode::Exec
            &&& is_standard(execution_profile)
        },
        ActionView::Prompt { agent_id, text } => {
            &&& request matches CommandRequest::Routed(
                ClientRequest::PromptAgent { agent_id: id, prompt, execution_profile },
            )
            &&& id == agent_id
            &&& prompt@ == text
            &&& is_standard(execution_profile)
        },
        ActionView::Stop { agent_id } => request == CommandRequest::Routed(
            ClientRequest::StopAgent { agent_id },
        ),
        ActionView::ForceKill { agent_id } => request == CommandRequest::Routed(
            ClientRequest::ForceKillAgent { agent_id },
        ),
        ActionView::ReadAttention { attention_id } => request == CommandRequest::ReadAttention(
            attention_id,
        ),
        ActionView::Transcript { agent_id, before, limit } => request == CommandRequest::Routed(
            ClientRequest::ListAgentMessages { agent_id, before_sequence: before, limit },
        ),
        ActionView::Decide { request_id, decision } => request matches CommandRequest::Routed(inner)
            && settles(inner, request_id, decision),
        ActionView::Answer { request_id, answers } => request matches CommandRequest::Routed(
            ClientRequest::AnswerAgentQuestions { request_id: id, answers: given },
        ) && id == request_id && answer_views(given@) == answers,
        ActionView::ShowApproval { request_id } => request == CommandRequest::Routed(
            ClientRequest::GetPermission { request_id },
        ),
    }
}

impl RuntimeState {
    /// The request that an action of a device is carried out by.
    pub fn request_of_action(&self, action: CommandAction) -> (r: Result<CommandRequest, &'static str>)
        ensures
            match action_code(self@, action@) {
                Some(code) => r matches Err(text) && text@ == code,
                None => r matches Ok(request) && carries_out(self@, action@, request),
            },
    {
        match action {
            CommandAction::Start { project_id, prompt } => match self.find_project(project_id) {
                Some(i) => Ok(
                    CommandRequest::Routed(
                        ClientRequest::StartCodexSession {
                            project_id: Some(project_id),
                            project_name: self.projects[i].name.clone(),
                            project_root: self.projects[i].root.clone(),
                            prompt,
                            mode: CodexLaunchMode::Exec,
                            execution_profile: AgentExecutionProfile::standard(),
                        },
                    ),
                ),
                None => Err("session_not_found"),
            },
            CommandAction::Prompt { agent_id, text } => Ok(
                CommandRequest::Routed(
                    ClientRequest::PromptAgent {
                        agent_id,
                        prompt: text,
                        execution_profile: AgentExecutionProfile::standard(),
                    },
                ),
            ),
            CommandAction::Stop { agent_id } => Ok(
                CommandRequest::Routed(ClientRequest::StopAgent { agent_id }),
            ),
            CommandAction::ForceKill { agent_id } => Ok(
                CommandRequest::Routed(ClientRequest::ForceKillAgent { agent_id }),
            ),
            CommandAction::ReadAttention { attention_id } => Ok(
                CommandRequest::ReadAttention(attention_id),
            ),
            CommandAction::Transcript { agent_id, before, limit } => Ok(
                CommandRequest::Routed(
                    ClientRequest::ListAgentMessages { agent_id, before_sequence: before, limit },
                ),
            ),
            CommandAction::Decide { request_id, decision } => {
                if self.find_permission(request_id).is_none() {
                    return Err("approval_stale");
                }
                let request = match decision {
                    PermissionDecision::ApproveOnce => ClientRequest::ApprovePermission { request_id },
                    PermissionDecision::ApproveForSession => ClientRequest::ApprovePermissionForSession {
                        request_id,
                    },
                    PermissionDecision::Deny => ClientRequest::DenyPermission {
                        request_id,
                        reason: "Denied by user".to_owned(),
                    },
                };
                Ok(CommandRequest::Routed(request))
            },
            CommandAction::Answer { request_id, answers } => {
                if self.find_permission(request_id).is_none() {
                    return Err("approval_stale");
                }
                Ok(CommandRequest::Routed(ClientRequest::AnswerAgentQuestions { request_id, answers }))
            },
            CommandAction::ShowApproval { request_id } => {
                if self.find_permission(request_id).is_none() {
                    return Err("approval_stale");
                }
                Ok(CommandRequest::Routed(ClientRequest::GetPermission { request_id }))
            },
        }
    }

    /// A request for permission that waits for an answer.
    pub fn pending_permission(&self, request_id: u128) -> (r: Result<PermissionRequest, ProtocolError>)
        ensures
            match position(permission_ids(self@.permissions), request_id) {
                Some(i) => r matches Ok(request) && request@ == self@.permissions[i],
                None => r matches Err(e) && e@ == error_of(
                    "permission_not_found"@,
                    "permission request is no longer pending"@,
                ),
            },
    {
        match self.find_permission(request_id) {
            Some(i) => {
                assert(self@.permissions[i as int] == self.permissions@[i as int]@);
                Ok(self.permissions[i].copy())
            },
            None => Err(
                protocol_error("permission_not_found", "permission request is no longer pending"),
            ),
        }
    }
}

/// The SSH host that owns what an action is about, where one does.
pub open spec fn owner_of(state: RuntimeView, action: ActionView) -> Option<Seq<char>> {
    match action {
        ActionView::Start { project_id, .. } => match state.project(project_id) {
            Some(project) => project.host(),
            None => None,
        },
        ActionView::Prompt { agent_id, .. } => host_of(state.agent_hosts, agent_id),
        ActionView::Stop { agent_id } => host_of(state.agent_hosts, agent_id),
        ActionView::ForceKill { agent_id } => host_of(state.agent_hosts, agent_id),
        ActionView::ReadAttention { .. } => None,
        ActionView::Transcript { agent_id, .. } => host_of(state.agent_hosts, agent_id),
        ActionView::Decide { request_id, .. } => host_of(state.permission_hosts, request_id),
        ActionView::Answer { request_id, .. } => host_of(state.permission_hosts, request_id),
        ActionView::ShowApproval { request_id } => host_of(state.permission_hosts, request_id),
    }
}

/// What a device asks about something on an SSH host is carried out on that host
/// and nowhere else, and what it asks about something here is carried out here.
pub proof fn lemma_commands_follow_their_owner(
    state: RuntimeView,
    action: ActionView,
    request: ClientRequest,
)
    requires
        carries_out(state, action, CommandRequest::Routed(request)),
    ensures
        match owner_of(state, action) {
            Some(alias) => place_of(state, request) matches PlaceView::Host { alias: a, .. } && a == alias,
            None => place_of(state, request) is Here,
        },
{
}

/// A device that answers what is no longer asked is told so, and nothing is sent
/// anywhere.
pub proof fn lemma_stale_answers_go_nowhere(state: RuntimeView, request_id: u128, decision: PermissionDecision)
    requires
        !permission_ids(state.permissions).contains(request_id),
    ensures
        action_code(state, ActionView::Decide { request_id, decision }) == Some("approval_stale"@),
        action_code(state, ActionView::ShowApproval { request_id }) == Some("approval_stale"@),
{
    crate::state::lemma_position(permission_ids(state.permissions), request_id);
}

/// A decision of a device is carried out as it was made: one approval as one, one for
/// the session as one for the session, and a denial as a denial.
pub proof fn lemma_devices_are_taken_at_their_word(
    state: RuntimeView,
    request_id: u128,
    decision: PermissionDecision,
    request: CommandRequest,
)
    requires
        carries_out(state, ActionView::Decide { request_id, decision }, request),
    ensures
        decision == PermissionDecision::ApproveOnce <==> request == CommandRequest::Routed(
            ClientRequest::ApprovePermission { request_id },
        ),
        decision == PermissionDecision::ApproveForSession <==> request == CommandRequest::Routed(
            ClientRequest::ApprovePermissionForSession { request_id },
        ),
        decision == PermissionDecision::Deny <==> (request matches CommandRequest::Routed(
            ClientRequest::DenyPermission { request_id: id, .. },
        ) && id == request_id),
{
}

/// A prompt or a session that a device asks for never runs with more than the standard
/// profile, and with exactly the words of the device.
pub proof fn lemma_devices_get_no_more_than_the_standard(
    state: RuntimeView,
    agent_id: u128,
    project_id: u128,
    text: Seq<char>,
    prompt: CommandRequest,
    start: CommandRequest,
)
    requires
        carries_out(state, ActionView::Prompt { agent_id, text }, prompt),
        carries_out(state, ActionView::Start { project_id, prompt: text }, start),
    ensures
        prompt matches CommandRequest::Routed(
            ClientRequest::PromptAgent { agent_id: id, prompt: words, execution_profile },
        ) && id == agent_id && words@ == text && execution_profile.approval == AgentApprovalPreset::ApproveForMe
            && execution_profile.model is None && execution_profile.reasoning_effort is None,
        start matches CommandRequest::Routed(
            ClientRequest::StartCodexSession { project_id: id, prompt: words, execution_profile, mode, .. },
        ) && id == Some(project_id) && words@ == text && mode == CodexLaunchMode::Exec
            && execution_profile.approval == AgentApprovalPreset::ApproveForMe && execution_profile.model is None
            && execution_profile.reasoning_effort is None,
{
}

/// Stopping and killing stay what they are, and reach the agent that was meant.
pub proof fn lemma_devices_stop_what_they_mean(
    state: RuntimeView,
    agent_id: u128,
    stop: CommandRequest,
    kill: CommandRequest,
)
    requires
        carries_out(state, ActionView::Stop { agent_id }, stop),
        carries_out(state, ActionView::ForceKill { agent_id }, kill),
    ensures
        stop == CommandRequest::Routed(ClientRequest::StopAgent { agent_id }),
        kill == CommandRequest::Routed(ClientRequest::ForceKillAgent { agent_id }),
{
}

/// A session is refused to a device exactly where its project is not known.
pub proof fn lemma_devices_need_a_known_project(state: RuntimeView, project_id: u128, prompt: Seq<char>)
    ensures
        action_code(state, ActionView::Start { project_id, prompt }) is None <==> state.project(project_id) is Some,
        state.project(project_id) is None ==> action_code(state, ActionView::Start { project_id, prompt }) == Some(
            "session_not_found"@,
        ),
{
}

} // verus!
