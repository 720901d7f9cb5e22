//! The operations agent's records: messages, conversations, pending actions and
//! stream events.
use vstd::prelude::*;
use crate::clock::now_rfc3339;

verus! {

/// Who wrote a message.
#[derive(Debug, Clone, Copy, PartialEq, Eq, Structural)]
pub enum OpsAgentRole {
    System,
    User,
    Assistant,
    Tool,
}

/// The tool a planner may pick: none, a read-only command or a mutating command.
#[derive(Debug, Clone, Copy, PartialEq, Eq, Structural)]
pub enum OpsAgentToolKind {
    NoTool,
    ReadShell,
    WriteShell,
}

/// Where a pending action stands; every status but `Pending` is final.
#[derive(Debug, Clone, Copy, PartialEq, Eq, Structural)]
pub enum OpsAgentActionStatus {
    Pending,
    Rejected,
    Executed,
    Failed,
}

/// One message of a conversation; never changed once appended.
#[derive(Debug, Clone)]
pub struct OpsAgentMessage {
    pub id: String,
    pub role: OpsAgentRole,
    pub content: String,
    pub created_at: String,
    pub tool_kind: Option<OpsAgentToolKind>,
}

/// An ordered chat history, optionally bound to one session.
#[derive(Debug, Clone)]
pub struct OpsAgentConversation {
    pub id: String,
    pub title: String,
    pub session_id: Option<String>,
    pub messages: Vec<OpsAgentMessage>,
    pub created_at: String,
    pub updated_at: String,
}

/// What a conversation list shows of one conversation.
#[derive(Debug, Clone)]
pub struct OpsAgentConversationSummary {
    pub id: String,
    pub title: String,
    pub session_id: Option<String>,
    pub message_count: usize,
    pub last_message_preview: Option<String>,
    pub created_at: String,
    pub updated_at: String,
}

/// A mutating command proposed by the agent, held for a human decision.
#[derive(Debug, Clone)]
pub struct OpsAgentPendingAction {
    pub id: String,
    pub conversation_id: String,
    pub session_id: Option<String>,
    pub command: String,
    pub reason: String,
    pub status: OpsAgentActionStatus,
    pub created_at: String,
    pub updated_at: String,
    pub resolved_at: Option<String>,
    pub execution_output: Option<String>,
    pub execution_exit_code: Option<i32>,
}

/// Everything the agent store holds.
#[derive(Debug, Clone)]
pub struct OpsAgentData {
    pub conversations: Vec<OpsAgentConversation>,
    pub active_conversation_id: Option<String>,
    pub pending_actions: Vec<OpsAgentPendingAction>,
}

/// A request to create a conversation.
#[derive(Debug, Clone)]
pub struct OpsAgentCreateConversationInput {
    pub title: Option<String>,
    pub session_id: Option<String>,
}

/// A request naming one conversation to read.
#[derive(Debug, Clone)]
pub struct OpsAgentGetConversationInput {
    pub conversation_id: String,
}

/// A request naming one conversation to delete.
#[derive(Debug, Clone)]
pub struct OpsAgentDeleteConversationInput {
    pub conversation_id: String,
}

/// A request naming the conversation to make active.
#[derive(Debug, Clone)]
pub struct OpsAgentSetActiveConversationInput {
    pub conversation_id: String,
}

/// A chat turn as the client submits it.
#[derive(Debug, Clone)]
pub struct OpsAgentChatInput {
    pub conversation_id: Option<String>,
    pub session_id: Option<String>,
    pub question: String,
}

/// The answer to a submitted chat turn: its run and conversation.
#[derive(Debug, Clone)]
pub struct OpsAgentChatAccepted {
    pub run_id: String,
    pub conversation_id: String,
    pub started_at: String,
}

/// The stage a stream event reports.
#[derive(Debug, Clone, Copy, PartialEq, Eq, Structural)]
pub enum OpsAgentStreamStage {
    Started,
    Delta,
    ToolRead,
    RequiresApproval,
    Completed,
    Error,
}

/// One event of a chat run's stream.
#[derive(Debug, Clone)]
pub struct OpsAgentStreamEvent {
    pub run_id: String,
    pub conversation_id: String,
    pub stage: OpsAgentStreamStage,
    pub chunk: Option<String>,
    pub full_answer: Option<String>,
    pub pending_action: Option<OpsAgentPendingAction>,
    pub error: Option<String>,
    pub created_at: String,
}

/// A filter over pending actions.
#[derive(Debug, Clone)]
pub struct OpsAgentListPendingActionsInput {
    pub session_id: Option<String>,
    pub only_pending: Option<bool>,
}

/// A decision on a pending action.
#[derive(Debug, Clone)]
pub struct OpsAgentResolveActionInput {
    pub action_id: String,
    pub approve: bool,
}

/// The resolved action and a short note on what happened.
#[derive(Debug, Clone)]
pub struct OpsAgentResolveActionResult {
    pub action: OpsAgentPendingAction,
    pub note: String,
}

/// The tool call a planner decided on.
#[derive(Debug, Clone)]
pub struct PlannedToolAction {
    pub kind: OpsAgentToolKind,
    pub command: Option<String>,
    pub reason: Option<String>,
}

/// A planner's reply text and tool decision.
#[derive(Debug, Clone)]
pub struct PlannedAgentReply {
    pub reply: String,
    pub tool: PlannedToolAction,
}

/// A copy of an optional string.
pub fn dup_opt(o: &Option<String>) -> (r: Option<String>)
    ensures
        r == *o,
{
    match o {
        Some(s) => Some(s.clone()),
        None => None,
    }
}

impl OpsAgentMessage {
    /// A field-by-field copy.
    pub fn duplicate(&self) -> (r: OpsAgentMessage)
        ensures
            r == *self,
    {
        OpsAgentMessage {
            id: self.id.clone(),
            role: self.role,
            content: self.content.clone(),
            created_at: self.created_at.clone(),
            tool_kind: self.tool_kind,
        }
    }
}

impl OpsAgentConversation {
    /// A field-by-field copy.
    pub fn duplicate(&self) -> (r: OpsAgentConversation)
        ensures
            r.id == self.id,
            r.title == self.title,
            r.session_id == self.session_id,
            r.messages@ == self.messages@,
            r.created_at == self.created_at,
            r.updated_at == self.updated_at,
    {
        let mut messages: Vec<OpsAgentMessage> = Vec::new();
        let mut i: usize = 0;
        while i < self.messages.len()
            invariant
                i <= self.messages@.len(),
                messages@ == self.messages@.take(i as int),
            decreases self.messages@.len() - i,
        {
            messages.push(self.messages[i].duplicate());
            i = i + 1;
            assert(messages@ =~= self.messages@.take(i as int));
        }
        assert(self.messages@.take(i as int) =~= self.messages@);
        OpsAgentConversation {
            id: self.id.clone(),
            title: self.title.clone(),
            session_id: dup_opt(&self.session_id),
            messages,
            created_at: self.created_at.clone(),
            updated_at: self.updated_at.clone(),
        }
    }
}

impl OpsAgentPendingAction {
    /// A field-by-field copy.
    pub fn duplicate(&self) -> (r: OpsAgentPendingAction)
        ensures
            r == *self,
    {
        OpsAgentPendingAction {
            id: self.id.clone(),
            conversation_id: self.conversation_id.clone(),
            session_id: dup_opt(&self.session_id),
            command: self.command.clone(),
            reason: self.reason.clone(),
            status: self.status,
            created_at: self.created_at.clone(),
            updated_at: self.updated_at.clone(),
            resolved_at: dup_opt(&self.resolved_at),
            execution_output: dup_opt(&self.execution_output),
            execution_exit_code: self.execution_exit_code,
        }
    }
}

impl OpsAgentStreamEvent {
    /// An event of `stage` for a run, with no payload, stamped now.
    pub fn new(run_id: String, conversation_id: String, stage: OpsAgentStreamStage) -> (r:
        OpsAgentStreamEvent)
        ensures
            r.run_id == run_id,
            r.conversation_id == conversation_id,
            r.stage == stage,
            r.chunk is None,
            r.full_answer is None,
            r.pending_action is None,
            r.error is None,
    {
        OpsAgentStreamEvent {
            run_id,
            conversation_id,
            stage,
            chunk: None,
            full_answer: None,
            pending_action: None,
            error: None,
            created_at: now_rfc3339(),
        }
    }
}

} // verus!
