//! The messages between client and server.
use crate::json::{Json, JsonView};
use crate::text::same;
use vstd::prelude::*;

verus! {

/// An amount of money: its text in dollars with four decimals, and whether
/// it is above zero.
#[derive(Debug, PartialEq, Eq)]
pub struct Cost {
    pub text: String,
    pub positive: bool,
}

#[verifier::ext_equal]
pub struct CostView {
    pub text: Seq<char>,
    pub positive: bool,
}

impl DeepView for Cost {
    type V = CostView;

    open spec fn deep_view(&self) -> CostView {
        CostView {
            text: self.text@,
            positive: self.positive,
        }
    }
}

impl Clone for Cost {
    fn clone(&self) -> (r: Self)
        ensures
            r.deep_view() == self.deep_view(),
    {
        let r = Cost {
            text: self.text.clone(),
            positive: self.positive,
        };
        assert(r.deep_view() =~= self.deep_view());
        r
    }
}

/// What the client sends.
#[derive(Debug)]
pub enum ClientMsg {
    Init,
    ListSessions,
    SetReasoningEffort { reasoning_effort: String },
    NewSession { cwd: Option<String>, request_id: Option<String> },
    LoadSession { session_id: String },
    Prompt { prompt: Vec<PromptBlock> },
    CancelSession,
    ListAllModels { refresh: bool },
    SetSessionModel { session_id: String, model_id: String, node_id: Option<String> },
    SubscribeSession { session_id: String, agent_id: Option<String> },
    DeleteSession { session_id: String },
    Undo { message_id: String },
    Redo,
    GetFileIndex,
    SetAgentMode { mode: String },
    GetAgentMode,
    /// `action` is "accept", "decline" or "cancel".
    ElicitationResponse { elicitation_id: String, action: String, content: Option<Json> },
}

#[verifier::ext_equal]
pub enum ClientMsgView {
    Init,
    ListSessions,
    SetReasoningEffort { reasoning_effort: Seq<char> },
    NewSession { cwd: Option<Seq<char>>, request_id: Option<Seq<char>> },
    LoadSession { session_id: Seq<char> },
    Prompt { prompt: Seq<PromptBlockView> },
    CancelSession,
    ListAllModels { refresh: bool },
    SetSessionModel { session_id: Seq<char>, model_id: Seq<char>, node_id: Option<Seq<char>> },
    SubscribeSession { session_id: Seq<char>, agent_id: Option<Seq<char>> },
    DeleteSession { session_id: Seq<char> },
    Undo { message_id: Seq<char> },
    Redo,
    GetFileIndex,
    SetAgentMode { mode: Seq<char> },
    GetAgentMode,
    ElicitationResponse { elicitation_id: Seq<char>, action: Seq<char>, content: Option<JsonView> },
}

impl DeepView for ClientMsg {
    type V = ClientMsgView;

    open spec fn deep_view(&self) -> ClientMsgView {
        match self {
            ClientMsg::Init => ClientMsgView::Init,
            ClientMsg::ListSessions => ClientMsgView::ListSessions,
            ClientMsg::SetReasoningEffort { reasoning_effort } => ClientMsgView::SetReasoningEffort {
                reasoning_effort: reasoning_effort@,
            },
            ClientMsg::NewSession { cwd, request_id } => ClientMsgView::NewSession {
                cwd: cwd.deep_view(),
                request_id: request_id.deep_view(),
            },
            ClientMsg::LoadSession { session_id } => ClientMsgView::LoadSession {
                session_id: session_id@,
            },
            ClientMsg::Prompt { prompt } => ClientMsgView::Prompt {
                prompt: prompt.deep_view(),
            },
            ClientMsg::CancelSession => ClientMsgView::CancelSession,
            ClientMsg::ListAllModels { refresh } => ClientMsgView::ListAllModels {
                refresh: *refresh,
            },
            ClientMsg::SetSessionModel { session_id, model_id, node_id } => ClientMsgView::SetSessionModel {
                session_id: session_id@,
                model_id: model_id@,
                node_id: node_id.deep_view(),
            },
            ClientMsg::SubscribeSession { session_id, agent_id } => ClientMsgView::SubscribeSession {
                session_id: session_id@,
                agent_id: agent_id.deep_view(),
            },
            ClientMsg::DeleteSession { session_id } => ClientMsgView::DeleteSession {
                session_id: session_id@,
            },
            ClientMsg::Undo { message_id } => ClientMsgView::Undo {
                message_id: message_id@,
            },
            ClientMsg::Redo => ClientMsgView::Redo,
            ClientMsg::GetFileIndex => ClientMsgView::GetFileIndex,
            ClientMsg::SetAgentMode { mode } => ClientMsgView::SetAgentMode {
                mode: mode@,
            },
            ClientMsg::GetAgentMode => ClientMsgView::GetAgentMode,
            ClientMsg::ElicitationResponse { elicitation_id, action, content } => ClientMsgView::ElicitationResponse {
                elicitation_id: elicitation_id@,
                action: action@,
                content: content.deep_view(),
            },
        }
    }
}

/// A part of a prompt.
#[derive(Debug, PartialEq, Eq)]
pub enum PromptBlock {
    Text { text: String },
    ResourceLink { name: String, uri: String },
}

#[verifier::ext_equal]
pub enum PromptBlockView {
    Text { text: Seq<char> },
    ResourceLink { name: Seq<char>, uri: Seq<char> },
}

impl DeepView for PromptBlock {
    type V = PromptBlockView;

    open spec fn deep_view(&self) -> PromptBlockView {
        match self {
            PromptBlock::Text { text } => PromptBlockView::Text {
                text: text@,
            },
            PromptBlock::ResourceLink { name, uri } => PromptBlockView::ResourceLink {
                name: name@,
                uri: uri@,
            },
        }
    }
}

#[derive(Debug)]
pub struct StateData {
    pub active_session_id: Option<String>,
    pub agents: Vec<AgentInfo>,
    pub agent_mode: Option<String>,
    /// Current reasoning effort level, as far as the server reported it.
    pub reasoning_effort: ReasoningEffortField,
}

#[verifier::ext_equal]
pub struct StateDataView {
    pub active_session_id: Option<Seq<char>>,
    pub agents: Seq<AgentInfoView>,
    pub agent_mode: Option<Seq<char>>,
    pub reasoning_effort: ReasoningEffortFieldView,
}

impl DeepView for StateData {
    type V = StateDataView;

    open spec fn deep_view(&self) -> StateDataView {
        StateDataView {
            active_session_id: self.active_session_id.deep_view(),
            agents: self.agents.deep_view(),
            agent_mode: self.agent_mode.deep_view(),
            reasoning_effort: self.reasoning_effort.deep_view(),
        }
    }
}

/// The `reasoning_effort` of a `state` message.
#[derive(Debug, PartialEq, Eq)]
pub enum ReasoningEffortField {
    /// The key was not there: what is known stays.
    Absent,
    /// The key was `null` or `"auto"`.
    Auto,
    /// The key named a level.
    Level(String),
}

#[verifier::ext_equal]
pub enum ReasoningEffortFieldView {
    Absent,
    Auto,
    Level(Seq<char>),
}

impl DeepView for ReasoningEffortField {
    type V = ReasoningEffortFieldView;

    open spec fn deep_view(&self) -> ReasoningEffortFieldView {
        match self {
            ReasoningEffortField::Absent => ReasoningEffortFieldView::Absent,
            ReasoningEffortField::Auto => ReasoningEffortFieldView::Auto,
            ReasoningEffortField::Level(a) => ReasoningEffortFieldView::Level(a@),
        }
    }
}

#[derive(Debug)]
pub struct ReasoningEffortData {
    /// Nothing and `"auto"` both mean that no level is set.
    pub reasoning_effort: Option<String>,
}

#[verifier::ext_equal]
pub struct ReasoningEffortDataView {
    pub reasoning_effort: Option<Seq<char>>,
}

impl DeepView for ReasoningEffortData {
    type V = ReasoningEffortDataView;

    open spec fn deep_view(&self) -> ReasoningEffortDataView {
        ReasoningEffortDataView {
            reasoning_effort: self.reasoning_effort.deep_view(),
        }
    }
}

#[derive(Debug)]
pub struct AgentInfo {
    pub id: String,
    pub name: String,
}

#[verifier::ext_equal]
pub struct AgentInfoView {
    pub id: Seq<char>,
    pub name: Seq<char>,
}

impl DeepView for AgentInfo {
    type V = AgentInfoView;

    open spec fn deep_view(&self) -> AgentInfoView {
        AgentInfoView {
            id: self.id@,
            name: self.name@,
        }
    }
}

#[derive(Debug)]
pub struct SessionCreatedData {
    pub agent_id: String,
    pub session_id: String,
    pub request_id: Option<String>,
}

#[verifier::ext_equal]
pub struct SessionCreatedDataView {
    pub agent_id: Seq<char>,
    pub session_id: Seq<char>,
    pub request_id: Option<Seq<char>>,
}

impl DeepView for SessionCreatedData {
    type V = SessionCreatedDataView;

    open spec fn deep_view(&self) -> SessionCreatedDataView {
        SessionCreatedDataView {
            agent_id: self.agent_id@,
            session_id: self.session_id@,
            request_id: self.request_id.deep_view(),
        }
    }
}

#[derive(Debug)]
pub struct SessionListData {
    pub groups: Vec<SessionGroup>,
}

#[verifier::ext_equal]
pub struct SessionListDataView {
    pub groups: Seq<SessionGroupView>,
}

impl DeepView for SessionListData {
    type V = SessionListDataView;

    open spec fn deep_view(&self) -> SessionListDataView {
        SessionListDataView {
            groups: self.groups.deep_view(),
        }
    }
}

/// The sessions of one working directory.
#[derive(Debug)]
pub struct SessionGroup {
    pub cwd: Option<String>,
    pub sessions: Vec<SessionSummary>,
    /// Time of the most recent activity in this group.
    pub latest_activity: Option<String>,
}

#[verifier::ext_equal]
pub struct SessionGroupView {
    pub cwd: Option<Seq<char>>,
    pub sessions: Seq<SessionSummaryView>,
    pub latest_activity: Option<Seq<char>>,
}

impl DeepView for SessionGroup {
    type V = SessionGroupView;

    open spec fn deep_view(&self) -> SessionGroupView {
        SessionGroupView {
            cwd: self.cwd.deep_view(),
            sessions: self.sessions.deep_view(),
            latest_activity: self.latest_activity.deep_view(),
        }
    }
}

impl Clone for SessionGroup {
    fn clone(&self) -> (r: Self)
        ensures
            r.deep_view() == self.deep_view(),
    {
        let r = SessionGroup {
            cwd: self.cwd.clone(),
            sessions: self.sessions.clone(),
            latest_activity: self.latest_activity.clone(),
        };
        assert(r.deep_view() =~= self.deep_view());
        r
    }
}

#[derive(Debug)]
pub struct SessionSummary {
    pub session_id: String,
    pub title: Option<String>,
    /// Working directory of this session.
    pub cwd: Option<String>,
    pub created_at: Option<String>,
    pub updated_at: Option<String>,
    /// The session that this one was forked from.
    pub parent_session_id: Option<String>,
    /// Whether sessions were forked from this one.
    pub has_children: bool,
}

#[verifier::ext_equal]
pub struct SessionSummaryView {
    pub session_id: Seq<char>,
    pub title: Option<Seq<char>>,
    pub cwd: Option<Seq<char>>,
    pub created_at: Option<Seq<char>>,
    pub updated_at: Option<Seq<char>>,
    pub parent_session_id: Option<Seq<char>>,
    pub has_children: bool,
}

impl DeepView for SessionSummary {
    type V = SessionSummaryView;

    open spec fn deep_view(&self) -> SessionSummaryView {
        SessionSummaryView {
            session_id: self.session_id@,
            title: self.title.deep_view(),
            cwd: self.cwd.deep_view(),
            created_at: self.created_at.deep_view(),
            updated_at: self.updated_at.deep_view(),
            parent_session_id: self.parent_session_id.deep_view(),
            has_children: self.has_children,
        }
    }
}

impl Clone for SessionSummary {
    fn clone(&self) -> (r: Self)
        ensures
            r.deep_view() == self.deep_view(),
    {
        let r = SessionSummary {
            session_id: self.session_id.clone(),
            title: self.title.clone(),
            cwd: self.cwd.clone(),
            created_at: self.created_at.clone(),
            updated_at: self.updated_at.clone(),
            parent_session_id: self.parent_session_id.clone(),
            has_children: self.has_children,
        };
        assert(r.deep_view() =~= self.deep_view());
        r
    }
}

#[derive(Debug)]
pub struct SessionLoadedData {
    pub session_id: String,
    pub agent_id: String,
    /// The events of the audit journal, where it has any; nothing stands for an
    /// event that could not be read.
    pub audit: Option<Vec<Option<AgentEvent>>>,
    pub undo_stack: Vec<UndoStackFrame>,
}

#[verifier::ext_equal]
pub struct SessionLoadedDataView {
    pub session_id: Seq<char>,
    pub agent_id: Seq<char>,
    pub audit: Option<Seq<Option<AgentEventView>>>,
    pub undo_stack: Seq<UndoStackFrameView>,
}

impl DeepView for SessionLoadedData {
    type V = SessionLoadedDataView;

    open spec fn deep_view(&self) -> SessionLoadedDataView {
        SessionLoadedDataView {
            session_id: self.session_id@,
            agent_id: self.agent_id@,
            audit: self.audit.deep_view(),
            undo_stack: self.undo_stack.deep_view(),
        }
    }
}

#[derive(Debug, PartialEq, Eq)]
pub struct FileIndexEntry {
    pub path: String,
    pub is_dir: bool,
}

#[verifier::ext_equal]
pub struct FileIndexEntryView {
    pub path: Seq<char>,
    pub is_dir: bool,
}

impl DeepView for FileIndexEntry {
    type V = FileIndexEntryView;

    open spec fn deep_view(&self) -> FileIndexEntryView {
        FileIndexEntryView {
            path: self.path@,
            is_dir: self.is_dir,
        }
    }
}

impl Clone for FileIndexEntry {
    fn clone(&self) -> (r: Self)
        ensures
            r.deep_view() == self.deep_view(),
    {
        let r = FileIndexEntry {
            path: self.path.clone(),
            is_dir: self.is_dir,
        };
        assert(r.deep_view() =~= self.deep_view());
        r
    }
}

#[derive(Debug)]
pub struct FileIndexData {
    pub files: Vec<FileIndexEntry>,
    pub generated_at: u64,
}

#[verifier::ext_equal]
pub struct FileIndexDataView {
    pub files: Seq<FileIndexEntryView>,
    pub generated_at: u64,
}

impl DeepView for FileIndexData {
    type V = FileIndexDataView;

    open spec fn deep_view(&self) -> FileIndexDataView {
        FileIndexDataView {
            files: self.files.deep_view(),
            generated_at: self.generated_at,
        }
    }
}

#[derive(Debug)]
pub struct UndoStackFrame {
    pub message_id: String,
}

#[verifier::ext_equal]
pub struct UndoStackFrameView {
    pub message_id: Seq<char>,
}

impl DeepView for UndoStackFrame {
    type V = UndoStackFrameView;

    open spec fn deep_view(&self) -> UndoStackFrameView {
        UndoStackFrameView {
            message_id: self.message_id@,
        }
    }
}

impl Clone for UndoStackFrame {
    fn clone(&self) -> (r: Self)
        ensures
            r.deep_view() == self.deep_view(),
    {
        let r = UndoStackFrame {
            message_id: self.message_id.clone(),
        };
        assert(r.deep_view() =~= self.deep_view());
        r
    }
}

#[derive(Debug)]
pub struct UndoResultData {
    pub success: bool,
    pub message_id: Option<String>,
    pub reverted_files: Vec<String>,
    pub message: Option<String>,
    pub undo_stack: Vec<UndoStackFrame>,
}

#[verifier::ext_equal]
pub struct UndoResultDataView {
    pub success: bool,
    pub message_id: Option<Seq<char>>,
    pub reverted_files: Seq<Seq<char>>,
    pub message: Option<Seq<char>>,
    pub undo_stack: Seq<UndoStackFrameView>,
}

impl DeepView for UndoResultData {
    type V = UndoResultDataView;

    open spec fn deep_view(&self) -> UndoResultDataView {
        UndoResultDataView {
            success: self.success,
            message_id: self.message_id.deep_view(),
            reverted_files: self.reverted_files.deep_view(),
            message: self.message.deep_view(),
            undo_stack: self.undo_stack.deep_view(),
        }
    }
}

#[derive(Debug)]
pub struct RedoResultData {
    pub success: bool,
    pub message: Option<String>,
    pub undo_stack: Vec<UndoStackFrame>,
}

#[verifier::ext_equal]
pub struct RedoResultDataView {
    pub success: bool,
    pub message: Option<Seq<char>>,
    pub undo_stack: Seq<UndoStackFrameView>,
}

impl DeepView for RedoResultData {
    type V = RedoResultDataView;

    open spec fn deep_view(&self) -> RedoResultDataView {
        RedoResultDataView {
            success: self.success,
            message: self.message.deep_view(),
            undo_stack: self.undo_stack.deep_view(),
        }
    }
}

#[derive(Debug)]
pub struct EventData {
    pub agent_id: String,
    pub session_id: String,
    pub event: EventEnvelope,
}

#[verifier::ext_equal]
pub struct EventDataView {
    pub agent_id: Seq<char>,
    pub session_id: Seq<char>,
    pub event: EventEnvelopeView,
}

impl DeepView for EventData {
    type V = EventDataView;

    open spec fn deep_view(&self) -> EventDataView {
        EventDataView {
            agent_id: self.agent_id@,
            session_id: self.session_id@,
            event: self.event.deep_view(),
        }
    }
}

#[derive(Debug)]
pub struct SessionEventsData {
    pub session_id: String,
    pub agent_id: String,
    pub events: Vec<EventEnvelope>,
}

#[verifier::ext_equal]
pub struct SessionEventsDataView {
    pub session_id: Seq<char>,
    pub agent_id: Seq<char>,
    pub events: Seq<EventEnvelopeView>,
}

impl DeepView for SessionEventsData {
    type V = SessionEventsDataView;

    open spec fn deep_view(&self) -> SessionEventsDataView {
        SessionEventsDataView {
            session_id: self.session_id@,
            agent_id: self.agent_id@,
            events: self.events.deep_view(),
        }
    }
}

/// An event, kept in the journal or not.
#[derive(Debug)]
pub enum EventEnvelope {
    Durable(InnerEvent),
    Ephemeral(InnerEvent),
}

#[verifier::ext_equal]
pub enum EventEnvelopeView {
    Durable(InnerEventView),
    Ephemeral(InnerEventView),
}

impl DeepView for EventEnvelope {
    type V = EventEnvelopeView;

    open spec fn deep_view(&self) -> EventEnvelopeView {
        match self {
            EventEnvelope::Durable(a) => EventEnvelopeView::Durable(a.deep_view()),
            EventEnvelope::Ephemeral(a) => EventEnvelopeView::Ephemeral(a.deep_view()),
        }
    }
}

#[derive(Debug)]
pub struct InnerEvent {
    pub kind: EventKind,
    pub timestamp: Option<i64>,
}

#[verifier::ext_equal]
pub struct InnerEventView {
    pub kind: EventKindView,
    pub timestamp: Option<i64>,
}

impl DeepView for InnerEvent {
    type V = InnerEventView;

    open spec fn deep_view(&self) -> InnerEventView {
        InnerEventView {
            kind: self.kind.deep_view(),
            timestamp: self.timestamp,
        }
    }
}

/// An event as the audit journal lists it.
#[derive(Debug)]
pub struct AgentEvent {
    pub kind: EventKind,
    pub timestamp: Option<i64>,
}

#[verifier::ext_equal]
pub struct AgentEventView {
    pub kind: EventKindView,
    pub timestamp: Option<i64>,
}

impl DeepView for AgentEvent {
    type V = AgentEventView;

    open spec fn deep_view(&self) -> AgentEventView {
        AgentEventView {
            kind: self.kind.deep_view(),
            timestamp: self.timestamp,
        }
    }
}

/// What happened in a session.
#[allow(inconsistent_fields)]
#[derive(Debug)]
pub enum EventKind {
    TurnStarted,
    PromptReceived { content: Json, message_id: Option<String> },
    UserMessageStored { content: Json },
    AssistantMessageStored { content: String, thinking: Option<String>, message_id: Option<String> },
    AssistantContentDelta { content: String, message_id: Option<String> },
    AssistantThinkingDelta { content: String, message_id: Option<String> },
    CompactionStart { token_estimate: u32 },
    CompactionEnd { summary: String, summary_len: u32 },
    LlmRequestStart { message_count: Option<u32> },
    LlmRequestEnd { finish_reason: Option<String>, cost_usd: Option<Cost>, cumulative_cost_usd: Option<Cost>, context_tokens: Option<u64>, tool_calls: Option<u32>, metrics: Option<Json> },
    ToolCallStart { tool_call_id: Option<String>, tool_name: String, arguments: Option<Json> },
    ToolCallEnd { tool_call_id: Option<String>, tool_name: String, is_error: Option<bool>, result: Option<String> },
    ProviderChanged { provider: String, model: String, config_id: Option<i64>, context_limit: Option<u64> },
    ElicitationRequested { elicitation_id: String, session_id: String, message: String, requested_schema: Json, source: String },
    /// The mode of the session changed.  The last one of a journal gives the
    /// mode that the session was last used in.
    SessionModeChanged { mode: String },
    Error { message: String },
    Cancelled,
    SessionCreated,
    Unknown,
}

#[allow(inconsistent_fields)]
#[verifier::ext_equal]
pub enum EventKindView {
    TurnStarted,
    PromptReceived { content: JsonView, message_id: Option<Seq<char>> },
    UserMessageStored { content: JsonView },
    AssistantMessageStored { content: Seq<char>, thinking: Option<Seq<char>>, message_id: Option<Seq<char>> },
    AssistantContentDelta { content: Seq<char>, message_id: Option<Seq<char>> },
    AssistantThinkingDelta { content: Seq<char>, message_id: Option<Seq<char>> },
    CompactionStart { token_estimate: u32 },
    CompactionEnd { summary: Seq<char>, summary_len: u32 },
    LlmRequestStart { message_count: Option<u32> },
    LlmRequestEnd { finish_reason: Option<Seq<char>>, cost_usd: Option<CostView>, cumulative_cost_usd: Option<CostView>, context_tokens: Option<u64>, tool_calls: Option<u32>, metrics: Option<JsonView> },
    ToolCallStart { tool_call_id: Option<Seq<char>>, tool_name: Seq<char>, arguments: Option<JsonView> },
    ToolCallEnd { tool_call_id: Option<Seq<char>>, tool_name: Seq<char>, is_error: Option<bool>, result: Option<Seq<char>> },
    ProviderChanged { provider: Seq<char>, model: Seq<char>, config_id: Option<i64>, context_limit: Option<u64> },
    ElicitationRequested { elicitation_id: Seq<char>, session_id: Seq<char>, message: Seq<char>, requested_schema: JsonView, source: Seq<char> },
    SessionModeChanged { mode: Seq<char> },
    Error { message: Seq<char> },
    Cancelled,
    SessionCreated,
    Unknown,
}

impl DeepView for EventKind {
    type V = EventKindView;

    open spec fn deep_view(&self) -> EventKindView {
        match self {
            EventKind::TurnStarted => EventKindView::TurnStarted,
            EventKind::PromptReceived { content, message_id } => EventKindView::PromptReceived {
                content: content.deep_view(),
                message_id: message_id.deep_view(),
            },
            EventKind::UserMessageStored { content } => EventKindView::UserMessageStored {
                content: content.deep_view(),
            },
            EventKind::AssistantMessageStored { content, thinking, message_id } => EventKindView::AssistantMessageStored {
                content: content@,
                thinking: thinking.deep_view(),
                message_id: message_id.deep_view(),
            },
            EventKind::AssistantContentDelta { content, message_id } => EventKindView::AssistantContentDelta {
                content: content@,
                message_id: message_id.deep_view(),
            },
            EventKind::AssistantThinkingDelta { content, message_id } => EventKindView::AssistantThinkingDelta {
                content: content@,
                message_id: message_id.deep_view(),
            },
            EventKind::CompactionStart { token_estimate } => EventKindView::CompactionStart {
                token_estimate: *token_estimate,
            },
            EventKind::CompactionEnd { summary, summary_len } => EventKindView::CompactionEnd {
                summary: summary@,
                summary_len: *summary_len,
            },
            EventKind::LlmRequestStart { message_count } => EventKindView::LlmRequestStart {
                message_count: *message_count,
            },
            EventKind::LlmRequestEnd { finish_reason, cost_usd, cumulative_cost_usd, context_tokens, tool_calls, metrics } => EventKindView::LlmRequestEnd {
                finish_reason: finish_reason.deep_view(),
                cost_usd: cost_usd.deep_view(),
                cumulative_cost_usd: cumulative_cost_usd.deep_view(),
                context_tokens: *context_tokens,
                tool_calls: *tool_calls,
                metrics: metrics.deep_view(),
            },
            EventKind::ToolCallStart { tool_call_id, tool_name, arguments } => EventKindView::ToolCallStart {
                tool_call_id: tool_call_id.deep_view(),
                tool_name: tool_name@,
                arguments: arguments.deep_view(),
            },
            EventKind::ToolCallEnd { tool_call_id, tool_name, is_error, result } => EventKindView::ToolCallEnd {
                tool_call_id: tool_call_id.deep_view(),
                tool_name: tool_name@,
                is_error: *is_error,
                result: result.deep_view(),
            },
            EventKind::ProviderChanged { provider, model, config_id, context_limit } => EventKindView::ProviderChanged {
                provider: provider@,
                model: model@,
                config_id: *config_id,
                context_limit: *context_limit,
            },
            EventKind::ElicitationRequested { elicitation_id, session_id, message, requested_schema, source } => EventKindView::ElicitationRequested {
                elicitation_id: elicitation_id@,
                session_id: session_id@,
                message: message@,
                requested_schema: requested_schema.deep_view(),
                source: source@,
            },
            EventKind::SessionModeChanged { mode } => EventKindView::SessionModeChanged {
                mode: mode@,
            },
            EventKind::Error { message } => EventKindView::Error {
                message: message@,
            },
            EventKind::Cancelled => EventKindView::Cancelled,
            EventKind::SessionCreated => EventKindView::SessionCreated,
            EventKind::Unknown => EventKindView::Unknown,
        }
    }
}

#[derive(Debug)]
pub struct AllModelsData {
    pub models: Vec<ModelEntry>,
}

#[verifier::ext_equal]
pub struct AllModelsDataView {
    pub models: Seq<ModelEntryView>,
}

impl DeepView for AllModelsData {
    type V = AllModelsDataView;

    open spec fn deep_view(&self) -> AllModelsDataView {
        AllModelsDataView {
            models: self.models.deep_view(),
        }
    }
}

#[derive(Debug)]
pub struct ModelEntry {
    pub id: String,
    pub label: String,
    pub provider: String,
    pub model: String,
    pub node_id: Option<String>,
    pub family: Option<String>,
    pub quant: Option<String>,
}

#[verifier::ext_equal]
pub struct ModelEntryView {
    pub id: Seq<char>,
    pub label: Seq<char>,
    pub provider: Seq<char>,
    pub model: Seq<char>,
    pub node_id: Option<Seq<char>>,
    pub family: Option<Seq<char>>,
    pub quant: Option<Seq<char>>,
}

impl DeepView for ModelEntry {
    type V = ModelEntryView;

    open spec fn deep_view(&self) -> ModelEntryView {
        ModelEntryView {
            id: self.id@,
            label: self.label@,
            provider: self.provider@,
            model: self.model@,
            node_id: self.node_id.deep_view(),
            family: self.family.deep_view(),
            quant: self.quant.deep_view(),
        }
    }
}

impl Clone for ModelEntry {
    fn clone(&self) -> (r: Self)
        ensures
            r.deep_view() == self.deep_view(),
    {
        let r = ModelEntry {
            id: self.id.clone(),
            label: self.label.clone(),
            provider: self.provider.clone(),
            model: self.model.clone(),
            node_id: self.node_id.clone(),
            family: self.family.clone(),
            quant: self.quant.clone(),
        };
        assert(r.deep_view() =~= self.deep_view());
        r
    }
}

#[derive(Debug)]
pub struct AgentModeData {
    pub mode: String,
}

#[verifier::ext_equal]
pub struct AgentModeDataView {
    pub mode: Seq<char>,
}

impl DeepView for AgentModeData {
    type V = AgentModeDataView;

    open spec fn deep_view(&self) -> AgentModeDataView {
        AgentModeDataView {
            mode: self.mode@,
        }
    }
}

#[derive(Debug)]
pub struct ErrorData {
    pub message: String,
}

#[verifier::ext_equal]
pub struct ErrorDataView {
    pub message: Seq<char>,
}

impl DeepView for ErrorData {
    type V = ErrorDataView;

    open spec fn deep_view(&self) -> ErrorDataView {
        ErrorDataView {
            message: self.message@,
        }
    }
}

/// What a server message carries, read as its type asks.
#[derive(Debug)]
pub enum ServerData {
    State(StateData),
    ReasoningEffort(ReasoningEffortData),
    AgentMode(AgentModeData),
    FileIndex(FileIndexData),
    UndoResult(UndoResultData),
    RedoResult(RedoResultData),
    SessionList(SessionListData),
    SessionCreated(SessionCreatedData),
    SessionLoaded(SessionLoadedData),
    SessionEvents(SessionEventsData),
    Event(EventData),
    AllModels(AllModelsData),
    Error(ErrorData),
    /// It could not be read, with the reason.
    Invalid(String),
}

#[verifier::ext_equal]
pub enum ServerDataView {
    State(StateDataView),
    ReasoningEffort(ReasoningEffortDataView),
    AgentMode(AgentModeDataView),
    FileIndex(FileIndexDataView),
    UndoResult(UndoResultDataView),
    RedoResult(RedoResultDataView),
    SessionList(SessionListDataView),
    SessionCreated(SessionCreatedDataView),
    SessionLoaded(SessionLoadedDataView),
    SessionEvents(SessionEventsDataView),
    Event(EventDataView),
    AllModels(AllModelsDataView),
    Error(ErrorDataView),
    Invalid(Seq<char>),
}

impl DeepView for ServerData {
    type V = ServerDataView;

    open spec fn deep_view(&self) -> ServerDataView {
        match self {
            ServerData::State(a) => ServerDataView::State(a.deep_view()),
            ServerData::ReasoningEffort(a) => ServerDataView::ReasoningEffort(a.deep_view()),
            ServerData::AgentMode(a) => ServerDataView::AgentMode(a.deep_view()),
            ServerData::FileIndex(a) => ServerDataView::FileIndex(a.deep_view()),
            ServerData::UndoResult(a) => ServerDataView::UndoResult(a.deep_view()),
            ServerData::RedoResult(a) => ServerDataView::RedoResult(a.deep_view()),
            ServerData::SessionList(a) => ServerDataView::SessionList(a.deep_view()),
            ServerData::SessionCreated(a) => ServerDataView::SessionCreated(a.deep_view()),
            ServerData::SessionLoaded(a) => ServerDataView::SessionLoaded(a.deep_view()),
            ServerData::SessionEvents(a) => ServerDataView::SessionEvents(a.deep_view()),
            ServerData::Event(a) => ServerDataView::Event(a.deep_view()),
            ServerData::AllModels(a) => ServerDataView::AllModels(a.deep_view()),
            ServerData::Error(a) => ServerDataView::Error(a.deep_view()),
            ServerData::Invalid(a) => ServerDataView::Invalid(a@),
        }
    }
}

/// A message of the server.
#[derive(Debug)]
pub struct RawServerMsg {
    pub msg_type: String,
    pub data: Option<ServerData>,
}

#[verifier::ext_equal]
pub struct RawServerMsgView {
    pub msg_type: Seq<char>,
    pub data: Option<ServerDataView>,
}

impl DeepView for RawServerMsg {
    type V = RawServerMsgView;

    open spec fn deep_view(&self) -> RawServerMsgView {
        RawServerMsgView {
            msg_type: self.msg_type@,
            data: self.data.deep_view(),
        }
    }
}

/// How the data of a server message is to be read.
#[derive(Clone, Copy, Debug, PartialEq, Eq, Structural)]
pub enum DataKind {
    State,
    ReasoningEffort,
    AgentMode,
    FileIndex,
    UndoResult,
    RedoResult,
    SessionList,
    SessionCreated,
    SessionLoaded,
    SessionEvents,
    Event,
    AllModels,
    Error,
}

/// The kind of data that a message type stands for.
pub open spec fn kind_of_type(msg_type: Seq<char>) -> Option<DataKind> {
    if msg_type == "state"@ {
        Some(DataKind::State)
    } else if msg_type == "reasoning_effort"@ {
        Some(DataKind::ReasoningEffort)
    } else if msg_type == "agent_mode"@ {
        Some(DataKind::AgentMode)
    } else if msg_type == "file_index"@ {
        Some(DataKind::FileIndex)
    } else if msg_type == "undo_result"@ {
        Some(DataKind::UndoResult)
    } else if msg_type == "redo_result"@ {
        Some(DataKind::RedoResult)
    } else if msg_type == "session_list"@ {
        Some(DataKind::SessionList)
    } else if msg_type == "session_created"@ {
        Some(DataKind::SessionCreated)
    } else if msg_type == "session_loaded"@ {
        Some(DataKind::SessionLoaded)
    } else if msg_type == "session_events"@ {
        Some(DataKind::SessionEvents)
    } else if msg_type == "event"@ {
        Some(DataKind::Event)
    } else if msg_type == "all_models_list"@ {
        Some(DataKind::AllModels)
    } else if msg_type == "error"@ {
        Some(DataKind::Error)
    } else {
        None
    }
}

/// The kind of data that a message type stands for, or nothing for a message
/// that is passed over.
pub fn data_kind(msg_type: &str) -> (r: Option<DataKind>)
    ensures
        r == kind_of_type(msg_type@),
{
    if same(msg_type, "state") {
        Some(DataKind::State)
    } else if same(msg_type, "reasoning_effort") {
        Some(DataKind::ReasoningEffort)
    } else if same(msg_type, "agent_mode") {
        Some(DataKind::AgentMode)
    } else if same(msg_type, "file_index") {
        Some(DataKind::FileIndex)
    } else if same(msg_type, "undo_result") {
        Some(DataKind::UndoResult)
    } else if same(msg_type, "redo_result") {
        Some(DataKind::RedoResult)
    } else if same(msg_type, "session_list") {
        Some(DataKind::SessionList)
    } else if same(msg_type, "session_created") {
        Some(DataKind::SessionCreated)
    } else if same(msg_type, "session_loaded") {
        Some(DataKind::SessionLoaded)
    } else if same(msg_type, "session_events") {
        Some(DataKind::SessionEvents)
    } else if same(msg_type, "event") {
        Some(DataKind::Event)
    } else if same(msg_type, "all_models_list") {
        Some(DataKind::AllModels)
    } else if same(msg_type, "error") {
        Some(DataKind::Error)
    } else {
        None
    }
}

/// What a `reasoning_effort` that is present stands for: nothing and `"auto"`
/// are the automatic level.
pub open spec fn effort_field(v: Option<Seq<char>>) -> ReasoningEffortFieldView {
    match v {
        None => ReasoningEffortFieldView::Auto,
        Some(s) => if s == "auto"@ {
            ReasoningEffortFieldView::Auto
        } else {
            ReasoningEffortFieldView::Level(s)
        },
    }
}

/// Reads the value of a `reasoning_effort` key that is present.
pub fn reasoning_effort_field(v: Option<String>) -> (r: ReasoningEffortField)
    ensures
        r.deep_view() == effort_field(v.deep_view()),
{
    match v {
        None => ReasoningEffortField::Auto,
        Some(s) => if same(s.as_str(), "auto") {
            ReasoningEffortField::Auto
        } else {
            ReasoningEffortField::Level(s)
        },
    }
}

impl EventEnvelopeView {
    /// The event inside.
    pub open spec fn inner(self) -> InnerEventView {
        match self {
            EventEnvelopeView::Durable(e) => e,
            EventEnvelopeView::Ephemeral(e) => e,
        }
    }
}

impl EventEnvelope {
    /// What happened.
    pub fn kind(&self) -> (r: &EventKind)
        ensures
            r.deep_view() == self.deep_view().inner().kind,
    {
        match self {
            EventEnvelope::Durable(e) => &e.kind,
            EventEnvelope::Ephemeral(e) => &e.kind,
        }
    }

    /// When it happened.
    pub fn timestamp(&self) -> (r: Option<i64>)
        ensures
            r == self.deep_view().inner().timestamp,
    {
        match self {
            EventEnvelope::Durable(e) => e.timestamp,
            EventEnvelope::Ephemeral(e) => e.timestamp,
        }
    }
}

} // verus!
