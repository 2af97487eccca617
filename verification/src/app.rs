//! The state of the program.
use crate::cards::{CardCache, CardCacheView};
use crate::elicitation::{ElicitationState, ElicitationStateView};
use crate::protocol::{Cost, CostView, ModelEntry, ModelEntryView, SessionGroup, SessionGroupView};
use crate::server_manager::{ServerState, ServerStateView};
use crate::strmap::{StrMap, StrSet};
use crate::style::{Line, LineView};
use crate::text::{bytes, lemma_char_pos_of_prefix, on_boundary, owned};
use crate::theme::{Base16Palette, PaletteView, Theme};
use vstd::prelude::*;

verus! {

/// Which screen is shown.
#[derive(Clone, Copy, Debug, PartialEq, Eq, Structural)]
pub enum Screen {
    Sessions,
    Chat,
}

/// Which popup is open.
#[derive(Clone, Copy, Debug, PartialEq, Eq, Structural)]
pub enum Popup {
    Closed,
    ModelSelect,
    SessionSelect,
    NewSession,
    ThemeSelect,
    Help,
    Log,
}

/// How grave a log entry is.
#[derive(Clone, Copy, Debug, PartialEq, Eq, PartialOrd, Ord, Structural)]
pub enum LogLevel {
    Trace,
    Debug,
    Info,
    Warn,
    Error,
}

/// Whether the server has confirmed an undo.
#[derive(Clone, Copy, Debug, PartialEq, Eq, Structural)]
pub enum UndoFrameStatus {
    Pending,
    Confirmed,
}

/// The state of the connection.
#[derive(Clone, Copy, Debug, PartialEq, Eq, Structural)]
pub enum ConnState {
    Connecting,
    Connected,
    Disconnected,
}

/// An undo or a redo that is under way.
#[derive(Clone, Copy, Debug, PartialEq, Eq, Structural)]
pub enum SessionOp {
    Undo,
    Redo,
}

/// How long a cancellation waits for its confirmation, in nanoseconds.
pub const CANCEL_CONFIRM_TIMEOUT: u64 = 1_000_000_000;

/// How many sessions of a group the start page shows.
pub const MAX_RECENT_SESSIONS: usize = 3;

/// How many groups the start page shows.
pub const MAX_VISIBLE_GROUPS: usize = 3;

/// Rendered streaming markdown, kept until the text grows or goes.
#[derive(Debug)]
pub struct StreamingCache {
    /// Length of the text, in bytes, at the time of the last rendering.
    pub rendered_len: usize,
    /// The lines it gave, without the spinner.
    pub lines: Vec<Line>,
}

#[verifier::ext_equal]
pub struct StreamingCacheView {
    pub rendered_len: usize,
    pub lines: Seq<LineView>,
}

impl DeepView for StreamingCache {
    type V = StreamingCacheView;

    open spec fn deep_view(&self) -> StreamingCacheView {
        StreamingCacheView {
            rendered_len: self.rendered_len,
            lines: self.lines.deep_view(),
        }
    }
}

/// A line of the in-memory log.
#[derive(Debug, PartialEq, Eq)]
pub struct AppLogEntry {
    /// Nanoseconds since the program started.
    pub elapsed: u64,
    pub level: LogLevel,
    pub target: &'static str,
    pub message: String,
}

#[verifier::ext_equal]
pub struct AppLogEntryView {
    pub elapsed: u64,
    pub level: LogLevel,
    pub target: Seq<char>,
    pub message: Seq<char>,
}

impl DeepView for AppLogEntry {
    type V = AppLogEntryView;

    open spec fn deep_view(&self) -> AppLogEntryView {
        AppLogEntryView {
            elapsed: self.elapsed,
            level: self.level,
            target: self.target@,
            message: self.message@,
        }
    }
}

impl Clone for AppLogEntry {
    fn clone(&self) -> (r: Self)
        ensures
            r.deep_view() == self.deep_view(),
    {
        let r = AppLogEntry {
            elapsed: self.elapsed,
            level: self.level,
            target: self.target.clone(),
            message: self.message.clone(),
        };
        assert(r.deep_view() =~= self.deep_view());
        r
    }
}

/// An entry of the conversation.
#[allow(inconsistent_fields)]
#[derive(Debug)]
pub enum ChatEntry {
    User { text: String, message_id: Option<String> },
    Assistant { content: String, thinking: Option<String> },
    ToolCall { tool_call_id: Option<String>, name: String, is_error: bool, detail: ToolDetail },
    CompactionStart { token_estimate: u32 },
    CompactionEnd { token_estimate: Option<u32>, summary: String, summary_len: u32 },
    Info(String),
    Error(String),
    /// A question of the agent; without an outcome it waits for its answer.
    Elicitation { elicitation_id: String, message: String, source: String, outcome: Option<String> },
}

#[allow(inconsistent_fields)]
#[verifier::ext_equal]
pub enum ChatEntryView {
    User { text: Seq<char>, message_id: Option<Seq<char>> },
    Assistant { content: Seq<char>, thinking: Option<Seq<char>> },
    ToolCall { tool_call_id: Option<Seq<char>>, name: Seq<char>, is_error: bool, detail: ToolDetailView },
    CompactionStart { token_estimate: u32 },
    CompactionEnd { token_estimate: Option<u32>, summary: Seq<char>, summary_len: u32 },
    Info(Seq<char>),
    Error(Seq<char>),
    Elicitation { elicitation_id: Seq<char>, message: Seq<char>, source: Seq<char>, outcome: Option<Seq<char>> },
}

impl DeepView for ChatEntry {
    type V = ChatEntryView;

    open spec fn deep_view(&self) -> ChatEntryView {
        match self {
            ChatEntry::User { text, message_id } => ChatEntryView::User {
                text: text@,
                message_id: message_id.deep_view(),
            },
            ChatEntry::Assistant { content, thinking } => ChatEntryView::Assistant {
                content: content@,
                thinking: thinking.deep_view(),
            },
            ChatEntry::ToolCall { tool_call_id, name, is_error, detail } => ChatEntryView::ToolCall {
                tool_call_id: tool_call_id.deep_view(),
                name: name@,
                is_error: *is_error,
                detail: detail.deep_view(),
            },
            ChatEntry::CompactionStart { token_estimate } => ChatEntryView::CompactionStart {
                token_estimate: *token_estimate,
            },
            ChatEntry::CompactionEnd { token_estimate, summary, summary_len } => ChatEntryView::CompactionEnd {
                token_estimate: *token_estimate,
                summary: summary@,
                summary_len: *summary_len,
            },
            ChatEntry::Info(a) => ChatEntryView::Info(a@),
            ChatEntry::Error(a) => ChatEntryView::Error(a@),
            ChatEntry::Elicitation { elicitation_id, message, source, outcome } => ChatEntryView::Elicitation {
                elicitation_id: elicitation_id@,
                message: message@,
                source: source@,
                outcome: outcome.deep_view(),
            },
        }
    }
}

impl Clone for ChatEntry {
    fn clone(&self) -> (r: Self)
        ensures
            r.deep_view() == self.deep_view(),
    {
        let r = match self {
            ChatEntry::User { text, message_id } => ChatEntry::User {
                text: text.clone(),
                message_id: message_id.clone(),
            },
            ChatEntry::Assistant { content, thinking } => ChatEntry::Assistant {
                content: content.clone(),
                thinking: thinking.clone(),
            },
            ChatEntry::ToolCall { tool_call_id, name, is_error, detail } => ChatEntry::ToolCall {
                tool_call_id: tool_call_id.clone(),
                name: name.clone(),
                is_error: *is_error,
                detail: detail.clone(),
            },
            ChatEntry::CompactionStart { token_estimate } => ChatEntry::CompactionStart {
                token_estimate: *token_estimate,
            },
            ChatEntry::CompactionEnd { token_estimate, summary, summary_len } => ChatEntry::CompactionEnd {
                token_estimate: *token_estimate,
                summary: summary.clone(),
                summary_len: *summary_len,
            },
            ChatEntry::Info(a) => ChatEntry::Info(a.clone()),
            ChatEntry::Error(a) => ChatEntry::Error(a.clone()),
            ChatEntry::Elicitation { elicitation_id, message, source, outcome } => ChatEntry::Elicitation {
                elicitation_id: elicitation_id.clone(),
                message: message.clone(),
                source: source.clone(),
                outcome: outcome.clone(),
            },
        };
        assert(r.deep_view() =~= self.deep_view());
        r
    }
}

/// A turn that can be undone.
#[derive(Debug, PartialEq, Eq)]
pub struct UndoableTurn {
    pub turn_id: String,
    pub message_id: String,
    pub text: String,
}

#[verifier::ext_equal]
pub struct UndoableTurnView {
    pub turn_id: Seq<char>,
    pub message_id: Seq<char>,
    pub text: Seq<char>,
}

impl DeepView for UndoableTurn {
    type V = UndoableTurnView;

    open spec fn deep_view(&self) -> UndoableTurnView {
        UndoableTurnView {
            turn_id: self.turn_id@,
            message_id: self.message_id@,
            text: self.text@,
        }
    }
}

impl Clone for UndoableTurn {
    fn clone(&self) -> (r: Self)
        ensures
            r.deep_view() == self.deep_view(),
    {
        let r = UndoableTurn {
            turn_id: self.turn_id.clone(),
            message_id: self.message_id.clone(),
            text: self.text.clone(),
        };
        assert(r.deep_view() =~= self.deep_view());
        r
    }
}

/// A reverted turn.
#[derive(Debug, PartialEq, Eq)]
pub struct UndoFrame {
    pub turn_id: String,
    pub message_id: String,
    pub status: UndoFrameStatus,
    pub reverted_files: Vec<String>,
}

#[verifier::ext_equal]
pub struct UndoFrameView {
    pub turn_id: Seq<char>,
    pub message_id: Seq<char>,
    pub status: UndoFrameStatus,
    pub reverted_files: Seq<Seq<char>>,
}

impl DeepView for UndoFrame {
    type V = UndoFrameView;

    open spec fn deep_view(&self) -> UndoFrameView {
        UndoFrameView {
            turn_id: self.turn_id@,
            message_id: self.message_id@,
            status: self.status,
            reverted_files: self.reverted_files.deep_view(),
        }
    }
}

impl Clone for UndoFrame {
    fn clone(&self) -> (r: Self)
        ensures
            r.deep_view() == self.deep_view(),
    {
        let r = UndoFrame {
            turn_id: self.turn_id.clone(),
            message_id: self.message_id.clone(),
            status: self.status,
            reverted_files: self.reverted_files.clone(),
        };
        assert(r.deep_view() =~= self.deep_view());
        r
    }
}

/// The reverted turns, and the message at which the branch starts.
#[derive(Debug, PartialEq, Eq)]
pub struct UndoState {
    pub stack: Vec<UndoFrame>,
    pub frontier_message_id: Option<String>,
}

#[verifier::ext_equal]
pub struct UndoStateView {
    pub stack: Seq<UndoFrameView>,
    pub frontier_message_id: Option<Seq<char>>,
}

impl DeepView for UndoState {
    type V = UndoStateView;

    open spec fn deep_view(&self) -> UndoStateView {
        UndoStateView {
            stack: self.stack.deep_view(),
            frontier_message_id: self.frontier_message_id.deep_view(),
        }
    }
}

impl Clone for UndoState {
    fn clone(&self) -> (r: Self)
        ensures
            r.deep_view() == self.deep_view(),
    {
        let r = UndoState {
            stack: self.stack.clone(),
            frontier_message_id: self.frontier_message_id.clone(),
        };
        assert(r.deep_view() =~= self.deep_view());
        r
    }
}

/// A file or directory that can be mentioned.
#[derive(Debug, PartialEq, Eq)]
pub struct FileIndexEntryLite {
    pub path: String,
    pub is_dir: bool,
}

#[verifier::ext_equal]
pub struct FileIndexEntryLiteView {
    pub path: Seq<char>,
    pub is_dir: bool,
}

impl DeepView for FileIndexEntryLite {
    type V = FileIndexEntryLiteView;

    open spec fn deep_view(&self) -> FileIndexEntryLiteView {
        FileIndexEntryLiteView {
            path: self.path@,
            is_dir: self.is_dir,
        }
    }
}

impl Clone for FileIndexEntryLite {
    fn clone(&self) -> (r: Self)
        ensures
            r.deep_view() == self.deep_view(),
    {
        let r = FileIndexEntryLite {
            path: self.path.clone(),
            is_dir: self.is_dir,
        };
        assert(r.deep_view() =~= self.deep_view());
        r
    }
}

/// The mention that is being typed.
#[derive(Debug, PartialEq, Eq)]
pub struct MentionState {
    /// Byte position of its `@`.
    pub trigger_start: usize,
    pub query: String,
    pub selected_index: usize,
    pub results: Vec<FileIndexEntryLite>,
}

#[verifier::ext_equal]
pub struct MentionStateView {
    pub trigger_start: usize,
    pub query: Seq<char>,
    pub selected_index: usize,
    pub results: Seq<FileIndexEntryLiteView>,
}

impl DeepView for MentionState {
    type V = MentionStateView;

    open spec fn deep_view(&self) -> MentionStateView {
        MentionStateView {
            trigger_start: self.trigger_start,
            query: self.query@,
            selected_index: self.selected_index,
            results: self.results.deep_view(),
        }
    }
}

impl Clone for MentionState {
    fn clone(&self) -> (r: Self)
        ensures
            r.deep_view() == self.deep_view(),
    {
        let r = MentionState {
            trigger_start: self.trigger_start,
            query: self.query.clone(),
            selected_index: self.selected_index,
            results: self.results.clone(),
        };
        assert(r.deep_view() =~= self.deep_view());
        r
    }
}

/// The completions of the path of a new session.
#[derive(Debug, PartialEq, Eq)]
pub struct PathCompletionState {
    pub query: String,
    pub selected_index: usize,
    pub results: Vec<FileIndexEntryLite>,
}

#[verifier::ext_equal]
pub struct PathCompletionStateView {
    pub query: Seq<char>,
    pub selected_index: usize,
    pub results: Seq<FileIndexEntryLiteView>,
}

impl DeepView for PathCompletionState {
    type V = PathCompletionStateView;

    open spec fn deep_view(&self) -> PathCompletionStateView {
        PathCompletionStateView {
            query: self.query@,
            selected_index: self.selected_index,
            results: self.results.deep_view(),
        }
    }
}

impl Clone for PathCompletionState {
    fn clone(&self) -> (r: Self)
        ensures
            r.deep_view() == self.deep_view(),
    {
        let r = PathCompletionState {
            query: self.query.clone(),
            selected_index: self.selected_index,
            results: self.results.clone(),
        };
        assert(r.deep_view() =~= self.deep_view());
        r
    }
}

/// Figures of the active session.  Times are in nanoseconds.
#[derive(Debug, PartialEq, Eq)]
pub struct SessionStatsLite {
    pub active_llm_duration: u128,
    pub open_llm_request_ts: Option<i64>,
    pub open_llm_request_instant: Option<u64>,
    pub latest_context_tokens: Option<u64>,
    pub total_tool_calls: u32,
}

#[verifier::ext_equal]
pub struct SessionStatsLiteView {
    pub active_llm_duration: u128,
    pub open_llm_request_ts: Option<i64>,
    pub open_llm_request_instant: Option<u64>,
    pub latest_context_tokens: Option<u64>,
    pub total_tool_calls: u32,
}

impl DeepView for SessionStatsLite {
    type V = SessionStatsLiteView;

    open spec fn deep_view(&self) -> SessionStatsLiteView {
        SessionStatsLiteView {
            active_llm_duration: self.active_llm_duration,
            open_llm_request_ts: self.open_llm_request_ts,
            open_llm_request_instant: self.open_llm_request_instant,
            latest_context_tokens: self.latest_context_tokens,
            total_tool_calls: self.total_tool_calls,
        }
    }
}

impl Clone for SessionStatsLite {
    fn clone(&self) -> (r: Self)
        ensures
            r.deep_view() == self.deep_view(),
    {
        let r = SessionStatsLite {
            active_llm_duration: self.active_llm_duration,
            open_llm_request_ts: self.open_llm_request_ts,
            open_llm_request_instant: self.open_llm_request_instant,
            latest_context_tokens: self.latest_context_tokens,
            total_tool_calls: self.total_tool_calls,
        };
        assert(r.deep_view() =~= self.deep_view());
        r
    }
}

/// When a session last showed activity.
#[derive(Debug, PartialEq, Eq)]
pub struct SessionActivity {
    /// Nanoseconds since the program started.
    pub last_event_at: u64,
}

#[verifier::ext_equal]
pub struct SessionActivityView {
    pub last_event_at: u64,
}

impl DeepView for SessionActivity {
    type V = SessionActivityView;

    open spec fn deep_view(&self) -> SessionActivityView {
        SessionActivityView {
            last_event_at: self.last_event_at,
        }
    }
}

impl Clone for SessionActivity {
    fn clone(&self) -> (r: Self)
        ensures
            r.deep_view() == self.deep_view(),
    {
        let r = SessionActivity {
            last_event_at: self.last_event_at,
        };
        assert(r.deep_view() =~= self.deep_view());
        r
    }
}

/// What is known of a tool call.
#[derive(Debug)]
pub enum ToolDetail {
    /// Nothing but the name.
    Bare,
    /// Shown behind the name of the tool.
    Summary(String),
    /// Shown behind the name, with output lines below.
    SummaryWithOutput { header: String, output: String },
    /// An edit, with the lines that show it.
    Edit { file: String, before: String, after: String, start_line: Option<usize>, cached_lines: Vec<Line> },
    /// A new file, with the lines that show its start.
    WriteFile { path: String, content: String, cached_lines: Vec<Line> },
}

#[verifier::ext_equal]
pub enum ToolDetailView {
    Bare,
    Summary(Seq<char>),
    SummaryWithOutput { header: Seq<char>, output: Seq<char> },
    Edit { file: Seq<char>, before: Seq<char>, after: Seq<char>, start_line: Option<usize>, cached_lines: Seq<LineView> },
    WriteFile { path: Seq<char>, content: Seq<char>, cached_lines: Seq<LineView> },
}

impl DeepView for ToolDetail {
    type V = ToolDetailView;

    open spec fn deep_view(&self) -> ToolDetailView {
        match self {
            ToolDetail::Bare => ToolDetailView::Bare,
            ToolDetail::Summary(a) => ToolDetailView::Summary(a@),
            ToolDetail::SummaryWithOutput { header, output } => ToolDetailView::SummaryWithOutput {
                header: header@,
                output: output@,
            },
            ToolDetail::Edit { file, before, after, start_line, cached_lines } => ToolDetailView::Edit {
                file: file@,
                before: before@,
                after: after@,
                start_line: *start_line,
                cached_lines: cached_lines.deep_view(),
            },
            ToolDetail::WriteFile { path, content, cached_lines } => ToolDetailView::WriteFile {
                path: path@,
                content: content@,
                cached_lines: cached_lines.deep_view(),
            },
        }
    }
}

impl Clone for ToolDetail {
    fn clone(&self) -> (r: Self)
        ensures
            r.deep_view() == self.deep_view(),
    {
        let r = match self {
            ToolDetail::Bare => ToolDetail::Bare,
            ToolDetail::Summary(a) => ToolDetail::Summary(a.clone()),
            ToolDetail::SummaryWithOutput { header, output } => ToolDetail::SummaryWithOutput {
                header: header.clone(),
                output: output.clone(),
            },
            ToolDetail::Edit { file, before, after, start_line, cached_lines } => ToolDetail::Edit {
                file: file.clone(),
                before: before.clone(),
                after: after.clone(),
                start_line: *start_line,
                cached_lines: cached_lines.clone(),
            },
            ToolDetail::WriteFile { path, content, cached_lines } => ToolDetail::WriteFile {
                path: path.clone(),
                content: content.clone(),
                cached_lines: cached_lines.clone(),
            },
        };
        assert(r.deep_view() =~= self.deep_view());
        r
    }
}

/// What the agent is doing.
#[derive(Debug, PartialEq, Eq)]
pub enum ActivityState {
    Idle,
    Thinking,
    Streaming,
    RunningTool { name: String },
    Compacting { token_estimate: u32 },
    SessionOp(SessionOp),
}

#[verifier::ext_equal]
pub enum ActivityStateView {
    Idle,
    Thinking,
    Streaming,
    RunningTool { name: Seq<char> },
    Compacting { token_estimate: u32 },
    SessionOp(SessionOp),
}

impl DeepView for ActivityState {
    type V = ActivityStateView;

    open spec fn deep_view(&self) -> ActivityStateView {
        match self {
            ActivityState::Idle => ActivityStateView::Idle,
            ActivityState::Thinking => ActivityStateView::Thinking,
            ActivityState::Streaming => ActivityStateView::Streaming,
            ActivityState::RunningTool { name } => ActivityStateView::RunningTool {
                name: name@,
            },
            ActivityState::Compacting { token_estimate } => ActivityStateView::Compacting {
                token_estimate: *token_estimate,
            },
            ActivityState::SessionOp(a) => ActivityStateView::SessionOp(*a),
        }
    }
}

impl Clone for ActivityState {
    fn clone(&self) -> (r: Self)
        ensures
            r.deep_view() == self.deep_view(),
    {
        let r = match self {
            ActivityState::Idle => ActivityState::Idle,
            ActivityState::Thinking => ActivityState::Thinking,
            ActivityState::Streaming => ActivityState::Streaming,
            ActivityState::RunningTool { name } => ActivityState::RunningTool {
                name: name.clone(),
            },
            ActivityState::Compacting { token_estimate } => ActivityState::Compacting {
                token_estimate: *token_estimate,
            },
            ActivityState::SessionOp(a) => ActivityState::SessionOp(*a),
        };
        assert(r.deep_view() =~= self.deep_view());
        r
    }
}

/// What happened to the connection.  `delay_secs` is the delay in seconds
/// with one decimal.
#[derive(Debug, PartialEq, Eq)]
pub enum ConnectionEvent {
    Connecting { attempt: u32, delay_ms: u64, delay_secs: String },
    Connected,
    Disconnected { reason: String },
}

#[verifier::ext_equal]
pub enum ConnectionEventView {
    Connecting { attempt: u32, delay_ms: u64, delay_secs: Seq<char> },
    Connected,
    Disconnected { reason: Seq<char> },
}

impl DeepView for ConnectionEvent {
    type V = ConnectionEventView;

    open spec fn deep_view(&self) -> ConnectionEventView {
        match self {
            ConnectionEvent::Connecting { attempt, delay_ms, delay_secs } => ConnectionEventView::Connecting {
                attempt: *attempt,
                delay_ms: *delay_ms,
                delay_secs: delay_secs@,
            },
            ConnectionEvent::Connected => ConnectionEventView::Connected,
            ConnectionEvent::Disconnected { reason } => ConnectionEventView::Disconnected {
                reason: reason@,
            },
        }
    }
}

/// A row of the session list on the start page.
#[derive(Debug, PartialEq, Eq)]
pub enum StartPageItem {
    /// The header of a group: its directory, all its sessions, and whether it is
    /// collapsed.
    GroupHeader { cwd: Option<String>, session_count: usize, collapsed: bool },
    /// A session, by its group and its place in it.
    Session { group_idx: usize, session_idx: usize },
    /// Stands for the rows that are not shown.
    ShowMore { remaining: usize },
}

#[verifier::ext_equal]
pub enum StartPageItemView {
    GroupHeader { cwd: Option<Seq<char>>, session_count: usize, collapsed: bool },
    Session { group_idx: usize, session_idx: usize },
    ShowMore { remaining: usize },
}

impl DeepView for StartPageItem {
    type V = StartPageItemView;

    open spec fn deep_view(&self) -> StartPageItemView {
        match self {
            StartPageItem::GroupHeader { cwd, session_count, collapsed } => StartPageItemView::GroupHeader {
                cwd: cwd.deep_view(),
                session_count: *session_count,
                collapsed: *collapsed,
            },
            StartPageItem::Session { group_idx, session_idx } => StartPageItemView::Session {
                group_idx: *group_idx,
                session_idx: *session_idx,
            },
            StartPageItem::ShowMore { remaining } => StartPageItemView::ShowMore {
                remaining: *remaining,
            },
        }
    }
}

impl Clone for StartPageItem {
    fn clone(&self) -> (r: Self)
        ensures
            r.deep_view() == self.deep_view(),
    {
        let r = match self {
            StartPageItem::GroupHeader { cwd, session_count, collapsed } => StartPageItem::GroupHeader {
                cwd: cwd.clone(),
                session_count: *session_count,
                collapsed: *collapsed,
            },
            StartPageItem::Session { group_idx, session_idx } => StartPageItem::Session {
                group_idx: *group_idx,
                session_idx: *session_idx,
            },
            StartPageItem::ShowMore { remaining } => StartPageItem::ShowMore {
                remaining: *remaining,
            },
        };
        assert(r.deep_view() =~= self.deep_view());
        r
    }
}

/// Model and effort that a mode was last used with.
#[derive(Debug, PartialEq, Eq)]
pub struct CachedModeState {
    /// `"provider/model"`.
    pub model: String,
    /// Reasoning effort level; nothing is the automatic level.
    pub effort: Option<String>,
}

#[verifier::ext_equal]
pub struct CachedModeStateView {
    pub model: Seq<char>,
    pub effort: Option<Seq<char>>,
}

impl DeepView for CachedModeState {
    type V = CachedModeStateView;

    open spec fn deep_view(&self) -> CachedModeStateView {
        CachedModeStateView {
            model: self.model@,
            effort: self.effort.deep_view(),
        }
    }
}

impl Clone for CachedModeState {
    fn clone(&self) -> (r: Self)
        ensures
            r.deep_view() == self.deep_view(),
    {
        let r = CachedModeState {
            model: self.model.clone(),
            effort: self.effort.clone(),
        };
        assert(r.deep_view() =~= self.deep_view());
        r
    }
}

/// A row of the session popup, which shows every group and every session.
#[derive(Debug, PartialEq, Eq)]
pub enum PopupItem {
    /// The header of a group: its directory, all its sessions, and whether it is
    /// collapsed in the popup.
    GroupHeader { cwd: Option<String>, session_count: usize, collapsed: bool },
    /// A session, by its group and its place in it.
    Session { group_idx: usize, session_idx: usize },
}

#[verifier::ext_equal]
pub enum PopupItemView {
    GroupHeader { cwd: Option<Seq<char>>, session_count: usize, collapsed: bool },
    Session { group_idx: usize, session_idx: usize },
}

impl DeepView for PopupItem {
    type V = PopupItemView;

    open spec fn deep_view(&self) -> PopupItemView {
        match self {
            PopupItem::GroupHeader { cwd, session_count, collapsed } => PopupItemView::GroupHeader {
                cwd: cwd.deep_view(),
                session_count: *session_count,
                collapsed: *collapsed,
            },
            PopupItem::Session { group_idx, session_idx } => PopupItemView::Session {
                group_idx: *group_idx,
                session_idx: *session_idx,
            },
        }
    }
}

impl Clone for PopupItem {
    fn clone(&self) -> (r: Self)
        ensures
            r.deep_view() == self.deep_view(),
    {
        let r = match self {
            PopupItem::GroupHeader { cwd, session_count, collapsed } => PopupItem::GroupHeader {
                cwd: cwd.clone(),
                session_count: *session_count,
                collapsed: *collapsed,
            },
            PopupItem::Session { group_idx, session_idx } => PopupItem::Session {
                group_idx: *group_idx,
                session_idx: *session_idx,
            },
        };
        assert(r.deep_view() =~= self.deep_view());
        r
    }
}

/// The state of the program.
#[derive(Debug)]
pub struct App {
    pub screen: Screen,
    pub popup: Popup,
    /// The first key of a chord was pressed, the second is awaited.
    pub chord: bool,
    /// Session groups as received from the server.
    pub session_groups: Vec<SessionGroup>,
    pub session_cursor: usize,
    pub session_filter: String,
    /// Groups that are collapsed on the start page.
    pub collapsed_groups: StrSet,
    /// Groups that are collapsed in the session popup.
    pub popup_collapsed_groups: StrSet,
    /// First visible row of the start-page session list.
    pub start_page_scroll: usize,
    pub session_id: Option<String>,
    pub agent_id: Option<String>,
    pub agent_mode: String,
    pub launch_cwd: Option<String>,
    /// The home directory of the user.
    pub home_dir: Option<String>,
    pub new_session_path: String,
    pub new_session_cursor: usize,
    pub new_session_completion: Option<PathCompletionState>,
    pub session_activity: StrMap<SessionActivity>,
    pub messages: Vec<ChatEntry>,
    pub input: String,
    /// Byte position of the cursor in the input.
    pub input_cursor: usize,
    pub input_scroll: u16,
    pub input_line_width: usize,
    pub input_preferred_col: Option<usize>,
    pub scroll_offset: u16,
    /// Height of the conversation, in rows, when it was last drawn.
    pub prev_total_height: u16,
    pub activity: ActivityState,
    pub streaming_content: String,
    pub streaming_cache: StreamingCache,
    pub streaming_thinking: String,
    pub streaming_thinking_cache: StreamingCache,
    pub file_index: Vec<FileIndexEntryLite>,
    pub file_index_generated_at: Option<u64>,
    pub file_index_loading: bool,
    pub file_index_error: Option<String>,
    pub mention_state: Option<MentionState>,
    pub last_compaction_token_estimate: Option<u32>,
    /// The question that waits for an answer.
    pub elicitation: Option<ElicitationState>,
    pub show_thinking: bool,
    /// Current reasoning effort level; nothing is the automatic level.
    pub reasoning_effort: Option<String>,
    /// Model and effort by session and mode.
    pub session_cache: StrMap<StrMap<CachedModeState>>,
    pub current_model: Option<String>,
    pub current_provider: Option<String>,
    pub models: Vec<ModelEntry>,
    pub model_cursor: usize,
    pub model_filter: String,
    /// Provider and model that the user chose for a mode.
    pub mode_model_preferences: StrMap<(String, String)>,
    pub themes: Vec<Base16Palette>,
    pub theme: Theme,
    pub theme_cursor: usize,
    pub theme_filter: String,
    pub help_scroll: usize,
    /// Nanoseconds since the program started, as last reported.
    pub now_ns: u64,
    pub logs: Vec<AppLogEntry>,
    pub log_cursor: usize,
    pub log_filter: String,
    pub log_level_filter: LogLevel,
    pub undo_state: Option<UndoState>,
    pub undoable_turns: Vec<UndoableTurn>,
    pub cumulative_cost: Option<Cost>,
    pub context_limit: u64,
    pub session_stats: SessionStatsLite,
    pub pending_cancel_confirm_until: Option<u64>,
    pub status: String,
    pub conn: ConnState,
    pub reconnect_attempt: u32,
    pub reconnect_delay_ms: Option<u64>,
    pub server_state: ServerState,
    pub card_cache: CardCache,
    pub tick: u64,
    pub should_quit: bool,
}

#[verifier::ext_equal]
pub struct AppView {
    pub screen: Screen,
    pub popup: Popup,
    pub chord: bool,
    pub session_groups: Seq<SessionGroupView>,
    pub session_cursor: usize,
    pub session_filter: Seq<char>,
    pub collapsed_groups: Set<Seq<char>>,
    pub popup_collapsed_groups: Set<Seq<char>>,
    pub start_page_scroll: usize,
    pub session_id: Option<Seq<char>>,
    pub agent_id: Option<Seq<char>>,
    pub agent_mode: Seq<char>,
    pub launch_cwd: Option<Seq<char>>,
    pub home_dir: Option<Seq<char>>,
    pub new_session_path: Seq<char>,
    pub new_session_cursor: usize,
    pub new_session_completion: Option<PathCompletionStateView>,
    pub session_activity: Map<Seq<char>, SessionActivityView>,
    pub messages: Seq<ChatEntryView>,
    pub input: Seq<char>,
    pub input_cursor: usize,
    pub input_scroll: u16,
    pub input_line_width: usize,
    pub input_preferred_col: Option<usize>,
    pub scroll_offset: u16,
    pub prev_total_height: u16,
    pub activity: ActivityStateView,
    pub streaming_content: Seq<char>,
    pub streaming_cache: StreamingCacheView,
    pub streaming_thinking: Seq<char>,
    pub streaming_thinking_cache: StreamingCacheView,
    pub file_index: Seq<FileIndexEntryLiteView>,
    pub file_index_generated_at: Option<u64>,
    pub file_index_loading: bool,
    pub file_index_error: Option<Seq<char>>,
    pub mention_state: Option<MentionStateView>,
    pub last_compaction_token_estimate: Option<u32>,
    pub elicitation: Option<ElicitationStateView>,
    pub show_thinking: bool,
    pub reasoning_effort: Option<Seq<char>>,
    pub session_cache: Map<Seq<char>, Map<Seq<char>, CachedModeStateView>>,
    pub current_model: Option<Seq<char>>,
    pub current_provider: Option<Seq<char>>,
    pub models: Seq<ModelEntryView>,
    pub model_cursor: usize,
    pub model_filter: Seq<char>,
    pub mode_model_preferences: Map<Seq<char>, (Seq<char>, Seq<char>)>,
    pub themes: Seq<PaletteView>,
    pub theme: Theme,
    pub theme_cursor: usize,
    pub theme_filter: Seq<char>,
    pub help_scroll: usize,
    pub now_ns: u64,
    pub logs: Seq<AppLogEntryView>,
    pub log_cursor: usize,
    pub log_filter: Seq<char>,
    pub log_level_filter: LogLevel,
    pub undo_state: Option<UndoStateView>,
    pub undoable_turns: Seq<UndoableTurnView>,
    pub cumulative_cost: Option<CostView>,
    pub context_limit: u64,
    pub session_stats: SessionStatsLiteView,
    pub pending_cancel_confirm_until: Option<u64>,
    pub status: Seq<char>,
    pub conn: ConnState,
    pub reconnect_attempt: u32,
    pub reconnect_delay_ms: Option<u64>,
    pub server_state: ServerStateView,
    pub card_cache: CardCacheView,
    pub tick: u64,
    pub should_quit: bool,
}

impl DeepView for App {
    type V = AppView;

    open spec fn deep_view(&self) -> AppView {
        AppView {
            screen: self.screen,
            popup: self.popup,
            chord: self.chord,
            session_groups: self.session_groups.deep_view(),
            session_cursor: self.session_cursor,
            session_filter: self.session_filter@,
            collapsed_groups: self.collapsed_groups.deep_view(),
            popup_collapsed_groups: self.popup_collapsed_groups.deep_view(),
            start_page_scroll: self.start_page_scroll,
            session_id: self.session_id.deep_view(),
            agent_id: self.agent_id.deep_view(),
            agent_mode: self.agent_mode@,
            launch_cwd: self.launch_cwd.deep_view(),
            home_dir: self.home_dir.deep_view(),
            new_session_path: self.new_session_path@,
            new_session_cursor: self.new_session_cursor,
            new_session_completion: self.new_session_completion.deep_view(),
            session_activity: self.session_activity.deep_view(),
            messages: self.messages.deep_view(),
            input: self.input@,
            input_cursor: self.input_cursor,
            input_scroll: self.input_scroll,
            input_line_width: self.input_line_width,
            input_preferred_col: self.input_preferred_col,
            scroll_offset: self.scroll_offset,
            prev_total_height: self.prev_total_height,
            activity: self.activity.deep_view(),
            streaming_content: self.streaming_content@,
            streaming_cache: self.streaming_cache.deep_view(),
            streaming_thinking: self.streaming_thinking@,
            streaming_thinking_cache: self.streaming_thinking_cache.deep_view(),
            file_index: self.file_index.deep_view(),
            file_index_generated_at: self.file_index_generated_at,
            file_index_loading: self.file_index_loading,
            file_index_error: self.file_index_error.deep_view(),
            mention_state: self.mention_state.deep_view(),
            last_compaction_token_estimate: self.last_compaction_token_estimate,
            elicitation: self.elicitation.deep_view(),
            show_thinking: self.show_thinking,
            reasoning_effort: self.reasoning_effort.deep_view(),
            session_cache: self.session_cache.deep_view(),
            current_model: self.current_model.deep_view(),
            current_provider: self.current_provider.deep_view(),
            models: self.models.deep_view(),
            model_cursor: self.model_cursor,
            model_filter: self.model_filter@,
            mode_model_preferences: self.mode_model_preferences.deep_view(),
            themes: self.themes.deep_view(),
            theme: self.theme,
            theme_cursor: self.theme_cursor,
            theme_filter: self.theme_filter@,
            help_scroll: self.help_scroll,
            now_ns: self.now_ns,
            logs: self.logs.deep_view(),
            log_cursor: self.log_cursor,
            log_filter: self.log_filter@,
            log_level_filter: self.log_level_filter,
            undo_state: self.undo_state.deep_view(),
            undoable_turns: self.undoable_turns.deep_view(),
            cumulative_cost: self.cumulative_cost.deep_view(),
            context_limit: self.context_limit,
            session_stats: self.session_stats.deep_view(),
            pending_cancel_confirm_until: self.pending_cancel_confirm_until,
            status: self.status@,
            conn: self.conn,
            reconnect_attempt: self.reconnect_attempt,
            reconnect_delay_ms: self.reconnect_delay_ms,
            server_state: self.server_state.deep_view(),
            card_cache: self.card_cache.deep_view(),
            tick: self.tick,
            should_quit: self.should_quit,
        }
    }
}

impl View for App {
    type V = AppView;

    open spec fn view(&self) -> AppView {
        self.deep_view()
    }
}


// ── log levels ───────────────────────────────────────────────────────────────

impl LogLevel {
    /// The name of the level.
    pub open spec fn name(self) -> Seq<char> {
        match self {
            LogLevel::Trace => "TRACE"@,
            LogLevel::Debug => "DEBUG"@,
            LogLevel::Info => "INFO"@,
            LogLevel::Warn => "WARN"@,
            LogLevel::Error => "ERROR"@,
        }
    }

    /// The name of the level.
    pub fn label(self) -> (r: &'static str)
        ensures
            r@ == self.name(),
    {
        match self {
            LogLevel::Trace => "TRACE",
            LogLevel::Debug => "DEBUG",
            LogLevel::Info => "INFO",
            LogLevel::Warn => "WARN",
            LogLevel::Error => "ERROR",
        }
    }

    /// The next level, and the first behind the last.
    #[verifier::allow_in_spec]
    pub fn next(self) -> LogLevel
        returns
            (match self {
                LogLevel::Trace => LogLevel::Debug,
                LogLevel::Debug => LogLevel::Info,
                LogLevel::Info => LogLevel::Warn,
                LogLevel::Warn => LogLevel::Error,
                LogLevel::Error => LogLevel::Trace,
            }),
    {
        match self {
            LogLevel::Trace => LogLevel::Debug,
            LogLevel::Debug => LogLevel::Info,
            LogLevel::Info => LogLevel::Warn,
            LogLevel::Warn => LogLevel::Error,
            LogLevel::Error => LogLevel::Trace,
        }
    }

    /// How grave the level is, from 0.
    #[verifier::allow_in_spec]
    pub fn rank(self) -> u8
        returns
            (match self {
                LogLevel::Trace => 0u8,
                LogLevel::Debug => 1u8,
                LogLevel::Info => 2u8,
                LogLevel::Warn => 3u8,
                LogLevel::Error => 4u8,
            }),
    {
        match self {
            LogLevel::Trace => 0,
            LogLevel::Debug => 1,
            LogLevel::Info => 2,
            LogLevel::Warn => 3,
            LogLevel::Error => 4,
        }
    }
}

/// Five steps lead through all levels and back to the first.
pub proof fn law_levels_cycle(l: LogLevel)
    ensures
        l.next().next().next().next().next() == l,
        l.next() != l,
        l != LogLevel::Error ==> l.next().rank() == l.rank() + 1,
{
}

// ── streaming caches ─────────────────────────────────────────────────────────

impl StreamingCache {
    /// An empty cache.
    pub fn new() -> (r: StreamingCache)
        ensures
            r.deep_view() == StreamingCacheView::empty(),
    {
        let r = StreamingCache { rendered_len: 0, lines: Vec::new() };
        assert(r.deep_view() =~= StreamingCacheView::empty());
        r
    }

    /// The cached lines, where the text still has the length that they were
    /// made for.
    pub fn get(&self, content_len: usize) -> (r: Option<&Vec<Line>>)
        ensures
            r.deep_view() == self.deep_view().hit(content_len as int),
    {
        if content_len > 0 && content_len == self.rendered_len {
            Some(&self.lines)
        } else {
            None
        }
    }

    /// Keeps the lines for a text of the given length.
    pub fn store(&mut self, content_len: usize, lines: Vec<Line>)
        ensures
            final(self).deep_view() == (StreamingCacheView {
                rendered_len: content_len,
                lines: lines.deep_view(),
            }),
    {
        self.rendered_len = content_len;
        self.lines = lines;
    }

    /// Empties the cache.
    pub fn invalidate(&mut self)
        ensures
            final(self).deep_view() == StreamingCacheView::empty(),
    {
        self.rendered_len = 0;
        self.lines.clear();
        assert(self.deep_view() =~= StreamingCacheView::empty());
    }
}

impl StreamingCacheView {
    /// Nothing rendered.
    pub open spec fn empty() -> StreamingCacheView {
        StreamingCacheView { rendered_len: 0, lines: Seq::empty() }
    }

    /// The lines for a text of the given length, where they are there.
    pub open spec fn hit(self, content_len: int) -> Option<Seq<LineView>> {
        if content_len > 0 && content_len == self.rendered_len {
            Some(self.lines)
        } else {
            None
        }
    }
}

impl SessionStatsLiteView {
    /// Nothing has happened.
    pub open spec fn none() -> SessionStatsLiteView {
        SessionStatsLiteView {
            active_llm_duration: 0,
            open_llm_request_ts: None,
            open_llm_request_instant: None,
            latest_context_tokens: None,
            total_tool_calls: 0,
        }
    }
}

impl Default for SessionStatsLite {
    fn default() -> (r: Self)
        ensures
            r.deep_view() == SessionStatsLiteView::none(),
    {
        SessionStatsLite {
            active_llm_duration: 0,
            open_llm_request_ts: None,
            open_llm_request_instant: None,
            latest_context_tokens: None,
            total_tool_calls: 0,
        }
    }
}


// ── the whole state ──────────────────────────────────────────────────────────

impl AppView {
    /// The state at startup.
    pub open spec fn initial(themes: Seq<PaletteView>, theme: Theme) -> AppView {
        AppView {
            screen: Screen::Sessions,
            popup: Popup::Closed,
            chord: false,
            session_groups: Seq::empty(),
            session_cursor: 0,
            session_filter: Seq::empty(),
            collapsed_groups: Set::empty(),
            popup_collapsed_groups: Set::empty(),
            start_page_scroll: 0,
            session_id: None,
            agent_id: None,
            agent_mode: "build"@,
            launch_cwd: None,
            home_dir: None,
            new_session_path: Seq::empty(),
            new_session_cursor: 0,
            new_session_completion: None,
            session_activity: Map::empty(),
            messages: Seq::empty(),
            input: Seq::empty(),
            input_cursor: 0,
            input_scroll: 0,
            input_line_width: 1,
            input_preferred_col: None,
            scroll_offset: 0,
            prev_total_height: 0,
            activity: ActivityStateView::Idle,
            streaming_content: Seq::empty(),
            streaming_cache: StreamingCacheView::empty(),
            streaming_thinking: Seq::empty(),
            streaming_thinking_cache: StreamingCacheView::empty(),
            file_index: Seq::empty(),
            file_index_generated_at: None,
            file_index_loading: false,
            file_index_error: None,
            mention_state: None,
            last_compaction_token_estimate: None,
            elicitation: None,
            show_thinking: true,
            reasoning_effort: None,
            session_cache: Map::empty(),
            current_model: None,
            current_provider: None,
            models: Seq::empty(),
            model_cursor: 0,
            model_filter: Seq::empty(),
            mode_model_preferences: Map::empty(),
            themes: themes,
            theme: theme,
            theme_cursor: 0,
            theme_filter: Seq::empty(),
            help_scroll: 0,
            now_ns: 0,
            logs: Seq::empty(),
            log_cursor: 0,
            log_filter: Seq::empty(),
            log_level_filter: LogLevel::Info,
            undo_state: None,
            undoable_turns: Seq::empty(),
            cumulative_cost: None,
            context_limit: 0,
            session_stats: SessionStatsLiteView::none(),
            pending_cancel_confirm_until: None,
            status: "connecting..."@,
            conn: ConnState::Connecting,
            reconnect_attempt: 0,
            reconnect_delay_ms: None,
            server_state: ServerStateView::Disabled,
            card_cache: CardCacheView { cards: Seq::empty(), processed_messages: 0 },
            tick: 0,
            should_quit: false,
        }
    }

    /// The theme is one of the themes, and cursors stand between characters.
    pub open spec fn wf(self) -> bool {
        &&& self.theme.fits(self.themes)
        &&& on_boundary(self.input, self.input_cursor as int)
        &&& match self.elicitation {
            Some(e) => on_boundary(e.text_input, e.text_cursor as int),
            None => true,
        }
    }
}

impl App {
    /// The state at startup, with the first theme.
    pub fn new(themes: Vec<Base16Palette>) -> (r: App)
        requires
            themes@.len() > 0,
        ensures
            r@ == AppView::initial(themes.deep_view(), r@.theme),
            r@.theme.fits(themes.deep_view()),
            r@.theme.current == 0,
            r@.theme.frame == 0,
            r@.wf(),
    {
        let theme = Theme::new(&themes);
        let r = App {
            screen: Screen::Sessions,
            popup: Popup::Closed,
            chord: false,
            session_groups: Vec::new(),
            session_cursor: 0,
            session_filter: String::new(),
            collapsed_groups: StrSet::new(),
            popup_collapsed_groups: StrSet::new(),
            start_page_scroll: 0,
            session_id: None,
            agent_id: None,
            agent_mode: owned("build"),
            launch_cwd: None,
            home_dir: None,
            new_session_path: String::new(),
            new_session_cursor: 0,
            new_session_completion: None,
            session_activity: StrMap::new(),
            messages: Vec::new(),
            input: String::new(),
            input_cursor: 0,
            input_scroll: 0,
            input_line_width: 1,
            input_preferred_col: None,
            scroll_offset: 0,
            prev_total_height: 0,
            activity: ActivityState::Idle,
            streaming_content: String::new(),
            streaming_cache: StreamingCache::new(),
            streaming_thinking: String::new(),
            streaming_thinking_cache: StreamingCache::new(),
            file_index: Vec::new(),
            file_index_generated_at: None,
            file_index_loading: false,
            file_index_error: None,
            mention_state: None,
            last_compaction_token_estimate: None,
            elicitation: None,
            show_thinking: true,
            reasoning_effort: None,
            session_cache: StrMap::new(),
            current_model: None,
            current_provider: None,
            models: Vec::new(),
            model_cursor: 0,
            model_filter: String::new(),
            mode_model_preferences: StrMap::new(),
            themes: themes,
            theme: theme,
            theme_cursor: 0,
            theme_filter: String::new(),
            help_scroll: 0,
            now_ns: 0,
            logs: Vec::new(),
            log_cursor: 0,
            log_filter: String::new(),
            log_level_filter: LogLevel::Info,
            undo_state: None,
            undoable_turns: Vec::new(),
            cumulative_cost: None,
            context_limit: 0,
            session_stats: SessionStatsLite::default(),
            pending_cancel_confirm_until: None,
            status: owned("connecting..."),
            conn: ConnState::Connecting,
            reconnect_attempt: 0,
            reconnect_delay_ms: None,
            server_state: ServerState::Disabled,
            card_cache: CardCache { cards: Vec::new(), processed_messages: 0 },
            tick: 0,
            should_quit: false,
        };
        assert(r@ =~= AppView::initial(themes.deep_view(), theme));
        proof {
            lemma_char_pos_of_prefix(r@.input, 0);
            assert(bytes(r@.input.take(0)) == 0);
        }
        r
    }
}

} // verus!
