//! What the messages and events of the server do.
use crate::app::{
    ActivityState, ActivityStateView, App, AppView, ChatEntry, ChatEntryView, ConnState,
    FileIndexEntryLite, FileIndexEntryLiteView, LogLevel, Screen, SessionStatsLite,
    SessionStatsLiteView, StreamingCacheView, ToolDetail, ToolDetailView, UndoableTurn,
    UndoableTurnView,
};
use crate::elicitation::{fields_of, ElicitationState, ElicitationStateView};
use crate::protocol::{
    data_kind, kind_of_type, AgentEvent, AgentEventView, ClientMsg, ClientMsgView, Cost, CostView,
    DataKind, EventEnvelope, EventEnvelopeView, EventKind, EventKindView, FileIndexData,
    FileIndexDataView, FileIndexEntryView, RawServerMsg, RawServerMsgView, ReasoningEffortField,
    ReasoningEffortFieldView, RedoResultData, RedoResultDataView, ServerData, ServerDataView,
    SessionCreatedData, SessionCreatedDataView, SessionGroup, SessionGroupView, SessionLoadedData,
    SessionLoadedDataView, SessionSummary, SessionSummaryView, StateData, StateDataView,
    UndoResultData, UndoResultDataView,
};
use crate::seqs::{
    first_index, in_order, law_stable_sort, lemma_filter_step, lemma_first_is, lemma_first_none,
    lemma_take_all, same_order_of_level, sort_stable, stable_sort,
};
use crate::strmap::StrMap;
use crate::text::{
    bytes, cat2, cat3, copy_opt, decimal, lemma_char_pos_of_prefix, number, opt_is, ordered, owned,
    same, text_le,
};
use crate::tools::{
    after_answers, after_result, backfill_elicitation_outcomes, call_detail, content_text,
    content_to_string, parse_tool_detail, update_tool_detail,
};
use crate::undo::{copy_texts, find_turn, turn_of};
use vstd::prelude::*;

verus! {

// ── events ───────────────────────────────────────────────────────────────────

/// Being the user message with the id.
pub open spec fn user_message(id: Seq<char>) -> spec_fn(ChatEntryView) -> bool {
    |e: ChatEntryView| e matches ChatEntryView::User { message_id, .. } && message_id == Some(id)
}

/// Being no note of a compaction that has started.
pub open spec fn no_compaction_start() -> spec_fn(ChatEntryView) -> bool {
    |e: ChatEntryView| !(e is CompactionStart)
}

impl AppView {
    /// With one more entry in the conversation.
    pub open spec fn with_message(self, e: ChatEntryView) -> AppView {
        AppView { messages: self.messages.push(e), ..self }
    }

    /// A new prompt leaves the reverted turns behind: what stands from the
    /// frontier on goes, and nothing can be redone.
    pub open spec fn branched(self) -> AppView {
        match self.frontier() {
            Some(id) => AppView {
                messages: match first_index(self.messages, user_message(id)) {
                    Some(k) => self.messages.take(k),
                    None => self.messages,
                },
                undoable_turns: match first_index(self.undoable_turns, turn_of(id)) {
                    Some(k) => self.undoable_turns.take(k),
                    None => self.undoable_turns,
                },
                undo_state: None,
                ..self
            },
            None => AppView { undo_state: None, ..self },
        }
    }

    /// After a prompt: it is shown, and can be undone where it has an id.
    #[verifier::opaque]
    pub open spec fn prompted(
        self,
        text: Seq<char>,
        message_id: Option<Seq<char>>,
        is_replay: bool,
    ) -> AppView {
        if text.len() == 0 {
            self
        } else {
            let s = if is_replay {
                self
            } else {
                self.branched()
            };
            let shown = s.with_message(ChatEntryView::User { text, message_id });
            match message_id {
                Some(id) => AppView {
                    undoable_turns: shown.undoable_turns.push(
                        UndoableTurnView { turn_id: id, message_id: id, text },
                    ),
                    ..shown
                },
                None => shown,
            }
        }
    }

    /// The text was just shown as a prompt.
    pub open spec fn just_prompted(self, text: Seq<char>) -> bool {
        ||| self.messages.len() > 0 && (self.messages.last() matches ChatEntryView::User { text: t, .. } && t == text)
        ||| self.undoable_turns.len() > 0 && self.undoable_turns.last().text == text
    }

    /// The thinking text of an assistant message: its own, or what was
    /// streamed.
    pub open spec fn thinking_of(self, thinking: Option<Seq<char>>) -> Option<Seq<char>> {
        match thinking {
            Some(t) => Some(t),
            None => if self.streaming_thinking.len() == 0 {
                None
            } else {
                Some(self.streaming_thinking)
            },
        }
    }

    /// After an assistant message was stored: it takes the place of what was
    /// streamed.
    #[verifier::opaque]
    pub open spec fn answered(
        self,
        content: Seq<char>,
        thinking: Option<Seq<char>>,
    ) -> AppView {
        let s = (AppView { streaming_content: Seq::empty(), ..self }).caches_invalidated();
        let t = if s.turn_active() {
            AppView { activity: ActivityStateView::Thinking, ..s }
        } else {
            s
        };
        if content.len() > 0 {
            t.with_message(
                ChatEntryView::Assistant { content, thinking: self.thinking_of(thinking) },
            )
        } else {
            t
        }
    }

    /// After the start of a tool call: it is shown, unless it is a question.
    #[verifier::opaque]
    pub open spec fn tool_started(
        self,
        id: Option<Seq<char>>,
        name: Seq<char>,
        args: Option<crate::json::JsonView>,
    ) -> AppView {
        let s = (AppView { activity: ActivityStateView::RunningTool { name }, ..self }).with_status(
            LogLevel::Debug,
            "tool"@,
            "tool: "@ + name,
        );
        if name == "question"@ {
            s
        } else {
            s.with_message(
                ChatEntryView::ToolCall {
                    tool_call_id: id,
                    name,
                    is_error: false,
                    detail: call_detail(s.theme, name, args),
                },
            )
        }
    }

    /// After the end of a tool call: its entry tells the result, and a failure
    /// has an entry of its own.
    #[verifier::opaque]
    pub open spec fn tool_ended(
        self,
        id: Option<Seq<char>>,
        name: Seq<char>,
        is_error: Option<bool>,
        result: Option<Seq<char>>,
        is_replay: bool,
    ) -> AppView {
        if name == "question"@ {
            match result {
                Some(r) => if is_replay {
                    AppView { messages: after_answers(self.messages, r), ..self }
                } else {
                    self
                },
                None => self,
            }
        } else {
            let s = match result {
                Some(r) => AppView { messages: after_result(self.messages, id, r), ..self },
                None => self,
            };
            if is_error == Some(true) {
                s.with_message(
                    ChatEntryView::ToolCall {
                        tool_call_id: id,
                        name: name + " (failed)"@,
                        is_error: true,
                        detail: ToolDetailView::Bare,
                    },
                )
            } else {
                s
            }
        }
    }

    /// After a question of the agent.  When it is replayed it has been
    /// answered; else it waits.
    #[verifier::opaque]
    pub open spec fn asked(
        self,
        elicitation_id: Seq<char>,
        message: Seq<char>,
        source: Seq<char>,
        schema: crate::json::JsonView,
        is_replay: bool,
    ) -> AppView {
        if is_replay {
            self.with_message(
                ChatEntryView::Elicitation {
                    elicitation_id,
                    message,
                    source,
                    outcome: Some("responded"@),
                },
            )
        } else {
            (AppView {
                elicitation: Some(
                    ElicitationStateView {
                        elicitation_id,
                        message,
                        source,
                        fields: fields_of(schema),
                        field_cursor: 0,
                        option_cursor: 0,
                        selected: Map::empty(),
                        text_input: Seq::empty(),
                        text_cursor: 0,
                    },
                ),
                scroll_offset: 0,
                ..self
            }).with_message(
                ChatEntryView::Elicitation { elicitation_id, message, source, outcome: None },
            ).with_status(
                LogLevel::Info,
                "elicitation"@,
                "question \u{2014} answer in the panel above input"@,
            )
        }
    }

    /// After a cancellation: what was streamed stays, marked as cancelled.
    #[verifier::opaque]
    pub open spec fn cancelled(self) -> AppView {
        let s = (AppView { activity: ActivityStateView::Idle, ..self }).without_confirm();
        let t = if s.streaming_content.len() > 0 {
            (AppView {
                streaming_content: Seq::empty(),
                streaming_cache: StreamingCacheView::empty(),
                streaming_thinking: Seq::empty(),
                streaming_thinking_cache: StreamingCacheView::empty(),
                ..s
            }).with_message(
                ChatEntryView::Assistant {
                    content: s.streaming_content + " [cancelled]"@,
                    thinking: s.thinking_of(None),
                },
            )
        } else {
            s
        };
        t.with_status(LogLevel::Warn, "activity"@, "cancelled"@)
    }

    /// After a user message was stored: it is shown, unless it was just shown
    /// as a prompt.
    #[verifier::opaque]
    pub open spec fn user_stored(self, text: Seq<char>) -> AppView {
        if text.len() > 0 && !self.just_prompted(text) {
            self.with_message(ChatEntryView::User { text, message_id: None })
        } else {
            self
        }
    }

    /// After the start of a turn.
    #[verifier::opaque]
    pub open spec fn turn_started(self) -> AppView {
        (AppView {
            activity: ActivityStateView::Thinking,
            streaming_content: Seq::empty(),
            ..self.without_confirm()
        }).caches_invalidated().with_status(LogLevel::Debug, "activity"@, "thinking..."@)
    }

    /// With more thinking text.
    #[verifier::opaque]
    pub open spec fn thought(self, content: Seq<char>) -> AppView {
        AppView { streaming_thinking: self.streaming_thinking + content, ..self }
    }

    /// With more text of the answer.
    #[verifier::opaque]
    pub open spec fn streamed(self, content: Seq<char>) -> AppView {
        AppView {
            activity: if self.turn_active() {
                ActivityStateView::Streaming
            } else {
                self.activity
            },
            streaming_content: self.streaming_content + content,
            ..self
        }
    }

    /// After the start of a compaction.
    #[verifier::opaque]
    pub open spec fn compaction_started(self, token_estimate: u32) -> AppView {
        (AppView {
            activity: ActivityStateView::Compacting { token_estimate },
            last_compaction_token_estimate: Some(token_estimate),
            ..self
        }).with_message(ChatEntryView::CompactionStart { token_estimate }).with_status(
            LogLevel::Debug,
            "activity"@,
            "compacting context (~"@ + decimal(token_estimate as nat) + " tokens)"@,
        )
    }

    /// After the end of a compaction: its summary takes the place of the notes
    /// of its start.
    #[verifier::opaque]
    pub open spec fn compaction_ended(self, summary: Seq<char>, summary_len: u32) -> AppView {
        (AppView {
            activity: if self.streaming_content.len() == 0 {
                ActivityStateView::Thinking
            } else {
                ActivityStateView::Streaming
            },
            messages: self.messages.filter(no_compaction_start()),
            ..self
        }).with_message(
            ChatEntryView::CompactionEnd {
                token_estimate: self.last_compaction_token_estimate,
                summary,
                summary_len,
            },
        ).with_status(LogLevel::Info, "activity"@, "context compacted"@)
    }

    /// After a change of the model; a live one is remembered.
    #[verifier::opaque]
    pub open spec fn provider_changed(
        self,
        provider: Seq<char>,
        model: Seq<char>,
        context_limit: Option<u64>,
        is_replay: bool,
    ) -> AppView {
        let s = AppView {
            current_provider: Some(provider),
            current_model: Some(model),
            context_limit: match context_limit {
                Some(n) => n,
                None => self.context_limit,
            },
            ..self
        };
        if is_replay {
            s
        } else {
            s.mode_cached()
        }
    }

    /// After the end of a request to the model.
    #[verifier::opaque]
    pub open spec fn request_ended(self, cost: Option<CostView>) -> AppView {
        (AppView {
            activity: ActivityStateView::Idle,
            cumulative_cost: cost,
            ..self.without_confirm()
        }).with_status(LogLevel::Debug, "activity"@, "ready"@)
    }

    /// After an error of the agent.
    #[verifier::opaque]
    pub open spec fn failed(self, message: Seq<char>) -> AppView {
        (AppView {
            activity: ActivityStateView::Idle,
            ..self
        }).without_confirm().with_message(ChatEntryView::Error(message)).with_status(
            LogLevel::Error,
            "server"@,
            "error: "@ + message,
        )
    }

    /// After an event.
    pub open spec fn event(self, kind: EventKindView, is_replay: bool) -> AppView {
        match kind {
            EventKindView::PromptReceived { content, message_id } => self.prompted(
                content_text(content),
                message_id,
                is_replay,
            ),
            EventKindView::UserMessageStored { content } => self.user_stored(
                content_text(content),
            ),
            EventKindView::TurnStarted => self.turn_started(),
            EventKindView::AssistantThinkingDelta { content, .. } => self.thought(content),
            EventKindView::AssistantContentDelta { content, .. } => self.streamed(content),
            EventKindView::CompactionStart { token_estimate } => self.compaction_started(
                token_estimate,
            ),
            EventKindView::CompactionEnd { summary, summary_len } => self.compaction_ended(
                summary,
                summary_len,
            ),
            EventKindView::AssistantMessageStored { content, thinking, .. } => self.answered(
                content,
                thinking,
            ),
            EventKindView::ToolCallStart { tool_call_id, tool_name, arguments } => {
                self.tool_started(tool_call_id, tool_name, arguments)
            },
            EventKindView::ToolCallEnd { tool_call_id, tool_name, is_error, result } => {
                self.tool_ended(tool_call_id, tool_name, is_error, result, is_replay)
            },
            EventKindView::ProviderChanged { provider, model, context_limit, .. } => {
                self.provider_changed(provider, model, context_limit, is_replay)
            },
            EventKindView::LlmRequestEnd { cumulative_cost_usd, .. } => self.request_ended(
                cumulative_cost_usd,
            ),
            EventKindView::Error { message } => self.failed(message),
            EventKindView::ElicitationRequested {
                elicitation_id,
                message,
                requested_schema,
                source,
                ..
            } => self.asked(elicitation_id, message, source, requested_schema, is_replay),
            EventKindView::SessionModeChanged { mode } => AppView { agent_mode: mode, ..self },
            EventKindView::Cancelled => self.cancelled(),
            EventKindView::LlmRequestStart { .. } => self,
            EventKindView::SessionCreated => self,
            EventKindView::Unknown => self,
        }
    }
}

impl App {
    fn push_message(&mut self, e: ChatEntry)
        ensures
            final(self)@ == old(self)@.with_message(e.deep_view()),
    {
        let ghost before = self@.messages;
        self.messages.push(e);
        assert(self@.messages =~= before.push(e.deep_view()));
    }

    fn find_user_message(&self, id: &str) -> (r: Option<usize>)
        ensures
            match r {
                Some(k) => first_index(self@.messages, user_message(id@)) == Some(k as int) && k
                    < self.messages@.len(),
                None => first_index(self@.messages, user_message(id@)) is None,
            },
    {
        let ghost mv = self@.messages;
        let ghost p = user_message(id@);
        let mut i: usize = 0;
        while i < self.messages.len()
            invariant
                i <= self.messages@.len(),
                mv == self@.messages,
                p == user_message(id@),
                forall|j: int| 0 <= j < i ==> !p(#[trigger] mv[j]),
            decreases self.messages@.len() - i,
        {
            assert(mv[i as int] == self.messages@[i as int].deep_view());
            match &self.messages[i] {
                ChatEntry::User { message_id, .. } => {
                    if opt_is(message_id, id) {
                        proof {
                            lemma_first_is(mv, p, i as int);
                        }
                        return Some(i);
                    }
                },
                _ => {},
            }
            i = i + 1;
        }
        proof {
            lemma_first_none(mv, p);
        }
        None
    }

    fn leave_reverted_turns(&mut self)
        ensures
            final(self)@ == old(self)@.branched(),
    {
        let frontier = match &self.undo_state {
            Some(state) => copy_opt(&state.frontier_message_id),
            None => None,
        };
        if let Some(id) = frontier {
            let ghost mv = self@.messages;
            let ghost tv = self@.undoable_turns;
            if let Some(k) = self.find_user_message(id.as_str()) {
                self.messages.truncate(k);
                assert(self@.messages =~= mv.take(k as int));
            }
            if let Some(k) = find_turn(&self.undoable_turns, id.as_str()) {
                self.undoable_turns.truncate(k);
                assert(self@.undoable_turns =~= tv.take(k as int));
            }
        }
        self.undo_state = None;
    }

    fn on_prompt(&mut self, text: String, message_id: &Option<String>, is_replay: bool)
        ensures
            final(self)@ == old(self)@.prompted(text@, message_id.deep_view(), is_replay),
            old(self)@.wf() ==> final(self)@.wf(),
    {
        reveal(AppView::prompted);
        if text.as_str().is_empty() {
            return ;
        }
        if !is_replay {
            self.leave_reverted_turns();
        }
        self.push_message(
            ChatEntry::User { text: text.clone(), message_id: copy_opt(message_id) },
        );
        if let Some(id) = message_id {
            let ghost tv = self@.undoable_turns;
            let turn = UndoableTurn { turn_id: id.clone(), message_id: id.clone(), text };
            self.undoable_turns.push(turn);
            assert(self@.undoable_turns =~= tv.push(turn.deep_view()));
        }
    }

    fn was_just_prompted(&self, text: &str) -> (r: bool)
        ensures
            r == self@.just_prompted(text@),
    {
        let n: usize = self.messages.len();
        if n > 0 {
            assert(self@.messages.last() == self.messages@[n - 1].deep_view());
            match &self.messages[n - 1] {
                ChatEntry::User { text: last, .. } => {
                    if same(last.as_str(), text) {
                        return true;
                    }
                },
                _ => {},
            }
        }
        let m: usize = self.undoable_turns.len();
        if m > 0 {
            assert(self@.undoable_turns.last() == self.undoable_turns@[m - 1].deep_view());
            same(self.undoable_turns[m - 1].text.as_str(), text)
        } else {
            false
        }
    }

    fn streamed_thinking(&self) -> (r: Option<String>)
        ensures
            r.deep_view() == self@.thinking_of(None),
    {
        if self.streaming_thinking.as_str().is_empty() {
            None
        } else {
            Some(self.streaming_thinking.clone())
        }
    }

    fn on_answer(&mut self, content: &String, thinking: &Option<String>)
        ensures
            final(self)@ == old(self)@.answered(content@, thinking.deep_view()),
            old(self)@.wf() ==> final(self)@.wf(),
    {
        reveal(AppView::answered);
        let thinking_text = match thinking {
            Some(t) => Some(t.clone()),
            None => self.streamed_thinking(),
        };
        self.streaming_content = String::new();
        self.invalidate_streaming_caches();
        if self.is_turn_active() {
            self.activity = ActivityState::Thinking;
        }
        if !content.as_str().is_empty() {
            self.push_message(
                ChatEntry::Assistant { content: content.clone(), thinking: thinking_text },
            );
        }
    }

    fn drop_compaction_starts(&mut self)
        ensures
            final(self)@ == (AppView {
                messages: old(self)@.messages.filter(no_compaction_start()),
                ..old(self)@
            }),
    {
        let ghost mv = self@.messages;
        let ghost p = no_compaction_start();
        let mut kept: Vec<ChatEntry> = Vec::new();
        let mut i: usize = 0;
        assert(kept.deep_view() =~= mv.take(0).filter(p)) by {
            reveal(Seq::filter);
        }
        while i < self.messages.len()
            invariant
                i <= self.messages@.len(),
                self@ == old(self)@,
                mv == self@.messages,
                p == no_compaction_start(),
                kept.deep_view() == mv.take(i as int).filter(p),
            decreases self.messages@.len() - i,
        {
            let ghost before = kept.deep_view();
            proof {
                lemma_filter_step(mv, p, i as int);
                assert(mv[i as int] == self.messages@[i as int].deep_view());
            }
            let keep = match &self.messages[i] {
                ChatEntry::CompactionStart { .. } => false,
                _ => true,
            };
            if keep {
                kept.push(self.messages[i].clone());
                assert(kept.deep_view() =~= before.push(mv[i as int]));
            }
            i = i + 1;
        }
        proof {
            lemma_take_all(mv);
        }
        self.messages = kept;
    }

    fn on_tool_start(
        &mut self,
        tool_call_id: &Option<String>,
        tool_name: &String,
        arguments: &Option<crate::json::Json>,
    )
        ensures
            final(self)@ == old(self)@.tool_started(
                tool_call_id.deep_view(),
                tool_name@,
                arguments.deep_view(),
            ),
            old(self)@.wf() ==> final(self)@.wf(),
    {
        reveal(AppView::tool_started);
        self.activity = ActivityState::RunningTool { name: tool_name.clone() };
        self.set_status(LogLevel::Debug, "tool", cat2("tool: ", tool_name.as_str()).as_str());
        if !same(tool_name.as_str(), "question") {
            let theme = self.theme;
            let detail = parse_tool_detail(&theme, tool_name.as_str(), arguments);
            self.push_message(
                ChatEntry::ToolCall {
                    tool_call_id: copy_opt(tool_call_id),
                    name: tool_name.clone(),
                    is_error: false,
                    detail,
                },
            );
        }
    }

    fn on_tool_end(
        &mut self,
        tool_call_id: &Option<String>,
        tool_name: &String,
        is_error: Option<bool>,
        result: &Option<String>,
        is_replay: bool,
    )
        ensures
            final(self)@ == old(self)@.tool_ended(
                tool_call_id.deep_view(),
                tool_name@,
                is_error,
                result.deep_view(),
                is_replay,
            ),
            old(self)@.wf() ==> final(self)@.wf(),
    {
        reveal(AppView::tool_ended);
        if same(tool_name.as_str(), "question") {
            if let Some(r) = result {
                if is_replay {
                    backfill_elicitation_outcomes(&mut self.messages, r.as_str());
                }
            }
        } else {
            if let Some(r) = result {
                update_tool_detail(&mut self.messages, tool_call_id, r.as_str());
            }
            let failed = match is_error {
                Some(b) => b,
                None => false,
            };
            if failed {
                self.push_message(
                    ChatEntry::ToolCall {
                        tool_call_id: copy_opt(tool_call_id),
                        name: cat2(tool_name.as_str(), " (failed)"),
                        is_error: true,
                        detail: ToolDetail::Bare,
                    },
                );
            }
        }
    }

    fn on_question(
        &mut self,
        elicitation_id: &String,
        message: &String,
        source: &String,
        schema: &crate::json::Json,
        is_replay: bool,
    )
        ensures
            final(self)@ == old(self)@.asked(
                elicitation_id@,
                message@,
                source@,
                schema.tree(),
                is_replay,
            ),
            old(self)@.wf() ==> final(self)@.wf(),
    {
        reveal(AppView::asked);
        proof {
            lemma_char_pos_of_prefix(Seq::<char>::empty(), 0);
            assert(bytes(Seq::<char>::empty().take(0)) == 0);
        }
        if is_replay {
            self.push_message(
                ChatEntry::Elicitation {
                    elicitation_id: elicitation_id.clone(),
                    message: message.clone(),
                    source: source.clone(),
                    outcome: Some(owned("responded")),
                },
            );
            return ;
        }
        let fields = ElicitationState::parse_schema(schema);
        self.elicitation = Some(
            ElicitationState {
                elicitation_id: elicitation_id.clone(),
                message: message.clone(),
                source: source.clone(),
                fields,
                field_cursor: 0,
                option_cursor: 0,
                selected: StrMap::new(),
                text_input: String::new(),
                text_cursor: 0,
            },
        );
        self.push_message(
            ChatEntry::Elicitation {
                elicitation_id: elicitation_id.clone(),
                message: message.clone(),
                source: source.clone(),
                outcome: None,
            },
        );
        self.scroll_offset = 0;
        self.set_status(
            LogLevel::Info,
            "elicitation",
            "question \u{2014} answer in the panel above input",
        );
    }

    fn on_cancelled(&mut self)
        ensures
            final(self)@ == old(self)@.cancelled(),
            old(self)@.wf() ==> final(self)@.wf(),
    {
        reveal(AppView::cancelled);
        self.activity = ActivityState::Idle;
        self.clear_cancel_confirm();
        if !self.streaming_content.as_str().is_empty() {
            let content = cat2(self.streaming_content.as_str(), " [cancelled]");
            let thinking = self.streamed_thinking();
            self.streaming_content = String::new();
            self.invalidate_streaming_caches();
            self.push_message(ChatEntry::Assistant { content, thinking });
        }
        self.set_status(LogLevel::Warn, "activity", "cancelled");
    }

    fn on_user_stored(&mut self, text: String)
        ensures
            final(self)@ == old(self)@.user_stored(text@),
            old(self)@.wf() ==> final(self)@.wf(),
    {
        reveal(AppView::user_stored);
        if !text.as_str().is_empty() && !self.was_just_prompted(text.as_str()) {
            self.push_message(ChatEntry::User { text, message_id: None });
        }
    }

    fn on_turn_started(&mut self)
        ensures
            final(self)@ == old(self)@.turn_started(),
            old(self)@.wf() ==> final(self)@.wf(),
    {
        reveal(AppView::turn_started);
        self.clear_cancel_confirm();
        self.activity = ActivityState::Thinking;
        self.streaming_content = String::new();
        self.invalidate_streaming_caches();
        self.set_status(LogLevel::Debug, "activity", "thinking...");
    }

    fn on_thought(&mut self, content: &String)
        ensures
            final(self)@ == old(self)@.thought(content@),
            old(self)@.wf() ==> final(self)@.wf(),
    {
        reveal(AppView::thought);
        self.streaming_thinking.append(content.as_str());
    }

    fn on_streamed(&mut self, content: &String)
        ensures
            final(self)@ == old(self)@.streamed(content@),
            old(self)@.wf() ==> final(self)@.wf(),
    {
        reveal(AppView::streamed);
        if self.is_turn_active() {
            self.activity = ActivityState::Streaming;
        }
        self.streaming_content.append(content.as_str());
    }

    fn on_compaction_start(&mut self, token_estimate: u32)
        ensures
            final(self)@ == old(self)@.compaction_started(token_estimate),
            old(self)@.wf() ==> final(self)@.wf(),
    {
        reveal(AppView::compaction_started);
        self.activity = ActivityState::Compacting { token_estimate };
        self.last_compaction_token_estimate = Some(token_estimate);
        self.push_message(ChatEntry::CompactionStart { token_estimate });
        let text = cat3(
            "compacting context (~",
            number(token_estimate as u128).as_str(),
            " tokens)",
        );
        self.set_status(LogLevel::Debug, "activity", text.as_str());
    }

    fn on_compaction_end(&mut self, summary: &String, summary_len: u32)
        ensures
            final(self)@ == old(self)@.compaction_ended(summary@, summary_len),
            old(self)@.wf() ==> final(self)@.wf(),
    {
        reveal(AppView::compaction_ended);
        self.activity = if self.streaming_content.as_str().is_empty() {
            ActivityState::Thinking
        } else {
            ActivityState::Streaming
        };
        self.drop_compaction_starts();
        self.push_message(
            ChatEntry::CompactionEnd {
                token_estimate: self.last_compaction_token_estimate,
                summary: summary.clone(),
                summary_len,
            },
        );
        self.set_status(LogLevel::Info, "activity", "context compacted");
    }

    fn on_provider_changed(
        &mut self,
        provider: &String,
        model: &String,
        context_limit: Option<u64>,
        is_replay: bool,
    )
        ensures
            final(self)@ == old(self)@.provider_changed(
                provider@,
                model@,
                context_limit,
                is_replay,
            ),
            old(self)@.wf() ==> final(self)@.wf(),
    {
        reveal(AppView::provider_changed);
        self.current_provider = Some(provider.clone());
        self.current_model = Some(model.clone());
        if let Some(limit) = context_limit {
            self.context_limit = limit;
        }
        if !is_replay {
            self.cache_session_mode_state();
        }
    }

    fn on_request_end(&mut self, cost: &Option<Cost>)
        ensures
            final(self)@ == old(self)@.request_ended(cost.deep_view()),
            old(self)@.wf() ==> final(self)@.wf(),
    {
        reveal(AppView::request_ended);
        self.clear_cancel_confirm();
        self.activity = ActivityState::Idle;
        self.cumulative_cost = match cost {
            Some(c) => Some(c.clone()),
            None => None,
        };
        self.set_status(LogLevel::Debug, "activity", "ready");
    }

    fn on_error(&mut self, message: &String)
        ensures
            final(self)@ == old(self)@.failed(message@),
            old(self)@.wf() ==> final(self)@.wf(),
    {
        reveal(AppView::failed);
        self.activity = ActivityState::Idle;
        self.clear_cancel_confirm();
        self.push_message(ChatEntry::Error(message.clone()));
        self.set_status(LogLevel::Error, "server", cat2("error: ", message.as_str()).as_str());
    }

    /// Takes an event in; a replayed one has had its effects before.
    pub fn handle_event_kind(&mut self, kind: &EventKind, is_replay: bool)
        ensures
            final(self)@ == old(self)@.event(kind.deep_view(), is_replay),
            old(self)@.wf() ==> final(self)@.wf(),
    {
        match kind {
            EventKind::PromptReceived { content, message_id } => {
                self.on_prompt(content_to_string(content), message_id, is_replay);
            },
            EventKind::UserMessageStored { content } => {
                self.on_user_stored(content_to_string(content));
            },
            EventKind::TurnStarted => {
                self.on_turn_started();
            },
            EventKind::AssistantThinkingDelta { content, .. } => {
                self.on_thought(content);
            },
            EventKind::AssistantContentDelta { content, .. } => {
                self.on_streamed(content);
            },
            EventKind::CompactionStart { token_estimate } => {
                self.on_compaction_start(*token_estimate);
            },
            EventKind::CompactionEnd { summary, summary_len } => {
                self.on_compaction_end(summary, *summary_len);
            },
            EventKind::AssistantMessageStored { content, thinking, .. } => {
                self.on_answer(content, thinking);
            },
            EventKind::ToolCallStart { tool_call_id, tool_name, arguments } => {
                self.on_tool_start(tool_call_id, tool_name, arguments);
            },
            EventKind::ToolCallEnd { tool_call_id, tool_name, is_error, result } => {
                self.on_tool_end(tool_call_id, tool_name, *is_error, result, is_replay);
            },
            EventKind::ProviderChanged { provider, model, context_limit, .. } => {
                self.on_provider_changed(provider, model, *context_limit, is_replay);
            },
            EventKind::LlmRequestEnd { cumulative_cost_usd, .. } => {
                self.on_request_end(cumulative_cost_usd);
            },
            EventKind::Error { message } => {
                self.on_error(message);
            },
            EventKind::ElicitationRequested {
                elicitation_id,
                message,
                requested_schema,
                source,
                ..
            } => {
                self.on_question(elicitation_id, message, source, requested_schema, is_replay);
            },
            EventKind::SessionModeChanged { mode } => {
                self.agent_mode = mode.clone();
            },
            EventKind::Cancelled => {
                self.on_cancelled();
            },
            EventKind::LlmRequestStart { .. } => {},
            EventKind::SessionCreated => {},
            EventKind::Unknown => {},
        }
    }

    /// Takes an event of the running session in.
    pub fn handle_event(&mut self, envelope: &EventEnvelope)
        ensures
            final(self)@ == old(self)@.live_event(envelope.deep_view()),
            old(self)@.wf() ==> final(self)@.wf(),
    {
        self.apply_event_stats(envelope.kind(), envelope.timestamp());
        self.handle_event_kind(envelope.kind(), false);
    }
}

impl AppView {
    /// After an event of the running session.
    pub open spec fn live_event(self, e: EventEnvelopeView) -> AppView {
        self.counted(e.inner().kind, e.inner().timestamp).event(e.inner().kind, false)
    }
}


// ── replaying a journal ──────────────────────────────────────────────────────

/// The events of a journal; nothing stands for one that could not be read.
pub type JournalView = Seq<Option<AgentEventView>>;

/// Being the prompt with the id.
pub open spec fn prompt_event(id: Seq<char>) -> spec_fn(Option<AgentEventView>) -> bool {
    |e: Option<AgentEventView>|
        match e {
            Some(a) => a.kind matches EventKindView::PromptReceived { message_id, .. }
                && message_id == Some(id),
            None => false,
        }
}

impl AppView {
    /// How many events are replayed: those before the prompt at the frontier.
    pub open spec fn replay_cutoff(self, events: JournalView) -> int {
        match self.frontier() {
            Some(id) => match first_index(events, prompt_event(id)) {
                Some(k) => k,
                None => events.len() as int,
            },
            None => events.len() as int,
        }
    }

    /// After the first `n` events of a journal.
    pub open spec fn replayed(self, events: JournalView, n: int) -> AppView
        decreases n,
    {
        if n <= 0 {
            self
        } else {
            let s = self.replayed(events, n - 1);
            match events[n - 1] {
                Some(e) => s.counted(e.kind, e.timestamp).event(e.kind, true),
                None => s,
            }
        }
    }

    /// After the replay of a journal, where there is one.
    pub open spec fn journal_replayed(self, audit: Option<JournalView>) -> AppView {
        match audit {
            Some(events) => self.replayed(events, self.replay_cutoff(events)),
            None => self,
        }
    }
}

fn is_prompt_event(e: &Option<AgentEvent>, id: &str) -> (r: bool)
    ensures
        r == prompt_event(id@)(e.deep_view()),
{
    match e {
        Some(a) => match &a.kind {
            EventKind::PromptReceived { message_id, .. } => opt_is(message_id, id),
            _ => false,
        },
        None => false,
    }
}

impl App {
    fn cutoff_of(&self, events: &Vec<Option<AgentEvent>>) -> (r: usize)
        ensures
            r == self@.replay_cutoff(events.deep_view()),
            r <= events@.len(),
    {
        let ghost ev = events.deep_view();
        match &self.undo_state {
            Some(state) => match &state.frontier_message_id {
                Some(id) => {
                    let ghost p = prompt_event(id@);
                    let mut i: usize = 0;
                    while i < events.len()
                        invariant
                            i <= events@.len(),
                            ev == events.deep_view(),
                            p == prompt_event(id@),
                            self@.frontier() == Some(id@),
                            forall|j: int| 0 <= j < i ==> !p(#[trigger] ev[j]),
                        decreases events@.len() - i,
                    {
                        assert(ev[i as int] == events@[i as int].deep_view());
                        if is_prompt_event(&events[i], id.as_str()) {
                            proof {
                                lemma_first_is(ev, p, i as int);
                            }
                            return i;
                        }
                        i = i + 1;
                    }
                    proof {
                        lemma_first_none(ev, p);
                    }
                    events.len()
                },
                None => events.len(),
            },
            None => events.len(),
        }
    }

    /// Replays a journal up to the frontier.
    pub fn replay_audit(&mut self, audit: &Option<Vec<Option<AgentEvent>>>)
        ensures
            final(self)@ == old(self)@.journal_replayed(audit.deep_view()),
            old(self)@.wf() ==> final(self)@.wf(),
    {
        if let Some(events) = audit {
            let ghost ev = events.deep_view();
            let n = self.cutoff_of(events);
            let mut i: usize = 0;
            while i < n
                invariant
                    i <= n <= events@.len(),
                    ev == events.deep_view(),
                    self@ == old(self)@.replayed(ev, i as int),
                    old(self)@.wf() ==> self@.wf(),
                decreases n - i,
            {
                assert(ev[i as int] == events@[i as int].deep_view());
                if let Some(e) = &events[i] {
                    self.apply_event_stats(&e.kind, e.timestamp);
                    self.handle_event_kind(&e.kind, true);
                }
                i = i + 1;
            }
        }
    }
}

// ── the session list ─────────────────────────────────────────────────────────

/// The order of optional texts: nothing comes before any text.
pub open spec fn opt_ordered(a: Option<Seq<char>>, b: Option<Seq<char>>) -> bool {
    match (a, b) {
        (None, _) => true,
        (Some(_), None) => false,
        (Some(x), Some(y)) => ordered(x, y),
    }
}

fn opt_le(a: &Option<String>, b: &Option<String>) -> (r: bool)
    ensures
        r == opt_ordered(a.deep_view(), b.deep_view()),
{
    match (a, b) {
        (None, _) => true,
        (Some(_), None) => false,
        (Some(x), Some(y)) => text_le(x.as_str(), y.as_str()),
    }
}

/// Sessions in the order of their last update, the latest first.
pub open spec fn newer_session() -> spec_fn(SessionSummaryView, SessionSummaryView) -> bool {
    |a: SessionSummaryView, b: SessionSummaryView| opt_ordered(b.updated_at, a.updated_at)
}

/// The last update of the first session of a group.
pub open spec fn group_update(g: SessionGroupView) -> Option<Seq<char>> {
    if g.sessions.len() > 0 {
        g.sessions[0].updated_at
    } else {
        None
    }
}

/// Groups in the order of their first session, the latest first.
pub open spec fn newer_group() -> spec_fn(SessionGroupView, SessionGroupView) -> bool {
    |a: SessionGroupView, b: SessionGroupView| opt_ordered(group_update(b), group_update(a))
}

/// A group with its sessions in order.
pub open spec fn group_sorted(g: SessionGroupView) -> SessionGroupView {
    SessionGroupView { sessions: stable_sort(g.sessions, newer_session()), ..g }
}

/// Every group with its sessions sorted.
pub open spec fn each_sorted(groups: Seq<SessionGroupView>) -> Seq<SessionGroupView> {
    groups.map_values(|g: SessionGroupView| group_sorted(g))
}

/// Groups and their sessions, the latest first.
pub open spec fn groups_sorted(groups: Seq<SessionGroupView>) -> Seq<SessionGroupView> {
    stable_sort(each_sorted(groups), newer_group())
}

/// Number of sessions in the first `n` groups.
pub open spec fn session_total(groups: Seq<SessionGroupView>, n: int) -> nat
    decreases n,
{
    if n <= 0 {
        0
    } else {
        session_total(groups, n - 1) + groups[n - 1].sessions.len()
    }
}

fn session_before(a: &SessionSummary, b: &SessionSummary) -> (r: bool)
    ensures
        r == newer_session()(a.deep_view(), b.deep_view()),
{
    opt_le(&b.updated_at, &a.updated_at)
}

fn update_of(g: &SessionGroup) -> (r: Option<String>)
    ensures
        r.deep_view() == group_update(g.deep_view()),
{
    if g.sessions.len() > 0 {
        assert(g.deep_view().sessions[0] == g.sessions@[0].deep_view());
        copy_opt(&g.sessions[0].updated_at)
    } else {
        None
    }
}

fn group_before(a: &SessionGroup, b: &SessionGroup) -> (r: bool)
    ensures
        r == newer_group()(a.deep_view(), b.deep_view()),
{
    opt_le(&update_of(b), &update_of(a))
}

/// Puts groups and their sessions in order, the latest first.
pub fn sort_groups(groups: &Vec<SessionGroup>) -> (r: Vec<SessionGroup>)
    ensures
        r.deep_view() == groups_sorted(groups.deep_view()),
{
    let ghost gv = groups.deep_view();
    let ghost goal = each_sorted(gv);
    let mut out: Vec<SessionGroup> = Vec::new();
    let mut i: usize = 0;
    assert(out.deep_view() =~= goal.take(0));
    while i < groups.len()
        invariant
            i <= groups@.len(),
            gv == groups.deep_view(),
            goal == gv.map_values(|g: SessionGroupView| group_sorted(g)),
            out.deep_view() == goal.take(i as int),
        decreases groups@.len() - i,
    {
        let ghost before = out.deep_view();
        let g = groups[i].clone();
        assert(gv[i as int] == g.deep_view());
        let sorted = SessionGroup {
            cwd: g.cwd,
            sessions: sort_stable(g.sessions, session_before, Ghost(newer_session())),
            latest_activity: g.latest_activity,
        };
        assert(goal[i as int] == sorted.deep_view());
        out.push(sorted);
        assert(out.deep_view() =~= before.push(goal[i as int]));
        assert(out.deep_view() =~= goal.take(i + 1));
        i = i + 1;
    }
    assert(out.deep_view() =~= goal);
    sort_stable(out, group_before, Ghost(newer_group()))
}

fn count_sessions(groups: &Vec<SessionGroup>) -> (r: u128)
    ensures
        r == session_total(groups.deep_view(), groups.deep_view().len() as int),
{
    let ghost gv = groups.deep_view();
    let mut total: u128 = 0;
    let mut i: usize = 0;
    while i < groups.len()
        invariant
            i <= groups@.len(),
            gv == groups.deep_view(),
            total == session_total(gv, i as int),
            total <= (i as u128) * (usize::MAX as u128),
        decreases groups@.len() - i,
    {
        assert(gv[i as int] == groups@[i as int].deep_view());
        proof {
            assert((i as u128) * (usize::MAX as u128) + usize::MAX as u128 == (i + 1)
                * (usize::MAX as u128)) by (nonlinear_arith);
            assert((i + 1) * (usize::MAX as u128) <= (usize::MAX as u128) * (usize::MAX as u128))
                by (nonlinear_arith)
                requires
                    i + 1 <= usize::MAX,
            ;
            assert((usize::MAX as u128) * (usize::MAX as u128) <= u128::MAX) by (nonlinear_arith)
                requires
                    usize::MAX <= 0xffff_ffff_ffff_ffff,
            ;
        }
        total = total + groups[i].sessions.len() as u128;
        i = i + 1;
    }
    total
}

proof fn lemma_opt_total(a: Option<Seq<char>>, b: Option<Seq<char>>)
    ensures
        opt_ordered(a, b) || opt_ordered(b, a),
{
    if a is Some && b is Some {
        crate::ranking::lemma_ordered_total(a->0, b->0);
    }
}

proof fn lemma_opt_transitive(a: Option<Seq<char>>, b: Option<Seq<char>>, c: Option<Seq<char>>)
    requires
        opt_ordered(a, b),
        opt_ordered(b, c),
    ensures
        opt_ordered(a, c),
{
    if a is Some && b is Some && c is Some {
        crate::ranking::lemma_ordered_transitive(a->0, b->0, c->0);
    }
}

/// In the list that the server sent, the sessions of every group and the
/// groups themselves stand in the order of their last update.  None is lost or
/// added, and those with the same update stay in the order in which they came.
pub proof fn law_session_list_is_sorted(groups: Seq<SessionGroupView>, g: SessionGroupView)
    ensures
        in_order(groups_sorted(groups), newer_group()),
        groups_sorted(groups).len() == groups.len(),
        groups_sorted(groups).to_multiset() == each_sorted(groups).to_multiset(),
        same_order_of_level(groups_sorted(groups), each_sorted(groups), newer_group()),
        in_order(group_sorted(g).sessions, newer_session()),
        group_sorted(g).sessions.to_multiset() == g.sessions.to_multiset(),
        same_order_of_level(group_sorted(g).sessions, g.sessions, newer_session()),
{
    let le = newer_session();
    assert forall|a: SessionSummaryView, b: SessionSummaryView| #[trigger]
        le(a, b) || #[trigger] le(b, a) by {
        lemma_opt_total(a.updated_at, b.updated_at);
    }
    assert forall|a: SessionSummaryView, b: SessionSummaryView, c: SessionSummaryView| #[trigger]
        le(a, b) && #[trigger] le(b, c) implies le(a, c) by {
        lemma_opt_transitive(c.updated_at, b.updated_at, a.updated_at);
    }
    law_stable_sort(g.sessions, le);
    let ge = newer_group();
    assert forall|a: SessionGroupView, b: SessionGroupView| #[trigger]
        ge(a, b) || #[trigger] ge(b, a) by {
        lemma_opt_total(group_update(a), group_update(b));
    }
    assert forall|a: SessionGroupView, b: SessionGroupView, c: SessionGroupView| #[trigger]
        ge(a, b) && #[trigger] ge(b, c) implies ge(a, c) by {
        lemma_opt_transitive(group_update(c), group_update(b), group_update(a));
    }
    law_stable_sort(each_sorted(groups), ge);
}


// ── messages ─────────────────────────────────────────────────────────────────

/// What a message leads to: the state, and what is sent.
pub type Reply = (AppView, Seq<ClientMsgView>);

/// The files of an index, as they can be mentioned.
pub open spec fn index_entries(files: Seq<FileIndexEntryView>) -> Seq<FileIndexEntryLiteView> {
    files.map_values(
        |f: FileIndexEntryView| FileIndexEntryLiteView { path: f.path, is_dir: f.is_dir },
    )
}

impl AppView {
    /// After the `state` message.
    #[verifier::opaque]
    pub open spec fn state_received(self, d: StateDataView) -> AppView {
        (AppView {
            agent_id: if d.agents.len() > 0 {
                Some(d.agents[0].id)
            } else {
                None
            },
            agent_mode: match d.agent_mode {
                Some(m) => m,
                None => self.agent_mode,
            },
            reasoning_effort: match d.reasoning_effort {
                ReasoningEffortFieldView::Absent => self.reasoning_effort,
                ReasoningEffortFieldView::Auto => None,
                ReasoningEffortFieldView::Level(s) => Some(s),
            },
            conn: ConnState::Connected,
            ..self
        }).with_status(LogLevel::Info, "connection"@, "connected"@)
    }

    /// After the `reasoning_effort` message, which is remembered.
    #[verifier::opaque]
    pub open spec fn effort_received(self, level: Option<Seq<char>>) -> AppView {
        (AppView {
            reasoning_effort: if level == Some("auto"@) {
                None
            } else {
                level
            },
            ..self
        }).mode_cached()
    }

    /// After the `file_index` message.
    #[verifier::opaque]
    pub open spec fn index_received(self, d: FileIndexDataView) -> AppView {
        (AppView {
            file_index: index_entries(d.files),
            file_index_generated_at: Some(d.generated_at),
            file_index_loading: false,
            file_index_error: None,
            ..self
        }).mention_refreshed()
    }

    /// The message that loads the current session again.
    pub open spec fn reload(self) -> Seq<ClientMsgView> {
        match self.session_id {
            Some(sid) => seq![ClientMsgView::LoadSession { session_id: sid }],
            None => Seq::empty(),
        }
    }

    /// After the result of an undo: the stack is the server's, and a success
    /// loads the session again.
    #[verifier::opaque]
    pub open spec fn undo_received(self, d: UndoResultDataView) -> Reply {
        let preferred = match d.message_id {
            Some(id) => Some(id),
            None => if d.undo_stack.len() > 0 {
                Some(d.undo_stack.last().message_id)
            } else {
                None
            },
        };
        let idle = AppView { activity: ActivityStateView::Idle, ..self };
        let s = AppView {
            undo_state: idle.undo_state_of(
                d.undo_stack,
                preferred,
                if d.success {
                    Some(d.reverted_files)
                } else {
                    None
                },
            ),
            ..idle
        };
        if d.success {
            let t = (AppView {
                streaming_content: Seq::empty(),
                streaming_cache: StreamingCacheView::empty(),
                ..s
            }).with_status(LogLevel::Info, "session"@, "undone - reloading session"@);
            (t, t.reload())
        } else {
            (
                s.with_status(
                    LogLevel::Warn,
                    "session"@,
                    match d.message {
                        Some(m) => m,
                        None => "undo failed"@,
                    },
                ),
                Seq::empty(),
            )
        }
    }

    /// After the result of a redo.
    #[verifier::opaque]
    pub open spec fn redo_received(self, d: RedoResultDataView) -> Reply {
        let idle = AppView { activity: ActivityStateView::Idle, ..self };
        let s = AppView { undo_state: idle.undo_state_of(d.undo_stack, None, None), ..idle };
        if d.success {
            let t = s.with_status(LogLevel::Info, "session"@, "redone - reloading session"@);
            (t, t.reload())
        } else {
            (
                s.with_status(
                    LogLevel::Warn,
                    "session"@,
                    match d.message {
                        Some(m) => m,
                        None => "redo failed"@,
                    },
                ),
                Seq::empty(),
            )
        }
    }

    /// After the session list: sorted, with the cursor on a row.
    #[verifier::opaque]
    pub open spec fn list_received(self, groups: Seq<SessionGroupView>) -> AppView {
        let sorted = groups_sorted(groups);
        let s = AppView { session_groups: sorted, ..self };
        let rows = s.start_items().len();
        (AppView {
            session_cursor: if s.session_cursor >= rows && rows > 0 {
                (rows - 1) as usize
            } else {
                s.session_cursor
            },
            ..s
        }).with_status(
            LogLevel::Info,
            "session"@,
            decimal(session_total(sorted, sorted.len() as int)) + " session(s)"@,
        )
    }

    /// A session without anything in it.
    pub open spec fn fresh_session(self, session_id: Seq<char>, agent_id: Seq<char>) -> AppView {
        AppView {
            session_id: Some(session_id),
            agent_id: Some(agent_id),
            messages: Seq::empty(),
            streaming_content: Seq::empty(),
            streaming_cache: StreamingCacheView::empty(),
            scroll_offset: 0,
            undoable_turns: Seq::empty(),
            file_index: Seq::empty(),
            file_index_generated_at: None,
            file_index_loading: false,
            file_index_error: None,
            mention_state: None,
            last_compaction_token_estimate: None,
            elicitation: None,
            pending_cancel_confirm_until: None,
            cumulative_cost: None,
            session_stats: SessionStatsLiteView::none(),
            screen: Screen::Chat,
            ..self
        }
    }

    /// After a session was created: it is shown and subscribed to.
    #[verifier::opaque]
    pub open spec fn session_created(self, d: SessionCreatedDataView) -> Reply {
        (
            (AppView {
                undo_state: None,
                ..self.fresh_session(d.session_id, d.agent_id)
            }).with_status(LogLevel::Info, "session"@, "session created"@),
            seq![
                ClientMsgView::SubscribeSession {
                    session_id: d.session_id,
                    agent_id: Some(d.agent_id),
                },
            ],
        )
    }

    /// After a session was loaded: nothing of an earlier stream is left, its
    /// journal is replayed, and the server is told its mode and what is
    /// remembered for it.
    #[verifier::opaque]
    pub open spec fn session_loaded(self, d: SessionLoadedDataView) -> Reply {
        let fresh = AppView {
            activity: ActivityStateView::Idle,
            ..self.fresh_session(d.session_id, d.agent_id).caches_invalidated()
        };
        let s = (AppView {
            undo_state: fresh.undo_state_of(d.undo_stack, None, None),
            ..fresh
        }).with_status(LogLevel::Debug, "activity"@, "ready"@).journal_replayed(d.audit);
        let (t, msgs) = s.mode_restored();
        (t, seq![ClientMsgView::SetAgentMode { mode: s.agent_mode }] + msgs)
    }

    /// After a session could not be read.
    #[verifier::opaque]
    pub open spec fn load_failed(self, reason: Seq<char>) -> AppView {
        (AppView { activity: ActivityStateView::Idle, ..self }).with_status(
            LogLevel::Error,
            "session"@,
            "load error: "@ + reason,
        )
    }

    /// With a session noted as active.
    pub open spec fn activity_noted(self, sid: Seq<char>) -> AppView {
        AppView {
            session_activity: self.session_activity.insert(
                sid,
                crate::app::SessionActivityView { last_event_at: self.now_ns },
            ),
            ..self
        }
    }

    /// After the first `n` of events.
    pub open spec fn live_events(self, events: Seq<EventEnvelopeView>, n: int) -> AppView
        decreases n,
    {
        if n <= 0 {
            self
        } else {
            self.live_events(events, n - 1).live_event(events[n - 1])
        }
    }

    /// After events of a session: all note its activity, those of the current
    /// session take effect.
    #[verifier::opaque]
    pub open spec fn events_received(
        self,
        sid: Seq<char>,
        events: Seq<EventEnvelopeView>,
    ) -> AppView {
        let s = self.activity_noted(sid);
        if s.session_id == Some(sid) {
            s.live_events(events, events.len() as int)
        } else {
            s
        }
    }

    /// After an error of the server.
    #[verifier::opaque]
    pub open spec fn server_error(self, message: Seq<char>) -> AppView {
        self.with_message(ChatEntryView::Error(message)).with_status(
            LogLevel::Error,
            "server"@,
            "error: "@ + message,
        )
    }

    /// After a message of the server, and what is sent in reply.  Data that
    /// could not be read, or is not there, changes nothing but what the type
    /// alone tells.
    pub open spec fn message(self, m: RawServerMsgView) -> Reply {
        match (kind_of_type(m.msg_type), m.data) {
            (Some(DataKind::State), Some(ServerDataView::State(d))) => (
                self.state_received(d),
                Seq::empty(),
            ),
            (Some(DataKind::ReasoningEffort), Some(ServerDataView::ReasoningEffort(d))) => (
                self.effort_received(d.reasoning_effort),
                Seq::empty(),
            ),
            (Some(DataKind::AgentMode), Some(ServerDataView::AgentMode(d))) => (
                AppView { agent_mode: d.mode, ..self },
                Seq::empty(),
            ),
            (Some(DataKind::FileIndex), Some(ServerDataView::FileIndex(d))) => (
                self.index_received(d),
                Seq::empty(),
            ),
            (Some(DataKind::UndoResult), Some(ServerDataView::UndoResult(d))) => {
                self.undo_received(d)
            },
            (Some(DataKind::UndoResult), _) => (
                AppView { activity: ActivityStateView::Idle, ..self },
                Seq::empty(),
            ),
            (Some(DataKind::RedoResult), Some(ServerDataView::RedoResult(d))) => {
                self.redo_received(d)
            },
            (Some(DataKind::RedoResult), _) => (
                AppView { activity: ActivityStateView::Idle, ..self },
                Seq::empty(),
            ),
            (Some(DataKind::SessionList), Some(ServerDataView::SessionList(d))) => (
                self.list_received(d.groups),
                Seq::empty(),
            ),
            (Some(DataKind::SessionCreated), Some(ServerDataView::SessionCreated(d))) => {
                self.session_created(d)
            },
            (Some(DataKind::SessionLoaded), Some(ServerDataView::SessionLoaded(d))) => {
                self.session_loaded(d)
            },
            (Some(DataKind::SessionLoaded), Some(ServerDataView::Invalid(reason))) => (
                self.load_failed(reason),
                Seq::empty(),
            ),
            (Some(DataKind::SessionEvents), Some(ServerDataView::SessionEvents(d))) => (
                self.events_received(d.session_id, d.events),
                Seq::empty(),
            ),
            (Some(DataKind::Event), Some(ServerDataView::Event(d))) => (
                self.events_received(d.session_id, seq![d.event]),
                Seq::empty(),
            ),
            (Some(DataKind::AllModels), Some(ServerDataView::AllModels(d))) => (
                AppView { models: d.models, ..self },
                Seq::empty(),
            ),
            (Some(DataKind::Error), Some(ServerDataView::Error(d))) => (
                self.server_error(d.message),
                Seq::empty(),
            ),
            _ => (self, Seq::empty()),
        }
    }
}

impl App {
    fn on_state(&mut self, d: StateData)
        ensures
            final(self)@ == old(self)@.state_received(d.deep_view()),
            old(self)@.wf() ==> final(self)@.wf(),
    {
        let agent_id = if d.agents.len() > 0 {
            assert(d.deep_view().agents[0] == d.agents@[0].deep_view());
            Some(d.agents[0].id.clone())
        } else {
            None
        };
        let mode = match &d.agent_mode {
            Some(m) => m.clone(),
            None => self.agent_mode.clone(),
        };
        let effort = match &d.reasoning_effort {
            ReasoningEffortField::Absent => copy_opt(&self.reasoning_effort),
            ReasoningEffortField::Auto => None,
            ReasoningEffortField::Level(s) => Some(s.clone()),
        };
        proof {
            let dv = d.deep_view();
            assert(agent_id.deep_view() == (if dv.agents.len() > 0 {
                Some(dv.agents[0].id)
            } else {
                None
            }));
        }
        reveal(AppView::state_received);
        self.agent_id = agent_id;
        self.agent_mode = mode;
        self.reasoning_effort = effort;
        self.conn = ConnState::Connected;
        self.set_status(LogLevel::Info, "connection", "connected");
    }

    fn on_effort(&mut self, level: Option<String>)
        ensures
            final(self)@ == old(self)@.effort_received(level.deep_view()),
            old(self)@.wf() ==> final(self)@.wf(),
    {
        reveal(AppView::effort_received);
        self.reasoning_effort = if opt_is(&level, "auto") {
            None
        } else {
            level
        };
        self.cache_session_mode_state();
    }

    fn on_index(&mut self, d: FileIndexData)
        ensures
            final(self)@ == old(self)@.index_received(d.deep_view()),
            old(self)@.wf() ==> final(self)@.wf(),
    {
        reveal(AppView::index_received);
        let ghost fv = d.deep_view().files;
        let mut files: Vec<FileIndexEntryLite> = Vec::new();
        let mut i: usize = 0;
        assert(files.deep_view() =~= index_entries(fv).take(0));
        while i < d.files.len()
            invariant
                i <= d.files@.len(),
                fv == d.files.deep_view(),
                files.deep_view() == index_entries(fv).take(i as int),
            decreases d.files@.len() - i,
        {
            let ghost before = files.deep_view();
            let e = FileIndexEntryLite {
                path: d.files[i].path.clone(),
                is_dir: d.files[i].is_dir,
            };
            assert(index_entries(fv)[i as int] == e.deep_view());
            files.push(e);
            assert(files.deep_view() =~= before.push(index_entries(fv)[i as int]));
            assert(files.deep_view() =~= index_entries(fv).take(i + 1));
            i = i + 1;
        }
        assert(files.deep_view() =~= index_entries(fv));
        self.file_index = files;
        self.file_index_generated_at = Some(d.generated_at);
        self.file_index_loading = false;
        self.file_index_error = None;
        self.refresh_mention_state();
    }

    fn reload_messages(&self) -> (r: Vec<ClientMsg>)
        ensures
            r.deep_view() == self@.reload(),
    {
        let mut out: Vec<ClientMsg> = Vec::new();
        if let Some(sid) = &self.session_id {
            out.push(ClientMsg::LoadSession { session_id: sid.clone() });
        }
        assert(out.deep_view() =~= self@.reload());
        out
    }

    fn on_undo_result(&mut self, d: UndoResultData) -> (r: Vec<ClientMsg>)
        ensures
            (final(self)@, r.deep_view()) == old(self)@.undo_received(d.deep_view()),
            old(self)@.wf() ==> final(self)@.wf(),
    {
        reveal(AppView::undo_received);
        self.activity = ActivityState::Idle;
        let n: usize = d.undo_stack.len();
        let preferred = match &d.message_id {
            Some(id) => Some(id.clone()),
            None => if n > 0 {
                assert(d.deep_view().undo_stack.last() == d.undo_stack@[n - 1].deep_view());
                Some(d.undo_stack[n - 1].message_id.clone())
            } else {
                None
            },
        };
        let files: Option<Vec<String>> = if d.success {
            Some(copy_texts(&d.reverted_files))
        } else {
            None
        };
        self.undo_state = self.build_undo_state_from_server_stack(
            &d.undo_stack,
            &preferred,
            &files,
        );
        if d.success {
            self.streaming_content = String::new();
            self.streaming_cache.invalidate();
            self.set_status(LogLevel::Info, "session", "undone - reloading session");
            self.reload_messages()
        } else {
            match &d.message {
                Some(m) => {
                    self.set_status(LogLevel::Warn, "session", m.as_str());
                },
                None => {
                    self.set_status(LogLevel::Warn, "session", "undo failed");
                },
            }
            no_messages()
        }
    }

    fn on_redo_result(&mut self, d: RedoResultData) -> (r: Vec<ClientMsg>)
        ensures
            (final(self)@, r.deep_view()) == old(self)@.redo_received(d.deep_view()),
            old(self)@.wf() ==> final(self)@.wf(),
    {
        reveal(AppView::redo_received);
        self.activity = ActivityState::Idle;
        self.undo_state = self.build_undo_state_from_server_stack(&d.undo_stack, &None, &None);
        if d.success {
            self.set_status(LogLevel::Info, "session", "redone - reloading session");
            self.reload_messages()
        } else {
            match &d.message {
                Some(m) => {
                    self.set_status(LogLevel::Warn, "session", m.as_str());
                },
                None => {
                    self.set_status(LogLevel::Warn, "session", "redo failed");
                },
            }
            no_messages()
        }
    }

    fn on_session_list(&mut self, groups: Vec<SessionGroup>)
        ensures
            final(self)@ == old(self)@.list_received(groups.deep_view()),
            old(self)@.wf() ==> final(self)@.wf(),
    {
        reveal(AppView::list_received);
        let sorted = sort_groups(&groups);
        let total = count_sessions(&sorted);
        self.session_groups = sorted;
        let rows: usize = self.visible_start_items().len();
        assert(rows == self@.start_items().len());
        if self.session_cursor >= rows && rows > 0 {
            self.session_cursor = rows - 1;
        }
        self.set_status(
            LogLevel::Info,
            "session",
            cat2(number(total).as_str(), " session(s)").as_str(),
        );
    }

    fn enter_session(&mut self, session_id: String, agent_id: String)
        ensures
            final(self)@ == old(self)@.fresh_session(session_id@, agent_id@),
            old(self)@.wf() ==> final(self)@.wf(),
    {
        self.session_id = Some(session_id);
        self.agent_id = Some(agent_id);
        self.messages = Vec::new();
        self.streaming_content = String::new();
        self.streaming_cache.invalidate();
        self.scroll_offset = 0;
        self.undoable_turns = Vec::new();
        self.file_index = Vec::new();
        self.file_index_generated_at = None;
        self.file_index_loading = false;
        self.file_index_error = None;
        self.mention_state = None;
        self.last_compaction_token_estimate = None;
        self.elicitation = None;
        self.clear_cancel_confirm();
        self.cumulative_cost = None;
        self.session_stats = SessionStatsLite::default();
        self.screen = Screen::Chat;
        assert(self@ =~= old(self)@.fresh_session(session_id@, agent_id@));
    }

    fn on_session_created(&mut self, d: SessionCreatedData) -> (r: Vec<ClientMsg>)
        ensures
            (final(self)@, r.deep_view()) == old(self)@.session_created(d.deep_view()),
            old(self)@.wf() ==> final(self)@.wf(),
    {
        reveal(AppView::session_created);
        let msg = ClientMsg::SubscribeSession {
            session_id: d.session_id.clone(),
            agent_id: Some(d.agent_id.clone()),
        };
        let ghost mv = msg.deep_view();
        self.enter_session(d.session_id, d.agent_id);
        self.undo_state = None;
        self.set_status(LogLevel::Info, "session", "session created");
        let mut out: Vec<ClientMsg> = Vec::new();
        out.push(msg);
        assert(out.deep_view() =~= seq![mv]);
        out
    }

    fn on_session_loaded(&mut self, d: SessionLoadedData) -> (r: Vec<ClientMsg>)
        ensures
            (final(self)@, r.deep_view()) == old(self)@.session_loaded(d.deep_view()),
            old(self)@.wf() ==> final(self)@.wf(),
    {
        reveal(AppView::session_loaded);
        self.enter_session(d.session_id, d.agent_id);
        self.invalidate_streaming_caches();
        self.activity = ActivityState::Idle;
        self.undo_state = self.build_undo_state_from_server_stack(&d.undo_stack, &None, &None);
        self.set_status(LogLevel::Debug, "activity", "ready");
        self.replay_audit(&d.audit);
        let ghost s = self@;
        let mut out: Vec<ClientMsg> = Vec::new();
        let first_msg = ClientMsg::SetAgentMode { mode: self.agent_mode.clone() };
        out.push(first_msg);
        let ghost head = out.deep_view();
        assert(head =~= seq![first_msg.deep_view()]);
        let mut rest = self.apply_cached_mode_state();
        let ghost tail = rest.deep_view();
        out.append(&mut rest);
        assert(out.deep_view() =~= head + tail);
        out
    }

    fn on_load_failed(&mut self, reason: &String)
        ensures
            final(self)@ == old(self)@.load_failed(reason@),
            old(self)@.wf() ==> final(self)@.wf(),
    {
        reveal(AppView::load_failed);
        self.activity = ActivityState::Idle;
        self.set_status(
            LogLevel::Error,
            "session",
            cat2("load error: ", reason.as_str()).as_str(),
        );
    }

    fn on_events(&mut self, session_id: &String, events: &Vec<EventEnvelope>)
        ensures
            final(self)@ == old(self)@.events_received(session_id@, events.deep_view()),
            old(self)@.wf() ==> final(self)@.wf(),
    {
        reveal(AppView::events_received);
        self.note_session_activity(session_id.as_str());
        let ghost s = self@;
        let ghost ev = events.deep_view();
        if opt_is(&self.session_id, session_id.as_str()) {
            let mut i: usize = 0;
            while i < events.len()
                invariant
                    i <= events@.len(),
                    ev == events.deep_view(),
                    self@ == s.live_events(ev, i as int),
                    old(self)@.wf() ==> self@.wf(),
                decreases events@.len() - i,
            {
                assert(ev[i as int] == events@[i as int].deep_view());
                self.handle_event(&events[i]);
                i = i + 1;
            }
        }
    }

    fn on_server_error(&mut self, message: &String)
        ensures
            final(self)@ == old(self)@.server_error(message@),
            old(self)@.wf() ==> final(self)@.wf(),
    {
        reveal(AppView::server_error);
        self.push_message(ChatEntry::Error(message.clone()));
        self.set_status(LogLevel::Error, "server", cat2("error: ", message.as_str()).as_str());
    }

    /// Takes a message of the server in, and gives what is sent in reply.
    pub fn handle_server_msg(&mut self, raw: RawServerMsg) -> (r: Vec<ClientMsg>)
        ensures
            (final(self)@, r.deep_view()) == old(self)@.message(raw.deep_view()),
            old(self)@.wf() ==> final(self)@.wf(),
    {
        match (data_kind(raw.msg_type.as_str()), raw.data) {
            (Some(DataKind::State), Some(ServerData::State(d))) => {
                self.on_state(d);
                no_messages()
            },
            (Some(DataKind::ReasoningEffort), Some(ServerData::ReasoningEffort(d))) => {
                self.on_effort(d.reasoning_effort);
                no_messages()
            },
            (Some(DataKind::AgentMode), Some(ServerData::AgentMode(d))) => {
                self.agent_mode = d.mode;
                no_messages()
            },
            (Some(DataKind::FileIndex), Some(ServerData::FileIndex(d))) => {
                self.on_index(d);
                no_messages()
            },
            (Some(DataKind::UndoResult), Some(ServerData::UndoResult(d))) => {
                self.on_undo_result(d)
            },
            (Some(DataKind::UndoResult), _) => {
                self.activity = ActivityState::Idle;
                no_messages()
            },
            (Some(DataKind::RedoResult), Some(ServerData::RedoResult(d))) => {
                self.on_redo_result(d)
            },
            (Some(DataKind::RedoResult), _) => {
                self.activity = ActivityState::Idle;
                no_messages()
            },
            (Some(DataKind::SessionList), Some(ServerData::SessionList(d))) => {
                self.on_session_list(d.groups);
                no_messages()
            },
            (Some(DataKind::SessionCreated), Some(ServerData::SessionCreated(d))) => {
                self.on_session_created(d)
            },
            (Some(DataKind::SessionLoaded), Some(ServerData::SessionLoaded(d))) => {
                self.on_session_loaded(d)
            },
            (Some(DataKind::SessionLoaded), Some(ServerData::Invalid(reason))) => {
                self.on_load_failed(&reason);
                no_messages()
            },
            (Some(DataKind::SessionEvents), Some(ServerData::SessionEvents(d))) => {
                self.on_events(&d.session_id, &d.events);
                no_messages()
            },
            (Some(DataKind::Event), Some(ServerData::Event(d))) => {
                let mut events: Vec<EventEnvelope> = Vec::new();
                let ghost e = d.event.deep_view();
                events.push(d.event);
                assert(events.deep_view() =~= seq![e]);
                self.on_events(&d.session_id, &events);
                no_messages()
            },
            (Some(DataKind::AllModels), Some(ServerData::AllModels(d))) => {
                self.models = d.models;
                no_messages()
            },
            (Some(DataKind::Error), Some(ServerData::Error(d))) => {
                self.on_server_error(&d.message);
                no_messages()
            },
            _ => no_messages(),
        }
    }
}

fn no_messages() -> (r: Vec<ClientMsg>)
    ensures
        r.deep_view() == Seq::<ClientMsgView>::empty(),
{
    let r: Vec<ClientMsg> = Vec::new();
    assert(r.deep_view() =~= Seq::<ClientMsgView>::empty());
    r
}

} // verus!
