//! Logs, the status line, what the agent is doing, and the connection.
use crate::app::{
    ActivityState, ActivityStateView, App, AppLogEntry, AppLogEntryView, AppView, ConnState,
    ConnectionEvent, ConnectionEventView, LogLevel, SessionOp, SessionStatsLiteView,
    StreamingCacheView, CANCEL_CONFIRM_TIMEOUT,
};
use crate::protocol::{EventKind, EventKindView};
use crate::seqs::{lemma_filter_step, lemma_take_all, monus};
use crate::text::{cat2, cat3, contains, decimal, has, lowercase, number, owned, same, to_lower};
use vstd::prelude::*;

verus! {

// ── the log ──────────────────────────────────────────────────────────────────

/// The entries that the log popup shows for a filter and a least level.
pub open spec fn log_shown(level: LogLevel, query: Seq<char>) -> spec_fn(AppLogEntryView) -> bool {
    |e: AppLogEntryView|
        {
            &&& e.level.rank() >= level.rank()
            &&& {
                ||| query.len() == 0
                ||| contains(lowercase(e.message), query)
                ||| contains(lowercase(e.target), query)
                ||| contains(lowercase(e.level.name()), query)
            }
        }
}

impl AppView {
    /// With one more log entry, unless it repeats the last one.
    pub open spec fn logged(
        self,
        level: LogLevel,
        target: Seq<char>,
        message: Seq<char>,
    ) -> AppView {
        if self.logs.len() > 0 && self.logs.last().level == level && self.logs.last().target
            == target && self.logs.last().message == message {
            self
        } else {
            AppView {
                logs: self.logs.push(
                    AppLogEntryView { elapsed: self.now_ns, level, target, message },
                ),
                ..self
            }
        }
    }

    /// With a status line, which is also logged.
    pub open spec fn with_status(
        self,
        level: LogLevel,
        target: Seq<char>,
        message: Seq<char>,
    ) -> AppView {
        (AppView { status: message, ..self }).logged(level, target, message)
    }

    /// The log entries that the filters leave.
    pub open spec fn shown_logs(self) -> Seq<AppLogEntryView> {
        self.logs.filter(log_shown(self.log_level_filter, lowercase(self.log_filter)))
    }
}

impl App {
    /// Logs a message, unless it repeats the last one.
    pub fn push_log(&mut self, level: LogLevel, target: &'static str, message: &str)
        ensures
            final(self)@ == old(self)@.logged(level, target@, message@),
    {
        let n: usize = self.logs.len();
        if n > 0 && self.logs[n - 1].level == level && same(self.logs[n - 1].target, target)
            && same(self.logs[n - 1].message.as_str(), message) {
            return ;
        }
        let ghost before = self@.logs;
        self.logs.push(
            AppLogEntry { elapsed: self.now_ns, level, target, message: owned(message) },
        );
        assert(self@.logs =~= before.push(
            AppLogEntryView { elapsed: old(self)@.now_ns, level, target: target@, message: message@ },
        ));
    }

    /// Sets the status line and logs it.
    pub fn set_status(&mut self, level: LogLevel, target: &'static str, message: &str)
        ensures
            final(self)@ == old(self)@.with_status(level, target@, message@),
    {
        self.status = owned(message);
        self.push_log(level, target, message);
    }

    /// The log entries that the filters leave.
    pub fn filtered_logs(&self) -> (r: Vec<&AppLogEntry>)
        ensures
            r.deep_view() == self@.shown_logs(),
    {
        let query = to_lower(self.log_filter.as_str());
        let ghost p = log_shown(self.log_level_filter, query@);
        let ghost lv = self@.logs;
        let mut out: Vec<&AppLogEntry> = Vec::new();
        let mut i: usize = 0;
        assert(out.deep_view() =~= lv.take(0).filter(p)) by {
            reveal(Seq::filter);
        }
        while i < self.logs.len()
            invariant
                i <= self.logs@.len(),
                lv == self@.logs,
                query@ == lowercase(self.log_filter@),
                p == log_shown(self.log_level_filter, query@),
                out.deep_view() == lv.take(i as int).filter(p),
            decreases self.logs@.len() - i,
        {
            let e = &self.logs[i];
            let ghost before = out.deep_view();
            proof {
                lemma_filter_step(lv, p, i as int);
                assert(lv[i as int] == e.deep_view());
            }
            if e.level.rank() >= self.log_level_filter.rank() && (query.as_str().is_empty() || has(
                to_lower(e.message.as_str()).as_str(),
                query.as_str(),
            ) || has(to_lower(e.target).as_str(), query.as_str()) || has(
                to_lower(e.level.label()).as_str(),
                query.as_str(),
            )) {
                out.push(e);
                assert(out.deep_view() =~= before.push(lv[i as int]));
            }
            i = i + 1;
        }
        proof {
            lemma_take_all(lv);
        }
        out
    }

    /// Moves on to the next least level of the log popup.
    pub fn cycle_log_level_filter(&mut self)
        ensures
            final(self)@ == (AppView {
                log_level_filter: old(self)@.log_level_filter.next(),
                ..old(self)@
            }),
    {
        self.log_level_filter = self.log_level_filter.next();
    }
}

/// The same message twice in a row is logged once.
pub proof fn law_repeated_log_entry(
    app: AppView,
    level: LogLevel,
    target: Seq<char>,
    message: Seq<char>,
)
    ensures
        app.logged(level, target, message).logged(level, target, message) == app.logged(
            level,
            target,
            message,
        ),
        app.logged(level, target, message).logs.len() <= app.logs.len() + 1,
        app.with_status(level, target, message).status == message,
{
}

// ── what the agent is doing ──────────────────────────────────────────────────

impl AppView {
    /// The agent works on a turn.
    pub open spec fn turn_active(self) -> bool {
        self.activity is Thinking || self.activity is Streaming || self.activity is RunningTool
            || self.activity is Compacting
    }

    /// An undo or a redo is under way.
    pub open spec fn session_op_pending(self) -> bool {
        self.activity is SessionOp
    }

    /// Nothing can be typed.
    pub open spec fn input_blocked(self) -> bool {
        self.elicitation is Some || self.session_op_pending()
            || self.pending_cancel_confirm_until is Some
    }

    /// A second Esc would still be taken as a confirmation.
    pub open spec fn confirming(self) -> bool {
        match self.pending_cancel_confirm_until {
            Some(deadline) => self.now_ns <= deadline,
            None => false,
        }
    }

    /// What the status line says of the activity.
    pub open spec fn activity_text(self) -> Option<Seq<char>> {
        match self.activity {
            ActivityStateView::Idle => None,
            ActivityStateView::Thinking => Some("thinking..."@),
            ActivityStateView::Streaming => Some("streaming..."@),
            ActivityStateView::RunningTool { name } => Some("tool: "@ + name),
            ActivityStateView::Compacting { token_estimate } => Some(
                "compacting context (~"@ + decimal(token_estimate as nat) + " tokens)"@,
            ),
            ActivityStateView::SessionOp(SessionOp::Undo) => Some("undoing..."@),
            ActivityStateView::SessionOp(SessionOp::Redo) => Some("redoing..."@),
        }
    }

    /// With the status line that fits the state, unless a cancellation waits
    /// for its confirmation.
    pub open spec fn status_refreshed(self) -> AppView {
        if self.pending_cancel_confirm_until is Some {
            self
        } else if self.elicitation is Some {
            self.with_status(
                LogLevel::Debug,
                "elicitation"@,
                "question - answer in the panel above input"@,
            )
        } else if self.activity_text() is Some {
            self.with_status(LogLevel::Debug, "activity"@, self.activity_text()->0)
        } else if self.conn == ConnState::Connected {
            self.with_status(LogLevel::Debug, "activity"@, "ready"@)
        } else {
            self
        }
    }

    /// No cancellation waits for its confirmation.
    pub open spec fn without_confirm(self) -> AppView {
        AppView { pending_cancel_confirm_until: None, ..self }
    }

    /// A cancellation waits for its confirmation.
    pub open spec fn armed(self) -> AppView {
        (AppView {
            pending_cancel_confirm_until: Some(
                if self.now_ns + CANCEL_CONFIRM_TIMEOUT <= u64::MAX {
                    (self.now_ns + CANCEL_CONFIRM_TIMEOUT) as u64
                } else {
                    u64::MAX
                },
            ),
            ..self
        }).with_status(LogLevel::Warn, "input"@, "press Esc again to stop"@)
    }

    /// Nothing of a streamed turn is kept.
    pub open spec fn caches_invalidated(self) -> AppView {
        AppView {
            streaming_cache: StreamingCacheView::empty(),
            streaming_thinking: Seq::empty(),
            streaming_thinking_cache: StreamingCacheView::empty(),
            ..self
        }
    }
}

impl App {
    /// Drops the rendered lines of the stream, and the thinking text.
    pub fn invalidate_streaming_caches(&mut self)
        ensures
            final(self)@ == old(self)@.caches_invalidated(),
    {
        self.streaming_cache.invalidate();
        self.streaming_thinking = String::new();
        self.streaming_thinking_cache.invalidate();
    }

    /// A second Esc would still be taken as a confirmation.
    pub fn cancel_confirm_active(&self) -> (r: bool)
        ensures
            r == self@.confirming(),
    {
        match self.pending_cancel_confirm_until {
            Some(deadline) => self.now_ns <= deadline,
            None => false,
        }
    }

    /// Asks for a confirmation of the cancellation.
    pub fn arm_cancel_confirm(&mut self)
        ensures
            final(self)@ == old(self)@.armed(),
    {
        self.pending_cancel_confirm_until = Some(
            self.now_ns.saturating_add(CANCEL_CONFIRM_TIMEOUT),
        );
        self.set_status(LogLevel::Warn, "input", "press Esc again to stop");
    }

    /// No cancellation waits for its confirmation any more.
    pub fn clear_cancel_confirm(&mut self)
        ensures
            final(self)@ == old(self)@.without_confirm(),
    {
        self.pending_cancel_confirm_until = None;
    }

    /// The agent works on a turn.
    pub fn is_turn_active(&self) -> (r: bool)
        ensures
            r == self@.turn_active(),
    {
        match &self.activity {
            ActivityState::Thinking => true,
            ActivityState::Streaming => true,
            ActivityState::RunningTool { .. } => true,
            ActivityState::Compacting { .. } => true,
            ActivityState::Idle => false,
            ActivityState::SessionOp(_) => false,
        }
    }

    /// There is something to cancel.
    pub fn has_cancellable_activity(&self) -> (r: bool)
        ensures
            r == self@.turn_active(),
    {
        self.is_turn_active()
    }

    /// An undo or a redo is under way.
    pub fn has_pending_session_op(&self) -> (r: bool)
        ensures
            r == self@.session_op_pending(),
    {
        match &self.activity {
            ActivityState::SessionOp(_) => true,
            _ => false,
        }
    }

    /// Nothing can be typed.
    pub fn input_blocked_by_activity(&self) -> (r: bool)
        ensures
            r == self@.input_blocked(),
    {
        self.elicitation.is_some() || self.has_pending_session_op()
            || self.pending_cancel_confirm_until.is_some()
    }

    /// The input field shows something else than the input.
    pub fn should_hide_input_contents(&self) -> (r: bool)
        ensures
            r == self@.input_blocked(),
    {
        self.input_blocked_by_activity()
    }

    /// What the status line says of the activity.
    pub fn activity_status_text(&self) -> (r: Option<String>)
        ensures
            r.deep_view() == self@.activity_text(),
    {
        match &self.activity {
            ActivityState::Idle => None,
            ActivityState::Thinking => Some(owned("thinking...")),
            ActivityState::Streaming => Some(owned("streaming...")),
            ActivityState::RunningTool { name } => Some(cat2("tool: ", name.as_str())),
            ActivityState::Compacting { token_estimate } => Some(
                cat3(
                    "compacting context (~",
                    number(*token_estimate as u128).as_str(),
                    " tokens)",
                ),
            ),
            ActivityState::SessionOp(op) => match op {
                SessionOp::Undo => Some(owned("undoing...")),
                SessionOp::Redo => Some(owned("redoing...")),
            },
        }
    }

    /// Sets the status line that fits the state.
    pub fn refresh_transient_status(&mut self)
        ensures
            final(self)@ == old(self)@.status_refreshed(),
    {
        if self.pending_cancel_confirm_until.is_some() {
            return ;
        }
        if self.elicitation.is_some() {
            self.set_status(
                LogLevel::Debug,
                "elicitation",
                "question - answer in the panel above input",
            );
            return ;
        }
        match self.activity_status_text() {
            Some(text) => {
                self.set_status(LogLevel::Debug, "activity", text.as_str());
            },
            None => {
                if self.conn == ConnState::Connected {
                    self.set_status(LogLevel::Debug, "activity", "ready");
                }
            },
        }
    }

    /// Gives up a confirmation that came too late.
    pub fn clear_expired_cancel_confirm(&mut self)
        ensures
            final(self)@ == (if old(self)@.pending_cancel_confirm_until is Some && !old(
                self,
            )@.confirming() {
                old(self)@.without_confirm().status_refreshed()
            } else {
                old(self)@
            }),
    {
        if self.pending_cancel_confirm_until.is_some() && !self.cancel_confirm_active() {
            self.clear_cancel_confirm();
            self.refresh_transient_status();
        }
    }

    /// The label of an undo or a redo that is under way.
    pub fn pending_session_label(&self) -> (r: Option<&'static str>)
        ensures
            r.deep_view() == (match self@.activity {
                ActivityStateView::SessionOp(SessionOp::Undo) => Some("undoing"@),
                ActivityStateView::SessionOp(SessionOp::Redo) => Some("redoing"@),
                _ => None,
            }),
    {
        match &self.activity {
            ActivityState::SessionOp(op) => match op {
                SessionOp::Undo => Some("undoing"),
                SessionOp::Redo => Some("redoing"),
            },
            _ => None,
        }
    }

    /// Keeps what is on the screen in place when the conversation grows while
    /// the user has scrolled up; at the bottom the view follows.
    pub fn compensate_scroll_for_growth(&mut self, total_height: u16)
        ensures
            final(self)@ == old(self)@.scroll_compensated(total_height),
    {
        let growth: u16 = total_height.saturating_sub(self.prev_total_height);
        if self.scroll_offset > 0 && growth > 0 {
            self.scroll_offset = self.scroll_offset.saturating_add(growth);
        }
        self.prev_total_height = total_height;
    }
}

impl AppView {
    /// With a scroll offset that grew with the conversation, unless the view
    /// follows the bottom.
    pub open spec fn scroll_compensated(self, total_height: u16) -> AppView {
        let growth = monus(total_height as int, self.prev_total_height as int);
        AppView {
            scroll_offset: if self.scroll_offset > 0 && growth > 0 {
                if self.scroll_offset + growth <= u16::MAX {
                    (self.scroll_offset + growth) as u16
                } else {
                    u16::MAX
                }
            } else {
                self.scroll_offset
            },
            prev_total_height: total_height,
            ..self
        }
    }
}

/// The row at the top of the screen stays the same when the conversation
/// grows while the user has scrolled up, as far as offsets reach; a view that
/// follows the bottom goes on following it.
pub proof fn law_scroll_keeps_its_place(app: AppView, total_height: u16)
    requires
        total_height >= app.prev_total_height,
        app.scroll_offset + (total_height - app.prev_total_height) <= u16::MAX,
    ensures
        app.scroll_offset > 0 ==> total_height - app.scroll_compensated(total_height).scroll_offset
            == app.prev_total_height - app.scroll_offset,
        app.scroll_offset == 0 ==> app.scroll_compensated(total_height).scroll_offset == 0,
{
}

// ── figures of the session ───────────────────────────────────────────────────

/// `a + b` in 128 bits, and not beyond.
pub open spec fn sum128(a: u128, b: int) -> u128 {
    if a + b <= u128::MAX {
        (a + b) as u128
    } else {
        u128::MAX
    }
}

impl AppView {
    /// A request to the model is under way since `timestamp`, unless one is
    /// already.
    pub open spec fn span_begun(self, timestamp: Option<i64>) -> AppView {
        if self.session_stats.open_llm_request_ts is None {
            AppView {
                session_stats: SessionStatsLiteView {
                    open_llm_request_ts: timestamp,
                    open_llm_request_instant: Some(self.now_ns),
                    ..self.session_stats
                },
                ..self
            }
        } else {
            self
        }
    }

    /// How long the open request took, in nanoseconds: by the timestamps of
    /// the server where both are there and in order, else by the clock.
    pub open spec fn span_length(self, timestamp: Option<i64>) -> int {
        let st = self.session_stats;
        let by_clock = match st.open_llm_request_instant {
            Some(started) => monus(self.now_ns as int, started as int),
            None => 0,
        };
        match (st.open_llm_request_ts, timestamp) {
            (Some(started), Some(ended)) => if ended >= started {
                (ended - started) * 1_000_000_000
            } else {
                by_clock
            },
            _ => by_clock,
        }
    }

    /// No request to the model is under way; the time of the last one counts.
    pub open spec fn span_ended(self, timestamp: Option<i64>) -> AppView {
        AppView {
            session_stats: SessionStatsLiteView {
                active_llm_duration: sum128(
                    self.session_stats.active_llm_duration,
                    self.span_length(timestamp),
                ),
                open_llm_request_ts: None,
                open_llm_request_instant: None,
                ..self.session_stats
            },
            ..self
        }
    }

    /// With the figures that an event changes.
    pub open spec fn counted(self, kind: EventKindView, timestamp: Option<i64>) -> AppView {
        match kind {
            EventKindView::ToolCallStart { .. } => AppView {
                session_stats: SessionStatsLiteView {
                    total_tool_calls: if self.session_stats.total_tool_calls < u32::MAX {
                        (self.session_stats.total_tool_calls + 1) as u32
                    } else {
                        u32::MAX
                    },
                    ..self.session_stats
                },
                ..self
            },
            EventKindView::LlmRequestStart { .. } => self.span_begun(timestamp),
            EventKindView::LlmRequestEnd { context_tokens, .. } => {
                let ended = self.span_ended(timestamp);
                AppView {
                    session_stats: SessionStatsLiteView {
                        latest_context_tokens: match context_tokens {
                            Some(n) => Some(n),
                            None => ended.session_stats.latest_context_tokens,
                        },
                        ..ended.session_stats
                    },
                    ..ended
                }
            },
            EventKindView::Cancelled => self.span_ended(timestamp),
            EventKindView::Error { .. } => self.span_ended(timestamp),
            _ => self,
        }
    }

    /// How long the model has been at work, in nanoseconds.
    pub open spec fn llm_elapsed(self) -> Option<u128> {
        let open = match self.session_stats.open_llm_request_instant {
            Some(started) => monus(self.now_ns as int, started as int),
            None => 0,
        };
        let all = sum128(self.session_stats.active_llm_duration, open);
        if all == 0 {
            None
        } else {
            Some(all)
        }
    }
}

impl App {
    /// A request to the model starts.
    pub fn begin_llm_request_span(&mut self, timestamp: Option<i64>)
        ensures
            final(self)@ == old(self)@.span_begun(timestamp),
    {
        if self.session_stats.open_llm_request_ts.is_none() {
            self.session_stats.open_llm_request_ts = timestamp;
            self.session_stats.open_llm_request_instant = Some(self.now_ns);
        }
    }

    fn open_span_by_clock(&self) -> (r: u128)
        ensures
            r == (match self@.session_stats.open_llm_request_instant {
                Some(started) => monus(self@.now_ns as int, started as int),
                None => 0,
            }),
    {
        match self.session_stats.open_llm_request_instant {
            Some(started) => self.now_ns.saturating_sub(started) as u128,
            None => 0,
        }
    }

    /// A request to the model ends.
    pub fn end_llm_request_span(&mut self, timestamp: Option<i64>)
        ensures
            final(self)@ == old(self)@.span_ended(timestamp),
    {
        let by_clock = self.open_span_by_clock();
        let duration: u128 = match (self.session_stats.open_llm_request_ts, timestamp) {
            (Some(started), Some(ended)) => {
                if ended >= started {
                    ((ended as i128) - (started as i128)) as u128 * 1_000_000_000
                } else {
                    by_clock
                }
            },
            _ => by_clock,
        };
        self.session_stats.active_llm_duration = self.session_stats.active_llm_duration.saturating_add(
            duration,
        );
        self.session_stats.open_llm_request_ts = None;
        self.session_stats.open_llm_request_instant = None;
    }

    /// Counts an event.
    pub fn apply_event_stats(&mut self, kind: &EventKind, timestamp: Option<i64>)
        ensures
            final(self)@ == old(self)@.counted(kind.deep_view(), timestamp),
    {
        match kind {
            EventKind::ToolCallStart { .. } => {
                self.session_stats.total_tool_calls = self.session_stats.total_tool_calls.saturating_add(
                    1,
                );
            },
            EventKind::LlmRequestStart { .. } => {
                self.begin_llm_request_span(timestamp);
            },
            EventKind::LlmRequestEnd { context_tokens, .. } => {
                self.end_llm_request_span(timestamp);
                if let Some(n) = context_tokens {
                    self.session_stats.latest_context_tokens = Some(*n);
                }
            },
            EventKind::Cancelled => {
                self.end_llm_request_span(timestamp);
            },
            EventKind::Error { .. } => {
                self.end_llm_request_span(timestamp);
            },
            _ => {},
        }
    }

    /// How long the model has been at work, in nanoseconds.
    pub fn llm_request_elapsed(&self) -> (r: Option<u128>)
        ensures
            r == self@.llm_elapsed(),
    {
        let all: u128 = self.session_stats.active_llm_duration.saturating_add(
            self.open_span_by_clock(),
        );
        if all == 0 {
            None
        } else {
            Some(all)
        }
    }
}

// ── the connection ───────────────────────────────────────────────────────────

impl AppView {
    /// After something happened to the connection.
    pub open spec fn connection(self, event: ConnectionEventView) -> AppView {
        let s = self.without_confirm();
        match event {
            ConnectionEventView::Connecting { attempt, delay_ms, delay_secs } => (AppView {
                conn: ConnState::Connecting,
                reconnect_attempt: attempt,
                reconnect_delay_ms: Some(delay_ms),
                ..s
            }).with_status(
                LogLevel::Warn,
                "connection"@,
                "waiting for server - retry "@ + decimal(attempt as nat) + " in "@ + delay_secs
                    + "s"@,
            ),
            ConnectionEventView::Connected => (AppView {
                conn: ConnState::Connected,
                reconnect_attempt: 0,
                reconnect_delay_ms: None,
                ..s
            }).with_status(
                LogLevel::Info,
                "connection"@,
                if s.session_id is Some {
                    "reconnected"@
                } else {
                    "connected"@
                },
            ),
            ConnectionEventView::Disconnected { reason } => (AppView {
                conn: ConnState::Disconnected,
                reconnect_delay_ms: None,
                ..s
            }).with_status(LogLevel::Warn, "connection"@, "connection lost - "@ + reason),
        }
    }
}

impl App {
    /// Takes note of what happened to the connection.
    pub fn handle_connection_event(&mut self, event: ConnectionEvent)
        ensures
            final(self)@ == old(self)@.connection(event.deep_view()),
    {
        self.clear_cancel_confirm();
        match event {
            ConnectionEvent::Connecting { attempt, delay_ms, delay_secs } => {
                self.conn = ConnState::Connecting;
                self.reconnect_attempt = attempt;
                self.reconnect_delay_ms = Some(delay_ms);
                let mut text = cat3(
                    "waiting for server - retry ",
                    number(attempt as u128).as_str(),
                    " in ",
                );
                text.append(delay_secs.as_str());
                text.append("s");
                self.set_status(LogLevel::Warn, "connection", text.as_str());
            },
            ConnectionEvent::Connected => {
                self.conn = ConnState::Connected;
                self.reconnect_attempt = 0;
                self.reconnect_delay_ms = None;
                if self.session_id.is_some() {
                    self.set_status(LogLevel::Info, "connection", "reconnected");
                } else {
                    self.set_status(LogLevel::Info, "connection", "connected");
                }
            },
            ConnectionEvent::Disconnected { reason } => {
                self.conn = ConnState::Disconnected;
                self.reconnect_delay_ms = None;
                let text = cat2("connection lost - ", reason.as_str());
                self.set_status(LogLevel::Warn, "connection", text.as_str());
            },
        }
    }
}

/// The status line tells what goes on: that a question waits, what the agent does, which
/// operation is under way, or that the program is ready.  While a cancellation waits for
/// its confirmation it stays.
pub proof fn law_status_tells_what_goes_on(app: AppView, name: Seq<char>, tokens: u32)
    ensures
        app.pending_cancel_confirm_until is Some ==> app.status_refreshed() == app,
        ({
            let free = app.pending_cancel_confirm_until is None;
            let unasked = free && app.elicitation is None;
            let said = app.status_refreshed().status;
            &&& free && app.elicitation is Some ==> said
                == "question - answer in the panel above input"@
            &&& unasked && app.activity is Thinking ==> said == "thinking..."@
            &&& unasked && app.activity is Streaming ==> said == "streaming..."@
            &&& unasked && app.activity == (ActivityStateView::RunningTool { name }) ==> said
                == "tool: "@ + name
            &&& unasked && app.activity == (ActivityStateView::Compacting {
                token_estimate: tokens,
            }) ==> said == "compacting context (~"@ + decimal(tokens as nat) + " tokens)"@
            &&& unasked && app.activity == ActivityStateView::SessionOp(SessionOp::Undo) ==> said
                == "undoing..."@
            &&& unasked && app.activity == ActivityStateView::SessionOp(SessionOp::Redo) ==> said
                == "redoing..."@
            &&& unasked && app.activity is Idle && app.conn == ConnState::Connected ==> said
                == "ready"@
            &&& unasked && app.activity is Idle && app.conn != ConnState::Connected ==> said
                == app.status
        }),
        app.status_refreshed().messages == app.messages,
{
}

/// A turn is active while the agent thinks, answers, runs a tool or compacts; nothing can be
/// typed while a question, an operation or a confirmation waits.
pub proof fn law_when_a_turn_is_active(app: AppView)
    ensures
        app.turn_active() == !(app.activity is Idle || app.activity is SessionOp),
        app.input_blocked() == (app.elicitation is Some || app.activity is SessionOp
            || app.pending_cancel_confirm_until is Some),
        app.confirming() ==> app.pending_cancel_confirm_until is Some && app.now_ns
            <= app.pending_cancel_confirm_until->0,
{
}

} // verus!
