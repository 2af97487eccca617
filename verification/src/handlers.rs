//! What keys do.
use crate::app::{
    ActivityState, ActivityStateView, App, AppView, ChatEntry, ChatEntryView, ConnState, LogLevel,
    Popup, PopupItem, PopupItemView, Screen, SessionOp, StartPageItem, StartPageItemView,
    StreamingCacheView, ToolDetail, ToolDetailView,
};
use crate::cards::CardCacheView;
use crate::diff::{build_diff_lines, build_write_lines, diff_rows, write_rows};
use crate::elicitation::{ElicitationFieldKind, ElicitationFieldKindView, ElicitationStateView};
use crate::input::{links_from, PROMPT_WIDTH};
use crate::json::JsonView;
use crate::models::{cache_get, effort_name, find_local_model, is_local_model, mode_after};
use crate::protocol::{
    ClientMsg, ClientMsgView, ModelEntry, ModelEntryView, PromptBlock, PromptBlockView,
    SessionGroup, SessionGroupView,
};
use crate::layout::numbers;
use crate::seqs::{first, least, lemma_filter_step, lemma_first_index, lemma_take_all, monus};
use crate::session::{law_popup_items_exist, law_start_items_exist};
use crate::text::{
    blank, byte_len, bytes, cat2, char_pos, char_pos_of, copy_opt, drop_last_char, from_chars,
    is_blank, lemma_bytes_concat, lemma_bytes_push, lemma_char_pos, lemma_char_pos_of_prefix,
    lowercase, on_boundary, opt_is, owned, push_char, to_chars, to_lower, width,
};
use crate::theme::{filtered_themes, shown_themes, Theme};
use vstd::prelude::*;

verus! {

/// A key.
#[derive(Clone, Copy, Debug, PartialEq, Eq, Structural)]
pub enum KeyCode {
    Char(char),
    Enter,
    Esc,
    Tab,
    Backspace,
    Delete,
    Up,
    Down,
    Left,
    Right,
    Home,
    End,
    PageUp,
    PageDown,
    Other,
}

/// A key press, with or without Ctrl.
#[derive(Clone, Copy, Debug, PartialEq, Eq, Structural)]
pub struct KeyEvent {
    pub code: KeyCode,
    pub ctrl: bool,
}

/// What a key press asks of the program around the library.
#[derive(Clone, Copy, Debug, PartialEq, Eq, Structural)]
pub enum AppAction {
    Nothing,
    OpenExternalEditor,
}

/// What a key on a session list asks for.
#[derive(Debug, PartialEq, Eq)]
pub enum SessionKeyAction {
    /// Nothing.
    Nothing,
    /// Load the session and subscribe to it.
    LoadSession { session_id: String },
    /// Delete the session.
    DeleteSession { session_id: String },
    /// Start a session.
    NewSession,
}

#[verifier::ext_equal]
pub enum SessionKeyActionView {
    Nothing,
    LoadSession { session_id: Seq<char> },
    DeleteSession { session_id: Seq<char> },
    NewSession,
}

impl DeepView for SessionKeyAction {
    type V = SessionKeyActionView;

    open spec fn deep_view(&self) -> SessionKeyActionView {
        match self {
            SessionKeyAction::Nothing => SessionKeyActionView::Nothing,
            SessionKeyAction::LoadSession { session_id } => SessionKeyActionView::LoadSession {
                session_id: session_id@,
            },
            SessionKeyAction::DeleteSession { session_id } => SessionKeyActionView::DeleteSession {
                session_id: session_id@,
            },
            SessionKeyAction::NewSession => SessionKeyActionView::NewSession,
        }
    }
}

/// What key handling leaves to be done outside: messages to send, and things
/// to save or to look up.
#[derive(Debug)]
pub struct Outbox {
    /// Messages for the server, in order.
    pub msgs: Vec<ClientMsg>,
    /// The settings are to be saved.
    pub save_config: bool,
    /// The session cache is to be saved.
    pub save_cache: bool,
    /// The completions of the new session's path are to be refreshed.
    pub complete_path: bool,
}

#[verifier::ext_equal]
pub struct OutboxView {
    pub msgs: Seq<ClientMsgView>,
    pub save_config: bool,
    pub save_cache: bool,
    pub complete_path: bool,
}

impl DeepView for Outbox {
    type V = OutboxView;

    open spec fn deep_view(&self) -> OutboxView {
        OutboxView {
            msgs: self.msgs.deep_view(),
            save_config: self.save_config,
            save_cache: self.save_cache,
            complete_path: self.complete_path,
        }
    }
}

impl OutboxView {
    /// With one more message.
    pub open spec fn sent(self, m: ClientMsgView) -> OutboxView {
        OutboxView { msgs: self.msgs.push(m), ..self }
    }

    /// With more messages.
    pub open spec fn sent_all(self, m: Seq<ClientMsgView>) -> OutboxView {
        OutboxView { msgs: self.msgs + m, ..self }
    }

    /// With the completions to be refreshed.
    pub open spec fn completing(self) -> OutboxView {
        OutboxView { complete_path: true, ..self }
    }

    /// With the settings to be saved.
    pub open spec fn saving_config(self) -> OutboxView {
        OutboxView { save_config: true, ..self }
    }

    /// With the session cache to be saved.
    pub open spec fn saving_cache(self) -> OutboxView {
        OutboxView { save_cache: true, ..self }
    }
}

impl Outbox {
    /// Nothing to do.
    pub fn new() -> (r: Outbox)
        ensures
            r.deep_view() == (OutboxView {
                msgs: Seq::empty(),
                save_config: false,
                save_cache: false,
                complete_path: false,
            }),
    {
        let r = Outbox {
            msgs: Vec::new(),
            save_config: false,
            save_cache: false,
            complete_path: false,
        };
        assert(r.deep_view().msgs =~= Seq::<ClientMsgView>::empty());
        r
    }

    /// Puts a message in.
    pub fn send(&mut self, m: ClientMsg)
        ensures
            final(self).deep_view() == old(self).deep_view().sent(m.deep_view()),
    {
        let ghost before = self.deep_view().msgs;
        self.msgs.push(m);
        assert(self.deep_view().msgs =~= before.push(m.deep_view()));
    }

    /// Puts messages in.
    pub fn send_all(&mut self, m: Vec<ClientMsg>)
        ensures
            final(self).deep_view() == old(self).deep_view().sent_all(m.deep_view()),
    {
        let ghost before = self.deep_view().msgs;
        let ghost mv = m.deep_view();
        let mut m = m;
        self.msgs.append(&mut m);
        assert(self.deep_view().msgs =~= before + mv);
    }
}

/// A state with what is left to be done outside.
pub type Turn = (AppView, OutboxView);

// ── sending ──────────────────────────────────────────────────────────────────

impl AppView {
    /// With the note that nothing can be sent.
    pub open spec fn refused(self) -> AppView {
        self.with_status(
            LogLevel::Warn,
            "connection"@,
            "not connected - waiting to reconnect"@,
        )
    }
}

/// Whether messages can be sent; where not, the status line says so.
pub fn can_send_server_commands(app: &mut App) -> (r: bool)
    ensures
        r == (old(app)@.conn == ConnState::Connected),
        final(app)@ == (if r {
            old(app)@
        } else {
            old(app)@.refused()
        }),
        old(app)@.wf() ==> final(app)@.wf(),
{
    if app.conn == ConnState::Connected {
        true
    } else {
        app.set_status(LogLevel::Warn, "connection", "not connected - waiting to reconnect");
        false
    }
}

// ── questions ────────────────────────────────────────────────────────────────

impl ElicitationFieldKindView {
    /// The field takes text.
    pub open spec fn takes_text(self) -> bool {
        self is TextInput || self is NumberInput
    }
}

impl ElicitationStateView {
    /// With a character typed at the cursor.
    pub open spec fn typed(self, c: char) -> ElicitationStateView {
        let k = char_pos(self.text_input, self.text_cursor as int);
        ElicitationStateView {
            text_input: self.text_input.take(k).push(c) + self.text_input.skip(k),
            text_cursor: (self.text_cursor + width(c)) as usize,
            ..self
        }
    }

    /// Without the character before the cursor.
    pub open spec fn erased(self) -> ElicitationStateView {
        let k = char_pos(self.text_input, self.text_cursor as int);
        ElicitationStateView {
            text_input: self.text_input.take(k - 1) + self.text_input.skip(k),
            text_cursor: bytes(self.text_input.take(k - 1)) as usize,
            ..self
        }
    }

    /// After a key that changes the form alone.
    #[verifier::opaque]
    pub open spec fn form_key(self, code: KeyCode) -> ElicitationStateView {
        match code {
            KeyCode::Down => self.moved(1),
            KeyCode::Up => self.moved(-1),
            KeyCode::Char(c) => if c == ' ' {
                self.toggled_option()
            } else if self.field().kind.takes_text() {
                self.typed(c)
            } else {
                self
            },
            KeyCode::Backspace => if self.field().kind.takes_text() && self.text_cursor > 0 {
                self.erased()
            } else {
                self
            },
            KeyCode::Enter => self.chosen(),
            _ => self,
        }
    }
}

impl AppView {
    /// After a key while a question waits: Esc declines it, Enter answers it
    /// once every required field has a value, other keys fill in the form.  A
    /// question without fields can only be declined.
    pub open spec fn question_key(self, out: OutboxView, code: KeyCode) -> Turn {
        match self.elicitation {
            Some(e) => if code == KeyCode::Esc {
                (
                    self.question_resolved(e.elicitation_id, "declined"@),
                    out.sent(
                        ClientMsgView::ElicitationResponse {
                            elicitation_id: e.elicitation_id,
                            action: "decline"@,
                            content: None,
                        },
                    ),
                )
            } else if e.fields.len() == 0 {
                (self, out)
            } else {
                let f = e.form_key(code);
                let s = AppView { elicitation: Some(f), ..self };
                if code == KeyCode::Enter && f.valid() {
                    (
                        s.question_resolved(e.elicitation_id, f.display()),
                        out.sent(
                            ClientMsgView::ElicitationResponse {
                                elicitation_id: e.elicitation_id,
                                action: "accept"@,
                                content: Some(
                                    JsonView::Object(f.answers(f.fields.len() as int)),
                                ),
                            },
                        ),
                    )
                } else {
                    (s, out)
                }
            },
            None => (self, out),
        }
    }
}

impl crate::elicitation::ElicitationState {
    /// Types a character at the cursor.
    pub fn type_char(&mut self, c: char)
        requires
            on_boundary(old(self).deep_view().text_input, old(self).deep_view().text_cursor as int),
        ensures
            final(self).deep_view() == old(self).deep_view().typed(c),
            on_boundary(
                final(self).deep_view().text_input,
                final(self).deep_view().text_cursor as int,
            ),
    {
        let ghost s = self.deep_view().text_input;
        let v = to_chars(self.text_input.as_str());
        let k = char_pos_of(&v, self.text_cursor);
        proof {
            lemma_char_pos(s, self.text_cursor as int);
        }
        let n: usize = v.len();
        let mut text = from_chars(&v, 0, k);
        let rest = from_chars(&v, k, n);
        push_char(&mut text, c);
        text.append(rest.as_str());
        let total: usize = byte_len(text.as_str());
        let behind: usize = byte_len(rest.as_str());
        proof {
            assert(s.subrange(0, k as int) =~= s.take(k as int));
            assert(s.subrange(k as int, n as int) =~= s.skip(k as int));
            let head = s.take(k as int).push(c);
            lemma_bytes_concat(head, s.skip(k as int));
            lemma_bytes_push(s.take(k as int), c);
            assert(text@ =~= head + s.skip(k as int));
            assert(text@.take(k + 1) =~= head);
            lemma_char_pos_of_prefix(text@, k + 1);
        }
        self.text_input = text;
        self.text_cursor = total - behind;
    }

    /// Removes the character before the cursor.
    pub fn erase_char(&mut self)
        requires
            on_boundary(old(self).deep_view().text_input, old(self).deep_view().text_cursor as int),
            old(self).deep_view().text_cursor > 0,
        ensures
            final(self).deep_view() == old(self).deep_view().erased(),
            on_boundary(
                final(self).deep_view().text_input,
                final(self).deep_view().text_cursor as int,
            ),
    {
        let ghost s = self.deep_view().text_input;
        let v = to_chars(self.text_input.as_str());
        let k = char_pos_of(&v, self.text_cursor);
        proof {
            lemma_char_pos(s, self.text_cursor as int);
            if k == 0 {
                assert(bytes(s.take(0)) == 0);
            }
        }
        let n: usize = v.len();
        let head = from_chars(&v, 0, k - 1);
        let cursor: usize = byte_len(head.as_str());
        let mut text = head;
        text.append(from_chars(&v, k, n).as_str());
        proof {
            assert(s.subrange(0, k - 1) =~= s.take(k - 1));
            assert(s.subrange(k as int, n as int) =~= s.skip(k as int));
            assert(text@.take(k - 1) =~= s.take(k - 1));
            lemma_char_pos_of_prefix(text@, k - 1);
        }
        self.text_input = text;
        self.text_cursor = cursor;
    }

    /// Takes in a key that changes the form alone.
    pub fn handle_form_key(&mut self, code: KeyCode)
        requires
            old(self).fields@.len() > 0,
            on_boundary(old(self).deep_view().text_input, old(self).deep_view().text_cursor as int),
        ensures
            final(self).deep_view() == old(self).deep_view().form_key(code),
            on_boundary(
                final(self).deep_view().text_input,
                final(self).deep_view().text_cursor as int,
            ),
    {
        reveal(ElicitationStateView::form_key);
        let takes_text = match &self.current_field().kind {
            ElicitationFieldKind::TextInput => true,
            ElicitationFieldKind::NumberInput { .. } => true,
            _ => false,
        };
        match code {
            KeyCode::Down => {
                self.move_cursor(1);
            },
            KeyCode::Up => {
                self.move_cursor(-1);
            },
            KeyCode::Char(c) => {
                if c == ' ' {
                    self.toggle_current_option();
                } else if takes_text {
                    self.type_char(c);
                }
            },
            KeyCode::Backspace => {
                if takes_text && self.text_cursor > 0 {
                    self.erase_char();
                }
            },
            KeyCode::Enter => {
                self.select_current_option();
            },
            _ => {},
        }
    }
}

/// Takes in a key while a question waits.
pub fn handle_elicitation_key(app: &mut App, key: KeyEvent, out: &mut Outbox)
    requires
        old(app)@.wf(),
    ensures
        (final(app)@, final(out).deep_view()) == old(app)@.question_key(
            old(out).deep_view(),
            key.code,
        ),
        final(app)@.wf(),
{
    if app.elicitation.is_none() {
        return ;
    }
    let (id, count) = match &app.elicitation {
        Some(state) => (state.elicitation_id.clone(), state.fields.len()),
        None => (String::new(), 0),
    };
    if key.code == KeyCode::Esc {
        out.send(
            ClientMsg::ElicitationResponse {
                elicitation_id: id.clone(),
                action: owned("decline"),
                content: None,
            },
        );
        app.resolve_elicitation(id.as_str(), "declined");
        return ;
    }
    if count == 0 {
        return ;
    }
    let mut accepted: Option<(crate::json::Json, String)> = None;
    if let Some(state) = &mut app.elicitation {
        state.handle_form_key(key.code);
        if key.code == KeyCode::Enter && state.is_valid() {
            accepted = Some((state.build_accept_content(), state.selected_display()));
        }
    }
    match accepted {
        Some((content, display)) => {
            out.send(
                ClientMsg::ElicitationResponse {
                    elicitation_id: id.clone(),
                    action: owned("accept"),
                    content: Some(content),
                },
            );
            app.resolve_elicitation(id.as_str(), display.as_str());
        },
        None => {},
    }
}


// ── session lists ────────────────────────────────────────────────────────────

/// Having sessions.
pub open spec fn has_sessions() -> spec_fn(SessionGroupView) -> bool {
    |g: SessionGroupView| g.sessions.len() > 0
}

/// Without one session, and without the groups that have none.
pub open spec fn without_session(groups: Seq<SessionGroupView>, g: int, i: int) -> Seq<
    SessionGroupView,
> {
    groups.update(
        g,
        SessionGroupView { sessions: groups[g].sessions.remove(i), ..groups[g] },
    ).filter(has_sessions())
}

/// A cursor kept on a row, where there are rows.
pub open spec fn on_row(cursor: usize, rows: nat) -> usize {
    if rows > 0 && cursor >= rows {
        (rows - 1) as usize
    } else {
        cursor
    }
}

/// One below, and not below the last of `rows` rows.
pub open spec fn row_below(cursor: usize, step: int, rows: nat) -> usize {
    least(
        cursor + step,
        if rows > 0 {
            rows - 1
        } else {
            0
        },
    ) as usize
}

fn move_down(cursor: usize, step: usize, rows: usize) -> (r: usize)
    ensures
        r == row_below(cursor, step as int, rows as nat),
{
    let max: usize = if rows > 0 {
        rows - 1
    } else {
        0
    };
    let next: usize = cursor.saturating_add(step);
    if next <= max {
        next
    } else {
        max
    }
}

impl AppView {
    /// With the cursor kept on a row of the start page.
    pub open spec fn on_start_row(self) -> AppView {
        AppView { session_cursor: on_row(self.session_cursor, self.start_items().len()), ..self }
    }

    /// With the cursor kept on a row of the popup.
    pub open spec fn on_popup_row(self) -> AppView {
        AppView { session_cursor: on_row(self.session_cursor, self.popup_items().len()), ..self }
    }

    /// The id of a session.
    pub open spec fn session_at(self, g: usize, i: usize) -> Seq<char> {
        self.session_groups[g as int].sessions[i as int].session_id
    }

    /// Enter on a row of the start page: a header collapses or opens its
    /// group, a session is loaded, a row for others opens the popup, and
    /// behind the last row a session is started.
    #[verifier::opaque]
    pub open spec fn start_enter(self) -> (AppView, SessionKeyActionView) {
        let items = self.start_items();
        if self.session_cursor == items.len() {
            (self, SessionKeyActionView::NewSession)
        } else if self.session_cursor < items.len() {
            match items[self.session_cursor as int] {
                StartPageItemView::GroupHeader { cwd, .. } => (
                    self.group_toggled(cwd).on_start_row(),
                    SessionKeyActionView::Nothing,
                ),
                StartPageItemView::Session { group_idx, session_idx } => (
                    self,
                    SessionKeyActionView::LoadSession {
                        session_id: self.session_at(group_idx, session_idx),
                    },
                ),
                StartPageItemView::ShowMore { .. } => (
                    AppView {
                        popup: Popup::SessionSelect,
                        session_cursor: 0,
                        session_filter: Seq::empty(),
                        ..self
                    },
                    SessionKeyActionView::Nothing,
                ),
            }
        } else {
            (self, SessionKeyActionView::Nothing)
        }
    }

    /// Delete on a row of the start page: a session goes at once.
    #[verifier::opaque]
    pub open spec fn start_delete(self) -> (AppView, SessionKeyActionView) {
        let items = self.start_items();
        if self.session_cursor < items.len() {
            match items[self.session_cursor as int] {
                StartPageItemView::Session { group_idx, session_idx } => (
                    (AppView {
                        session_groups: without_session(
                            self.session_groups,
                            group_idx as int,
                            session_idx as int,
                        ),
                        ..self
                    }).on_start_row(),
                    SessionKeyActionView::DeleteSession {
                        session_id: self.session_at(group_idx, session_idx),
                    },
                ),
                _ => (self, SessionKeyActionView::Nothing),
            }
        } else {
            (self, SessionKeyActionView::Nothing)
        }
    }

    /// After a key on the start page, and what it asks for.
    pub open spec fn start_key(self, code: KeyCode) -> (AppView, SessionKeyActionView) {
        match code {
            KeyCode::Up => {
                let cursor = if self.session_cursor > 0 {
                    (self.session_cursor - 1) as usize
                } else {
                    0usize
                };
                (
                    AppView {
                        session_cursor: cursor,
                        start_page_scroll: if cursor < self.start_page_scroll {
                            cursor
                        } else {
                            self.start_page_scroll
                        },
                        ..self
                    },
                    SessionKeyActionView::Nothing,
                )
            },
            KeyCode::Down => (
                AppView {
                    session_cursor: if self.session_cursor < self.start_items().len() {
                        (self.session_cursor + 1) as usize
                    } else {
                        self.session_cursor
                    },
                    ..self
                },
                SessionKeyActionView::Nothing,
            ),
            KeyCode::Enter => self.start_enter(),
            KeyCode::Delete => self.start_delete(),
            KeyCode::Backspace => (
                AppView {
                    session_filter: without_last(self.session_filter),
                    session_cursor: 0,
                    start_page_scroll: 0,
                    ..self
                },
                SessionKeyActionView::Nothing,
            ),
            KeyCode::Char(c) => (
                AppView {
                    session_filter: self.session_filter.push(c),
                    session_cursor: 0,
                    start_page_scroll: 0,
                    ..self
                },
                SessionKeyActionView::Nothing,
            ),
            _ => (self, SessionKeyActionView::Nothing),
        }
    }

    /// Enter on a row of the popup: a header collapses or opens its group, a
    /// session is loaded.
    #[verifier::opaque]
    pub open spec fn popup_enter(self) -> (AppView, SessionKeyActionView) {
        let items = self.popup_items();
        if self.session_cursor < items.len() {
            match items[self.session_cursor as int] {
                PopupItemView::GroupHeader { cwd, .. } => (
                    self.popup_group_toggled(cwd).on_popup_row(),
                    SessionKeyActionView::Nothing,
                ),
                PopupItemView::Session { group_idx, session_idx } => (
                    AppView { popup: Popup::Closed, ..self },
                    SessionKeyActionView::LoadSession {
                        session_id: self.session_at(group_idx, session_idx),
                    },
                ),
            }
        } else {
            (self, SessionKeyActionView::Nothing)
        }
    }

    /// Delete on a row of the popup: a session goes at once.
    #[verifier::opaque]
    pub open spec fn popup_delete(self) -> (AppView, SessionKeyActionView) {
        let items = self.popup_items();
        if self.session_cursor < items.len() {
            match items[self.session_cursor as int] {
                PopupItemView::Session { group_idx, session_idx } => (
                    (AppView {
                        session_groups: without_session(
                            self.session_groups,
                            group_idx as int,
                            session_idx as int,
                        ),
                        ..self
                    }).on_popup_row(),
                    SessionKeyActionView::DeleteSession {
                        session_id: self.session_at(group_idx, session_idx),
                    },
                ),
                _ => (self, SessionKeyActionView::Nothing),
            }
        } else {
            (self, SessionKeyActionView::Nothing)
        }
    }

    /// After a key in the session popup, and what it asks for.
    pub open spec fn session_popup_key(self, code: KeyCode) -> (AppView, SessionKeyActionView) {
        match code {
            KeyCode::Esc => (
                AppView { popup: Popup::Closed, ..self },
                SessionKeyActionView::Nothing,
            ),
            KeyCode::Up => (
                AppView { session_cursor: row_above(self.session_cursor, 1), ..self },
                SessionKeyActionView::Nothing,
            ),
            KeyCode::Down => (
                AppView {
                    session_cursor: row_below(self.session_cursor, 1, self.popup_items().len()),
                    ..self
                },
                SessionKeyActionView::Nothing,
            ),
            KeyCode::Enter => self.popup_enter(),
            KeyCode::Delete => self.popup_delete(),
            KeyCode::Backspace => (
                AppView {
                    session_filter: without_last(self.session_filter),
                    session_cursor: 0,
                    ..self
                },
                SessionKeyActionView::Nothing,
            ),
            KeyCode::Char(c) => (
                AppView {
                    session_filter: self.session_filter.push(c),
                    session_cursor: 0,
                    ..self
                },
                SessionKeyActionView::Nothing,
            ),
            _ => (self, SessionKeyActionView::Nothing),
        }
    }
}

/// A text without its last character.
pub open spec fn without_last(s: Seq<char>) -> Seq<char> {
    if s.len() > 0 {
        s.drop_last()
    } else {
        s
    }
}

/// `step` rows above, and not above the first.
pub open spec fn row_above(cursor: usize, step: int) -> usize {
    if cursor >= step {
        (cursor - step) as usize
    } else {
        0usize
    }
}

impl App {
    /// Removes a session, and the groups that have none.
    fn remove_session(&mut self, g: usize, i: usize)
        requires
            g < old(self)@.session_groups.len(),
            i < old(self)@.session_groups[g as int].sessions.len(),
        ensures
            final(self)@ == (AppView {
                session_groups: without_session(
                    old(self)@.session_groups,
                    g as int,
                    i as int,
                ),
                ..old(self)@
            }),
    {
        let ghost gv = self@.session_groups;
        let ghost cut = gv.update(
            g as int,
            SessionGroupView { sessions: gv[g as int].sessions.remove(i as int), ..gv[g as int] },
        );
        let ghost p = has_sessions();
        let mut kept: Vec<SessionGroup> = Vec::new();
        let mut k: usize = 0;
        assert(kept.deep_view() =~= cut.take(0).filter(p)) by {
            reveal(Seq::filter);
        }
        while k < self.session_groups.len()
            invariant
                k <= self.session_groups@.len(),
                self@ == old(self)@,
                gv == self@.session_groups,
                g < gv.len(),
                i < gv[g as int].sessions.len(),
                cut == gv.update(
                    g as int,
                    SessionGroupView {
                        sessions: gv[g as int].sessions.remove(i as int),
                        ..gv[g as int]
                    },
                ),
                p == has_sessions(),
                kept.deep_view() == cut.take(k as int).filter(p),
            decreases self.session_groups@.len() - k,
        {
            let ghost before = kept.deep_view();
            let mut group = self.session_groups[k].clone();
            assert(gv[k as int] == group.deep_view());
            if k == g {
                let ghost sv = group.deep_view().sessions;
                let _ = group.sessions.remove(i);
                assert(group.deep_view().sessions =~= sv.remove(i as int));
            }
            proof {
                lemma_filter_step(cut, p, k as int);
                assert(cut[k as int] =~= group.deep_view());
            }
            if group.sessions.len() > 0 {
                kept.push(group);
                assert(kept.deep_view() =~= before.push(cut[k as int]));
            }
            k = k + 1;
        }
        proof {
            lemma_take_all(cut);
        }
        self.session_groups = kept;
    }
}

impl App {
    fn keep_start_row(&mut self)
        ensures
            final(self)@ == old(self)@.on_start_row(),
            old(self)@.wf() ==> final(self)@.wf(),
    {
        let n: usize = self.visible_start_items().len();
        if n > 0 && self.session_cursor >= n {
            self.session_cursor = n - 1;
        }
    }

    fn keep_popup_row(&mut self)
        ensures
            final(self)@ == old(self)@.on_popup_row(),
            old(self)@.wf() ==> final(self)@.wf(),
    {
        let n: usize = self.visible_popup_items().len();
        if n > 0 && self.session_cursor >= n {
            self.session_cursor = n - 1;
        }
    }

    fn enter_start_row(&mut self) -> (r: SessionKeyAction)
        ensures
            (final(self)@, r.deep_view()) == old(self)@.start_enter(),
            old(self)@.wf() ==> final(self)@.wf(),
    {
        reveal(AppView::start_enter);
        let items = self.visible_start_items();
        if self.session_cursor == items.len() {
            return SessionKeyAction::NewSession;
        }
        if self.session_cursor > items.len() {
            return SessionKeyAction::Nothing;
        }
        let k = self.session_cursor;
        proof {
            self.lemma_lists_fit();
            law_start_items_exist(self@, k as int);
            assert(items.deep_view()[k as int] == items@[k as int].deep_view());
        }
        match &items[k] {
            StartPageItem::GroupHeader { cwd, .. } => {
                self.toggle_group_collapse(cwd);
                self.keep_start_row();
                SessionKeyAction::Nothing
            },
            StartPageItem::Session { group_idx, session_idx } => {
                let group = &self.session_groups[*group_idx];
                SessionKeyAction::LoadSession {
                    session_id: group.sessions[*session_idx].session_id.clone(),
                }
            },
            StartPageItem::ShowMore { .. } => {
                self.popup = Popup::SessionSelect;
                self.session_cursor = 0;
                self.session_filter = String::new();
                SessionKeyAction::Nothing
            },
        }
    }

    fn delete_start_row(&mut self) -> (r: SessionKeyAction)
        ensures
            (final(self)@, r.deep_view()) == old(self)@.start_delete(),
            old(self)@.wf() ==> final(self)@.wf(),
    {
        reveal(AppView::start_delete);
        let items = self.visible_start_items();
        let k = self.session_cursor;
        if k >= items.len() {
            return SessionKeyAction::Nothing;
        }
        proof {
            self.lemma_lists_fit();
            law_start_items_exist(self@, k as int);
            assert(items.deep_view()[k as int] == items@[k as int].deep_view());
        }
        match &items[k] {
            StartPageItem::Session { group_idx, session_idx } => {
                let group = &self.session_groups[*group_idx];
                let session_id = group.sessions[*session_idx].session_id.clone();
                self.remove_session(*group_idx, *session_idx);
                self.keep_start_row();
                SessionKeyAction::DeleteSession { session_id }
            },
            _ => SessionKeyAction::Nothing,
        }
    }

    fn enter_popup_row(&mut self) -> (r: SessionKeyAction)
        ensures
            (final(self)@, r.deep_view()) == old(self)@.popup_enter(),
            old(self)@.wf() ==> final(self)@.wf(),
    {
        reveal(AppView::popup_enter);
        let items = self.visible_popup_items();
        let k = self.session_cursor;
        if k >= items.len() {
            return SessionKeyAction::Nothing;
        }
        proof {
            self.lemma_lists_fit();
            law_popup_items_exist(self@, k as int);
            assert(items.deep_view()[k as int] == items@[k as int].deep_view());
        }
        match &items[k] {
            PopupItem::GroupHeader { cwd, .. } => {
                self.toggle_popup_group_collapse(cwd);
                self.keep_popup_row();
                SessionKeyAction::Nothing
            },
            PopupItem::Session { group_idx, session_idx } => {
                let group = &self.session_groups[*group_idx];
                let session_id = group.sessions[*session_idx].session_id.clone();
                self.popup = Popup::Closed;
                SessionKeyAction::LoadSession { session_id }
            },
        }
    }

    fn delete_popup_row(&mut self) -> (r: SessionKeyAction)
        ensures
            (final(self)@, r.deep_view()) == old(self)@.popup_delete(),
            old(self)@.wf() ==> final(self)@.wf(),
    {
        reveal(AppView::popup_delete);
        let items = self.visible_popup_items();
        let k = self.session_cursor;
        if k >= items.len() {
            return SessionKeyAction::Nothing;
        }
        proof {
            self.lemma_lists_fit();
            law_popup_items_exist(self@, k as int);
            assert(items.deep_view()[k as int] == items@[k as int].deep_view());
        }
        match &items[k] {
            PopupItem::Session { group_idx, session_idx } => {
                let group = &self.session_groups[*group_idx];
                let session_id = group.sessions[*session_idx].session_id.clone();
                self.remove_session(*group_idx, *session_idx);
                self.keep_popup_row();
                SessionKeyAction::DeleteSession { session_id }
            },
            _ => SessionKeyAction::Nothing,
        }
    }
}

/// Takes in a key on the start page, and says what it asks for.
pub fn apply_sessions_key(app: &mut App, key: KeyCode) -> (r: SessionKeyAction)
    ensures
        (final(app)@, r.deep_view()) == old(app)@.start_key(key),
        old(app)@.wf() ==> final(app)@.wf(),
{
    match key {
        KeyCode::Up => {
            app.session_cursor = app.session_cursor.saturating_sub(1);
            if app.session_cursor < app.start_page_scroll {
                app.start_page_scroll = app.session_cursor;
            }
            SessionKeyAction::Nothing
        },
        KeyCode::Down => {
            let max: usize = app.visible_start_items().len();
            if app.session_cursor < max {
                app.session_cursor = app.session_cursor + 1;
            }
            SessionKeyAction::Nothing
        },
        KeyCode::Enter => app.enter_start_row(),
        KeyCode::Delete => app.delete_start_row(),
        KeyCode::Backspace => {
            drop_last_char(&mut app.session_filter);
            app.session_cursor = 0;
            app.start_page_scroll = 0;
            SessionKeyAction::Nothing
        },
        KeyCode::Char(c) => {
            push_char(&mut app.session_filter, c);
            app.session_cursor = 0;
            app.start_page_scroll = 0;
            SessionKeyAction::Nothing
        },
        _ => SessionKeyAction::Nothing,
    }
}

/// Takes in a key in the session popup, and says what it asks for.  Groups
/// collapse here independently of the start page.
pub fn apply_popup_session_key(app: &mut App, key: KeyCode) -> (r: SessionKeyAction)
    ensures
        (final(app)@, r.deep_view()) == old(app)@.session_popup_key(key),
        old(app)@.wf() ==> final(app)@.wf(),
{
    match key {
        KeyCode::Esc => {
            app.popup = Popup::Closed;
            SessionKeyAction::Nothing
        },
        KeyCode::Up => {
            app.session_cursor = app.session_cursor.saturating_sub(1);
            SessionKeyAction::Nothing
        },
        KeyCode::Down => {
            let rows: usize = app.visible_popup_items().len();
            app.session_cursor = move_down(app.session_cursor, 1, rows);
            SessionKeyAction::Nothing
        },
        KeyCode::Enter => app.enter_popup_row(),
        KeyCode::Delete => app.delete_popup_row(),
        KeyCode::Backspace => {
            drop_last_char(&mut app.session_filter);
            app.session_cursor = 0;
            SessionKeyAction::Nothing
        },
        KeyCode::Char(c) => {
            push_char(&mut app.session_filter, c);
            app.session_cursor = 0;
            SessionKeyAction::Nothing
        },
        _ => SessionKeyAction::Nothing,
    }
}

/// With what a key on a session list asked for.
pub open spec fn acted(turn: Turn, action: SessionKeyActionView) -> Turn {
    match action {
        SessionKeyActionView::LoadSession { session_id } => (
            turn.0,
            turn.1.sent(ClientMsgView::LoadSession { session_id }).sent(
                ClientMsgView::SubscribeSession { session_id, agent_id: turn.0.agent_id },
            ),
        ),
        SessionKeyActionView::DeleteSession { session_id } => (
            turn.0,
            turn.1.sent(ClientMsgView::DeleteSession { session_id }),
        ),
        SessionKeyActionView::NewSession => (turn.0.new_session_opened(), turn.1.completing()),
        SessionKeyActionView::Nothing => turn,
    }
}

impl AppView {
    /// After a key on the start page.
    #[verifier::opaque]
    pub open spec fn on_sessions_key(self, out: OutboxView, key: KeyEvent) -> Turn {
        if key.code == KeyCode::Char('q') || key.code == KeyCode::Esc {
            (AppView { should_quit: true, ..self }, out)
        } else {
            let (next, action) = self.start_key(key.code);
            acted((next, out), action)
        }
    }

    /// With the popup for a new session, where messages can be sent.
    pub open spec fn asked_for_new_session(self, out: OutboxView) -> Turn {
        if self.conn == ConnState::Connected {
            (self.new_session_opened(), out.completing())
        } else {
            (self.refused(), out)
        }
    }

    /// After a key in the session popup.
    #[verifier::opaque]
    pub open spec fn on_session_popup_key(self, out: OutboxView, key: KeyEvent) -> Turn {
        if key.ctrl && key.code == KeyCode::Char('n') {
            self.asked_for_new_session(out)
        } else {
            let (next, action) = self.session_popup_key(key.code);
            acted((next, out), action)
        }
    }
}

fn act(app: &mut App, action: SessionKeyAction, out: &mut Outbox)
    ensures
        (final(app)@, final(out).deep_view()) == acted(
            (old(app)@, old(out).deep_view()),
            action.deep_view(),
        ),
        old(app)@.wf() ==> final(app)@.wf(),
{
    match action {
        SessionKeyAction::LoadSession { session_id } => {
            out.send(ClientMsg::LoadSession { session_id: session_id.clone() });
            out.send(
                ClientMsg::SubscribeSession { session_id, agent_id: copy_opt(&app.agent_id) },
            );
        },
        SessionKeyAction::DeleteSession { session_id } => {
            out.send(ClientMsg::DeleteSession { session_id });
        },
        SessionKeyAction::NewSession => {
            app.open_new_session_popup();
            out.complete_path = true;
        },
        SessionKeyAction::Nothing => {},
    }
}

/// Takes in a key on the start page.
pub fn handle_sessions_key(app: &mut App, key: KeyEvent, out: &mut Outbox)
    ensures
        (final(app)@, final(out).deep_view()) == old(app)@.on_sessions_key(
            old(out).deep_view(),
            key,
        ),
        old(app)@.wf() ==> final(app)@.wf(),
{
    reveal(AppView::on_sessions_key);
    if key.code == KeyCode::Char('q') || key.code == KeyCode::Esc {
        app.should_quit = true;
        return ;
    }
    let action = apply_sessions_key(app, key.code);
    act(app, action, out);
}

fn ask_for_new_session(app: &mut App, out: &mut Outbox)
    ensures
        (final(app)@, final(out).deep_view()) == old(app)@.asked_for_new_session(
            old(out).deep_view(),
        ),
        old(app)@.wf() ==> final(app)@.wf(),
{
    if can_send_server_commands(app) {
        app.open_new_session_popup();
        out.complete_path = true;
    }
}

/// Takes in a key in the session popup.
pub fn handle_session_popup_key(app: &mut App, key: KeyEvent, out: &mut Outbox)
    ensures
        (final(app)@, final(out).deep_view()) == old(app)@.on_session_popup_key(
            old(out).deep_view(),
            key,
        ),
        old(app)@.wf() ==> final(app)@.wf(),
{
    reveal(AppView::on_session_popup_key);
    if key.ctrl && key.code == KeyCode::Char('n') {
        ask_for_new_session(app, out);
        return ;
    }
    let action = apply_popup_session_key(app, key.code);
    act(app, action, out);
}

// ── the log ──────────────────────────────────────────────────────────────────

impl AppView {
    /// With the cursor on the last log entry.
    pub open spec fn on_last_log(self) -> AppView {
        AppView { log_cursor: monus(self.shown_logs().len() as int, 1) as usize, ..self }
    }

    /// After a key in the log popup.
    #[verifier::opaque]
    pub open spec fn on_log_key(self, code: KeyCode) -> AppView {
        match code {
            KeyCode::Esc => AppView { popup: Popup::Closed, ..self },
            KeyCode::Up => AppView { log_cursor: row_above(self.log_cursor, 1), ..self },
            KeyCode::Down => AppView {
                log_cursor: row_below(self.log_cursor, 1, self.shown_logs().len()),
                ..self
            },
            KeyCode::PageUp => AppView { log_cursor: row_above(self.log_cursor, 10), ..self },
            KeyCode::PageDown => AppView {
                log_cursor: row_below(self.log_cursor, 10, self.shown_logs().len()),
                ..self
            },
            KeyCode::Home => AppView { log_cursor: 0, ..self },
            KeyCode::End => self.on_last_log(),
            KeyCode::Backspace => (AppView {
                log_filter: without_last(self.log_filter),
                ..self
            }).on_last_log(),
            KeyCode::Tab => (AppView {
                log_level_filter: self.log_level_filter.next(),
                ..self
            }).on_last_log(),
            KeyCode::Char(c) => AppView {
                log_filter: self.log_filter.push(c),
                log_cursor: 0,
                ..self
            },
            _ => self,
        }
    }
}

fn go_to_last_log(app: &mut App)
    ensures
        final(app)@ == old(app)@.on_last_log(),
{
    let rows: usize = app.filtered_logs().len();
    app.log_cursor = rows.saturating_sub(1);
}

/// Takes in a key in the log popup.
pub fn handle_log_popup_key(app: &mut App, key: KeyEvent)
    ensures
        final(app)@ == old(app)@.on_log_key(key.code),
        old(app)@.wf() ==> final(app)@.wf(),
{
    reveal(AppView::on_log_key);
    match key.code {
        KeyCode::Esc => {
            app.popup = Popup::Closed;
        },
        KeyCode::Up => {
            app.log_cursor = app.log_cursor.saturating_sub(1);
        },
        KeyCode::Down => {
            let rows: usize = app.filtered_logs().len();
            app.log_cursor = move_down(app.log_cursor, 1, rows);
        },
        KeyCode::PageUp => {
            app.log_cursor = app.log_cursor.saturating_sub(10);
        },
        KeyCode::PageDown => {
            let rows: usize = app.filtered_logs().len();
            app.log_cursor = move_down(app.log_cursor, 10, rows);
        },
        KeyCode::Home => {
            app.log_cursor = 0;
        },
        KeyCode::End => {
            go_to_last_log(app);
        },
        KeyCode::Backspace => {
            drop_last_char(&mut app.log_filter);
            go_to_last_log(app);
        },
        KeyCode::Tab => {
            app.cycle_log_level_filter();
            go_to_last_log(app);
        },
        KeyCode::Char(c) => {
            push_char(&mut app.log_filter, c);
            app.log_cursor = 0;
        },
        _ => {},
    }
}

// ── a new session ────────────────────────────────────────────────────────────

impl AppView {
    /// With the character that begins at the byte position `at` of the new
    /// session's path removed, where there is one, and the cursor at `at`.
    pub open spec fn path_char_removed(self, at: int) -> AppView {
        let s = self.new_session_path;
        let k = char_pos(s, at);
        AppView {
            new_session_path: if k < s.len() {
                s.remove(k)
            } else {
                s
            },
            new_session_cursor: at as usize,
            ..self
        }
    }

    /// With a character typed into the new session's path, and the cursor one
    /// byte further.
    pub open spec fn path_char_typed(self, c: char) -> AppView {
        let s = self.new_session_path;
        let k = char_pos(s, self.new_session_cursor as int);
        AppView {
            new_session_path: s.take(k).push(c) + s.skip(k),
            new_session_cursor: least(self.new_session_cursor + 1, usize::MAX as int) as usize,
            ..self
        }
    }

    /// After a key that edits the new session's path.  The cursor counts bytes
    /// and moves by one; where it does not stand between two characters, the
    /// character that it stands in takes its place.
    #[verifier::opaque]
    pub open spec fn path_edited(self, code: KeyCode) -> AppView {
        match code {
            KeyCode::Left => AppView {
                new_session_cursor: row_above(self.new_session_cursor, 1),
                ..self
            },
            KeyCode::Right => AppView {
                new_session_cursor: least(
                    self.new_session_cursor + 1,
                    bytes(self.new_session_path) as int,
                ) as usize,
                ..self
            },
            KeyCode::Home => AppView { new_session_cursor: 0, ..self },
            KeyCode::End => AppView {
                new_session_cursor: bytes(self.new_session_path) as usize,
                ..self
            },
            KeyCode::Backspace => if self.new_session_cursor > 0 && self.new_session_path.len()
                > 0 {
                self.path_char_removed(self.new_session_cursor - 1)
            } else {
                self
            },
            KeyCode::Char(c) => self.path_char_typed(c),
            _ => self,
        }
    }

    /// With a new session asked for, where messages can be sent.
    #[verifier::opaque]
    pub open spec fn new_session_requested(self, out: OutboxView) -> Turn {
        if self.conn == ConnState::Connected {
            (
                AppView { popup: Popup::Closed, ..self },
                out.sent(
                    ClientMsgView::NewSession {
                        cwd: self.session_path(self.new_session_path),
                        request_id: None,
                    },
                ),
            )
        } else {
            (self.refused(), out)
        }
    }

    /// After a key in the popup for a new session.
    #[verifier::opaque]
    pub open spec fn on_new_session_key(self, out: OutboxView, code: KeyCode) -> Turn {
        match code {
            KeyCode::Esc => (AppView { popup: Popup::Closed, ..self }, out),
            KeyCode::Up => (self.completion_moved(-1), out),
            KeyCode::Down => (self.completion_moved(1), out),
            KeyCode::Tab => (self.completion_accepted(), out),
            KeyCode::Enter => self.new_session_requested(out),
            KeyCode::Left | KeyCode::Right | KeyCode::Home | KeyCode::End | KeyCode::Backspace
            | KeyCode::Char(_) => (self.path_edited(code), out.completing()),
            _ => (self, out),
        }
    }
}

impl App {
    fn remove_path_char(&mut self, at: usize)
        ensures
            final(self)@ == old(self)@.path_char_removed(at as int),
    {
        let ghost s = self@.new_session_path;
        let v = to_chars(self.new_session_path.as_str());
        let k = char_pos_of(&v, at);
        let n: usize = v.len();
        if k < n {
            let mut text = from_chars(&v, 0, k);
            text.append(from_chars(&v, k + 1, n).as_str());
            assert(text@ =~= s.remove(k as int)) by {
                lemma_char_pos(s, at as int);
            }
            self.new_session_path = text;
        }
        self.new_session_cursor = at;
    }

    fn type_path_char(&mut self, c: char)
        ensures
            final(self)@ == old(self)@.path_char_typed(c),
    {
        let ghost s = self@.new_session_path;
        let v = to_chars(self.new_session_path.as_str());
        let k = char_pos_of(&v, self.new_session_cursor);
        let n: usize = v.len();
        proof {
            lemma_char_pos(s, self.new_session_cursor as int);
        }
        let mut text = from_chars(&v, 0, k);
        push_char(&mut text, c);
        text.append(from_chars(&v, k, n).as_str());
        assert(text@ =~= s.take(k as int).push(c) + s.skip(k as int));
        self.new_session_path = text;
        self.new_session_cursor = self.new_session_cursor.saturating_add(1);
    }
}

fn edit_path(app: &mut App, code: KeyCode)
    ensures
        final(app)@ == old(app)@.path_edited(code),
        old(app)@.wf() ==> final(app)@.wf(),
{
    reveal(AppView::path_edited);
    match code {
        KeyCode::Left => {
            app.new_session_cursor = app.new_session_cursor.saturating_sub(1);
        },
        KeyCode::Right => {
            let end: usize = byte_len(app.new_session_path.as_str());
            let next: usize = app.new_session_cursor.saturating_add(1);
            app.new_session_cursor = if next <= end {
                next
            } else {
                end
            };
        },
        KeyCode::Home => {
            app.new_session_cursor = 0;
        },
        KeyCode::End => {
            app.new_session_cursor = byte_len(app.new_session_path.as_str());
        },
        KeyCode::Backspace => {
            if app.new_session_cursor > 0 && app.new_session_path.as_str().unicode_len() > 0 {
                app.remove_path_char(app.new_session_cursor - 1);
            }
        },
        KeyCode::Char(c) => {
            app.type_path_char(c);
        },
        _ => {},
    }
}

fn request_new_session(app: &mut App, out: &mut Outbox)
    ensures
        (final(app)@, final(out).deep_view()) == old(app)@.new_session_requested(
            old(out).deep_view(),
        ),
        old(app)@.wf() ==> final(app)@.wf(),
{
    reveal(AppView::new_session_requested);
    if can_send_server_commands(app) {
        let cwd = app.normalize_new_session_path(app.new_session_path.as_str());
        app.popup = Popup::Closed;
        out.send(ClientMsg::NewSession { cwd, request_id: None });
    }
}

/// Takes in a key in the popup for a new session.
pub fn handle_new_session_popup_key(app: &mut App, key: KeyEvent, out: &mut Outbox)
    ensures
        (final(app)@, final(out).deep_view()) == old(app)@.on_new_session_key(
            old(out).deep_view(),
            key.code,
        ),
        old(app)@.wf() ==> final(app)@.wf(),
{
    reveal(AppView::on_new_session_key);
    match key.code {
        KeyCode::Esc => {
            app.popup = Popup::Closed;
        },
        KeyCode::Up => {
            app.move_new_session_completion_selection(-1);
        },
        KeyCode::Down => {
            app.move_new_session_completion_selection(1);
        },
        KeyCode::Tab => {
            let _ = app.accept_selected_new_session_completion();
        },
        KeyCode::Enter => {
            request_new_session(app, out);
        },
        KeyCode::Left | KeyCode::Right | KeyCode::Home | KeyCode::End | KeyCode::Backspace
        | KeyCode::Char(_) => {
            edit_path(app, key.code);
            out.complete_path = true;
        },
        _ => {},
    }
}

// ── themes ───────────────────────────────────────────────────────────────────

/// A tool detail with its lines drawn in a theme.
pub open spec fn rethemed_detail(theme: Theme, d: ToolDetailView) -> ToolDetailView {
    match d {
        ToolDetailView::Edit { file, before, after, start_line, .. } => ToolDetailView::Edit {
            file,
            before,
            after,
            start_line,
            cached_lines: diff_rows(theme, before, after, start_line),
        },
        ToolDetailView::WriteFile { path, content, .. } => ToolDetailView::WriteFile {
            path,
            content,
            cached_lines: write_rows(theme, content),
        },
        _ => d,
    }
}

/// A message with its lines drawn in a theme.
pub open spec fn rethemed_entry(theme: Theme) -> spec_fn(ChatEntryView) -> ChatEntryView {
    |e: ChatEntryView|
        match e {
            ChatEntryView::ToolCall { tool_call_id, name, is_error, detail } =>
                ChatEntryView::ToolCall {
                tool_call_id,
                name,
                is_error,
                detail: rethemed_detail(theme, detail),
            },
            _ => e,
        }
}

impl AppView {
    /// With nothing left that was drawn in another theme.
    pub open spec fn rethemed(self) -> AppView {
        AppView {
            card_cache: CardCacheView::empty(),
            streaming_cache: StreamingCacheView::empty(),
            streaming_thinking_cache: StreamingCacheView::empty(),
            messages: self.messages.map_values(rethemed_entry(self.theme)),
            ..self
        }
    }

    /// The theme that a row of the theme popup stands for.  Without a filter
    /// rows are themes, also behind the last.
    pub open spec fn theme_at(self, row: int) -> Option<int> {
        let shown = shown_themes(self.themes, self.theme_filter);
        if lowercase(self.theme_filter).len() == 0 {
            Some(row)
        } else if row < shown.len() {
            Some(shown[row])
        } else {
            None
        }
    }

    /// How many rows the theme popup has.
    pub open spec fn theme_rows(self) -> nat {
        if lowercase(self.theme_filter).len() == 0 {
            self.themes.len()
        } else {
            shown_themes(self.themes, self.theme_filter).len()
        }
    }

    /// With a theme selected and drawn; behind the last theme the selected one
    /// stays.
    pub open spec fn in_theme(self, idx: int) -> AppView {
        let at = if idx < self.themes.len() {
            idx as usize
        } else {
            self.theme.current
        };
        (AppView {
            theme: Theme { current: at, frame: at, colors: self.themes[at as int].colors },
            ..self
        }).rethemed()
    }

    /// After a key in the theme popup.
    #[verifier::opaque]
    pub open spec fn on_theme_key(self, out: OutboxView, code: KeyCode) -> Turn {
        match code {
            KeyCode::Esc => (AppView { popup: Popup::Closed, ..self }, out),
            KeyCode::Up => (
                AppView { theme_cursor: row_above(self.theme_cursor, 1), ..self },
                out,
            ),
            KeyCode::Down => (
                AppView { theme_cursor: row_below(self.theme_cursor, 1, self.theme_rows()), ..self },
                out,
            ),
            KeyCode::Enter => match self.theme_at(self.theme_cursor as int) {
                Some(idx) => (
                    AppView { popup: Popup::Closed, ..self.in_theme(idx) },
                    out.saving_config(),
                ),
                None => (self, out),
            },
            KeyCode::Backspace => (
                AppView {
                    theme_filter: without_last(self.theme_filter),
                    theme_cursor: 0,
                    ..self
                },
                out,
            ),
            KeyCode::Char(c) => (
                AppView { theme_filter: self.theme_filter.push(c), theme_cursor: 0, ..self },
                out,
            ),
            _ => (self, out),
        }
    }
}

fn retheme_detail(theme: &Theme, detail: &ToolDetail) -> (r: ToolDetail)
    ensures
        r.deep_view() == rethemed_detail(*theme, detail.deep_view()),
{
    match detail {
        ToolDetail::Edit { file, before, after, start_line, .. } => ToolDetail::Edit {
            file: file.clone(),
            before: before.clone(),
            after: after.clone(),
            start_line: *start_line,
            cached_lines: build_diff_lines(theme, before.as_str(), after.as_str(), *start_line),
        },
        ToolDetail::WriteFile { path, content, .. } => ToolDetail::WriteFile {
            path: path.clone(),
            content: content.clone(),
            cached_lines: build_write_lines(theme, content.as_str()),
        },
        _ => detail.clone(),
    }
}

/// Drops what was drawn in another theme, and draws the lines of edits and of
/// new files anew.
pub fn invalidate_theme_caches(app: &mut App)
    ensures
        final(app)@ == old(app)@.rethemed(),
        old(app)@.wf() ==> final(app)@.wf(),
{
    let theme = app.theme;
    let ghost mv = app@.messages;
    let ghost f = rethemed_entry(theme);
    let mut out: Vec<ChatEntry> = Vec::new();
    let mut i: usize = 0;
    while i < app.messages.len()
        invariant
            i <= app.messages@.len(),
            app@ == old(app)@,
            mv == app@.messages,
            theme == app@.theme,
            f == rethemed_entry(theme),
            out.deep_view() == mv.take(i as int).map_values(f),
        decreases app.messages@.len() - i,
    {
        let ghost before = out.deep_view();
        assert(mv[i as int] == app.messages@[i as int].deep_view());
        let entry = match &app.messages[i] {
            ChatEntry::ToolCall { tool_call_id, name, is_error, detail } => ChatEntry::ToolCall {
                tool_call_id: copy_opt(tool_call_id),
                name: name.clone(),
                is_error: *is_error,
                detail: retheme_detail(&theme, detail),
            },
            other => other.clone(),
        };
        assert(entry.deep_view() == f(mv[i as int]));
        out.push(entry);
        assert(out.deep_view() =~= before.push(f(mv[i as int])));
        assert(mv.take(i + 1).map_values(f) =~= mv.take(i as int).map_values(f).push(
            f(mv[i as int]),
        ));
        i = i + 1;
    }
    proof {
        lemma_take_all(mv);
    }
    app.card_cache.invalidate();
    app.streaming_cache.invalidate();
    app.streaming_thinking_cache.invalidate();
    app.messages = out;
}

fn pick_theme(app: &mut App, idx: usize)
    requires
        old(app)@.wf(),
    ensures
        final(app)@ == old(app)@.in_theme(idx as int),
        final(app)@.wf(),
{
    app.theme.set_by_index(&app.themes, idx);
    app.theme.begin_frame(&app.themes);
    invalidate_theme_caches(app);
}

/// Takes in a key in the theme popup.
pub fn handle_theme_popup_key(app: &mut App, key: KeyEvent, out: &mut Outbox)
    requires
        old(app)@.wf(),
    ensures
        (final(app)@, final(out).deep_view()) == old(app)@.on_theme_key(
            old(out).deep_view(),
            key.code,
        ),
        final(app)@.wf(),
{
    reveal(AppView::on_theme_key);
    match key.code {
        KeyCode::Esc => {
            app.popup = Popup::Closed;
        },
        KeyCode::Up => {
            app.theme_cursor = app.theme_cursor.saturating_sub(1);
        },
        KeyCode::Down => {
            let all = to_lower(app.theme_filter.as_str()).as_str().unicode_len() == 0;
            let shown = filtered_themes(&app.themes, app.theme_filter.as_str());
            assert(numbers(shown@).len() == shown@.len());
            let rows: usize = if all {
                app.themes.len()
            } else {
                shown.len()
            };
            app.theme_cursor = move_down(app.theme_cursor, 1, rows);
        },
        KeyCode::Enter => {
            let all = to_lower(app.theme_filter.as_str()).as_str().unicode_len() == 0;
            let shown = filtered_themes(&app.themes, app.theme_filter.as_str());
            assert(numbers(shown@).len() == shown@.len());
            if all {
                let idx = app.theme_cursor;
                pick_theme(app, idx);
                app.popup = Popup::Closed;
                out.save_config = true;
            } else if app.theme_cursor < shown.len() {
                let idx = shown[app.theme_cursor];
                assert(numbers(shown@)[app.theme_cursor as int] == idx);
                pick_theme(app, idx);
                app.popup = Popup::Closed;
                out.save_config = true;
            }
        },
        KeyCode::Backspace => {
            drop_last_char(&mut app.theme_filter);
            app.theme_cursor = 0;
        },
        KeyCode::Char(c) => {
            push_char(&mut app.theme_filter, c);
            app.theme_cursor = 0;
        },
        _ => {},
    }
}

// ── models ───────────────────────────────────────────────────────────────────

impl AppView {
    /// The model that the user chose for the current mode.
    pub open spec fn chosen_model(self) -> Option<(Seq<char>, Seq<char>)> {
        if self.mode_model_preferences.contains_key(self.agent_mode) {
            Some(self.mode_model_preferences[self.agent_mode])
        } else {
            None
        }
    }

    /// The entry to switch to: that of the model chosen for the mode, where a
    /// session runs another.
    pub open spec fn model_to_apply(self) -> Option<ModelEntryView> {
        match (self.session_id, self.chosen_model()) {
            (Some(_), Some((provider, model))) => if self.current_provider == Some(provider)
                && self.current_model == Some(model) {
                None
            } else {
                first(self.models, is_local_model(provider, model))
            },
            _ => None,
        }
    }

    /// With the session switched to the model chosen for the mode.
    #[verifier::opaque]
    pub open spec fn preferred_applied(self, out: OutboxView) -> Turn {
        match self.model_to_apply() {
            Some(e) => (
                (AppView {
                    current_provider: Some(e.provider),
                    current_model: Some(e.model),
                    ..self
                }).with_status(
                    LogLevel::Info,
                    "model"@,
                    "mode: "@ + self.agent_mode + (" → model: "@ + e.label),
                ),
                out.sent(
                    ClientMsgView::SetSessionModel {
                        session_id: self.session_id->0,
                        model_id: e.id,
                        node_id: e.node_id,
                    },
                ),
            ),
            None => (self, out),
        }
    }

    /// With a model in use: it is the choice for the mode, its effort is the
    /// automatic one, and both are remembered for the session and the mode.
    #[verifier::opaque]
    pub open spec fn model_chosen(self, out: OutboxView, m: ModelEntryView) -> Turn {
        let asked = match self.session_id {
            Some(session_id) => out.sent(
                ClientMsgView::SetSessionModel { session_id, model_id: m.id, node_id: m.node_id },
            ),
            None => out,
        };
        (
            (AppView {
                popup: Popup::Closed,
                ..(AppView {
                    current_model: Some(m.model),
                    current_provider: Some(m.provider),
                    mode_model_preferences: self.mode_model_preferences.insert(
                        self.agent_mode,
                        (m.provider, m.model),
                    ),
                    reasoning_effort: None,
                    ..self
                }).mode_cached()
            }).with_status(LogLevel::Info, "model"@, "model: "@ + m.label),
            (if self.reasoning_effort is Some {
                asked.sent(ClientMsgView::SetReasoningEffort { reasoning_effort: "auto"@ })
            } else {
                asked
            }).saving_config().saving_cache(),
        )
    }

    /// After a key in the model popup.
    #[verifier::opaque]
    pub open spec fn on_model_key(self, out: OutboxView, code: KeyCode) -> Turn {
        match code {
            KeyCode::Esc => (AppView { popup: Popup::Closed, ..self }, out),
            KeyCode::Up => (
                AppView { model_cursor: row_above(self.model_cursor, 1), ..self },
                out,
            ),
            KeyCode::Down => (
                AppView {
                    model_cursor: row_below(self.model_cursor, 1, self.shown_models().len()),
                    ..self
                },
                out,
            ),
            KeyCode::Enter => if self.model_cursor < self.shown_models().len() {
                self.model_chosen(out, self.shown_models()[self.model_cursor as int])
            } else {
                (self, out)
            },
            KeyCode::Backspace => (
                AppView {
                    model_filter: without_last(self.model_filter),
                    model_cursor: 0,
                    ..self
                },
                out,
            ),
            KeyCode::Char(c) => (
                AppView { model_filter: self.model_filter.push(c), model_cursor: 0, ..self },
                out,
            ),
            _ => (self, out),
        }
    }
}

impl App {
    fn entry_to_apply(&self) -> (r: Option<ModelEntry>)
        ensures
            r.deep_view() == self@.model_to_apply(),
    {
        if self.session_id.is_none() {
            return None;
        }
        match self.get_mode_model_preference(self.agent_mode.as_str()) {
            Some((provider, model)) => {
                if opt_is(&self.current_provider, provider.as_str()) && opt_is(
                    &self.current_model,
                    model.as_str(),
                ) {
                    None
                } else {
                    let ghost p = is_local_model(provider@, model@);
                    match find_local_model(&self.models, provider.as_str(), model.as_str()) {
                        Some(k) => {
                            proof {
                                lemma_first_index(self@.models, p);
                                assert(self@.models[k as int]
                                    == self.models@[k as int].deep_view());
                            }
                            Some(self.models[k].clone())
                        },
                        None => {
                            proof {
                                lemma_first_index(self@.models, p);
                            }
                            None
                        },
                    }
                }
            },
            None => None,
        }
    }
}

/// Switches the session to the model that the user chose for the current mode,
/// where it runs another.
pub fn apply_mode_model_if_preferred(app: &mut App, out: &mut Outbox)
    ensures
        (final(app)@, final(out).deep_view()) == old(app)@.preferred_applied(
            old(out).deep_view(),
        ),
        old(app)@.wf() ==> final(app)@.wf(),
{
    reveal(AppView::preferred_applied);
    if let Some(entry) = app.entry_to_apply() {
        let session_id = match &app.session_id {
            Some(s) => s.clone(),
            None => String::new(),
        };
        let said = cat2(
            cat2("mode: ", app.agent_mode.as_str()).as_str(),
            cat2(" → model: ", entry.label.as_str()).as_str(),
        );
        app.current_provider = Some(entry.provider);
        app.current_model = Some(entry.model);
        app.set_status(LogLevel::Info, "model", said.as_str());
        out.send(
            ClientMsg::SetSessionModel { session_id, model_id: entry.id, node_id: entry.node_id },
        );
    }
}

fn choose_model(app: &mut App, model: ModelEntry, out: &mut Outbox)
    ensures
        (final(app)@, final(out).deep_view()) == old(app)@.model_chosen(
            old(out).deep_view(),
            model.deep_view(),
        ),
        old(app)@.wf() ==> final(app)@.wf(),
{
    reveal(AppView::model_chosen);
    if let Some(sid) = &app.session_id {
        out.send(
            ClientMsg::SetSessionModel {
                session_id: sid.clone(),
                model_id: model.id.clone(),
                node_id: copy_opt(&model.node_id),
            },
        );
    }
    app.current_model = Some(model.model.clone());
    app.current_provider = Some(model.provider.clone());
    let mode = app.agent_mode.clone();
    app.set_mode_model_preference(mode.as_str(), model.provider.as_str(), model.model.as_str());
    if app.reasoning_effort.is_some() {
        app.reasoning_effort = None;
        out.send(ClientMsg::SetReasoningEffort { reasoning_effort: owned("auto") });
    }
    app.cache_session_mode_state();
    app.popup = Popup::Closed;
    let said = cat2("model: ", model.label.as_str());
    app.set_status(LogLevel::Info, "model", said.as_str());
    out.save_config = true;
    out.save_cache = true;
}

/// Takes in a key in the model popup.
pub fn handle_model_popup_key(app: &mut App, key: KeyEvent, out: &mut Outbox)
    ensures
        (final(app)@, final(out).deep_view()) == old(app)@.on_model_key(
            old(out).deep_view(),
            key.code,
        ),
        old(app)@.wf() ==> final(app)@.wf(),
{
    reveal(AppView::on_model_key);
    match key.code {
        KeyCode::Esc => {
            app.popup = Popup::Closed;
        },
        KeyCode::Up => {
            app.model_cursor = app.model_cursor.saturating_sub(1);
        },
        KeyCode::Down => {
            let rows: usize = app.filtered_models().len();
            app.model_cursor = move_down(app.model_cursor, 1, rows);
        },
        KeyCode::Enter => {
            let k = app.model_cursor;
            let shown = app.filtered_models();
            if k < shown.len() {
                assert(shown.deep_view()[k as int] == shown@[k as int].deep_view());
                let model = shown[k].clone();
                choose_model(app, model, out);
            }
        },
        KeyCode::Backspace => {
            drop_last_char(&mut app.model_filter);
            app.model_cursor = 0;
        },
        KeyCode::Char(c) => {
            push_char(&mut app.model_filter, c);
            app.model_cursor = 0;
        },
        _ => {},
    }
}

// ── chords ───────────────────────────────────────────────────────────────────

impl AppView {
    /// With the text of a turn in the input, where the input is blank.
    pub open spec fn turn_text_recalled(self, text: Seq<char>) -> AppView {
        if blank(self.input) && text.len() > 0 {
            AppView { input: text, input_cursor: bytes(text) as usize, input_scroll: 0, ..self }
        } else {
            self
        }
    }

    /// After an undo is asked for: it is refused while the agent works or
    /// while another is under way, else the last turn in effect is undone.
    #[verifier::opaque]
    pub open spec fn undo_asked(self, out: OutboxView) -> Turn {
        if self.conn != ConnState::Connected {
            (self.refused(), out)
        } else if self.turn_active() {
            (
                self.with_status(
                    LogLevel::Warn,
                    "session"@,
                    "cannot undo while agent is active"@,
                ),
                out,
            )
        } else if self.session_op_pending() || self.undo_pending() {
            (self.with_status(LogLevel::Warn, "session"@, "undo already pending"@), out)
        } else {
            match self.undo_target() {
                Some(turn) => (
                    (AppView {
                        activity: ActivityStateView::SessionOp(SessionOp::Undo),
                        ..self.turn_text_recalled(turn.text).undo_pushed(turn)
                    }).with_status(LogLevel::Info, "session"@, "undoing..."@),
                    out.sent(ClientMsgView::Undo { message_id: turn.message_id }),
                ),
                None => (
                    self.with_status(LogLevel::Warn, "session"@, "nothing to undo"@),
                    out,
                ),
            }
        }
    }

    /// After a redo is asked for.
    #[verifier::opaque]
    pub open spec fn redo_asked(self, out: OutboxView) -> Turn {
        if self.conn != ConnState::Connected {
            (self.refused(), out)
        } else if self.turn_active() {
            (
                self.with_status(
                    LogLevel::Warn,
                    "session"@,
                    "cannot redo while agent is active"@,
                ),
                out,
            )
        } else if self.session_op_pending() || self.undo_pending() {
            (self.with_status(LogLevel::Warn, "session"@, "undo already pending"@), out)
        } else if self.undo_stack().len() > 0 {
            (
                (AppView {
                    activity: ActivityStateView::SessionOp(SessionOp::Redo),
                    ..self
                }).with_status(LogLevel::Info, "session"@, "redoing..."@),
                out.sent(ClientMsgView::Redo),
            )
        } else {
            (self.with_status(LogLevel::Warn, "session"@, "nothing to redo"@), out)
        }
    }

    /// With a popup open that needs no connection.
    #[verifier::opaque]
    pub open spec fn popup_opened(self, c: char) -> AppView {
        if c == 'm' {
            AppView {
                popup: Popup::ModelSelect,
                model_cursor: 0,
                model_filter: Seq::empty(),
                ..self
            }
        } else if c == 't' {
            AppView {
                popup: Popup::ThemeSelect,
                theme_cursor: 0,
                theme_filter: Seq::empty(),
                ..self
            }
        } else if c == 'l' {
            AppView {
                popup: Popup::Log,
                log_cursor: monus(self.shown_logs().len() as int, 1) as usize,
                log_filter: Seq::empty(),
                ..self
            }
        } else {
            AppView { popup: Popup::Help, help_scroll: 0, ..self }
        }
    }

    /// After the second key of a chord.
    #[verifier::opaque]
    pub open spec fn on_chord(self, out: OutboxView, code: KeyCode) -> Turn {
        match code {
            KeyCode::Char(c) => if c == 'm' || c == 't' || c == 'l' || c == '?' {
                (self.popup_opened(c), out)
            } else if c == 'n' {
                self.asked_for_new_session(out)
            } else if c == 'q' {
                (AppView { should_quit: true, ..self }, out)
            } else if c == 'e' {
                (
                    self.with_status(
                        LogLevel::Warn,
                        "editor"@,
                        "external editor unavailable here"@,
                    ),
                    out,
                )
            } else if c == 's' {
                if self.conn == ConnState::Connected {
                    (
                        AppView {
                            popup: Popup::SessionSelect,
                            session_cursor: 0,
                            session_filter: Seq::empty(),
                            ..self
                        },
                        out.sent(ClientMsgView::ListSessions),
                    )
                } else {
                    (self.refused(), out)
                }
            } else if c == 'u' {
                self.undo_asked(out)
            } else if c == 'r' {
                self.redo_asked(out)
            } else {
                (self.with_status(LogLevel::Debug, "input"@, "unknown chord"@), out)
            },
            _ => (self.with_status(LogLevel::Debug, "input"@, "unknown chord"@), out),
        }
    }
}

fn ask_undo(app: &mut App, out: &mut Outbox)
    ensures
        (final(app)@, final(out).deep_view()) == old(app)@.undo_asked(old(out).deep_view()),
        old(app)@.wf() ==> final(app)@.wf(),
{
    reveal(AppView::undo_asked);
    if !can_send_server_commands(app) {
        return ;
    }
    if app.is_turn_active() {
        app.set_status(LogLevel::Warn, "session", "cannot undo while agent is active");
        return ;
    }
    if app.has_pending_session_op() || app.has_pending_undo() {
        app.set_status(LogLevel::Warn, "session", "undo already pending");
        return ;
    }
    let target = match app.current_undo_target() {
        Some(turn) => Some(turn.clone()),
        None => None,
    };
    match target {
        Some(turn) => {
            if is_blank(app.input.as_str()) && turn.text.as_str().unicode_len() > 0 {
                app.input = turn.text.clone();
                app.input_cursor = byte_len(app.input.as_str());
                app.input_scroll = 0;
                proof {
                    let s = app@.input;
                    assert(s.take(s.len() as int) =~= s);
                    lemma_char_pos_of_prefix(s, s.len() as int);
                }
            }
            app.push_pending_undo(&turn);
            app.activity = ActivityState::SessionOp(SessionOp::Undo);
            app.set_status(LogLevel::Info, "session", "undoing...");
            out.send(ClientMsg::Undo { message_id: turn.message_id });
        },
        None => {
            app.set_status(LogLevel::Warn, "session", "nothing to undo");
        },
    }
}

fn ask_redo(app: &mut App, out: &mut Outbox)
    ensures
        (final(app)@, final(out).deep_view()) == old(app)@.redo_asked(old(out).deep_view()),
        old(app)@.wf() ==> final(app)@.wf(),
{
    reveal(AppView::redo_asked);
    if !can_send_server_commands(app) {
        return ;
    }
    if app.is_turn_active() {
        app.set_status(LogLevel::Warn, "session", "cannot redo while agent is active");
    } else if app.has_pending_session_op() || app.has_pending_undo() {
        app.set_status(LogLevel::Warn, "session", "undo already pending");
    } else if app.can_redo() {
        app.activity = ActivityState::SessionOp(SessionOp::Redo);
        app.set_status(LogLevel::Info, "session", "redoing...");
        out.send(ClientMsg::Redo);
    } else {
        app.set_status(LogLevel::Warn, "session", "nothing to redo");
    }
}

fn open_popup(app: &mut App, c: char)
    ensures
        final(app)@ == old(app)@.popup_opened(c),
        old(app)@.wf() ==> final(app)@.wf(),
{
    reveal(AppView::popup_opened);
    if c == 'm' {
        app.popup = Popup::ModelSelect;
        app.model_cursor = 0;
        app.model_filter = String::new();
    } else if c == 't' {
        app.popup = Popup::ThemeSelect;
        app.theme_cursor = 0;
        app.theme_filter = String::new();
    } else if c == 'l' {
        let rows: usize = app.filtered_logs().len();
        app.popup = Popup::Log;
        app.log_cursor = rows.saturating_sub(1);
        app.log_filter = String::new();
    } else {
        app.popup = Popup::Help;
        app.help_scroll = 0;
    }
}

/// Takes in the second key of a chord, on any screen.
pub fn handle_chord(app: &mut App, key: KeyEvent, out: &mut Outbox)
    ensures
        (final(app)@, final(out).deep_view()) == old(app)@.on_chord(
            old(out).deep_view(),
            key.code,
        ),
        old(app)@.wf() ==> final(app)@.wf(),
{
    reveal(AppView::on_chord);
    match key.code {
        KeyCode::Char(c) => {
            if c == 'm' || c == 't' || c == 'l' || c == '?' {
                open_popup(app, c);
            } else if c == 'n' {
                ask_for_new_session(app, out);
            } else if c == 'q' {
                app.should_quit = true;
            } else if c == 'e' {
                app.set_status(LogLevel::Warn, "editor", "external editor unavailable here");
            } else if c == 's' {
                if can_send_server_commands(app) {
                    app.popup = Popup::SessionSelect;
                    app.session_cursor = 0;
                    app.session_filter = String::new();
                    out.send(ClientMsg::ListSessions);
                }
            } else if c == 'u' {
                ask_undo(app, out);
            } else if c == 'r' {
                ask_redo(app, out);
            } else {
                app.set_status(LogLevel::Debug, "input", "unknown chord");
            }
        },
        _ => {
            app.set_status(LogLevel::Debug, "input", "unknown chord");
        },
    }
}

// ── the conversation ─────────────────────────────────────────────────────────

/// The parts of a prompt: its text, and a link for each mentioned path.
pub open spec fn prompt_of(input: Seq<char>) -> Seq<PromptBlockView> {
    seq![PromptBlockView::Text { text: input }] + links_from(
        input,
        0,
        Seq::empty(),
    ).map_values(link_block())
}

/// A link to a path.
pub open spec fn link_block() -> spec_fn(Seq<char>) -> PromptBlockView {
    |path: Seq<char>| PromptBlockView::ResourceLink { name: path, uri: path }
}

/// With the file index asked for, where a mention needs it.
pub open spec fn index_asked(turn: Turn) -> Turn {
    (
        turn.0.index_requested(),
        if turn.0.needs_index() {
            turn.1.sent(ClientMsgView::GetFileIndex)
        } else {
            turn.1
        },
    )
}

impl AppView {
    /// After Esc in a conversation: it closes a mention; the first asks for a
    /// confirmation to stop the agent, the second stops it.
    #[verifier::opaque]
    pub open spec fn on_chat_esc(self, out: OutboxView) -> Turn {
        if self.mention_state is Some {
            ((AppView { mention_state: None, ..self }).without_confirm(), out)
        } else if self.turn_active() {
            if self.confirming() {
                (
                    self.without_confirm().with_status(
                        LogLevel::Warn,
                        "activity"@,
                        "stopping..."@,
                    ),
                    out.sent(ClientMsgView::CancelSession),
                )
            } else {
                (self.armed(), out)
            }
        } else {
            (self.without_confirm(), out)
        }
    }

    /// After Enter in a conversation: it takes the selected file into the
    /// input, or sends the input.
    #[verifier::opaque]
    pub open spec fn on_chat_enter(self, out: OutboxView) -> Turn {
        if self.can_accept_mention() {
            index_asked((self.mention_accepted(), out))
        } else if self.input.len() == 0 || self.input_blocked() {
            (self, out)
        } else if self.conn != ConnState::Connected {
            (self.refused(), out)
        } else {
            (self.input_taken(), out.sent(ClientMsgView::Prompt { prompt: prompt_of(self.input) }))
        }
    }

    /// After an arrow up or down in a conversation.
    #[verifier::opaque]
    pub open spec fn on_chat_row(self, up: bool) -> AppView {
        if self.mention_state is Some {
            self.mention_moved(
                if up {
                    -1
                } else {
                    1
                },
            )
        } else if up {
            self.row_up(2)
        } else {
            self.row_down(2)
        }
    }

    /// After a key that edits the input of a conversation or moves in it.
    #[verifier::opaque]
    pub open spec fn on_edit_key(self, code: KeyCode) -> AppView {
        match code {
            KeyCode::Backspace => self.char_erased(),
            KeyCode::Delete => self.char_deleted(),
            KeyCode::Left => self.cursor_left(),
            KeyCode::Right => self.cursor_right(),
            KeyCode::Home => self.edited(self.input, 0),
            _ => self,
        }
    }

    /// With room for at least one cell in a row of the input.
    pub open spec fn with_some_width(self) -> AppView {
        AppView {
            input_line_width: if self.input_line_width == 0 {
                1
            } else {
                self.input_line_width
            },
            ..self
        }
    }

    /// After a key in a conversation, with room in the rows of the input.
    /// While the input is blocked nothing is typed and the cursor stays.
    #[verifier::opaque]
    pub open spec fn chat_key(self, out: OutboxView, code: KeyCode) -> Turn {
        match code {
            KeyCode::Esc => self.on_chat_esc(out),
            KeyCode::Enter => self.on_chat_enter(out),
            KeyCode::PageUp => (
                AppView {
                    scroll_offset: least(self.scroll_offset + 10, u16::MAX as int) as u16,
                    ..self
                },
                out,
            ),
            KeyCode::PageDown => (
                AppView { scroll_offset: monus(self.scroll_offset as int, 10) as u16, ..self },
                out,
            ),
            KeyCode::End => if self.input_blocked() || self.input.len() == 0 {
                (AppView { scroll_offset: 0, ..self }, out)
            } else {
                (self.edited(self.input, bytes(self.input) as int), out)
            },
            _ => if self.input_blocked() {
                (self, out)
            } else {
                match code {
                    KeyCode::Tab => if self.can_accept_mention() {
                        index_asked((self.mention_accepted(), out))
                    } else {
                        (self, out)
                    },
                    KeyCode::Char(c) => index_asked((self.char_inserted(c), out)),
                    KeyCode::Up => (self.on_chat_row(true), out),
                    KeyCode::Down => (self.on_chat_row(false), out),
                    _ => (self.on_edit_key(code), out),
                }
            },
        }
    }

    /// After a key in a conversation.
    pub open spec fn on_chat_key(self, out: OutboxView, code: KeyCode) -> Turn {
        self.with_some_width().chat_key(out, code)
    }
}

fn ask_index(app: &mut App, out: &mut Outbox)
    ensures
        (final(app)@, final(out).deep_view()) == index_asked((old(app)@, old(out).deep_view())),
        old(app)@.wf() ==> final(app)@.wf(),
{
    if let Some(msg) = app.request_file_index_if_needed() {
        out.send(msg);
    }
}

fn chat_esc(app: &mut App, out: &mut Outbox)
    ensures
        (final(app)@, final(out).deep_view()) == old(app)@.on_chat_esc(old(out).deep_view()),
        old(app)@.wf() ==> final(app)@.wf(),
{
    reveal(AppView::on_chat_esc);
    if app.mention_state.is_some() {
        app.mention_state = None;
        app.clear_cancel_confirm();
    } else if app.has_cancellable_activity() {
        if app.cancel_confirm_active() {
            app.clear_cancel_confirm();
            app.set_status(LogLevel::Warn, "activity", "stopping...");
            out.send(ClientMsg::CancelSession);
        } else {
            app.arm_cancel_confirm();
        }
    } else {
        app.clear_cancel_confirm();
    }
}

fn prompt_blocks(app: &App) -> (r: Vec<PromptBlock>)
    ensures
        r.deep_view() == prompt_of(app@.input),
{
    let (text, links) = app.build_prompt_text_and_links(app.input.as_str());
    let ghost lv = links.deep_view();
    let ghost f = link_block();
    let mut prompt: Vec<PromptBlock> = Vec::new();
    prompt.push(PromptBlock::Text { text });
    assert(prompt.deep_view() =~= seq![PromptBlockView::Text { text: app@.input }]
        + lv.take(0).map_values(f));
    let mut i: usize = 0;
    while i < links.len()
        invariant
            i <= links@.len(),
            lv == links.deep_view(),
            f == link_block(),
            prompt.deep_view() == seq![PromptBlockView::Text { text: app@.input }] + lv.take(
                i as int,
            ).map_values(f),
        decreases links@.len() - i,
    {
        let ghost before = prompt.deep_view();
        assert(lv[i as int] == links@[i as int]@);
        prompt.push(
            PromptBlock::ResourceLink { name: links[i].clone(), uri: links[i].clone() },
        );
        assert(prompt.deep_view() =~= before.push(f(lv[i as int])));
        assert(lv.take(i + 1).map_values(f) =~= lv.take(i as int).map_values(f).push(
            f(lv[i as int]),
        ));
        i = i + 1;
    }
    proof {
        lemma_take_all(lv);
    }
    prompt
}

fn chat_enter(app: &mut App, out: &mut Outbox)
    requires
        old(app)@.wf(),
    ensures
        (final(app)@, final(out).deep_view()) == old(app)@.on_chat_enter(old(out).deep_view()),
        final(app)@.wf(),
{
    reveal(AppView::on_chat_enter);
    if app.accept_selected_mention() {
        ask_index(app, out);
        return ;
    }
    if app.input.as_str().unicode_len() == 0 {
        return ;
    }
    if app.input_blocked_by_activity() || !can_send_server_commands(app) {
        return ;
    }
    let prompt = prompt_blocks(app);
    let _ = app.take_input();
    out.send(ClientMsg::Prompt { prompt });
}

fn chat_row(app: &mut App, up: bool)
    requires
        old(app)@.wf(),
    ensures
        final(app)@ == old(app)@.on_chat_row(up),
        final(app)@.wf(),
{
    reveal(AppView::on_chat_row);
    if app.mention_state.is_some() {
        app.move_mention_selection(
            if up {
                -1
            } else {
                1
            },
        );
    } else if up {
        app.input_up_visual(PROMPT_WIDTH);
    } else {
        app.input_down_visual(PROMPT_WIDTH);
    }
}

fn edit_input(app: &mut App, code: KeyCode)
    requires
        old(app)@.wf(),
    ensures
        final(app)@ == old(app)@.on_edit_key(code),
        final(app)@.wf(),
{
    reveal(AppView::on_edit_key);
    match code {
        KeyCode::Backspace => {
            app.input_backspace();
        },
        KeyCode::Delete => {
            app.input_delete();
        },
        KeyCode::Left => {
            app.input_left();
        },
        KeyCode::Right => {
            app.input_right();
        },
        KeyCode::Home => {
            app.input_home();
        },
        _ => {},
    }
}

fn chat_tab(app: &mut App, out: &mut Outbox)
    requires
        old(app)@.wf(),
    ensures
        (final(app)@, final(out).deep_view()) == (if old(app)@.can_accept_mention() {
            index_asked((old(app)@.mention_accepted(), old(out).deep_view()))
        } else {
            (old(app)@, old(out).deep_view())
        }),
        final(app)@.wf(),
{
    if app.accept_selected_mention() {
        ask_index(app, out);
    }
}

fn chat_char(app: &mut App, c: char, out: &mut Outbox)
    requires
        old(app)@.wf(),
    ensures
        (final(app)@, final(out).deep_view()) == index_asked(
            (old(app)@.char_inserted(c), old(out).deep_view()),
        ),
        final(app)@.wf(),
{
    app.input_insert(c);
    ask_index(app, out);
}

/// Takes in a key in a conversation.
pub fn handle_chat_key(app: &mut App, key: KeyEvent, out: &mut Outbox)
    requires
        old(app)@.wf(),
    ensures
        (final(app)@, final(out).deep_view()) == old(app)@.on_chat_key(
            old(out).deep_view(),
            key.code,
        ),
        final(app)@.wf(),
{
    reveal(AppView::chat_key);
    if app.input_line_width == 0 {
        app.input_line_width = 1;
    }
    let blocked = app.input_blocked_by_activity();
    match key.code {
        KeyCode::Esc => {
            chat_esc(app, out);
        },
        KeyCode::Enter => {
            chat_enter(app, out);
        },
        KeyCode::PageUp => {
            app.scroll_offset = app.scroll_offset.saturating_add(10);
        },
        KeyCode::PageDown => {
            app.scroll_offset = app.scroll_offset.saturating_sub(10);
        },
        KeyCode::End => {
            if blocked || app.input.as_str().unicode_len() == 0 {
                app.scroll_offset = 0;
            } else {
                app.input_end();
            }
        },
        KeyCode::Tab => {
            if !blocked {
                chat_tab(app, out);
            }
        },
        KeyCode::Char(c) => {
            if !blocked {
                chat_char(app, c, out);
            }
        },
        KeyCode::Up => {
            if !blocked {
                chat_row(app, true);
            }
        },
        KeyCode::Down => {
            if !blocked {
                chat_row(app, false);
            }
        },
        _ => {
            if !blocked {
                edit_input(app, key.code);
            }
        },
    }
}

// ── every key ────────────────────────────────────────────────────────────────

impl AppView {
    /// With the next mode.  What is in use is remembered for the session and
    /// the mode that is left, and the model as the choice for that mode.
    #[verifier::opaque]
    pub open spec fn mode_left(self) -> AppView {
        let cached = self.mode_cached();
        AppView {
            agent_mode: mode_after(self.agent_mode),
            mode_model_preferences: match (cached.current_provider, cached.current_model) {
                (Some(provider), Some(model)) => cached.mode_model_preferences.insert(
                    cached.agent_mode,
                    (provider, model),
                ),
                _ => cached.mode_model_preferences,
            },
            ..cached
        }
    }

    /// Something is remembered for the session and the mode.
    pub open spec fn mode_known(self) -> bool {
        let sid = match self.session_id {
            Some(sid) => sid,
            None => Seq::empty(),
        };
        cache_get(self.session_cache, sid, self.agent_mode) is Some
    }

    /// With what was remembered for the mode, or the model that was chosen for
    /// it.
    #[verifier::opaque]
    pub open spec fn mode_entered(self, out: OutboxView) -> Turn {
        let (restored, msgs) = self.mode_restored();
        if restored.mode_known() {
            (restored, out.sent_all(msgs))
        } else {
            restored.preferred_applied(out.sent_all(msgs))
        }
    }

    /// In the next mode, where messages can be sent.
    #[verifier::opaque]
    pub open spec fn mode_switched(self, out: OutboxView) -> Turn {
        if self.conn != ConnState::Connected {
            (self.refused(), out)
        } else {
            let left = self.mode_left();
            let (entered, sent) = left.mode_entered(
                out.sent(ClientMsgView::SetAgentMode { mode: left.agent_mode }),
            );
            (entered, sent.saving_config().saving_cache())
        }
    }

    /// After a key in the help popup.
    #[verifier::opaque]
    pub open spec fn on_help_key(self, code: KeyCode) -> AppView {
        match code {
            KeyCode::Esc => AppView { popup: Popup::Closed, ..self },
            KeyCode::Up => AppView { help_scroll: row_above(self.help_scroll, 1), ..self },
            KeyCode::Down => AppView {
                help_scroll: least(self.help_scroll + 1, usize::MAX as int) as usize,
                ..self
            },
            _ => self,
        }
    }

    /// After Ctrl+C: it clears the input, or ends the program where there is
    /// none.
    pub open spec fn interrupted(self) -> AppView {
        if self.input.len() > 0 {
            AppView { input: Seq::empty(), input_cursor: 0, input_scroll: 0, ..self }
        } else {
            AppView { should_quit: true, ..self }
        }
    }

    /// With the next effort level, which is sent and remembered.
    pub open spec fn effort_changed(self, out: OutboxView) -> Turn {
        let next = self.effort_cycled();
        (
            next.with_status(
                LogLevel::Info,
                "model"@,
                "thinking: "@ + effort_name(next.reasoning_effort),
            ),
            out.sent(
                ClientMsgView::SetReasoningEffort {
                    reasoning_effort: effort_name(next.reasoning_effort),
                },
            ).saving_cache(),
        )
    }

    /// After the key behind Ctrl+X, and what it asks for.
    #[verifier::opaque]
    pub open spec fn chord_ended(self, out: OutboxView, code: KeyCode) -> (
        AppView,
        OutboxView,
        AppAction,
    ) {
        let ready = (AppView { chord: false, ..self }).with_status(
            LogLevel::Debug,
            "input"@,
            "ready"@,
        );
        if code == KeyCode::Char('e') {
            if ready.screen != Screen::Chat {
                (
                    ready.with_status(
                        LogLevel::Warn,
                        "editor"@,
                        "external editor is only available in chat"@,
                    ),
                    out,
                    AppAction::Nothing,
                )
            } else {
                (ready, out, AppAction::OpenExternalEditor)
            }
        } else {
            let (next, sent) = ready.on_chord(out, code);
            (next, sent, AppAction::Nothing)
        }
    }

    /// After a key that goes to the popup, or to the screen where none is
    /// open.
    #[verifier::opaque]
    pub open spec fn on_plain_key(self, out: OutboxView, key: KeyEvent) -> Turn {
        match self.popup {
            Popup::ModelSelect => self.on_model_key(out, key.code),
            Popup::SessionSelect => self.on_session_popup_key(out, key),
            Popup::NewSession => self.on_new_session_key(out, key.code),
            Popup::ThemeSelect => self.on_theme_key(out, key.code),
            Popup::Help => (self.on_help_key(key.code), out),
            Popup::Log => (self.on_log_key(key.code), out),
            Popup::Closed => if key.code == KeyCode::Tab {
                self.mode_switched(out)
            } else {
                match self.screen {
                    Screen::Sessions => self.on_sessions_key(out, key),
                    Screen::Chat => self.on_chat_key(out, key.code),
                }
            },
        }
    }

    /// With a cancellation no longer waiting, where the key is not the one that
    /// would confirm it.
    pub open spec fn settled_for(self, key: KeyEvent) -> AppView {
        if key.code != KeyCode::Esc && self.pending_cancel_confirm_until is Some {
            self.without_confirm().status_refreshed()
        } else {
            self
        }
    }

    /// After a key, and what it asks for: Ctrl+C comes first, then the second
    /// key of a chord, a question, Ctrl+T, Ctrl+X, and the popup or the screen.
    pub open spec fn on_key(self, out: OutboxView, key: KeyEvent) -> (
        AppView,
        OutboxView,
        AppAction,
    ) {
        let s = self.settled_for(key);
        if key.ctrl && key.code == KeyCode::Char('c') {
            (s.interrupted(), out, AppAction::Nothing)
        } else if s.chord {
            s.chord_ended(out, key.code)
        } else if s.elicitation is Some {
            let (next, sent) = s.question_key(out, key.code);
            (next, sent, AppAction::Nothing)
        } else if key.ctrl && key.code == KeyCode::Char('t') {
            let (next, sent) = s.effort_changed(out);
            (next, sent, AppAction::Nothing)
        } else if key.ctrl && key.code == KeyCode::Char('x') {
            (
                (AppView { chord: true, ..s }).with_status(
                    LogLevel::Debug,
                    "input"@,
                    "C-x ..."@,
                ),
                out,
                AppAction::Nothing,
            )
        } else {
            let (next, sent) = s.on_plain_key(out, key);
            (next, sent, AppAction::Nothing)
        }
    }
}

fn mode_is_known(app: &App) -> (r: bool)
    ensures
        r == app@.mode_known(),
{
    let sid = match &app.session_id {
        Some(s) => s.clone(),
        None => String::new(),
    };
    match app.session_cache.get(sid.as_str()) {
        Some(modes) => modes.contains_key(app.agent_mode.as_str()),
        None => false,
    }
}

fn leave_mode(app: &mut App)
    ensures
        final(app)@ == old(app)@.mode_left(),
        old(app)@.wf() ==> final(app)@.wf(),
{
    reveal(AppView::mode_left);
    let next = owned(app.next_mode());
    app.cache_session_mode_state();
    let provider = copy_opt(&app.current_provider);
    let model = copy_opt(&app.current_model);
    match (provider, model) {
        (Some(provider), Some(model)) => {
            let outgoing = app.agent_mode.clone();
            app.set_mode_model_preference(outgoing.as_str(), provider.as_str(), model.as_str());
        },
        _ => {},
    }
    app.agent_mode = next;
}

fn enter_mode(app: &mut App, out: &mut Outbox)
    ensures
        (final(app)@, final(out).deep_view()) == old(app)@.mode_entered(old(out).deep_view()),
        old(app)@.wf() ==> final(app)@.wf(),
{
    reveal(AppView::mode_entered);
    let msgs = app.apply_cached_mode_state();
    out.send_all(msgs);
    if !mode_is_known(app) {
        apply_mode_model_if_preferred(app, out);
    }
}

fn switch_mode(app: &mut App, out: &mut Outbox)
    ensures
        (final(app)@, final(out).deep_view()) == old(app)@.mode_switched(old(out).deep_view()),
        old(app)@.wf() ==> final(app)@.wf(),
{
    reveal(AppView::mode_switched);
    if !can_send_server_commands(app) {
        return ;
    }
    leave_mode(app);
    out.send(ClientMsg::SetAgentMode { mode: app.agent_mode.clone() });
    enter_mode(app, out);
    out.save_config = true;
    out.save_cache = true;
}

fn help_key(app: &mut App, code: KeyCode)
    ensures
        final(app)@ == old(app)@.on_help_key(code),
        old(app)@.wf() ==> final(app)@.wf(),
{
    reveal(AppView::on_help_key);
    match code {
        KeyCode::Esc => {
            app.popup = Popup::Closed;
        },
        KeyCode::Up => {
            app.help_scroll = app.help_scroll.saturating_sub(1);
        },
        KeyCode::Down => {
            app.help_scroll = app.help_scroll.saturating_add(1);
        },
        _ => {},
    }
}

fn end_chord(app: &mut App, key: KeyEvent, out: &mut Outbox) -> (r: AppAction)
    ensures
        (final(app)@, final(out).deep_view(), r) == old(app)@.chord_ended(
            old(out).deep_view(),
            key.code,
        ),
        old(app)@.wf() ==> final(app)@.wf(),
{
    reveal(AppView::chord_ended);
    app.chord = false;
    app.set_status(LogLevel::Debug, "input", "ready");
    if key.code == KeyCode::Char('e') {
        if app.screen != Screen::Chat {
            app.set_status(LogLevel::Warn, "editor", "external editor is only available in chat");
            return AppAction::Nothing;
        }
        return AppAction::OpenExternalEditor;
    }
    handle_chord(app, key, out);
    AppAction::Nothing
}

fn plain_key(app: &mut App, key: KeyEvent, out: &mut Outbox)
    requires
        old(app)@.wf(),
    ensures
        (final(app)@, final(out).deep_view()) == old(app)@.on_plain_key(
            old(out).deep_view(),
            key,
        ),
        final(app)@.wf(),
{
    reveal(AppView::on_plain_key);
    match app.popup {
        Popup::ModelSelect => handle_model_popup_key(app, key, out),
        Popup::SessionSelect => handle_session_popup_key(app, key, out),
        Popup::NewSession => handle_new_session_popup_key(app, key, out),
        Popup::ThemeSelect => handle_theme_popup_key(app, key, out),
        Popup::Help => help_key(app, key.code),
        Popup::Log => handle_log_popup_key(app, key),
        Popup::Closed => {
            if key.code == KeyCode::Tab {
                switch_mode(app, out);
            } else {
                match app.screen {
                    Screen::Sessions => handle_sessions_key(app, key, out),
                    Screen::Chat => handle_chat_key(app, key, out),
                }
            }
        },
    }
}

fn settle_for(app: &mut App, key: KeyEvent)
    ensures
        final(app)@ == old(app)@.settled_for(key),
        old(app)@.wf() ==> final(app)@.wf(),
{
    if key.code != KeyCode::Esc && app.pending_cancel_confirm_until.is_some() {
        app.clear_cancel_confirm();
        app.refresh_transient_status();
    }
}

fn interrupt(app: &mut App)
    ensures
        final(app)@ == old(app)@.interrupted(),
        old(app)@.wf() ==> final(app)@.wf(),
{
    if app.input.as_str().unicode_len() > 0 {
        app.input = String::new();
        app.input_cursor = 0;
        app.input_scroll = 0;
        proof {
            let s = app@.input;
            assert(s.take(0) =~= s);
            lemma_char_pos_of_prefix(s, 0);
        }
    } else {
        app.should_quit = true;
    }
}

fn change_effort(app: &mut App, out: &mut Outbox)
    ensures
        (final(app)@, final(out).deep_view()) == old(app)@.effort_changed(old(out).deep_view()),
        old(app)@.wf() ==> final(app)@.wf(),
{
    let msg = app.cycle_reasoning_effort();
    out.send(msg);
    let label = app.reasoning_effort_label();
    let said = cat2("thinking: ", label.as_str());
    app.set_status(LogLevel::Info, "model", said.as_str());
    out.save_cache = true;
}

/// Takes in a key, and says what it asks of the program around the library.
pub fn handle_key(app: &mut App, key: KeyEvent, out: &mut Outbox) -> (r: AppAction)
    requires
        old(app)@.wf(),
    ensures
        (final(app)@, final(out).deep_view(), r) == old(app)@.on_key(old(out).deep_view(), key),
        final(app)@.wf(),
{
    settle_for(app, key);
    if key.ctrl && key.code == KeyCode::Char('c') {
        interrupt(app);
        return AppAction::Nothing;
    }
    if app.chord {
        return end_chord(app, key, out);
    }
    if app.elicitation.is_some() {
        handle_elicitation_key(app, key, out);
        return AppAction::Nothing;
    }
    if key.ctrl && key.code == KeyCode::Char('t') {
        change_effort(app, out);
        return AppAction::Nothing;
    }
    if key.ctrl && key.code == KeyCode::Char('x') {
        app.chord = true;
        app.set_status(LogLevel::Debug, "input", "C-x ...");
        return AppAction::Nothing;
    }
    plain_key(app, key, out);
    AppAction::Nothing
}

} // verus!
