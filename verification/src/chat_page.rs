//! The page of a conversation, and the whole screen.
use crate::app::{ActivityState, ActivityStateView, App, AppView, Popup, Screen, SessionOp};
use crate::canvas::{
    beyond, fit, fitted, inside, larger, less, line_paint, paint, paint_all, shift, smaller, split,
    split_into, Area, Axis, Bound, Paint, PaintView, PictureView,
};
use crate::header::draw_header;
use crate::highlight::Highlighter;
use crate::input::PROMPT_WIDTH;
use crate::layout::{build_input_visual_layout, layout_of, InputVisualLayout, LayoutView, RowView};
use crate::messages::draw_messages;
use crate::models::effort_name;
use crate::panels::{draw_elicitation_popup, draw_mention_panel};
use crate::popups::{
    draw_help_popup, draw_log_popup, draw_model_popup, draw_new_session_popup, draw_session_popup,
    draw_theme_popup, filter_bounds, help_bounds, new_session_bounds, popup_at,
};
use crate::seqs::{least, monus};
use crate::spinner::{frame_at, spinner, SpinnerKind};
use crate::start_page::draw_start;
use crate::style::{
    push_line, push_span, raw_line, span_of, Line, LineView, Span, SpanView, Style,
};
use crate::symbols::{ARROW_UP, ICON_CONTEXT, ICON_MULTI_SESSION, ICON_TOOLS};
use crate::text::{
    byte_len, bytes, cat2, cat3, char_pos, count_text, decimal, number, owned, repeat,
    split_at_byte,
};
use crate::theme::Theme;
use vstd::prelude::*;

verus! {

// ── the header ───────────────────────────────────────────────────────────────

/// How long something took.
pub open spec fn duration_text(secs: int) -> Seq<char> {
    if secs < 60 {
        decimal(secs as nat) + "s"@
    } else {
        decimal((secs / 60) as nat) + "m"@ + decimal((secs % 60) as nat) + "s"@
    }
}

/// A span, where it is wanted.
pub open spec fn if_wanted(wanted: bool, s: SpanView) -> LineView {
    if wanted {
        seq![s]
    } else {
        Seq::empty()
    }
}

impl AppView {
    /// The first bytes of the id of the session.
    pub open spec fn session_label(self) -> Seq<char> {
        match self.session_id {
            Some(s) => if bytes(s) > 8 {
                s.take(char_pos(s, 8))
            } else {
                s
            },
            None => "???"@,
        }
    }

    /// The model in use.
    pub open spec fn model_label(self) -> Seq<char> {
        match (self.current_provider, self.current_model) {
            (Some(p), Some(m)) => p + "/"@ + m,
            _ => "no model"@,
        }
    }

    /// The share of the context that is used is known.
    pub open spec fn knows_context(self) -> bool {
        self.session_stats.latest_context_tokens is Some
            && self.session_stats.latest_context_tokens->0 > 0 && self.context_limit > 0
    }

    /// The left part of the header: session, mode and status.
    pub open spec fn chat_left(self) -> LineView {
        seq![
            span_of(" "@ + self.session_label(), self.theme.status()),
            span_of(
                " "@ + self.agent_mode + " "@,
                Style::plain().fg(self.theme.mode_color_of(self.agent_mode)).bold(),
            ),
            span_of(" "@ + self.status, self.theme.status()),
        ]
    }

    /// The figures in the header: time, context, tool calls, cost and other
    /// sessions, each where there is something to say.  `percent` is the share
    /// of the context that is used.
    #[verifier::opaque]
    pub open spec fn chat_figures(self, percent: u32) -> LineView {
        let theme = self.theme;
        let others = self.other_active_sessions().len();
        if_wanted(
            self.llm_elapsed() is Some,
            span_of(
                " "@ + duration_text(self.llm_elapsed()->0 as int / 1_000_000_000) + " "@,
                theme.status(),
            ),
        ) + if_wanted(
            self.knows_context(),
            span_of(
                " "@ + ICON_CONTEXT@ + " "@ + decimal(percent as nat) + "% "@,
                theme.status(),
            ),
        ) + if_wanted(
            self.session_stats.total_tool_calls > 0,
            span_of(
                " "@ + ICON_TOOLS@ + " "@ + decimal(self.session_stats.total_tool_calls as nat)
                    + " "@,
                theme.status(),
            ),
        ) + if_wanted(
            self.cumulative_cost is Some && self.cumulative_cost->0.positive,
            span_of(" $"@ + self.cumulative_cost->0.text + " "@, theme.status_accent()),
        ) + if_wanted(
            others > 0,
            span_of(" "@ + ICON_MULTI_SESSION@ + " "@ + decimal(others) + " "@, theme.status()),
        )
    }

    /// The right part of the header: the figures, and the model with its
    /// effort.
    pub open spec fn chat_right(self, percent: u32) -> LineView {
        self.chat_figures(percent) + seq![
            span_of(" "@ + self.model_label(), self.theme.status_accent()),
            span_of(":"@, self.theme.reasoning_effort_sep()),
            span_of(
                effort_name(self.reasoning_effort) + " "@,
                self.theme.reasoning_effort_level(),
            ),
        ]
    }
}

fn label_session(app: &App) -> (r: String)
    ensures
        r@ == app@.session_label(),
{
    match &app.session_id {
        Some(s) => {
            if byte_len(s.as_str()) > 8 {
                split_at_byte(s.as_str(), 8).0
            } else {
                s.clone()
            }
        },
        None => owned("???"),
    }
}

fn label_model(app: &App) -> (r: String)
    ensures
        r@ == app@.model_label(),
{
    match (&app.current_provider, &app.current_model) {
        (Some(p), Some(m)) => cat3(p.as_str(), "/", m.as_str()),
        _ => owned("no model"),
    }
}

fn duration(secs: u128) -> (r: String)
    ensures
        r@ == duration_text(secs as int),
{
    if secs < 60 {
        cat2(number(secs).as_str(), "s")
    } else {
        let head = cat2(number(secs / 60).as_str(), "m");
        cat3(head.as_str(), number(secs % 60).as_str(), "s")
    }
}

fn figure(icon: &str, text: &str, end: &str) -> (r: String)
    ensures
        r@ == " "@ + icon@ + " "@ + text@ + end@,
{
    let head = cat3(" ", icon, " ");
    cat3(head.as_str(), text, end)
}

fn push_wanted(out: &mut Vec<Span>, wanted: bool, text: String, style: Style)
    ensures
        final(out).deep_view() == old(out).deep_view() + if_wanted(wanted, span_of(text@, style)),
{
    let ghost before = out.deep_view();
    if wanted {
        push_span(out, Span::new(text, style));
    }
    assert(out.deep_view() =~= before + if_wanted(wanted, span_of(text@, style)));
}

fn build_figures(app: &App, percent: u32) -> (r: Vec<Span>)
    ensures
        r.deep_view() == app@.chat_figures(percent),
{
    reveal(AppView::chat_figures);
    let theme = app.theme;
    let mut out: Vec<Span> = Vec::new();
    assert(out.deep_view() =~= Seq::<SpanView>::empty());
    let elapsed = app.llm_request_elapsed();
    if let Some(ns) = elapsed {
        let text = cat3(" ", duration(ns / 1_000_000_000).as_str(), " ");
        push_wanted(&mut out, true, text, theme.status());
    }
    let ghost s1 = if_wanted(
        app@.llm_elapsed() is Some,
        span_of(
            " "@ + duration_text(app@.llm_elapsed()->0 as int / 1_000_000_000) + " "@,
            theme.status(),
        ),
    );
    assert(out.deep_view() =~= s1);
    let known = match app.session_stats.latest_context_tokens {
        Some(n) => n > 0 && app.context_limit > 0,
        None => false,
    };
    let text = figure(ICON_CONTEXT, number(percent as u128).as_str(), "% ");
    push_wanted(&mut out, known, text, theme.status());
    let calls = app.session_stats.total_tool_calls;
    let text = figure(ICON_TOOLS, number(calls as u128).as_str(), " ");
    push_wanted(&mut out, calls > 0, text, theme.status());
    let ghost s3 = out.deep_view();
    if let Some(cost) = &app.cumulative_cost {
        let text = cat3(" $", cost.text.as_str(), " ");
        push_wanted(&mut out, cost.positive, text, theme.status_accent());
    }
    assert(out.deep_view() =~= s3 + if_wanted(
        app@.cumulative_cost is Some && app@.cumulative_cost->0.positive,
        span_of(" $"@ + app@.cumulative_cost->0.text + " "@, theme.status_accent()),
    ));
    let others: usize = app.other_active_session_count();
    let text = figure(ICON_MULTI_SESSION, count_text(others).as_str(), " ");
    push_wanted(&mut out, others > 0, text, theme.status());
    out
}

fn build_right(app: &App, percent: u32) -> (r: Vec<Span>)
    ensures
        r.deep_view() == app@.chat_right(percent),
{
    let theme = app.theme;
    let mut out = build_figures(app, percent);
    push_span(&mut out, Span::new(cat2(" ", label_model(app).as_str()), theme.status_accent()));
    push_span(&mut out, Span::styled(":", theme.reasoning_effort_sep()));
    push_span(
        &mut out,
        Span::new(
            cat2(app.reasoning_effort_label().as_str(), " "),
            theme.reasoning_effort_level(),
        ),
    );
    assert(out.deep_view() =~= app@.chat_right(percent));
    out
}

fn build_left(app: &App) -> (r: Vec<Span>)
    ensures
        r.deep_view() == app@.chat_left(),
{
    let theme = app.theme;
    let mut out: Vec<Span> = Vec::new();
    push_span(&mut out, Span::new(cat2(" ", label_session(app).as_str()), theme.status()));
    push_span(
        &mut out,
        Span::new(
            cat3(" ", app.agent_mode.as_str(), " "),
            theme.mode_badge(app.agent_mode.as_str()),
        ),
    );
    push_span(&mut out, Span::new(cat2(" ", app.status.as_str()), theme.status()));
    assert(out.deep_view() =~= app@.chat_left());
    out
}

// ── the input ────────────────────────────────────────────────────────────────

impl AppView {
    /// The line above the input shows what goes on.
    pub open spec fn border_style(self) -> Style {
        let theme = self.theme;
        match self.activity {
            ActivityStateView::SessionOp(SessionOp::Undo) => theme.input_border_undo(),
            ActivityStateView::SessionOp(SessionOp::Redo) => theme.input_border_redo(),
            _ => if self.confirming() {
                theme.input_border_cancel_confirm()
            } else if self.activity is Compacting {
                theme.input_border_compacting()
            } else if self.turn_active() || self.elicitation is Some {
                theme.input_border_thinking()
            } else {
                Style::plain().fg(theme.mode_color_of(self.agent_mode)).bg(theme.bg_card())
            },
        }
    }

    /// What stands before the input.
    pub open spec fn input_label(self) -> SpanView {
        let theme = self.theme;
        let turning = frame_at(SpinnerKind::Braille, self.tick);
        match self.activity {
            ActivityStateView::SessionOp(SessionOp::Undo) => span_of(
                turning + " undoing "@,
                theme.input_undo(),
            ),
            ActivityStateView::SessionOp(SessionOp::Redo) => span_of(
                turning + " redoing "@,
                theme.input_redo(),
            ),
            _ => if self.confirming() {
                span_of(turning + " Esc again to stop "@, theme.input_cancel_confirm())
            } else if self.turn_active() {
                span_of(turning + " "@, theme.input_thinking())
            } else if self.elicitation is Some {
                span_of("  answer above "@ + ARROW_UP@ + " "@, theme.input_thinking())
            } else {
                span_of(
                    "> "@,
                    Style::plain().fg(theme.mode_color_of(self.agent_mode)).bg(theme.bg_card()),
                )
            },
        }
    }

    /// The rows of the input, the first behind its label.
    pub open spec fn input_lines(self, rows: Seq<RowView>) -> Seq<LineView> {
        Seq::new(
            rows.len(),
            |i: int|
                if i == 0 {
                    seq![self.input_label(), span_of(rows[0].text, self.theme.input())]
                } else {
                    seq![span_of(rows[i].text, self.theme.input())]
                },
        )
    }

    /// The first row of the input to show so that the cursor is among `visible`
    /// rows.
    pub open spec fn input_scrolled(self, layout: LayoutView, visible: u16) -> u16 {
        let row = fitted(layout.cursor_row) as int;
        let s = self.input_scroll as int;
        let below = if row >= least(s + visible, u16::MAX as int) {
            least(row + 1, u16::MAX as int) - visible
        } else {
            s
        };
        let above = if row < below {
            row
        } else {
            below
        };
        let last = less(fitted(layout.rows.len() as int), visible) as int;
        if above < 0 {
            0
        } else {
            least(above, last) as u16
        }
    }

    /// The area of the text in the area of the input.
    pub open spec fn input_inside(area: Area) -> Area {
        Area {
            x: beyond(area.x, 2),
            y: area.y,
            width: less(area.width, 4),
            height: less(area.height, 1),
        }
    }

    /// The text of the input, with the cursor in it.
    #[verifier::opaque]
    pub open spec fn input_text(self, layout: LayoutView, inner: Area, scroll: u16) -> PictureView {
        let row = monus(fitted(layout.cursor_row) as int, scroll as int);
        seq![
            PaintView::Text {
                area: inner,
                lines: self.input_lines(layout.rows),
                style: Style::plain(),
                wrap: false,
                scroll,
                centered: false,
            },
        ] + if row < inner.height {
            seq![
                PaintView::Cursor {
                    x: beyond(inner.x, layout.cursor_col),
                    y: beyond(inner.y, row),
                },
            ]
        } else {
            Seq::empty()
        }
    }

    /// The rows of the input in an area.
    pub open spec fn input_layout(self, inner: Area) -> LayoutView {
        layout_of(
            self.input,
            self.input_cursor as int,
            larger(inner.width, 1) as int,
            PROMPT_WIDTH as int,
        )
    }

    /// The input in its area, and the state with its width and its first row
    /// remembered.  While it is blocked, only its label shows.
    #[verifier::opaque]
    pub open spec fn input_picture(self, area: Area) -> (AppView, PictureView) {
        let inner = AppView::input_inside(area);
        let back = seq![PaintView::Fill { area, style: self.theme.input() }];
        let width = larger(inner.width, 1) as usize;
        if self.input_blocked() {
            (
                AppView { input_line_width: width, input_scroll: 0, ..self },
                back.push(line_paint(inner, seq![self.input_label()], Style::plain())),
            )
        } else {
            let layout = self.input_layout(inner);
            let scroll = self.input_scrolled(layout, inner.height);
            (
                AppView { input_line_width: width, input_scroll: scroll, ..self },
                back + self.input_text(layout, inner, scroll),
            )
        }
    }
}

fn style_border(app: &App) -> (r: Style)
    ensures
        r == app@.border_style(),
{
    let theme = app.theme;
    let compacting = match &app.activity {
        ActivityState::SessionOp(SessionOp::Undo) => {
            return theme.input_border_undo();
        },
        ActivityState::SessionOp(SessionOp::Redo) => {
            return theme.input_border_redo();
        },
        ActivityState::Compacting { .. } => true,
        _ => false,
    };
    if app.cancel_confirm_active() {
        theme.input_border_cancel_confirm()
    } else if compacting {
        theme.input_border_compacting()
    } else if app.is_turn_active() || app.elicitation.is_some() {
        theme.input_border_thinking()
    } else {
        theme.mode_border(app.agent_mode.as_str())
    }
}

fn label_input(app: &App) -> (r: Span)
    ensures
        r.deep_view() == app@.input_label(),
{
    let theme = app.theme;
    let turning = spinner(SpinnerKind::Braille, app.tick);
    match &app.activity {
        ActivityState::SessionOp(SessionOp::Undo) => {
            return Span::new(cat2(turning, " undoing "), theme.input_undo());
        },
        ActivityState::SessionOp(SessionOp::Redo) => {
            return Span::new(cat2(turning, " redoing "), theme.input_redo());
        },
        _ => {},
    }
    if app.cancel_confirm_active() {
        Span::new(cat2(turning, " Esc again to stop "), theme.input_cancel_confirm())
    } else if app.is_turn_active() {
        Span::new(cat2(turning, " "), theme.input_thinking())
    } else if app.elicitation.is_some() {
        Span::new(cat3("  answer above ", ARROW_UP, " "), theme.input_thinking())
    } else {
        Span::styled("> ", theme.mode_border(app.agent_mode.as_str()))
    }
}

fn build_input_lines(app: &App, layout: &InputVisualLayout) -> (r: Vec<Line>)
    ensures
        r.deep_view() == app@.input_lines(layout.deep_view().rows),
{
    let ghost rv = layout.deep_view().rows;
    let ghost goal = app@.input_lines(rv);
    let style = app.theme.input();
    let mut out: Vec<Line> = Vec::new();
    assert(out.deep_view() =~= goal.take(0));
    let mut i: usize = 0;
    while i < layout.rows.len()
        invariant
            i <= layout.rows@.len(),
            rv == layout.deep_view().rows,
            style == app@.theme.input(),
            goal == app@.input_lines(rv),
            out.deep_view() == goal.take(i as int),
        decreases layout.rows@.len() - i,
    {
        assert(rv[i as int] == layout.rows@[i as int].deep_view());
        let text = Span::styled(layout.rows[i].text.as_str(), style);
        let line = if i == 0 {
            Line::two(label_input(app), text)
        } else {
            Line::one(text)
        };
        assert(goal[i as int] == line.deep_view());
        push_line(&mut out, line);
        assert(goal.take(i + 1) =~= goal.take(i as int).push(goal[i as int]));
        i = i + 1;
    }
    assert(goal.take(i as int) =~= goal);
    out
}

fn scroll_input(app: &App, layout: &InputVisualLayout, visible: u16) -> (r: u16)
    ensures
        r == app@.input_scrolled(layout.deep_view(), visible),
{
    let row: u16 = fit(layout.cursor_row);
    let s = app.input_scroll;
    let below: u16 = if row >= s.saturating_add(visible) {
        row.saturating_add(1).saturating_sub(visible)
    } else {
        s
    };
    let above: u16 = if row < below {
        row
    } else {
        below
    };
    smaller(above, less(fit(layout.rows.len()), visible))
}

fn paint_input_text(app: &App, layout: &InputVisualLayout, inner: Area, scroll: u16) -> (r: Vec<
    Paint,
>)
    ensures
        r.deep_view() == app@.input_text(layout.deep_view(), inner, scroll),
{
    reveal(AppView::input_text);
    let mut out: Vec<Paint> = Vec::new();
    paint(
        &mut out,
        Paint::Text {
            area: inner,
            lines: build_input_lines(app, layout),
            style: Style::plain(),
            wrap: false,
            scroll,
            centered: false,
        },
    );
    let row: u16 = fit(layout.cursor_row).saturating_sub(scroll);
    if row < inner.height {
        let x = shift(inner.x, layout.cursor_col);
        let y = shift(inner.y, row as usize);
        paint(&mut out, Paint::Cursor { x, y });
    }
    assert(out.deep_view() =~= app@.input_text(layout.deep_view(), inner, scroll));
    out
}

fn paint_input(app: &mut App, area: Area) -> (r: Vec<Paint>)
    ensures
        (final(app)@, r.deep_view()) == old(app)@.input_picture(area),
        old(app)@.wf() ==> final(app)@.wf(),
{
    reveal(AppView::input_picture);
    let inner = Area {
        x: shift(area.x, 2),
        y: area.y,
        width: less(area.width, 4),
        height: less(area.height, 1),
    };
    let width: usize = larger(inner.width, 1) as usize;
    let mut out: Vec<Paint> = Vec::new();
    let style = app.theme.input();
    paint(&mut out, Paint::Fill { area, style });
    assert(out.deep_view() =~= seq![PaintView::Fill { area, style }]);
    if app.should_hide_input_contents() {
        paint(&mut out, Paint::line(inner, Line::one(label_input(app)), Style::plain()));
        app.input_line_width = width;
        app.input_scroll = 0;
        return out;
    }
    let layout = build_input_visual_layout(
        app.input.as_str(),
        app.input_cursor,
        width,
        PROMPT_WIDTH,
    );
    let scroll = scroll_input(app, &layout, inner.height);
    paint_all(&mut out, paint_input_text(app, &layout, inner, scroll));
    app.input_line_width = width;
    app.input_scroll = scroll;
    out
}

// ── the page ─────────────────────────────────────────────────────────────────

/// Rows of the panel for mentions.
pub const MENTION_ROWS: u16 = 6;

/// Rows of the input at most.
pub const MAX_INPUT_ROWS: u16 = 5;

impl AppView {
    /// Rows for the panel for mentions.
    pub open spec fn mention_height(self) -> u16 {
        if self.mention_state is Some || self.file_index_loading || self.file_index_error is Some {
            MENTION_ROWS
        } else {
            0
        }
    }

    /// Rows for a question, at most half of the screen.
    pub open spec fn question_height(self, screen: Area) -> u16 {
        match self.elicitation {
            Some(e) => {
                let options = if e.fields.len() > 0 {
                    e.options().len() as int
                } else {
                    0
                };
                smaller(
                    fitted(
                        if options > 1 {
                            options + 4
                        } else {
                            5
                        },
                    ),
                    screen.height / 2,
                )
            },
            None => 0,
        }
    }

    /// Rows for the input, with one below it.
    pub open spec fn input_height(self, screen: Area) -> u16 {
        let layout = layout_of(
            self.input,
            self.input_cursor as int,
            larger(less(screen.width, 4), 1) as int,
            PROMPT_WIDTH as int,
        );
        (smaller(larger(fitted(layout.rows.len() as int), 1), MAX_INPUT_ROWS) + 1) as u16
    }

    /// The page of a conversation, in the areas of header, conversation,
    /// mentions, question, line and input.
    pub open spec fn chat_picture(self, screen: Area, parts: Seq<Area>, percent: u32) -> (
        AppView,
        PictureView,
    ) {
        let (shown, messages) = self.messages_picture(parts[1]);
        let (next, input) = shown.input_picture(parts[5]);
        (
            next,
            seq![self.header_paint(parts[0], self.chat_left(), self.chat_right(percent))]
                + messages + (if self.mention_height() > 0 {
                self.mention_panel(parts[2])
            } else {
                Seq::empty()
            }) + (if self.question_height(screen) > 0 {
                self.question_panel(parts[3])
            } else {
                Seq::empty()
            }) + seq![
                line_paint(
                    parts[4],
                    raw_line(Seq::new(parts[4].width as nat, |i: int| '▔')),
                    self.border_style(),
                ),
            ] + input,
        )
    }
}

/// Showing the conversation leaves alone what the rest of the page shows.
proof fn lemma_messages_keep(app: AppView, area: Area)
    ensures
        ({
            let next = app.messages_picture(area).0;
            &&& next.theme == app.theme
            &&& next.mention_state == app.mention_state
            &&& next.file_index == app.file_index
            &&& next.file_index_loading == app.file_index_loading
            &&& next.file_index_error == app.file_index_error
            &&& next.tick == app.tick
            &&& next.elicitation == app.elicitation
            &&& next.activity == app.activity
            &&& next.pending_cancel_confirm_until == app.pending_cancel_confirm_until
            &&& next.now_ns == app.now_ns
            &&& next.agent_mode == app.agent_mode
        }),
{
    reveal(AppView::messages_picture);
    reveal(AppView::cards_updated);
}

fn measure_mentions(app: &App) -> (r: u16)
    ensures
        r == app@.mention_height(),
{
    if app.mention_state.is_some() || app.file_index_loading || app.file_index_error.is_some() {
        MENTION_ROWS
    } else {
        0
    }
}

fn measure_question(app: &App, screen: Area) -> (r: u16)
    ensures
        r == app@.question_height(screen),
{
    match &app.elicitation {
        Some(e) => {
            let options: usize = if e.fields.len() > 0 {
                e.current_option_count()
            } else {
                0
            };
            let rows: u16 = if options > 1 {
                fit(options).saturating_add(4)
            } else {
                5
            };
            smaller(rows, screen.height / 2)
        },
        None => 0,
    }
}

fn measure_input(app: &App, screen: Area) -> (r: u16)
    ensures
        r == app@.input_height(screen),
{
    let layout = build_input_visual_layout(
        app.input.as_str(),
        app.input_cursor,
        larger(less(screen.width, 4), 1) as usize,
        PROMPT_WIDTH,
    );
    assert(layout.deep_view().rows.len() == layout.rows@.len());
    smaller(larger(fit(layout.total_rows()), 1), MAX_INPUT_ROWS) + 1
}

/// The page of a conversation, given the areas of header, conversation,
/// mentions, question, line and input.  `percent` is the share of the context
/// that is used.
pub fn paint_chat(app: &mut App, screen: Area, parts: &Vec<Area>, percent: u32, hl: &Highlighter) -> (r:
    Vec<Paint>)
    requires
        parts@.len() == 6,
    ensures
        (final(app)@, r.deep_view()) == old(app)@.chat_picture(screen, parts@, percent),
        old(app)@.wf() ==> final(app)@.wf(),
{
    let ghost s = app@;
    let mut out: Vec<Paint> = Vec::new();
    let left = build_left(app);
    let right = build_right(app, percent);
    paint(&mut out, draw_header(app, parts[0], &left, &right));
    let mentions = measure_mentions(app);
    let question = measure_question(app, screen);
    let messages = draw_messages(app, parts[1], hl);
    paint_all(&mut out, messages);
    proof {
        lemma_messages_keep(s, parts@[1]);
    }
    if mentions > 0 {
        let panel = draw_mention_panel(app, parts[2]);
        assert(app@.mention_panel(parts@[2]) == s.mention_panel(parts@[2]));
        paint_all(&mut out, panel);
    }
    if question > 0 {
        let panel = draw_elicitation_popup(app, parts[3]);
        assert(app@.question_panel(parts@[3]) == s.question_panel(parts@[3]));
        paint_all(&mut out, panel);
    }
    let bar = repeat('▔', parts[4].width as usize);
    assert(bar@ =~= Seq::new(parts@[4].width as nat, |i: int| '▔'));
    assert(app@.border_style() == s.border_style());
    paint(&mut out, Paint::line(parts[4], Line::raw(bar.as_str()), style_border(app)));
    let input = paint_input(app, parts[5]);
    paint_all(&mut out, input);
    assert(out.deep_view() =~= s.chat_picture(screen, parts@, percent).1);
    out
}

impl AppView {
    /// The rows of the page: header, conversation, mentions, question, line, input.
    pub open spec fn chat_bounds(self, screen: Area) -> Seq<Bound> {
        seq![
            Bound::Length(1),
            Bound::AtLeast(3),
            Bound::Length(self.mention_height()),
            Bound::Length(self.question_height(screen)),
            Bound::Length(1),
            Bound::Length(self.input_height(screen)),
        ]
    }
}

/// The page of a conversation on the screen.
pub fn draw_chat(app: &mut App, screen: Area, percent: u32, hl: &Highlighter) -> (r: Vec<Paint>)
    ensures
        exists|parts: Seq<Area>|
            split_into(screen, Axis::Rows, old(app)@.chat_bounds(screen), parts) && (
                final(app)@,
                r.deep_view(),
            ) == #[trigger] old(app)@.chat_picture(screen, parts, percent),
        old(app)@.wf() ==> final(app)@.wf(),
{
    let mentions = measure_mentions(app);
    let question = measure_question(app, screen);
    let input = measure_input(app, screen);
    let bounds = vec![
        Bound::Length(1),
        Bound::AtLeast(3),
        Bound::Length(mentions),
        Bound::Length(question),
        Bound::Length(1),
        Bound::Length(input),
    ];
    assert(bounds@ =~= app@.chat_bounds(screen));
    let parts = split(screen, Axis::Rows, &bounds);
    paint_chat(app, screen, &parts, percent, hl)
}

// ── the whole screen ─────────────────────────────────────────────────────────

impl AppView {
    /// With the selected theme on the screen.
    pub open spec fn framed(self) -> AppView {
        AppView {
            theme: Theme {
                current: self.theme.current,
                frame: self.theme.current,
                colors: self.themes[self.theme.current as int].colors,
            },
            ..self
        }
    }

    /// The picture is that of the page, and `next` the state behind it.
    pub open spec fn shows_page(
        self,
        next: AppView,
        page: PictureView,
        screen: Area,
        percent: u32,
        now: int,
    ) -> bool {
        match self.screen {
            Screen::Sessions => exists|outer: Seq<Area>, parts: Seq<Area>|
                self.start_areas(screen, outer, parts) && (next, page)
                    == #[trigger] self.start_picture(screen, outer, parts, now),
            Screen::Chat => exists|parts: Seq<Area>|
                split_into(screen, Axis::Rows, self.chat_bounds(screen), parts) && (next, page)
                    == #[trigger] self.chat_picture(screen, parts, percent),
        }
    }

    /// The picture is that of the popup.
    pub open spec fn shows_popup(self, picture: PictureView, screen: Area, now: int) -> bool {
        match self.popup {
            Popup::ModelSelect => exists|popup: Area, rows: Seq<Area>|
                popup_at(screen, 60, 60, filter_bounds(), popup, rows) && picture
                    == #[trigger] self.model_popup(popup, rows),
            Popup::SessionSelect => exists|popup: Area, rows: Seq<Area>|
                popup_at(screen, 70, 60, filter_bounds(), popup, rows) && picture
                    == #[trigger] self.session_popup(popup, rows, now),
            Popup::NewSession => exists|rows: Seq<Area>|
                split_into(
                    inside(self.new_session_area(screen)),
                    Axis::Rows,
                    new_session_bounds(),
                    rows,
                ) && picture == #[trigger] self.new_session_popup(
                    self.new_session_area(screen),
                    rows,
                ),
            Popup::ThemeSelect => exists|popup: Area, rows: Seq<Area>|
                popup_at(screen, 70, 60, filter_bounds(), popup, rows) && picture
                    == #[trigger] self.theme_popup(popup, rows),
            Popup::Help => exists|popup: Area, rows: Seq<Area>|
                popup_at(screen, 70, 80, help_bounds(), popup, rows) && picture
                    == #[trigger] self.help_popup(popup, rows),
            Popup::Log => exists|popup: Area, rows: Seq<Area>|
                popup_at(screen, 80, 70, filter_bounds(), popup, rows) && picture
                    == #[trigger] self.log_popup(popup, rows),
            Popup::Closed => picture == Seq::<PaintView>::empty(),
        }
    }

    /// The picture is that of the screen: its background, the page, and the
    /// popup on top of it.
    pub open spec fn shows_screen(
        self,
        next: AppView,
        picture: PictureView,
        screen: Area,
        percent: u32,
        now: int,
    ) -> bool {
        exists|page: PictureView, popup: PictureView|
            picture == seq![PaintView::Fill { area: screen, style: self.framed().theme.base() }]
                + page + popup && #[trigger] self.framed().shows_page(
                next,
                page,
                screen,
                percent,
                now,
            ) && #[trigger] next.shows_popup(popup, screen, now)
    }
}

fn draw_popup(app: &App, screen: Area, now: i64) -> (r: Vec<Paint>)
    ensures
        app@.shows_popup(r.deep_view(), screen, now as int),
{
    match app.popup {
        Popup::ModelSelect => draw_model_popup(app, screen),
        Popup::SessionSelect => draw_session_popup(app, screen, now),
        Popup::NewSession => draw_new_session_popup(app, screen),
        Popup::ThemeSelect => draw_theme_popup(app, screen),
        Popup::Help => draw_help_popup(app, screen),
        Popup::Log => draw_log_popup(app, screen),
        Popup::Closed => {
            let none: Vec<Paint> = Vec::new();
            assert(none.deep_view() =~= Seq::<PaintView>::empty());
            none
        },
    }
}

/// The screen, `now` seconds after the start of 1970.  `percent` is the share
/// of the context that is used.
pub fn draw(app: &mut App, screen: Area, percent: u32, now: i64, hl: &Highlighter) -> (r: Vec<Paint>)
    requires
        old(app)@.wf(),
    ensures
        old(app)@.shows_screen(final(app)@, r.deep_view(), screen, percent, now as int),
        final(app)@.wf(),
{
    let ghost s = app@;
    app.theme.begin_frame(&app.themes);
    assert(app@ =~= s.framed());
    let mut out: Vec<Paint> = Vec::new();
    let style = app.theme.base();
    paint(&mut out, Paint::Fill { area: screen, style });
    assert(out.deep_view() =~= seq![PaintView::Fill { area: screen, style }]);
    let page = match app.screen {
        Screen::Sessions => draw_start(app, screen, now),
        Screen::Chat => draw_chat(app, screen, percent, hl),
    };
    let ghost pv = page.deep_view();
    assert(s.framed().shows_page(app@, pv, screen, percent, now as int));
    paint_all(&mut out, page);
    let popup = draw_popup(app, screen, now);
    let ghost uv = popup.deep_view();
    assert(app@.shows_popup(uv, screen, now as int));
    paint_all(&mut out, popup);
    out
}

} // verus!
