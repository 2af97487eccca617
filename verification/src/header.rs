//! The first line of the screen.
use crate::app::{App, AppView, ConnState};
use crate::canvas::{line_paint, Area, Paint, PaintView};
use crate::seqs::monus;
use crate::style::{push_span, push_spans, span_of, Line, LineView, Span, SpanView, Style};
use crate::symbols::{CONN_OFFLINE, CONN_ONLINE};
use crate::text::{blanks, cat2, spaces};
use vstd::prelude::*;

verus! {

/// How many characters a line has.
pub open spec fn line_chars(line: LineView) -> int
    decreases line.len(),
{
    if line.len() == 0 {
        0
    } else {
        line_chars(line.drop_last()) + line.last().content.len()
    }
}

/// What is left of a width next to spans.
pub fn width_beside(width: usize, spans: &Vec<Span>) -> (r: usize)
    ensures
        r == monus(width as int, line_chars(spans.deep_view())),
{
    let ghost sv = spans.deep_view();
    let mut left: usize = width;
    let mut i: usize = 0;
    assert(sv.take(0) =~= Seq::<SpanView>::empty());
    while i < spans.len()
        invariant
            i <= spans@.len(),
            sv == spans.deep_view(),
            left == monus(width as int, line_chars(sv.take(i as int))),
        decreases spans@.len() - i,
    {
        assert(sv[i as int] == spans@[i as int].deep_view());
        assert(sv.take(i + 1).drop_last() =~= sv.take(i as int));
        left = left.saturating_sub(spans[i].content.as_str().unicode_len());
        i = i + 1;
    }
    assert(sv.take(i as int) =~= sv);
    left
}

proof fn lemma_line_chars(line: LineView)
    ensures
        line_chars(line) >= 0,
    decreases line.len(),
{
    if line.len() > 0 {
        lemma_line_chars(line.drop_last());
    }
}

impl AppView {
    /// Shows the state of the connection.
    pub open spec fn conn_sign(self) -> SpanView {
        let (sign, color) = match self.conn {
            ConnState::Connected => (CONN_ONLINE@, self.theme.ok()),
            ConnState::Connecting => (CONN_OFFLINE@, self.theme.warn()),
            ConnState::Disconnected => (CONN_ONLINE@, self.theme.err()),
        };
        span_of(sign + " "@, Style::plain().fg(color).bg(self.theme.bg_dim()))
    }

    /// The left part of a header.
    pub open spec fn header_start(self, left: LineView) -> LineView {
        seq![
            span_of(" query"@, self.theme.title()),
            span_of("mt"@, self.theme.title_accent()),
        ] + (if self.chord {
            seq![span_of(" C-x"@, self.theme.status_accent())]
        } else {
            Seq::empty()
        }) + left
    }

    /// A header: a left part, and a right part at the end of the line.
    pub open spec fn header_line(self, width: int, left: LineView, right: LineView) -> LineView {
        let start = self.header_start(left);
        let gap = monus(
            width,
            line_chars(start) + line_chars(right) + self.conn_sign().content.len(),
        );
        (start.push(span_of(spaces(gap as nat), self.theme.status())) + right).push(
            self.conn_sign(),
        )
    }

    /// A header in its row.
    pub open spec fn header_paint(self, area: Area, left: LineView, right: LineView) -> PaintView {
        line_paint(
            area,
            self.header_line(area.width as int, left, right),
            self.theme.status(),
        )
    }
}

/// Shows the state of the connection.
pub fn conn_indicator(app: &App) -> (r: Span)
    ensures
        r.deep_view() == app@.conn_sign(),
{
    let theme = app.theme;
    let (sign, color) = match app.conn {
        ConnState::Connected => (CONN_ONLINE, theme.ok()),
        ConnState::Connecting => (CONN_OFFLINE, theme.warn()),
        ConnState::Disconnected => (CONN_ONLINE, theme.err()),
    };
    Span::new(cat2(sign, " "), Style::plain().fg(color).bg(theme.bg_dim()))
}

/// A header in its row.
pub fn draw_header(app: &App, area: Area, left: &Vec<Span>, right: &Vec<Span>) -> (r: Paint)
    ensures
        r.deep_view() == app@.header_paint(area, left.deep_view(), right.deep_view()),
{
    let theme = app.theme;
    let mut spans: Vec<Span> = Vec::new();
    push_span(&mut spans, Span::styled(" query", theme.title()));
    push_span(&mut spans, Span::styled("mt", theme.title_accent()));
    if app.chord {
        push_span(&mut spans, Span::styled(" C-x", theme.status_accent()));
    }
    push_spans(&mut spans, left);
    assert(spans.deep_view() =~= app@.header_start(left.deep_view()));
    let conn = conn_indicator(app);
    let beside = width_beside(area.width as usize, &spans);
    let gap: usize = width_beside(beside, right).saturating_sub(
        conn.content.as_str().unicode_len(),
    );
    proof {
        lemma_line_chars(spans.deep_view());
        lemma_line_chars(right.deep_view());
    }
    push_span(&mut spans, Span::new(blanks(gap), theme.status()));
    push_spans(&mut spans, right);
    push_span(&mut spans, conn);
    Paint::line(area, Line { spans }, theme.status())
}

} // verus!
