//! What stands between the conversation and the input: a question of the agent,
//! and the files that a mention may mean.
use crate::app::{App, AppView, FileIndexEntryLiteView};
use crate::canvas::{
    beyond, less, line_paint, paint, row_in, row_of, shift, Area, Paint, PaintView, PictureView,
};
use crate::elicitation::{
    among, position_of, ElicitationFieldKind, ElicitationFieldKindView, ElicitationOption,
    ElicitationOptionView, ElicitationState, ElicitationStateView,
};
use crate::json::{Json, JsonView};
use crate::seqs::least;
use crate::spinner::{frame_at, spinner, SpinnerKind};
use crate::style::{push_line, push_lines, span_of, Line, LineView, Span, Style};
use crate::symbols::{
    ARROW_DOWN, ARROW_UP, CHECK_CHECKED, CHECK_UNCHECKED, OUTCOME_BULLET, RADIO_SELECTED,
    RADIO_UNSELECTED,
};
use crate::text::{cat2, cat3, owned};
use crate::theme::Theme;
use vstd::prelude::*;

verus! {

// ── a question ───────────────────────────────────────────────────────────────

/// Text that steps back.
pub open spec fn faint(theme: Theme) -> Style {
    Style::plain().fg(theme.dim())
}

impl ElicitationStateView {
    /// The value was chosen among many.
    pub open spec fn ticked(self, name: Seq<char>, v: JsonView) -> bool {
        self.selected.contains_key(name) && match self.selected[name] {
            JsonView::Array(list) => among(list, v),
            _ => false,
        }
    }

    /// What stands before an option.
    pub open spec fn option_mark(self, o: ElicitationOptionView, i: int, multi: bool) -> Seq<char> {
        if multi {
            if self.ticked(self.field().name, o.value) {
                CHECK_CHECKED@
            } else {
                CHECK_UNCHECKED@
            }
        } else if i == self.option_cursor {
            RADIO_SELECTED@
        } else {
            RADIO_UNSELECTED@
        }
    }

    /// An option.
    pub open spec fn option_line(
        self,
        theme: Theme,
        o: ElicitationOptionView,
        i: int,
        multi: bool,
    ) -> LineView {
        let style = if i == self.option_cursor {
            theme.status_accent()
        } else {
            theme.status()
        };
        seq![
            span_of("  "@ + self.option_mark(o, i, multi), style),
            span_of(o.label, style),
            match o.description {
                Some(d) => span_of("  "@ + d, faint(theme)),
                None => span_of(Seq::empty(), Style::plain()),
            },
        ]
    }

    /// The options of the field.
    pub open spec fn option_lines(
        self,
        theme: Theme,
        options: Seq<ElicitationOptionView>,
        multi: bool,
    ) -> Seq<LineView> {
        Seq::new(options.len(), |i: int| self.option_line(theme, options[i], i, multi))
    }

    /// The text that was typed, or what to type.
    pub open spec fn text_line(self, theme: Theme, number: bool) -> LineView {
        seq![
            span_of("  > "@, theme.status_accent()),
            if self.text_input.len() == 0 {
                span_of(
                    if number {
                        "enter number\u{2026}"@
                    } else {
                        "enter text\u{2026}"@
                    },
                    faint(theme),
                )
            } else {
                span_of(self.text_input, Style::plain().fg(theme.fg()))
            },
        ]
    }

    /// Yes or no.
    pub open spec fn toggle_line(self, theme: Theme) -> LineView {
        let name = self.field().name;
        let yes = self.selected.contains_key(name) && self.selected[name].boolean() == Some(true);
        seq![
            span_of(
                if yes {
                    "  "@ + CHECK_CHECKED@ + "Yes"@
                } else {
                    "  "@ + CHECK_UNCHECKED@ + "No"@
                },
                theme.status_accent(),
            ),
            span_of("  (Space to toggle)"@, faint(theme)),
        ]
    }

    /// The lines of the field.
    #[verifier::opaque]
    pub open spec fn field_lines(self, theme: Theme) -> Seq<LineView> {
        match self.field().kind {
            ElicitationFieldKindView::SingleSelect { options } => self.option_lines(
                theme,
                options,
                false,
            ),
            ElicitationFieldKindView::MultiSelect { options } => self.option_lines(
                theme,
                options,
                true,
            ),
            ElicitationFieldKindView::TextInput => seq![self.text_line(theme, false)],
            ElicitationFieldKindView::NumberInput { .. } => seq![self.text_line(theme, true)],
            ElicitationFieldKindView::BooleanToggle => seq![self.toggle_line(theme)],
        }
    }

    /// Which keys do what.
    pub open spec fn hint(self) -> Seq<char> {
        match self.field().kind {
            ElicitationFieldKindView::MultiSelect { .. } => " "@ + ARROW_UP@ + ARROW_DOWN@
                + " navigate  Space toggle  Enter submit  Esc decline"@,
            ElicitationFieldKindView::TextInput | ElicitationFieldKindView::NumberInput { .. } =>
                " type answer  Enter submit  Esc decline"@,
            ElicitationFieldKindView::BooleanToggle => " Space toggle  Enter submit  Esc decline"@,
            ElicitationFieldKindView::SingleSelect { .. } => " "@ + ARROW_UP@ + ARROW_DOWN@
                + " navigate  Enter select  Esc decline"@,
        }
    }

    /// The lines of a question: who asks, what, its field, and the keys.  A
    /// question without fields has neither of the last two.
    pub open spec fn question_lines(self, theme: Theme) -> Seq<LineView> {
        let head = seq![
            seq![
                span_of(OUTCOME_BULLET@, theme.status_accent()),
                span_of("Question"@, theme.status_accent()),
                span_of("  via "@ + self.asker(), theme.status()),
            ],
            seq![span_of("  "@ + self.message, Style::plain().fg(theme.fg()))],
        ];
        if self.fields.len() == 0 {
            head
        } else {
            (head + self.field_lines(theme)).push(seq![span_of(self.hint(), faint(theme))])
        }
    }
}

/// The first `n` lines, each in its row.
pub open spec fn in_rows(area: Area, lines: Seq<LineView>, style: Style, n: int) -> PictureView {
    Seq::new(n as nat, |i: int| line_paint(row_in(area, i), lines[i], style))
}

impl AppView {
    /// A question in its area: as many of its lines as there are rows.
    pub open spec fn question_panel(self, area: Area) -> PictureView {
        let inner = Area {
            x: beyond(area.x, 1),
            y: area.y,
            width: less(area.width, 2),
            height: area.height,
        };
        match self.elicitation {
            Some(e) => if area.height == 0 || area.width == 0 {
                Seq::empty()
            } else {
                seq![PaintView::Fill { area, style: self.theme.popup_bg() }] + if inner.width == 0 {
                    Seq::empty()
                } else {
                    let lines = e.question_lines(self.theme);
                    in_rows(
                        inner,
                        lines,
                        self.theme.popup_bg(),
                        least(lines.len() as int, inner.height as int),
                    )
                }
            },
            None => Seq::empty(),
        }
    }
}

fn is_ticked(state: &ElicitationState, name: &str, v: &Json) -> (r: bool)
    ensures
        r == state.deep_view().ticked(name@, v.tree()),
{
    match state.selected.get(name) {
        Some(Json::Array(list)) => {
            let found = position_of(list, v).is_some();
            assert(Json::Array(*list).tree()->Array_0 =~= list.deep_view());
            found
        },
        _ => false,
    }
}

fn build_option(
    state: &ElicitationState,
    theme: &Theme,
    o: &ElicitationOption,
    i: usize,
    multi: bool,
) -> (r: Line)
    requires
        state.fields@.len() > 0,
    ensures
        r.deep_view() == state.deep_view().option_line(*theme, o.deep_view(), i as int, multi),
{
    let here = i == state.option_cursor;
    let mark = if multi {
        if is_ticked(state, state.current_field().name.as_str(), &o.value) {
            CHECK_CHECKED
        } else {
            CHECK_UNCHECKED
        }
    } else if here {
        RADIO_SELECTED
    } else {
        RADIO_UNSELECTED
    };
    let style = if here {
        theme.status_accent()
    } else {
        theme.status()
    };
    let behind = match &o.description {
        Some(d) => Span::new(cat2("  ", d.as_str()), Style::plain().fg(theme.dim())),
        None => Span::new(String::new(), Style::plain()),
    };
    Line::three(
        Span::new(cat2("  ", mark), style),
        Span::styled(o.label.as_str(), style),
        behind,
    )
}

fn build_options(
    state: &ElicitationState,
    theme: &Theme,
    options: &Vec<ElicitationOption>,
    multi: bool,
) -> (r: Vec<Line>)
    requires
        state.fields@.len() > 0,
    ensures
        r.deep_view() == state.deep_view().option_lines(*theme, options.deep_view(), multi),
{
    let ghost ov = options.deep_view();
    let ghost goal = state.deep_view().option_lines(*theme, ov, multi);
    let mut out: Vec<Line> = Vec::new();
    assert(out.deep_view() =~= goal.take(0));
    let mut i: usize = 0;
    while i < options.len()
        invariant
            i <= options@.len(),
            state.fields@.len() > 0,
            ov == options.deep_view(),
            goal == state.deep_view().option_lines(*theme, ov, multi),
            out.deep_view() == goal.take(i as int),
        decreases options@.len() - i,
    {
        assert(ov[i as int] == options@[i as int].deep_view());
        let line = build_option(state, theme, &options[i], i, multi);
        assert(goal[i as int] == line.deep_view());
        push_line(&mut out, line);
        assert(goal.take(i + 1) =~= goal.take(i as int).push(goal[i as int]));
        i = i + 1;
    }
    assert(goal.take(i as int) =~= goal);
    out
}

fn build_text_line(state: &ElicitationState, theme: &Theme, number: bool) -> (r: Line)
    ensures
        r.deep_view() == state.deep_view().text_line(*theme, number),
{
    let shown = if state.text_input.as_str().unicode_len() == 0 {
        Span::styled(
            if number {
                "enter number\u{2026}"
            } else {
                "enter text\u{2026}"
            },
            Style::plain().fg(theme.dim()),
        )
    } else {
        Span::styled(state.text_input.as_str(), Style::plain().fg(theme.fg()))
    };
    Line::two(Span::styled("  > ", theme.status_accent()), shown)
}

fn build_toggle_line(state: &ElicitationState, theme: &Theme) -> (r: Line)
    requires
        state.fields@.len() > 0,
    ensures
        r.deep_view() == state.deep_view().toggle_line(*theme),
{
    let yes = match state.selected.get(state.current_field().name.as_str()) {
        Some(v) => match v.as_bool() {
            Some(b) => b,
            None => false,
        },
        None => false,
    };
    let text = if yes {
        cat3("  ", CHECK_CHECKED, "Yes")
    } else {
        cat3("  ", CHECK_UNCHECKED, "No")
    };
    Line::two(
        Span::new(text, theme.status_accent()),
        Span::styled("  (Space to toggle)", Style::plain().fg(theme.dim())),
    )
}

fn build_field_lines(state: &ElicitationState, theme: &Theme) -> (r: Vec<Line>)
    requires
        state.fields@.len() > 0,
    ensures
        r.deep_view() == state.deep_view().field_lines(*theme),
{
    reveal(ElicitationStateView::field_lines);
    let mut out: Vec<Line> = Vec::new();
    assert(out.deep_view() =~= Seq::<LineView>::empty());
    match &state.current_field().kind {
        ElicitationFieldKind::SingleSelect { options } => {
            return build_options(state, theme, options, false);
        },
        ElicitationFieldKind::MultiSelect { options } => {
            return build_options(state, theme, options, true);
        },
        ElicitationFieldKind::TextInput => {
            push_line(&mut out, build_text_line(state, theme, false));
        },
        ElicitationFieldKind::NumberInput { .. } => {
            push_line(&mut out, build_text_line(state, theme, true));
        },
        ElicitationFieldKind::BooleanToggle => {
            push_line(&mut out, build_toggle_line(state, theme));
        },
    }
    assert(out.deep_view() =~= state.deep_view().field_lines(*theme));
    out
}

fn hint_of(state: &ElicitationState) -> (r: String)
    requires
        state.fields@.len() > 0,
    ensures
        r@ == state.deep_view().hint(),
{
    let arrows = cat3(" ", ARROW_UP, ARROW_DOWN);
    match &state.current_field().kind {
        ElicitationFieldKind::MultiSelect { .. } => cat2(
            arrows.as_str(),
            " navigate  Space toggle  Enter submit  Esc decline",
        ),
        ElicitationFieldKind::TextInput | ElicitationFieldKind::NumberInput { .. } => owned(
            " type answer  Enter submit  Esc decline",
        ),
        ElicitationFieldKind::BooleanToggle => owned(" Space toggle  Enter submit  Esc decline"),
        ElicitationFieldKind::SingleSelect { .. } => cat2(
            arrows.as_str(),
            " navigate  Enter select  Esc decline",
        ),
    }
}

fn build_question_lines(state: &ElicitationState, theme: &Theme) -> (r: Vec<Line>)
    ensures
        r.deep_view() == state.deep_view().question_lines(*theme),
{
    let mut out: Vec<Line> = Vec::new();
    let via = cat2("  via ", state.source_label().as_str());
    push_line(
        &mut out,
        Line::three(
            Span::styled(OUTCOME_BULLET, theme.status_accent()),
            Span::styled("Question", theme.status_accent()),
            Span::new(via, theme.status()),
        ),
    );
    push_line(
        &mut out,
        Line::one(
            Span::new(cat2("  ", state.message.as_str()), Style::plain().fg(theme.fg())),
        ),
    );
    if state.fields.len() > 0 {
        push_lines(&mut out, build_field_lines(state, theme));
        push_line(
            &mut out,
            Line::one(Span::new(hint_of(state), Style::plain().fg(theme.dim()))),
        );
    }
    assert(out.deep_view() =~= state.deep_view().question_lines(*theme));
    out
}

/// A question in its area.
pub fn draw_elicitation_popup(app: &App, area: Area) -> (r: Vec<Paint>)
    ensures
        r.deep_view() == app@.question_panel(area),
{
    let theme = app.theme;
    let mut out: Vec<Paint> = Vec::new();
    assert(out.deep_view() =~= Seq::<PaintView>::empty());
    if let Some(state) = &app.elicitation {
        if area.height == 0 || area.width == 0 {
            return out;
        }
        paint(&mut out, Paint::Fill { area, style: theme.popup_bg() });
        let inner = Area {
            x: shift(area.x, 1),
            y: area.y,
            width: less(area.width, 2),
            height: area.height,
        };
        let ghost back = seq![PaintView::Fill { area, style: theme.popup_bg() }];
        if inner.width == 0 {
            assert(out.deep_view() =~= app@.question_panel(area));
            return out;
        }
        let lines = build_question_lines(state, &theme);
        let ghost lv = lines.deep_view();
        let style = theme.popup_bg();
        let n: usize = if lines.len() <= inner.height as usize {
            lines.len()
        } else {
            inner.height as usize
        };
        let mut i: usize = 0;
        assert(out.deep_view() =~= back + in_rows(inner, lv, style, 0));
        while i < n
            invariant
                i <= n <= lines@.len(),
                lv == lines.deep_view(),
                out.deep_view() == back + in_rows(inner, lv, style, i as int),
            decreases n - i,
        {
            let ghost before = out.deep_view();
            assert(lv[i as int] == lines@[i as int].deep_view());
            paint(&mut out, Paint::line(row_of(inner, i), lines[i].clone(), style));
            assert(out.deep_view() =~= back + in_rows(inner, lv, style, i + 1));
            i = i + 1;
        }
        assert(out.deep_view() =~= app@.question_panel(area));
    }
    out
}

// ── mentions ─────────────────────────────────────────────────────────────────

/// A file that a mention may mean.
pub open spec fn file_row(theme: Theme) -> spec_fn(FileIndexEntryLiteView) -> LineView {
    |e: FileIndexEntryLiteView|
        seq![
            span_of(
                if e.is_dir {
                    "[D] "@
                } else {
                    "[F] "@
                },
                theme.status(),
            ),
            span_of(e.path, theme.input()),
        ]
}

impl AppView {
    /// What the panel for mentions lists.
    pub open spec fn mention_rows(self) -> Seq<LineView> {
        if self.file_index_loading && self.file_index.len() == 0 {
            seq![
                seq![
                    span_of(
                        frame_at(SpinnerKind::Braille, self.tick) + " indexing files"@,
                        self.theme.thinking(),
                    ),
                ],
            ]
        } else {
            match (self.file_index_error, self.mention_state) {
                (Some(error), _) => seq![
                    seq![span_of("file index error: "@ + error, self.theme.error_text())],
                ],
                (None, Some(m)) => if m.results.len() == 0 {
                    seq![seq![span_of("no matches for @"@ + m.query, self.theme.info_text())]]
                } else {
                    m.results.map_values(file_row(self.theme))
                },
                (None, None) => Seq::empty(),
            }
        }
    }

    /// The panel for mentions in its area.
    pub open spec fn mention_panel(self, area: Area) -> PictureView {
        let rows = self.mention_rows();
        if area.height == 0 || area.width == 0 || rows.len() == 0 {
            Seq::empty()
        } else {
            seq![
                PaintView::List {
                    area,
                    title: Some(
                        match self.mention_state {
                            Some(m) => " @ files - "@ + m.query + " "@,
                            None => " @ files "@,
                        },
                    ),
                    rows,
                    style: self.theme.popup_bg(),
                    highlight: Some(self.theme.selected()),
                    selected: match self.mention_state {
                        Some(m) => if self.file_index_loading {
                            None
                        } else {
                            Some(m.selected_index)
                        },
                        None => None,
                    },
                    offset: 0,
                },
            ]
        }
    }
}

fn build_file_rows(theme: &Theme, results: &Vec<crate::app::FileIndexEntryLite>) -> (r: Vec<Line>)
    ensures
        r.deep_view() == results.deep_view().map_values(file_row(*theme)),
{
    let ghost rv = results.deep_view();
    let ghost f = file_row(*theme);
    let mut rows: Vec<Line> = Vec::new();
    assert(rows.deep_view() =~= rv.take(0).map_values(f));
    let mut i: usize = 0;
    while i < results.len()
        invariant
            i <= results@.len(),
            rv == results.deep_view(),
            f == file_row(*theme),
            rows.deep_view() == rv.take(i as int).map_values(f),
        decreases results@.len() - i,
    {
        assert(rv[i as int] == results@[i as int].deep_view());
        push_line(
            &mut rows,
            Line::two(
                Span::styled(
                    if results[i].is_dir {
                        "[D] "
                    } else {
                        "[F] "
                    },
                    theme.status(),
                ),
                Span::styled(results[i].path.as_str(), theme.input()),
            ),
        );
        assert(rv.take(i + 1).map_values(f) =~= rv.take(i as int).map_values(f).push(
            f(rv[i as int]),
        ));
        i = i + 1;
    }
    assert(rv.take(i as int) =~= rv);
    rows
}

fn build_mention_rows(app: &App) -> (r: Vec<Line>)
    ensures
        r.deep_view() == app@.mention_rows(),
{
    let theme = app.theme;
    let mut rows: Vec<Line> = Vec::new();
    assert(rows.deep_view() =~= Seq::<LineView>::empty());
    if app.file_index_loading && app.file_index.len() == 0 {
        let text = cat2(spinner(SpinnerKind::Braille, app.tick), " indexing files");
        push_line(&mut rows, Line::one(Span::new(text, theme.thinking())));
    } else if let Some(error) = &app.file_index_error {
        push_line(
            &mut rows,
            Line::one(Span::new(cat2("file index error: ", error.as_str()), theme.error_text())),
        );
    } else if let Some(m) = &app.mention_state {
        if m.results.len() > 0 {
            return build_file_rows(&theme, &m.results);
        }
        push_line(
            &mut rows,
            Line::one(Span::new(cat2("no matches for @", m.query.as_str()), theme.info_text())),
        );
    }
    assert(rows.deep_view() =~= app@.mention_rows());
    rows
}

/// The panel for mentions in its area.
pub fn draw_mention_panel(app: &App, area: Area) -> (r: Vec<Paint>)
    ensures
        r.deep_view() == app@.mention_panel(area),
{
    let theme = app.theme;
    let mut out: Vec<Paint> = Vec::new();
    assert(out.deep_view() =~= Seq::<PaintView>::empty());
    if area.height == 0 || area.width == 0 {
        return out;
    }
    let rows = build_mention_rows(app);
    if rows.len() == 0 {
        return out;
    }
    let (title, selected) = match &app.mention_state {
        Some(m) => (
            cat3(" @ files - ", m.query.as_str(), " "),
            if app.file_index_loading {
                None
            } else {
                Some(m.selected_index)
            },
        ),
        None => (owned(" @ files "), None),
    };
    let list = Paint::List {
        area,
        title: Some(title),
        rows,
        style: theme.popup_bg(),
        highlight: Some(theme.selected()),
        selected,
        offset: 0,
    };
    paint(&mut out, list);
    assert(out.deep_view() =~= app@.mention_panel(area));
    out
}

} // verus!
