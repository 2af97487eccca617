//! What popups show.
use crate::app::{
    App, AppLogEntry, AppLogEntryView, AppView, FileIndexEntryLiteView, PopupItem, PopupItemView,
};
use crate::canvas::{
    beyond, centered, centered_rect, inner, inside, larger, less, line_paint, list_paint, paint,
    paint_all, shift, smaller, split, split_into, text_paint, Area, Axis, Bound, Paint, PaintView,
    PictureView,
};
use crate::clock::{as_seen, relative_time};
use crate::layout::numbers;
use crate::protocol::{SessionSummary, SessionSummaryView};
use crate::seqs::{least, monus};
use crate::session::law_popup_items_exist;
use crate::shortcuts::{key_sections, shortcut_sections, ShortcutSection, ShortcutSectionView};
use crate::style::{
    push_line, push_span, raw_line, span_of, Line, LineView, Span, Style,
};
use crate::symbols::{
    ARROW_DOWN, ARROW_UP, COLLAPSE_CLOSED, COLLAPSE_OPEN, COLOR_SWATCH, ELLIPSIS,
};
use crate::text::{
    align_right, blanks, byte_len, bytes, cat2, cat3, count_text, decimal, join, joined,
    lines as text_lines, number, opt_is, owned, pieces, right_aligned, spaces,
    split as split_text, split_lines, take_chars,
};
use crate::theme::{
    filtered_themes, lemma_shown_themes_exist, shown_themes, u32_to_color, Base16Palette,
    PaletteView, Theme,
};
use vstd::prelude::*;

verus! {

// ── texts that have to fit ───────────────────────────────────────────────────

/// A text cut to a width, with a mark in its last column.
pub open spec fn cut_to(s: Seq<char>, width: int) -> Seq<char> {
    if s.len() > width {
        s.take(least(monus(width, 1), s.len() as int)) + ELLIPSIS@
    } else {
        s
    }
}

/// A text cut to a width.
pub fn cut(s: &str, width: usize) -> (r: String)
    ensures
        r@ == cut_to(s@, width as int),
{
    if s.unicode_len() > width {
        let n: usize = width.saturating_sub(1);
        cat2(take_chars(s, n).as_str(), ELLIPSIS)
    } else {
        owned(s)
    }
}

/// A text with blanks behind it up to a width.
pub open spec fn left_aligned(s: Seq<char>, width: int) -> Seq<char> {
    s + spaces(monus(width, s.len() as int) as nat)
}

/// A text with blanks behind it up to a width.
pub fn align_left(s: &str, width: usize) -> (r: String)
    ensures
        r@ == left_aligned(s@, width as int),
{
    let n: usize = width.saturating_sub(s.unicode_len());
    cat2(s, blanks(n).as_str())
}

/// The last parts of a path that fit, behind a mark.
pub open spec fn fitting_tail(parts: Seq<Seq<char>>, width: int) -> Option<Seq<char>>
    decreases parts.len(),
{
    if parts.len() == 0 {
        None
    } else {
        let tail = "\u{2026}/"@ + joined(parts, "/"@);
        if tail.len() <= width {
            Some(tail)
        } else {
            fitting_tail(parts.skip(1), width)
        }
    }
}

/// Having characters.
pub open spec fn non_empty() -> spec_fn(Seq<char>) -> bool {
    |s: Seq<char>| s.len() > 0
}

/// A path that fits: all of it, as many of its last parts as fit, or its first
/// characters; nothing where there is no room.
pub open spec fn fitting_path(path: Seq<char>, width: int) -> Seq<char> {
    if path.len() <= width {
        path
    } else if width <= 0 {
        Seq::empty()
    } else {
        match fitting_tail(pieces(path, "/"@).filter(non_empty()), width) {
            Some(tail) => tail,
            None => cut_to(path, width),
        }
    }
}

/// A path that fits into so many characters.
pub fn short_cwd(path: &str, max_chars: usize) -> (r: String)
    ensures
        r@ == fitting_path(path@, max_chars as int),
{
    if path.unicode_len() <= max_chars {
        return owned(path);
    }
    if max_chars == 0 {
        return String::new();
    }
    let all = split_text(path, "/");
    let ghost av = all.deep_view();
    let ghost p = non_empty();
    let mut parts: Vec<String> = Vec::new();
    let mut i: usize = 0;
    assert(parts.deep_view() =~= av.take(0).filter(p)) by {
        reveal(Seq::filter);
    }
    while i < all.len()
        invariant
            i <= all@.len(),
            av == all.deep_view(),
            p == non_empty(),
            parts.deep_view() == av.take(i as int).filter(p),
        decreases all@.len() - i,
    {
        let ghost before = parts.deep_view();
        assert(av[i as int] == all@[i as int]@);
        proof {
            crate::seqs::lemma_filter_step(av, p, i as int);
        }
        if all[i].as_str().unicode_len() > 0 {
            parts.push(all[i].clone());
            assert(parts.deep_view() =~= before.push(av[i as int]));
        }
        i = i + 1;
    }
    proof {
        crate::seqs::lemma_take_all(av);
    }
    let ghost whole = parts.deep_view();
    while parts.len() > 0
        invariant
            fitting_tail(parts.deep_view(), max_chars as int) == fitting_tail(
                whole,
                max_chars as int,
            ),
            whole == av.filter(p),
            av == pieces(path@, "/"@),
            p == non_empty(),
            path@.len() > max_chars > 0,
        decreases parts@.len(),
    {
        let candidate = cat2("\u{2026}/", join(&parts, "/").as_str());
        if candidate.as_str().unicode_len() <= max_chars {
            return candidate;
        }
        let ghost before = parts.deep_view();
        let _ = parts.remove(0);
        assert(parts.deep_view() =~= before.skip(1));
    }
    cut(path, max_chars)
}

/// A path that is cut fits.
pub proof fn law_short_paths_fit(path: Seq<char>, width: int)
    requires
        width >= 0,
    ensures
        fitting_path(path, width).len() <= width,
{
    reveal_strlit("\u{2026}");
    if path.len() > width && width > 0 {
        lemma_fitting_tail(pieces(path, "/"@).filter(non_empty()), width);
    }
}

proof fn lemma_fitting_tail(parts: Seq<Seq<char>>, width: int)
    ensures
        fitting_tail(parts, width) is Some ==> fitting_tail(parts, width)->0.len() <= width,
    decreases parts.len(),
{
    if parts.len() > 0 {
        lemma_fitting_tail(parts.skip(1), width);
    }
}

// ── what most popups share ───────────────────────────────────────────────────

/// The rows of a popup with a filter: title, filter, one more line, list, hint.
pub open spec fn filter_bounds() -> Seq<Bound> {
    seq![
        Bound::Length(1),
        Bound::Length(1),
        Bound::Length(1),
        Bound::AtLeast(1),
        Bound::Length(1),
    ]
}

/// The rows of the popup for a new session: title, path, gap, list, hint.
pub open spec fn new_session_bounds() -> Seq<Bound> {
    seq![
        Bound::Length(1),
        Bound::Length(1),
        Bound::Length(1),
        Bound::AtLeast(0),
        Bound::Length(1),
    ]
}

/// The rows of the help popup: title, gap, keys, hint.
pub open spec fn help_bounds() -> Seq<Bound> {
    seq![Bound::Length(1), Bound::Length(1), Bound::AtLeast(1), Bound::Length(1)]
}

/// A popup in the middle of the screen, of the given shares of it, with rows.
pub open spec fn popup_at(
    screen: Area,
    percent_x: int,
    percent_y: int,
    bounds: Seq<Bound>,
    popup: Area,
    rows: Seq<Area>,
) -> bool {
    &&& centered(percent_x, percent_y, screen, popup)
    &&& split_into(inside(popup), Axis::Rows, bounds, rows)
}

fn filter_popup_rows(area: Area) -> (r: Vec<Area>)
    ensures
        split_into(area, Axis::Rows, filter_bounds(), r@),
{
    let bounds = vec![
        Bound::Length(1),
        Bound::Length(1),
        Bound::Length(1),
        Bound::AtLeast(1),
        Bound::Length(1),
    ];
    assert(bounds@ =~= filter_bounds());
    split(area, Axis::Rows, &bounds)
}

/// The background and the title of a popup.
pub open spec fn popup_start(theme: Theme, popup: Area, top: Area, title: Seq<char>) -> PictureView {
    seq![
        PaintView::Clear(popup),
        PaintView::Fill { area: popup, style: theme.popup_bg() },
        line_paint(top, seq![span_of(title, theme.popup_title())], theme.popup_bg()),
    ]
}

/// The filter of a popup, with the cursor behind its `typed` columns.
pub open spec fn filter_row(theme: Theme, area: Area, filter: Seq<char>, typed: int) -> PictureView {
    seq![
        line_paint(
            area,
            seq![span_of("> "@, theme.popup_title()), span_of(filter, theme.popup_bg())],
            theme.popup_bg(),
        ),
        PaintView::Cursor { x: beyond(area.x, 2 + typed), y: area.y },
    ]
}

/// A remark in a popup.
pub open spec fn remark(theme: Theme, area: Area, text: Seq<char>) -> PaintView {
    line_paint(area, seq![span_of(text, theme.status())], theme.popup_bg())
}

fn start_popup(theme: &Theme, popup: Area, top: Area, title: &str) -> (r: Vec<Paint>)
    ensures
        r.deep_view() == popup_start(*theme, popup, top, title@),
{
    let mut out: Vec<Paint> = Vec::new();
    paint(&mut out, Paint::Clear(popup));
    paint(&mut out, Paint::Fill { area: popup, style: theme.popup_bg() });
    paint(
        &mut out,
        Paint::line(top, Line::one(Span::styled(title, theme.popup_title())), theme.popup_bg()),
    );
    assert(out.deep_view() =~= popup_start(*theme, popup, top, title@));
    out
}

fn paint_filter(out: &mut Vec<Paint>, theme: &Theme, area: Area, filter: &str, typed: usize)
    ensures
        final(out).deep_view() == old(out).deep_view() + filter_row(
            *theme,
            area,
            filter@,
            typed as int,
        ),
{
    let ghost before = out.deep_view();
    paint(
        out,
        Paint::line(
            area,
            Line::two(
                Span::styled("> ", theme.popup_title()),
                Span::styled(filter, theme.popup_bg()),
            ),
            theme.popup_bg(),
        ),
    );
    let x = shift(shift(area.x, 2), typed);
    paint(out, Paint::Cursor { x, y: area.y });
    assert(out.deep_view() =~= before + filter_row(*theme, area, filter@, typed as int));
}

fn paint_remark(out: &mut Vec<Paint>, theme: &Theme, area: Area, text: &str)
    ensures
        final(out).deep_view() == old(out).deep_view().push(remark(*theme, area, text@)),
{
    paint(
        out,
        Paint::line(area, Line::one(Span::styled(text, theme.status())), theme.popup_bg()),
    );
}

// ── models ───────────────────────────────────────────────────────────────────

impl AppView {
    /// A row of the model popup.
    pub open spec fn model_row(self, i: int) -> LineView {
        let m = self.shown_models()[i];
        let here = i == self.model_cursor;
        seq![
            span_of(
                " "@ + m.provider + " "@,
                if here {
                    self.theme.selected()
                } else {
                    self.theme.status()
                },
            ),
            span_of(
                m.label,
                if here {
                    self.theme.selected()
                } else {
                    self.theme.popup_bg()
                },
            ),
        ]
    }

    /// The model popup, in its area and its rows.
    pub open spec fn model_popup(self, popup: Area, rows: Seq<Area>) -> PictureView {
        popup_start(self.theme, popup, rows[0], "select model"@) + filter_row(
            self.theme,
            rows[1],
            self.model_filter,
            bytes(self.model_filter) as int,
        ) + seq![
            list_paint(
                rows[3],
                Seq::new(self.shown_models().len(), |i: int| self.model_row(i)),
                self.theme.popup_bg(),
                Some(self.model_cursor),
            ),
            remark(self.theme, rows[4], " esc cancel  enter select"@),
        ]
    }
}

/// The model popup, in its area and its rows.
pub fn paint_model_popup(app: &App, popup: Area, rows: &Vec<Area>) -> (r: Vec<Paint>)
    requires
        rows@.len() == 5,
    ensures
        r.deep_view() == app@.model_popup(popup, rows@),
{
    let theme = app.theme;
    let mut out = start_popup(&theme, popup, rows[0], "select model");
    paint_filter(
        &mut out,
        &theme,
        rows[1],
        app.model_filter.as_str(),
        byte_len(app.model_filter.as_str()),
    );
    let shown = app.filtered_models();
    let ghost sv = app@.shown_models();
    let ghost goal = Seq::new(sv.len(), |i: int| app@.model_row(i));
    let mut list: Vec<Line> = Vec::new();
    assert(list.deep_view() =~= goal.take(0));
    let mut i: usize = 0;
    while i < shown.len()
        invariant
            i <= shown@.len(),
            shown.deep_view() == sv,
            sv == app@.shown_models(),
            theme == app@.theme,
            goal == Seq::new(sv.len(), |i: int| app@.model_row(i)),
            list.deep_view() == goal.take(i as int),
        decreases shown@.len() - i,
    {
        assert(sv[i as int] == shown@[i as int].deep_view());
        let here = i == app.model_cursor;
        push_line(
            &mut list,
            Line::two(
                Span::new(
                    cat3(" ", shown[i].provider.as_str(), " "),
                    if here {
                        theme.selected()
                    } else {
                        theme.status()
                    },
                ),
                Span::styled(
                    shown[i].label.as_str(),
                    if here {
                        theme.selected()
                    } else {
                        theme.popup_bg()
                    },
                ),
            ),
        );
        assert(goal[i as int] == app@.model_row(i as int));
        assert(goal.take(i + 1) =~= goal.take(i as int).push(goal[i as int]));
        i = i + 1;
    }
    assert(goal.take(i as int) =~= goal);
    paint(&mut out, Paint::list(rows[3], list, theme.popup_bg(), Some(app.model_cursor)));
    paint_remark(&mut out, &theme, rows[4], " esc cancel  enter select");
    assert(out.deep_view() =~= app@.model_popup(popup, rows@));
    out
}

/// The model popup in the middle of the screen.
pub fn draw_model_popup(app: &App, screen: Area) -> (r: Vec<Paint>)
    ensures
        exists|popup: Area, rows: Seq<Area>|
            popup_at(screen, 60, 60, filter_bounds(), popup, rows) && r.deep_view()
                == #[trigger] app@.model_popup(popup, rows),
{
    let popup = centered_rect(60, 60, screen);
    let rows = filter_popup_rows(inner(popup));
    paint_model_popup(app, popup, &rows)
}

// ── sessions ─────────────────────────────────────────────────────────────────

/// The header of a group of sessions.
pub open spec fn group_header(
    cwd: Option<Seq<char>>,
    session_count: usize,
    collapsed: bool,
    width: int,
    header: Style,
    dim: Style,
) -> LineView {
    seq![
        span_of(
            " "@ + (if collapsed {
                COLLAPSE_CLOSED@
            } else {
                COLLAPSE_OPEN@
            }) + " "@,
            header,
        ),
        span_of(
            fitting_path(
                match cwd {
                    Some(d) => d,
                    None => "(no workspace)"@,
                },
                monus(width, 16),
            ),
            header,
        ),
        span_of("  ("@ + decimal(session_count as nat) + ") "@, dim),
    ]
}

/// The header of a group of sessions.
pub fn build_group_header(
    cwd: &Option<String>,
    session_count: usize,
    collapsed: bool,
    width: usize,
    header: Style,
    dim: Style,
) -> (r: Line)
    ensures
        r.deep_view() == group_header(
            cwd.deep_view(),
            session_count,
            collapsed,
            width as int,
            header,
            dim,
        ),
{
    let mark = if collapsed {
        COLLAPSE_CLOSED
    } else {
        COLLAPSE_OPEN
    };
    let shown = match cwd {
        Some(d) => short_cwd(d.as_str(), width.saturating_sub(16)),
        None => short_cwd("(no workspace)", width.saturating_sub(16)),
    };
    Line::three(
        Span::new(cat3(" ", mark, " "), header),
        Span::new(shown, header),
        Span::new(cat3("  (", count_text(session_count).as_str(), ") "), dim),
    )
}

/// The first characters of an id.
pub open spec fn short_id(id: Seq<char>) -> Seq<char> {
    id.take(least(8, id.len() as int))
}

/// When a session changed, as seen now.
pub open spec fn session_age(s: SessionSummaryView, now: int) -> Seq<char> {
    match s.updated_at {
        Some(t) => as_seen(t, now),
        None => Seq::empty(),
    }
}

/// The title of a session.
pub open spec fn session_title(s: SessionSummaryView) -> Seq<char> {
    match s.title {
        Some(t) => t,
        None => "(untitled)"@,
    }
}

/// When a session changed, as seen now.
pub fn age_of(s: &SessionSummary, now: i64) -> (r: String)
    ensures
        r@ == session_age(s.deep_view(), now as int),
{
    match &s.updated_at {
        Some(t) => relative_time(t.as_str(), now),
        None => String::new(),
    }
}

/// The title of a session.
pub fn title_of(s: &SessionSummary) -> (r: String)
    ensures
        r@ == session_title(s.deep_view()),
{
    match &s.title {
        Some(t) => t.clone(),
        None => owned("(untitled)"),
    }
}

/// A style, or that of the selected row.
pub open spec fn unless_selected(theme: Theme, selected: bool, style: Style) -> Style {
    if selected {
        theme.selected()
    } else {
        style
    }
}

/// A style, or that of the selected row.
pub fn choose_style(theme: &Theme, selected: bool, style: Style) -> (r: Style)
    ensures
        r == unless_selected(*theme, selected, style),
{
    if selected {
        theme.selected()
    } else {
        style
    }
}

impl AppView {
    /// A session in the session popup: its id, its title, whether it is the
    /// open one, and when it changed.
    pub open spec fn popup_session_row(
        self,
        s: SessionSummaryView,
        selected: bool,
        width: int,
        now: int,
    ) -> LineView {
        let theme = self.theme;
        let active = self.session_id == Some(s.session_id);
        let id_part = "   "@ + short_id(s.session_id) + " "@;
        let active_part = if active {
            " active "@
        } else {
            Seq::empty()
        };
        let time_part = " "@ + session_age(s, now) + " "@;
        let room = monus(width, (id_part.len() + active_part.len() + time_part.len()) as int);
        let title = cut_to(session_title(s), room);
        let dim = unless_selected(theme, selected, theme.status());
        seq![
            span_of(id_part, dim),
            span_of(title, unless_selected(theme, selected, theme.popup_bg())),
            span_of(spaces(monus(room, title.len() as int) as nat), dim),
        ] + (if active {
            seq![span_of(active_part, unless_selected(theme, selected, theme.status_accent()))]
        } else {
            Seq::empty()
        }) + seq![span_of(time_part, unless_selected(theme, selected, theme.session_time()))]
    }

    /// A row of the session popup.
    pub open spec fn session_popup_row(self, i: int, width: int, now: int) -> LineView {
        let selected = i == self.session_cursor;
        let theme = self.theme;
        match self.popup_items()[i] {
            PopupItemView::GroupHeader { cwd, session_count, collapsed } => group_header(
                cwd,
                session_count,
                collapsed,
                width,
                unless_selected(theme, selected, theme.status_accent()),
                unless_selected(theme, selected, theme.status()),
            ),
            PopupItemView::Session { group_idx, session_idx } => self.popup_session_row(
                self.session_groups[group_idx as int].sessions[session_idx as int],
                selected,
                width,
                now,
            ),
        }
    }

    /// The session popup, in its area and its rows.
    pub open spec fn session_popup(self, popup: Area, rows: Seq<Area>, now: int) -> PictureView {
        popup_start(self.theme, popup, rows[0], "sessions"@) + filter_row(
            self.theme,
            rows[1],
            self.session_filter,
            self.session_filter.len() as int,
        ) + seq![
            list_paint(
                rows[3],
                Seq::new(
                    self.popup_items().len(),
                    |i: int| self.session_popup_row(i, rows[3].width as int, now),
                ),
                self.theme.popup_bg(),
                Some(self.session_cursor),
            ),
            remark(
                self.theme,
                rows[4],
                " esc cancel  enter load/collapse  del delete  ctrl-n new"@,
            ),
        ]
    }
}

fn build_popup_session_row(
    app: &App,
    s: &SessionSummary,
    selected: bool,
    width: usize,
    now: i64,
) -> (r: Line)
    ensures
        r.deep_view() == app@.popup_session_row(s.deep_view(), selected, width as int, now as int),
{
    let theme = app.theme;
    let active = opt_is(&app.session_id, s.session_id.as_str());
    let id_part = cat3("   ", take_chars(s.session_id.as_str(), 8).as_str(), " ");
    let active_part = if active {
        owned(" active ")
    } else {
        String::new()
    };
    let time_part = cat3(" ", age_of(s, now).as_str(), " ");
    let room: usize = width.saturating_sub(id_part.as_str().unicode_len()).saturating_sub(
        active_part.as_str().unicode_len(),
    ).saturating_sub(time_part.as_str().unicode_len());
    let title = cut(title_of(s).as_str(), room);
    let gap: usize = room.saturating_sub(title.as_str().unicode_len());
    let dim = choose_style(&theme, selected, theme.status());
    let line = Line::three(
        Span::new(id_part, dim),
        Span::new(title, choose_style(&theme, selected, theme.popup_bg())),
        Span::new(blanks(gap), dim),
    );
    let mut spans = line.spans;
    if active {
        push_span(
            &mut spans,
            Span::new(active_part, choose_style(&theme, selected, theme.status_accent())),
        );
    }
    push_span(
        &mut spans,
        Span::new(time_part, choose_style(&theme, selected, theme.session_time())),
    );
    let r = Line { spans };
    assert(r.deep_view() =~= app@.popup_session_row(
        s.deep_view(),
        selected,
        width as int,
        now as int,
    ));
    r
}

fn build_session_popup_rows(app: &App, width: usize, now: i64) -> (r: Vec<Line>)
    ensures
        r.deep_view() == Seq::new(
            app@.popup_items().len(),
            |i: int| app@.session_popup_row(i, width as int, now as int),
        ),
{
    let theme = app.theme;
    let items = app.visible_popup_items();
    let ghost iv = app@.popup_items();
    let ghost goal = Seq::new(
        iv.len(),
        |i: int| app@.session_popup_row(i, width as int, now as int),
    );
    let mut list: Vec<Line> = Vec::new();
    assert(list.deep_view() =~= goal.take(0));
    let mut i: usize = 0;
    while i < items.len()
        invariant
            i <= items@.len(),
            items.deep_view() == iv,
            iv == app@.popup_items(),
            theme == app@.theme,
            goal == Seq::new(
                iv.len(),
                |i: int| app@.session_popup_row(i, width as int, now as int),
            ),
            list.deep_view() == goal.take(i as int),
        decreases items@.len() - i,
    {
        assert(iv[i as int] == items@[i as int].deep_view());
        proof {
            app.lemma_lists_fit();
            law_popup_items_exist(app@, i as int);
        }
        let selected = i == app.session_cursor;
        let line = match &items[i] {
            PopupItem::GroupHeader { cwd, session_count, collapsed } => build_group_header(
                cwd,
                *session_count,
                *collapsed,
                width,
                choose_style(&theme, selected, theme.status_accent()),
                choose_style(&theme, selected, theme.status()),
            ),
            PopupItem::Session { group_idx, session_idx } => {
                let group = &app.session_groups[*group_idx];
                let s = &group.sessions[*session_idx];
                build_popup_session_row(app, s, selected, width, now)
            },
        };
        push_line(&mut list, line);
        assert(goal[i as int] == app@.session_popup_row(i as int, width as int, now as int));
        assert(goal.take(i + 1) =~= goal.take(i as int).push(goal[i as int]));
        i = i + 1;
    }
    assert(goal.take(i as int) =~= goal);
    list
}

/// The session popup, in its area and its rows, `now` seconds after the start
/// of 1970.
pub fn paint_session_popup(app: &App, popup: Area, rows: &Vec<Area>, now: i64) -> (r: Vec<Paint>)
    requires
        rows@.len() == 5,
    ensures
        r.deep_view() == app@.session_popup(popup, rows@, now as int),
{
    let theme = app.theme;
    let mut out = start_popup(&theme, popup, rows[0], "sessions");
    paint_filter(
        &mut out,
        &theme,
        rows[1],
        app.session_filter.as_str(),
        app.session_filter.as_str().unicode_len(),
    );
    let list = build_session_popup_rows(app, rows[3].width as usize, now);
    paint(&mut out, Paint::list(rows[3], list, theme.popup_bg(), Some(app.session_cursor)));
    paint_remark(
        &mut out,
        &theme,
        rows[4],
        " esc cancel  enter load/collapse  del delete  ctrl-n new",
    );
    assert(out.deep_view() =~= app@.session_popup(popup, rows@, now as int));
    out
}

/// The session popup in the middle of the screen.
pub fn draw_session_popup(app: &App, screen: Area, now: i64) -> (r: Vec<Paint>)
    ensures
        exists|popup: Area, rows: Seq<Area>|
            popup_at(screen, 70, 60, filter_bounds(), popup, rows) && r.deep_view()
                == #[trigger] app@.session_popup(popup, rows, now as int),
{
    let popup = centered_rect(70, 60, screen);
    let rows = filter_popup_rows(inner(popup));
    paint_session_popup(app, popup, &rows, now)
}

// ── themes ───────────────────────────────────────────────────────────────────

/// The colours of a theme, the first `n`.
pub open spec fn swatches(t: PaletteView, back: crate::style::Color, n: int) -> LineView {
    Seq::new(
        n as nat,
        |i: int| span_of(COLOR_SWATCH@, Style::plain().fg(u32_to_color(t.colors@[i])).bg(back)),
    )
}

/// A theme in the theme popup: a mark on the one in use, its label, and its
/// colours.
pub open spec fn theme_row(
    theme: Theme,
    t: PaletteView,
    in_use: bool,
    width: int,
    selected: bool,
) -> LineView {
    let room = monus(width, 19);
    let label = cut_to(t.label, room);
    let dim = unless_selected(theme, selected, theme.status());
    seq![
        span_of(
            if in_use {
                "* "@
            } else {
                "  "@
            },
            dim,
        ),
        span_of(label, unless_selected(theme, selected, theme.popup_bg())),
        span_of(spaces((monus(room, label.len() as int) + 1) as nat), dim),
    ] + swatches(
        t,
        if selected {
            theme.bg_hl()
        } else {
            theme.bg_dim()
        },
        16,
    )
}

/// A theme in the theme popup.
pub fn build_theme_list_item(
    theme: &Theme,
    t: &Base16Palette,
    in_use: bool,
    width: usize,
    selected: bool,
) -> (r: Line)
    ensures
        r.deep_view() == theme_row(*theme, t.deep_view(), in_use, width as int, selected),
{
    let ghost tv = t.deep_view();
    let room: usize = width.saturating_sub(19);
    let label = cut(t.label.as_str(), room);
    let gap: usize = room.saturating_sub(label.as_str().unicode_len());
    let dim = choose_style(theme, selected, theme.status());
    let back = if selected {
        theme.bg_hl()
    } else {
        theme.bg_dim()
    };
    let line = Line::three(
        Span::styled(
            if in_use {
                "* "
            } else {
                "  "
            },
            dim,
        ),
        Span::new(label, choose_style(theme, selected, theme.popup_bg())),
        Span::new(cat2(blanks(gap).as_str(), " "), dim),
    );
    proof {
        reveal_strlit(" ");
        assert(spaces(gap as nat) + " "@ =~= spaces((gap + 1) as nat));
    }
    let ghost head = line.deep_view();
    let mut spans = line.spans;
    let mut i: usize = 0;
    assert(spans.deep_view() =~= head + swatches(tv, back, 0));
    while i < 16
        invariant
            i <= 16,
            tv == t.deep_view(),
            spans.deep_view() == head + swatches(tv, back, i as int),
        decreases 16 - i,
    {
        push_span(
            &mut spans,
            Span::styled(COLOR_SWATCH, Style::plain().fg(u32_to_color(t.colors[i])).bg(back)),
        );
        assert(spans.deep_view() =~= head + swatches(tv, back, i + 1));
        i = i + 1;
    }
    Line { spans }
}

impl AppView {
    /// A row of the theme popup.
    pub open spec fn theme_popup_row(self, i: int, width: int) -> LineView {
        let at = shown_themes(self.themes, self.theme_filter)[i];
        theme_row(
            self.theme,
            self.themes[at],
            at == self.theme.current,
            width,
            i == self.theme_cursor,
        )
    }

    /// The theme popup, in its area and its rows.
    pub open spec fn theme_popup(self, popup: Area, rows: Seq<Area>) -> PictureView {
        popup_start(self.theme, popup, rows[0], "theme"@) + filter_row(
            self.theme,
            rows[1],
            self.theme_filter,
            self.theme_filter.len() as int,
        ) + seq![
            list_paint(
                rows[3],
                Seq::new(
                    shown_themes(self.themes, self.theme_filter).len(),
                    |i: int| self.theme_popup_row(i, rows[3].width as int),
                ),
                self.theme.popup_bg(),
                Some(self.theme_cursor),
            ),
            remark(self.theme, rows[4], " esc cancel  enter apply"@),
        ]
    }
}

fn build_theme_rows(app: &App, width: usize) -> (r: Vec<Line>)
    ensures
        r.deep_view() == Seq::new(
            shown_themes(app@.themes, app@.theme_filter).len(),
            |i: int| app@.theme_popup_row(i, width as int),
        ),
{
    let shown = filtered_themes(&app.themes, app.theme_filter.as_str());
    let ghost sv = shown_themes(app@.themes, app@.theme_filter);
    let ghost goal = Seq::new(sv.len(), |i: int| app@.theme_popup_row(i, width as int));
    let mut list: Vec<Line> = Vec::new();
    assert(list.deep_view() =~= goal.take(0));
    assert(numbers(shown@).len() == shown@.len());
    let mut i: usize = 0;
    while i < shown.len()
        invariant
            i <= shown@.len(),
            numbers(shown@) == sv,
            sv.len() == shown@.len(),
            sv == shown_themes(app@.themes, app@.theme_filter),
            goal == Seq::new(sv.len(), |i: int| app@.theme_popup_row(i, width as int)),
            list.deep_view() == goal.take(i as int),
        decreases shown@.len() - i,
    {
        let at: usize = shown[i];
        proof {
            assert(numbers(shown@)[i as int] == at);
            lemma_shown_themes_exist(app@.themes, app@.theme_filter, i as int);
            assert(app@.themes[at as int] == app.themes@[at as int].deep_view());
        }
        push_line(
            &mut list,
            build_theme_list_item(
                &app.theme,
                &app.themes[at],
                at == app.theme.current,
                width,
                i == app.theme_cursor,
            ),
        );
        assert(goal[i as int] == app@.theme_popup_row(i as int, width as int));
        assert(goal.take(i + 1) =~= goal.take(i as int).push(goal[i as int]));
        i = i + 1;
    }
    assert(goal.take(i as int) =~= goal);
    list
}

/// The theme popup, in its area and its rows.
pub fn paint_theme_popup(app: &App, popup: Area, rows: &Vec<Area>) -> (r: Vec<Paint>)
    requires
        rows@.len() == 5,
    ensures
        r.deep_view() == app@.theme_popup(popup, rows@),
{
    let theme = app.theme;
    let mut out = start_popup(&theme, popup, rows[0], "theme");
    paint_filter(
        &mut out,
        &theme,
        rows[1],
        app.theme_filter.as_str(),
        app.theme_filter.as_str().unicode_len(),
    );
    let list = build_theme_rows(app, rows[3].width as usize);
    paint(&mut out, Paint::list(rows[3], list, theme.popup_bg(), Some(app.theme_cursor)));
    paint_remark(&mut out, &theme, rows[4], " esc cancel  enter apply");
    assert(out.deep_view() =~= app@.theme_popup(popup, rows@));
    out
}

/// The theme popup in the middle of the screen.
pub fn draw_theme_popup(app: &App, screen: Area) -> (r: Vec<Paint>)
    ensures
        exists|popup: Area, rows: Seq<Area>|
            popup_at(screen, 70, 60, filter_bounds(), popup, rows) && r.deep_view()
                == #[trigger] app@.theme_popup(popup, rows),
{
    let popup = centered_rect(70, 60, screen);
    let rows = filter_popup_rows(inner(popup));
    paint_theme_popup(app, popup, &rows)
}

// ── a new session ────────────────────────────────────────────────────────────

/// A text with a line for each of its lines.
pub open spec fn raw_text(text: Seq<char>) -> Seq<LineView> {
    text_lines(text).map_values(as_raw_line())
}

/// A line as spans without a style.
pub open spec fn as_raw_line() -> spec_fn(Seq<char>) -> LineView {
    |l: Seq<char>| raw_line(l)
}

/// A text with a line for each of its lines.
pub fn raw_lines(text: &str) -> (r: Vec<Line>)
    ensures
        r.deep_view() == raw_text(text@),
{
    let parts = split_lines(text);
    let ghost pv = parts.deep_view();
    let ghost f = as_raw_line();
    let mut out: Vec<Line> = Vec::new();
    assert(out.deep_view() =~= pv.take(0).map_values(f));
    let mut i: usize = 0;
    while i < parts.len()
        invariant
            i <= parts@.len(),
            pv == parts.deep_view(),
            f == as_raw_line(),
            out.deep_view() == pv.take(i as int).map_values(f),
        decreases parts@.len() - i,
    {
        assert(pv[i as int] == parts@[i as int]@);
        push_line(&mut out, Line::raw(parts[i].as_str()));
        assert(pv.take(i + 1).map_values(f) =~= pv.take(i as int).map_values(f).push(
            f(pv[i as int]),
        ));
        i = i + 1;
    }
    assert(pv.take(i as int) =~= pv);
    out
}

/// A path among the completions.
pub open spec fn completion_row(theme: Theme) -> spec_fn(FileIndexEntryLiteView) -> LineView {
    |e: FileIndexEntryLiteView| seq![span_of(e.path, theme.input())]
}

impl AppView {
    /// There are completions to show.
    pub open spec fn completing_path(self) -> bool {
        match self.new_session_completion {
            Some(c) => c.results.len() > 0,
            None => false,
        }
    }

    /// The area of the popup for a new session: in the middle of the screen, as
    /// wide as it may be, and higher with completions.
    pub open spec fn new_session_area(self, screen: Area) -> Area {
        let width = smaller(larger(less(screen.width, 4), 24), 72);
        let height = larger(
            smaller(
                less(screen.height, 4),
                if self.completing_path() {
                    10
                } else {
                    6
                },
            ),
            4,
        );
        Area {
            x: beyond(screen.x, less(screen.width, width) as int / 2),
            y: beyond(screen.y, less(screen.height, height) as int / 2),
            width,
            height,
        }
    }

    /// The completions of the path.
    pub open spec fn completion_list(self, area: Area) -> PictureView {
        if self.completing_path() {
            let c = self.new_session_completion->0;
            seq![
                PaintView::List {
                    area,
                    title: None,
                    rows: c.results.map_values(completion_row(self.theme)),
                    style: self.theme.popup_bg(),
                    highlight: Some(self.theme.selected()),
                    selected: Some(c.selected_index),
                    offset: 0,
                },
            ]
        } else {
            Seq::empty()
        }
    }

    /// The popup for a new session, in its area and its rows.
    pub open spec fn new_session_popup(self, popup: Area, rows: Seq<Area>) -> PictureView {
        popup_start(self.theme, popup, rows[0], "new session"@) + seq![
            remark(self.theme, rows[1], "workspace path (empty = default cwd)"@),
            text_paint(rows[2], raw_text("> "@ + self.new_session_path), self.theme.popup_bg()),
            PaintView::Cursor {
                x: beyond(rows[2].x, 2 + self.new_session_cursor),
                y: rows[2].y,
            },
        ] + self.completion_list(rows[3]) + seq![
            remark(self.theme, rows[4], "tab complete  enter start  esc cancel"@),
        ]
    }
}

fn paint_completions(app: &App, area: Area) -> (r: Vec<Paint>)
    ensures
        r.deep_view() == app@.completion_list(area),
{
    let theme = app.theme;
    let mut out: Vec<Paint> = Vec::new();
    assert(out.deep_view() =~= Seq::<PaintView>::empty());
    if let Some(c) = &app.new_session_completion {
        if c.results.len() > 0 {
            let ghost rv = c.results.deep_view();
            let ghost f = completion_row(theme);
            let mut rows: Vec<Line> = Vec::new();
            assert(rows.deep_view() =~= rv.take(0).map_values(f));
            let mut i: usize = 0;
            while i < c.results.len()
                invariant
                    i <= c.results@.len(),
                    rv == c.results.deep_view(),
                    f == completion_row(theme),
                    rows.deep_view() == rv.take(i as int).map_values(f),
                decreases c.results@.len() - i,
            {
                assert(rv[i as int] == c.results@[i as int].deep_view());
                push_line(
                    &mut rows,
                    Line::one(Span::styled(c.results[i].path.as_str(), theme.input())),
                );
                assert(rv.take(i + 1).map_values(f) =~= rv.take(i as int).map_values(f).push(
                    f(rv[i as int]),
                ));
                i = i + 1;
            }
            assert(rv.take(i as int) =~= rv);
            paint(
                &mut out,
                Paint::List {
                    area,
                    title: None,
                    rows,
                    style: theme.popup_bg(),
                    highlight: Some(theme.selected()),
                    selected: Some(c.selected_index),
                    offset: 0,
                },
            );
            assert(out.deep_view() =~= app@.completion_list(area));
        }
    }
    out
}

/// The popup for a new session, in its area and its rows.
pub fn paint_new_session_popup(app: &App, popup: Area, rows: &Vec<Area>) -> (r: Vec<Paint>)
    requires
        rows@.len() == 5,
    ensures
        r.deep_view() == app@.new_session_popup(popup, rows@),
{
    let theme = app.theme;
    let mut out = start_popup(&theme, popup, rows[0], "new session");
    paint_remark(&mut out, &theme, rows[1], "workspace path (empty = default cwd)");
    let typed = cat2("> ", app.new_session_path.as_str());
    paint(&mut out, Paint::text(rows[2], raw_lines(typed.as_str()), theme.popup_bg()));
    let x = shift(shift(rows[2].x, 2), app.new_session_cursor);
    paint(&mut out, Paint::Cursor { x, y: rows[2].y });
    paint_all(&mut out, paint_completions(app, rows[3]));
    paint_remark(&mut out, &theme, rows[4], "tab complete  enter start  esc cancel");
    assert(out.deep_view() =~= app@.new_session_popup(popup, rows@));
    out
}

/// Where the popup for a new session stands.
pub fn place_new_session_popup(app: &App, screen: Area) -> (r: Area)
    ensures
        r == app@.new_session_area(screen),
{
    let completing = match &app.new_session_completion {
        Some(c) => c.results.len() > 0,
        None => false,
    };
    let width = smaller(larger(less(screen.width, 4), 24), 72);
    let height = larger(
        smaller(
            less(screen.height, 4),
            if completing {
                10
            } else {
                6
            },
        ),
        4,
    );
    Area {
        x: shift(screen.x, (less(screen.width, width) / 2) as usize),
        y: shift(screen.y, (less(screen.height, height) / 2) as usize),
        width,
        height,
    }
}

/// The popup for a new session in the middle of the screen.
pub fn draw_new_session_popup(app: &App, screen: Area) -> (r: Vec<Paint>)
    ensures
        exists|rows: Seq<Area>|
            split_into(
                inside(app@.new_session_area(screen)),
                Axis::Rows,
                new_session_bounds(),
                rows,
            ) && r.deep_view() == #[trigger] app@.new_session_popup(
                app@.new_session_area(screen),
                rows,
            ),
{
    let popup = place_new_session_popup(app, screen);
    let bounds = vec![
        Bound::Length(1),
        Bound::Length(1),
        Bound::Length(1),
        Bound::AtLeast(0),
        Bound::Length(1),
    ];
    assert(bounds@ =~= new_session_bounds());
    let rows = split(inner(popup), Axis::Rows, &bounds);
    paint_new_session_popup(app, popup, &rows)
}

// ── the log ──────────────────────────────────────────────────────────────────

/// When an entry was made, its level and what it is about.
pub open spec fn log_prefix(e: AppLogEntryView) -> Seq<char> {
    " "@ + right_aligned(decimal((e.elapsed / 1_000_000_000) as nat), 6) + "."@ + decimal(
        ((e.elapsed % 1_000_000_000) / 100_000_000) as nat,
    ) + " "@ + left_aligned(e.level.name(), 5) + " "@ + left_aligned(e.target, 10) + " "@
}

/// A row of the log popup.
pub open spec fn log_row(theme: Theme, width: int) -> spec_fn(AppLogEntryView) -> LineView {
    |e: AppLogEntryView|
        seq![
            span_of(log_prefix(e), theme.status()),
            span_of(
                cut_to(e.message, monus(width, log_prefix(e).len() as int)),
                theme.popup_bg(),
            ),
        ]
}

impl AppView {
    /// The rows of the log popup.
    pub open spec fn log_rows(self, width: int) -> Seq<LineView> {
        if self.shown_logs().len() == 0 {
            seq![
                seq![span_of(" no log entries match current filter"@, self.theme.status())],
            ]
        } else {
            self.shown_logs().map_values(log_row(self.theme, width))
        }
    }

    /// The log popup, in its area and its rows.
    pub open spec fn log_popup(self, popup: Area, rows: Seq<Area>) -> PictureView {
        let n = self.shown_logs().len() as int;
        popup_start(self.theme, popup, rows[0], "logs"@) + filter_row(
            self.theme,
            rows[1],
            self.log_filter,
            self.log_filter.len() as int,
        ) + seq![
            remark(self.theme, rows[2], "level: "@ + self.log_level_filter.name() + "+"@),
            list_paint(
                rows[3],
                self.log_rows(rows[3].width as int),
                self.theme.popup_bg(),
                if n == 0 {
                    None
                } else {
                    Some(least(self.log_cursor as int, n - 1) as usize)
                },
            ),
            remark(self.theme, rows[4], " esc close  tab level  type filter"@),
        ]
    }
}

fn build_log_prefix(e: &AppLogEntry) -> (r: String)
    ensures
        r@ == log_prefix(e.deep_view()),
{
    let secs = align_right(number((e.elapsed / 1_000_000_000) as u128).as_str(), 6);
    let tenth = number(((e.elapsed % 1_000_000_000) / 100_000_000) as u128);
    let mut out = cat3(" ", secs.as_str(), ".");
    out.append(tenth.as_str());
    out.append(" ");
    out.append(align_left(e.level.label(), 5).as_str());
    out.append(" ");
    out.append(align_left(e.target, 10).as_str());
    out.append(" ");
    out
}

fn build_log_rows(app: &App, width: usize) -> (r: (Vec<Line>, usize))
    ensures
        r.0.deep_view() == app@.log_rows(width as int),
        r.1 == app@.shown_logs().len(),
{
    let theme = app.theme;
    let shown = app.filtered_logs();
    let ghost sv = app@.shown_logs();
    let ghost f = log_row(theme, width as int);
    let mut out: Vec<Line> = Vec::new();
    assert(out.deep_view() =~= sv.take(0).map_values(f));
    if shown.len() == 0 {
        push_line(
            &mut out,
            Line::one(Span::styled(" no log entries match current filter", theme.status())),
        );
        assert(out.deep_view() =~= app@.log_rows(width as int));
        return (out, 0);
    }
    let mut i: usize = 0;
    while i < shown.len()
        invariant
            i <= shown@.len(),
            sv == shown.deep_view(),
            f == log_row(theme, width as int),
            out.deep_view() == sv.take(i as int).map_values(f),
        decreases shown@.len() - i,
    {
        assert(sv[i as int] == shown@[i as int].deep_view());
        let prefix = build_log_prefix(shown[i]);
        let room: usize = width.saturating_sub(prefix.as_str().unicode_len());
        let message = cut(shown[i].message.as_str(), room);
        push_line(
            &mut out,
            Line::two(Span::new(prefix, theme.status()), Span::new(message, theme.popup_bg())),
        );
        assert(sv.take(i + 1).map_values(f) =~= sv.take(i as int).map_values(f).push(
            f(sv[i as int]),
        ));
        i = i + 1;
    }
    assert(sv.take(i as int) =~= sv);
    (out, shown.len())
}

/// The log popup, in its area and its rows.
pub fn paint_log_popup(app: &App, popup: Area, rows: &Vec<Area>) -> (r: Vec<Paint>)
    requires
        rows@.len() == 5,
    ensures
        r.deep_view() == app@.log_popup(popup, rows@),
{
    let theme = app.theme;
    let mut out = start_popup(&theme, popup, rows[0], "logs");
    paint_filter(
        &mut out,
        &theme,
        rows[1],
        app.log_filter.as_str(),
        app.log_filter.as_str().unicode_len(),
    );
    let level = cat3("level: ", app.log_level_filter.label(), "+");
    paint_remark(&mut out, &theme, rows[2], level.as_str());
    let (list, n) = build_log_rows(app, rows[3].width as usize);
    let selected: Option<usize> = if n == 0 {
        None
    } else if app.log_cursor <= n - 1 {
        Some(app.log_cursor)
    } else {
        Some(n - 1)
    };
    paint(&mut out, Paint::list(rows[3], list, theme.popup_bg(), selected));
    paint_remark(&mut out, &theme, rows[4], " esc close  tab level  type filter");
    assert(out.deep_view() =~= app@.log_popup(popup, rows@));
    out
}

/// The log popup in the middle of the screen.
pub fn draw_log_popup(app: &App, screen: Area) -> (r: Vec<Paint>)
    ensures
        exists|popup: Area, rows: Seq<Area>|
            popup_at(screen, 80, 70, filter_bounds(), popup, rows) && r.deep_view()
                == #[trigger] app@.log_popup(popup, rows),
{
    let popup = centered_rect(80, 70, screen);
    let rows = filter_popup_rows(inner(popup));
    paint_log_popup(app, popup, &rows)
}

// ── help ─────────────────────────────────────────────────────────────────────

/// A key in the help popup.
pub open spec fn help_row(theme: Theme) -> spec_fn((Seq<char>, Seq<char>)) -> LineView {
    |row: (Seq<char>, Seq<char>)|
        seq![
            span_of("  "@ + left_aligned(row.0, 14), theme.status()),
            span_of(row.1, theme.popup_bg()),
        ]
}

/// A section of the help popup.
pub open spec fn section_rows(theme: Theme, s: ShortcutSectionView) -> Seq<LineView> {
    seq![seq![span_of("  "@ + s.title, theme.popup_title())]] + s.rows.map_values(help_row(theme))
}

/// The first `n` sections of the help popup, with an empty row before each but
/// the first.
pub open spec fn help_rows(theme: Theme, sections: Seq<ShortcutSectionView>, n: int) -> Seq<
    LineView,
>
    decreases n,
{
    if n <= 0 {
        Seq::empty()
    } else if n == 1 {
        section_rows(theme, sections[0])
    } else {
        help_rows(theme, sections, n - 1).push(seq![span_of(Seq::empty(), Style::plain())])
            + section_rows(theme, sections[n - 1])
    }
}

impl AppView {
    /// The help popup, in its area and its rows.
    pub open spec fn help_popup(self, popup: Area, rows: Seq<Area>) -> PictureView {
        popup_start(self.theme, popup, rows[0], "shortcuts"@) + seq![
            PaintView::List {
                area: rows[2],
                title: None,
                rows: help_rows(self.theme, key_sections(), key_sections().len() as int),
                style: self.theme.popup_bg(),
                highlight: None,
                selected: None,
                offset: self.help_scroll,
            },
            remark(self.theme, rows[3], " "@ + ARROW_UP@ + ARROW_DOWN@ + " scroll  esc close"@),
        ]
    }
}

fn push_section(out: &mut Vec<Line>, theme: &Theme, s: &ShortcutSection)
    ensures
        final(out).deep_view() == old(out).deep_view() + section_rows(*theme, s.deep_view()),
{
    let ghost base = out.deep_view();
    let ghost rv = s.deep_view().rows;
    let ghost f = help_row(*theme);
    push_line(out, Line::one(Span::new(cat2("  ", s.title), theme.popup_title())));
    let ghost head = seq![seq![span_of("  "@ + s.title@, theme.popup_title())]];
    assert(out.deep_view() =~= base + head + rv.take(0).map_values(f));
    let mut i: usize = 0;
    while i < s.rows.len()
        invariant
            i <= s.rows@.len(),
            rv == s.deep_view().rows,
            f == help_row(*theme),
            out.deep_view() == base + head + rv.take(i as int).map_values(f),
        decreases s.rows@.len() - i,
    {
        let (key, desc) = s.rows[i];
        assert(rv[i as int] == (key@, desc@));
        let ghost before = out.deep_view();
        push_line(
            out,
            Line::two(
                Span::new(cat2("  ", align_left(key, 14).as_str()), theme.status()),
                Span::styled(desc, theme.popup_bg()),
            ),
        );
        assert(out.deep_view() == before.push(f(rv[i as int])));
        assert(rv.take(i + 1).map_values(f) =~= rv.take(i as int).map_values(f).push(
            f(rv[i as int]),
        ));
        assert(out.deep_view() =~= base + head + rv.take(i + 1).map_values(f));
        i = i + 1;
    }
    assert(rv.take(i as int) =~= rv);
    assert(out.deep_view() =~= base + section_rows(*theme, s.deep_view()));
}

fn build_help_rows(theme: &Theme) -> (r: Vec<Line>)
    ensures
        r.deep_view() == help_rows(*theme, key_sections(), key_sections().len() as int),
{
    let all = shortcut_sections();
    let ghost sv = key_sections();
    let mut out: Vec<Line> = Vec::new();
    assert(out.deep_view() =~= help_rows(*theme, sv, 0));
    let mut i: usize = 0;
    while i < all.len()
        invariant
            i <= all@.len(),
            sv == all.deep_view(),
            out.deep_view() == help_rows(*theme, sv, i as int),
        decreases all@.len() - i,
    {
        assert(sv[i as int] == all@[i as int].deep_view());
        let ghost before = out.deep_view();
        if i > 0 {
            push_line(&mut out, Line::one(Span::new(String::new(), Style::plain())));
            assert(out.deep_view() == before.push(
                seq![span_of(Seq::empty(), Style::plain())],
            ));
        } else {
            assert(before + section_rows(*theme, sv[0]) =~= section_rows(*theme, sv[0]));
        }
        push_section(&mut out, theme, &all[i]);
        i = i + 1;
    }
    out
}

/// The help popup, in its area and its rows.
pub fn paint_help_popup(app: &App, popup: Area, rows: &Vec<Area>) -> (r: Vec<Paint>)
    requires
        rows@.len() == 4,
    ensures
        r.deep_view() == app@.help_popup(popup, rows@),
{
    let theme = app.theme;
    let mut out = start_popup(&theme, popup, rows[0], "shortcuts");
    paint(
        &mut out,
        Paint::List {
            area: rows[2],
            title: None,
            rows: build_help_rows(&theme),
            style: theme.popup_bg(),
            highlight: None,
            selected: None,
            offset: app.help_scroll,
        },
    );
    let hint = cat2(cat3(" ", ARROW_UP, ARROW_DOWN).as_str(), " scroll  esc close");
    paint_remark(&mut out, &theme, rows[3], hint.as_str());
    assert(out.deep_view() =~= app@.help_popup(popup, rows@));
    out
}

/// The help popup in the middle of the screen.
pub fn draw_help_popup(app: &App, screen: Area) -> (r: Vec<Paint>)
    ensures
        exists|popup: Area, rows: Seq<Area>|
            popup_at(screen, 70, 80, help_bounds(), popup, rows) && r.deep_view()
                == #[trigger] app@.help_popup(popup, rows),
{
    let popup = centered_rect(70, 80, screen);
    let bounds = vec![Bound::Length(1), Bound::Length(1), Bound::AtLeast(1), Bound::Length(1)];
    assert(bounds@ =~= help_bounds());
    let rows = split(inner(popup), Axis::Rows, &bounds);
    paint_help_popup(app, popup, &rows)
}

} // verus!
