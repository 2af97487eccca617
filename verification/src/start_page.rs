//! The page that lists the sessions.
use crate::app::{App, AppView, StartPageItem, StartPageItemView, MAX_RECENT_SESSIONS};
use crate::canvas::{
    beyond, fit, fitted, less, line_paint, paint, paint_all, shift, smaller, split, split_into,
    Area, Axis, Bound, Paint, PaintView, PictureView,
};
use crate::header::draw_header;
use crate::popups::{
    age_of, build_group_header, choose_style, group_header, session_age, session_title, short_id,
    title_of, unless_selected,
};
use crate::protocol::{SessionSummary, SessionSummaryView};
use crate::seqs::{least, monus};
use crate::session::law_start_items_exist;
use crate::style::{push_line, push_span, span_of, Color, Line, LineView, Span, SpanView, Style};
use crate::symbols::ELLIPSIS;
use crate::text::{
    blanks, byte_len, bytes, cat2, cat3, count_text, decimal, one_char, spaces, take_chars,
    to_chars,
};
use crate::theme::Theme;
use vstd::prelude::*;

verus! {

// ── the list ─────────────────────────────────────────────────────────────────

/// A row of the list of sessions.
#[derive(Debug)]
pub struct StartPageRow {
    /// What the row stands for.
    pub item: StartPageItem,
    pub line: Line,
    /// The cursor is on it.
    pub selected: bool,
}

#[verifier::ext_equal]
pub struct StartPageRowView {
    pub item: StartPageItemView,
    pub line: LineView,
    pub selected: bool,
}

impl DeepView for StartPageRow {
    type V = StartPageRowView;

    open spec fn deep_view(&self) -> StartPageRowView {
        StartPageRowView {
            item: self.item.deep_view(),
            line: self.line.deep_view(),
            selected: self.selected,
        }
    }
}

/// A session on the start page: its id, its title, and when it changed.
pub open spec fn start_session_row(
    theme: Theme,
    s: SessionSummaryView,
    selected: bool,
    width: int,
    now: int,
) -> LineView {
    let age = session_age(s, now);
    let room = monus(width, 15 + bytes(age) as int);
    let full = session_title(s);
    let title = if full.len() > room && room > 1 {
        full.take(room - 1) + ELLIPSIS@
    } else {
        full
    };
    let dim = unless_selected(theme, selected, theme.start_dim());
    let main = unless_selected(theme, selected, theme.start_session());
    seq![
        span_of("   "@ + short_id(s.session_id) + "  "@, dim),
        span_of(title, main),
        span_of(spaces(monus(room, title.len() as int) as nat), main),
        span_of("  "@ + age + " "@, dim),
    ]
}

impl AppView {
    /// The line of a row.
    pub open spec fn start_line(self, i: int, width: int, now: int) -> LineView {
        let theme = self.theme;
        let selected = i == self.session_cursor;
        let dim = unless_selected(theme, selected, theme.start_dim());
        match self.start_items()[i] {
            StartPageItemView::GroupHeader { cwd, session_count, collapsed } => group_header(
                cwd,
                session_count,
                collapsed,
                width,
                unless_selected(theme, selected, theme.start_header()),
                dim,
            ),
            StartPageItemView::Session { group_idx, session_idx } => start_session_row(
                theme,
                self.session_groups[group_idx as int].sessions[session_idx as int],
                selected,
                width,
                now,
            ),
            StartPageItemView::ShowMore { remaining } => seq![
                span_of(
                    "   \u{2026}  show all ("@ + decimal(
                        least(remaining + MAX_RECENT_SESSIONS, usize::MAX as int) as nat,
                    ) + " total)"@,
                    dim,
                ),
            ],
        }
    }

    /// A row of the list.
    pub open spec fn start_page_row(self, i: int, width: int, now: int) -> StartPageRowView {
        StartPageRowView {
            item: self.start_items()[i],
            line: self.start_line(i, width, now),
            selected: i == self.session_cursor,
        }
    }

    /// The rows of the list.
    pub open spec fn start_page_rows(self, width: int, now: int) -> Seq<StartPageRowView> {
        Seq::new(self.start_items().len(), |i: int| self.start_page_row(i, width, now))
    }
}

fn build_start_session(
    theme: &Theme,
    s: &SessionSummary,
    selected: bool,
    width: usize,
    now: i64,
) -> (r: Line)
    ensures
        r.deep_view() == start_session_row(
            *theme,
            s.deep_view(),
            selected,
            width as int,
            now as int,
        ),
{
    let age = age_of(s, now);
    let room: usize = width.saturating_sub(15).saturating_sub(byte_len(age.as_str()));
    let full = title_of(s);
    let title = if full.as_str().unicode_len() > room && room > 1 {
        cat2(take_chars(full.as_str(), room - 1).as_str(), ELLIPSIS)
    } else {
        full
    };
    let gap: usize = room.saturating_sub(title.as_str().unicode_len());
    let dim = choose_style(theme, selected, theme.start_dim());
    let main = choose_style(theme, selected, theme.start_session());
    let id = take_chars(s.session_id.as_str(), 8);
    let line = Line::three(
        Span::new(cat3("   ", id.as_str(), "  "), dim),
        Span::new(title, main),
        Span::new(blanks(gap), main),
    );
    let mut spans = line.spans;
    push_span(&mut spans, Span::new(cat3("  ", age.as_str(), " "), dim));
    let r = Line { spans };
    assert(r.deep_view() =~= start_session_row(
        *theme,
        s.deep_view(),
        selected,
        width as int,
        now as int,
    ));
    r
}

fn build_start_line(app: &App, item: &StartPageItem, i: usize, width: usize, now: i64) -> (r: Line)
    requires
        i < app@.start_items().len(),
        item.deep_view() == app@.start_items()[i as int],
    ensures
        r.deep_view() == app@.start_line(i as int, width as int, now as int),
{
    let theme = app.theme;
    let selected = i == app.session_cursor;
    let dim = choose_style(&theme, selected, theme.start_dim());
    proof {
        app.lemma_lists_fit();
        law_start_items_exist(app@, i as int);
    }
    match item {
        StartPageItem::GroupHeader { cwd, session_count, collapsed } => build_group_header(
            cwd,
            *session_count,
            *collapsed,
            width,
            choose_style(&theme, selected, theme.start_header()),
            dim,
        ),
        StartPageItem::Session { group_idx, session_idx } => {
            let group = &app.session_groups[*group_idx];
            build_start_session(&theme, &group.sessions[*session_idx], selected, width, now)
        },
        StartPageItem::ShowMore { remaining } => {
            let total: usize = remaining.saturating_add(MAX_RECENT_SESSIONS);
            Line::one(
                Span::new(
                    cat3("   \u{2026}  show all (", count_text(total).as_str(), " total)"),
                    dim,
                ),
            )
        },
    }
}

/// The rows of the list of sessions, `now` seconds after the start of 1970.
pub fn build_start_page_rows(app: &App, area_width: usize, now: i64) -> (r: Vec<StartPageRow>)
    ensures
        r.deep_view() == app@.start_page_rows(area_width as int, now as int),
{
    let items = app.visible_start_items();
    let ghost iv = app@.start_items();
    let ghost goal = app@.start_page_rows(area_width as int, now as int);
    let mut rows: Vec<StartPageRow> = Vec::new();
    assert(rows.deep_view() =~= goal.take(0));
    let mut i: usize = 0;
    while i < items.len()
        invariant
            i <= items@.len(),
            iv == items.deep_view(),
            iv == app@.start_items(),
            goal == app@.start_page_rows(area_width as int, now as int),
            rows.deep_view() == goal.take(i as int),
        decreases items@.len() - i,
    {
        assert(iv[i as int] == items@[i as int].deep_view());
        let ghost before = rows.deep_view();
        let row = StartPageRow {
            item: items[i].clone(),
            line: build_start_line(app, &items[i], i, area_width, now),
            selected: i == app.session_cursor,
        };
        assert(row.deep_view() == goal[i as int]);
        rows.push(row);
        assert(rows.deep_view() =~= before.push(goal[i as int]));
        assert(goal.take(i + 1) =~= goal.take(i as int).push(goal[i as int]));
        i = i + 1;
    }
    assert(goal.take(i as int) =~= goal);
    rows
}

// ── letters that flicker ─────────────────────────────────────────────────────

/// A number that looks random.
#[verifier::opaque]
pub open spec fn scatter(seed: usize) -> usize {
    let h = seed.wrapping_mul(2654435761usize);
    let g = h ^ (h >> 16usize);
    g.wrapping_mul(0x45d9f3busize) ^ (g >> 13usize)
}

/// A number that looks random.
pub fn prng(seed: usize) -> (r: usize)
    ensures
        r == scatter(seed),
{
    reveal(scatter);
    let h: usize = seed.wrapping_mul(2654435761);
    let g: usize = h ^ (h >> 16usize);
    g.wrapping_mul(0x45d9f3b) ^ (g >> 13usize)
}

/// Letters flicker at this tick.
pub open spec fn flickering(tick: usize) -> bool {
    scatter(tick / 3) % 7 == 0
}

/// The colours that a wave runs through.
pub open spec fn wave(theme: Theme, phase: usize) -> Color {
    let k = phase % 5;
    if k == 1 {
        theme.info()
    } else if k == 2 {
        theme.ok()
    } else if k == 3 {
        theme.warn()
    } else {
        theme.accent()
    }
}

/// The characters that stand in for letters.
pub open spec fn stand_ins() -> Seq<char> {
    "░▒▓█▌▐▄▀┃╋╳"@
}

/// A letter in the colour of the wave; at some ticks another character stands
/// in for it where `hit` scatters to a multiple of `every`.
pub open spec fn letter(
    theme: Theme,
    tick: usize,
    c: char,
    hit: usize,
    every: usize,
    pick: usize,
    phase: usize,
) -> SpanView {
    if c == ' ' {
        span_of(" "@, Style::plain())
    } else if flickering(tick) && scatter(hit) as int % every as int == 0 {
        span_of(
            seq![stand_ins()[scatter(pick) as int % 11]],
            Style::plain().fg(theme.err()).bold(),
        )
    } else {
        span_of(seq![c], Style::plain().fg(wave(theme, phase)).bold())
    }
}

fn wave_color(theme: &Theme, phase: usize) -> (r: Color)
    ensures
        r == wave(*theme, phase),
{
    let k: usize = phase % 5;
    if k == 1 {
        theme.info()
    } else if k == 2 {
        theme.ok()
    } else if k == 3 {
        theme.warn()
    } else {
        theme.accent()
    }
}

fn build_letter(
    theme: &Theme,
    tick: usize,
    c: char,
    hit: usize,
    every: usize,
    pick: usize,
    phase: usize,
) -> (r: Span)
    requires
        every > 0,
    ensures
        r.deep_view() == letter(*theme, tick, c, hit, every, pick, phase),
{
    if c == ' ' {
        return Span::styled(" ", Style::plain());
    }
    if prng(tick / 3) % 7 == 0 && prng(hit) % every == 0 {
        let all = to_chars("░▒▓█▌▐▄▀┃╋╳");
        proof {
            reveal_strlit("░▒▓█▌▐▄▀┃╋╳");
        }
        let k: usize = prng(pick) % 11;
        Span::new(one_char(all[k]), Style::plain().fg(theme.err()).bold())
    } else {
        Span::new(one_char(c), Style::plain().fg(wave_color(theme, phase)).bold())
    }
}

/// The name of the program in large letters.
pub open spec fn art() -> Seq<Seq<char>> {
    seq![
        "  ___                        __  __ _____ "@,
        " / _ \\ _   _  ___ _ __ _   _|  \\/  |_   _|"@,
        "| | | | | | |/ _ \\ '__| | | | |\\/| | | |  "@,
        "| |_| | |_| |  __/ |  | |_| | |  | | | |  "@,
        " \\__\\_\\\\__,_|\\___|_|   \\__, |_|  |_| |_|  "@,
        "                       |___/               "@,
    ]
}

/// Columns of the large letters.
pub const ART_WIDTH: u16 = 43;

/// Rows of the large letters.
pub const ART_ROWS: usize = 6;

fn art_row(row: usize) -> (r: &'static str)
    requires
        row < ART_ROWS,
    ensures
        r@ == art()[row as int],
{
    if row == 0 {
        "  ___                        __  __ _____ "
    } else if row == 1 {
        " / _ \\ _   _  ___ _ __ _   _|  \\/  |_   _|"
    } else if row == 2 {
        "| | | | | | |/ _ \\ '__| | | | |\\/| | | |  "
    } else if row == 3 {
        "| |_| | |_| |  __/ |  | |_| | |  | | | |  "
    } else if row == 4 {
        " \\__\\_\\\\__,_|\\___|_|   \\__, |_|  |_| |_|  "
    } else {
        "                       |___/               "
    }
}

/// The large letters are as wide as `ART_WIDTH`, and no row is wider.
pub proof fn law_art_fits(row: int)
    requires
        0 <= row < ART_ROWS,
    ensures
        art()[row].len() <= ART_WIDTH,
        art()[5].len() == ART_WIDTH,
{
    reveal_strlit("  ___                        __  __ _____ ");
    reveal_strlit(" / _ \\ _   _  ___ _ __ _   _|  \\/  |_   _|");
    reveal_strlit("| | | | | | |/ _ \\ '__| | | | |\\/| | | |  ");
    reveal_strlit("| |_| | |_| |  __/ |  | |_| | |  | | | |  ");
    reveal_strlit(" \\__\\_\\\\__,_|\\___|_|   \\__, |_|  |_| |_|  ");
    reveal_strlit("                       |___/               ");
    assert(row == 0 || row == 1 || row == 2 || row == 3 || row == 4 || row == 5);
}

/// A letter of the large letters.
pub open spec fn art_letter(theme: Theme, tick: usize, row: usize, col: usize) -> SpanView {
    letter(
        theme,
        tick,
        art()[row as int][col as int],
        tick.wrapping_mul((col + 1) as usize).wrapping_add((row * 31) as usize),
        12,
        tick.wrapping_add((col * 13) as usize).wrapping_add((row * 7) as usize),
        ((col + row * 3) as usize).wrapping_add(tick / 3),
    )
}

/// A row of the large letters.
pub open spec fn art_line(theme: Theme, tick: usize, row: int) -> LineView {
    Seq::new(
        art()[row].len(),
        |col: int| art_letter(theme, tick, row as usize, col as usize),
    )
}

/// How far a row of the large letters is off its place.
pub open spec fn art_offset(tick: usize, row: int) -> int {
    if flickering(tick) && scatter((tick / 3).wrapping_add(99)) as int % ART_ROWS as int == row {
        scatter(tick.wrapping_add((row * 7) as usize)) as int % 5 - 2
    } else {
        0
    }
}

/// Where a row of the large letters is drawn.
pub open spec fn art_place(area: Area, tick: usize, row: int) -> Area {
    let x = area.x + less(area.width, ART_WIDTH) as int / 2 + art_offset(tick, row);
    Area {
        x: fitted(
            if x > area.x {
                x
            } else {
                area.x as int
            },
        ),
        y: beyond(area.y, 1 + row),
        width: smaller(ART_WIDTH, area.width),
        height: 1,
    }
}

/// The first `n` rows of the large letters, as far as they lie in the area.
pub open spec fn art_rows(theme: Theme, area: Area, tick: usize, n: int) -> PictureView
    decreases n,
{
    if n <= 0 {
        Seq::empty()
    } else if 1 + (n - 1) >= area.height {
        art_rows(theme, area, tick, n - 1)
    } else {
        art_rows(theme, area, tick, n - 1).push(
            line_paint(
                art_place(area, tick, n - 1),
                art_line(theme, tick, n - 1),
                Style::plain(),
            ),
        )
    }
}

fn build_art_line(theme: &Theme, tick: usize, row: usize) -> (r: Line)
    requires
        row < ART_ROWS,
    ensures
        r.deep_view() == art_line(*theme, tick, row as int),
{
    let v = to_chars(art_row(row));
    let ghost goal = art_line(*theme, tick, row as int);
    proof {
        law_art_fits(row as int);
    }
    let mut spans: Vec<Span> = Vec::new();
    assert(spans.deep_view() =~= goal.take(0));
    let mut col: usize = 0;
    while col < v.len()
        invariant
            col <= v@.len(),
            v@ == art()[row as int],
            v@.len() <= ART_WIDTH,
            row < ART_ROWS,
            goal == art_line(*theme, tick, row as int),
            spans.deep_view() == goal.take(col as int),
        decreases v@.len() - col,
    {
        let hit: usize = tick.wrapping_mul(col + 1).wrapping_add(row * 31);
        let pick: usize = tick.wrapping_add(col * 13).wrapping_add(row * 7);
        let phase: usize = (col + row * 3).wrapping_add(tick / 3);
        let span = build_letter(theme, tick, v[col], hit, 12, pick, phase);
        assert(span.deep_view() == art_letter(*theme, tick, row, col));
        assert(goal[col as int] == span.deep_view());
        push_span(&mut spans, span);
        assert(goal.take(col + 1) =~= goal.take(col as int).push(goal[col as int]));
        col = col + 1;
    }
    assert(goal.take(col as int) =~= goal);
    Line { spans }
}

fn place_art_row(area: Area, tick: usize, row: usize) -> (r: Area)
    requires
        row < ART_ROWS,
    ensures
        r == art_place(area, tick, row as int),
{
    let off: i32 = if prng(tick / 3) % 7 == 0 && prng((tick / 3).wrapping_add(99)) % 6 == row {
        (prng(tick.wrapping_add(row * 7)) % 5) as i32 - 2
    } else {
        0
    };
    let x: i32 = area.x as i32 + (less(area.width, ART_WIDTH) / 2) as i32 + off;
    let x: i32 = if x > area.x as i32 {
        x
    } else {
        area.x as i32
    };
    Area {
        x: if x >= 65535 {
            65535
        } else {
            x as u16
        },
        y: shift(area.y, 1 + row),
        width: smaller(ART_WIDTH, area.width),
        height: 1,
    }
}

fn paint_art(theme: &Theme, area: Area, tick: usize) -> (r: Vec<Paint>)
    ensures
        r.deep_view() == art_rows(*theme, area, tick, ART_ROWS as int),
{
    let mut out: Vec<Paint> = Vec::new();
    assert(out.deep_view() =~= art_rows(*theme, area, tick, 0));
    let mut row: usize = 0;
    while row < ART_ROWS
        invariant
            row <= ART_ROWS,
            out.deep_view() == art_rows(*theme, area, tick, row as int),
        decreases ART_ROWS - row,
    {
        if 1 + row < area.height as usize {
            paint(
                &mut out,
                Paint::line(
                    place_art_row(area, tick, row),
                    build_art_line(theme, tick, row),
                    Style::plain(),
                ),
            );
        }
        row = row + 1;
    }
    out
}

// ── the page ─────────────────────────────────────────────────────────────────

/// Columns of the list, where there is room for them.
pub const CONTENT_WIDTH: u16 = 64;

/// Rows that a screen needs to show the large letters.
pub const ART_MIN_HEIGHT: u16 = 16;

/// Rows for the large letters.
pub open spec fn art_height(screen: Area) -> u16 {
    if screen.height >= ART_MIN_HEIGHT {
        8
    } else {
        0
    }
}

/// The column of the list: where it begins, and how wide it is.
pub open spec fn list_column(screen: Area) -> (u16, u16) {
    let w = smaller(CONTENT_WIDTH, screen.width);
    (beyond(screen.x, less(screen.width, w) as int / 2), w)
}

/// How high the content is between header and hints: letters, filter, a gap,
/// as many rows as fit, and the button; and how much room is above it.
pub open spec fn content_rows(screen: Area, middle: Area, rows: int) -> (u16, u16) {
    let fixed = (art_height(screen) + 4) as u16;
    let shown = smaller(fitted(rows), less(middle.height, fixed));
    let height = smaller(fitted(fixed + shown), middle.height);
    (less(middle.height, height) / 2, height)
}

/// The hints in the last line.
pub open spec fn start_hints(theme: Theme) -> LineView {
    let (a, b) = (theme.status_accent(), theme.status());
    seq![
        span_of(" \u{2191}\u{2193} "@, a),
        span_of("navigate  "@, b),
        span_of("enter "@, a),
        span_of("open/collapse  "@, b),
        span_of("del "@, a),
        span_of("delete  "@, b),
        span_of("C-x n "@, a),
        span_of("new  "@, b),
        span_of("C-x s "@, a),
        span_of("popup  "@, b),
        span_of("C-x m "@, a),
        span_of("model  "@, b),
        span_of("q "@, a),
        span_of("quit"@, b),
    ]
}

/// The text of the button.
pub open spec fn button_text() -> Seq<char> {
    "+ New Session"@
}

/// The button with the cursor on it.
pub open spec fn button_letters(theme: Theme, tick: usize) -> LineView {
    Seq::new(
        button_text().len(),
        |col: int|
            letter(
                theme,
                tick,
                button_text()[col],
                tick.wrapping_mul((col + 1) as usize).wrapping_add(999),
                8,
                tick.wrapping_add((col * 17) as usize).wrapping_add(333),
                (col as usize).wrapping_add(tick / 3),
            ),
    )
}

impl AppView {
    /// The first row to show so that the cursor is among `visible` rows.
    pub open spec fn start_scrolled(self, visible: int, total: int) -> usize {
        let s = self.start_page_scroll as int;
        let c = self.session_cursor as int;
        let below = if c >= least(s + visible, usize::MAX as int) {
            least(c + 1, usize::MAX as int) - visible
        } else {
            s
        };
        let above = if c < below {
            c
        } else {
            below
        };
        least(above, monus(total, visible)) as usize
    }

    /// The first `n` rows of the list from `scroll` on.
    pub open spec fn list_rows(
        self,
        rows: Seq<StartPageRowView>,
        column: (u16, u16),
        list: Area,
        scroll: int,
        n: int,
    ) -> PictureView
        decreases n,
    {
        if n <= 0 {
            Seq::empty()
        } else {
            let row = rows[scroll + n - 1];
            let area = Area {
                x: column.0,
                y: beyond(list.y, n - 1),
                width: column.1,
                height: 1,
            };
            self.list_rows(rows, column, list, scroll, n - 1) + seq![
                PaintView::Fill {
                    area,
                    style: if row.selected {
                        self.theme.selected()
                    } else {
                        self.theme.base()
                    },
                },
                line_paint(area, row.line, Style::plain()),
            ]
        }
    }

    /// What stands in place of an empty list.
    pub open spec fn empty_list(self, column: (u16, u16), list: Area) -> PaintView {
        let text = if self.session_filter.len() == 0 {
            "No sessions yet.  C-x n to start a new one."@
        } else {
            "No sessions match the filter."@
        };
        let w = fitted(text.len() as int);
        line_paint(
            Area {
                x: beyond(column.0, less(column.1, w) as int / 2),
                y: beyond(list.y, list.height as int / 2),
                width: smaller(w, column.1),
                height: 1,
            },
            seq![span_of(text, self.theme.status())],
            Style::plain(),
        )
    }

    /// The list in its area, and the state with its first row remembered.
    #[verifier::opaque]
    pub open spec fn session_list(
        self,
        rows: Seq<StartPageRowView>,
        column: (u16, u16),
        list: Area,
    ) -> (AppView, PictureView) {
        let total = rows.len() as int;
        let visible = list.height as int;
        if total == 0 {
            (self, seq![self.empty_list(column, list)])
        } else {
            let scroll = self.start_scrolled(visible, total);
            (
                AppView { start_page_scroll: scroll, ..self },
                self.list_rows(
                    rows,
                    column,
                    list,
                    scroll as int,
                    least(visible, total - scroll),
                ),
            )
        }
    }

    /// The filter, with the cursor behind it.
    pub open spec fn start_filter(self, column: (u16, u16), row: Area) -> PictureView {
        let area = Area { x: column.0, y: row.y, width: column.1, height: 1 };
        seq![
            line_paint(
                area,
                seq![
                    span_of(" > "@, self.theme.start_header()),
                    span_of(self.session_filter, Style::plain().fg(self.theme.fg())),
                ],
                self.theme.base(),
            ),
            PaintView::Cursor { x: beyond(area.x, 3 + self.session_filter.len() as int), y: area.y },
        ]
    }

    /// The button below the list.
    pub open spec fn start_button(self, column: (u16, u16), row: Area, rows: int) -> PaintView {
        let w = smaller(13, column.1);
        PaintView::Text {
            area: Area {
                x: beyond(column.0, less(column.1, w) as int / 2),
                y: row.y,
                width: w,
                height: 1,
            },
            lines: seq![
                if self.session_cursor == rows {
                    button_letters(self.theme, self.tick as usize)
                } else {
                    seq![span_of(button_text(), self.theme.start_header().bold())]
                },
            ],
            style: Style::plain(),
            wrap: false,
            scroll: 0,
            centered: true,
        }
    }

    /// The start page: the screen, its header, middle and hints, and the parts
    /// of its content.
    pub open spec fn start_picture(
        self,
        screen: Area,
        outer: Seq<Area>,
        parts: Seq<Area>,
        now: int,
    ) -> (AppView, PictureView) {
        let column = list_column(screen);
        let rows = self.start_page_rows(column.1 as int, now);
        let (next, list) = self.session_list(rows, column, parts[3]);
        (
            next,
            seq![
                self.header_paint(
                    outer[0],
                    seq![span_of(" "@ + self.status, self.theme.status())],
                    Seq::empty(),
                ),
                line_paint(outer[2], start_hints(self.theme), self.theme.base()),
            ] + (if screen.height >= ART_MIN_HEIGHT {
                art_rows(self.theme, parts[0], self.tick as usize, ART_ROWS as int)
            } else {
                Seq::empty()
            }) + self.start_filter(column, parts[1]) + list + seq![
                self.start_button(column, parts[5], rows.len() as int),
            ],
        )
    }
}

fn build_hints(theme: &Theme) -> (r: Line)
    ensures
        r.deep_view() == start_hints(*theme),
{
    let a = theme.status_accent();
    let b = theme.status();
    let spans = vec![
        Span::styled(" \u{2191}\u{2193} ", a),
        Span::styled("navigate  ", b),
        Span::styled("enter ", a),
        Span::styled("open/collapse  ", b),
        Span::styled("del ", a),
        Span::styled("delete  ", b),
        Span::styled("C-x n ", a),
        Span::styled("new  ", b),
        Span::styled("C-x s ", a),
        Span::styled("popup  ", b),
        Span::styled("C-x m ", a),
        Span::styled("model  ", b),
        Span::styled("q ", a),
        Span::styled("quit", b),
    ];
    let r = Line { spans };
    assert(r.deep_view() =~= start_hints(*theme));
    r
}

fn scroll_list(app: &App, visible: usize, total: usize) -> (r: usize)
    requires
        visible <= 65535,
    ensures
        r == app@.start_scrolled(visible as int, total as int),
{
    let s = app.start_page_scroll;
    let c = app.session_cursor;
    let below: usize = if c >= s.saturating_add(visible) {
        c.saturating_add(1) - visible
    } else {
        s
    };
    let above: usize = if c < below {
        c
    } else {
        below
    };
    let last: usize = total.saturating_sub(visible);
    if above <= last {
        above
    } else {
        last
    }
}

fn paint_empty_list(app: &App, column: (u16, u16), list: Area) -> (r: Paint)
    ensures
        r.deep_view() == app@.empty_list(column, list),
{
    let text = if app.session_filter.as_str().unicode_len() == 0 {
        "No sessions yet.  C-x n to start a new one."
    } else {
        "No sessions match the filter."
    };
    let w = fit(text.unicode_len());
    Paint::line(
        Area {
            x: shift(column.0, (less(column.1, w) / 2) as usize),
            y: shift(list.y, (list.height / 2) as usize),
            width: smaller(w, column.1),
            height: 1,
        },
        Line::one(Span::styled(text, app.theme.status())),
        Style::plain(),
    )
}

fn paint_list(app: &mut App, rows: &Vec<StartPageRow>, column: (u16, u16), list: Area) -> (r: Vec<
    Paint,
>)
    ensures
        (final(app)@, r.deep_view()) == old(app)@.session_list(rows.deep_view(), column, list),
        old(app)@.wf() ==> final(app)@.wf(),
{
    reveal(AppView::session_list);
    let mut out: Vec<Paint> = Vec::new();
    if rows.len() == 0 {
        paint(&mut out, paint_empty_list(app, column, list));
        assert(out.deep_view() =~= seq![app@.empty_list(column, list)]);
        return out;
    }
    let theme = app.theme;
    let ghost s = app@;
    let ghost rv = rows.deep_view();
    let visible: usize = list.height as usize;
    let scroll: usize = scroll_list(app, visible, rows.len());
    app.start_page_scroll = scroll;
    let total: usize = rows.len();
    let left: usize = total - scroll;
    let n: usize = if visible <= left {
        visible
    } else {
        left
    };
    let mut k: usize = 0;
    assert(out.deep_view() =~= s.list_rows(rv, column, list, scroll as int, 0));
    while k < n
        invariant
            k <= n,
            n <= total - scroll,
            scroll <= total,
            total == rows@.len(),
            rv == rows.deep_view(),
            theme == s.theme,
            out.deep_view() == s.list_rows(rv, column, list, scroll as int, k as int),
        decreases n - k,
    {
        let ghost before = out.deep_view();
        let row = &rows[scroll + k];
        assert(rv[scroll + k] == row.deep_view());
        let area = Area { x: column.0, y: shift(list.y, k), width: column.1, height: 1 };
        let style = if row.selected {
            theme.selected()
        } else {
            theme.base()
        };
        paint(&mut out, Paint::Fill { area, style });
        paint(&mut out, Paint::line(area, row.line.clone(), Style::plain()));
        assert(out.deep_view() =~= before + seq![
            PaintView::Fill { area, style },
            line_paint(area, row.deep_view().line, Style::plain()),
        ]);
        k = k + 1;
    }
    out
}

fn build_button(theme: &Theme, tick: usize) -> (r: Line)
    ensures
        r.deep_view() == button_letters(*theme, tick),
{
    let v = to_chars("+ New Session");
    let ghost goal = button_letters(*theme, tick);
    proof {
        reveal_strlit("+ New Session");
    }
    let mut spans: Vec<Span> = Vec::new();
    assert(spans.deep_view() =~= goal.take(0));
    let mut col: usize = 0;
    while col < v.len()
        invariant
            col <= v@.len(),
            v@ == button_text(),
            v@.len() == 13,
            goal == button_letters(*theme, tick),
            spans.deep_view() == goal.take(col as int),
        decreases v@.len() - col,
    {
        let hit: usize = tick.wrapping_mul(col + 1).wrapping_add(999);
        let pick: usize = tick.wrapping_add(col * 17).wrapping_add(333);
        let phase: usize = col.wrapping_add(tick / 3);
        let span = build_letter(theme, tick, v[col], hit, 8, pick, phase);
        assert(goal[col as int] == span.deep_view());
        push_span(&mut spans, span);
        assert(goal.take(col + 1) =~= goal.take(col as int).push(goal[col as int]));
        col = col + 1;
    }
    assert(goal.take(col as int) =~= goal);
    Line { spans }
}

fn paint_button(app: &App, column: (u16, u16), row: Area, rows: usize) -> (r: Paint)
    ensures
        r.deep_view() == app@.start_button(column, row, rows as int),
{
    let theme = app.theme;
    let w = smaller(13, column.1);
    let line = if app.session_cursor == rows {
        build_button(&theme, app.tick as usize)
    } else {
        Line::one(Span::styled("+ New Session", theme.start_header().bold()))
    };
    let mut lines: Vec<Line> = Vec::new();
    push_line(&mut lines, line);
    let r = Paint::Text {
        area: Area {
            x: shift(column.0, (less(column.1, w) / 2) as usize),
            y: row.y,
            width: w,
            height: 1,
        },
        lines,
        style: Style::plain(),
        wrap: false,
        scroll: 0,
        centered: true,
    };
    assert(r.deep_view() =~= app@.start_button(column, row, rows as int));
    r
}

fn paint_start_filter(app: &App, column: (u16, u16), row: Area) -> (r: Vec<Paint>)
    ensures
        r.deep_view() == app@.start_filter(column, row),
{
    let theme = app.theme;
    let area = Area { x: column.0, y: row.y, width: column.1, height: 1 };
    let mut out: Vec<Paint> = Vec::new();
    paint(
        &mut out,
        Paint::line(
            area,
            Line::two(
                Span::styled(" > ", theme.start_header()),
                Span::styled(app.session_filter.as_str(), Style::plain().fg(theme.fg())),
            ),
            theme.base(),
        ),
    );
    let x = shift(shift(area.x, 3), app.session_filter.as_str().unicode_len());
    paint(&mut out, Paint::Cursor { x, y: area.y });
    assert(out.deep_view() =~= app@.start_filter(column, row));
    out
}

/// The column of the list: where it begins, and how wide it is.
pub fn place_column(screen: Area) -> (r: (u16, u16))
    ensures
        r == list_column(screen),
{
    let w = smaller(CONTENT_WIDTH, screen.width);
    (shift(screen.x, (less(screen.width, w) / 2) as usize), w)
}

/// How much room is above the content, and how high it is.
pub fn place_content(screen: Area, middle: Area, rows: usize) -> (r: (u16, u16))
    ensures
        r == content_rows(screen, middle, rows as int),
{
    let fixed: u16 = if screen.height >= ART_MIN_HEIGHT {
        12
    } else {
        4
    };
    let shown = smaller(fit(rows), less(middle.height, fixed));
    let height = smaller(fixed.saturating_add(shown), middle.height);
    (less(middle.height, height) / 2, height)
}

/// The start page, given the areas of header, middle and hints, and those of
/// letters, filter, gap, list, gap and button.
pub fn paint_start(app: &mut App, screen: Area, outer: &Vec<Area>, parts: &Vec<Area>, now: i64) -> (r:
    Vec<Paint>)
    requires
        outer@.len() == 3,
        parts@.len() == 6,
    ensures
        (final(app)@, r.deep_view()) == old(app)@.start_picture(screen, outer@, parts@, now as int),
        old(app)@.wf() ==> final(app)@.wf(),
{
    let ghost s = app@;
    let theme = app.theme;
    let column = place_column(screen);
    let rows = build_start_page_rows(app, column.1 as usize, now);
    let mut left: Vec<Span> = Vec::new();
    push_span(&mut left, Span::new(cat2(" ", app.status.as_str()), theme.status()));
    assert(left.deep_view() =~= seq![span_of(" "@ + s.status, theme.status())]);
    let right: Vec<Span> = Vec::new();
    assert(right.deep_view() =~= Seq::<SpanView>::empty());
    let mut out: Vec<Paint> = Vec::new();
    paint(&mut out, draw_header(app, outer[0], &left, &right));
    paint(&mut out, Paint::line(outer[2], build_hints(&theme), theme.base()));
    if screen.height >= ART_MIN_HEIGHT {
        paint_all(&mut out, paint_art(&theme, parts[0], app.tick as usize));
    }
    paint_all(&mut out, paint_start_filter(app, column, parts[1]));
    let list = paint_list(app, &rows, column, parts[3]);
    paint_all(&mut out, list);
    paint(&mut out, paint_button(app, column, parts[5], rows.len()));
    proof {
        reveal(AppView::session_list);
        assert(out.deep_view() =~= s.start_picture(screen, outer@, parts@, now as int).1);
    }
    out
}

/// The rows of the screen: header, middle, hints.
pub open spec fn frame_bounds() -> Seq<Bound> {
    seq![Bound::Length(1), Bound::AtLeast(1), Bound::Length(1)]
}

/// The rows of the content: letters, filter, gap, list, gap, button.
pub open spec fn content_bounds(screen: Area) -> Seq<Bound> {
    seq![
        Bound::Length(
            if screen.height >= ART_MIN_HEIGHT {
                8
            } else {
                0
            },
        ),
        Bound::Length(1),
        Bound::Length(1),
        Bound::AtLeast(0),
        Bound::Length(1),
        Bound::Length(1),
    ]
}

impl AppView {
    /// The content stands in the middle: room above it, the content, room below.
    pub open spec fn middle_bounds(self, screen: Area, middle: Area) -> Seq<Bound> {
        let (top, height) = content_rows(screen, middle, self.start_items().len() as int);
        seq![Bound::Length(top), Bound::Length(height), Bound::AtLeast(0)]
    }

    /// The areas of the page: those of header, middle and hints, and within the
    /// middle those of the content.
    pub open spec fn start_areas(self, screen: Area, outer: Seq<Area>, parts: Seq<Area>) -> bool {
        &&& split_into(screen, Axis::Rows, frame_bounds(), outer)
        &&& exists|inner: Seq<Area>|
            #[trigger] split_into(
                outer[1],
                Axis::Rows,
                self.middle_bounds(screen, outer[1]),
                inner,
            ) && split_into(inner[1], Axis::Rows, content_bounds(screen), parts)
    }
}

/// The start page on the screen.
pub fn draw_start(app: &mut App, screen: Area, now: i64) -> (r: Vec<Paint>)
    ensures
        exists|outer: Seq<Area>, parts: Seq<Area>|
            old(app)@.start_areas(screen, outer, parts) && (final(app)@, r.deep_view())
                == #[trigger] old(app)@.start_picture(screen, outer, parts, now as int),
        old(app)@.wf() ==> final(app)@.wf(),
{
    let frame = vec![Bound::Length(1), Bound::AtLeast(1), Bound::Length(1)];
    assert(frame@ =~= frame_bounds());
    let outer = split(screen, Axis::Rows, &frame);
    let middle = outer[1];
    let rows: usize = app.visible_start_items().len();
    let (top, height) = place_content(screen, middle, rows);
    let around = vec![Bound::Length(top), Bound::Length(height), Bound::AtLeast(0)];
    assert(around@ =~= app@.middle_bounds(screen, middle));
    let inner = split(middle, Axis::Rows, &around);
    assert(split_into(middle, Axis::Rows, app@.middle_bounds(screen, middle), inner@));
    let letters: u16 = if screen.height >= ART_MIN_HEIGHT {
        8
    } else {
        0
    };
    let within = vec![
        Bound::Length(letters),
        Bound::Length(1),
        Bound::Length(1),
        Bound::AtLeast(0),
        Bound::Length(1),
        Bound::Length(1),
    ];
    assert(within@ =~= content_bounds(screen));
    let parts = split(inner[1], Axis::Rows, &within);
    assert(app@.start_areas(screen, outer@, parts@));
    paint_start(app, screen, &outer, &parts, now)
}

/// The row under the cursor is shown, as long as any row is: the list scrolls
/// just so far, and never so far that rows stay blank while others are hidden.
pub proof fn law_cursor_row_is_shown(app: AppView, visible: int, total: int)
    requires
        0 < visible,
        app.session_cursor < total <= usize::MAX,
    ensures
        app.start_scrolled(visible, total) == 0 || app.start_scrolled(visible, total) + visible
            <= total,
        app.start_scrolled(visible, total) <= app.session_cursor < app.start_scrolled(
            visible,
            total,
        ) + visible,
{
}

} // verus!
