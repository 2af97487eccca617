//! What holds of the screen around the conversation: header, input, panels,
//! popups and the list of sessions.
use crate::app::{AppView, ConnState, FileIndexEntryLiteView, StartPageItemView};
use crate::canvas::{line_paint, Area, PaintView, PictureView};
use crate::card_laws::{holds, lemma_text_of_one, lemma_text_of_two, texts};
use crate::chat_page::duration_text;
use crate::diff::spans_text;
use crate::elicitation::{ElicitationFieldKindView, ElicitationStateView};
use crate::header::line_chars;
use crate::input::PROMPT_WIDTH;
use crate::layout::{good_offset, law_rows_fit_and_show_the_cursor, widths_of};
use crate::popups::{cut_to, fitting_path, help_rows, left_aligned, session_age};
use crate::protocol::SessionSummaryView;
use crate::shortcuts::{key_sections, ShortcutSectionView};
use crate::start_page::{start_session_row, StartPageRowView};
use crate::style::{LineView, SpanView};
use crate::text::decimal;
use crate::theme::{shown_themes, Theme};
use vstd::prelude::*;

verus! {

// ── texts ────────────────────────────────────────────────────────────────────

proof fn lemma_text_three(s: SpanView, t: SpanView, u: SpanView)
    ensures
        spans_text(seq![s, t, u]) == s.content + t.content + u.content,
{
    assert(seq![s, t, u].drop_last() =~= seq![s, t]);
    lemma_text_of_two(s, t);
}

/// A text that fits stays as it is; one that does not keeps its first characters
/// before a mark, and fits then.
pub proof fn law_cut_texts_fit(s: Seq<char>, width: int)
    requires
        width >= 1,
    ensures
        cut_to(s, width).len() <= width,
        s.len() <= width ==> cut_to(s, width) == s,
        s.len() > width ==> cut_to(s, width) == s.take(width - 1) + "\u{2026}"@,
{
    reveal_strlit("\u{2026}");
}

/// An aligned text is the text with blanks behind it, as long as is asked for.
pub proof fn law_aligned_texts_have_blanks_behind(s: Seq<char>, width: int)
    ensures
        s.is_prefix_of(left_aligned(s, width)),
        forall|i: int|
            s.len() <= i < left_aligned(s, width).len() ==> #[trigger] left_aligned(s, width)[i]
                == ' ',
        s.len() <= width ==> left_aligned(s, width).len() == width,
        s.len() >= width ==> left_aligned(s, width) == s,
{
    assert(s.len() >= width ==> left_aligned(s, width) =~= s);
}

/// A path that fits is shown whole.
pub proof fn law_paths_that_fit_are_shown(path: Seq<char>, width: int)
    requires
        path.len() <= width,
    ensures
        fitting_path(path, width) == path,
{
}

/// Seconds are shown as seconds, from a minute on as minutes and seconds.
pub proof fn law_durations_add_up(minutes: int, seconds: int)
    requires
        0 <= minutes,
        0 <= seconds < 60,
    ensures
        duration_text(minutes * 60 + seconds) == if minutes == 0 {
            decimal(seconds as nat) + "s"@
        } else {
            decimal(minutes as nat) + "m"@ + decimal(seconds as nat) + "s"@
        },
{
    let all = minutes * 60 + seconds;
    assert(all / 60 == minutes && all % 60 == seconds);
}

// ── the header ───────────────────────────────────────────────────────────────

proof fn lemma_chars_add(a: LineView, b: LineView)
    ensures
        line_chars(a + b) == line_chars(a) + line_chars(b),
    decreases b.len(),
{
    if b.len() == 0 {
        assert(a + b =~= a);
    } else {
        lemma_chars_add(a, b.drop_last());
        assert((a + b).drop_last() =~= a + b.drop_last());
        assert((a + b).last() == b.last());
    }
}

/// A header is as wide as its row, if it fits: the name of the program, the
/// pending chord, the left part, blanks, the right part, and last a sign for the
/// connection.
pub proof fn law_header_fills_its_row(app: AppView, width: int, left: LineView, right: LineView)
    ensures
        ({
            let line = app.header_line(width, left, right);
            let lead: int = if app.chord {
                3
            } else {
                2
            };
            &&& line.len() == lead + left.len() + 1 + right.len() + 1
            &&& line[0].content == " query"@
            &&& line[1].content == "mt"@
            &&& app.chord ==> line[2].content == " C-x"@
            &&& line.subrange(lead, lead + left.len()) == left
            &&& line.subrange(lead + left.len() + 1, line.len() - 1) == right
            &&& forall|i: int|
                0 <= i < line[lead + left.len()].content.len() ==> (
                #[trigger] line[lead + left.len()].content[i]) == ' '
            &&& line.last().content == (match app.conn {
                ConnState::Connected => "\u{25CF}"@,
                ConnState::Connecting => "\u{25CB}"@,
                ConnState::Disconnected => "\u{25CF}"@,
            }) + " "@
            &&& (app.conn is Connected ==> line.last().style.fg == Some(app.theme.ok()))
            &&& (app.conn is Connecting ==> line.last().style.fg == Some(app.theme.warn()))
            &&& (app.conn is Disconnected ==> line.last().style.fg == Some(app.theme.err()))
            &&& line_chars(line) - line[lead + left.len()].content.len() <= width
                ==> line_chars(line) == width
        }),
{
    let line = app.header_line(width, left, right);
    let start = app.header_start(left);
    let lead: int = if app.chord {
        3
    } else {
        2
    };
    assert(line.subrange(lead, lead + left.len()) =~= left);
    assert(line.subrange(lead + left.len() + 1, line.len() - 1) =~= right);
    let gap = line[lead + left.len()];
    assert(start.len() == lead + left.len());
    let front = start.push(gap) + right;
    assert(line == front.push(app.conn_sign()));
    assert(front.push(app.conn_sign()).drop_last() =~= front);
    assert(line_chars(line) == line_chars(front) + app.conn_sign().content.len());
    lemma_chars_add(start.push(gap), right);
    assert(start.push(gap).drop_last() =~= start);
    assert(line_chars(start.push(gap)) == line_chars(start) + gap.content.len());
}

/// The header of a conversation names the session, the mode and the status on
/// the left, and ends in the model with its effort on the right.
pub proof fn law_header_names_session_and_model(app: AppView, percent: u32)
    ensures
        app.chat_left().len() == 3,
        app.chat_left()[0].content == " "@ + app.session_label(),
        app.chat_left()[1].content == " "@ + app.agent_mode + " "@,
        app.chat_left()[2].content == " "@ + app.status,
        app.session_id is None ==> app.session_label() == "???"@,
        app.session_id matches Some(id) ==> app.session_label().is_prefix_of(id) && (
        crate::text::bytes(id) <= 8 ==> app.session_label() == id),
        ({
            let right = app.chat_right(percent);
            let n = right.len() as int;
            &&& n >= 3
            &&& right[n - 3].content == " "@ + match (app.current_provider, app.current_model) {
                (Some(p), Some(m)) => p + "/"@ + m,
                _ => "no model"@,
            }
            &&& right[n - 2].content == ":"@
            &&& right[n - 1].content == crate::models::effort_name(app.reasoning_effort) + " "@
            &&& n == 3 + app.chat_figures(percent).len()
        }),
{
    match app.session_id {
        Some(id) => {
            crate::text::lemma_char_pos(id, 8);
        },
        None => {},
    }
}

/// A line has a span with the given text.
pub open spec fn has_text(line: LineView, text: Seq<char>) -> bool {
    exists|i: int| 0 <= i < line.len() && (#[trigger] line[i]).content == text
}

/// Each figure stands in the header exactly where there is something to say, and
/// says it.
pub proof fn law_header_shows_figures(app: AppView, percent: u32)
    ensures
        ({
            let figures = app.chat_figures(percent);
            let others = app.other_active_sessions().len();
            let timed: int = if app.llm_elapsed() is Some {
                1
            } else {
                0
            };
            let filled: int = if app.knows_context() {
                1
            } else {
                0
            };
            let counted: int = if app.session_stats.total_tool_calls > 0 {
                1
            } else {
                0
            };
            let priced: int = if app.cumulative_cost is Some && app.cumulative_cost->0.positive {
                1
            } else {
                0
            };
            let shared: int = if others > 0 {
                1
            } else {
                0
            };
            &&& figures.len() == timed + filled + counted + priced + shared
            &&& timed == 1 ==> has_text(
                figures,
                " "@ + duration_text(app.llm_elapsed()->0 as int / 1_000_000_000) + " "@,
            )
            &&& filled == 1 ==> has_text(
                figures,
                " "@ + crate::symbols::ICON_CONTEXT@ + " "@ + decimal(percent as nat) + "% "@,
            )
            &&& counted == 1 ==> has_text(
                figures,
                " "@ + crate::symbols::ICON_TOOLS@ + " "@ + decimal(
                    app.session_stats.total_tool_calls as nat,
                ) + " "@,
            )
            &&& priced == 1 ==> has_text(figures, " $"@ + app.cumulative_cost->0.text + " "@)
            &&& shared == 1 ==> has_text(
                figures,
                " "@ + crate::symbols::ICON_MULTI_SESSION@ + " "@ + decimal(others) + " "@,
            )
        }),
{
    reveal(AppView::chat_figures);
    let figures = app.chat_figures(percent);
    let others = app.other_active_sessions().len();
    let a: int = if app.llm_elapsed() is Some {
        1
    } else {
        0
    };
    let b: int = if app.knows_context() {
        a + 1
    } else {
        a
    };
    let c: int = if app.session_stats.total_tool_calls > 0 {
        b + 1
    } else {
        b
    };
    let d: int = if app.cumulative_cost is Some && app.cumulative_cost->0.positive {
        c + 1
    } else {
        c
    };
    if app.llm_elapsed() is Some {
        assert(figures[0].content == " "@ + duration_text(
            app.llm_elapsed()->0 as int / 1_000_000_000,
        ) + " "@);
    }
    if app.knows_context() {
        assert(figures[a].content == " "@ + crate::symbols::ICON_CONTEXT@ + " "@ + decimal(
            percent as nat,
        ) + "% "@);
    }
    if app.session_stats.total_tool_calls > 0 {
        assert(figures[b].content == " "@ + crate::symbols::ICON_TOOLS@ + " "@ + decimal(
            app.session_stats.total_tool_calls as nat,
        ) + " "@);
    }
    if app.cumulative_cost is Some && app.cumulative_cost->0.positive {
        assert(figures[c].content == " $"@ + app.cumulative_cost->0.text + " "@);
    }
    if others > 0 {
        assert(figures[d].content == " "@ + crate::symbols::ICON_MULTI_SESSION@ + " "@ + decimal(
            others,
        ) + " "@);
    }
}

// ── the input ────────────────────────────────────────────────────────────────

/// The rows of the input are drawn as text, the first behind the label, and the
/// cursor stands among the rows that show, at its column.
pub proof fn law_cursor_is_among_the_rows_shown(app: AppView, area: Area)
    requires
        !app.input_blocked(),
        good_offset(app.input, app.input_cursor as int),
        area.width > 4,
        area.height > 1,
        area.x + area.width <= u16::MAX,
        area.y + area.height <= u16::MAX,
        app.input_layout(AppView::input_inside(area)).rows.len() <= u16::MAX,
        app.input_layout(AppView::input_inside(area)).cursor_col <= area.width - 2,
    ensures
        ({
            let inner = AppView::input_inside(area);
            let layout = app.input_layout(inner);
            let (next, picture) = app.input_picture(area);
            let first = next.input_scroll as int;
            let text = picture[1];
            &&& picture.len() == 3
            &&& first <= layout.cursor_row < first + inner.height
            &&& text is Text
            &&& text->Text_area == inner
            &&& text->Text_scroll == first
            &&& !text->Text_wrap
            &&& text->Text_lines.len() == layout.rows.len()
            &&& spans_text(text->Text_lines[0]) == app.input_label().content + layout.rows[0].text
            &&& forall|i: int|
                1 <= i < layout.rows.len() ==> spans_text(#[trigger] text->Text_lines[i])
                    == layout.rows[i].text
            &&& picture[2] is Cursor
            &&& picture[2]->Cursor_y == inner.y + layout.cursor_row - first
            &&& layout.cursor_col >= 0 ==> picture[2]->Cursor_x == inner.x + layout.cursor_col
            &&& next.input == app.input
            &&& next.input_cursor == app.input_cursor
        }),
{
    reveal(AppView::input_picture);
    reveal(AppView::input_text);
    let inner = AppView::input_inside(area);
    let layout = app.input_layout(inner);
    let widths = widths_of(app.input);
    assert forall|i: int| 0 <= i < widths.len() implies #[trigger] widths[i] >= 0 by {}
    law_rows_fit_and_show_the_cursor(
        app.input,
        widths,
        app.input_cursor as int,
        inner.width as int,
        PROMPT_WIDTH as int,
    );
    let (next, picture) = app.input_picture(area);
    let lines = picture[1]->Text_lines;
    lemma_text_of_two(lines[0][0], lines[0][1]);
    assert forall|i: int| 1 <= i < layout.rows.len() implies spans_text(#[trigger] lines[i])
        == layout.rows[i].text by {
        lemma_text_of_one(lines[i][0]);
    }
}

// ── a question ───────────────────────────────────────────────────────────────

/// A question shows who asks and what, each in a line of its own.
pub proof fn law_question_shows_what_it_asks(e: ElicitationStateView, theme: Theme)
    ensures
        e.question_lines(theme).len() >= 2,
        spans_text(e.question_lines(theme)[0]) == "\u{25B8} "@ + "Question"@ + ("  via "@
            + e.asker()),
        spans_text(e.question_lines(theme)[1]) == "  "@ + e.message,
{
    let lines = e.question_lines(theme);
    lemma_text_three(lines[0][0], lines[0][1], lines[0][2]);
    lemma_text_of_one(lines[1][0]);
}

/// The mark before a choice tells whether it is the highlighted one, or, where
/// several may be chosen, whether it is chosen.
pub open spec fn choice_mark(e: ElicitationStateView, i: int) -> Seq<char> {
    match e.field().kind {
        ElicitationFieldKindView::MultiSelect { options } => if e.ticked(
            e.field().name,
            options[i].value,
        ) {
            "\u{2611} "@
        } else {
            "\u{2610} "@
        },
        _ => if i == e.option_cursor {
            "\u{25CF} "@
        } else {
            "\u{25CB} "@
        },
    }
}

/// Every choice of a question has its line, in order, with its mark, its label
/// and its description.
pub proof fn law_question_shows_its_choices(e: ElicitationStateView, theme: Theme, i: int)
    requires
        e.fields.len() > 0,
        e.field().kind is SingleSelect || e.field().kind is MultiSelect,
        0 <= i < e.options().len(),
    ensures
        ({
            let o = e.options()[i];
            &&& e.question_lines(theme).len() == 3 + e.options().len()
            &&& spans_text(e.question_lines(theme)[2 + i]) == "  "@ + choice_mark(e, i) + o.label
                + match o.description {
                Some(d) => "  "@ + d,
                None => Seq::empty(),
            }
        }),
{
    reveal(ElicitationStateView::field_lines);
    let line = e.question_lines(theme)[2 + i];
    assert(line =~= seq![line[0], line[1], line[2]]);
    lemma_text_three(line[0], line[1], line[2]);
}

/// The answer that is typed is shown.
pub proof fn law_question_shows_the_typed_answer(e: ElicitationStateView, theme: Theme)
    requires
        e.fields.len() > 0,
        e.field().kind is TextInput || e.field().kind is NumberInput,
        e.text_input.len() > 0,
    ensures
        e.question_lines(theme).len() == 4,
        spans_text(e.question_lines(theme)[2]) == "  > "@ + e.text_input,
{
    reveal(ElicitationStateView::field_lines);
    let line = e.question_lines(theme)[2];
    assert(line =~= seq![line[0], line[1]]);
    lemma_text_of_two(line[0], line[1]);
}

/// Each line of a question is drawn in a row of its own, as far as there are
/// rows.
pub proof fn law_question_is_drawn_line_by_line(app: AppView, area: Area, i: int)
    requires
        app.elicitation is Some,
        area.width > 2,
        area.height > 0,
        area.x + area.width <= u16::MAX,
        area.y + area.height <= u16::MAX,
        0 <= i < area.height,
        i < app.elicitation->0.question_lines(app.theme).len(),
    ensures
        app.question_panel(area).contains(
            line_paint(
                Area {
                    x: (area.x + 1) as u16,
                    y: (area.y + i) as u16,
                    width: (area.width - 2) as u16,
                    height: 1,
                },
                app.elicitation->0.question_lines(app.theme)[i],
                app.theme.popup_bg(),
            ),
        ),
{
    let p = app.question_panel(area);
    assert(p[1 + i] == line_paint(
        Area {
            x: (area.x + 1) as u16,
            y: (area.y + i) as u16,
            width: (area.width - 2) as u16,
            height: 1,
        },
        app.elicitation->0.question_lines(app.theme)[i],
        app.theme.popup_bg(),
    ));
}

// ── lists ────────────────────────────────────────────────────────────────────

/// A picture has a list with the given rows, and one of them selected.
pub open spec fn lists(picture: PictureView, rows: Seq<Seq<char>>, selected: Option<usize>) -> bool {
    exists|k: int|
        0 <= k < picture.len() && (#[trigger] picture[k]) is List && texts(picture[k]->List_rows)
            == rows && picture[k]->List_selected == selected
}

/// A picture has a line with the given text.
pub open spec fn says(picture: PictureView, text: Seq<char>) -> bool {
    exists|k: int|
        0 <= k < picture.len() && (#[trigger] picture[k]) is Text && texts(
            picture[k]->Text_lines,
        ) == seq![text]
}

/// Every file that a mention may mean is listed, in order, directories told from
/// files, and the selected one is marked.
pub proof fn law_files_are_listed(app: AppView, area: Area)
    requires
        area.width > 0,
        area.height > 0,
        !app.file_index_loading,
        app.file_index_error is None,
        app.mention_state is Some,
        app.mention_state->0.results.len() > 0,
    ensures
        lists(
            app.mention_panel(area),
            Seq::new(
                app.mention_state->0.results.len(),
                |i: int|
                    (if app.mention_state->0.results[i].is_dir {
                        "[D] "@
                    } else {
                        "[F] "@
                    }) + app.mention_state->0.results[i].path,
            ),
            Some(app.mention_state->0.selected_index),
        ),
{
    let results = app.mention_state->0.results;
    let rows = app.mention_panel(area)[0]->List_rows;
    assert forall|i: int| 0 <= i < rows.len() implies spans_text(#[trigger] rows[i]) == (
    if results[i].is_dir {
        "[D] "@
    } else {
        "[F] "@
    }) + results[i].path by {
        lemma_text_of_two(rows[i][0], rows[i][1]);
    }
    assert(texts(rows) =~= Seq::new(
        results.len(),
        |i: int|
            (if results[i].is_dir {
                "[D] "@
            } else {
                "[F] "@
            }) + results[i].path,
    ));
}

proof fn lemma_says(picture: PictureView, k: int, text: Seq<char>)
    requires
        0 <= k < picture.len(),
        picture[k] is Text,
        picture[k]->Text_lines.len() == 1,
        spans_text(picture[k]->Text_lines[0]) == text,
    ensures
        says(picture, text),
{
    assert(texts(picture[k]->Text_lines) =~= seq![text]);
}

/// The model popup lists the models that the filter leaves, in order, with their
/// providers, and shows the filter.
pub proof fn law_model_popup_lists_models(app: AppView, popup: Area, rows: Seq<Area>)
    ensures
        lists(
            app.model_popup(popup, rows),
            Seq::new(
                app.shown_models().len(),
                |i: int| " "@ + app.shown_models()[i].provider + " "@ + app.shown_models()[i].label,
            ),
            Some(app.model_cursor),
        ),
        says(app.model_popup(popup, rows), "> "@ + app.model_filter),
{
    let picture = app.model_popup(popup, rows);
    let listed = picture[5]->List_rows;
    assert forall|i: int| 0 <= i < listed.len() implies spans_text(#[trigger] listed[i]) == " "@
        + app.shown_models()[i].provider + " "@ + app.shown_models()[i].label by {
        lemma_text_of_two(listed[i][0], listed[i][1]);
    }
    assert(texts(listed) =~= Seq::new(
        app.shown_models().len(),
        |i: int| " "@ + app.shown_models()[i].provider + " "@ + app.shown_models()[i].label,
    ));
    let line = picture[3]->Text_lines[0];
    lemma_text_of_two(line[0], line[1]);
    lemma_says(picture, 3, "> "@ + app.model_filter);
}

/// The popup for a new session shows the path with the cursor in it, and lists
/// the completions.
pub proof fn law_new_session_popup_shows_the_path(app: AppView, popup: Area, rows: Seq<Area>)
    ensures
        ({
            let picture = app.new_session_popup(popup, rows);
            let typed = "> "@ + app.new_session_path;
            &&& picture[4] is Text
            &&& picture[4]->Text_area == rows[2]
            &&& picture[4]->Text_lines.len() == crate::text::lines(typed).len()
            &&& forall|i: int|
                0 <= i < picture[4]->Text_lines.len() ==> holds(
                    #[trigger] picture[4]->Text_lines[i],
                    crate::text::lines(typed)[i],
                )
            &&& picture[5] is Cursor
            &&& rows[2].x + 2 + app.new_session_cursor <= u16::MAX ==> picture[5]->Cursor_x
                == rows[2].x + 2 + app.new_session_cursor
            &&& picture[5]->Cursor_y == rows[2].y
            &&& app.new_session_completion matches Some(c) ==> c.results.len() > 0 ==> lists(
                picture,
                c.results.map_values(|e: FileIndexEntryLiteView| e.path),
                Some(c.selected_index),
            )
        }),
{
    let picture = app.new_session_popup(popup, rows);
    match app.new_session_completion {
        Some(c) => if c.results.len() > 0 {
            let listed = picture[6]->List_rows;
            assert forall|i: int| 0 <= i < listed.len() implies spans_text(#[trigger] listed[i])
                == c.results[i].path by {
                assert(listed[i] =~= seq![listed[i][0]]);
                lemma_text_of_one(listed[i][0]);
            }
            assert(texts(listed) =~= c.results.map_values(|e: FileIndexEntryLiteView| e.path));
        },
        None => {},
    }
}

/// The log popup shows every entry that the filter leaves, in order: when it was
/// made, its level, what it is about, and its message as far as it fits.
pub proof fn law_log_popup_lists_entries(app: AppView, popup: Area, rows: Seq<Area>, i: int)
    requires
        0 <= i < app.shown_logs().len(),
    ensures
        ({
            let picture = app.log_popup(popup, rows);
            let e = app.shown_logs()[i];
            let lead = crate::popups::log_prefix(e);
            &&& picture[6] is List
            &&& picture[6]->List_rows.len() == app.shown_logs().len()
            &&& spans_text(picture[6]->List_rows[i]) == lead + cut_to(
                e.message,
                crate::seqs::monus(rows[3].width as int, lead.len() as int),
            )
            &&& app.log_cursor < app.shown_logs().len() ==> picture[6]->List_selected == Some(
                app.log_cursor,
            )
        }),
        says(app.log_popup(popup, rows), "> "@ + app.log_filter),
        says(app.log_popup(popup, rows), "level: "@ + app.log_level_filter.name() + "+"@),
{
    let picture = app.log_popup(popup, rows);
    let row = picture[6]->List_rows[i];
    assert(row =~= seq![row[0], row[1]]);
    lemma_text_of_two(row[0], row[1]);
    let line = picture[3]->Text_lines[0];
    lemma_text_of_two(line[0], line[1]);
    lemma_says(picture, 3, "> "@ + app.log_filter);
    lemma_text_of_one(picture[5]->Text_lines[0][0]);
    lemma_says(picture, 5, "level: "@ + app.log_level_filter.name() + "+"@);
}

proof fn lemma_help_rows(
    theme: Theme,
    sections: Seq<ShortcutSectionView>,
    n: int,
    s: int,
    i: int,
) -> (at: int)
    requires
        0 <= s < n <= sections.len(),
        0 <= i < sections[s].rows.len(),
    ensures
        0 <= at < help_rows(theme, sections, n).len(),
        spans_text(help_rows(theme, sections, n)[at]) == "  "@ + left_aligned(
            sections[s].rows[i].0,
            14,
        ) + sections[s].rows[i].1,
    decreases n,
{
    let all = help_rows(theme, sections, n);
    if s < n - 1 {
        let at = lemma_help_rows(theme, sections, n - 1, s, i);
        assert(all[at] == help_rows(theme, sections, n - 1)[at]);
        at
    } else {
        let own = crate::popups::section_rows(theme, sections[s]);
        let at = all.len() - own.len() + 1 + i;
        let row = own[1 + i];
        assert(row =~= seq![row[0], row[1]]);
        lemma_text_of_two(row[0], row[1]);
        assert(all[at] == row);
        at
    }
}

/// The help popup lists every key of every section with what it does.
pub proof fn law_help_popup_lists_every_key(
    app: AppView,
    popup: Area,
    rows: Seq<Area>,
    s: int,
    i: int,
)
    requires
        0 <= s < key_sections().len(),
        0 <= i < key_sections()[s].rows.len(),
    ensures
        app.help_popup(popup, rows)[3] is List,
        texts(app.help_popup(popup, rows)[3]->List_rows).contains(
            "  "@ + left_aligned(key_sections()[s].rows[i].0, 14) + key_sections()[s].rows[i].1,
        ),
        app.help_popup(popup, rows)[3]->List_offset == app.help_scroll,
{
    let at = lemma_help_rows(app.theme, key_sections(), key_sections().len() as int, s, i);
    let listed = app.help_popup(popup, rows)[3]->List_rows;
    assert(texts(listed)[at] == "  "@ + left_aligned(key_sections()[s].rows[i].0, 14)
        + key_sections()[s].rows[i].1);
}

/// A theme in the theme popup is marked where it is the one in use, and shows its
/// label where it fits, and one swatch for each of its colours.
pub proof fn law_theme_popup_lists_themes(app: AppView, popup: Area, rows: Seq<Area>, i: int)
    requires
        0 <= i < shown_themes(app.themes, app.theme_filter).len(),
    ensures
        ({
            let picture = app.theme_popup(popup, rows);
            let at = shown_themes(app.themes, app.theme_filter)[i];
            let row = picture[5]->List_rows[i];
            &&& picture[5] is List
            &&& picture[5]->List_rows.len() == shown_themes(app.themes, app.theme_filter).len()
            &&& picture[5]->List_selected == Some(app.theme_cursor)
            &&& row.len() == 3 + 16
            &&& row[0].content == if at == app.theme.current {
                "* "@
            } else {
                "  "@
            }
            &&& app.themes[at].label.len() + 19 <= rows[3].width ==> row[1].content
                == app.themes[at].label && row[1].content.len() + row[2].content.len() + 18
                == rows[3].width
            &&& forall|k: int|
                0 <= k < 16 ==> (#[trigger] row[3 + k]).style.fg == Some(
                    crate::theme::u32_to_color(app.themes[at].colors@[k]),
                )
        }),
{
}

// ── sessions ─────────────────────────────────────────────────────────────────

/// The title of a session, or a remark where it has none.
pub open spec fn title_shown(s: SessionSummaryView) -> Seq<char> {
    match s.title {
        Some(t) => t,
        None => "(untitled)"@,
    }
}

/// The row of a session in the popup is as wide as the list: the beginning of its
/// id, its title, a mark where it is the open session, and its age.  A title that
/// fits is shown whole.
pub proof fn law_session_popup_shows_sessions(
    app: AppView,
    s: SessionSummaryView,
    selected: bool,
    width: int,
    now: int,
)
    ensures
        ({
            let row = app.popup_session_row(s, selected, width, now);
            let n = row.len() as int;
            let open = app.session_id == Some(s.session_id);
            let used = row[0].content.len() + row[n - 1].content.len() + if open {
                row[3].content.len()
            } else {
                0
            };
            &&& n == if open {
                5int
            } else {
                4int
            }
            &&& row[0].content == "   "@ + (if s.session_id.len() < 8 {
                s.session_id
            } else {
                s.session_id.take(8)
            }) + " "@
            &&& used + title_shown(s).len() <= width ==> {
                &&& row[1].content == title_shown(s)
                &&& used + row[1].content.len() + row[2].content.len() == width
            }
            &&& used + 1 <= width < used + title_shown(s).len() ==> row[1].content
                == title_shown(s).take(width - used - 1) + "\u{2026}"@
            &&& open ==> row[3].content == " active "@
            &&& row[n - 1].content == " "@ + session_age(s, now) + " "@
        }),
{
    let row = app.popup_session_row(s, selected, width, now);
    if s.session_id.len() < 8 {
        assert(s.session_id.take(s.session_id.len() as int) =~= s.session_id);
    }
}

/// The row of a session on the start page shows the beginning of its id, its
/// title, and its age; a title that fits is shown whole.
pub proof fn law_start_page_shows_sessions(
    theme: Theme,
    s: SessionSummaryView,
    selected: bool,
    width: int,
    now: int,
)
    ensures
        ({
            let row = start_session_row(theme, s, selected, width, now);
            let age = session_age(s, now);
            let room = width - 15 - crate::text::bytes(age);
            &&& row.len() == 4
            &&& row[0].content == "   "@ + (if s.session_id.len() < 8 {
                s.session_id
            } else {
                s.session_id.take(8)
            }) + "  "@
            &&& title_shown(s).len() <= room ==> row[1].content == title_shown(s)
                && row[1].content.len() + row[2].content.len() == room
            &&& 1 < room < title_shown(s).len() ==> row[1].content == title_shown(s).take(room - 1)
                + "\u{2026}"@
            &&& row[3].content == "  "@ + age + " "@
        }),
{
    if s.session_id.len() < 8 {
        assert(s.session_id.take(s.session_id.len() as int) =~= s.session_id);
    }
}

/// The header of a group shows whether it is collapsed, its path where that fits,
/// and how many sessions it has.
pub proof fn law_group_header_shows_the_group(
    cwd: Option<Seq<char>>,
    session_count: usize,
    collapsed: bool,
    width: int,
    header: crate::style::Style,
    dim: crate::style::Style,
)
    ensures
        ({
            let row = crate::popups::group_header(
                cwd,
                session_count,
                collapsed,
                width,
                header,
                dim,
            );
            let path = match cwd {
                Some(d) => d,
                None => "(no workspace)"@,
            };
            &&& row.len() == 3
            &&& row[0].content == " "@ + (if collapsed {
                "\u{25B8}"@
            } else {
                "\u{25BE}"@
            }) + " "@
            &&& path.len() + 16 <= width ==> row[1].content == path
            &&& row[2].content == "  ("@ + decimal(session_count as nat) + ") "@
        }),
{
}

/// Every item of the start page has a row that shows it, and the row with the
/// cursor is the selected one.
pub proof fn law_start_page_rows_show_items(app: AppView, width: int, now: int, i: int)
    requires
        0 <= i < app.start_items().len(),
    ensures
        ({
            let rows = app.start_page_rows(width, now);
            &&& rows.len() == app.start_items().len()
            &&& rows[i].item == app.start_items()[i]
            &&& rows[i].selected == (i == app.session_cursor)
            &&& match app.start_items()[i] {
                StartPageItemView::GroupHeader { cwd, session_count, collapsed } => {
                    &&& rows[i].line.len() == 3
                    &&& rows[i].line[0].content == " "@ + (if collapsed {
                        "\u{25B8}"@
                    } else {
                        "\u{25BE}"@
                    }) + " "@
                    &&& rows[i].line[2].content == "  ("@ + decimal(session_count as nat) + ") "@
                },
                StartPageItemView::Session { group_idx, session_idx } => {
                    let s = app.session_groups[group_idx as int].sessions[session_idx as int];
                    &&& rows[i].line.len() == 4
                    &&& title_shown(s).len() + 15 + crate::text::bytes(session_age(s, now))
                        <= width ==> rows[i].line[1].content == title_shown(s)
                    &&& rows[i].line[3].content == "  "@ + session_age(s, now) + " "@
                },
                StartPageItemView::ShowMore { .. } => rows[i].line.len() == 1,
            }
        }),
{
}

proof fn lemma_list_rows(
    app: AppView,
    rows: Seq<StartPageRowView>,
    column: (u16, u16),
    list: Area,
    scroll: int,
    n: int,
    k: int,
)
    requires
        0 <= k < n,
    ensures
        app.list_rows(rows, column, list, scroll, n).len() == 2 * n,
        app.list_rows(rows, column, list, scroll, n)[2 * k + 1] == line_paint(
            Area {
                x: column.0,
                y: crate::canvas::beyond(list.y, k),
                width: column.1,
                height: 1,
            },
            rows[scroll + k].line,
            crate::style::Style::plain(),
        ),
    decreases n,
{
    if n > 1 {
        if k < n - 1 {
            lemma_list_rows(app, rows, column, list, scroll, n - 1, k);
        } else {
            lemma_list_rows(app, rows, column, list, scroll, n - 1, 0);
        }
    } else {
        assert(app.list_rows(rows, column, list, scroll, 0).len() == 0);
    }
}

/// The rows of the list that are in view are drawn below each other, from the
/// first one in view on, and none is left out.
pub proof fn law_rows_in_view_are_drawn(
    app: AppView,
    rows: Seq<StartPageRowView>,
    column: (u16, u16),
    list: Area,
    k: int,
)
    requires
        rows.len() > 0,
        list.y + list.height <= u16::MAX,
        0 <= k < list.height,
        app.session_list(rows, column, list).0.start_page_scroll + k < rows.len(),
    ensures
        ({
            let (next, picture) = app.session_list(rows, column, list);
            picture.contains(
                line_paint(
                    Area {
                        x: column.0,
                        y: (list.y + k) as u16,
                        width: column.1,
                        height: 1,
                    },
                    rows[next.start_page_scroll + k].line,
                    crate::style::Style::plain(),
                ),
            )
        }),
{
    reveal(AppView::session_list);
    let (next, picture) = app.session_list(rows, column, list);
    let scroll = next.start_page_scroll as int;
    let left = rows.len() - scroll;
    let n = if list.height <= left {
        list.height as int
    } else {
        left
    };
    lemma_list_rows(app, rows, column, list, scroll, n, k);
    assert(picture[2 * k + 1] == line_paint(
        Area { x: column.0, y: (list.y + k) as u16, width: column.1, height: 1 },
        rows[scroll + k].line,
        crate::style::Style::plain(),
    ));
}

// ── the pages ────────────────────────────────────────────────────────────────

/// Every step of one picture is a step of another.
pub open spec fn drawn_in(part: PictureView, picture: PictureView) -> bool {
    forall|p: PaintView| #[trigger] part.contains(p) ==> picture.contains(p)
}

proof fn lemma_drawn_in(before: PictureView, part: PictureView, after: PictureView)
    ensures
        drawn_in(part, before + part + after),
{
    let picture = before + part + after;
    assert forall|p: PaintView| #[trigger] part.contains(p) implies picture.contains(p) by {
        let k = choose|k: int| 0 <= k < part.len() && part[k] == p;
        assert(picture[before.len() + k] == p);
    }
}

/// The page of a conversation shows, each in its part, the header, the conversation, the
/// files that a mention may mean, the question that waits, a line, and the input.
pub proof fn law_page_shows_its_parts(
    app: AppView,
    screen: Area,
    parts: Seq<Area>,
    percent: u32,
)
    requires
        parts.len() == 6,
    ensures
        ({
            let (next, picture) = app.chat_picture(screen, parts, percent);
            let shown = app.messages_picture(parts[1]).0;
            &&& picture.len() > 0
            &&& picture[0] is Text
            &&& picture[0]->Text_area == parts[0]
            &&& picture[0]->Text_lines == seq![
                app.header_line(parts[0].width as int, app.chat_left(), app.chat_right(percent)),
            ]
            &&& drawn_in(app.messages_picture(parts[1]).1, picture)
            &&& app.mention_state is Some ==> drawn_in(app.mention_panel(parts[2]), picture)
            &&& app.question_height(screen) > 0 ==> drawn_in(app.question_panel(parts[3]), picture)
            &&& drawn_in(shown.input_picture(parts[5]).1, picture)
            &&& next == shown.input_picture(parts[5]).0
        }),
{
    let (shown, messages) = app.messages_picture(parts[1]);
    let (next, input) = shown.input_picture(parts[5]);
    let picture = app.chat_picture(screen, parts, percent).1;
    let head = seq![
        app.header_paint(parts[0], app.chat_left(), app.chat_right(percent)),
    ];
    let mention = if app.mention_height() > 0 {
        app.mention_panel(parts[2])
    } else {
        Seq::empty()
    };
    let question = if app.question_height(screen) > 0 {
        app.question_panel(parts[3])
    } else {
        Seq::empty()
    };
    let n = head.len() + messages.len() + mention.len() + question.len();
    let border = seq![picture[n as int]];
    assert(picture =~= head + messages + (mention + question + border + input));
    lemma_drawn_in(head, messages, mention + question + border + input);
    assert(picture =~= (head + messages) + mention + (question + border + input));
    lemma_drawn_in(head + messages, mention, question + border + input);
    assert(picture =~= (head + messages + mention) + question + (border + input));
    lemma_drawn_in(head + messages + mention, question, border + input);
    assert(picture =~= (head + messages + mention + question + border) + input + Seq::empty());
    lemma_drawn_in(head + messages + mention + question + border, input, Seq::empty());
}

/// The start page shows the status in its header, the filter with the cursor behind it,
/// the list of sessions, and the button for a new one.
pub proof fn law_start_page_shows_its_parts(
    app: AppView,
    screen: Area,
    outer: Seq<Area>,
    parts: Seq<Area>,
    now: int,
)
    requires
        outer.len() == 3,
        parts.len() == 6,
    ensures
        ({
            let (next, picture) = app.start_picture(screen, outer, parts, now);
            let column = crate::start_page::list_column(screen);
            let rows = app.start_page_rows(column.1 as int, now);
            &&& picture.len() > 1
            &&& picture[0] is Text
            &&& picture[0]->Text_area == outer[0]
            &&& has_text(picture[0]->Text_lines[0], " "@ + app.status)
            &&& drawn_in(app.session_list(rows, column, parts[3]).1, picture)
            &&& says(picture, " > "@ + app.session_filter)
            &&& picture.last() is Text
            &&& app.session_cursor != rows.len() ==> says(picture, "+ New Session"@)
            &&& next == app.session_list(rows, column, parts[3]).0
        }),
{
    let column = crate::start_page::list_column(screen);
    let rows = app.start_page_rows(column.1 as int, now);
    let (next, picture) = app.start_picture(screen, outer, parts, now);
    let list = app.session_list(rows, column, parts[3]).1;
    let filter = app.start_filter(column, parts[1]);
    let n = picture.len() as int;
    let front = picture.take(n - 1 - list.len());
    let last = seq![picture.last()];
    assert(picture =~= front + list + last);
    lemma_drawn_in(front, list, last);
    let at = front.len() - 2;
    assert(picture[at] == filter[0]);
    lemma_text_of_two(filter[0]->Text_lines[0][0], filter[0]->Text_lines[0][1]);
    lemma_says(picture, at, " > "@ + app.session_filter);
    let left = seq![crate::style::span_of(" "@ + app.status, app.theme.status())];
    law_header_fills_its_row(app, outer[0].width as int, left, Seq::empty());
    let line = picture[0]->Text_lines[0];
    let lead: int = if app.chord {
        3
    } else {
        2
    };
    assert(line.subrange(lead, lead + left.len())[0] == left[0]);
    assert(line[lead].content == " "@ + app.status);
    if app.session_cursor != rows.len() {
        lemma_text_of_one(picture[n - 1]->Text_lines[0][0]);
        lemma_says(picture, n - 1, "+ New Session"@);
    }
}

/// A frame is drawn in the colours of the theme that is selected; nothing else changes.
pub proof fn law_frame_shows_the_selected_theme(app: AppView)
    ensures
        app.framed().theme.colors == app.themes[app.theme.current as int].colors,
        app.framed().theme.current == app.theme.current,
        app.framed().messages == app.messages,
        app.framed().input == app.input,
        app.framed().popup == app.popup,
{
}

} // verus!
