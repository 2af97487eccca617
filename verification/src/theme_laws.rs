//! What holds of the colours of a theme.
use crate::app::{ActivityStateView, AppView, SessionOp};
use crate::cards::{CardKind, CardView};
use crate::canvas::{Area, PaintView};
use crate::layout::layout_of;
use crate::messages::card_picture;
use crate::spinner::{frame_at, SpinnerKind};
use crate::style::{Color, Style};
use crate::theme::{u32_to_color, Theme};
use vstd::prelude::*;

verus! {

// ── colours ──────────────────────────────────────────────────────────────────

/// A colour is made of the red, the green and the blue of its slot.
pub proof fn law_colours_are_made_of_three_parts(c: u32)
    requires
        c < 0x100_0000,
    ensures
        u32_to_color(c).r * 65536 + u32_to_color(c).g * 256 + u32_to_color(c).b == c,
{
    assert(((c >> 16) as u8) * 65536 + ((c >> 8) as u8) * 256 + (c as u8) == c) by (bit_vector)
        requires
            c < 0x100_0000,
    ;
}

/// The colour of a slot of the theme.
pub open spec fn slot(t: Theme, i: int) -> Color {
    u32_to_color(t.colors@[i])
}

/// A style shows text in the colour of a slot.
pub open spec fn in_slot(t: Theme, s: Style, i: int) -> bool {
    s.fg == Some(slot(t, i))
}

/// A style has the colour of a slot behind the text.
pub open spec fn on_slot(t: Theme, s: Style, i: int) -> bool {
    s.bg == Some(slot(t, i))
}

/// Errors are red, additions and success green, warnings yellow, information cyan,
/// and the accent is blue.
pub proof fn law_colours_tell_what_is_meant(t: Theme)
    ensures
        t.err() == slot(t, 8) && t.orange() == slot(t, 9) && t.warn() == slot(t, 10),
        t.ok() == slot(t, 11) && t.info() == slot(t, 12) && t.accent() == slot(t, 13),
        t.magenta() == slot(t, 14),
        in_slot(t, t.error_text(), 8),
        in_slot(t, t.info_text(), 12),
        in_slot(t, t.diff_added(), 11),
        in_slot(t, t.diff_removed(), 8),
        on_slot(t, t.diff_added_hl(), 11),
        on_slot(t, t.diff_removed_hl(), 8),
        in_slot(t, t.conn_ok(), 11),
        in_slot(t, t.conn_pending(), 10),
        in_slot(t, t.conn_err(), 8),
        in_slot(t, t.tool_error(), 9),
        in_slot(t, t.session_time(), 12),
        in_slot(t, t.title(), 13),
        in_slot(t, t.title_accent(), 14),
        in_slot(t, t.md_heading(), 13) && t.md_heading().bold,
        in_slot(t, t.md_link(), 12) && t.md_link().underlined,
        in_slot(t, t.md_code_inline(), 11),
        t.md_italic().italic && !t.md_italic().bold,
        t.md_bold().bold && !t.md_bold().italic,
        t.md_bold_italic().bold && t.md_bold_italic().italic,
        t.md_strikethrough().crossed_out,
        in_slot(t, t.reasoning_effort_level(), 10),
{
}

/// Text has the colour of text, secondary text that of comments, what stands out a
/// brighter one; what is selected has another background than the rest.
pub proof fn law_text_has_its_colours(t: Theme)
    ensures
        t.bg() == slot(t, 0) && t.bg_card() == slot(t, 1) && t.bg_hl() == slot(t, 2),
        t.dim() == slot(t, 3) && t.fg() == slot(t, 5) && t.bright() == slot(t, 6),
        in_slot(t, t.base(), 5) && on_slot(t, t.base(), 0),
        in_slot(t, t.input(), 5) && on_slot(t, t.input(), 1),
        in_slot(t, t.user_text(), 6) && on_slot(t, t.user_text(), 1),
        on_slot(t, t.user_card(), 1) && on_slot(t, t.assistant_card(), 0),
        in_slot(t, t.assistant_text(), 5) && on_slot(t, t.assistant_text(), 0),
        in_slot(t, t.thinking_text(), 3) && t.thinking_text().italic,
        in_slot(t, t.tool_text(), 3) && t.tool_text().italic,
        in_slot(t, t.selected(), 6) && on_slot(t, t.selected(), 2),
        in_slot(t, t.status(), 3) && in_slot(t, t.status_accent(), 14),
        in_slot(t, t.popup_bg(), 5) && in_slot(t, t.popup_title(), 14),
        in_slot(t, t.diff_context(), 3) && in_slot(t, t.diff_file(), 12),
        in_slot(t, t.start_header(), 13) && in_slot(t, t.start_dim(), 3) && in_slot(
            t,
            t.start_session(),
            5,
        ),
        t.bg_dim().r <= t.bg().r && t.bg_dim().g <= t.bg().g && t.bg_dim().b <= t.bg().b,
        t.bg().r >= 10 ==> t.bg_dim().r == t.bg().r - 10,
        t.popup_bg().bg == Some(t.bg_dim()) && t.status().bg == Some(t.bg_dim()),
{
}

/// Each mode has its colour.
pub proof fn law_modes_have_their_colours(t: Theme, mode: Seq<char>)
    ensures
        t.mode_color_of("plan"@) == slot(t, 9),
        t.mode_color_of("review"@) == slot(t, 14),
        mode != "plan"@ && mode != "review"@ ==> t.mode_color_of(mode) == slot(t, 11),
{
    reveal_strlit("plan");
    reveal_strlit("review");
    assert("plan"@.len() == 4);
    assert("review"@.len() == 6);
}

// ── cards ────────────────────────────────────────────────────────────────────

/// The text of a card without a colour of its own has that of its kind.
pub open spec fn own_style(t: Theme, kind: CardKind) -> Style {
    match kind {
        CardKind::User => t.user_text(),
        CardKind::Assistant | CardKind::Streaming => t.assistant_text(),
        CardKind::Tool { .. } => t.tool_text(),
        CardKind::Thinking => t.thinking(),
        CardKind::Error => t.error_text(),
        CardKind::Info => t.info_text(),
        CardKind::Compaction | CardKind::Elicitation => t.status_accent(),
    }
}

/// A card is drawn on its background, prompts on another one than the rest.  Text
/// with a colour keeps it; other text has the style of the kind of card.
pub proof fn law_cards_are_drawn_in_their_colours(
    t: Theme,
    card: CardView,
    area: Area,
    i: int,
    k: int,
)
    requires
        area.width > 0,
        area.height > 1,
        0 <= i < card.lines.len(),
        0 <= k < card.lines[i].len(),
    ensures
        ({
            let picture = card_picture(t, card, area, 0);
            let drawn = picture[1]->Text_lines[i][k];
            let span = card.lines[i][k];
            let back = if card.kind is User {
                t.user_card()
            } else {
                t.assistant_card()
            };
            &&& picture.len() == 2
            &&& picture[0] == (PaintView::Fill { area, style: back })
            &&& picture[1] is Text
            &&& drawn.content == span.content
            &&& span.style.fg is Some ==> drawn.style.fg == span.style.fg && drawn.style.bg
                == back.bg && drawn.style.bold == span.style.bold && drawn.style.italic
                == span.style.italic
            &&& span.style.fg is None ==> drawn.style == own_style(t, card.kind)
        }),
{
}

// ── the input ────────────────────────────────────────────────────────────────

/// What stands before the input tells what goes on: an undo or a redo, that Esc
/// stops, that the agent works, that a question waits, or that one may write.
pub proof fn law_input_tells_what_goes_on(app: AppView)
    ensures
        ({
            let said = app.input_label().content;
            let turning = frame_at(SpinnerKind::Braille, app.tick);
            let undo = app.activity == ActivityStateView::SessionOp(SessionOp::Undo);
            let redo = app.activity == ActivityStateView::SessionOp(SessionOp::Redo);
            &&& undo ==> said == turning + " undoing "@
            &&& redo ==> said == turning + " redoing "@
            &&& !undo && !redo && app.confirming() ==> said == turning + " Esc again to stop "@
            &&& !undo && !redo && !app.confirming() && app.turn_active() ==> said == turning + " "@
            &&& !app.session_op_pending() && !app.confirming() && !app.turn_active()
                && app.elicitation is Some ==> said == "  answer above "@ + "\u{2191}"@ + " "@
            &&& !app.session_op_pending() && !app.confirming() && !app.turn_active()
                && app.elicitation is None ==> said == "> "@
        }),
{
}

/// The line above the input has the colour of what goes on, and of the mode where
/// nothing does.
pub proof fn law_border_has_the_colour_of_what_goes_on(app: AppView)
    ensures
        ({
            let t = app.theme;
            let fg = app.border_style().fg;
            let undo = app.activity == ActivityStateView::SessionOp(SessionOp::Undo);
            let redo = app.activity == ActivityStateView::SessionOp(SessionOp::Redo);
            &&& undo ==> fg == Some(slot(t, 9))
            &&& redo ==> fg == Some(slot(t, 12))
            &&& !undo && !redo && app.confirming() ==> fg == Some(slot(t, 10))
            &&& !app.confirming() && app.activity is Compacting ==> fg == Some(slot(t, 13))
            &&& !app.confirming() && app.turn_active() && !(app.activity is Compacting) ==> fg
                == Some(slot(t, 14))
            &&& !app.confirming() && !app.turn_active() && !app.session_op_pending()
                && app.elicitation is None ==> fg == Some(t.mode_color_of(app.agent_mode))
        }),
{
}

/// The input has a row for each row of its text, five at most, and one below them;
/// the panel for mentions six rows where there is something to say, and a question
/// its lines, half of the screen at most.
pub proof fn law_panels_have_their_heights(app: AppView, screen: Area)
    requires
        screen.width > 4,
    ensures
        ({
            let rows = layout_of(
                app.input,
                app.input_cursor as int,
                screen.width - 4,
                2,
            ).rows.len();
            &&& 1 <= rows <= 5 ==> app.input_height(screen) == rows + 1
            &&& rows > 5 ==> app.input_height(screen) == 6
            &&& app.mention_height() == (if app.mention_state is Some || app.file_index_loading
                || app.file_index_error is Some {
                6int
            } else {
                0int
            })
            &&& app.elicitation is None ==> app.question_height(screen) == 0
            &&& app.elicitation matches Some(e) ==> {
                let n = if e.fields.len() > 0 && e.options().len() > 1 {
                    e.options().len() as int
                } else {
                    1
                };
                &&& app.question_height(screen) <= screen.height / 2
                &&& n + 4 <= screen.height / 2 ==> app.question_height(screen) == n + 4
            }
        }),
{
}

} // verus!
