//! Themes: sixteen colours, and every style that is derived from them.
//!
//! The slots are those of Base16:
//!   00 bg        04 dim fg      08 red       0C cyan
//!   01 bg card   05 fg          09 orange    0D blue
//!   02 bg hl     06 bright fg   0A yellow    0E magenta
//!   03 comments  07 brightest   0B green     0F brown/extra
use crate::layout::numbers;
use crate::style::{Color, Style};
use crate::text::{contains, has, lowercase, owned, same, to_lower};
use vstd::prelude::*;

verus! {

/// A named set of sixteen colours, each `0xRRGGBB`.
#[derive(Debug)]
pub struct Base16Palette {
    pub id: String,
    pub label: String,
    pub colors: [u32; 16],
}

#[verifier::ext_equal]
pub struct PaletteView {
    pub id: Seq<char>,
    pub label: Seq<char>,
    pub colors: [u32; 16],
}

impl DeepView for Base16Palette {
    type V = PaletteView;

    open spec fn deep_view(&self) -> PaletteView {
        PaletteView { id: self.id@, label: self.label@, colors: self.colors }
    }
}

impl Clone for Base16Palette {
    fn clone(&self) -> (r: Self)
        ensures
            r.deep_view() == self.deep_view(),
    {
        Base16Palette { id: self.id.clone(), label: self.label.clone(), colors: self.colors }
    }
}

/// The colour of a palette slot.
#[verifier::allow_in_spec]
pub fn u32_to_color(c: u32) -> Color
    returns
        (Color { r: (c >> 16) as u8, g: (c >> 8) as u8, b: c as u8 }),
{
    Color { r: (c >> 16) as u8, g: (c >> 8) as u8, b: c as u8 }
}

/// `c` less ten, and not below zero.
#[verifier::allow_in_spec]
pub fn darker(c: u8) -> u8
    returns
        (if c >= 10 {
            (c - 10) as u8
        } else {
            0u8
        }),
{
    if c >= 10 {
        c - 10
    } else {
        0
    }
}

/// The selected theme, and the one that the current frame is drawn with.
///
/// A selection takes effect for drawing with the next `begin_frame`, so that
/// a frame is never drawn with two themes.
#[derive(Clone, Copy, Debug)]
pub struct Theme {
    /// Index of the selected theme.
    pub current: usize,
    /// Index of the theme that the current frame is drawn with.
    pub frame: usize,
    /// The colours of that theme.
    pub colors: [u32; 16],
}

impl Theme {
    /// Both indices name a theme, and the colours are those of the frame.
    pub open spec fn fits(self, themes: Seq<PaletteView>) -> bool {
        &&& self.current < themes.len()
        &&& self.frame < themes.len()
        &&& self.colors == themes[self.frame as int].colors
    }

    /// The first theme.
    pub fn new(themes: &Vec<Base16Palette>) -> (r: Theme)
        requires
            themes@.len() > 0,
        ensures
            r.fits(themes.deep_view()),
            r.current == 0,
            r.frame == 0,
    {
        Theme { current: 0, frame: 0, colors: themes[0].colors }
    }

    /// Selects the theme with the given id, or the first, for this frame too.
    pub fn init(&mut self, themes: &Vec<Base16Palette>, id: &str)
        requires
            themes@.len() > 0,
        ensures
            final(self).fits(themes.deep_view()),
            final(self).current == final(self).frame,
            ({
                let tv = themes.deep_view();
                let at = final(self).current as int;
                ||| tv[at].id == id@ && forall|k: int| 0 <= k < at ==> #[trigger] tv[k].id != id@
                ||| at == 0 && forall|k: int| 0 <= k < tv.len() ==> #[trigger] tv[k].id != id@
            }),
    {
        let ghost tv = themes.deep_view();
        let mut i: usize = 0;
        while i < themes.len()
            invariant
                i <= themes@.len(),
                tv == themes.deep_view(),
                forall|k: int| 0 <= k < i ==> #[trigger] tv[k].id != id@,
            decreases themes@.len() - i,
        {
            if same(themes[i].id.as_str(), id) {
                self.current = i;
                self.frame = i;
                self.colors = themes[i].colors;
                assert(tv[i as int].id == id@);
                return;
            }
            assert(tv[i as int].id != id@);
            i = i + 1;
        }
        self.current = 0;
        self.frame = 0;
        self.colors = themes[0].colors;
    }

    /// Selects a theme by its index; an index beyond the last changes nothing.
    pub fn set_by_index(&mut self, themes: &Vec<Base16Palette>, idx: usize)
        ensures
            *final(self) == (if idx < themes@.len() {
                Theme { current: idx, ..*old(self) }
            } else {
                *old(self)
            }),
    {
        if idx < themes.len() {
            self.current = idx;
        }
    }

    /// Index of the selected theme.
    pub fn current_index(&self) -> (r: usize)
        ensures
            r == self.current,
    {
        self.current
    }

    /// Id of the selected theme.
    pub fn current_id(&self, themes: &Vec<Base16Palette>) -> (r: String)
        requires
            self.fits(themes.deep_view()),
        ensures
            r@ == themes.deep_view()[self.current as int].id,
    {
        owned(themes[self.current].id.as_str())
    }

    /// The palette that the current frame is drawn with.
    pub fn palette<'a>(&self, themes: &'a Vec<Base16Palette>) -> (r: &'a Base16Palette)
        requires
            self.fits(themes.deep_view()),
        ensures
            *r == themes@[self.frame as int],
            r.colors == self.colors,
    {
        &themes[self.frame]
    }

    /// From here on the frame is drawn with the selected theme.
    pub fn begin_frame(&mut self, themes: &Vec<Base16Palette>)
        requires
            old(self).fits(themes.deep_view()),
        ensures
            final(self).fits(themes.deep_view()),
            final(self).current == old(self).current,
            final(self).frame == old(self).current,
    {
        self.frame = self.current;
        self.colors = themes[self.current].colors;
    }

    /// The background of status bars: the background, slightly darker.
    #[verifier::allow_in_spec]
    pub fn bg_dim(&self) -> Color
        returns
            (Color { r: darker(self.bg().r), g: darker(self.bg().g), b: darker(self.bg().b) }),
    {
        let c = self.bg();
        Color { r: darker(c.r), g: darker(c.g), b: darker(c.b) }
    }

    /// Background.
    #[verifier::allow_in_spec]
    pub fn bg(&self) -> Color
        returns
            (u32_to_color(self.colors@[0])),
    {
        u32_to_color(self.colors[0])
    }

    /// Background of cards.
    #[verifier::allow_in_spec]
    pub fn bg_card(&self) -> Color
        returns
            (u32_to_color(self.colors@[1])),
    {
        u32_to_color(self.colors[1])
    }

    /// Background of the highlighted row.
    #[verifier::allow_in_spec]
    pub fn bg_hl(&self) -> Color
        returns
            (u32_to_color(self.colors@[2])),
    {
        u32_to_color(self.colors[2])
    }

    /// Text.
    #[verifier::allow_in_spec]
    pub fn fg(&self) -> Color
        returns
            (u32_to_color(self.colors@[5])),
    {
        u32_to_color(self.colors[5])
    }

    /// Comments and secondary text.
    #[verifier::allow_in_spec]
    pub fn dim(&self) -> Color
        returns
            (u32_to_color(self.colors@[3])),
    {
        u32_to_color(self.colors[3])
    }

    /// Bright text.
    #[verifier::allow_in_spec]
    pub fn bright(&self) -> Color
        returns
            (u32_to_color(self.colors@[6])),
    {
        u32_to_color(self.colors[6])
    }

    /// Blue: the accent colour.
    #[verifier::allow_in_spec]
    pub fn accent(&self) -> Color
        returns
            (u32_to_color(self.colors@[13])),
    {
        u32_to_color(self.colors[13])
    }

    /// Cyan: information.
    #[verifier::allow_in_spec]
    pub fn info(&self) -> Color
        returns
            (u32_to_color(self.colors@[12])),
    {
        u32_to_color(self.colors[12])
    }

    /// Green: success.
    #[verifier::allow_in_spec]
    pub fn ok(&self) -> Color
        returns
            (u32_to_color(self.colors@[11])),
    {
        u32_to_color(self.colors[11])
    }

    /// Yellow: warnings.
    #[verifier::allow_in_spec]
    pub fn warn(&self) -> Color
        returns
            (u32_to_color(self.colors@[10])),
    {
        u32_to_color(self.colors[10])
    }

    /// Red: errors.
    #[verifier::allow_in_spec]
    pub fn err(&self) -> Color
        returns
            (u32_to_color(self.colors@[8])),
    {
        u32_to_color(self.colors[8])
    }

    /// Orange.
    #[verifier::allow_in_spec]
    pub fn orange(&self) -> Color
        returns
            (u32_to_color(self.colors@[9])),
    {
        u32_to_color(self.colors[9])
    }

    /// Magenta.
    #[verifier::allow_in_spec]
    pub fn magenta(&self) -> Color
        returns
            (u32_to_color(self.colors@[14])),
    {
        u32_to_color(self.colors[14])
    }

    #[verifier::allow_in_spec]
    pub fn base(&self) -> Style
        returns
            (Style::plain().fg(self.fg()).bg(self.bg())),
    {
        Style::plain().fg(self.fg()).bg(self.bg())
    }

    #[verifier::allow_in_spec]
    pub fn title(&self) -> Style
        returns
            (Style::plain().fg(self.accent()).bold()),
    {
        Style::plain().fg(self.accent()).bold()
    }

    #[verifier::allow_in_spec]
    pub fn title_accent(&self) -> Style
        returns
            (Style::plain().fg(self.magenta()).bold()),
    {
        Style::plain().fg(self.magenta()).bold()
    }

    #[verifier::allow_in_spec]
    pub fn status(&self) -> Style
        returns
            (Style::plain().fg(self.dim()).bg(self.bg_dim())),
    {
        Style::plain().fg(self.dim()).bg(self.bg_dim())
    }

    #[verifier::allow_in_spec]
    pub fn status_accent(&self) -> Style
        returns
            (Style::plain().fg(self.magenta()).bg(self.bg_dim())),
    {
        Style::plain().fg(self.magenta()).bg(self.bg_dim())
    }

    #[verifier::allow_in_spec]
    pub fn input(&self) -> Style
        returns
            (Style::plain().fg(self.fg()).bg(self.bg_card())),
    {
        Style::plain().fg(self.fg()).bg(self.bg_card())
    }

    #[verifier::allow_in_spec]
    pub fn input_label(&self) -> Style
        returns
            (Style::plain().fg(self.accent()).bg(self.bg_card()).bold()),
    {
        Style::plain().fg(self.accent()).bg(self.bg_card()).bold()
    }

    #[verifier::allow_in_spec]
    pub fn input_thinking(&self) -> Style
        returns
            (Style::plain().fg(self.dim()).bg(self.bg_card())),
    {
        Style::plain().fg(self.dim()).bg(self.bg_card())
    }

    #[verifier::allow_in_spec]
    pub fn input_undo(&self) -> Style
        returns
            (Style::plain().fg(self.orange()).bg(self.bg_card()).bold()),
    {
        Style::plain().fg(self.orange()).bg(self.bg_card()).bold()
    }

    #[verifier::allow_in_spec]
    pub fn input_redo(&self) -> Style
        returns
            (Style::plain().fg(self.info()).bg(self.bg_card()).bold()),
    {
        Style::plain().fg(self.info()).bg(self.bg_card()).bold()
    }

    #[verifier::allow_in_spec]
    pub fn input_cancel_confirm(&self) -> Style
        returns
            (Style::plain().fg(self.warn()).bg(self.bg_card()).bold()),
    {
        Style::plain().fg(self.warn()).bg(self.bg_card()).bold()
    }

    #[verifier::allow_in_spec]
    pub fn input_compacting(&self) -> Style
        returns
            (Style::plain().fg(self.accent()).bg(self.bg_card()).bold()),
    {
        Style::plain().fg(self.accent()).bg(self.bg_card()).bold()
    }

    #[verifier::allow_in_spec]
    pub fn input_border(&self) -> Style
        returns
            (Style::plain().fg(self.accent()).bg(self.bg_card())),
    {
        Style::plain().fg(self.accent()).bg(self.bg_card())
    }

    #[verifier::allow_in_spec]
    pub fn input_border_thinking(&self) -> Style
        returns
            (Style::plain().fg(self.magenta()).bg(self.bg_card())),
    {
        Style::plain().fg(self.magenta()).bg(self.bg_card())
    }

    #[verifier::allow_in_spec]
    pub fn input_border_undo(&self) -> Style
        returns
            (Style::plain().fg(self.orange()).bg(self.bg_card())),
    {
        Style::plain().fg(self.orange()).bg(self.bg_card())
    }

    #[verifier::allow_in_spec]
    pub fn input_border_redo(&self) -> Style
        returns
            (Style::plain().fg(self.info()).bg(self.bg_card())),
    {
        Style::plain().fg(self.info()).bg(self.bg_card())
    }

    #[verifier::allow_in_spec]
    pub fn input_border_cancel_confirm(&self) -> Style
        returns
            (Style::plain().fg(self.warn()).bg(self.bg_card())),
    {
        Style::plain().fg(self.warn()).bg(self.bg_card())
    }

    #[verifier::allow_in_spec]
    pub fn input_border_compacting(&self) -> Style
        returns
            (Style::plain().fg(self.accent()).bg(self.bg_card())),
    {
        Style::plain().fg(self.accent()).bg(self.bg_card())
    }

    #[verifier::allow_in_spec]
    pub fn user_card(&self) -> Style
        returns
            (Style::plain().bg(self.bg_card())),
    {
        Style::plain().bg(self.bg_card())
    }

    #[verifier::allow_in_spec]
    pub fn user_label(&self) -> Style
        returns
            (Style::plain().fg(self.accent()).bg(self.bg_card()).bold()),
    {
        Style::plain().fg(self.accent()).bg(self.bg_card()).bold()
    }

    #[verifier::allow_in_spec]
    pub fn user_text(&self) -> Style
        returns
            (Style::plain().fg(self.bright()).bg(self.bg_card())),
    {
        Style::plain().fg(self.bright()).bg(self.bg_card())
    }

    #[verifier::allow_in_spec]
    pub fn assistant_card(&self) -> Style
        returns
            (Style::plain().bg(self.bg())),
    {
        Style::plain().bg(self.bg())
    }

    #[verifier::allow_in_spec]
    pub fn assistant_label(&self) -> Style
        returns
            (Style::plain().fg(self.ok()).bg(self.bg()).bold()),
    {
        Style::plain().fg(self.ok()).bg(self.bg()).bold()
    }

    #[verifier::allow_in_spec]
    pub fn assistant_text(&self) -> Style
        returns
            (Style::plain().fg(self.fg()).bg(self.bg())),
    {
        Style::plain().fg(self.fg()).bg(self.bg())
    }

    #[verifier::allow_in_spec]
    pub fn tool_label(&self) -> Style
        returns
            (Style::plain().fg(self.dim()).bg(self.bg())),
    {
        Style::plain().fg(self.dim()).bg(self.bg())
    }

    #[verifier::allow_in_spec]
    pub fn tool_text(&self) -> Style
        returns
            (Style::plain().fg(self.dim()).bg(self.bg()).italic()),
    {
        Style::plain().fg(self.dim()).bg(self.bg()).italic()
    }

    #[verifier::allow_in_spec]
    pub fn tool_error(&self) -> Style
        returns
            (Style::plain().fg(self.orange()).bg(self.bg())),
    {
        Style::plain().fg(self.orange()).bg(self.bg())
    }

    #[verifier::allow_in_spec]
    pub fn tool_output(&self) -> Style
        returns
            (Style::plain().fg(self.dim())),
    {
        Style::plain().fg(self.dim())
    }

    #[verifier::allow_in_spec]
    pub fn thinking(&self) -> Style
        returns
            (Style::plain().fg(self.magenta()).bg(self.bg())),
    {
        Style::plain().fg(self.magenta()).bg(self.bg())
    }

    #[verifier::allow_in_spec]
    pub fn error_text(&self) -> Style
        returns
            (Style::plain().fg(self.err()).bg(self.bg())),
    {
        Style::plain().fg(self.err()).bg(self.bg())
    }

    #[verifier::allow_in_spec]
    pub fn info_text(&self) -> Style
        returns
            (Style::plain().fg(self.info()).bg(self.bg())),
    {
        Style::plain().fg(self.info()).bg(self.bg())
    }

    #[verifier::allow_in_spec]
    pub fn selected(&self) -> Style
        returns
            (Style::plain().fg(self.bright()).bg(self.bg_hl())),
    {
        Style::plain().fg(self.bright()).bg(self.bg_hl())
    }

    #[verifier::allow_in_spec]
    pub fn list_item(&self) -> Style
        returns
            (Style::plain().fg(self.fg()).bg(self.bg_card())),
    {
        Style::plain().fg(self.fg()).bg(self.bg_card())
    }

    #[verifier::allow_in_spec]
    pub fn list_dim(&self) -> Style
        returns
            (Style::plain().fg(self.dim()).bg(self.bg_card())),
    {
        Style::plain().fg(self.dim()).bg(self.bg_card())
    }

    #[verifier::allow_in_spec]
    pub fn session_time(&self) -> Style
        returns
            (Style::plain().fg(self.info())),
    {
        Style::plain().fg(self.info())
    }

    #[verifier::allow_in_spec]
    pub fn popup_bg(&self) -> Style
        returns
            (Style::plain().fg(self.fg()).bg(self.bg_dim())),
    {
        Style::plain().fg(self.fg()).bg(self.bg_dim())
    }

    #[verifier::allow_in_spec]
    pub fn popup_title(&self) -> Style
        returns
            (Style::plain().fg(self.magenta()).bg(self.bg_dim()).bold()),
    {
        Style::plain().fg(self.magenta()).bg(self.bg_dim()).bold()
    }

    #[verifier::allow_in_spec]
    pub fn md_bold(&self) -> Style
        returns
            (Style::plain().fg(self.bright()).bold()),
    {
        Style::plain().fg(self.bright()).bold()
    }

    #[verifier::allow_in_spec]
    pub fn md_italic(&self) -> Style
        returns
            (Style::plain().italic()),
    {
        Style::plain().italic()
    }

    #[verifier::allow_in_spec]
    pub fn md_bold_italic(&self) -> Style
        returns
            (Style::plain().fg(self.bright()).bold().italic()),
    {
        Style::plain().fg(self.bright()).bold().italic()
    }

    #[verifier::allow_in_spec]
    pub fn md_code_inline(&self) -> Style
        returns
            (Style::plain().fg(self.ok()).bg(self.bg_hl())),
    {
        Style::plain().fg(self.ok()).bg(self.bg_hl())
    }

    #[verifier::allow_in_spec]
    pub fn md_code_block(&self) -> Style
        returns
            (Style::plain().fg(self.fg()).bg(self.bg_card())),
    {
        Style::plain().fg(self.fg()).bg(self.bg_card())
    }

    #[verifier::allow_in_spec]
    pub fn md_code_lang(&self) -> Style
        returns
            (Style::plain().fg(self.dim()).bg(self.bg_card())),
    {
        Style::plain().fg(self.dim()).bg(self.bg_card())
    }

    #[verifier::allow_in_spec]
    pub fn md_code_line_nr(&self) -> Style
        returns
            (Style::plain().fg(self.dim()).bg(self.bg_card())),
    {
        Style::plain().fg(self.dim()).bg(self.bg_card())
    }

    #[verifier::allow_in_spec]
    pub fn md_heading(&self) -> Style
        returns
            (Style::plain().fg(self.accent()).bold()),
    {
        Style::plain().fg(self.accent()).bold()
    }

    #[verifier::allow_in_spec]
    pub fn md_link(&self) -> Style
        returns
            (Style::plain().fg(self.info()).underlined()),
    {
        Style::plain().fg(self.info()).underlined()
    }

    #[verifier::allow_in_spec]
    pub fn md_link_title(&self) -> Style
        returns
            (Style::plain().fg(self.info())),
    {
        Style::plain().fg(self.info())
    }

    #[verifier::allow_in_spec]
    pub fn md_list_bullet(&self) -> Style
        returns
            (Style::plain().fg(self.magenta())),
    {
        Style::plain().fg(self.magenta())
    }

    #[verifier::allow_in_spec]
    pub fn md_blockquote(&self) -> Style
        returns
            (Style::plain().fg(self.dim()).italic()),
    {
        Style::plain().fg(self.dim()).italic()
    }

    #[verifier::allow_in_spec]
    pub fn md_hr(&self) -> Style
        returns
            (Style::plain().fg(self.dim())),
    {
        Style::plain().fg(self.dim())
    }

    #[verifier::allow_in_spec]
    pub fn md_strikethrough(&self) -> Style
        returns
            (Style::plain().fg(self.dim()).crossed_out()),
    {
        Style::plain().fg(self.dim()).crossed_out()
    }

    #[verifier::allow_in_spec]
    pub fn md_table_border(&self) -> Style
        returns
            (Style::plain().fg(self.dim())),
    {
        Style::plain().fg(self.dim())
    }

    #[verifier::allow_in_spec]
    pub fn md_table_header(&self) -> Style
        returns
            (Style::plain().fg(self.accent()).bold()),
    {
        Style::plain().fg(self.accent()).bold()
    }

    #[verifier::allow_in_spec]
    pub fn diff_file(&self) -> Style
        returns
            (Style::plain().fg(self.info()).bg(self.bg_card())),
    {
        Style::plain().fg(self.info()).bg(self.bg_card())
    }

    #[verifier::allow_in_spec]
    pub fn diff_removed(&self) -> Style
        returns
            (Style::plain().fg(self.err()).bg(self.bg_card())),
    {
        Style::plain().fg(self.err()).bg(self.bg_card())
    }

    #[verifier::allow_in_spec]
    pub fn diff_added(&self) -> Style
        returns
            (Style::plain().fg(self.ok()).bg(self.bg_card())),
    {
        Style::plain().fg(self.ok()).bg(self.bg_card())
    }

    #[verifier::allow_in_spec]
    pub fn diff_context(&self) -> Style
        returns
            (Style::plain().fg(self.dim()).bg(self.bg_card())),
    {
        Style::plain().fg(self.dim()).bg(self.bg_card())
    }

    #[verifier::allow_in_spec]
    pub fn diff_removed_hl(&self) -> Style
        returns
            (Style::plain().fg(self.bright()).bg(self.err()).bold()),
    {
        Style::plain().fg(self.bright()).bg(self.err()).bold()
    }

    #[verifier::allow_in_spec]
    pub fn diff_added_hl(&self) -> Style
        returns
            (Style::plain().fg(self.bright()).bg(self.ok()).bold()),
    {
        Style::plain().fg(self.bright()).bg(self.ok()).bold()
    }

    #[verifier::allow_in_spec]
    pub fn conn_ok(&self) -> Style
        returns
            (Style::plain().fg(self.ok()).bg(self.bg_dim())),
    {
        Style::plain().fg(self.ok()).bg(self.bg_dim())
    }

    #[verifier::allow_in_spec]
    pub fn conn_pending(&self) -> Style
        returns
            (Style::plain().fg(self.warn()).bg(self.bg_dim())),
    {
        Style::plain().fg(self.warn()).bg(self.bg_dim())
    }

    #[verifier::allow_in_spec]
    pub fn conn_err(&self) -> Style
        returns
            (Style::plain().fg(self.err()).bg(self.bg_dim())),
    {
        Style::plain().fg(self.err()).bg(self.bg_dim())
    }

    /// The thinking text of an assistant card.
    #[verifier::allow_in_spec]
    pub fn thinking_text(&self) -> Style
        returns
            (Style::plain().fg(self.dim()).bg(self.bg()).italic()),
    {
        Style::plain().fg(self.dim()).bg(self.bg()).italic()
    }

    /// Headings of the start page.
    #[verifier::allow_in_spec]
    pub fn start_header(&self) -> Style
        returns
            (Style::plain().fg(self.accent()).bg(self.bg())),
    {
        Style::plain().fg(self.accent()).bg(self.bg())
    }

    /// Secondary text of the start page.
    #[verifier::allow_in_spec]
    pub fn start_dim(&self) -> Style
        returns
            (Style::plain().fg(self.dim()).bg(self.bg())),
    {
        Style::plain().fg(self.dim()).bg(self.bg())
    }

    /// Session rows of the start page.
    #[verifier::allow_in_spec]
    pub fn start_session(&self) -> Style
        returns
            (Style::plain().fg(self.fg()).bg(self.bg())),
    {
        Style::plain().fg(self.fg()).bg(self.bg())
    }

    /// The mark between the model and its reasoning effort.
    #[verifier::allow_in_spec]
    pub fn reasoning_effort_sep(&self) -> Style
        returns
            (Style::plain().fg(self.dim()).bg(self.bg_dim())),
    {
        Style::plain().fg(self.dim()).bg(self.bg_dim())
    }

    /// The reasoning effort behind the model.
    #[verifier::allow_in_spec]
    pub fn reasoning_effort_level(&self) -> Style
        returns
            (Style::plain().fg(self.warn()).bg(self.bg_dim())),
    {
        Style::plain().fg(self.warn()).bg(self.bg_dim())
    }

    /// The colour of an agent mode.
    pub open spec fn mode_color_of(self, mode: Seq<char>) -> Color {
        if mode == "plan"@ {
            self.orange()
        } else if mode == "review"@ {
            self.magenta()
        } else {
            self.ok()
        }
    }

    /// The colour of an agent mode.
    pub fn mode_color(&self, mode: &str) -> (r: Color)
        ensures
            r == self.mode_color_of(mode@),
    {
        if same(mode, "plan") {
            self.orange()
        } else if same(mode, "review") {
            self.magenta()
        } else {
            self.ok()
        }
    }

    /// The input border in an agent mode.
    pub fn mode_border(&self, mode: &str) -> (r: Style)
        ensures
            r == Style::plain().fg(self.mode_color_of(mode@)).bg(self.bg_card()),
    {
        Style::plain().fg(self.mode_color(mode)).bg(self.bg_card())
    }

    /// The name of an agent mode in a header.
    pub fn mode_badge(&self, mode: &str) -> (r: Style)
        ensures
            r == Style::plain().fg(self.mode_color_of(mode@)).bold(),
    {
        Style::plain().fg(self.mode_color(mode)).bold()
    }
}

/// What a frame is drawn with does not change when another theme is selected;
/// only the next frame shows the selection.
pub proof fn law_frame_keeps_its_theme(t: Theme, u: Theme, themes: Seq<PaletteView>, idx: usize)
    requires
        t.fits(themes),
        u == (if idx < themes.len() {
            Theme { current: idx, ..t }
        } else {
            t
        }),
    ensures
        u.fits(themes),
        u.frame == t.frame,
        u.colors == t.colors,
        u.base() == t.base(),
{
}

/// A theme whose label or id holds the query.
pub open spec fn theme_shown(query: Seq<char>) -> spec_fn(PaletteView) -> bool {
    |t: PaletteView| contains(lowercase(t.label), query) || contains(lowercase(t.id), query)
}

/// Indices of the first `n` themes that a filter leaves.
pub open spec fn shown_among(themes: Seq<PaletteView>, query: Seq<char>, n: int) -> Seq<int>
    decreases n,
{
    if n <= 0 {
        Seq::empty()
    } else if theme_shown(query)(themes[n - 1]) {
        shown_among(themes, query, n - 1).push(n - 1)
    } else {
        shown_among(themes, query, n - 1)
    }
}

/// Indices of the themes that a filter leaves.
pub open spec fn shown_themes(themes: Seq<PaletteView>, filter: Seq<char>) -> Seq<int> {
    shown_among(themes, lowercase(filter), themes.len() as int)
}

/// Indices of the themes that a filter leaves: those whose label or id holds
/// it, whatever the case.
pub fn filtered_themes(themes: &Vec<Base16Palette>, filter: &str) -> (r: Vec<usize>)
    ensures
        numbers(r@) == shown_themes(themes.deep_view(), filter@),
{
    let q = to_lower(filter);
    let ghost tv = themes.deep_view();
    let mut out: Vec<usize> = Vec::new();
    assert(numbers(out@) =~= shown_among(tv, q@, 0));
    let mut i: usize = 0;
    while i < themes.len()
        invariant
            i <= themes@.len(),
            tv == themes.deep_view(),
            numbers(out@) == shown_among(tv, q@, i as int),
        decreases themes@.len() - i,
    {
        assert(tv[i as int] == themes@[i as int].deep_view());
        let ghost before = out@;
        if has(to_lower(themes[i].label.as_str()).as_str(), q.as_str()) || has(
            to_lower(themes[i].id.as_str()).as_str(),
            q.as_str(),
        ) {
            out.push(i);
            assert(numbers(out@) =~= numbers(before).push(i as int));
        }
        i = i + 1;
    }
    out
}

proof fn lemma_shown_among(themes: Seq<PaletteView>, query: Seq<char>, n: int, i: int)
    requires
        0 <= n <= themes.len(),
        0 <= i < shown_among(themes, query, n).len(),
    ensures
        0 <= shown_among(themes, query, n)[i] < n,
    decreases n,
{
    if n > 0 && i < shown_among(themes, query, n - 1).len() {
        lemma_shown_among(themes, query, n - 1, i);
    }
}

/// What a filter leaves are themes.
pub proof fn lemma_shown_themes_exist(themes: Seq<PaletteView>, filter: Seq<char>, i: int)
    requires
        0 <= i < shown_themes(themes, filter).len(),
    ensures
        0 <= shown_themes(themes, filter)[i] < themes.len(),
{
    lemma_shown_among(themes, lowercase(filter), themes.len() as int, i);
}

} // verus!
