//! The conversation on the screen.
use crate::app::{App, AppView};
use crate::canvas::{
    beyond, less, paint, paint_all, shift, smaller, Area, Paint, PaintView, PictureView,
};
use crate::cards::{Card, CardKind, CardView};
use crate::deck::{build_message_cards, build_streaming_card};
use crate::highlight::Highlighter;
use crate::seqs::{least, monus};
use crate::style::{push_line, push_span, span_of, Line, LineView, Span, SpanView, Style};
use crate::theme::Theme;
use vstd::prelude::*;

verus! {

// ── one card ─────────────────────────────────────────────────────────────────

/// The background of a card.
pub open spec fn card_back(theme: Theme, kind: CardKind) -> Style {
    if kind == CardKind::User {
        theme.user_card()
    } else {
        theme.assistant_card()
    }
}

/// The style of text without one on a card.
pub open spec fn card_text(theme: Theme, kind: CardKind) -> Style {
    match kind {
        CardKind::User => theme.user_text(),
        CardKind::Assistant | CardKind::Streaming => theme.assistant_text(),
        CardKind::Tool { .. } => theme.tool_text(),
        CardKind::Thinking => theme.thinking(),
        CardKind::Compaction => theme.status_accent(),
        CardKind::Error => theme.error_text(),
        CardKind::Info => theme.info_text(),
        CardKind::Elicitation => theme.status_accent(),
    }
}

/// A span on a card: one with a colour keeps it, on the background of the card.
pub open spec fn on_card(theme: Theme, kind: CardKind) -> spec_fn(SpanView) -> SpanView {
    |s: SpanView|
        span_of(
            s.content,
            if s.style.fg is Some {
                s.style.bg(
                    match card_back(theme, kind).bg {
                        Some(c) => c,
                        None => theme.bg(),
                    },
                )
            } else {
                card_text(theme, kind)
            },
        )
}

/// A line on a card.
pub open spec fn line_on_card(theme: Theme, kind: CardKind) -> spec_fn(LineView) -> LineView {
    |l: LineView| l.map_values(on_card(theme, kind))
}

/// A card in an area, `clip_top` of its rows being above it: its background,
/// and its lines between two columns on either side.
pub open spec fn card_picture(theme: Theme, card: CardView, area: Area, clip_top: u16) -> PictureView {
    let back = PaintView::Fill { area, style: card_back(theme, card.kind) };
    let pad: u16 = if clip_top == 0 && card.kind != (CardKind::Tool { compact: true }) {
        1
    } else {
        0
    };
    let height = less(area.height, pad);
    if area.height == 0 || area.width == 0 {
        Seq::empty()
    } else if height == 0 {
        seq![back]
    } else {
        seq![
            back,
            PaintView::Text {
                area: Area {
                    x: beyond(area.x, 2),
                    y: beyond(area.y, pad as int),
                    width: less(area.width, 4),
                    height,
                },
                lines: card.lines.map_values(line_on_card(theme, card.kind)),
                style: Style::plain(),
                wrap: true,
                scroll: less(clip_top, 1),
                centered: false,
            },
        ]
    }
}

fn back_of(theme: &Theme, kind: CardKind) -> (r: Style)
    ensures
        r == card_back(*theme, kind),
{
    if kind == CardKind::User {
        theme.user_card()
    } else {
        theme.assistant_card()
    }
}

fn text_of(theme: &Theme, kind: CardKind) -> (r: Style)
    ensures
        r == card_text(*theme, kind),
{
    match kind {
        CardKind::User => theme.user_text(),
        CardKind::Assistant | CardKind::Streaming => theme.assistant_text(),
        CardKind::Tool { .. } => theme.tool_text(),
        CardKind::Thinking => theme.thinking(),
        CardKind::Compaction => theme.status_accent(),
        CardKind::Error => theme.error_text(),
        CardKind::Info => theme.info_text(),
        CardKind::Elicitation => theme.status_accent(),
    }
}

fn put_on_card(theme: &Theme, kind: CardKind, line: &Line) -> (r: Line)
    ensures
        r.deep_view() == line_on_card(*theme, kind)(line.deep_view()),
{
    let ghost lv = line.deep_view();
    let ghost f = on_card(*theme, kind);
    let back = match back_of(theme, kind).bg {
        Some(c) => c,
        None => theme.bg(),
    };
    let text = text_of(theme, kind);
    let mut spans: Vec<Span> = Vec::new();
    assert(spans.deep_view() =~= lv.take(0).map_values(f));
    let mut i: usize = 0;
    while i < line.spans.len()
        invariant
            i <= line.spans@.len(),
            lv == line.deep_view(),
            f == on_card(*theme, kind),
            text == card_text(*theme, kind),
            back == (match card_back(*theme, kind).bg {
                Some(c) => c,
                None => theme.bg(),
            }),
            spans.deep_view() == lv.take(i as int).map_values(f),
        decreases line.spans@.len() - i,
    {
        let s = &line.spans[i];
        assert(lv[i as int] == s.deep_view());
        let style = if s.style.fg.is_some() {
            s.style.bg(back)
        } else {
            text
        };
        push_span(&mut spans, Span::styled(s.content.as_str(), style));
        assert(lv.take(i + 1).map_values(f) =~= lv.take(i as int).map_values(f).push(
            f(lv[i as int]),
        ));
        i = i + 1;
    }
    assert(lv.take(i as int) =~= lv);
    Line { spans }
}

impl Card {
    /// The card in an area, `clip_top` of its rows being above it.
    pub fn render(&self, theme: &Theme, area: Area, clip_top: u16) -> (r: Vec<Paint>)
        ensures
            r.deep_view() == card_picture(*theme, self.deep_view(), area, clip_top),
    {
        let mut out: Vec<Paint> = Vec::new();
        assert(out.deep_view() =~= Seq::<PaintView>::empty());
        if area.height == 0 || area.width == 0 {
            return out;
        }
        paint(&mut out, Paint::Fill { area, style: back_of(theme, self.kind) });
        let compact = self.kind == (CardKind::Tool { compact: true });
        let pad: u16 = if clip_top == 0 && !compact {
            1
        } else {
            0
        };
        let height = less(area.height, pad);
        if height == 0 {
            assert(out.deep_view() =~= card_picture(*theme, self.deep_view(), area, clip_top));
            return out;
        }
        let ghost lv = self.lines.deep_view();
        let ghost f = line_on_card(*theme, self.kind);
        let mut lines: Vec<Line> = Vec::new();
        assert(lines.deep_view() =~= lv.take(0).map_values(f));
        let mut i: usize = 0;
        while i < self.lines.len()
            invariant
                i <= self.lines@.len(),
                lv == self.lines.deep_view(),
                f == line_on_card(*theme, self.kind),
                lines.deep_view() == lv.take(i as int).map_values(f),
            decreases self.lines@.len() - i,
        {
            assert(lv[i as int] == self.lines@[i as int].deep_view());
            push_line(&mut lines, put_on_card(theme, self.kind, &self.lines[i]));
            assert(lv.take(i + 1).map_values(f) =~= lv.take(i as int).map_values(f).push(
                f(lv[i as int]),
            ));
            i = i + 1;
        }
        assert(lv.take(i as int) =~= lv);
        paint(
            &mut out,
            Paint::Text {
                area: Area {
                    x: shift(area.x, 2),
                    y: shift(area.y, pad as usize),
                    width: less(area.width, 4),
                    height,
                },
                lines,
                style: Style::plain(),
                wrap: true,
                scroll: less(clip_top, 1),
                centered: false,
            },
        );
        assert(out.deep_view() =~= card_picture(*theme, self.deep_view(), area, clip_top));
        out
    }
}

// ── all cards ────────────────────────────────────────────────────────────────

/// How many rows the first `n` cards take.
pub open spec fn cards_height(cards: Seq<CardView>, width: u16, n: int) -> int
    decreases n,
{
    if n <= 0 {
        0
    } else {
        cards_height(cards, width, n - 1) + cards[n - 1].height(width)
    }
}

/// A card whose first row is `top` rows below the top of the area, as far as it
/// lies in it.
pub open spec fn card_at(theme: Theme, card: CardView, area: Area, top: int) -> PictureView {
    let h = card.height(area.width) as int;
    if top + h > 0 && top < area.height {
        let start = if top > 0 {
            top
        } else {
            0
        };
        card_picture(
            theme,
            card,
            Area {
                x: area.x,
                y: beyond(area.y, start),
                width: area.width,
                height: (least(top + h, area.height as int) - start) as u16,
            },
            (start - top) as u16,
        )
    } else {
        Seq::empty()
    }
}

/// The first `n` cards below each other, the first `scroll` rows being above
/// the area.
pub open spec fn cards_picture(
    theme: Theme,
    cards: Seq<CardView>,
    area: Area,
    scroll: int,
    n: int,
) -> PictureView
    decreases n,
{
    if n <= 0 {
        Seq::empty()
    } else {
        cards_picture(theme, cards, area, scroll, n - 1) + card_at(
            theme,
            cards[n - 1],
            area,
            cards_height(cards, area.width, n - 1) - scroll,
        )
    }
}

impl AppView {
    /// The cards of the conversation, with that of the running turn.
    pub open spec fn all_cards(self) -> Seq<CardView> {
        match self.streaming_card() {
            Some(card) => self.cards_updated().card_cache.cards.push(card),
            None => self.cards_updated().card_cache.cards,
        }
    }

    /// The conversation in its area, and the state with the cards remembered and
    /// the scroll offset kept within the conversation.  The offset counts rows
    /// from the bottom, and grows with the conversation unless it is zero.
    #[verifier::opaque]
    pub open spec fn messages_picture(self, area: Area) -> (AppView, PictureView) {
        let back = seq![PaintView::Fill { area, style: self.theme.base() }];
        let cards = self.all_cards();
        let kept = self.cards_updated().stream_kept();
        if cards.len() == 0 {
            (kept, back)
        } else {
            let total = least(
                cards_height(cards, area.width, cards.len() as int),
                u16::MAX as int,
            );
            let grown = kept.scroll_compensated(total as u16);
            let most = monus(total, area.height as int);
            let offset = least(grown.scroll_offset as int, most);
            (
                AppView { scroll_offset: offset as u16, ..grown },
                back + cards_picture(
                    self.theme,
                    cards,
                    area,
                    most - offset,
                    cards.len() as int,
                ),
            )
        }
    }
}

proof fn lemma_streaming_card_is_kept(app: AppView)
    ensures
        app.cards_updated().streaming_card() == app.streaming_card(),
        app.cards_updated().theme == app.theme,
        app.cards_updated().scroll_offset == app.scroll_offset,
        app.cards_updated().stream_kept().scroll_offset == app.scroll_offset,
        app.cards_updated().stream_kept().card_cache == app.cards_updated().card_cache,
        app.cards_updated().stream_kept().theme == app.theme,
{
    reveal(AppView::cards_updated);
}

fn total_height(cards: &Vec<Card>, width: u16) -> (r: u16)
    ensures
        r == least(cards_height(cards.deep_view(), width, cards@.len() as int), u16::MAX as int),
{
    let ghost cv = cards.deep_view();
    let mut total: u16 = 0;
    let mut i: usize = 0;
    while i < cards.len()
        invariant
            i <= cards@.len(),
            cv == cards.deep_view(),
            total == least(cards_height(cv, width, i as int), u16::MAX as int),
            cards_height(cv, width, i as int) >= 0,
        decreases cards@.len() - i,
    {
        assert(cv[i as int] == cards@[i as int].deep_view());
        total = total.saturating_add(cards[i].height(width));
        i = i + 1;
    }
    total
}

fn paint_card_at(theme: &Theme, card: &Card, area: Area, top: i128) -> (r: Vec<Paint>)
    requires
        -0x1_0000_0000_0000_0000_0000 < top < 0x1_0000_0000_0000_0000_0000,
    ensures
        r.deep_view() == card_at(*theme, card.deep_view(), area, top as int),
{
    let h: i128 = card.height(area.width) as i128;
    if top + h > 0 && top < area.height as i128 {
        let start: i128 = if top > 0 {
            top
        } else {
            0
        };
        let bottom: i128 = if top + h <= area.height as i128 {
            top + h
        } else {
            area.height as i128
        };
        card.render(
            theme,
            Area {
                x: area.x,
                y: shift(area.y, start as usize),
                width: area.width,
                height: (bottom - start) as u16,
            },
            (start - top) as u16,
        )
    } else {
        let out: Vec<Paint> = Vec::new();
        assert(out.deep_view() =~= Seq::<PaintView>::empty());
        out
    }
}

fn paint_cards(theme: &Theme, cards: &Vec<Card>, area: Area, scroll: u16) -> (r: Vec<Paint>)
    ensures
        r.deep_view() == cards_picture(
            *theme,
            cards.deep_view(),
            area,
            scroll as int,
            cards@.len() as int,
        ),
{
    let ghost cv = cards.deep_view();
    let mut out: Vec<Paint> = Vec::new();
    assert(out.deep_view() =~= Seq::<PaintView>::empty());
    let mut y: i128 = 0 - scroll as i128;
    let mut i: usize = 0;
    while i < cards.len()
        invariant
            i <= cards@.len(),
            cv == cards.deep_view(),
            y == cards_height(cv, area.width, i as int) - scroll,
            -65536 <= y <= i * 65535,
            out.deep_view() == cards_picture(*theme, cv, area, scroll as int, i as int),
        decreases cards@.len() - i,
    {
        assert(cv[i as int] == cards@[i as int].deep_view());
        assert(i * 65535 < 0x1_0000_0000_0000_0000_0000);
        paint_all(&mut out, paint_card_at(theme, &cards[i], area, y));
        y = y + cards[i].height(area.width) as i128;
        i = i + 1;
    }
    out
}

/// The conversation in its area.
pub fn draw_messages(app: &mut App, area: Area, hl: &Highlighter) -> (r: Vec<Paint>)
    ensures
        (final(app)@, r.deep_view()) == old(app)@.messages_picture(area),
        old(app)@.wf() ==> final(app)@.wf(),
{
    reveal(AppView::messages_picture);
    let ghost s = app@;
    let theme = app.theme;
    let mut out: Vec<Paint> = Vec::new();
    paint(&mut out, Paint::Fill { area, style: theme.base() });
    assert(out.deep_view() =~= seq![PaintView::Fill { area, style: theme.base() }]);
    proof {
        lemma_streaming_card_is_kept(s);
    }
    build_message_cards(app, hl);
    let streaming = build_streaming_card(app, hl);
    let mut cards = copy_cards(&app.card_cache.cards);
    if let Some(card) = streaming {
        let ghost before = cards.deep_view();
        cards.push(card);
        assert(cards.deep_view() =~= before.push(card.deep_view()));
    }
    assert(cards.deep_view() == s.all_cards());
    if cards.len() == 0 {
        return out;
    }
    let total = total_height(&cards, area.width);
    app.compensate_scroll_for_growth(total);
    let most = less(total, area.height);
    let offset = smaller(app.scroll_offset, most);
    app.scroll_offset = offset;
    paint_all(&mut out, paint_cards(&theme, &cards, area, most - offset));
    out
}

fn copy_cards(cards: &Vec<Card>) -> (r: Vec<Card>)
    ensures
        r.deep_view() == cards.deep_view(),
{
    let r = cards.clone();
    assert(r.deep_view() =~= cards.deep_view());
    r
}

/// With the offset at zero the last row of the conversation is the last row of
/// the area, as long as the conversation is at least that high.
pub proof fn law_pinned_to_the_bottom(app: AppView, area: Area)
    requires
        app.scroll_offset == 0,
        app.all_cards().len() > 0,
        cards_height(app.all_cards(), area.width, app.all_cards().len() as int) <= u16::MAX,
        cards_height(app.all_cards(), area.width, app.all_cards().len() as int) >= area.height,
    ensures
        app.messages_picture(area).0.scroll_offset == 0,
        ({
            let cards = app.all_cards();
            let n = cards.len() as int;
            let all = cards_height(cards, area.width, n);
            app.messages_picture(area).1 == seq![
                PaintView::Fill { area, style: app.theme.base() },
            ] + cards_picture(app.theme, cards, area, all - area.height, n)
        }),
{
    reveal(AppView::messages_picture);
    reveal(AppView::cards_updated);
}

/// While the user has scrolled up, the row of the conversation at the top of
/// the area is the same before and after the conversation has grown.
pub proof fn law_scrolled_view_stays(app: AppView, area: Area)
    requires
        app.scroll_offset > 0,
        app.all_cards().len() > 0,
        app.prev_total_height >= area.height + app.scroll_offset,
        app.prev_total_height <= cards_height(
            app.all_cards(),
            area.width,
            app.all_cards().len() as int,
        ) <= u16::MAX,
    ensures
        app.messages_picture(area).1 == seq![
            PaintView::Fill { area, style: app.theme.base() },
        ] + cards_picture(
            app.theme,
            app.all_cards(),
            area,
            app.prev_total_height - area.height - app.scroll_offset,
            app.all_cards().len() as int,
        ),
{
    reveal(AppView::messages_picture);
    reveal(AppView::cards_updated);
}

} // verus!
