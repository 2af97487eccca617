//! From messages to cards.
use crate::app::{
    ActivityState, ActivityStateView, App, AppView, ChatEntry, ChatEntryView, StreamingCacheView,
    ToolDetail, ToolDetailView,
};
use crate::cards::{Card, CardCacheView, CardKind, CardView};
use crate::highlight::Highlighter;
use crate::layout::{line_columns, spans_width};
use crate::markdown::{markdown_lines, render};
use crate::seqs::least;
use crate::spinner::{frame_at, spinner, SpinnerKind};
use crate::style::{
    copy_lines, push_line, push_lines, raw_line, span_of, Line, LineView, Span, SpanView, Style,
};
use crate::text::{
    byte_len, bytes, cat2, cat3, decimal, has_char, lines, number, same, short_form, short_path,
    split_lines,
};
use crate::theme::Theme;
use vstd::prelude::*;

verus! {

// ── cards ────────────────────────────────────────────────────────────────────

/// A card: a compact tool card has no blank rows, another none below it, any
/// other card one above and one below.
pub open spec fn card_of(kind: CardKind, lines: Seq<LineView>) -> CardView {
    CardView {
        kind,
        lines,
        top_pad: if kind == (CardKind::Tool { compact: true }) {
            0
        } else {
            1
        },
        bottom_pad: if kind is Tool {
            0
        } else {
            1
        },
    }
}

/// How many rows a line takes in a card of the given width, which leaves two
/// columns on either side.
pub open spec fn line_rows(line: LineView, width: u16) -> int {
    let inner = if width >= 4 {
        width - 4
    } else {
        0
    };
    let w = spans_width(line) as int;
    if inner == 0 || w == 0 {
        1
    } else {
        least((w + inner - 1) / inner, u16::MAX as int)
    }
}

/// How many rows the first `n` lines take, as far as the number fits.
pub open spec fn rows_of(lines: Seq<LineView>, width: u16, n: int) -> int
    decreases n,
{
    if n <= 0 {
        0
    } else {
        least(rows_of(lines, width, n - 1) + line_rows(lines[n - 1], width), u16::MAX as int)
    }
}

/// Two heights on top of each other, as far as the number fits.
pub open spec fn stacked(a: int, b: int) -> int {
    least(a + b, u16::MAX as int)
}

impl CardView {
    /// How many rows a card takes, at least one between its blank rows.
    pub open spec fn height(self, width: u16) -> u16 {
        let rows = rows_of(self.lines, width, self.lines.len() as int);
        stacked(
            stacked(
                self.top_pad as int,
                if rows > 1 {
                    rows
                } else {
                    1
                },
            ),
            self.bottom_pad as int,
        ) as u16
    }
}

impl Card {
    /// A card with its blank rows.
    pub fn new(kind: CardKind, lines: Vec<Line>) -> (r: Card)
        ensures
            r.deep_view() == card_of(kind, lines.deep_view()),
    {
        let compact = match kind {
            CardKind::Tool { compact } => compact,
            _ => false,
        };
        let tool = match kind {
            CardKind::Tool { .. } => true,
            _ => false,
        };
        Card {
            kind,
            lines,
            top_pad: if compact {
                0
            } else {
                1
            },
            bottom_pad: if tool {
                0
            } else {
                1
            },
        }
    }

    /// How many rows the card takes at the given width; a height beyond what
    /// fits is the largest that does.
    pub fn height(&self, width: u16) -> (r: u16)
        ensures
            r == self.deep_view().height(width),
    {
        let ghost lv = self.lines.deep_view();
        let inner: usize = width.saturating_sub(4) as usize;
        let mut rows: u16 = 0;
        let mut i: usize = 0;
        while i < self.lines.len()
            invariant
                i <= self.lines@.len(),
                lv == self.lines.deep_view(),
                inner == (if width >= 4 {
                    width - 4
                } else {
                    0
                }),
                rows == rows_of(lv, width, i as int),
            decreases self.lines@.len() - i,
        {
            assert(lv[i as int] == self.lines@[i as int].deep_view());
            let w = line_columns(&self.lines[i].spans);
            let n: u16 = if inner == 0 || w == 0 {
                1
            } else {
                wrapped_rows(w, inner)
            };
            rows = rows.saturating_add(n);
            i = i + 1;
        }
        let rows: u16 = if rows > 1 {
            rows
        } else {
            1
        };
        self.top_pad.saturating_add(rows).saturating_add(self.bottom_pad)
    }
}

fn wrapped_rows(w: usize, inner: usize) -> (r: u16)
    requires
        w > 0,
        inner > 0,
    ensures
        r == least((w + inner - 1) / inner as int, u16::MAX as int),
{
    let whole: usize = w / inner;
    let rest: usize = w % inner;
    proof {
        let (wi, ni) = (w as int, inner as int);
        vstd::arithmetic::div_mod::lemma_fundamental_div_mod(wi, ni);
        let q = wi / ni;
        let m = wi % ni;
        if m == 0 {
            vstd::arithmetic::div_mod::lemma_fundamental_div_mod_converse(
                wi + ni - 1,
                ni,
                q,
                ni - 1,
            );
        } else {
            assert(ni * (q + 1) == ni * q + ni) by (nonlinear_arith);
            vstd::arithmetic::div_mod::lemma_fundamental_div_mod_converse(
                wi + ni - 1,
                ni,
                q + 1,
                m - 1,
            );
        }
        assert(whole <= w) by (nonlinear_arith)
            requires
                whole == w / inner,
                inner > 0,
        ;
        if m > 0 {
            assert(whole < usize::MAX) by {
                if whole == usize::MAX {
                    assert(ni * q >= q) by (nonlinear_arith)
                        requires
                            ni > 0,
                            q >= 0,
                    ;
                }
            }
        }
    }
    let rows: usize = if rest == 0 {
        whole
    } else {
        whole + 1
    };
    if rows <= 65535 {
        rows as u16
    } else {
        65535
    }
}

// ── what a message shows ─────────────────────────────────────────────────────

/// A line in a style, indented.
pub open spec fn indented_line(style: Style) -> spec_fn(Seq<char>) -> LineView {
    |l: Seq<char>| seq![span_of("  "@ + l, style)]
}

/// The lines of a text in a style, indented.
pub open spec fn indented(text: Seq<char>, style: Style) -> Seq<LineView> {
    lines(text).map_values(indented_line(style))
}

/// The style of a tool call.
pub open spec fn tool_style(theme: Theme, is_error: bool) -> Style {
    if is_error {
        theme.tool_error()
    } else {
        theme.tool_text()
    }
}

/// The mark of a tool call and its name.
pub open spec fn tool_label(name: Seq<char>, is_error: bool) -> Seq<char> {
    (if is_error {
        "x "@
    } else {
        "> "@
    }) + name
}

/// A tool call with something behind its name.
pub open spec fn tool_head(
    theme: Theme,
    name: Seq<char>,
    is_error: bool,
    info: Seq<char>,
) -> LineView {
    seq![
        span_of(tool_label(name, is_error) + " "@, tool_style(theme, is_error)),
        span_of(info, theme.diff_file()),
    ]
}

/// The lines of a tool call.
pub open spec fn tool_lines(
    theme: Theme,
    name: Seq<char>,
    is_error: bool,
    detail: ToolDetailView,
) -> Seq<LineView> {
    match detail {
        ToolDetailView::Edit { file, cached_lines, .. } => seq![
            tool_head(theme, name, is_error, short_form(file)),
        ] + cached_lines,
        ToolDetailView::WriteFile { path, cached_lines, .. } => seq![
            tool_head(theme, name, is_error, short_form(path)),
        ] + cached_lines,
        ToolDetailView::SummaryWithOutput { header, output } => seq![
            tool_head(theme, name, is_error, header),
        ] + indented(output, theme.tool_output()),
        ToolDetailView::Summary(info) => if info.contains('\n') {
            seq![seq![span_of(tool_label(name, is_error), tool_style(theme, is_error))]]
                + indented(info, theme.diff_file())
        } else {
            seq![tool_head(theme, name, is_error, info)]
        },
        ToolDetailView::Bare => seq![
            seq![span_of(tool_label(name, is_error), tool_style(theme, is_error))],
        ],
    }
}

/// Thinking, with a mark before its first line.
pub open spec fn marked_thinking(theme: Theme, rendered: Seq<LineView>) -> Seq<LineView> {
    if rendered.len() > 0 {
        rendered.update(0, seq![span_of("\u{25CF} "@, theme.thinking())] + rendered[0])
    } else {
        rendered
    }
}

/// The lines of an answer: its thinking where that is shown, an empty line,
/// and its text.
pub open spec fn answer_lines(
    theme: Theme,
    show_thinking: bool,
    content: Seq<char>,
    thinking: Option<Seq<char>>,
) -> Seq<LineView> {
    let text = markdown_lines(theme, theme.assistant_text(), content);
    match thinking {
        Some(t) => if show_thinking {
            marked_thinking(theme, markdown_lines(theme, theme.thinking_text(), t)).push(
                Seq::empty(),
            ) + text
        } else {
            text
        },
        None => text,
    }
}

/// The first line of a compaction.
pub open spec fn compaction_head(theme: Theme, text: Seq<char>) -> LineView {
    seq![span_of("[compact] "@, theme.status_accent()), span_of(text, theme.status_accent())]
}

/// What a compaction that is over came to.
pub open spec fn compaction_size(token_estimate: Option<u32>, summary_len: u32) -> Seq<char> {
    match token_estimate {
        Some(n) => "  ~"@ + decimal(n as nat) + " tokens -> "@ + decimal(summary_len as nat)
            + " chars"@,
        None => "  "@ + decimal(summary_len as nat) + " chars"@,
    }
}

/// What a question shows of its outcome.
pub open spec fn outcome_lines(theme: Theme, outcome: Option<Seq<char>>) -> Seq<LineView> {
    match outcome {
        None => seq![seq![span_of("  waiting for response\u{2026}"@, theme.thinking())]],
        Some(text) => if text == "declined"@ || text == "cancelled"@ {
            seq![seq![span_of("  "@ + text, theme.status())]]
        } else {
            indented(text, theme.info_text())
        },
    }
}

/// The card of a message that is not a tool call.
#[verifier::opaque]
pub open spec fn message_card(theme: Theme, show_thinking: bool, e: ChatEntryView) -> CardView {
    match e {
        ChatEntryView::User { text, .. } => card_of(
            CardKind::User,
            markdown_lines(theme, theme.user_text(), text),
        ),
        ChatEntryView::Assistant { content, thinking } => card_of(
            CardKind::Assistant,
            answer_lines(theme, show_thinking, content, thinking),
        ),
        ChatEntryView::ToolCall { .. } => card_of(CardKind::Info, Seq::empty()),
        ChatEntryView::CompactionStart { token_estimate } => card_of(
            CardKind::Compaction,
            seq![
                compaction_head(theme, "Summarizing conversation history"@),
                seq![
                    span_of(
                        "  ~"@ + decimal(token_estimate as nat) + " tokens"@,
                        theme.status(),
                    ),
                ],
            ],
        ),
        ChatEntryView::CompactionEnd { token_estimate, summary, summary_len } => card_of(
            CardKind::Compaction,
            seq![
                compaction_head(theme, "Conversation summarized"@),
                seq![span_of(compaction_size(token_estimate, summary_len), theme.status())],
                Seq::empty(),
            ] + markdown_lines(theme, theme.assistant_text(), summary),
        ),
        ChatEntryView::Info(text) => card_of(CardKind::Info, seq![raw_line(text)]),
        ChatEntryView::Error(text) => card_of(CardKind::Error, seq![raw_line(text)]),
        ChatEntryView::Elicitation { message, outcome, .. } => card_of(
            CardKind::Elicitation,
            seq![
                seq![
                    span_of("[?] "@, theme.status_accent()),
                    span_of(message, theme.status_accent()),
                ],
            ] + outcome_lines(theme, outcome),
        ),
    }
}

/// Cards, and the lines of tool calls that are not on a card yet.
pub type DealView = (Seq<CardView>, Seq<LineView>);

/// With the tool calls on a card of their own, which is compact behind an
/// answer.
pub open spec fn flushed(deal: DealView) -> Seq<CardView> {
    if deal.1.len() == 0 {
        deal.0
    } else {
        deal.0.push(
            card_of(
                CardKind::Tool {
                    compact: deal.0.len() > 0 && (deal.0.last().kind == CardKind::Assistant
                        || deal.0.last().kind == CardKind::Streaming),
                },
                deal.1,
            ),
        )
    }
}

/// With one more message.
pub open spec fn dealt(
    theme: Theme,
    show_thinking: bool,
    deal: DealView,
    e: ChatEntryView,
) -> DealView {
    match e {
        ChatEntryView::ToolCall { name, is_error, detail, .. } => (
            deal.0,
            deal.1 + tool_lines(theme, name, is_error, detail),
        ),
        _ => (flushed(deal).push(message_card(theme, show_thinking, e)), Seq::empty()),
    }
}

/// With more messages.
pub open spec fn dealt_all(
    theme: Theme,
    show_thinking: bool,
    deal: DealView,
    messages: Seq<ChatEntryView>,
) -> DealView
    decreases messages.len(),
{
    if messages.len() == 0 {
        deal
    } else {
        dealt(
            theme,
            show_thinking,
            dealt_all(theme, show_thinking, deal, messages.drop_last()),
            messages.last(),
        )
    }
}

/// The cards of a conversation: a card for each message, and one for each run
/// of tool calls.
pub open spec fn deck(theme: Theme, show_thinking: bool, messages: Seq<ChatEntryView>) -> Seq<
    CardView,
> {
    flushed(dealt_all(theme, show_thinking, (Seq::empty(), Seq::empty()), messages))
}

/// Where the run of tool calls that ends at `n` begins.
pub open spec fn run_start(messages: Seq<ChatEntryView>, n: int) -> int
    decreases n,
{
    if 0 < n <= messages.len() && messages[n - 1] is ToolCall {
        run_start(messages, n - 1)
    } else {
        n
    }
}

impl AppView {
    /// The cards to build on, and the first message that is not on them: a tool
    /// card at the end is taken off, as more calls may join it.
    pub open spec fn deck_base(self) -> (Seq<CardView>, int) {
        let cache = self.card_cache;
        let n = cache.processed_messages as int;
        if cache.cards.len() > 0 && cache.cards.last().kind is Tool {
            (cache.cards.drop_last(), run_start(self.messages, n))
        } else {
            (cache.cards, n)
        }
    }

    /// With a card for every message.  Where there are fewer messages than
    /// cards were made for, they are made anew.
    #[verifier::opaque]
    pub open spec fn cards_updated(self) -> AppView {
        let s = if self.messages.len() < self.card_cache.processed_messages {
            AppView { card_cache: CardCacheView::empty(), ..self }
        } else {
            self
        };
        if s.messages.len() == s.card_cache.processed_messages {
            s
        } else {
            let (base, from) = s.deck_base();
            AppView {
                card_cache: CardCacheView {
                    cards: flushed(
                        dealt_all(
                            s.theme,
                            s.show_thinking,
                            (base, Seq::empty()),
                            s.messages.skip(from),
                        ),
                    ),
                    processed_messages: s.messages.len() as usize,
                },
                ..s
            }
        }
    }
}

fn push_indented(out: &mut Vec<Line>, text: &str, style: Style)
    ensures
        final(out).deep_view() == old(out).deep_view() + indented(text@, style),
{
    let parts = split_lines(text);
    let ghost pv = parts.deep_view();
    let ghost f = indented_line(style);
    let ghost base = out.deep_view();
    assert(out.deep_view() =~= base + pv.take(0).map_values(f));
    let mut i: usize = 0;
    while i < parts.len()
        invariant
            i <= parts@.len(),
            pv == parts.deep_view(),
            f == indented_line(style),
            out.deep_view() == base + pv.take(i as int).map_values(f),
        decreases parts@.len() - i,
    {
        let ghost before = out.deep_view();
        assert(pv[i as int] == parts@[i as int]@);
        push_line(out, Line::one(Span::new(cat2("  ", parts[i].as_str()), style)));
        assert(out.deep_view() == before.push(f(pv[i as int])));
        assert(pv.take(i + 1).map_values(f) =~= pv.take(i as int).map_values(f).push(
            f(pv[i as int]),
        ));
        assert(out.deep_view() =~= base + pv.take(i + 1).map_values(f));
        i = i + 1;
    }
    assert(pv.take(i as int) =~= pv);
}

fn label_of(name: &str, is_error: bool) -> (r: String)
    ensures
        r@ == tool_label(name@, is_error),
{
    cat2(
        if is_error {
            "x "
        } else {
            "> "
        },
        name,
    )
}

fn style_of(theme: &Theme, is_error: bool) -> (r: Style)
    ensures
        r == tool_style(*theme, is_error),
{
    if is_error {
        theme.tool_error()
    } else {
        theme.tool_text()
    }
}

fn head_of(theme: &Theme, name: &str, is_error: bool, info: &str) -> (r: Line)
    ensures
        r.deep_view() == tool_head(*theme, name@, is_error, info@),
{
    Line::two(
        Span::new(
            cat2(label_of(name, is_error).as_str(), " "),
            style_of(theme, is_error),
        ),
        Span::styled(info, theme.diff_file()),
    )
}

fn build_tool_lines(theme: &Theme, name: &str, is_error: bool, detail: &ToolDetail) -> (r: Vec<Line>)
    ensures
        r.deep_view() == tool_lines(*theme, name@, is_error, detail.deep_view()),
{
    let mut out: Vec<Line> = Vec::new();
    assert(out.deep_view() =~= Seq::<LineView>::empty());
    match detail {
        ToolDetail::Edit { file, cached_lines, .. } => {
            push_line(
                &mut out,
                head_of(theme, name, is_error, short_path(file.as_str()).as_str()),
            );
            push_lines(&mut out, copy_lines(cached_lines));
        },
        ToolDetail::WriteFile { path, cached_lines, .. } => {
            push_line(
                &mut out,
                head_of(theme, name, is_error, short_path(path.as_str()).as_str()),
            );
            push_lines(&mut out, copy_lines(cached_lines));
        },
        ToolDetail::SummaryWithOutput { header, output } => {
            push_line(&mut out, head_of(theme, name, is_error, header.as_str()));
            push_indented(&mut out, output.as_str(), theme.tool_output());
        },
        ToolDetail::Summary(info) => {
            if has_char(info.as_str(), '\n') {
                push_line(
                    &mut out,
                    Line::one(Span::new(label_of(name, is_error), style_of(theme, is_error))),
                );
                push_indented(&mut out, info.as_str(), theme.diff_file());
            } else {
                push_line(&mut out, head_of(theme, name, is_error, info.as_str()));
            }
        },
        ToolDetail::Bare => {
            push_line(
                &mut out,
                Line::one(Span::new(label_of(name, is_error), style_of(theme, is_error))),
            );
        },
    }
    assert(out.deep_view() =~= tool_lines(*theme, name@, is_error, detail.deep_view()));
    out
}

fn mark_thinking(theme: &Theme, rendered: Vec<Line>) -> (r: Vec<Line>)
    ensures
        r.deep_view() == marked_thinking(*theme, rendered.deep_view()),
{
    let mut rendered = rendered;
    let ghost rv = rendered.deep_view();
    if rendered.len() > 0 {
        let first = rendered.remove(0);
        let ghost fv = first.deep_view();
        assert(fv == rv[0]);
        let mut spans = first.spans;
        let dot = Span::styled("\u{25CF} ", theme.thinking());
        let ghost dv = dot.deep_view();
        spans.insert(0, dot);
        assert(spans.deep_view() =~= seq![dv] + fv);
        rendered.insert(0, Line { spans });
        assert(rendered.deep_view() =~= marked_thinking(*theme, rv));
    }
    rendered
}

fn build_answer_lines(
    theme: &Theme,
    show_thinking: bool,
    content: &str,
    thinking: &Option<String>,
    hl: &Highlighter,
) -> (r: Vec<Line>)
    ensures
        r.deep_view() == answer_lines(*theme, show_thinking, content@, thinking.deep_view()),
{
    let mut out: Vec<Line> = Vec::new();
    assert(out.deep_view() =~= Seq::<LineView>::empty());
    if show_thinking {
        if let Some(t) = thinking {
            let rendered = render(theme, t.as_str(), theme.thinking_text(), hl);
            out = mark_thinking(theme, rendered);
            push_line(&mut out, Line::empty());
        }
    }
    push_lines(&mut out, render(theme, content, theme.assistant_text(), hl));
    assert(out.deep_view() =~= answer_lines(
        *theme,
        show_thinking,
        content@,
        thinking.deep_view(),
    ));
    out
}

fn compaction_line(theme: &Theme, text: &str) -> (r: Line)
    ensures
        r.deep_view() == compaction_head(*theme, text@),
{
    Line::two(
        Span::styled("[compact] ", theme.status_accent()),
        Span::styled(text, theme.status_accent()),
    )
}

fn size_text(token_estimate: Option<u32>, summary_len: u32) -> (r: String)
    ensures
        r@ == compaction_size(token_estimate, summary_len),
{
    let chars = number(summary_len as u128);
    match token_estimate {
        Some(n) => {
            let head = cat3("  ~", number(n as u128).as_str(), " tokens -> ");
            cat3(head.as_str(), chars.as_str(), " chars")
        },
        None => cat3("  ", chars.as_str(), " chars"),
    }
}

fn push_outcome(out: &mut Vec<Line>, theme: &Theme, outcome: &Option<String>)
    ensures
        final(out).deep_view() == old(out).deep_view() + outcome_lines(
            *theme,
            outcome.deep_view(),
        ),
{
    let ghost before = out.deep_view();
    match outcome {
        None => {
            push_line(
                out,
                Line::one(Span::styled("  waiting for response\u{2026}", theme.thinking())),
            );
            assert(out.deep_view() =~= before + outcome_lines(*theme, None));
        },
        Some(text) => {
            if same(text.as_str(), "declined") || same(text.as_str(), "cancelled") {
                push_line(
                    out,
                    Line::one(Span::new(cat2("  ", text.as_str()), theme.status())),
                );
                assert(out.deep_view() =~= before + outcome_lines(*theme, Some(text@)));
            } else {
                push_indented(out, text.as_str(), theme.info_text());
            }
        },
    }
}

fn build_card(theme: &Theme, show_thinking: bool, entry: &ChatEntry, hl: &Highlighter) -> (r: Card)
    ensures
        r.deep_view() == message_card(*theme, show_thinking, entry.deep_view()),
{
    reveal(message_card);
    let mut out: Vec<Line> = Vec::new();
    assert(out.deep_view() =~= Seq::<LineView>::empty());
    match entry {
        ChatEntry::User { text, .. } => Card::new(
            CardKind::User,
            render(theme, text.as_str(), theme.user_text(), hl),
        ),
        ChatEntry::Assistant { content, thinking } => Card::new(
            CardKind::Assistant,
            build_answer_lines(theme, show_thinking, content.as_str(), thinking, hl),
        ),
        ChatEntry::ToolCall { .. } => Card::new(CardKind::Info, out),
        ChatEntry::CompactionStart { token_estimate } => {
            push_line(&mut out, compaction_line(theme, "Summarizing conversation history"));
            let said = cat3("  ~", number(*token_estimate as u128).as_str(), " tokens");
            push_line(&mut out, Line::one(Span::new(said, theme.status())));
            assert(out.deep_view() =~= message_card(
                *theme,
                show_thinking,
                entry.deep_view(),
            ).lines);
            Card::new(CardKind::Compaction, out)
        },
        ChatEntry::CompactionEnd { token_estimate, summary, summary_len } => {
            push_line(&mut out, compaction_line(theme, "Conversation summarized"));
            push_line(
                &mut out,
                Line::one(Span::new(size_text(*token_estimate, *summary_len), theme.status())),
            );
            push_line(&mut out, Line::empty());
            push_lines(&mut out, render(theme, summary.as_str(), theme.assistant_text(), hl));
            assert(out.deep_view() =~= message_card(
                *theme,
                show_thinking,
                entry.deep_view(),
            ).lines);
            Card::new(CardKind::Compaction, out)
        },
        ChatEntry::Info(text) => {
            push_line(&mut out, Line::raw(text.as_str()));
            assert(out.deep_view() =~= seq![raw_line(text@)]);
            Card::new(CardKind::Info, out)
        },
        ChatEntry::Error(text) => {
            push_line(&mut out, Line::raw(text.as_str()));
            assert(out.deep_view() =~= seq![raw_line(text@)]);
            Card::new(CardKind::Error, out)
        },
        ChatEntry::Elicitation { message, outcome, .. } => {
            push_line(
                &mut out,
                Line::two(
                    Span::styled("[?] ", theme.status_accent()),
                    Span::styled(message.as_str(), theme.status_accent()),
                ),
            );
            push_outcome(&mut out, theme, outcome);
            assert(out.deep_view() =~= message_card(
                *theme,
                show_thinking,
                entry.deep_view(),
            ).lines);
            Card::new(CardKind::Elicitation, out)
        },
    }
}

fn push_card(cards: &mut Vec<Card>, card: Card)
    ensures
        final(cards).deep_view() == old(cards).deep_view().push(card.deep_view()),
{
    let ghost before = cards.deep_view();
    cards.push(card);
    assert(cards.deep_view() =~= before.push(card.deep_view()));
}

fn flush_tools(cards: &mut Vec<Card>, tools: &mut Vec<Line>)
    ensures
        final(cards).deep_view() == flushed((old(cards).deep_view(), old(tools).deep_view())),
        final(tools).deep_view() == Seq::<LineView>::empty(),
{
    let ghost cv = cards.deep_view();
    let mut taken: Vec<Line> = Vec::new();
    std::mem::swap(&mut taken, tools);
    assert(tools.deep_view() =~= Seq::<LineView>::empty());
    if taken.len() > 0 {
        let n: usize = cards.len();
        let compact = if n > 0 {
            assert(cv[n - 1] == cards@[n - 1].deep_view());
            cards[n - 1].kind == CardKind::Assistant || cards[n - 1].kind == CardKind::Streaming
        } else {
            false
        };
        push_card(cards, Card::new(CardKind::Tool { compact }, taken));
    }
}

fn deal_from(
    theme: &Theme,
    show_thinking: bool,
    messages: &Vec<ChatEntry>,
    from: usize,
    cards: Vec<Card>,
    hl: &Highlighter,
) -> (r: Vec<Card>)
    requires
        from <= messages@.len(),
    ensures
        r.deep_view() == flushed(
            dealt_all(
                *theme,
                show_thinking,
                (cards.deep_view(), Seq::empty()),
                messages.deep_view().skip(from as int),
            ),
        ),
{
    let ghost mv = messages.deep_view().skip(from as int);
    let ghost start: DealView = (cards.deep_view(), Seq::empty());
    let mut cards = cards;
    let mut tools: Vec<Line> = Vec::new();
    assert(tools.deep_view() =~= Seq::<LineView>::empty());
    assert(mv.take(0) =~= Seq::<ChatEntryView>::empty());
    let mut i: usize = from;
    while i < messages.len()
        invariant
            from <= i <= messages@.len(),
            mv == messages.deep_view().skip(from as int),
            (cards.deep_view(), tools.deep_view()) == dealt_all(
                *theme,
                show_thinking,
                start,
                mv.take(i - from),
            ),
        decreases messages@.len() - i,
    {
        let ghost e = messages@[i as int].deep_view();
        assert(mv[i - from] == e);
        assert(mv.take(i - from + 1).drop_last() =~= mv.take(i - from));
        assert(mv.take(i - from + 1).last() == e);
        match &messages[i] {
            ChatEntry::ToolCall { name, is_error, detail, .. } => {
                push_lines(
                    &mut tools,
                    build_tool_lines(theme, name.as_str(), *is_error, detail),
                );
            },
            entry => {
                flush_tools(&mut cards, &mut tools);
                push_card(&mut cards, build_card(theme, show_thinking, entry, hl));
            },
        }
        i = i + 1;
    }
    assert(mv.take(i - from) =~= mv);
    flush_tools(&mut cards, &mut tools);
    cards
}

fn find_run_start(messages: &Vec<ChatEntry>, n: usize) -> (r: usize)
    requires
        n <= messages@.len(),
    ensures
        r == run_start(messages.deep_view(), n as int),
        r <= n,
{
    let ghost mv = messages.deep_view();
    let mut k: usize = n;
    let mut more = true;
    while more && k > 0
        invariant
            k <= n <= messages@.len(),
            mv == messages.deep_view(),
            more ==> run_start(mv, n as int) == run_start(mv, k as int),
            !more ==> run_start(mv, n as int) == k,
        decreases k + (if more {
            1nat
        } else {
            0nat
        }),
    {
        assert(mv[k - 1] == messages@[k - 1].deep_view());
        match &messages[k - 1] {
            ChatEntry::ToolCall { .. } => {
                k = k - 1;
            },
            _ => {
                more = false;
            },
        }
    }
    k
}

/// Brings the cards up to date with the messages; what is streamed is not on
/// them.
pub fn build_message_cards(app: &mut App, hl: &Highlighter)
    ensures
        final(app)@ == old(app)@.cards_updated(),
        old(app)@.wf() ==> final(app)@.wf(),
{
    reveal(AppView::cards_updated);
    if app.messages.len() < app.card_cache.processed_messages {
        app.card_cache.invalidate();
    }
    if app.messages.len() == app.card_cache.processed_messages {
        return ;
    }
    let ghost s = app@;
    let mut cards: Vec<Card> = Vec::new();
    std::mem::swap(&mut cards, &mut app.card_cache.cards);
    let n: usize = app.card_cache.processed_messages;
    let ghost cv = cards.deep_view();
    let k: usize = cards.len();
    let tool_last = if k > 0 {
        assert(cv[k - 1] == cards@[k - 1].deep_view());
        match cards[k - 1].kind {
            CardKind::Tool { .. } => true,
            _ => false,
        }
    } else {
        false
    };
    let from: usize = if tool_last {
        let _ = cards.pop();
        assert(cards.deep_view() =~= cv.drop_last());
        find_run_start(&app.messages, n)
    } else {
        n
    };
    assert((cards.deep_view(), from as int) == s.deck_base());
    let theme = app.theme;
    let all = deal_from(&theme, app.show_thinking, &app.messages, from, cards, hl);
    app.card_cache.cards = all;
    app.card_cache.processed_messages = app.messages.len();
}

// ── cards that are made bit by bit ───────────────────────────────────────────

proof fn lemma_dealt_in_parts(
    theme: Theme,
    st: bool,
    deal: DealView,
    a: Seq<ChatEntryView>,
    b: Seq<ChatEntryView>,
)
    ensures
        dealt_all(theme, st, deal, a + b) == dealt_all(theme, st, dealt_all(theme, st, deal, a), b),
    decreases b.len(),
{
    if b.len() == 0 {
        assert(a + b =~= a);
    } else {
        lemma_dealt_in_parts(theme, st, deal, a, b.drop_last());
        assert((a + b).drop_last() =~= a + b.drop_last());
        assert((a + b).last() == b.last());
    }
}

proof fn lemma_run_start(messages: Seq<ChatEntryView>, n: int)
    requires
        0 <= n <= messages.len(),
    ensures
        0 <= run_start(messages, n) <= n,
        forall|k: int| run_start(messages, n) <= k < n ==> (#[trigger] messages[k]) is ToolCall,
        run_start(messages, n) > 0 ==> !(messages[run_start(messages, n) - 1] is ToolCall),
    decreases n,
{
    if 0 < n && messages[n - 1] is ToolCall {
        lemma_run_start(messages, n - 1);
    }
}

proof fn lemma_tool_run(theme: Theme, st: bool, deal: DealView, run: Seq<ChatEntryView>)
    requires
        forall|k: int| 0 <= k < run.len() ==> (#[trigger] run[k]) is ToolCall,
    ensures
        dealt_all(theme, st, deal, run).0 == deal.0,
        dealt_all(theme, st, deal, run).1.len() >= deal.1.len() + run.len(),
    decreases run.len(),
{
    if run.len() > 0 {
        assert forall|k: int| 0 <= k < run.drop_last().len() implies (
        #[trigger] run.drop_last()[k]) is ToolCall by {
            assert(run.drop_last()[k] == run[k]);
        }
        lemma_tool_run(theme, st, deal, run.drop_last());
        assert(run.last() == run[run.len() - 1]);
    }
}

proof fn lemma_message_card_is_no_tool(theme: Theme, st: bool, e: ChatEntryView)
    ensures
        !(message_card(theme, st, e).kind is Tool),
{
    reveal(message_card);
}

/// What a deck of the first `n` messages leaves to build on.
proof fn lemma_deck_base(theme: Theme, st: bool, messages: Seq<ChatEntryView>, n: int)
    requires
        0 <= n <= messages.len(),
    ensures
        ({
            let cards = deck(theme, st, messages.take(n));
            let (base, from) = if cards.len() > 0 && cards.last().kind is Tool {
                (cards.drop_last(), run_start(messages, n))
            } else {
                (cards, n)
            };
            &&& 0 <= from <= n
            &&& dealt_all(theme, st, (Seq::empty(), Seq::empty()), messages.take(from)) == (
                base,
                Seq::<LineView>::empty(),
            )
        }),
{
    let none: DealView = (Seq::empty(), Seq::empty());
    let r = run_start(messages, n);
    lemma_run_start(messages, n);
    let before = dealt_all(theme, st, none, messages.take(r));
    if r > 0 {
        assert(messages.take(r).last() == messages[r - 1]);
        lemma_message_card_is_no_tool(theme, st, messages[r - 1]);
    }
    assert(before.1 =~= Seq::<LineView>::empty());
    assert(before.0.len() > 0 ==> !(before.0.last().kind is Tool));
    let run = messages.subrange(r, n);
    assert forall|k: int| 0 <= k < run.len() implies (#[trigger] run[k]) is ToolCall by {
        assert(run[k] == messages[r + k]);
    }
    lemma_tool_run(theme, st, before, run);
    assert(messages.take(r) + run =~= messages.take(n));
    lemma_dealt_in_parts(theme, st, none, messages.take(r), run);
    let cards = deck(theme, st, messages.take(n));
    if r < n {
        assert(cards.drop_last() =~= before.0);
        assert(cards.last().kind is Tool);
    } else {
        assert(run =~= Seq::<ChatEntryView>::empty());
        assert(cards == before.0);
    }
}

/// Making cards bit by bit gives the same cards as making them all at once:
/// where the cards are those of the first messages, they are afterwards those
/// of all messages.
pub proof fn law_cards_are_up_to_date(app: AppView)
    requires
        app.messages.len() <= usize::MAX,
        app.card_cache.processed_messages <= app.messages.len() ==> app.card_cache.cards == deck(
            app.theme,
            app.show_thinking,
            app.messages.take(app.card_cache.processed_messages as int),
        ),
    ensures
        app.cards_updated().card_cache == (CardCacheView {
            cards: deck(app.theme, app.show_thinking, app.messages),
            processed_messages: app.messages.len() as usize,
        }),
{
    reveal(AppView::cards_updated);
    let none: DealView = (Seq::empty(), Seq::empty());
    let (theme, st) = (app.theme, app.show_thinking);
    let s = if app.messages.len() < app.card_cache.processed_messages {
        AppView { card_cache: CardCacheView::empty(), ..app }
    } else {
        app
    };
    let n = s.card_cache.processed_messages as int;
    if n == 0 {
        assert(s.messages.take(0) =~= Seq::<ChatEntryView>::empty());
    }
    assert(s.card_cache.cards == deck(theme, st, s.messages.take(n)));
    if n == s.messages.len() {
        assert(s.messages.take(n) =~= s.messages);
    } else {
        lemma_deck_base(theme, st, s.messages, n);
        let (base, from) = s.deck_base();
        assert(s.messages.take(from) + s.messages.skip(from) =~= s.messages);
        lemma_dealt_in_parts(theme, st, none, s.messages.take(from), s.messages.skip(from));
    }
}

// ── what is being streamed ───────────────────────────────────────────────────

impl AppView {
    /// What the card of the running turn says of its activity.
    pub open spec fn activity_label(self) -> Seq<char> {
        let turning = frame_at(SpinnerKind::Braille, self.tick);
        match self.activity {
            ActivityStateView::RunningTool { name } => turning + " tool: "@ + name,
            ActivityStateView::Compacting { .. } => turning + " compacting"@,
            ActivityStateView::Streaming => turning + " streaming"@,
            _ => turning + " thinking"@,
        }
    }

    /// Thinking is streamed and shown.
    pub open spec fn shows_thinking(self) -> bool {
        self.show_thinking && self.streaming_thinking.len() > 0
    }

    /// The lines of the streamed thinking, as remembered or as rendered.
    pub open spec fn thinking_stream(self) -> Seq<LineView> {
        match self.streaming_thinking_cache.hit(bytes(self.streaming_thinking) as int) {
            Some(kept) => kept,
            None => markdown_lines(
                self.theme,
                self.theme.thinking_text(),
                self.streaming_thinking,
            ),
        }
    }

    /// The lines of the streamed answer, as remembered or as rendered.
    pub open spec fn answer_stream(self) -> Seq<LineView> {
        match self.streaming_cache.hit(bytes(self.streaming_content) as int) {
            Some(kept) => kept,
            None => markdown_lines(
                self.theme,
                self.theme.assistant_text(),
                self.streaming_content,
            ),
        }
    }

    /// With the streamed lines remembered, as far as they are shown.
    pub open spec fn stream_kept(self) -> AppView {
        AppView {
            streaming_thinking_cache: if self.shows_thinking() {
                StreamingCacheView {
                    rendered_len: bytes(self.streaming_thinking) as usize,
                    lines: self.thinking_stream(),
                }
            } else {
                self.streaming_thinking_cache
            },
            streaming_cache: if self.streaming_content.len() > 0 {
                StreamingCacheView {
                    rendered_len: bytes(self.streaming_content) as usize,
                    lines: self.answer_stream(),
                }
            } else {
                self.streaming_cache
            },
            ..self
        }
    }

    /// The card of the running turn: what was streamed, and what the agent
    /// does.
    pub open spec fn streaming_card(self) -> Option<CardView> {
        let activity = seq![span_of(self.activity_label(), self.theme.thinking())];
        let has_content = self.streaming_content.len() > 0;
        if self.shows_thinking() || has_content {
            let thinking = if self.shows_thinking() {
                marked_thinking(self.theme, self.thinking_stream()) + if has_content {
                    seq![Seq::<SpanView>::empty()]
                } else {
                    Seq::empty()
                }
            } else {
                Seq::empty()
            };
            let content = if has_content {
                self.answer_stream()
            } else {
                Seq::empty()
            };
            Some(card_of(CardKind::Streaming, (thinking + content).push(activity)))
        } else if self.turn_active() {
            Some(card_of(CardKind::Thinking, seq![activity]))
        } else {
            None
        }
    }
}

fn label_activity(app: &App) -> (r: String)
    ensures
        r@ == app@.activity_label(),
{
    let turning = spinner(SpinnerKind::Braille, app.tick);
    match &app.activity {
        ActivityState::RunningTool { name } => cat3(turning, " tool: ", name.as_str()),
        ActivityState::Compacting { .. } => cat2(turning, " compacting"),
        ActivityState::Streaming => cat2(turning, " streaming"),
        _ => cat2(turning, " thinking"),
    }
}

fn stream_thinking(app: &mut App, hl: &Highlighter) -> (r: Vec<Line>)
    requires
        old(app)@.streaming_thinking.len() > 0,
    ensures
        r.deep_view() == old(app)@.thinking_stream(),
        final(app)@ == (AppView {
            streaming_thinking_cache: StreamingCacheView {
                rendered_len: bytes(old(app)@.streaming_thinking) as usize,
                lines: old(app)@.thinking_stream(),
            },
            ..old(app)@
        }),
{
    let n: usize = byte_len(app.streaming_thinking.as_str());
    let kept = match app.streaming_thinking_cache.get(n) {
        Some(kept) => Some(copy_lines(kept)),
        None => None,
    };
    match kept {
        Some(kept) => kept,
        None => {
            let theme = app.theme;
            let rendered = render(
                &theme,
                app.streaming_thinking.as_str(),
                theme.thinking_text(),
                hl,
            );
            app.streaming_thinking_cache.store(n, copy_lines(&rendered));
            rendered
        },
    }
}

fn stream_answer(app: &mut App, hl: &Highlighter) -> (r: Vec<Line>)
    requires
        old(app)@.streaming_content.len() > 0,
    ensures
        r.deep_view() == old(app)@.answer_stream(),
        final(app)@ == (AppView {
            streaming_cache: StreamingCacheView {
                rendered_len: bytes(old(app)@.streaming_content) as usize,
                lines: old(app)@.answer_stream(),
            },
            ..old(app)@
        }),
{
    let n: usize = byte_len(app.streaming_content.as_str());
    let kept = match app.streaming_cache.get(n) {
        Some(kept) => Some(copy_lines(kept)),
        None => None,
    };
    match kept {
        Some(kept) => kept,
        None => {
            let theme = app.theme;
            let rendered = render(
                &theme,
                app.streaming_content.as_str(),
                theme.assistant_text(),
                hl,
            );
            app.streaming_cache.store(n, copy_lines(&rendered));
            rendered
        },
    }
}

/// The card of the running turn, and the streamed lines remembered.
pub fn build_streaming_card(app: &mut App, hl: &Highlighter) -> (r: Option<Card>)
    ensures
        r.deep_view() == old(app)@.streaming_card(),
        final(app)@ == old(app)@.stream_kept(),
        old(app)@.wf() ==> final(app)@.wf(),
{
    let theme = app.theme;
    let label = label_activity(app);
    let has_thinking = app.show_thinking && app.streaming_thinking.as_str().unicode_len() > 0;
    let has_content = app.streaming_content.as_str().unicode_len() > 0;
    let mut out: Vec<Line> = Vec::new();
    assert(out.deep_view() =~= Seq::<LineView>::empty());
    if has_thinking || has_content {
        if has_thinking {
            let thinking = stream_thinking(app, hl);
            out = mark_thinking(&theme, thinking);
            if has_content {
                push_line(&mut out, Line::empty());
            }
        }
        if has_content {
            let content = stream_answer(app, hl);
            push_lines(&mut out, content);
        }
        push_line(&mut out, Line::one(Span::new(label, theme.thinking())));
        let card = Card::new(CardKind::Streaming, out);
        assert(card.deep_view() =~= old(app)@.streaming_card()->0);
        Some(card)
    } else if app.is_turn_active() {
        push_line(&mut out, Line::one(Span::new(label, theme.thinking())));
        assert(out.deep_view() =~= seq![
            seq![span_of(old(app)@.activity_label(), theme.thinking())],
        ]);
        Some(Card::new(CardKind::Thinking, out))
    } else {
        None
    }
}

} // verus!
