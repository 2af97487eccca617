//! What holds of the cards that show a conversation.
use crate::app::{ActivityStateView, AppView, ChatEntryView, ToolDetailView};
use crate::canvas::{Area, PaintView};
use crate::cards::{CardKind, CardView};
use crate::deck::{
    card_of, deck, dealt_all, line_rows, message_card, rows_of, tool_lines, DealView,
};
use crate::diff::spans_text;
use crate::layout::spans_width;
use crate::markdown::markdown_lines;
use crate::messages::{cards_height, cards_picture};
use crate::seqs::monus;
use crate::style::{LineView, SpanView};
use crate::text::{bytes, decimal, lines, short_form};
use crate::theme::Theme;
use vstd::arithmetic::div_mod::lemma_fundamental_div_mod;
use vstd::prelude::*;

verus! {

// ── which cards there are ────────────────────────────────────────────────────

proof fn lemma_run_is_open(theme: Theme, st: bool, messages: Seq<ChatEntryView>)
    ensures
        ({
            let deal = dealt_all(theme, st, (Seq::empty(), Seq::empty()), messages);
            let open = messages.len() > 0 && messages.last() is ToolCall;
            &&& (deal.1.len() > 0) == open
        }),
    decreases messages.len(),
{
    if messages.len() > 0 {
        lemma_run_is_open(theme, st, messages.drop_last());
    }
}

/// A message that is no tool call adds a card of its own behind those that are
/// there.
pub proof fn law_message_has_its_card(
    theme: Theme,
    st: bool,
    messages: Seq<ChatEntryView>,
    e: ChatEntryView,
)
    requires
        !(e is ToolCall),
    ensures
        deck(theme, st, messages.push(e)) == deck(theme, st, messages).push(
            message_card(theme, st, e),
        ),
        deck(theme, st, Seq::empty()) == Seq::<CardView>::empty(),
{
    assert(messages.push(e).drop_last() =~= messages);
}

/// A tool call behind another one joins its card; the other cards stay.
pub proof fn law_tool_calls_share_a_card(
    theme: Theme,
    st: bool,
    messages: Seq<ChatEntryView>,
    e: ChatEntryView,
)
    requires
        e is ToolCall,
        messages.len() > 0,
        messages.last() is ToolCall,
    ensures
        ({
            let before = deck(theme, st, messages);
            let after = deck(theme, st, messages.push(e));
            &&& before.len() > 0
            &&& after.len() == before.len()
            &&& after.drop_last() == before.drop_last()
            &&& after.last().kind == before.last().kind
            &&& after.last().kind is Tool
            &&& after.last().lines == before.last().lines + tool_lines(
                theme,
                e->ToolCall_name,
                e->ToolCall_is_error,
                e->ToolCall_detail,
            )
        }),
{
    assert(messages.push(e).drop_last() =~= messages);
    lemma_run_is_open(theme, st, messages);
    let none: DealView = (Seq::empty(), Seq::empty());
    let deal = dealt_all(theme, st, none, messages);
    assert(deck(theme, st, messages).drop_last() =~= deal.0);
    assert(deck(theme, st, messages.push(e)).drop_last() =~= deal.0);
}

/// A tool call behind any other message has a card of its own, without blank
/// rows behind an answer.
pub proof fn law_tool_call_starts_a_card(
    theme: Theme,
    st: bool,
    messages: Seq<ChatEntryView>,
    e: ChatEntryView,
)
    requires
        e is ToolCall,
        messages.len() > 0 ==> !(messages.last() is ToolCall),
    ensures
        ({
            let before = deck(theme, st, messages);
            let after = deck(theme, st, messages.push(e));
            let behind_answer = messages.len() > 0 && messages.last() is Assistant;
            &&& after.len() == before.len() + 1
            &&& after.drop_last() == before
            &&& after.last().kind == (CardKind::Tool { compact: behind_answer })
            &&& after.last().top_pad == if behind_answer {
                0int
            } else {
                1int
            }
            &&& after.last().bottom_pad == 0
            &&& after.last().lines == tool_lines(
                theme,
                e->ToolCall_name,
                e->ToolCall_is_error,
                e->ToolCall_detail,
            )
        }),
{
    reveal(message_card);
    assert(messages.push(e).drop_last() =~= messages);
    lemma_run_is_open(theme, st, messages);
    let none: DealView = (Seq::empty(), Seq::empty());
    let deal = dealt_all(theme, st, none, messages);
    assert(deal.1 =~= Seq::<LineView>::empty());
    assert(deck(theme, st, messages.push(e)).drop_last() =~= deal.0);
    let own = tool_lines(theme, e->ToolCall_name, e->ToolCall_is_error, e->ToolCall_detail);
    assert(deal.1 + own =~= own);
}

// ── what a card shows ────────────────────────────────────────────────────────

pub proof fn lemma_text_of_one(s: SpanView)
    ensures
        spans_text(seq![s]) == s.content,
{
    assert(seq![s].drop_last() =~= Seq::<SpanView>::empty());
    assert(spans_text(Seq::<SpanView>::empty()) =~= Seq::<char>::empty());
    assert(spans_text(seq![s]) =~= s.content);
}

pub proof fn lemma_text_of_two(s: SpanView, t: SpanView)
    ensures
        spans_text(seq![s, t]) == s.content + t.content,
{
    assert(seq![s, t].drop_last() =~= seq![s]);
    lemma_text_of_one(s);
}

proof fn lemma_text_of_more(s: SpanView, line: LineView)
    ensures
        spans_text(seq![s] + line) == s.content + spans_text(line),
    decreases line.len(),
{
    if line.len() == 0 {
        assert(seq![s] + line =~= seq![s]);
        lemma_text_of_one(s);
        assert(s.content + spans_text(line) =~= s.content);
    } else {
        lemma_text_of_more(s, line.drop_last());
        assert((seq![s] + line).drop_last() =~= seq![s] + line.drop_last());
        assert((seq![s] + line).last() == line.last());
        assert((s.content + spans_text(line.drop_last())) + line.last().content =~= s.content
            + spans_text(line));
    }
}

/// The card of a prompt shows the prompt as markdown.
pub proof fn law_prompt_is_shown(theme: Theme, st: bool, e: ChatEntryView)
    requires
        e is User,
    ensures
        message_card(theme, st, e).kind == CardKind::User,
        message_card(theme, st, e).lines == markdown_lines(
            theme,
            theme.user_text(),
            e->User_text,
        ),
        message_card(theme, st, e).top_pad == 1,
        message_card(theme, st, e).bottom_pad == 1,
{
    reveal(message_card);
}

/// The card of an answer ends in the answer as markdown.  Its thinking stands
/// before it where thinking is shown, behind a mark and with an empty line
/// between, and nowhere else.
pub proof fn law_answer_is_shown(
    theme: Theme,
    st: bool,
    content: Seq<char>,
    thinking: Option<Seq<char>>,
)
    ensures
        ({
            let card = message_card(theme, st, ChatEntryView::Assistant { content, thinking });
            let text = markdown_lines(theme, theme.assistant_text(), content);
            &&& card.kind == CardKind::Assistant
            &&& match thinking {
                Some(t) if st => {
                    let thought = markdown_lines(theme, theme.thinking_text(), t);
                    &&& card.lines.len() == thought.len() + 1 + text.len()
                    &&& card.lines.skip(thought.len() as int + 1) == text
                    &&& card.lines[thought.len() as int].len() == 0
                    &&& forall|i: int|
                        1 <= i < thought.len() ==> #[trigger] card.lines[i] == thought[i]
                    &&& thought.len() > 0 ==> spans_text(card.lines[0]) == "\u{25CF} "@
                        + spans_text(thought[0])
                },
                _ => card.lines == text,
            }
        }),
{
    reveal(message_card);
    let card = message_card(theme, st, ChatEntryView::Assistant { content, thinking });
    let text = markdown_lines(theme, theme.assistant_text(), content);
    match thinking {
        Some(t) => if st {
            let thought = markdown_lines(theme, theme.thinking_text(), t);
            assert(card.lines.skip(thought.len() as int + 1) =~= text);
            if thought.len() > 0 {
                lemma_text_of_more(
                    crate::style::span_of("\u{25CF} "@, theme.thinking()),
                    thought[0],
                );
            }
        },
        None => {},
    }
}

/// A line holds the lines of a text, side by side.
pub open spec fn holds(line: LineView, text: Seq<char>) -> bool {
    &&& line.len() == lines(text).len()
    &&& forall|i: int| 0 <= i < line.len() ==> (#[trigger] line[i]).content == lines(text)[i]
}

/// Remarks and errors are shown in one line, word for word, and are told apart.
pub proof fn law_remark_is_shown(theme: Theme, st: bool, text: Seq<char>)
    ensures
        ({
            let info = message_card(theme, st, ChatEntryView::Info(text));
            let error = message_card(theme, st, ChatEntryView::Error(text));
            &&& info.kind == CardKind::Info
            &&& info.lines.len() == 1
            &&& holds(info.lines[0], text)
            &&& error.kind == CardKind::Error
            &&& error.lines.len() == 1
            &&& holds(error.lines[0], text)
        }),
{
    reveal(message_card);
}

/// A compaction that runs shows how many tokens it starts from; one that is over
/// shows its size and its summary.
pub proof fn law_compaction_is_shown(
    theme: Theme,
    st: bool,
    tokens: u32,
    estimate: Option<u32>,
    summary: Seq<char>,
    size: u32,
)
    ensures
        ({
            let start = message_card(
                theme,
                st,
                ChatEntryView::CompactionStart { token_estimate: tokens },
            );
            let end = message_card(
                theme,
                st,
                ChatEntryView::CompactionEnd {
                    token_estimate: estimate,
                    summary,
                    summary_len: size,
                },
            );
            let shown = markdown_lines(theme, theme.assistant_text(), summary);
            &&& start.kind == CardKind::Compaction
            &&& start.lines.len() == 2
            &&& spans_text(start.lines[0]) == "[compact] "@ + "Summarizing conversation history"@
            &&& spans_text(start.lines[1]) == "  ~"@ + decimal(tokens as nat) + " tokens"@
            &&& end.kind == CardKind::Compaction
            &&& end.lines.len() == 3 + shown.len()
            &&& spans_text(end.lines[0]) == "[compact] "@ + "Conversation summarized"@
            &&& spans_text(end.lines[1]) == match estimate {
                Some(n) => "  ~"@ + decimal(n as nat) + " tokens -> "@ + decimal(size as nat)
                    + " chars"@,
                None => "  "@ + decimal(size as nat) + " chars"@,
            }
            &&& end.lines[2].len() == 0
            &&& end.lines.skip(3) == shown
        }),
{
    reveal(message_card);
    let start = message_card(theme, st, ChatEntryView::CompactionStart { token_estimate: tokens });
    let end = message_card(
        theme,
        st,
        ChatEntryView::CompactionEnd { token_estimate: estimate, summary, summary_len: size },
    );
    lemma_text_of_two(start.lines[0][0], start.lines[0][1]);
    lemma_text_of_one(start.lines[1][0]);
    lemma_text_of_two(end.lines[0][0], end.lines[0][1]);
    lemma_text_of_one(end.lines[1][0]);
    assert(end.lines.skip(3) =~= markdown_lines(theme, theme.assistant_text(), summary));
}

/// A question is shown with what it asks; below it stands that it waits, that it
/// was turned down, or each line of the answer, indented.
pub proof fn law_question_is_shown(
    theme: Theme,
    st: bool,
    e: ChatEntryView,
)
    requires
        e is Elicitation,
    ensures
        ({
            let card = message_card(theme, st, e);
            &&& card.kind == CardKind::Elicitation
            &&& card.lines.len() >= 1
            &&& spans_text(card.lines[0]) == "[?] "@ + e->Elicitation_message
            &&& match e->Elicitation_outcome {
                None => card.lines.len() == 2 && spans_text(card.lines[1])
                    == "  waiting for response\u{2026}"@,
                Some(text) => if text == "declined"@ || text == "cancelled"@ {
                    card.lines.len() == 2 && spans_text(card.lines[1]) == "  "@ + text
                } else {
                    &&& card.lines.len() == 1 + lines(text).len()
                    &&& forall|i: int|
                        1 <= i < card.lines.len() ==> spans_text(#[trigger] card.lines[i])
                            == "  "@ + lines(text)[i - 1]
                },
            }
        }),
{
    reveal(message_card);
    let card = message_card(theme, st, e);
    lemma_text_of_two(card.lines[0][0], card.lines[0][1]);
    assert forall|i: int| 1 <= i < card.lines.len() implies spans_text(#[trigger] card.lines[i])
        == card.lines[i][0].content by {
        assert(card.lines[i] =~= seq![card.lines[i][0]]);
        lemma_text_of_one(card.lines[i][0]);
    }
}

// ── what a tool call shows ───────────────────────────────────────────────────

/// The mark and the name of a tool call.
pub open spec fn marked_name(name: Seq<char>, is_error: bool) -> Seq<char> {
    if is_error {
        "x "@ + name
    } else {
        "> "@ + name
    }
}

/// A tool call shows its name behind a mark that tells failure from success,
/// and in the same line what it is about; below that the lines of its edit, of
/// the file that it writes, or of its output.
pub proof fn law_tool_call_shows_what_it_does(
    theme: Theme,
    name: Seq<char>,
    is_error: bool,
    detail: ToolDetailView,
)
    ensures
        ({
            let shown = tool_lines(theme, name, is_error, detail);
            let head = marked_name(name, is_error);
            &&& shown.len() >= 1
            &&& match detail {
                ToolDetailView::Edit { file, cached_lines, .. } => spans_text(shown[0]) == head
                    + " "@ + short_form(file) && shown.skip(1) == cached_lines,
                ToolDetailView::WriteFile { path, cached_lines, .. } => spans_text(shown[0])
                    == head + " "@ + short_form(path) && shown.skip(1) == cached_lines,
                ToolDetailView::SummaryWithOutput { header, output } => {
                    &&& spans_text(shown[0]) == head + " "@ + header
                    &&& shown.len() == 1 + lines(output).len()
                    &&& forall|i: int|
                        1 <= i < shown.len() ==> spans_text(#[trigger] shown[i]) == "  "@
                            + lines(output)[i - 1]
                },
                ToolDetailView::Summary(info) => if info.contains('\n') {
                    &&& spans_text(shown[0]) == head
                    &&& shown.len() == 1 + lines(info).len()
                    &&& forall|i: int|
                        1 <= i < shown.len() ==> spans_text(#[trigger] shown[i]) == "  "@
                            + lines(info)[i - 1]
                } else {
                    shown.len() == 1 && spans_text(shown[0]) == head + " "@ + info
                },
                ToolDetailView::Bare => shown.len() == 1 && spans_text(shown[0]) == head,
            }
        }),
{
    let shown = tool_lines(theme, name, is_error, detail);
    match detail {
        ToolDetailView::Edit { cached_lines, .. } => {
            lemma_text_of_two(shown[0][0], shown[0][1]);
            assert(shown.skip(1) =~= cached_lines);
        },
        ToolDetailView::WriteFile { cached_lines, .. } => {
            lemma_text_of_two(shown[0][0], shown[0][1]);
            assert(shown.skip(1) =~= cached_lines);
        },
        ToolDetailView::SummaryWithOutput { .. } => {
            lemma_text_of_two(shown[0][0], shown[0][1]);
        },
        ToolDetailView::Summary(info) => if info.contains('\n') {
            lemma_text_of_one(shown[0][0]);
        } else {
            lemma_text_of_two(shown[0][0], shown[0][1]);
        },
        ToolDetailView::Bare => {
            lemma_text_of_one(shown[0][0]);
        },
    }
    if !(detail is Edit) && !(detail is WriteFile) {
        assert forall|i: int| 1 <= i < shown.len() implies spans_text(#[trigger] shown[i])
            == shown[i][0].content by {
            assert(shown[i] =~= seq![shown[i][0]]);
            lemma_text_of_one(shown[i][0]);
        }
    }
}

// ── what the running turn shows ──────────────────────────────────────────────

/// What is streamed is on a card behind those of the conversation: the thinking
/// where it is shown, the answer as markdown, and last what the agent does.
pub proof fn law_streamed_answer_is_shown(app: AppView)
    requires
        app.streaming_content.len() > 0,
        app.streaming_cache.hit(bytes(app.streaming_content) as int) is None,
    ensures
        app.streaming_card() is Some,
        ({
            let card = app.streaming_card()->0;
            let text = markdown_lines(app.theme, app.theme.assistant_text(), app.streaming_content);
            &&& card.kind == CardKind::Streaming
            &&& card.lines.len() >= text.len() + 1
            &&& card.lines.subrange(card.lines.len() - 1 - text.len(), card.lines.len() - 1) == text
            &&& (!app.show_thinking || app.streaming_thinking.len() == 0) ==> card.lines.len()
                == text.len() + 1
        }),
        app.all_cards().len() > 0,
        app.all_cards().last() == app.streaming_card()->0,
{
    let card = app.streaming_card()->0;
    let text = markdown_lines(app.theme, app.theme.assistant_text(), app.streaming_content);
    assert(card.lines.subrange(card.lines.len() - 1 - text.len(), card.lines.len() - 1) =~= text);
}

/// Thinking that is streamed is shown behind a mark, where thinking is shown.
pub proof fn law_streamed_thinking_is_shown(app: AppView)
    requires
        app.streaming_thinking.len() > 0,
        app.show_thinking,
        app.streaming_thinking_cache.hit(bytes(app.streaming_thinking) as int) is None,
    ensures
        app.streaming_card() is Some,
        ({
            let card = app.streaming_card()->0;
            let thought = markdown_lines(
                app.theme,
                app.theme.thinking_text(),
                app.streaming_thinking,
            );
            &&& card.kind == CardKind::Streaming
            &&& card.lines.len() > thought.len()
            &&& forall|i: int| 1 <= i < thought.len() ==> #[trigger] card.lines[i] == thought[i]
            &&& thought.len() > 0 ==> spans_text(card.lines[0]) == "\u{25CF} "@ + spans_text(
                thought[0],
            )
        }),
{
    let thought = markdown_lines(app.theme, app.theme.thinking_text(), app.streaming_thinking);
    if thought.len() > 0 {
        lemma_text_of_more(
            crate::style::span_of("\u{25CF} "@, app.theme.thinking()),
            thought[0],
        );
    }
}

/// The last line of the card of the running turn says what the agent does.
/// Where nothing was streamed there is a card with that line as long as a turn
/// is active, and none otherwise.
pub proof fn law_activity_is_shown(app: AppView)
    ensures
        app.streaming_card() matches Some(card) ==> {
            let said = spans_text(card.lines.last());
            let turning = crate::spinner::frame_at(crate::spinner::SpinnerKind::Braille, app.tick);
            &&& card.lines.len() > 0
            &&& said == turning + match app.activity {
                ActivityStateView::RunningTool { name } => " tool: "@ + name,
                ActivityStateView::Compacting { .. } => " compacting"@,
                ActivityStateView::Streaming => " streaming"@,
                _ => " thinking"@,
            }
        },
        app.streaming_content.len() == 0 && app.streaming_thinking.len() == 0 ==> {
            &&& app.streaming_card() is Some <==> app.turn_active()
            &&& app.streaming_card() matches Some(card) ==> card.kind == CardKind::Thinking
                && card.lines.len() == 1
        },
        app.streaming_card() is None ==> app.all_cards() == app.cards_updated().card_cache.cards,
        app.streaming_card() matches Some(card) ==> app.all_cards()
            == app.cards_updated().card_cache.cards.push(card),
{
    let turning = crate::spinner::frame_at(crate::spinner::SpinnerKind::Braille, app.tick);
    match app.streaming_card() {
        Some(card) => {
            let span = crate::style::span_of(app.activity_label(), app.theme.thinking());
            assert(card.lines.last() =~= seq![span]);
            lemma_text_of_one(span);
            match app.activity {
                ActivityStateView::RunningTool { name } => {
                    assert(turning + " tool: "@ + name =~= turning + (" tool: "@ + name));
                },
                _ => {},
            }
        },
        None => {},
    }
}

// ── how high cards are ───────────────────────────────────────────────────────

/// A line takes one row where it fits between the two columns on either side,
/// and otherwise as few rows as can hold it.
pub proof fn law_lines_take_the_rows_they_need(line: LineView, width: u16)
    requires
        width > 4,
        spans_width(line) < u16::MAX,
    ensures
        line_rows(line, width) >= 1,
        spans_width(line) <= (width - 4) * line_rows(line, width),
        spans_width(line) > 0 ==> (width - 4) * (line_rows(line, width) - 1) < spans_width(line),
        spans_width(line) == 0 ==> line_rows(line, width) == 1,
        spans_width(line) <= width - 4 ==> line_rows(line, width) == 1,
{
    let inner: int = width - 4;
    let w = spans_width(line) as int;
    if w > 0 {
        let r = (w + inner - 1) / inner;
        lemma_fundamental_div_mod(w + inner - 1, inner);
        assert(inner * r == w + inner - 1 - (w + inner - 1) % inner);
        assert(r >= 1 && r <= w && (w <= inner ==> r == 1)) by (nonlinear_arith)
            requires
                inner > 0,
                w > 0,
                w <= inner * r <= w + inner - 1,
        ;
        assert(inner * (r - 1) == inner * r - inner) by (nonlinear_arith);
        assert(line_rows(line, width) == r);
    } else {
        assert(inner * 1 == inner) by (nonlinear_arith);
        assert(inner * 0 == 0) by (nonlinear_arith);
    }
}

proof fn lemma_one_row_each(ls: Seq<LineView>, width: u16, n: int)
    requires
        0 <= n <= ls.len(),
        width > 4,
        forall|i: int| 0 <= i < ls.len() ==> spans_width(#[trigger] ls[i]) <= width - 4,
    ensures
        rows_of(ls, width, n) == if n < u16::MAX {
            n
        } else {
            u16::MAX as int
        },
    decreases n,
{
    if n > 0 {
        lemma_one_row_each(ls, width, n - 1);
        law_lines_take_the_rows_they_need(ls[n - 1], width);
    }
}

/// A card whose lines fit is as high as it has lines, with its blank rows.
pub proof fn law_card_is_as_high_as_its_lines(card: CardView, width: u16)
    requires
        width > 4,
        card.lines.len() > 0,
        card.top_pad + card.lines.len() + card.bottom_pad <= u16::MAX,
        forall|i: int|
            0 <= i < card.lines.len() ==> spans_width(#[trigger] card.lines[i]) <= width - 4,
    ensures
        card.height(width) == card.top_pad + card.lines.len() + card.bottom_pad,
{
    lemma_one_row_each(card.lines, width, card.lines.len() as int);
}

proof fn lemma_rows_grow(ls: Seq<LineView>, width: u16, n: int)
    requires
        0 <= n,
    ensures
        rows_of(ls, width, n) >= 0,
        rows_of(ls, width, n) <= u16::MAX,
    decreases n,
{
    if n > 0 {
        lemma_rows_grow(ls, width, n - 1);
        let w = spans_width(ls[n - 1]) as int;
        let inner = if width >= 4 {
            width - 4
        } else {
            0
        };
        if inner != 0 && w != 0 {
            assert((w + inner - 1) / inner >= 0) by (nonlinear_arith)
                requires
                    inner > 0,
                    w > 0,
            ;
        }
    }
}

/// A card takes at least one row besides its blank rows, and its height is never
/// zero.
pub proof fn law_cards_are_never_flat(card: CardView, width: u16)
    ensures
        card.height(width) >= 1,
        card.top_pad + 1 + card.bottom_pad <= u16::MAX ==> card.height(width) >= card.top_pad + 1
            + card.bottom_pad,
{
    lemma_rows_grow(card.lines, width, card.lines.len() as int);
}

// ── what is drawn of the cards ───────────────────────────────────────────────

proof fn lemma_heights(cards: Seq<CardView>, width: u16, i: int, n: int)
    requires
        0 <= i <= n <= cards.len(),
    ensures
        0 <= cards_height(cards, width, i) <= cards_height(cards, width, n),
    decreases n,
{
    if i < n {
        lemma_heights(cards, width, i, n - 1);
    } else if n > 0 {
        lemma_heights(cards, width, n - 1, n - 1);
    }
}

proof fn lemma_pictures(
    theme: Theme,
    cards: Seq<CardView>,
    area: Area,
    scroll: int,
    i: int,
    n: int,
    p: PaintView,
)
    requires
        0 <= i <= n <= cards.len(),
        cards_picture(theme, cards, area, scroll, i).contains(p),
    ensures
        cards_picture(theme, cards, area, scroll, n).contains(p),
    decreases n,
{
    if i < n {
        lemma_pictures(theme, cards, area, scroll, i, n - 1, p);
        let before = cards_picture(theme, cards, area, scroll, n - 1);
        let k = choose|k: int| 0 <= k < before.len() && before[k] == p;
        assert(cards_picture(theme, cards, area, scroll, n)[k] == p);
    }
}

/// The texts of lines.
pub open spec fn texts(ls: Seq<LineView>) -> Seq<Seq<char>> {
    Seq::new(ls.len(), |i: int| spans_text(ls[i]))
}

proof fn lemma_same_text(a: LineView, b: LineView)
    requires
        a.len() == b.len(),
        forall|i: int| 0 <= i < a.len() ==> (#[trigger] a[i]).content == b[i].content,
    ensures
        spans_text(a) == spans_text(b),
    decreases a.len(),
{
    if a.len() > 0 {
        assert forall|i: int| 0 <= i < a.drop_last().len() implies (
        #[trigger] a.drop_last()[i]).content == b.drop_last()[i].content by {
            assert(a.drop_last()[i] == a[i]);
        }
        lemma_same_text(a.drop_last(), b.drop_last());
        assert(a.last() == a[a.len() - 1]);
    }
}

/// A card that lies wholly in the area is drawn there: as many rows below the top
/// as the cards before it take without those that are scrolled away, two columns
/// from the left, with the text of each of its lines.
pub proof fn law_card_in_view_is_drawn(
    theme: Theme,
    cards: Seq<CardView>,
    area: Area,
    scroll: int,
    i: int,
)
    requires
        0 <= i < cards.len(),
        area.x + area.width <= u16::MAX,
        area.y + area.height <= u16::MAX,
        area.width > 4,
        cards_height(cards, area.width, i) >= scroll,
        cards_height(cards, area.width, i) - scroll + cards[i].height(area.width) <= area.height,
        cards[i] == card_of(cards[i].kind, cards[i].lines),
    ensures
        ({
            let picture = cards_picture(theme, cards, area, scroll, cards.len() as int);
            let top = area.y + cards_height(cards, area.width, i) - scroll;
            exists|p: PaintView|
                #![trigger picture.contains(p)]
                picture.contains(p) && match p {
                    PaintView::Text { area: at, lines: ls, wrap, scroll: skipped, .. } => {
                        &&& at.x == area.x + 2
                        &&& at.width == area.width - 4
                        &&& at.y == top + cards[i].top_pad
                        &&& at.height == cards[i].height(area.width) - cards[i].top_pad
                        &&& texts(ls) == texts(cards[i].lines)
                        &&& wrap
                        &&& skipped == 0
                    },
                    _ => false,
                }
        }),
{
    let n = cards.len() as int;
    let card = cards[i];
    let h = card.height(area.width);
    law_cards_are_never_flat(card, area.width);
    let top = cards_height(cards, area.width, i) - scroll;
    let one = crate::messages::card_at(theme, card, area, top);
    assert(one.len() == 2);
    let before = cards_picture(theme, cards, area, scroll, i);
    let upto = cards_picture(theme, cards, area, scroll, i + 1);
    assert(upto == before + one);
    assert(upto[before.len() as int + 1] == one[1]);
    assert(upto.contains(one[1]));
    lemma_pictures(theme, cards, area, scroll, i + 1, n, one[1]);
    let ls = one[1]->Text_lines;
    assert forall|k: int| 0 <= k < ls.len() implies spans_text(#[trigger] ls[k]) == spans_text(
        card.lines[k],
    ) by {
        lemma_same_text(ls[k], card.lines[k]);
    }
    assert(texts(ls) =~= texts(card.lines));
    assert(cards_picture(theme, cards, area, scroll, n).contains(one[1]));
}

/// The rows by which the conversation is scrolled up never exceed those that do
/// not fit; a conversation that fits is drawn from its first row on, and the
/// messages stay as they are.
pub proof fn law_scrolling_ends_at_the_top(app: AppView, area: Area)
    requires
        app.all_cards().len() > 0,
        cards_height(app.all_cards(), area.width, app.all_cards().len() as int) <= u16::MAX,
    ensures
        ({
            let all = cards_height(app.all_cards(), area.width, app.all_cards().len() as int);
            let (next, picture) = app.messages_picture(area);
            &&& next.scroll_offset <= monus(all, area.height as int)
            &&& next.messages == app.messages
            &&& all <= area.height ==> picture == seq![
                PaintView::Fill { area, style: app.theme.base() },
            ] + cards_picture(
                app.theme,
                app.all_cards(),
                area,
                0,
                app.all_cards().len() as int,
            )
        }),
{
    reveal(AppView::messages_picture);
    reveal(AppView::cards_updated);
    lemma_heights(
        app.all_cards(),
        area.width,
        0,
        app.all_cards().len() as int,
    );
}

} // verus!
