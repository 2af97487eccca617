//! What holds of rendered markdown.
use crate::highlight::code_block;
use crate::layout::spans_width;
use crate::markdown::{
    column_width, column_widths, event_lines, without_empty_end, MdEnd, MdEventView,
    MdTagView, RenderView,
};
use crate::style::{span_of, LineView, Style};
use crate::text::{decimal, pieces, spaces, trimmed};
use crate::text_laws::law_pieces_join_to_the_text;
use crate::theme::Theme;
use vstd::prelude::*;

verus! {

// ── lines ────────────────────────────────────────────────────────────────────

proof fn lemma_step_keeps_lines(r: RenderView, event: MdEventView)
    ensures
        r.lines.is_prefix_of(r.step(event).lines),
        r.step(event).theme == r.theme,
        r.step(event).base_style == r.base_style,
{
    reveal(RenderView::opened);
    reveal(RenderView::closed);
    reveal(RenderView::code_ended);
    reveal(RenderView::texted);
    reveal(RenderView::coded);
    reveal(RenderView::ruled);
}

/// Lines that are finished stay as they are, whatever comes behind them.
pub proof fn law_finished_lines_stay(r: RenderView, events: Seq<MdEventView>)
    ensures
        r.lines.is_prefix_of(r.run(events).lines),
        r.run(events).theme == r.theme,
        r.run(events).base_style == r.base_style,
    decreases events.len(),
{
    if events.len() > 0 {
        law_finished_lines_stay(r, events.drop_last());
        lemma_step_keeps_lines(r.run(events.drop_last()), events.last());
    }
}

/// Events take effect one after the other, in their order.
pub proof fn law_events_take_effect_in_order(
    r: RenderView,
    first: Seq<MdEventView>,
    second: Seq<MdEventView>,
    event: MdEventView,
)
    ensures
        r.run(first + second) == r.run(first).run(second),
        r.run(first.push(event)) == r.run(first).step(event),
        r.run(Seq::empty()) == r,
    decreases second.len(),
{
    assert(first.push(event).drop_last() =~= first);
    if second.len() == 0 {
        assert(first + second =~= first);
    } else {
        law_events_take_effect_in_order(r, first, second.drop_last(), event);
        assert((first + second).drop_last() =~= first + second.drop_last());
        assert((first + second).last() == second.last());
    }
}

/// What is shown are the finished lines without the empty ones at the end; no other line
/// is lost.
pub proof fn law_only_empty_lines_are_dropped(lines: Seq<LineView>)
    ensures
        ({
            let shown = without_empty_end(lines);
            &&& shown.is_prefix_of(lines)
            &&& forall|i: int| shown.len() <= i < lines.len() ==> (#[trigger] lines[i]).len() == 0
            &&& shown.len() > 0 ==> shown.last().len() > 0
        }),
    decreases lines.len(),
{
    if lines.len() > 0 && lines.last().len() == 0 {
        law_only_empty_lines_are_dropped(lines.drop_last());
        let shown = without_empty_end(lines);
        assert forall|i: int| shown.len() <= i < lines.len() implies (
        #[trigger] lines[i]).len() == 0 by {
            if i < lines.len() - 1 {
                assert(lines.drop_last()[i] == lines[i]);
            }
        }
    }
}

/// The end of a paragraph finishes its line and puts an empty line behind it, so what
/// comes next starts on a line of its own.
pub proof fn law_paragraph_ends_its_line(r: RenderView)
    ensures
        ({
            let after = r.step(MdEventView::End(MdEnd::Paragraph));
            &&& after.spans.len() == 0
            &&& after.lines.len() > 0
            &&& after.lines.last().len() == 0
            &&& r.spans.len() > 0 ==> {
                &&& after.lines.len() == r.lines.len() + 2
                &&& after.lines[r.lines.len() as int] == r.spans
            }
            &&& r.spans.len() == 0 ==> after.lines.len() == r.lines.len() + 1
            &&& r.lines.is_prefix_of(after.lines)
            &&& after.styles == r.styles
            &&& after.lists == r.lists
        }),
{
    reveal(RenderView::closed);
}

/// A break, the end of an item and the end of a heading finish the line that is being
/// filled, where there is anything on it, and put nothing behind it.
pub proof fn law_breaks_finish_the_line(r: RenderView, event: MdEventView)
    requires
        event == MdEventView::HardBreak || event == MdEventView::End(MdEnd::Item),
    ensures
        ({
            let after = r.step(event);
            &&& after.spans.len() == 0
            &&& r.spans.len() > 0 ==> after.lines == r.lines.push(r.spans)
            &&& r.spans.len() == 0 ==> after.lines == r.lines
            &&& after.styles == r.styles
            &&& after.lists == r.lists
        }),
{
    reveal(RenderView::closed);
}

/// A soft break is a blank between words.
pub proof fn law_soft_break_is_a_blank(r: RenderView)
    ensures
        r.step(MdEventView::SoftBreak) == r.step(MdEventView::Text(" "@)),
{
}

/// Two paragraphs of plain text are two lines with an empty line between them.
pub proof fn law_paragraphs_stand_apart(
    theme: Theme,
    base_style: Style,
    first: Seq<char>,
    second: Seq<char>,
)
    ensures
        event_lines(
            theme,
            base_style,
            seq![
                MdEventView::Start(MdTagView::Other),
                MdEventView::Text(first),
                MdEventView::End(MdEnd::Paragraph),
                MdEventView::Start(MdTagView::Other),
                MdEventView::Text(second),
                MdEventView::End(MdEnd::Paragraph),
            ],
        ) == seq![
            seq![span_of(first, base_style)],
            Seq::empty(),
            seq![span_of(second, base_style)],
        ],
{
    reveal(RenderView::opened);
    reveal(RenderView::closed);
    reveal(RenderView::texted);
    let events = seq![
        MdEventView::Start(MdTagView::Other),
        MdEventView::Text(first),
        MdEventView::End(MdEnd::Paragraph),
        MdEventView::Start(MdTagView::Other),
        MdEventView::Text(second),
        MdEventView::End(MdEnd::Paragraph),
    ];
    let r0 = RenderView::start(theme, base_style);
    let e = Seq::<MdEventView>::empty();
    law_events_take_effect_in_order(r0, e, e, events[0]);
    law_events_take_effect_in_order(r0, e.push(events[0]), e, events[1]);
    law_events_take_effect_in_order(r0, e.push(events[0]).push(events[1]), e, events[2]);
    let three = e.push(events[0]).push(events[1]).push(events[2]);
    law_events_take_effect_in_order(r0, three, e, events[3]);
    law_events_take_effect_in_order(r0, three.push(events[3]), e, events[4]);
    law_events_take_effect_in_order(r0, three.push(events[3]).push(events[4]), e, events[5]);
    assert(three.push(events[3]).push(events[4]).push(events[5]) =~= events);
    let empty = Seq::<crate::style::SpanView>::empty();
    let l1 = seq![span_of(first, base_style)];
    let l2 = seq![span_of(second, base_style)];
    assert(empty.push(span_of(first, base_style)) =~= l1);
    assert(empty.push(span_of(second, base_style)) =~= l2);
    let done = r0.run(three);
    assert(done.spans =~= empty);
    assert(done.lines =~= seq![l1, empty]);
    let all = r0.run(events).flushed().lines;
    assert(all =~= seq![l1, empty, l2, empty]);
    assert(all.drop_last() =~= seq![l1, empty, l2]);
    assert(without_empty_end(all) == without_empty_end(seq![l1, empty, l2]));
}

/// A paragraph that follows another never shares a line with it: the lines up to the end
/// of the first are finished and end with an empty one, and the second adds to them.
pub proof fn law_next_paragraph_starts_anew(
    r: RenderView,
    first: Seq<MdEventView>,
    second: Seq<MdEventView>,
)
    ensures
        ({
            let done = r.run(first.push(MdEventView::End(MdEnd::Paragraph)));
            let all = r.run(first.push(MdEventView::End(MdEnd::Paragraph)) + second);
            &&& done.spans.len() == 0
            &&& done.lines.len() > 0 && done.lines.last().len() == 0
            &&& done.lines.is_prefix_of(all.lines)
        }),
{
    let end = MdEventView::End(MdEnd::Paragraph);
    law_events_take_effect_in_order(r, first, Seq::empty(), end);
    law_events_take_effect_in_order(r, first.push(end), second, end);
    law_paragraph_ends_its_line(r.run(first));
    law_finished_lines_stay(r.run(first.push(end)), second);
}

// ── text ─────────────────────────────────────────────────────────────────────

/// Outside of code and tables text is added to the line that is being filled, as the last
/// thing on it and in the style in effect; nothing on the line is lost.
pub proof fn law_text_is_added_to_the_line(r: RenderView, text: Seq<char>)
    requires
        !r.in_code_block,
        !r.in_table,
    ensures
        ({
            let after = r.step(MdEventView::Text(text));
            &&& after.lines == r.lines
            &&& after.spans.len() > 0
            &&& after.spans.last() == span_of(text, r.style())
            &&& r.spans.is_prefix_of(after.spans.drop_last())
            &&& r.spans.len() > 0 || (r.lists.len() == 0 && !r.in_blockquote)
                ==> after.spans.drop_last() == r.spans
            &&& after.styles == r.styles
        }),
{
    reveal(RenderView::texted);
    let after = r.step(MdEventView::Text(text));
    assert(after.spans.drop_last() =~= r.bulleted().quoted().spans);
}

/// A piece of code on a line is added to it in the style of code.
pub proof fn law_code_is_added_to_the_line(r: RenderView, code: Seq<char>)
    ensures
        ({
            let after = r.step(MdEventView::Code(code));
            let s = span_of(code, r.theme.md_code_inline());
            &&& after.lines == r.lines
            &&& !r.in_table ==> after.spans == r.spans.push(s)
            &&& r.in_table ==> after.spans == r.spans && after.cell == r.cell.push(s)
        }),
{
    reveal(RenderView::coded);
}

/// Emphasis holds from where it opens to where it closes, on top of what is in effect
/// around it: strong text is bold, emphasised text italic, struck text crossed out.
pub proof fn law_emphasis_nests(r: RenderView)
    requires
        r.styles.len() > 0,
    ensures
        ({
            let strong = r.step(MdEventView::Start(MdTagView::Strong));
            let slanted = r.step(MdEventView::Start(MdTagView::Emphasis));
            let struck = r.step(MdEventView::Start(MdTagView::Strikethrough));
            let link = r.step(MdEventView::Start(MdTagView::Link));
            let outer = r.styles.last();
            &&& strong.style().bold && strong.style().italic == outer.italic
                && strong.style().crossed_out == outer.crossed_out
            &&& slanted.style().italic && slanted.style().bold == outer.bold && slanted.style().fg
                == outer.fg
            &&& struck.style().crossed_out && struck.style().bold == outer.bold
            &&& strong.lines == r.lines && strong.spans == r.spans
            &&& strong.step(MdEventView::End(MdEnd::Strong)) == r
            &&& slanted.step(MdEventView::End(MdEnd::Emphasis)) == r
            &&& struck.step(MdEventView::End(MdEnd::Strikethrough)) == r
            &&& link.step(MdEventView::End(MdEnd::Link)) == r
            &&& r.style() == outer
        }),
{
    reveal(RenderView::opened);
    reveal(RenderView::closed);
    let strong = r.step(MdEventView::Start(MdTagView::Strong));
    let slanted = r.step(MdEventView::Start(MdTagView::Emphasis));
    let struck = r.step(MdEventView::Start(MdTagView::Strikethrough));
    let link = r.step(MdEventView::Start(MdTagView::Link));
    assert(strong.styles.drop_last() =~= r.styles);
    assert(slanted.styles.drop_last() =~= r.styles);
    assert(struck.styles.drop_last() =~= r.styles);
    assert(link.styles.drop_last() =~= r.styles);
}

// ── blocks ───────────────────────────────────────────────────────────────────

/// A heading is a line of its own: the marks of its level and then its text.
pub proof fn law_heading_has_its_marks(r: RenderView, level: u8, text: Seq<char>)
    requires
        !r.in_code_block,
        !r.in_table,
        r.spans.len() == 0,
        r.lists.len() == 0,
        !r.in_blockquote,
        r.styles.len() > 0,
    ensures
        ({
            let opened = r.step(MdEventView::Start(MdTagView::Heading(level)));
            let after = opened.step(MdEventView::Text(text)).step(
                MdEventView::End(MdEnd::Heading),
            );
            &&& opened.style().bold
            &&& after.spans.len() == 0
            &&& after.styles == r.styles
            &&& after.lines == r.lines.push(
                seq![
                    span_of(
                        if level == 1 {
                            "# "@
                        } else if level == 2 {
                            "## "@
                        } else if level == 3 {
                            "### "@
                        } else {
                            "#### "@
                        },
                        r.theme.md_heading(),
                    ),
                    span_of(text, opened.style()),
                ],
            )
        }),
{
    reveal(RenderView::opened);
    reveal(RenderView::texted);
    reveal(RenderView::closed);
    let opened = r.step(MdEventView::Start(MdTagView::Heading(level)));
    let after = opened.step(MdEventView::Text(text)).step(MdEventView::End(MdEnd::Heading));
    assert(opened.styles.drop_last() =~= r.styles);
    assert(after.lines.last() =~= seq![
        span_of(opened.heading_mark(), r.theme.md_heading()),
        span_of(text, opened.style()),
    ]);
}

/// The first text of an item has the mark of its list before it, indented by two blanks
/// for each list around it: a bullet, or the number of the item, which then counts on.
pub proof fn law_items_have_their_marks(r: RenderView, text: Seq<char>)
    requires
        !r.in_code_block,
        !r.in_table,
        r.spans.len() == 0,
        r.lists.len() > 0,
    ensures
        ({
            let after = r.step(MdEventView::Text(text));
            let indent = spaces((2 * (r.lists.len() - 1)) as nat);
            &&& after.spans.len() == 2
            &&& after.spans[1] == span_of(text, r.style())
            &&& after.spans[0].style == r.theme.md_list_bullet()
            &&& r.lists.last() is None ==> after.spans[0].content == indent
                + crate::symbols::MD_BULLET@ && after.lists == r.lists
            &&& r.lists.last() is Some ==> {
                &&& after.spans[0].content == indent + decimal(r.lists.last()->0 as nat) + ". "@
                &&& after.lists.len() == r.lists.len()
                &&& after.lists.drop_last() == r.lists.drop_last()
                &&& r.lists.last()->0 < u64::MAX ==> after.lists.last() == Some(
                    (r.lists.last()->0 + 1) as u64,
                )
            }
            &&& after.lines == r.lines
        }),
{
    reveal(RenderView::texted);
    let after = r.step(MdEventView::Text(text));
    assert(after.lists.drop_last() =~= r.lists.drop_last());
}

/// A list opens inside the one around it and leaves it as it was; behind the outermost
/// one stands an empty line.
pub proof fn law_lists_nest(r: RenderView, start: Option<u64>)
    ensures
        ({
            let opened = r.step(MdEventView::Start(MdTagView::List(start)));
            let after = opened.step(MdEventView::End(MdEnd::List));
            &&& opened.lists == r.lists.push(start)
            &&& opened.lines == r.lines
            &&& after.lists == r.lists
            &&& r.lists.len() > 0 ==> after.lines == r.lines
            &&& r.lists.len() == 0 ==> after.lines.len() == r.lines.len() + 1
                && after.lines.last().len() == 0 && after.lines.drop_last() == r.lines
        }),
{
    reveal(RenderView::opened);
    reveal(RenderView::closed);
    let opened = r.step(MdEventView::Start(MdTagView::List(start)));
    let after = opened.step(MdEventView::End(MdEnd::List));
    assert(opened.lists.drop_last() =~= r.lists);
    if r.lists.len() == 0 {
        assert(after.lines.drop_last() =~= r.lines);
    }
}

/// What is quoted is indented by two blanks at the start of a line, up to the end of the
/// quotation.
pub proof fn law_quotations_are_indented(r: RenderView, text: Seq<char>)
    requires
        !r.in_code_block,
        !r.in_table,
        r.spans.len() == 0,
        r.lists.len() == 0,
        r.styles.len() > 0,
    ensures
        ({
            let opened = r.step(MdEventView::Start(MdTagView::BlockQuote));
            let after = opened.step(MdEventView::Text(text));
            let closed = opened.step(MdEventView::End(MdEnd::BlockQuote));
            &&& after.spans.len() == 2
            &&& after.spans[0].content == "  "@
            &&& after.spans[1].content == text
            &&& closed.styles == r.styles
            &&& !closed.in_blockquote
            &&& closed.lines == r.lines
        }),
{
    reveal(RenderView::opened);
    reveal(RenderView::texted);
    reveal(RenderView::closed);
    let opened = r.step(MdEventView::Start(MdTagView::BlockQuote));
    assert(opened.styles.drop_last() =~= r.styles);
}

/// A code block shows its language, where it has one, then its code line by line, and a
/// blank behind it.  The code is the text of the block without the line feed at its end.
pub proof fn law_code_block_shows_its_code(
    r: RenderView,
    lang: Option<Seq<char>>,
    code: Seq<char>,
)
    requires
        code.len() > 0,
        code.last() != '\n',
    ensures
        ({
            let opened = r.step(MdEventView::Start(MdTagView::CodeBlock(lang)));
            let after = opened.step(MdEventView::Text(code.push('\n'))).step(
                MdEventView::End(MdEnd::CodeBlock),
            );
            let name = match lang {
                Some(l) => if trimmed(l).len() > 0 {
                    Some(trimmed(l))
                } else {
                    None
                },
                None => None,
            };
            let block = code_block(r.theme, code, name);
            let at = r.lines.len() + (if name is Some {
                1int
            } else {
                0
            });
            &&& r.lines.is_prefix_of(after.lines)
            &&& after.lines.len() == at + block.len() + 1
            &&& after.lines.subrange(at, at + block.len()) == block
            &&& name is Some ==> after.lines[r.lines.len() as int] == seq![
                span_of("  "@ + name->0, r.theme.md_code_lang()),
            ]
            &&& after.lines.last() == seq![span_of(" "@, r.theme.md_code_block())]
            &&& !after.in_code_block
            &&& after.spans == r.spans
        }),
{
    reveal(RenderView::opened);
    reveal(RenderView::texted);
    reveal(RenderView::closed);
    reveal(RenderView::code_ended);
    reveal_strlit("\n");
    let sep = seq!['\n'];
    assert("\n"@ =~= sep);
    let text = code.push('\n');
    let opened = r.step(MdEventView::Start(MdTagView::CodeBlock(lang)));
    let filled = opened.step(MdEventView::Text(text));
    let p = pieces(text, sep);
    assert(text.drop_last() =~= code);
    assert(text.last() == '\n' && sep[0] == '\n');
    assert(sep.contains(text.last()));
    assert(p == pieces(code, sep).push(Seq::empty()));
    assert(opened.code_lines + p =~= p);
    assert(p.last().len() == 0);
    assert(p.drop_last() =~= pieces(code, sep));
    assert(filled.code_lines == pieces(code, sep));
    law_pieces_join_to_the_text(code, '\n');
    let after = filled.step(MdEventView::End(MdEnd::CodeBlock));
    let name = filled.code_lang;
    let block = code_block(r.theme, code, name);
    let at = r.lines.len() + (if name is Some {
        1int
    } else {
        0
    });
    assert(after.lines.subrange(at, at + block.len()) =~= block);
}

/// A rule is a line of its own, behind what was being written.
pub proof fn law_rule_is_a_line(r: RenderView)
    ensures
        ({
            let after = r.step(MdEventView::Rule);
            &&& after.spans.len() == 0
            &&& after.lines.len() == r.lines.len() + (if r.spans.len() > 0 {
                2int
            } else {
                1
            })
            &&& r.spans.len() > 0 ==> after.lines[r.lines.len() as int] == r.spans
            &&& r.lines.is_prefix_of(after.lines)
            &&& after.lines.last().len() == 1
            &&& after.lines.last()[0].content.len() == 40
            &&& forall|i: int|
                0 <= i < 40 ==> #[trigger] after.lines.last()[0].content[i]
                    == crate::symbols::MD_HRULE_CHAR
        }),
{
    reveal(RenderView::ruled);
}

// ── tables ───────────────────────────────────────────────────────────────────

/// A cell that is filled and closed stands at the end of the last row of the table, and
/// the others stay.
pub proof fn law_cells_are_kept(r: RenderView, text: Seq<char>)
    requires
        r.in_table,
        !r.in_code_block,
        r.rows.len() > 0,
    ensures
        ({
            let opened = r.step(MdEventView::Start(MdTagView::TableCell));
            let filled = opened.step(MdEventView::Text(text));
            let after = filled.step(MdEventView::End(MdEnd::TableCell));
            &&& after.rows.len() == r.rows.len()
            &&& after.rows.drop_last() == r.rows.drop_last()
            &&& after.rows.last().len() == r.rows.last().len() + 1
            &&& after.rows.last().drop_last() == r.rows.last()
            &&& after.rows.last().last().len() == 1
            &&& after.rows.last().last()[0].content == text
            &&& after.cell.len() == 0
            &&& after.lines == r.lines
            &&& after.spans == r.spans
        }),
{
    reveal(RenderView::opened);
    reveal(RenderView::texted);
    reveal(RenderView::closed);
    let opened = r.step(MdEventView::Start(MdTagView::TableCell));
    let after = opened.step(MdEventView::Text(text)).step(MdEventView::End(MdEnd::TableCell));
    assert(after.rows.drop_last() =~= r.rows.drop_last());
    assert(after.rows.last().drop_last() =~= r.rows.last());
}

/// A table starts empty, with its columns; each row that opens is a new one.
pub proof fn law_rows_are_kept(r: RenderView, columns: Seq<u8>)
    ensures
        ({
            let table = r.step(MdEventView::Start(MdTagView::Table(columns)));
            let head = r.step(MdEventView::Start(MdTagView::TableHead));
            let row = r.step(MdEventView::Start(MdTagView::TableRow));
            &&& table.in_table && table.columns == columns && table.rows.len() == 0
            &&& head.in_table_head && head.rows == r.rows.push(Seq::empty())
            &&& row.rows == r.rows.push(Seq::empty())
            &&& row.in_table_head == r.in_table_head
            &&& !head.step(MdEventView::End(MdEnd::TableHead)).in_table_head
            &&& table.lines == r.lines && head.lines == r.lines && row.lines == r.lines
        }),
{
    reveal(RenderView::opened);
    reveal(RenderView::closed);
}

proof fn lemma_column_fits(rows: Seq<Seq<LineView>>, c: int, n: int, i: int)
    requires
        0 <= i < n <= rows.len(),
        0 <= c < rows[i].len(),
    ensures
        spans_width(rows[i][c]) <= column_width(rows, c, n),
    decreases n,
{
    if i < n - 1 {
        lemma_column_fits(rows, c, n - 1, i);
    }
}

proof fn lemma_column_is_needed(rows: Seq<Seq<LineView>>, c: int, n: int)
    requires
        0 <= c,
        0 <= n <= rows.len(),
    ensures
        column_width(rows, c, n) >= 1,
        column_width(rows, c, n) == 1 || exists|i: int|
            0 <= i < n && c < (#[trigger] rows[i]).len() && spans_width(rows[i][c]) == column_width(
                rows,
                c,
                n,
            ),
    decreases n,
{
    if n > 0 {
        lemma_column_is_needed(rows, c, n - 1);
        let above = column_width(rows, c, n - 1);
        if c < rows[n - 1].len() && spans_width(rows[n - 1][c]) > above {
            assert(spans_width(rows[n - 1][c]) == column_width(rows, c, n));
        } else if above != 1 {
            let i = choose|i: int|
                0 <= i < n - 1 && c < (#[trigger] rows[i]).len() && spans_width(rows[i][c])
                    == above;
            assert(spans_width(rows[i][c]) == column_width(rows, c, n));
        }
    }
}

/// A column is as wide as its widest cell, and at least one wide.
pub proof fn law_columns_fit_their_cells(rows: Seq<Seq<LineView>>, columns: nat, c: int)
    requires
        0 <= c < columns,
    ensures
        column_widths(rows, columns).len() == columns,
        column_widths(rows, columns)[c] >= 1,
        forall|i: int|
            0 <= i < rows.len() && c < (#[trigger] rows[i]).len() ==> spans_width(rows[i][c])
                <= column_widths(rows, columns)[c],
        column_widths(rows, columns)[c] == 1 || exists|i: int|
            0 <= i < rows.len() && c < (#[trigger] rows[i]).len() && spans_width(rows[i][c])
                == column_widths(rows, columns)[c],
{
    assert forall|i: int| 0 <= i < rows.len() && c < (#[trigger] rows[i]).len() implies spans_width(
        rows[i][c],
    ) <= column_widths(rows, columns)[c] by {
        lemma_column_fits(rows, c, rows.len() as int, i);
    }
    lemma_column_is_needed(rows, c, rows.len() as int);
}

/// A table is a border, its header, a border, its other rows in their order, a border,
/// and an empty line.
pub proof fn law_table_shows_every_row(r: RenderView)
    requires
        r.columns.len() > 0,
        r.rows.len() > 0,
    ensures
        ({
            let t = r.table_lines();
            let widths = column_widths(r.rows, r.columns.len());
            let n = r.rows.len() as int;
            &&& t.len() == n + 4
            &&& t.last().len() == 0
            &&& t[1] == r.row_line(r.rows[0], widths, true)
            &&& forall|i: int|
                1 <= i < n ==> #[trigger] t[i + 2] == r.row_line(r.rows[i], widths, false)
            &&& t[0] == r.border_line(widths, '┌', '┬', '┐')
            &&& t[2] == r.border_line(widths, '├', '┼', '┤')
            &&& t[n + 2] == r.border_line(widths, '└', '┴', '┘')
            &&& r.step(MdEventView::End(MdEnd::Table)).lines == r.lines + t
            &&& !r.step(MdEventView::End(MdEnd::Table)).in_table
            &&& r.step(MdEventView::End(MdEnd::Table)).rows.len() == 0
        }),
{
    reveal(RenderView::table_lines);
    reveal(RenderView::closed);
    let t = r.table_lines();
    let widths = column_widths(r.rows, r.columns.len());
    assert forall|i: int| 1 <= i < r.rows.len() implies #[trigger] t[i + 2] == r.row_line(
        r.rows[i],
        widths,
        false,
    ) by {
        assert(t[i + 2] == r.row_line(r.rows[(i - 1) + 1], widths, false));
    }
}

proof fn lemma_row_holds_cells(
    r: RenderView,
    row: Seq<LineView>,
    widths: Seq<usize>,
    header: bool,
    n: int,
    c: int,
)
    requires
        0 <= c < n,
        c < row.len(),
    ensures
        exists|at: int|
            0 <= at && at + row[c].len() <= r.row_spans(row, widths, header, n).len() && row[c]
                == #[trigger] r.row_spans(row, widths, header, n).subrange(at, at + row[c].len()),
    decreases n,
{
    let all = r.row_spans(row, widths, header, n);
    let before = r.row_spans(row, widths, header, n - 1);
    let cell = r.cell_spans(row, widths[n - 1], n - 1, header);
    if c < n - 1 {
        lemma_row_holds_cells(r, row, widths, header, n - 1, c);
        let at = choose|at: int|
            0 <= at && at + row[c].len() <= before.len() && row[c] == #[trigger] before.subrange(
                at,
                at + row[c].len(),
            );
        assert(all.subrange(at, at + row[c].len()) =~= before.subrange(at, at + row[c].len()));
    } else {
        let (left, right) = crate::markdown::cell_padding(
            r.columns[c],
            crate::seqs::monus(widths[c] as int, spans_width(row[c]) as int),
        );
        let pad = if header {
            r.theme.md_table_header()
        } else {
            r.base_style
        };
        let at = before.len() + 1 + crate::markdown::gap_span(left, pad).len() as int;
        assert(all.subrange(at, at + row[c].len()) =~= row[c]);
    }
}

/// A row of a table holds each of its cells in full.
pub proof fn law_rows_hold_their_cells(
    r: RenderView,
    row: Seq<LineView>,
    widths: Seq<usize>,
    header: bool,
    c: int,
)
    requires
        0 <= c < r.columns.len(),
        c < row.len(),
    ensures
        exists|at: int|
            0 <= at && at + row[c].len() <= r.row_line(row, widths, header).len() && row[c]
                == #[trigger] r.row_line(row, widths, header).subrange(at, at + row[c].len()),
{
    let n = r.columns.len() as int;
    lemma_row_holds_cells(r, row, widths, header, n, c);
    let all = r.row_spans(row, widths, header, n);
    let at = choose|at: int|
        0 <= at && at + row[c].len() <= all.len() && row[c] == #[trigger] all.subrange(
            at,
            at + row[c].len(),
        );
    assert(r.row_line(row, widths, header).subrange(at, at + row[c].len()) =~= all.subrange(
        at,
        at + row[c].len(),
    ));
}

/// The blanks round a cell fill up its column: none are left out, and they stand behind the
/// text, before it, or on both sides alike, as the column is aligned.
pub proof fn law_cells_are_aligned(gap: int)
    requires
        gap >= 0,
    ensures
        forall|a: u8| {
            let (left, right) = #[trigger] crate::markdown::cell_padding(a, gap);
            &&& left >= 0 && right >= 0
            &&& left + right == gap
        },
        crate::markdown::cell_padding(3, gap) == (gap, 0int),
        crate::markdown::cell_padding(1, gap) == (0int, gap),
        crate::markdown::cell_padding(0, gap) == (0int, gap),
        crate::markdown::cell_padding(2, gap).1 - crate::markdown::cell_padding(2, gap).0 == 0
            || crate::markdown::cell_padding(2, gap).1 - crate::markdown::cell_padding(2, gap).0
            == 1,
{
}

} // verus!
