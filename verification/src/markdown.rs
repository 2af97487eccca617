//! Markdown as styled lines.
use crate::highlight::{code_block, Highlighter};
use crate::layout::{line_columns, spans_width};
use crate::seqs::{least, monus};
use crate::style::{
    push_line, push_lines, push_span, push_spans, span_of, Line, LineView, Span, SpanView, Style,
};
use crate::symbols::{MD_BULLET, MD_HRULE_CHAR};
use crate::text::{
    blanks, cat2, cat3, decimal, join, joined, number, pieces, push_char, repeat, spaces,
    split, trim, trimmed,
};
use crate::theme::Theme;
use pulldown_cmark::{CodeBlockKind, Tag, TagEnd};
use vstd::prelude::*;

verus! {

// ── what a parser finds ──────────────────────────────────────────────────────

#[verifier::external_type_specification]
#[verifier::external_body]
pub struct ExEvent<'a>(pulldown_cmark::Event<'a>);

#[verifier::external_type_specification]
#[verifier::external_body]
pub struct ExTag<'a>(pulldown_cmark::Tag<'a>);

#[verifier::external_type_specification]
#[verifier::external_body]
pub struct ExTagEnd(pulldown_cmark::TagEnd);

/// What opens.  The columns of a table are numbered as the parser numbers
/// their alignment: 2 is centred, 3 is right-aligned.
#[derive(Debug)]
pub enum MdTag {
    Heading(u8),
    Emphasis,
    Strong,
    Strikethrough,
    Link,
    BlockQuote,
    CodeBlock(Option<String>),
    List(Option<u64>),
    Table(Vec<u8>),
    TableHead,
    TableRow,
    TableCell,
    Other,
}

#[verifier::ext_equal]
pub enum MdTagView {
    Heading(u8),
    Emphasis,
    Strong,
    Strikethrough,
    Link,
    BlockQuote,
    CodeBlock(Option<Seq<char>>),
    List(Option<u64>),
    Table(Seq<u8>),
    TableHead,
    TableRow,
    TableCell,
    Other,
}

impl DeepView for MdTag {
    type V = MdTagView;

    open spec fn deep_view(&self) -> MdTagView {
        match self {
            MdTag::Heading(level) => MdTagView::Heading(*level),
            MdTag::Emphasis => MdTagView::Emphasis,
            MdTag::Strong => MdTagView::Strong,
            MdTag::Strikethrough => MdTagView::Strikethrough,
            MdTag::Link => MdTagView::Link,
            MdTag::BlockQuote => MdTagView::BlockQuote,
            MdTag::CodeBlock(lang) => MdTagView::CodeBlock(lang.deep_view()),
            MdTag::List(start) => MdTagView::List(*start),
            MdTag::Table(columns) => MdTagView::Table(columns@),
            MdTag::TableHead => MdTagView::TableHead,
            MdTag::TableRow => MdTagView::TableRow,
            MdTag::TableCell => MdTagView::TableCell,
            MdTag::Other => MdTagView::Other,
        }
    }
}

/// What closes.
#[derive(Clone, Copy, Debug, PartialEq, Eq, Structural)]
pub enum MdEnd {
    Heading,
    Emphasis,
    Strong,
    Strikethrough,
    Link,
    BlockQuote,
    CodeBlock,
    List,
    Item,
    Paragraph,
    Table,
    TableHead,
    TableCell,
    Other,
}

/// What a parser finds in a text, one after the other.
#[derive(Debug)]
pub enum MdEvent {
    Start(MdTag),
    End(MdEnd),
    Text(String),
    Code(String),
    SoftBreak,
    HardBreak,
    Rule,
    Other,
}

#[verifier::ext_equal]
pub enum MdEventView {
    Start(MdTagView),
    End(MdEnd),
    Text(Seq<char>),
    Code(Seq<char>),
    SoftBreak,
    HardBreak,
    Rule,
    Other,
}

impl DeepView for MdEvent {
    type V = MdEventView;

    open spec fn deep_view(&self) -> MdEventView {
        match self {
            MdEvent::Start(tag) => MdEventView::Start(tag.deep_view()),
            MdEvent::End(end) => MdEventView::End(*end),
            MdEvent::Text(text) => MdEventView::Text(text@),
            MdEvent::Code(code) => MdEventView::Code(code@),
            MdEvent::SoftBreak => MdEventView::SoftBreak,
            MdEvent::HardBreak => MdEventView::HardBreak,
            MdEvent::Rule => MdEventView::Rule,
            MdEvent::Other => MdEventView::Other,
        }
    }
}

/// The library's form of a `pulldown_cmark::Tag`.
pub uninterp spec fn tag_form(tag: pulldown_cmark::Tag<'static>) -> MdTagView;

/// The library's form of a `pulldown_cmark::TagEnd`.
pub uninterp spec fn end_form(end: pulldown_cmark::TagEnd) -> MdEnd;

/// The library's form of a `pulldown_cmark::Event`.
pub uninterp spec fn event_form(event: pulldown_cmark::Event<'static>) -> MdEventView;

/// What `pulldown_cmark` finds in a text, with or without strikethrough and
/// tables.
pub uninterp spec fn markdown_events(
    text: Seq<char>,
    strikethrough: bool,
    tables: bool,
) -> Seq<MdEventView>;

/// `pulldown_cmark::Parser::new_ext`: the events of a text, a function of the
/// text and the two options.
#[verifier::external_body]
fn parse_markdown(text: &str, strikethrough: bool, tables: bool) -> (r: Vec<
    pulldown_cmark::Event<'static>,
>)
    ensures
        r@.map_values(|e: pulldown_cmark::Event<'static>| event_form(e)) == markdown_events(
            text@,
            strikethrough,
            tables,
        ),
{
    let mut options = pulldown_cmark::Options::empty();
    options.set(pulldown_cmark::Options::ENABLE_STRIKETHROUGH, strikethrough);
    options.set(pulldown_cmark::Options::ENABLE_TABLES, tables);
    pulldown_cmark::Parser::new_ext(text, options).map(|e| e.into_static()).collect()
}

/// An event with what opens or closes still in the parser's form.
enum Found {
    Start(pulldown_cmark::Tag<'static>),
    End(pulldown_cmark::TagEnd),
    Text(String),
    Code(String),
    SoftBreak,
    HardBreak,
    Rule,
    Other,
}

/// Tells the variants of `pulldown_cmark::Event` apart and moves their fields
/// out.
#[verifier::external_body]
fn found_in(event: pulldown_cmark::Event<'static>) -> (r: Found)
    ensures
        event_form(event) == (match r {
            Found::Start(tag) => MdEventView::Start(tag_form(tag)),
            Found::End(end) => MdEventView::End(end_form(end)),
            Found::Text(text) => MdEventView::Text(text@),
            Found::Code(code) => MdEventView::Code(code@),
            Found::SoftBreak => MdEventView::SoftBreak,
            Found::HardBreak => MdEventView::HardBreak,
            Found::Rule => MdEventView::Rule,
            Found::Other => MdEventView::Other,
        }),
{
    match event {
        pulldown_cmark::Event::Start(tag) => Found::Start(tag),
        pulldown_cmark::Event::End(end) => Found::End(end),
        pulldown_cmark::Event::Text(text) => Found::Text(text.into_string()),
        pulldown_cmark::Event::Code(code) => Found::Code(code.into_string()),
        pulldown_cmark::Event::SoftBreak => Found::SoftBreak,
        pulldown_cmark::Event::HardBreak => Found::HardBreak,
        pulldown_cmark::Event::Rule => Found::Rule,
        _ => Found::Other,
    }
}

/// Tells the variants of `pulldown_cmark::Tag` apart and moves the fields out
/// that the library reads: the level of a heading, the language of a fenced
/// code block, the first number of a list, and the alignments of a table.
#[verifier::external_body]
fn tag_of(tag: pulldown_cmark::Tag<'static>) -> (r: MdTag)
    ensures
        r.deep_view() == tag_form(tag),
{
    match tag {
        Tag::Heading { level, .. } => MdTag::Heading(level as u8),
        Tag::Emphasis => MdTag::Emphasis,
        Tag::Strong => MdTag::Strong,
        Tag::Strikethrough => MdTag::Strikethrough,
        Tag::Link { .. } => MdTag::Link,
        Tag::BlockQuote(_) => MdTag::BlockQuote,
        Tag::CodeBlock(CodeBlockKind::Fenced(l)) => MdTag::CodeBlock(Some(l.into_string())),
        Tag::CodeBlock(_) => MdTag::CodeBlock(None),
        Tag::List(start) => MdTag::List(start),
        Tag::Table(columns) => MdTag::Table(columns.iter().map(|c| *c as u8).collect()),
        Tag::TableHead => MdTag::TableHead,
        Tag::TableRow => MdTag::TableRow, Tag::TableCell => MdTag::TableCell,
        _ => MdTag::Other,
    }
}

/// Tells the variants of `pulldown_cmark::TagEnd` apart.
#[verifier::external_body]
fn end_of(end: pulldown_cmark::TagEnd) -> (r: MdEnd)
    ensures
        r == end_form(end),
{
    match end {
        TagEnd::Heading(_) => MdEnd::Heading,
        TagEnd::Emphasis => MdEnd::Emphasis,
        TagEnd::Strong => MdEnd::Strong,
        TagEnd::Strikethrough => MdEnd::Strikethrough,
        TagEnd::Link => MdEnd::Link,
        TagEnd::BlockQuote(_) => MdEnd::BlockQuote,
        TagEnd::CodeBlock => MdEnd::CodeBlock,
        TagEnd::List(_) => MdEnd::List,
        TagEnd::Item => MdEnd::Item,
        TagEnd::Paragraph => MdEnd::Paragraph,
        TagEnd::Table => MdEnd::Table,
        TagEnd::TableHead => MdEnd::TableHead, TagEnd::TableCell => MdEnd::TableCell,
        _ => MdEnd::Other,
    }
}

/// The events of a markdown text, with strikethrough and tables.
pub open spec fn events_of(text: Seq<char>) -> Seq<MdEventView> {
    markdown_events(text, true, true)
}

/// The events of a markdown text.
pub fn parse(text: &str) -> (r: Vec<MdEvent>)
    ensures
        r.deep_view() == events_of(text@),
{
    let mut all = parse_markdown(text, true, true);
    let ghost av = all@;
    let ghost f = |e: pulldown_cmark::Event<'static>| event_form(e);
    let mut turned: Vec<MdEvent> = Vec::new();
    let ghost n = all@.len();
    while all.len() > 0
        invariant
            all@.len() <= n,
            n == av.len(),
            all@ == av.take(all@.len() as int),
            turned@.len() == n - all@.len(),
            f == (|e: pulldown_cmark::Event<'static>| event_form(e)),
            forall|k: int| 0 <= k < turned@.len() ==> (#[trigger] turned@[k]).deep_view() == f(
                av[n - 1 - k],
            ),
        decreases all@.len(),
    {
        let ghost before = all@;
        match all.pop() {
            Some(event) => {
                assert(event == av[before.len() - 1]);
                let e = match found_in(event) {
                    Found::Start(tag) => MdEvent::Start(tag_of(tag)),
                    Found::End(end) => MdEvent::End(end_of(end)),
                    Found::Text(text) => MdEvent::Text(text),
                    Found::Code(code) => MdEvent::Code(code),
                    Found::SoftBreak => MdEvent::SoftBreak,
                    Found::HardBreak => MdEvent::HardBreak,
                    Found::Rule => MdEvent::Rule,
                    Found::Other => MdEvent::Other,
                };
                assert(e.deep_view() == f(event));
                turned.push(e);
                assert(all@ =~= av.take(all@.len() as int));
            },
            None => {},
        }
    }
    let mut out: Vec<MdEvent> = Vec::new();
    let ghost total = turned@;
    while turned.len() > 0
        invariant
            total.len() == n,
            n == av.len(),
            turned@.len() <= n,
            turned@ == total.take(turned@.len() as int),
            out@.len() == n - turned@.len(),
            f == (|e: pulldown_cmark::Event<'static>| event_form(e)),
            forall|k: int| 0 <= k < total.len() ==> (#[trigger] total[k]).deep_view() == f(
                av[n - 1 - k],
            ),
            forall|k: int| 0 <= k < out@.len() ==> (#[trigger] out@[k]).deep_view() == f(av[k]),
        decreases turned@.len(),
    {
        let ghost before = turned@;
        match turned.pop() {
            Some(e) => {
                assert(e == total[before.len() - 1]);
                out.push(e);
                assert(turned@ =~= total.take(turned@.len() as int));
            },
            None => {},
        }
    }
    assert(out.deep_view() =~= av.map_values(f));
    out
}

// ── what is shown of it ──────────────────────────────────────────────────────

/// How far a renderer has come.
#[verifier::ext_equal]
pub struct RenderView {
    pub theme: Theme,
    /// The style of plain text.
    pub base_style: Style,
    /// The styles in effect, innermost last.
    pub styles: Seq<Style>,
    /// The line that is being filled.
    pub spans: LineView,
    pub in_code_block: bool,
    pub code_lines: Seq<Seq<char>>,
    pub code_lang: Option<Seq<char>>,
    /// The open lists, innermost last, each with its next number.
    pub lists: Seq<Option<u64>>,
    pub heading_level: u8,
    pub in_blockquote: bool,
    pub in_table: bool,
    pub in_table_head: bool,
    /// The alignments of the columns of the table.
    pub columns: Seq<u8>,
    /// The rows of the table, each with its cells.
    pub rows: Seq<Seq<LineView>>,
    /// The cell that is being filled.
    pub cell: LineView,
    /// The finished lines.
    pub lines: Seq<LineView>,
}

/// One style on top of another: what it leaves open stays.
pub open spec fn over(below: Style, s: Style) -> Style {
    Style {
        fg: if s.fg is Some {
            s.fg
        } else {
            below.fg
        },
        bg: if s.bg is Some {
            s.bg
        } else {
            below.bg
        },
        bold: below.bold || s.bold,
        italic: below.italic || s.italic,
        underlined: below.underlined || s.underlined,
        crossed_out: below.crossed_out || s.crossed_out,
    }
}

/// Width of a column among the first `n` rows of a table, at least one.
pub open spec fn column_width(rows: Seq<Seq<LineView>>, c: int, n: int) -> usize
    decreases n,
{
    if n <= 0 {
        1
    } else {
        let above = column_width(rows, c, n - 1);
        if c < rows[n - 1].len() && spans_width(rows[n - 1][c]) > above {
            spans_width(rows[n - 1][c])
        } else {
            above
        }
    }
}

/// Widths of the columns of a table.
pub open spec fn column_widths(rows: Seq<Seq<LineView>>, columns: nat) -> Seq<usize> {
    Seq::new(columns, |c: int| column_width(rows, c, rows.len() as int))
}

/// A border over the first `n` columns: `left` before the first, `mid` before
/// each other.
pub open spec fn border(widths: Seq<usize>, n: int, left: char, mid: char) -> Seq<char>
    decreases n,
{
    if n <= 0 {
        Seq::empty()
    } else {
        border(widths, n - 1, left, mid).push(
            if n == 1 {
                left
            } else {
                mid
            },
        ) + Seq::new(least(widths[n - 1] + 2, usize::MAX as int) as nat, |i: int| MD_HRULE_CHAR)
    }
}

/// How many blanks stand before and behind the text of a cell.
pub open spec fn cell_padding(alignment: u8, gap: int) -> (int, int) {
    if alignment == ALIGN_RIGHT {
        (gap, 0)
    } else if alignment == ALIGN_CENTER {
        (gap / 2, gap - gap / 2)
    } else {
        (0, gap)
    }
}

/// A span of blanks, where there are any.
pub open spec fn gap_span(n: int, style: Style) -> LineView {
    if n > 0 {
        seq![span_of(spaces(n as nat), style)]
    } else {
        Seq::empty()
    }
}

impl RenderView {
    /// Nothing is rendered yet.
    pub open spec fn start(theme: Theme, base_style: Style) -> RenderView {
        RenderView {
            theme,
            base_style,
            styles: seq![base_style],
            spans: Seq::empty(),
            in_code_block: false,
            code_lines: Seq::empty(),
            code_lang: None,
            lists: Seq::empty(),
            heading_level: 0,
            in_blockquote: false,
            in_table: false,
            in_table_head: false,
            columns: Seq::empty(),
            rows: Seq::empty(),
            cell: Seq::empty(),
            lines: Seq::empty(),
        }
    }

    /// The style in effect.
    pub open spec fn style(self) -> Style {
        if self.styles.len() > 0 {
            self.styles.last()
        } else {
            self.base_style
        }
    }

    /// With a style on top of the one in effect.
    pub open spec fn styled(self, s: Style) -> RenderView {
        RenderView { styles: self.styles.push(over(self.style(), s)), ..self }
    }

    /// Without the innermost style; the outermost stays.
    pub open spec fn unstyled(self) -> RenderView {
        if self.styles.len() > 1 {
            RenderView { styles: self.styles.drop_last(), ..self }
        } else {
            self
        }
    }

    /// With the line finished, where there is anything on it.
    pub open spec fn flushed(self) -> RenderView {
        if self.spans.len() > 0 {
            RenderView { lines: self.lines.push(self.spans), spans: Seq::empty(), ..self }
        } else {
            self
        }
    }

    /// With an empty line.
    pub open spec fn spaced(self) -> RenderView {
        RenderView { lines: self.lines.push(Seq::empty()), ..self }
    }

    /// After something opens.
    #[verifier::opaque]
    pub open spec fn opened(self, tag: MdTagView) -> RenderView {
        match tag {
            MdTagView::Heading(level) => (RenderView { heading_level: level, ..self }).styled(
                self.theme.md_heading(),
            ),
            MdTagView::Emphasis => self.styled(self.theme.md_italic()),
            MdTagView::Strong => self.styled(self.theme.md_bold()),
            MdTagView::Strikethrough => self.styled(self.theme.md_strikethrough()),
            MdTagView::Link => self.styled(self.theme.md_link_title()),
            MdTagView::BlockQuote => (RenderView { in_blockquote: true, ..self }).styled(
                self.theme.md_blockquote(),
            ),
            MdTagView::CodeBlock(lang) => RenderView {
                in_code_block: true,
                code_lines: Seq::empty(),
                code_lang: match lang {
                    Some(l) => if trimmed(l).len() == 0 {
                        None
                    } else {
                        Some(trimmed(l))
                    },
                    None => None,
                },
                ..self
            },
            MdTagView::List(start) => RenderView { lists: self.lists.push(start), ..self },
            MdTagView::Table(columns) => RenderView {
                in_table: true,
                columns,
                rows: Seq::empty(),
                ..self
            },
            MdTagView::TableHead => RenderView {
                in_table_head: true,
                rows: self.rows.push(Seq::empty()),
                ..self
            },
            MdTagView::TableRow => RenderView { rows: self.rows.push(Seq::empty()), ..self },
            MdTagView::TableCell => RenderView { cell: Seq::empty(), ..self },
            MdTagView::Other => self,
        }
    }

    /// The marks before a heading.
    pub open spec fn heading_mark(self) -> Seq<char> {
        if self.heading_level == 1 {
            "# "@
        } else if self.heading_level == 2 {
            "## "@
        } else if self.heading_level == 3 {
            "### "@
        } else {
            "#### "@
        }
    }

    /// With a code block finished: its language, its lines, and a blank.
    #[verifier::opaque]
    pub open spec fn code_ended(self) -> RenderView {
        let label = match self.code_lang {
            Some(lang) => seq![seq![span_of("  "@ + lang, self.theme.md_code_lang())]],
            None => Seq::empty(),
        };
        RenderView {
            in_code_block: false,
            code_lines: Seq::empty(),
            code_lang: None,
            lines: (self.lines + label + code_block(
                self.theme,
                joined(self.code_lines, "\n"@),
                self.code_lang,
            )).push(seq![span_of(" "@, self.theme.md_code_block())]),
            ..self
        }
    }

    /// A cell of a table between its borders.
    pub open spec fn cell_spans(
        self,
        row: Seq<LineView>,
        width: usize,
        c: int,
        header: bool,
    ) -> LineView {
        let content = if c < row.len() {
            row[c]
        } else {
            Seq::empty()
        };
        let (left, right) = cell_padding(
            self.columns[c],
            monus(width as int, spans_width(content) as int),
        );
        let pad = if header {
            self.theme.md_table_header()
        } else {
            self.base_style
        };
        (seq![span_of("│ "@, self.theme.md_table_border())] + gap_span(left, pad) + content
            + gap_span(right, pad)).push(span_of(" "@, self.theme.md_table_border()))
    }

    /// The first `n` cells of a row.
    pub open spec fn row_spans(
        self,
        row: Seq<LineView>,
        widths: Seq<usize>,
        header: bool,
        n: int,
    ) -> LineView
        decreases n,
    {
        if n <= 0 {
            Seq::empty()
        } else {
            self.row_spans(row, widths, header, n - 1) + self.cell_spans(
                row,
                widths[n - 1],
                n - 1,
                header,
            )
        }
    }

    /// A row of a table.
    pub open spec fn row_line(self, row: Seq<LineView>, widths: Seq<usize>, header: bool) -> LineView {
        self.row_spans(row, widths, header, self.columns.len() as int).push(
            span_of("│"@, self.theme.md_table_border()),
        )
    }

    /// A border of a table.
    pub open spec fn border_line(
        self,
        widths: Seq<usize>,
        left: char,
        mid: char,
        right: char,
    ) -> LineView {
        seq![
            span_of(
                border(widths, widths.len() as int, left, mid).push(right),
                self.theme.md_table_border(),
            ),
        ]
    }

    /// The lines of a table: borders round it and below its header, and an
    /// empty line behind it.
    #[verifier::opaque]
    pub open spec fn table_lines(self) -> Seq<LineView> {
        if self.columns.len() == 0 || self.rows.len() == 0 {
            Seq::empty()
        } else {
            let widths = column_widths(self.rows, self.columns.len());
            seq![
                self.border_line(widths, '┌', '┬', '┐'),
                self.row_line(self.rows[0], widths, true),
                self.border_line(widths, '├', '┼', '┤'),
            ] + Seq::new(
                (self.rows.len() - 1) as nat,
                |i: int| self.row_line(self.rows[i + 1], widths, false),
            ) + seq![self.border_line(widths, '└', '┴', '┘'), Seq::empty()]
        }
    }

    /// After something closes.
    #[verifier::opaque]
    pub open spec fn closed(self, end: MdEnd) -> RenderView {
        match end {
            MdEnd::Heading => (RenderView {
                spans: seq![span_of(self.heading_mark(), self.theme.md_heading())] + self.spans,
                heading_level: 0,
                ..self
            }).flushed().unstyled(),
            MdEnd::Emphasis | MdEnd::Strong | MdEnd::Strikethrough | MdEnd::Link => self.unstyled(),
            MdEnd::BlockQuote => (RenderView { in_blockquote: false, ..self }).unstyled(),
            MdEnd::CodeBlock => self.code_ended(),
            MdEnd::List => {
                let shorter = RenderView {
                    lists: if self.lists.len() > 0 {
                        self.lists.drop_last()
                    } else {
                        self.lists
                    },
                    ..self
                };
                if shorter.lists.len() == 0 {
                    shorter.spaced()
                } else {
                    shorter
                }
            },
            MdEnd::Item => self.flushed(),
            MdEnd::Paragraph => self.flushed().spaced(),
            MdEnd::Table => RenderView {
                in_table: false,
                in_table_head: false,
                columns: Seq::empty(),
                rows: Seq::empty(),
                lines: self.lines + self.table_lines(),
                ..self
            },
            MdEnd::TableHead => RenderView { in_table_head: false, ..self },
            MdEnd::TableCell => RenderView {
                cell: Seq::empty(),
                rows: if self.rows.len() > 0 {
                    self.rows.update(
                        self.rows.len() - 1,
                        self.rows.last().push(self.cell),
                    )
                } else {
                    self.rows
                },
                ..self
            },
            MdEnd::Other => self,
        }
    }

    /// What stands before the first text of a list item, and the lists behind
    /// it.
    pub open spec fn bullet(self) -> (Seq<char>, Seq<Option<u64>>) {
        let indent = spaces((2 * (self.lists.len() - 1)) as nat);
        match self.lists.last() {
            Some(n) => (
                indent + decimal(n as nat) + ". "@,
                self.lists.update(
                    self.lists.len() - 1,
                    Some(least(n + 1, u64::MAX as int) as u64),
                ),
            ),
            None => (indent + MD_BULLET@, self.lists),
        }
    }

    /// With the bullet of a list item, at the start of a line in a list.
    pub open spec fn bulleted(self) -> RenderView {
        if self.spans.len() == 0 && self.lists.len() > 0 {
            let (mark, lists) = self.bullet();
            RenderView {
                spans: seq![span_of(mark, self.theme.md_list_bullet())],
                lists,
                ..self
            }
        } else {
            self
        }
    }

    /// Indented, at the start of a line in a quotation.
    pub open spec fn quoted(self) -> RenderView {
        if self.in_blockquote && self.spans.len() == 0 {
            RenderView { spans: seq![span_of("  "@, self.theme.md_blockquote())], ..self }
        } else {
            self
        }
    }

    /// With text in the code block: its lines, without an empty one at its end.
    pub open spec fn code_texted(self, text: Seq<char>) -> RenderView {
        let all = self.code_lines + pieces(text, "\n"@);
        RenderView {
            code_lines: if all.len() > 0 && all.last().len() == 0 {
                all.drop_last()
            } else {
                all
            },
            ..self
        }
    }

    /// With text: in the code block, in the cell or on the line.
    #[verifier::opaque]
    pub open spec fn texted(self, text: Seq<char>) -> RenderView {
        if self.in_code_block {
            self.code_texted(text)
        } else if self.in_table {
            RenderView {
                cell: self.cell.push(
                    span_of(
                        text,
                        if self.in_table_head {
                            self.theme.md_table_header()
                        } else {
                            self.style()
                        },
                    ),
                ),
                ..self
            }
        } else {
            let marked = self.bulleted().quoted();
            RenderView { spans: marked.spans.push(span_of(text, self.style())), ..marked }
        }
    }

    /// With a piece of code, in the cell or on the line.
    #[verifier::opaque]
    pub open spec fn coded(self, code: Seq<char>) -> RenderView {
        let s = span_of(code, self.theme.md_code_inline());
        if self.in_table {
            RenderView { cell: self.cell.push(s), ..self }
        } else {
            RenderView { spans: self.spans.push(s), ..self }
        }
    }

    /// With a rule, on a line of its own.
    #[verifier::opaque]
    pub open spec fn ruled(self) -> RenderView {
        let f = self.flushed();
        RenderView {
            lines: f.lines.push(
                seq![span_of(Seq::new(RULE_LENGTH as nat, |i: int| MD_HRULE_CHAR), self.theme.md_hr())],
            ),
            ..f
        }
    }

    /// After one event.
    pub open spec fn step(self, event: MdEventView) -> RenderView {
        match event {
            MdEventView::Start(tag) => self.opened(tag),
            MdEventView::End(end) => self.closed(end),
            MdEventView::Text(text) => self.texted(text),
            MdEventView::Code(code) => self.coded(code),
            MdEventView::SoftBreak => self.texted(" "@),
            MdEventView::HardBreak => self.flushed(),
            MdEventView::Rule => self.ruled(),
            MdEventView::Other => self,
        }
    }

    /// After all events.
    pub open spec fn run(self, events: Seq<MdEventView>) -> RenderView
        decreases events.len(),
    {
        if events.len() == 0 {
            self
        } else {
            self.run(events.drop_last()).step(events.last())
        }
    }
}

/// Lines without the empty ones at their end.
pub open spec fn without_empty_end(lines: Seq<LineView>) -> Seq<LineView>
    decreases lines.len(),
{
    if lines.len() > 0 && lines.last().len() == 0 {
        without_empty_end(lines.drop_last())
    } else {
        lines
    }
}

/// What events look like.
pub open spec fn event_lines(theme: Theme, base_style: Style, events: Seq<MdEventView>) -> Seq<
    LineView,
> {
    without_empty_end(RenderView::start(theme, base_style).run(events).flushed().lines)
}

/// What a markdown text looks like.
pub open spec fn markdown_lines(theme: Theme, base_style: Style, text: Seq<char>) -> Seq<LineView> {
    event_lines(theme, base_style, events_of(text))
}

/// How the parser numbers a centred column.
pub const ALIGN_CENTER: u8 = 2;

/// How the parser numbers a right-aligned column.
pub const ALIGN_RIGHT: u8 = 3;

/// Characters of a horizontal rule.
pub const RULE_LENGTH: usize = 40;

/// A renderer of markdown.
struct RenderCtx<'a> {
    theme: Theme,
    hl: &'a Highlighter,
    base_style: Style,
    styles: Vec<Style>,
    spans: Vec<Span>,
    in_code_block: bool,
    code_lines: Vec<String>,
    code_lang: Option<String>,
    lists: Vec<Option<u64>>,
    heading_level: u8,
    in_blockquote: bool,
    in_table: bool,
    in_table_head: bool,
    columns: Vec<u8>,
    rows: Vec<Vec<Vec<Span>>>,
    cell: Vec<Span>,
    lines: Vec<Line>,
}

impl<'a> View for RenderCtx<'a> {
    type V = RenderView;

    closed spec fn view(&self) -> RenderView {
        RenderView {
            theme: self.theme,
            base_style: self.base_style,
            styles: self.styles@,
            spans: self.spans.deep_view(),
            in_code_block: self.in_code_block,
            code_lines: self.code_lines.deep_view(),
            code_lang: self.code_lang.deep_view(),
            lists: self.lists@,
            heading_level: self.heading_level,
            in_blockquote: self.in_blockquote,
            in_table: self.in_table,
            in_table_head: self.in_table_head,
            columns: self.columns@,
            rows: self.rows.deep_view(),
            cell: self.cell.deep_view(),
            lines: self.lines.deep_view(),
        }
    }
}

fn merge(below: Style, s: Style) -> (r: Style)
    ensures
        r == over(below, s),
{
    Style {
        fg: if s.fg.is_some() {
            s.fg
        } else {
            below.fg
        },
        bg: if s.bg.is_some() {
            s.bg
        } else {
            below.bg
        },
        bold: below.bold || s.bold,
        italic: below.italic || s.italic,
        underlined: below.underlined || s.underlined,
        crossed_out: below.crossed_out || s.crossed_out,
    }
}

impl<'a> RenderCtx<'a> {
    fn current_style(&self) -> (r: Style)
        ensures
            r == self@.style(),
    {
        let n: usize = self.styles.len();
        if n > 0 {
            self.styles[n - 1]
        } else {
            self.base_style
        }
    }

    fn push_style(&mut self, style: Style)
        ensures
            final(self)@ == old(self)@.styled(style),
    {
        let merged = merge(self.current_style(), style);
        self.styles.push(merged);
    }

    fn pop_style(&mut self)
        ensures
            final(self)@ == old(self)@.unstyled(),
    {
        if self.styles.len() > 1 {
            let _ = self.styles.pop();
        }
    }

    fn flush_line(&mut self)
        ensures
            final(self)@ == old(self)@.flushed(),
    {
        if self.spans.len() > 0 {
            let mut spans: Vec<Span> = Vec::new();
            std::mem::swap(&mut spans, &mut self.spans);
            push_line(&mut self.lines, Line { spans });
            assert(self.spans.deep_view() =~= Seq::<SpanView>::empty());
        }
    }

    fn open_tag(&mut self, tag: &MdTag)
        ensures
            final(self)@ == old(self)@.opened(tag.deep_view()),
    {
        reveal(RenderView::opened);
        let theme = self.theme;
        match tag {
            MdTag::Heading(level) => {
                self.heading_level = *level;
                self.push_style(theme.md_heading());
            },
            MdTag::Emphasis => self.push_style(theme.md_italic()),
            MdTag::Strong => self.push_style(theme.md_bold()),
            MdTag::Strikethrough => self.push_style(theme.md_strikethrough()),
            MdTag::Link => self.push_style(theme.md_link_title()),
            MdTag::BlockQuote => {
                self.in_blockquote = true;
                self.push_style(theme.md_blockquote());
            },
            MdTag::CodeBlock(lang) => {
                self.in_code_block = true;
                self.code_lines = Vec::new();
                self.code_lang = match lang {
                    Some(l) => {
                        let name = trim(l.as_str());
                        if name.as_str().unicode_len() == 0 {
                            None
                        } else {
                            Some(name)
                        }
                    },
                    None => None,
                };
                assert(self.code_lines.deep_view() =~= Seq::<Seq<char>>::empty());
            },
            MdTag::List(start) => {
                self.lists.push(*start);
            },
            MdTag::Table(columns) => {
                self.in_table = true;
                self.columns = columns.clone();
                self.rows = Vec::new();
                assert(self.columns@ =~= columns@);
                assert(self.rows.deep_view() =~= Seq::<Seq<LineView>>::empty());
            },
            MdTag::TableHead => {
                self.in_table_head = true;
                self.open_row();
            },
            MdTag::TableRow => {
                self.open_row();
            },
            MdTag::TableCell => {
                self.cell = Vec::new();
                assert(self.cell.deep_view() =~= Seq::<SpanView>::empty());
            },
            MdTag::Other => {},
        }
    }

    fn open_row(&mut self)
        ensures
            final(self)@ == (RenderView { rows: old(self)@.rows.push(Seq::empty()), ..old(self)@ }),
    {
        let ghost before = self.rows.deep_view();
        let row: Vec<Vec<Span>> = Vec::new();
        assert(row.deep_view() =~= Seq::<LineView>::empty());
        self.rows.push(row);
        assert(self.rows.deep_view() =~= before.push(Seq::empty()));
    }

    fn end_code(&mut self)
        ensures
            final(self)@ == old(self)@.code_ended(),
    {
        reveal(RenderView::code_ended);
        let theme = self.theme;
        self.in_code_block = false;
        let code = join(&self.code_lines, "\n");
        if let Some(lang) = &self.code_lang {
            push_line(
                &mut self.lines,
                Line::one(Span::new(cat2("  ", lang.as_str()), theme.md_code_lang())),
            );
            assert(self.lines.deep_view() =~= old(self)@.lines + seq![
                seq![span_of("  "@ + lang@, theme.md_code_lang())],
            ]);
        } else {
            assert(self.lines.deep_view() =~= old(self)@.lines + Seq::<LineView>::empty());
        }
        let block = self.hl.highlight_block(&theme, code.as_str(), &self.code_lang);
        push_lines(&mut self.lines, block);
        push_line(&mut self.lines, Line::one(Span::styled(" ", theme.md_code_block())));
        self.code_lines = Vec::new();
        self.code_lang = None;
        assert(self.code_lines.deep_view() =~= Seq::<Seq<char>>::empty());
    }

    fn close_list(&mut self)
        ensures
            final(self)@ == ({
                let s = old(self)@;
                let shorter = RenderView {
                    lists: if s.lists.len() > 0 {
                        s.lists.drop_last()
                    } else {
                        s.lists
                    },
                    ..s
                };
                if shorter.lists.len() == 0 {
                    shorter.spaced()
                } else {
                    shorter
                }
            }),
    {
        let _ = self.lists.pop();
        if self.lists.len() == 0 {
            push_line(&mut self.lines, Line::empty());
        }
    }

    fn close_cell(&mut self)
        ensures
            final(self)@ == (RenderView {
                cell: Seq::empty(),
                rows: if old(self)@.rows.len() > 0 {
                    old(self)@.rows.update(
                        old(self)@.rows.len() - 1,
                        old(self)@.rows.last().push(old(self)@.cell),
                    )
                } else {
                    old(self)@.rows
                },
                ..old(self)@
            }),
    {
        let mut cell: Vec<Span> = Vec::new();
        std::mem::swap(&mut cell, &mut self.cell);
        assert(self.cell.deep_view() =~= Seq::<SpanView>::empty());
        let ghost cv = cell.deep_view();
        let ghost before = self.rows.deep_view();
        match self.rows.pop() {
            Some(row) => {
                let mut row = row;
                let ghost rv = row.deep_view();
                row.push(cell);
                assert(row.deep_view() =~= rv.push(cv));
                self.rows.push(row);
                assert(self.rows.deep_view() =~= before.update(
                    before.len() - 1,
                    before.last().push(cv),
                ));
            },
            None => {},
        }
    }

    fn close_heading(&mut self)
        ensures
            final(self)@ == ({
                let s = old(self)@;
                (RenderView {
                    spans: seq![span_of(s.heading_mark(), s.theme.md_heading())] + s.spans,
                    heading_level: 0,
                    ..s
                }).flushed().unstyled()
            }),
    {
        let ghost sv = self.spans.deep_view();
        let mark = if self.heading_level == 1 {
            "# "
        } else if self.heading_level == 2 {
            "## "
        } else if self.heading_level == 3 {
            "### "
        } else {
            "#### "
        };
        let head = Span::styled(mark, self.theme.md_heading());
        let ghost hv = head.deep_view();
        self.spans.insert(0, head);
        assert(self.spans.deep_view() =~= seq![hv] + sv);
        self.heading_level = 0;
        self.flush_line();
        self.pop_style();
    }

    fn close_tag(&mut self, end: MdEnd)
        ensures
            final(self)@ == old(self)@.closed(end),
    {
        reveal(RenderView::closed);
        match end {
            MdEnd::Heading => self.close_heading(),
            MdEnd::Emphasis | MdEnd::Strong | MdEnd::Strikethrough | MdEnd::Link => self.pop_style(),
            MdEnd::BlockQuote => {
                self.in_blockquote = false;
                self.pop_style();
            },
            MdEnd::CodeBlock => self.end_code(),
            MdEnd::List => self.close_list(),
            MdEnd::Item => self.flush_line(),
            MdEnd::Paragraph => {
                self.flush_line();
                push_line(&mut self.lines, Line::empty());
            },
            MdEnd::Table => {
                self.flush_table();
                self.in_table = false;
                self.in_table_head = false;
                self.columns = Vec::new();
                self.rows = Vec::new();
                assert(self.rows.deep_view() =~= Seq::<Seq<LineView>>::empty());
            },
            MdEnd::TableHead => {
                self.in_table_head = false;
            },
            MdEnd::TableCell => self.close_cell(),
            MdEnd::Other => {},
        }
    }

    fn push_code_text(&mut self, text: &str)
        ensures
            final(self)@ == old(self)@.code_texted(text@),
    {
        let ghost before = self.code_lines.deep_view();
        let mut parts = split(text, "\n");
        let ghost pv = parts.deep_view();
        self.code_lines.append(&mut parts);
        let ghost all = self.code_lines.deep_view();
        assert(all =~= before + pv);
        let n: usize = self.code_lines.len();
        if n > 0 && self.code_lines[n - 1].as_str().unicode_len() == 0 {
            assert(all[n - 1] == self.code_lines@[n - 1]@);
            let _ = self.code_lines.pop();
            assert(self.code_lines.deep_view() =~= all.drop_last());
        } else if n > 0 {
            assert(all[n - 1] == self.code_lines@[n - 1]@);
        }
    }

    fn push_bullet(&mut self)
        ensures
            final(self)@ == old(self)@.bulleted(),
    {
        let n: usize = self.lists.len();
        if self.spans.len() == 0 && n > 0 {
            let half = blanks(n - 1);
            let indent = cat2(half.as_str(), half.as_str());
            assert(indent@ =~= spaces((2 * (n - 1)) as nat));
            let mark = match self.lists[n - 1] {
                Some(k) => {
                    self.lists.set(n - 1, Some(k.saturating_add(1)));
                    cat3(indent.as_str(), number(k as u128).as_str(), ". ")
                },
                None => cat2(indent.as_str(), MD_BULLET),
            };
            let theme = self.theme;
            push_span(&mut self.spans, Span::new(mark, theme.md_list_bullet()));
            assert(self.spans.deep_view() =~= seq![span_of(mark@, theme.md_list_bullet())]);
        }
    }

    fn push_text(&mut self, text: &str)
        ensures
            final(self)@ == old(self)@.texted(text@),
    {
        reveal(RenderView::texted);
        if self.in_code_block {
            self.push_code_text(text);
            return ;
        }
        let style = self.current_style();
        if self.in_table {
            let style = if self.in_table_head {
                self.theme.md_table_header()
            } else {
                style
            };
            push_span(&mut self.cell, Span::styled(text, style));
            return ;
        }
        self.push_bullet();
        let theme = self.theme;
        if self.in_blockquote && self.spans.len() == 0 {
            push_span(&mut self.spans, Span::styled("  ", theme.md_blockquote()));
            assert(self.spans.deep_view() =~= seq![span_of("  "@, theme.md_blockquote())]);
        }
        push_span(&mut self.spans, Span::styled(text, style));
    }

    fn push_inline_code(&mut self, code: &str)
        ensures
            final(self)@ == old(self)@.coded(code@),
    {
        reveal(RenderView::coded);
        let span = Span::styled(code, self.theme.md_code_inline());
        if self.in_table {
            push_span(&mut self.cell, span);
        } else {
            push_span(&mut self.spans, span);
        }
    }

    fn push_rule(&mut self)
        ensures
            final(self)@ == old(self)@.ruled(),
    {
        reveal(RenderView::ruled);
        self.flush_line();
        let rule = repeat(MD_HRULE_CHAR, RULE_LENGTH);
        assert(rule@ =~= Seq::new(RULE_LENGTH as nat, |i: int| MD_HRULE_CHAR));
        let style = self.theme.md_hr();
        push_line(&mut self.lines, Line::one(Span::new(rule, style)));
    }

    fn width_of_column(&self, c: usize) -> (r: usize)
        ensures
            r == column_width(self@.rows, c as int, self@.rows.len() as int),
    {
        let ghost rv = self@.rows;
        let mut widest: usize = 1;
        let mut i: usize = 0;
        while i < self.rows.len()
            invariant
                i <= self.rows@.len(),
                rv == self@.rows,
                widest == column_width(rv, c as int, i as int),
            decreases self.rows@.len() - i,
        {
            assert(rv[i as int] == self.rows@[i as int].deep_view());
            if c < self.rows[i].len() {
                assert(rv[i as int][c as int] == self.rows@[i as int]@[c as int].deep_view());
                let w = line_columns(&self.rows[i][c]);
                if w > widest {
                    widest = w;
                }
            }
            i = i + 1;
        }
        widest
    }

    fn widths(&self) -> (r: Vec<usize>)
        ensures
            r@ == column_widths(self@.rows, self@.columns.len()),
    {
        let ghost goal = column_widths(self@.rows, self@.columns.len());
        let mut out: Vec<usize> = Vec::new();
        let mut c: usize = 0;
        while c < self.columns.len()
            invariant
                c <= self.columns@.len(),
                goal == column_widths(self@.rows, self@.columns.len()),
                out@ == goal.take(c as int),
            decreases self.columns@.len() - c,
        {
            out.push(self.width_of_column(c));
            assert(out@ =~= goal.take(c + 1));
            c = c + 1;
        }
        assert(goal.take(c as int) =~= goal);
        out
    }

    fn build_border(&self, widths: &Vec<usize>, left: char, mid: char, right: char) -> (r: Line)
        ensures
            r.deep_view() == self@.border_line(widths@, left, mid, right),
    {
        let mut s = String::new();
        let mut i: usize = 0;
        assert(s@ =~= border(widths@, 0, left, mid));
        while i < widths.len()
            invariant
                i <= widths@.len(),
                s@ == border(widths@, i as int, left, mid),
            decreases widths@.len() - i,
        {
            push_char(
                &mut s,
                if i == 0 {
                    left
                } else {
                    mid
                },
            );
            let n: usize = widths[i].saturating_add(2);
            let bar = repeat(MD_HRULE_CHAR, n);
            assert(bar@ =~= Seq::new(
                least(widths@[i as int] + 2, usize::MAX as int) as nat,
                |i: int| MD_HRULE_CHAR,
            ));
            s.append(bar.as_str());
            i = i + 1;
        }
        push_char(&mut s, right);
        Line::one(Span::new(s, self.theme.md_table_border()))
    }

    fn push_gap(&self, spans: &mut Vec<Span>, n: usize, style: Style)
        ensures
            final(spans).deep_view() == old(spans).deep_view() + gap_span(n as int, style),
    {
        let ghost before = spans.deep_view();
        if n > 0 {
            push_span(spans, Span::new(blanks(n), style));
            assert(spans.deep_view() =~= before + gap_span(n as int, style));
        } else {
            assert(spans.deep_view() =~= before + gap_span(n as int, style));
        }
    }

    fn push_cell(&self, spans: &mut Vec<Span>, row: &Vec<Vec<Span>>, width: usize, c: usize, header: bool)
        requires
            c < self.columns@.len(),
        ensures
            final(spans).deep_view() == old(spans).deep_view() + self@.cell_spans(
                row.deep_view(),
                width,
                c as int,
                header,
            ),
    {
        let ghost before = spans.deep_view();
        let ghost rv = row.deep_view();
        let theme = self.theme;
        push_span(spans, Span::styled("│ ", theme.md_table_border()));
        assert(spans.deep_view() =~= before + seq![span_of("│ "@, theme.md_table_border())]);
        let empty: Vec<Span> = Vec::new();
        assert(empty.deep_view() =~= Seq::<SpanView>::empty());
        let content = if c < row.len() {
            assert(rv[c as int] == row@[c as int].deep_view());
            &row[c]
        } else {
            &empty
        };
        let gap: usize = width.saturating_sub(line_columns(content));
        let alignment = self.columns[c];
        let (left, right): (usize, usize) = if alignment == ALIGN_RIGHT {
            (gap, 0)
        } else if alignment == ALIGN_CENTER {
            (gap / 2, gap - gap / 2)
        } else {
            (0, gap)
        };
        let pad = if header {
            theme.md_table_header()
        } else {
            self.base_style
        };
        self.push_gap(spans, left, pad);
        push_spans(spans, content);
        self.push_gap(spans, right, pad);
        push_span(spans, Span::styled(" ", theme.md_table_border()));
        assert(spans.deep_view() =~= before + self@.cell_spans(rv, width, c as int, header));
    }

    fn build_row(&self, row: &Vec<Vec<Span>>, widths: &Vec<usize>, header: bool) -> (r: Line)
        requires
            widths@.len() == self.columns@.len(),
        ensures
            r.deep_view() == self@.row_line(row.deep_view(), widths@, header),
    {
        let mut spans: Vec<Span> = Vec::new();
        let mut c: usize = 0;
        assert(spans.deep_view() =~= self@.row_spans(row.deep_view(), widths@, header, 0));
        while c < self.columns.len()
            invariant
                c <= self.columns@.len(),
                widths@.len() == self.columns@.len(),
                spans.deep_view() == self@.row_spans(row.deep_view(), widths@, header, c as int),
            decreases self.columns@.len() - c,
        {
            self.push_cell(&mut spans, row, widths[c], c, header);
            c = c + 1;
        }
        push_span(&mut spans, Span::styled("│", self.theme.md_table_border()));
        Line { spans }
    }

    fn build_table(&self) -> (r: Vec<Line>)
        ensures
            r.deep_view() == self@.table_lines(),
    {
        reveal(RenderView::table_lines);
        let mut out: Vec<Line> = Vec::new();
        assert(out.deep_view() =~= Seq::<LineView>::empty());
        if self.columns.len() == 0 || self.rows.len() == 0 {
            return out;
        }
        let widths = self.widths();
        let ghost rv = self@.rows;
        let ghost me = self@;
        let ghost wv = widths@;
        let ghost body = Seq::new(
            (rv.len() - 1) as nat,
            |i: int| me.row_line(rv[i + 1], wv, false),
        );
        let ghost head = seq![
            me.border_line(wv, '┌', '┬', '┐'),
            me.row_line(rv[0], wv, true),
            me.border_line(wv, '├', '┼', '┤'),
        ];
        assert(rv[0] == self.rows@[0].deep_view());
        push_line(&mut out, self.build_border(&widths, '┌', '┬', '┐'));
        push_line(&mut out, self.build_row(&self.rows[0], &widths, true));
        push_line(&mut out, self.build_border(&widths, '├', '┼', '┤'));
        assert(out.deep_view() =~= head + body.take(0));
        let mut i: usize = 1;
        while i < self.rows.len()
            invariant
                1 <= i <= self.rows@.len(),
                rv == self@.rows,
                me == self@,
                wv == widths@,
                widths@.len() == self.columns@.len(),
                body == Seq::new(
                    (rv.len() - 1) as nat,
                    |i: int| me.row_line(rv[i + 1], wv, false),
                ),
                out.deep_view() == head + body.take(i - 1),
            decreases self.rows@.len() - i,
        {
            let ghost before = out.deep_view();
            assert(rv[i as int] == self.rows@[i as int].deep_view());
            push_line(&mut out, self.build_row(&self.rows[i], &widths, false));
            assert(body[i - 1] == me.row_line(rv[i as int], wv, false));
            assert(body.take(i as int) =~= body.take(i - 1).push(body[i - 1]));
            assert(out.deep_view() =~= head + body.take(i as int));
            i = i + 1;
        }
        assert(body.take(i - 1) =~= body);
        push_line(&mut out, self.build_border(&widths, '└', '┴', '┘'));
        push_line(&mut out, Line::empty());
        assert(out.deep_view() =~= head + body + seq![
            me.border_line(wv, '└', '┴', '┘'),
            Seq::empty(),
        ]);
        out
    }

    fn flush_table(&mut self)
        ensures
            final(self)@ == (RenderView {
                lines: old(self)@.lines + old(self)@.table_lines(),
                ..old(self)@
            }),
    {
        let table = self.build_table();
        push_lines(&mut self.lines, table);
    }

    fn take_event(&mut self, event: &MdEvent)
        ensures
            final(self)@ == old(self)@.step(event.deep_view()),
    {
        match event {
            MdEvent::Start(tag) => self.open_tag(tag),
            MdEvent::End(end) => self.close_tag(*end),
            MdEvent::Text(text) => self.push_text(text.as_str()),
            MdEvent::Code(code) => self.push_inline_code(code.as_str()),
            MdEvent::SoftBreak => self.push_text(" "),
            MdEvent::HardBreak => self.flush_line(),
            MdEvent::Rule => self.push_rule(),
            MdEvent::Other => {},
        }
    }
}

/// Renders events.
pub fn render_events(
    theme: &Theme,
    base_style: Style,
    events: &Vec<MdEvent>,
    hl: &Highlighter,
) -> (r: Vec<Line>)
    ensures
        r.deep_view() == event_lines(*theme, base_style, events.deep_view()),
{
    let ghost ev = events.deep_view();
    let ghost start = RenderView::start(*theme, base_style);
    let mut styles: Vec<Style> = Vec::new();
    styles.push(base_style);
    let mut ctx = RenderCtx {
        theme: *theme,
        hl,
        base_style,
        styles,
        spans: Vec::new(),
        in_code_block: false,
        code_lines: Vec::new(),
        code_lang: None,
        lists: Vec::new(),
        heading_level: 0,
        in_blockquote: false,
        in_table: false,
        in_table_head: false,
        columns: Vec::new(),
        rows: Vec::new(),
        cell: Vec::new(),
        lines: Vec::new(),
    };
    assert(ctx@ =~= start);
    assert(ev.take(0) =~= Seq::<MdEventView>::empty());
    let mut i: usize = 0;
    while i < events.len()
        invariant
            i <= events@.len(),
            ev == events.deep_view(),
            ctx@ == start.run(ev.take(i as int)),
        decreases events@.len() - i,
    {
        assert(ev[i as int] == events@[i as int].deep_view());
        assert(ev.take(i + 1).drop_last() =~= ev.take(i as int));
        ctx.take_event(&events[i]);
        i = i + 1;
    }
    assert(ev.take(i as int) =~= ev);
    ctx.flush_line();
    let mut lines = ctx.lines;
    let ghost all = lines.deep_view();
    while lines.len() > 0 && lines[lines.len() - 1].spans.len() == 0
        invariant
            without_empty_end(lines.deep_view()) == without_empty_end(all),
        decreases lines@.len(),
    {
        let ghost before = lines.deep_view();
        assert(before.last() == lines@.last().deep_view());
        let _ = lines.pop();
        assert(lines.deep_view() =~= before.drop_last());
    }
    proof {
        if lines@.len() > 0 {
            assert(lines.deep_view().last() == lines@.last().deep_view());
        }
    }
    lines
}

/// Renders a markdown text; plain text gets the base style.
pub fn render(theme: &Theme, text: &str, base_style: Style, hl: &Highlighter) -> (r: Vec<Line>)
    ensures
        r.deep_view() == markdown_lines(*theme, base_style, text@),
{
    let events = parse(text);
    render_events(theme, base_style, &events, hl)
}

/// Rendered markdown never ends in an empty line.
pub proof fn law_no_empty_line_at_the_end(theme: Theme, base_style: Style, text: Seq<char>)
    ensures
        markdown_lines(theme, base_style, text).len() > 0 ==> markdown_lines(
            theme,
            base_style,
            text,
        ).last().len() > 0,
{
    lemma_without_empty_end(
        RenderView::start(theme, base_style).run(events_of(text)).flushed().lines,
    );
}

proof fn lemma_without_empty_end(lines: Seq<LineView>)
    ensures
        without_empty_end(lines).len() > 0 ==> without_empty_end(lines).last().len() > 0,
    decreases lines.len(),
{
    if lines.len() > 0 && lines.last().len() == 0 {
        lemma_without_empty_end(lines.drop_last());
    }
}

proof fn lemma_border_length(widths: Seq<usize>, n: int, a: char, b: char, c: char, d: char)
    ensures
        border(widths, n, a, b).len() == border(widths, n, c, d).len(),
    decreases n,
{
    if n > 0 {
        lemma_border_length(widths, n - 1, a, b, c, d);
    }
}

/// The borders of a table are equally long, whatever they are made of.
pub proof fn law_borders_are_equally_long(
    r: RenderView,
    widths: Seq<usize>,
    left: char,
    mid: char,
    right: char,
    left2: char,
    mid2: char,
    right2: char,
)
    ensures
        r.border_line(widths, left, mid, right)[0].content.len() == r.border_line(
            widths,
            left2,
            mid2,
            right2,
        )[0].content.len(),
{
    lemma_border_length(widths, widths.len() as int, left, mid, left2, mid2);
}

} // verus!
