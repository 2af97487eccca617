//! Styled text: what is drawn, before a terminal library draws it.
use crate::text::{lines, split_lines};
use vstd::prelude::*;

verus! {

/// A 24-bit colour.
#[derive(Clone, Copy, Debug, PartialEq, Eq, Structural)]
pub struct Color {
    pub r: u8,
    pub g: u8,
    pub b: u8,
}

/// How a piece of text looks.  `None` leaves the colour of what is below.
#[derive(Clone, Copy, Debug, PartialEq, Eq, Structural)]
pub struct Style {
    pub fg: Option<Color>,
    pub bg: Option<Color>,
    pub bold: bool,
    pub italic: bool,
    pub underlined: bool,
    pub crossed_out: bool,
}

impl Style {
    /// No colour and no attribute.
    #[verifier::allow_in_spec]
    pub fn plain() -> Style
        returns
            (Style {
                fg: None,
                bg: None,
                bold: false,
                italic: false,
                underlined: false,
                crossed_out: false,
            }),
    {
        Style {
            fg: None,
            bg: None,
            bold: false,
            italic: false,
            underlined: false,
            crossed_out: false,
        }
    }

    #[verifier::allow_in_spec]
    pub fn fg(self, c: Color) -> Style
        returns
            (Style { fg: Some(c), ..self }),
    {
        Style { fg: Some(c), ..self }
    }

    #[verifier::allow_in_spec]
    pub fn bg(self, c: Color) -> Style
        returns
            (Style { bg: Some(c), ..self }),
    {
        Style { bg: Some(c), ..self }
    }

    #[verifier::allow_in_spec]
    pub fn bold(self) -> Style
        returns
            (Style { bold: true, ..self }),
    {
        Style { bold: true, ..self }
    }

    #[verifier::allow_in_spec]
    pub fn italic(self) -> Style
        returns
            (Style { italic: true, ..self }),
    {
        Style { italic: true, ..self }
    }

    #[verifier::allow_in_spec]
    pub fn underlined(self) -> Style
        returns
            (Style { underlined: true, ..self }),
    {
        Style { underlined: true, ..self }
    }

    #[verifier::allow_in_spec]
    pub fn crossed_out(self) -> Style
        returns
            (Style { crossed_out: true, ..self }),
    {
        Style { crossed_out: true, ..self }
    }
}

/// A run of text in one style.
#[derive(Debug, PartialEq, Eq)]
pub struct Span {
    pub content: String,
    pub style: Style,
}

#[verifier::ext_equal]
pub struct SpanView {
    pub content: Seq<char>,
    pub style: Style,
}

impl DeepView for Span {
    type V = SpanView;

    open spec fn deep_view(&self) -> SpanView {
        SpanView { content: self.content@, style: self.style }
    }
}

/// The model of a span.
pub open spec fn span_of(content: Seq<char>, style: Style) -> SpanView {
    SpanView { content, style }
}

impl Span {
    /// A span that takes over `content`.
    pub fn new(content: String, style: Style) -> (r: Span)
        ensures
            r.deep_view() == span_of(content@, style),
    {
        Span { content, style }
    }

    /// A span with a copy of `content`.
    pub fn styled(content: &str, style: Style) -> (r: Span)
        ensures
            r.deep_view() == span_of(content@, style),
    {
        Span { content: content.to_owned(), style }
    }
}

impl Clone for Span {
    fn clone(&self) -> (r: Self)
        ensures
            r.deep_view() == self.deep_view(),
    {
        Span { content: self.content.clone(), style: self.style }
    }
}

/// One line of styled text.
#[derive(Debug, PartialEq, Eq)]
pub struct Line {
    pub spans: Vec<Span>,
}

/// The model of a line: its spans.
pub type LineView = Seq<SpanView>;

impl DeepView for Line {
    type V = LineView;

    open spec fn deep_view(&self) -> LineView {
        self.spans.deep_view()
    }
}

impl Clone for Line {
    fn clone(&self) -> (r: Self)
        ensures
            r.deep_view() == self.deep_view(),
    {
        let r = Line { spans: self.spans.clone() };
        assert(r.spans.deep_view() =~= self.spans.deep_view());
        r
    }
}

impl Line {
    /// A line of one span.
    pub fn one(span: Span) -> (r: Line)
        ensures
            r.deep_view() == seq![span.deep_view()],
    {
        let mut spans: Vec<Span> = Vec::new();
        spans.push(span);
        let r = Line { spans };
        assert(r.deep_view() =~= seq![span.deep_view()]);
        r
    }

    /// A line of two spans.
    pub fn two(a: Span, b: Span) -> (r: Line)
        ensures
            r.deep_view() == seq![a.deep_view(), b.deep_view()],
    {
        let mut spans: Vec<Span> = Vec::new();
        spans.push(a);
        spans.push(b);
        let r = Line { spans };
        assert(r.deep_view() =~= seq![a.deep_view(), b.deep_view()]);
        r
    }

    /// A line without any span.
    pub fn empty() -> (r: Line)
        ensures
            r.deep_view() == Seq::<SpanView>::empty(),
    {
        let r = Line { spans: Vec::new() };
        assert(r.deep_view() =~= Seq::<SpanView>::empty());
        r
    }
}

/// A copy of styled lines.
pub fn copy_lines(v: &Vec<Line>) -> (r: Vec<Line>)
    ensures
        r.deep_view() == v.deep_view(),
{
    let r = v.clone();
    assert(r.deep_view() =~= v.deep_view());
    r
}

/// Puts a line behind others.
pub fn push_line(lines: &mut Vec<Line>, line: Line)
    ensures
        final(lines).deep_view() == old(lines).deep_view().push(line.deep_view()),
{
    let ghost before = lines.deep_view();
    lines.push(line);
    assert(lines.deep_view() =~= before.push(line.deep_view()));
}

/// Puts a span behind others.
pub fn push_span(spans: &mut Vec<Span>, span: Span)
    ensures
        final(spans).deep_view() == old(spans).deep_view().push(span.deep_view()),
{
    let ghost before = spans.deep_view();
    spans.push(span);
    assert(spans.deep_view() =~= before.push(span.deep_view()));
}

/// Puts lines behind others.
pub fn push_lines(lines: &mut Vec<Line>, more: Vec<Line>)
    ensures
        final(lines).deep_view() == old(lines).deep_view() + more.deep_view(),
{
    let ghost before = lines.deep_view();
    let ghost mv = more.deep_view();
    let mut more = more;
    lines.append(&mut more);
    assert(lines.deep_view() =~= before + mv);
}

/// Puts copies of spans behind others.
pub fn push_spans(spans: &mut Vec<Span>, more: &Vec<Span>)
    ensures
        final(spans).deep_view() == old(spans).deep_view() + more.deep_view(),
{
    let ghost before = spans.deep_view();
    let mut copy = more.clone();
    assert(copy.deep_view() =~= more.deep_view());
    let ghost mv = copy.deep_view();
    spans.append(&mut copy);
    assert(spans.deep_view() =~= before + mv);
}

/// A text as one line: a span without a style for each of its lines.
pub open spec fn raw_line(text: Seq<char>) -> LineView {
    lines(text).map_values(plain_span())
}

/// A span without a style.
pub open spec fn plain_span() -> spec_fn(Seq<char>) -> SpanView {
    |s: Seq<char>| span_of(s, Style::plain())
}

impl Line {
    /// A text as one line: a span without a style for each of its lines.
    pub fn raw(text: &str) -> (r: Line)
        ensures
            r.deep_view() == raw_line(text@),
    {
        let parts = split_lines(text);
        let ghost pv = parts.deep_view();
        let ghost f = plain_span();
        let mut spans: Vec<Span> = Vec::new();
        assert(spans.deep_view() =~= pv.take(0).map_values(f));
        let mut i: usize = 0;
        while i < parts.len()
            invariant
                i <= parts@.len(),
                pv == parts.deep_view(),
                f == plain_span(),
                spans.deep_view() == pv.take(i as int).map_values(f),
            decreases parts@.len() - i,
        {
            assert(pv[i as int] == parts@[i as int]@);
            push_span(&mut spans, Span::styled(parts[i].as_str(), Style::plain()));
            assert(pv.take(i + 1).map_values(f) =~= pv.take(i as int).map_values(f).push(
                f(pv[i as int]),
            ));
            i = i + 1;
        }
        assert(pv.take(i as int) =~= pv);
        Line { spans }
    }

    /// A line of three spans.
    pub fn three(a: Span, b: Span, c: Span) -> (r: Line)
        ensures
            r.deep_view() == seq![a.deep_view(), b.deep_view(), c.deep_view()],
    {
        let mut spans: Vec<Span> = Vec::new();
        spans.push(a);
        spans.push(b);
        spans.push(c);
        let r = Line { spans };
        assert(r.deep_view() =~= seq![a.deep_view(), b.deep_view(), c.deep_view()]);
        r
    }
}

} // verus!
