//! Code blocks with coloured syntax.
use crate::diff::{strip_newlines, without_newlines};
use crate::seqs::first_index;
use crate::style::{span_of, Color, Line, LineView, Span, SpanView, Style};
use crate::text::{align_right, cat2, count_text, decimal, from_chars, is_char, right_aligned, to_chars};
use crate::theme::Theme;
use syntect::easy::HighlightLines;
use syntect::highlighting::FontStyle;
use vstd::prelude::*;

verus! {

#[verifier::external_type_specification]
#[verifier::external_body]
pub struct ExSyntaxSet(syntect::parsing::SyntaxSet);

#[verifier::external_type_specification]
#[verifier::external_body]
pub struct ExThemeSet(syntect::highlighting::ThemeSet);

/// The bundled syntaxes, and the bundled themes that colour them.
pub struct Highlighter {
    syntaxes: syntect::parsing::SyntaxSet,
    colours: syntect::highlighting::ThemeSet,
}

/// The bundled theme that colours code.
pub const CODE_COLOURS: &'static str = "base16-eighties.dark";

/// A coloured piece of a line of code.
#[derive(Debug)]
pub struct Piece {
    pub text: String,
    pub color: Color,
    pub bold: bool,
    pub italic: bool,
    pub underlined: bool,
}

#[verifier::ext_equal]
pub struct PieceView {
    pub text: Seq<char>,
    pub color: Color,
    pub bold: bool,
    pub italic: bool,
    pub underlined: bool,
}

impl DeepView for Piece {
    type V = PieceView;

    open spec fn deep_view(&self) -> PieceView {
        PieceView {
            text: self.text@,
            color: self.color,
            bold: self.bold,
            italic: self.italic,
            underlined: self.underlined,
        }
    }
}

#[verifier::external_type_specification]
#[verifier::external_body]
pub struct ExHighlightLines<'a>(syntect::easy::HighlightLines<'a>);

/// Whether `syntect` has a bundled syntax for a token: the name of a language, or
/// an extension of its files.
pub uninterp spec fn syntax_known(token: Seq<char>) -> bool;

/// The pieces that `syntect` finds in each of some lines in the syntax of a token,
/// coloured by one of its bundled themes; nothing for a line that it cannot parse.
pub uninterp spec fn pieces_in(
    token: Seq<char>,
    colours: Seq<char>,
    code: Seq<Seq<char>>,
) -> Seq<Option<Seq<PieceView>>>;

/// The pieces that `syntect` finds in each of some lines of plain text, coloured by
/// one of its bundled themes; nothing for a line that it cannot parse.
pub uninterp spec fn plain_pieces(colours: Seq<char>, code: Seq<Seq<char>>) -> Seq<
    Option<Seq<PieceView>>,
>;

/// The pieces that a `HighlightLines` finds in each of the lines that it is given
/// next.
pub uninterp spec fn next_pieces(h: HighlightLines<'_>, code: Seq<Seq<char>>) -> Seq<
    Option<Seq<PieceView>>,
>;

impl Highlighter {
    /// `SyntaxSet::load_defaults_newlines` and `ThemeSet::load_defaults`: the
    /// sets that are compiled into `syntect`.  Nothing is claimed of the result;
    /// every highlighter is made here.
    #[verifier::external_body]
    pub fn new() -> (r: Highlighter)
    {
        Highlighter {
            syntaxes: syntect::parsing::SyntaxSet::load_defaults_newlines(),
            colours: syntect::highlighting::ThemeSet::load_defaults(),
        }
    }

    /// `SyntaxSet::find_syntax_by_token`: whether it finds a syntax, a function of
    /// the token.
    #[verifier::external_body]
    fn knows(&self, token: &str) -> (r: bool)
        ensures
            r == syntax_known(token@),
    {
        self.syntaxes.find_syntax_by_token(token).is_some()
    }

    /// `HighlightLines::new` in the syntax that `find_syntax_by_token` gives: what it
    /// will find in lines, one result for each, is a function of the token, the theme
    /// and the lines.  The theme is one that `syntect` brings along.
    #[verifier::external_body]
    fn start_in<'a>(&'a self, token: &str, colours: &str) -> (r: HighlightLines<'a>)
        requires
            syntax_known(token@),
            colours@ == CODE_COLOURS@,
        ensures
            forall|code: Seq<Seq<char>>| #[trigger]
                next_pieces(r, code) == pieces_in(token@, colours@, code) && next_pieces(
                    r,
                    code,
                ).len() == code.len(),
    {
        let syntax = self.syntaxes.find_syntax_by_token(token).unwrap();
        HighlightLines::new(syntax, &self.colours.themes[colours])
    }

    /// `HighlightLines::new` in the syntax that `find_syntax_plain_text` gives: what
    /// it will find in lines, one result for each, is a function of the theme and the
    /// lines.  The theme is one that `syntect` brings along.
    #[verifier::external_body]
    fn start_plain<'a>(&'a self, colours: &str) -> (r: HighlightLines<'a>)
        requires
            colours@ == CODE_COLOURS@,
        ensures
            forall|code: Seq<Seq<char>>| #[trigger]
                next_pieces(r, code) == plain_pieces(colours@, code) && next_pieces(
                    r,
                    code,
                ).len() == code.len(),
    {
        HighlightLines::new(self.syntaxes.find_syntax_plain_text(), &self.colours.themes[colours])
    }

    /// `HighlightLines::highlight_line`: what it finds in the line, or nothing where
    /// it fails, is what it was bound to find there; what it finds in lines that
    /// come later is what it was bound to find behind this line.
    #[verifier::external_body]
    fn read_line(&self, h: &mut HighlightLines<'_>, line: &str) -> (r: Option<Vec<Piece>>)
        ensures
            forall|code: Seq<Seq<char>>| #[trigger]
                next_pieces(*old(h), seq![line@] + code) == seq![r.deep_view()] + next_pieces(
                    *final(h),
                    code,
                ),
    {
        h.highlight_line(line, &self.syntaxes).ok().map(|found| found.iter().map(|(s, t)| Piece {
            text: t.to_string(),
            color: Color { r: s.foreground.r, g: s.foreground.g, b: s.foreground.b },
            bold: s.font_style.contains(FontStyle::BOLD),
            italic: s.font_style.contains(FontStyle::ITALIC),
            underlined: s.font_style.contains(FontStyle::UNDERLINE),
        }).collect())
    }
}

/// The lines of a text, each with the line break that ends it.
pub open spec fn ended_lines(s: Seq<char>) -> Seq<Seq<char>>
    decreases s.len(),
{
    if s.len() == 0 {
        Seq::empty()
    } else {
        match first_index(s, is_char('\n')) {
            Some(k) => if 0 <= k < s.len() {
                seq![s.take(k + 1)] + ended_lines(s.skip(k + 1))
            } else {
                seq![s]
            },
            None => seq![s],
        }
    }
}

/// The style of a piece, on the background of code blocks.
pub open spec fn piece_style(theme: Theme, p: PieceView) -> Style {
    Style {
        fg: Some(p.color),
        bg: Some(theme.bg_card()),
        bold: p.bold,
        italic: p.italic,
        underlined: p.underlined,
        crossed_out: false,
    }
}

/// A piece as a span.
pub open spec fn piece_span(theme: Theme) -> spec_fn(PieceView) -> SpanView {
    |p: PieceView| span_of(p.text, piece_style(theme, p))
}

/// A line of code with its number: its pieces, or its bare text where there
/// are none.
pub open spec fn code_row(
    theme: Theme,
    code: Seq<Seq<char>>,
    found: Seq<Option<Seq<PieceView>>>,
    i: int,
) -> LineView {
    seq![
        span_of(" "@, theme.md_code_block()),
        span_of(
            right_aligned(decimal((i + 1) as nat), decimal(code.len()).len()) + " "@,
            theme.md_code_line_nr(),
        ),
    ] + match found[i] {
        Some(pieces) => pieces.map_values(piece_span(theme)),
        None => seq![span_of(without_newlines(code[i]), theme.md_code_block())],
    }
}

/// The lines of a code block with their numbers.
pub open spec fn code_rows(
    theme: Theme,
    code: Seq<Seq<char>>,
    found: Seq<Option<Seq<PieceView>>>,
) -> Seq<LineView> {
    Seq::new(code.len(), |i: int| code_row(theme, code, found, i))
}

/// The pieces of each line of code in a language; where there is none, or none that
/// is known, those of plain text.
pub open spec fn highlighted(lang: Option<Seq<char>>, code: Seq<Seq<char>>) -> Seq<
    Option<Seq<PieceView>>,
> {
    match lang {
        Some(token) if syntax_known(token) => pieces_in(token, CODE_COLOURS@, code),
        _ => plain_pieces(CODE_COLOURS@, code),
    }
}

/// What a code block looks like.
pub open spec fn code_block(theme: Theme, code: Seq<char>, lang: Option<Seq<char>>) -> Seq<
    LineView,
> {
    let all = ended_lines(code);
    code_rows(theme, all, highlighted(lang, all))
}

/// Code in a language that is not known looks like code without a language.
pub proof fn law_unknown_language_is_plain(theme: Theme, code: Seq<char>, token: Seq<char>)
    requires
        !syntax_known(token),
    ensures
        code_block(theme, code, Some(token)) == code_block(theme, code, None),
{
}

/// The lines of a text, each with the line break that ends it.
pub fn lines_with_endings(s: &str) -> (r: Vec<String>)
    ensures
        r.deep_view() == ended_lines(s@),
{
    let v = to_chars(s);
    let n: usize = v.len();
    let ghost all = s@;
    let mut out: Vec<String> = Vec::new();
    let mut start: usize = 0;
    let mut i: usize = 0;
    assert(all.skip(0) =~= all);
    assert(out.deep_view() + ended_lines(all) =~= ended_lines(all));
    while i < n
        invariant
            start <= i <= n,
            n == v@.len(),
            v@ == all,
            all == s@,
            forall|j: int| start <= j < i ==> all[j] != '\n',
            out.deep_view() + ended_lines(all.skip(start as int)) == ended_lines(all),
        decreases n - i,
    {
        if v[i] == '\n' {
            let ghost before = out.deep_view();
            let ghost rest = all.skip(start as int);
            let line = from_chars(&v, start, i + 1);
            out.push(line);
            proof {
                let p = is_char('\n');
                assert forall|j: int| 0 <= j < i - start implies !p(#[trigger] rest[j]) by {
                    assert(rest[j] == all[start + j]);
                }
                assert(p(rest[i - start]));
                crate::seqs::lemma_first_is(rest, p, i - start);
                assert(rest.take(i - start + 1) =~= line@);
                assert(rest.skip(i - start + 1) =~= all.skip(i + 1));
                assert(out.deep_view() =~= before.push(line@));
                assert(out.deep_view() + ended_lines(all.skip(i + 1)) =~= before + (seq![line@]
                    + ended_lines(all.skip(i + 1))));
            }
            start = i + 1;
        }
        i = i + 1;
    }
    if start < n {
        let ghost before = out.deep_view();
        let ghost rest = all.skip(start as int);
        let line = from_chars(&v, start, n);
        out.push(line);
        proof {
            let p = is_char('\n');
            assert forall|j: int| 0 <= j < rest.len() implies !p(#[trigger] rest[j]) by {
                assert(rest[j] == all[start + j]);
            }
            crate::seqs::lemma_first_none(rest, p);
            assert(rest =~= line@);
            assert(out.deep_view() =~= before.push(line@));
            assert(before + seq![rest] =~= before.push(rest));
        }
    } else {
        assert(out.deep_view() + Seq::<Seq<char>>::empty() =~= out.deep_view());
    }
    out
}

/// Lays out the lines of a code block, given the pieces found in each.
pub fn lay_out_code(
    theme: &Theme,
    code: &Vec<String>,
    found: &Vec<Option<Vec<Piece>>>,
) -> (r: Vec<Line>)
    requires
        found@.len() == code@.len(),
    ensures
        r.deep_view() == code_rows(*theme, code.deep_view(), found.deep_view()),
{
    let ghost cv = code.deep_view();
    let ghost fv = found.deep_view();
    let gutter: usize = count_text(code.len()).as_str().unicode_len();
    let mut out: Vec<Line> = Vec::new();
    let mut i: usize = 0;
    while i < code.len()
        invariant
            i <= code@.len(),
            found@.len() == code@.len(),
            cv == code.deep_view(),
            fv == found.deep_view(),
            gutter == decimal(cv.len()).len(),
            out.deep_view() == code_rows(*theme, cv, fv).take(i as int),
        decreases code@.len() - i,
    {
        let ghost before = out.deep_view();
        assert(cv[i as int] == code@[i as int]@);
        assert(fv[i as int] == found@[i as int].deep_view());
        let nr = align_right(number_text(i).as_str(), gutter);
        let head = Line::two(
            Span::styled(" ", theme.md_code_block()),
            Span::new(cat2(nr.as_str(), " "), theme.md_code_line_nr()),
        );
        let ghost hv = head.deep_view();
        let mut spans = head.spans;
        match &found[i] {
            Some(pieces) => {
                push_pieces(theme, pieces, &mut spans);
            },
            None => {
                spans.push(
                    Span::new(strip_newlines(code[i].as_str()), theme.md_code_block()),
                );
                assert(spans.deep_view() =~= hv + seq![
                    span_of(without_newlines(cv[i as int]), theme.md_code_block()),
                ]);
            },
        }
        let line = Line { spans };
        assert(line.deep_view() == code_row(*theme, cv, fv, i as int));
        out.push(line);
        assert(out.deep_view() =~= before.push(code_row(*theme, cv, fv, i as int)));
        assert(code_rows(*theme, cv, fv).take(i + 1) =~= code_rows(*theme, cv, fv).take(
            i as int,
        ).push(code_row(*theme, cv, fv, i as int)));
        i = i + 1;
    }
    assert(code_rows(*theme, cv, fv).take(i as int) =~= code_rows(*theme, cv, fv));
    out
}

fn number_text(i: usize) -> (r: String)
    requires
        i < usize::MAX,
    ensures
        r@ == decimal((i + 1) as nat),
{
    count_text(i + 1)
}

fn push_pieces(theme: &Theme, pieces: &Vec<Piece>, spans: &mut Vec<Span>)
    ensures
        final(spans).deep_view() == old(spans).deep_view() + pieces.deep_view().map_values(
            piece_span(*theme),
        ),
{
    let ghost base = spans.deep_view();
    let ghost pv = pieces.deep_view();
    let ghost f = piece_span(*theme);
    let mut k: usize = 0;
    assert(spans.deep_view() =~= base + pv.take(0).map_values(f));
    while k < pieces.len()
        invariant
            k <= pieces@.len(),
            pv == pieces.deep_view(),
            f == piece_span(*theme),
            spans.deep_view() == base + pv.take(k as int).map_values(f),
        decreases pieces@.len() - k,
    {
        let ghost before = spans.deep_view();
        let p = &pieces[k];
        assert(pv[k as int] == p.deep_view());
        spans.push(
            Span::styled(
                p.text.as_str(),
                Style {
                    fg: Some(p.color),
                    bg: Some(theme.bg_card()),
                    bold: p.bold,
                    italic: p.italic,
                    underlined: p.underlined,
                    crossed_out: false,
                },
            ),
        );
        assert(spans.deep_view() =~= before.push(f(pv[k as int])));
        assert(pv.take(k + 1).map_values(f) =~= pv.take(k as int).map_values(f).push(
            f(pv[k as int]),
        ));
        k = k + 1;
    }
    assert(pv.take(k as int) =~= pv);
}

impl Highlighter {
    /// The pieces of each line of code in a language, or in plain text.
    fn highlight_lines(&self, code: &Vec<String>, lang: &Option<String>) -> (r: Vec<
        Option<Vec<Piece>>,
    >)
        ensures
            r.deep_view() == highlighted(lang.deep_view(), code.deep_view()),
            r@.len() == code@.len(),
    {
        let ghost cv = code.deep_view();
        let mut h = match lang {
            Some(token) => {
                if self.knows(token.as_str()) {
                    self.start_in(token.as_str(), CODE_COLOURS)
                } else {
                    self.start_plain(CODE_COLOURS)
                }
            },
            None => self.start_plain(CODE_COLOURS),
        };
        let ghost goal = next_pieces(h, cv);
        assert(goal.len() == cv.len());
        assert(goal == highlighted(lang.deep_view(), cv));
        let mut out: Vec<Option<Vec<Piece>>> = Vec::new();
        let mut i: usize = 0;
        assert(cv.skip(0) =~= cv);
        assert(out.deep_view() + next_pieces(h, cv.skip(0)) =~= goal);
        while i < code.len()
            invariant
                i <= code@.len(),
                cv == code.deep_view(),
                out.deep_view() + next_pieces(h, cv.skip(i as int)) == goal,
                out@.len() == i,
                goal.len() == cv.len(),
            decreases code@.len() - i,
        {
            let ghost before = out.deep_view();
            assert(cv[i as int] == code@[i as int]@);
            assert(cv.skip(i as int) =~= seq![cv[i as int]] + cv.skip(i + 1));
            let found = self.read_line(&mut h, code[i].as_str());
            let ghost fv = found.deep_view();
            out.push(found);
            assert(out.deep_view() =~= before.push(fv));
            assert(before + (seq![fv] + next_pieces(h, cv.skip(i + 1))) =~= before.push(fv)
                + next_pieces(h, cv.skip(i + 1)));
            i = i + 1;
        }
        assert(out.deep_view() =~= goal);
        out
    }

    /// What a code block looks like: its lines with their numbers, coloured as
    /// its language asks; a language that is not known is taken as plain text.
    pub fn highlight_block(&self, theme: &Theme, code: &str, lang: &Option<String>) -> (r: Vec<
        Line,
    >)
        ensures
            r.deep_view() == code_block(*theme, code@, lang.deep_view()),
    {
        let all = lines_with_endings(code);
        let found = self.highlight_lines(&all, lang);
        lay_out_code(theme, &all, &found)
    }
}

} // verus!
