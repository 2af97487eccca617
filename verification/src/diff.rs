//! The lines that show a change of a file.
use crate::style::{span_of, Line, LineView, Span};
use crate::text::{
    align_right, blanks, count_text, decimal, from_chars, lines, number, right_aligned, split_lines,
    spaces, to_chars,
};
use crate::theme::Theme;
use vstd::prelude::*;

verus! {

/// Whether a piece of text stands in both versions, in the old or in the new.
#[derive(Clone, Copy, Debug, PartialEq, Eq, Structural)]
pub enum ChangeTag {
    Equal,
    Delete,
    Insert,
}

/// A piece of text with its tag.
pub type ChangeView = (ChangeTag, Seq<char>);

impl DeepView for ChangeTag {
    type V = ChangeTag;

    open spec fn deep_view(&self) -> ChangeTag {
        *self
    }
}

/// The changes that `similar`'s line diff lists between two texts.
pub uninterp spec fn line_changes(old_text: Seq<char>, new_text: Seq<char>) -> Seq<ChangeView>;

/// The changes that `similar`'s character diff lists between two texts.
pub uninterp spec fn char_changes(old_text: Seq<char>, new_text: Seq<char>) -> Seq<ChangeView>;

/// `similar::TextDiff::from_lines` and its `iter_all_changes`: the tag and the
/// value of each change, a function of the two texts.
#[verifier::external_body]
fn diff_by_lines(old_text: &str, new_text: &str) -> (r: Vec<(ChangeTag, String)>)
    ensures
        r.deep_view() == line_changes(old_text@, new_text@),
{
    let diff = similar::TextDiff::from_lines(old_text, new_text);
    diff.iter_all_changes().map(|c| {
        let tag = match c.tag() {
            similar::ChangeTag::Equal => ChangeTag::Equal,
            similar::ChangeTag::Delete => ChangeTag::Delete,
            similar::ChangeTag::Insert => ChangeTag::Insert,
        };
        (tag, c.value().to_string())
    }).collect()
}

/// One version of a text: what is equal and what only this version has.
pub open spec fn version(changes: Seq<ChangeView>, own: ChangeTag) -> Seq<char>
    decreases changes.len(),
{
    if changes.len() == 0 {
        Seq::empty()
    } else {
        let before = version(changes.drop_last(), own);
        let (tag, text) = changes.last();
        if tag == ChangeTag::Equal || tag == own {
            before + text
        } else {
            before
        }
    }
}

/// `similar::TextDiff::from_chars` and its `iter_all_changes`: the tag and the
/// value of each change, a function of the two texts, either of which can be put
/// together from the changes.
#[verifier::external_body]
fn diff_by_chars(old_text: &str, new_text: &str) -> (r: Vec<(ChangeTag, String)>)
    ensures
        r.deep_view() == char_changes(old_text@, new_text@),
        version(r.deep_view(), ChangeTag::Delete) == old_text@,
        version(r.deep_view(), ChangeTag::Insert) == new_text@,
{
    let diff = similar::TextDiff::from_chars(old_text, new_text);
    diff.iter_all_changes().map(|c| {
        let tag = match c.tag() {
            similar::ChangeTag::Equal => ChangeTag::Equal,
            similar::ChangeTag::Delete => ChangeTag::Delete,
            similar::ChangeTag::Insert => ChangeTag::Insert,
        };
        (tag, c.value().to_string())
    }).collect()
}

// ── inside a line ────────────────────────────────────────────────────────────

/// A piece of text, and whether it differs from the other version.
pub type PartView = (Seq<char>, bool);

/// Appends a piece to parts, joined to the last one where both or neither
/// differ.
pub open spec fn with_part(parts: Seq<PartView>, text: Seq<char>, differs: bool) -> Seq<PartView> {
    if parts.len() > 0 && parts.last().1 == differs {
        parts.drop_last().push((parts.last().0 + text, differs))
    } else {
        parts.push((text, differs))
    }
}

/// The parts of one version: what is equal and what only this version has.
pub open spec fn parts_of(changes: Seq<ChangeView>, own: ChangeTag) -> Seq<PartView>
    decreases changes.len(),
{
    if changes.len() == 0 {
        Seq::empty()
    } else {
        let before = parts_of(changes.drop_last(), own);
        let (tag, text) = changes.last();
        if tag == ChangeTag::Equal {
            with_part(before, text, false)
        } else if tag == own {
            with_part(before, text, true)
        } else {
            before
        }
    }
}

/// The spans of parts: `hl` where they differ, `plain` elsewhere.
pub open spec fn part_spans(
    parts: Seq<PartView>,
    plain: crate::style::Style,
    hl: crate::style::Style,
) -> LineView {
    parts.map_values(
        |p: PartView|
            span_of(
                p.0,
                if p.1 {
                    hl
                } else {
                    plain
                },
            ),
    )
}

fn push_part(parts: &mut Vec<(String, bool)>, text: &str, differs: bool)
    ensures
        final(parts).deep_view() == with_part(old(parts).deep_view(), text@, differs),
{
    let n: usize = parts.len();
    if n > 0 && parts[n - 1].1 == differs {
        let ghost before = parts.deep_view();
        let mut last = parts.pop().unwrap();
        last.0.append(text);
        parts.push(last);
        assert(parts.deep_view() =~= with_part(before, text@, differs));
    } else {
        let ghost before = parts.deep_view();
        parts.push((text.to_owned(), differs));
        assert(parts.deep_view() =~= before.push((text@, differs)));
    }
}

fn parts(changes: &Vec<(ChangeTag, String)>, own: ChangeTag) -> (r: Vec<(String, bool)>)
    ensures
        r.deep_view() == parts_of(changes.deep_view(), own),
{
    let mut out: Vec<(String, bool)> = Vec::new();
    let ghost cv = changes.deep_view();
    let mut i: usize = 0;
    assert(out.deep_view() =~= parts_of(cv.take(0), own));
    while i < changes.len()
        invariant
            i <= changes@.len(),
            cv == changes.deep_view(),
            out.deep_view() == parts_of(cv.take(i as int), own),
        decreases changes@.len() - i,
    {
        assert(cv.take(i + 1).drop_last() =~= cv.take(i as int));
        assert(cv.take(i + 1).last() == cv[i as int]);
        let tag = changes[i].0;
        if tag == ChangeTag::Equal {
            push_part(&mut out, changes[i].1.as_str(), false);
        } else if tag == own {
            push_part(&mut out, changes[i].1.as_str(), true);
        }
        i = i + 1;
    }
    assert(cv.take(cv.len() as int) =~= cv);
    out
}

fn spans_of_parts(
    parts: Vec<(String, bool)>,
    plain: crate::style::Style,
    hl: crate::style::Style,
) -> (r: Vec<Span>)
    ensures
        r.deep_view() == part_spans(parts.deep_view(), plain, hl),
{
    let mut out: Vec<Span> = Vec::new();
    let ghost pv = parts.deep_view();
    let mut i: usize = 0;
    while i < parts.len()
        invariant
            i <= parts@.len(),
            pv == parts.deep_view(),
            out.deep_view() == part_spans(pv, plain, hl).take(i as int),
        decreases parts@.len() - i,
    {
        let ghost before = out.deep_view();
        let style = if parts[i].1 {
            hl
        } else {
            plain
        };
        out.push(Span::styled(parts[i].0.as_str(), style));
        assert(out.deep_view() =~= before.push(part_spans(pv, plain, hl)[i as int]));
        assert(out.deep_view() =~= part_spans(pv, plain, hl).take(i + 1));
        i = i + 1;
    }
    assert(out.deep_view() =~= part_spans(pv, plain, hl));
    out
}

/// The spans of a removed line and of the line that replaces it, when their
/// changes are known.
pub fn inline_spans(theme: &Theme, changes: &Vec<(ChangeTag, String)>) -> (r: (
    Vec<Span>,
    Vec<Span>,
))
    ensures
        r.0.deep_view() == part_spans(
            parts_of(changes.deep_view(), ChangeTag::Delete),
            theme.diff_removed(),
            theme.diff_removed_hl(),
        ),
        r.1.deep_view() == part_spans(
            parts_of(changes.deep_view(), ChangeTag::Insert),
            theme.diff_added(),
            theme.diff_added_hl(),
        ),
{
    (
        spans_of_parts(
            parts(changes, ChangeTag::Delete),
            theme.diff_removed(),
            theme.diff_removed_hl(),
        ),
        spans_of_parts(
            parts(changes, ChangeTag::Insert),
            theme.diff_added(),
            theme.diff_added_hl(),
        ),
    )
}

/// What spans say, one after the other.
pub open spec fn spans_text(spans: LineView) -> Seq<char>
    decreases spans.len(),
{
    if spans.len() == 0 {
        Seq::empty()
    } else {
        spans_text(spans.drop_last()) + spans.last().content
    }
}

proof fn lemma_spans_text_push(spans: LineView, span: crate::style::SpanView)
    ensures
        spans_text(spans.push(span)) == spans_text(spans) + span.content,
{
    assert(spans.push(span).drop_last() =~= spans);
}

/// The spans of a version say what the version says, whatever is highlighted.
pub proof fn law_highlighting_keeps_the_text(
    changes: Seq<ChangeView>,
    own: ChangeTag,
    plain: crate::style::Style,
    hl: crate::style::Style,
)
    ensures
        spans_text(part_spans(parts_of(changes, own), plain, hl)) == version(changes, own),
    decreases changes.len(),
{
    if changes.len() > 0 {
        law_highlighting_keeps_the_text(changes.drop_last(), own, plain, hl);
        let before = parts_of(changes.drop_last(), own);
        let (tag, text) = changes.last();
        if tag == ChangeTag::Equal || tag == own {
            let after = with_part(before, text, tag != ChangeTag::Equal);
            assert(parts_of(changes, own) == after);
            let lead = after.drop_last();
            let spans = part_spans(after, plain, hl);
            assert(spans =~= part_spans(lead, plain, hl).push(spans.last()));
            lemma_spans_text_push(part_spans(lead, plain, hl), spans.last());
            if before.len() > 0 && before.last().1 == (tag != ChangeTag::Equal) {
                let old_spans = part_spans(before, plain, hl);
                assert(lead =~= before.drop_last());
                assert(old_spans =~= part_spans(lead, plain, hl).push(old_spans.last()));
                lemma_spans_text_push(part_spans(lead, plain, hl), old_spans.last());
                assert(spans_text(spans) =~= spans_text(old_spans) + text);
            } else {
                assert(lead =~= before);
            }
        }
    }
}

/// The spans of a removed line and of the line that replaces it, with the
/// characters that differ highlighted.
pub fn inline_diff(theme: &Theme, old_text: &str, new_text: &str) -> (r: (Vec<Span>, Vec<Span>))
    ensures
        r.0.deep_view() == removed_spans(*theme, old_text@, new_text@),
        r.1.deep_view() == added_spans(*theme, old_text@, new_text@),
        spans_text(r.0.deep_view()) == old_text@,
        spans_text(r.1.deep_view()) == new_text@,
        chars_agree(old_text@, new_text@),
{
    let changes = diff_by_chars(old_text, new_text);
    proof {
        law_highlighting_keeps_the_text(
            changes.deep_view(),
            ChangeTag::Delete,
            theme.diff_removed(),
            theme.diff_removed_hl(),
        );
        law_highlighting_keeps_the_text(
            changes.deep_view(),
            ChangeTag::Insert,
            theme.diff_added(),
            theme.diff_added_hl(),
        );
    }
    inline_spans(theme, &changes)
}

/// The spans of a removed line beside the line that replaces it.
pub open spec fn removed_spans(theme: Theme, old_text: Seq<char>, new_text: Seq<char>) -> LineView {
    part_spans(
        parts_of(char_changes(old_text, new_text), ChangeTag::Delete),
        theme.diff_removed(),
        theme.diff_removed_hl(),
    )
}

/// The spans of an added line beside the line that it replaces.
pub open spec fn added_spans(theme: Theme, old_text: Seq<char>, new_text: Seq<char>) -> LineView {
    part_spans(
        parts_of(char_changes(old_text, new_text), ChangeTag::Insert),
        theme.diff_added(),
        theme.diff_added_hl(),
    )
}

// ── line by line ─────────────────────────────────────────────────────────────

/// The text without the line feeds at its end.
pub open spec fn without_newlines(s: Seq<char>) -> Seq<char>
    decreases s.len(),
{
    if s.len() > 0 && s.last() == '\n' {
        without_newlines(s.drop_last())
    } else {
        s
    }
}

pub fn strip_newlines(s: &str) -> (r: String)
    ensures
        r@ == without_newlines(s@),
{
    let v = to_chars(s);
    let mut n: usize = v.len();
    assert(v@.subrange(0, n as int) =~= v@);
    while n > 0 && v[n - 1] == '\n'
        invariant
            n <= v@.len(),
            without_newlines(v@.subrange(0, n as int)) == without_newlines(s@),
        decreases n,
    {
        assert(v@.subrange(0, n as int).drop_last() =~= v@.subrange(0, n - 1));
        n = n - 1;
    }
    from_chars(&v, 0, n)
}

/// What the gutter shows: two spaces, the number on `gw` columns, a space.
pub open spec fn gutter(n: int, gw: nat) -> Seq<char> {
    "  "@ + right_aligned(decimal(n as nat), gw) + " "@
}

fn gutter_text(n: u128, gw: usize) -> (r: String)
    ensures
        r@ == gutter(n as int, gw as nat),
{
    let mut s = "  ".to_owned();
    let d = number(n);
    s.append(align_right(d.as_str(), gw).as_str());
    s.append(" ");
    s
}

/// How a diff is numbered and coloured.
pub struct DiffLook {
    pub theme: Theme,
    pub start: int,
    pub gw: nat,
}

impl DiffLook {
    /// A line that stands in both versions, or in one: number, mark and text.
    pub open spec fn row(
        self,
        n: int,
        mark: Seq<char>,
        text: Seq<char>,
        style: crate::style::Style,
    ) -> LineView {
        seq![
            span_of(gutter(self.start + n, self.gw), self.theme.diff_context()),
            span_of(mark + text, style),
        ]
    }

    /// A line beside its counterpart: number, mark, and its spans.
    pub open spec fn inline_row(
        self,
        n: int,
        mark: Seq<char>,
        style: crate::style::Style,
        spans: LineView,
    ) -> LineView {
        seq![
            span_of(gutter(self.start + n, self.gw), self.theme.diff_context()),
            span_of(mark, style),
        ] + spans
    }

    /// The first `k` removed lines, each followed by the line that replaces it.
    pub open spec fn paired_rows(
        self,
        dels: Seq<ChangeView>,
        inss: Seq<ChangeView>,
        o: int,
        n: int,
        k: int,
    ) -> Seq<LineView>
        decreases k,
    {
        if k <= 0 {
            Seq::empty()
        } else {
            let d = without_newlines(dels[k - 1].1);
            let i = without_newlines(inss[k - 1].1);
            self.paired_rows(dels, inss, o, n, k - 1) + seq![
                self.inline_row(
                    o + k - 1,
                    "- "@,
                    self.theme.diff_removed(),
                    removed_spans(self.theme, d, i),
                ),
                self.inline_row(
                    n + k - 1,
                    "+ "@,
                    self.theme.diff_added(),
                    added_spans(self.theme, d, i),
                ),
            ]
        }
    }

    /// A run of removed lines and the run of added lines behind it: first the
    /// pairs, then the removed lines that are left, then the added ones.
    pub open spec fn block_rows(
        self,
        dels: Seq<ChangeView>,
        inss: Seq<ChangeView>,
        o: int,
        n: int,
    ) -> Seq<LineView> {
        let k = if dels.len() <= inss.len() {
            dels.len() as int
        } else {
            inss.len() as int
        };
        self.paired_rows(dels, inss, o, n, k) + Seq::new(
            (dels.len() - k) as nat,
            |j: int|
                self.row(
                    o + k + j,
                    "- "@,
                    without_newlines(dels[k + j].1),
                    self.theme.diff_removed(),
                ),
        ) + Seq::new(
            (inss.len() - k) as nat,
            |j: int|
                self.row(
                    n + k + j,
                    "+ "@,
                    without_newlines(inss[k + j].1),
                    self.theme.diff_added(),
                ),
        )
    }

    /// The lines of a diff, when `o` old and `n` new lines have gone before.
    #[verifier::opaque]
    pub open spec fn rows(self, ch: Seq<ChangeView>, o: int, n: int) -> Seq<LineView>
        decreases ch.len(),
    {
        if ch.len() == 0 {
            Seq::empty()
        } else if ch[0].0 == ChangeTag::Equal {
            seq![self.row(o, "  "@, without_newlines(ch[0].1), self.theme.diff_context())]
                + self.rows(ch.skip(1), o + 1, n + 1)
        } else if ch[0].0 == ChangeTag::Insert {
            seq![self.row(n, "+ "@, without_newlines(ch[0].1), self.theme.diff_added())]
                + self.rows(ch.skip(1), o, n + 1)
        } else {
            let d = run(ch, ChangeTag::Delete);
            let k = run(ch.skip(d), ChangeTag::Insert);
            if 0 < d && 0 <= k && d + k <= ch.len() {
                self.block_rows(ch.take(d), ch.subrange(d, d + k), o, n) + self.rows(
                    ch.skip(d + k),
                    o + d,
                    n + k,
                )
            } else {
                Seq::empty()
            }
        }
    }
}

/// How many changes at the start have the tag.
pub open spec fn run(ch: Seq<ChangeView>, tag: ChangeTag) -> int
    decreases ch.len(),
{
    if ch.len() == 0 || ch[0].0 != tag {
        0
    } else {
        1 + run(ch.skip(1), tag)
    }
}

proof fn lemma_run(ch: Seq<ChangeView>, tag: ChangeTag, k: int)
    requires
        0 <= k <= ch.len(),
        forall|i: int| 0 <= i < k ==> #[trigger] ch[i].0 == tag,
        k < ch.len() ==> ch[k].0 != tag,
    ensures
        run(ch, tag) == k,
    decreases k,
{
    if k > 0 {
        assert(ch[0].0 == tag);
        let s = ch.skip(1);
        assert forall|i: int| 0 <= i < k - 1 implies #[trigger] s[i].0 == tag by {
            assert(ch[i + 1].0 == tag);
        }
        lemma_run(s, tag, k - 1);
    }
}

proof fn lemma_rows_end(look: DiffLook, ch: Seq<ChangeView>, o: int, n: int)
    requires
        ch.len() == 0,
    ensures
        look.rows(ch, o, n) == Seq::<LineView>::empty(),
{
    reveal(DiffLook::rows);
}

proof fn lemma_rows_equal(
    look: DiffLook,
    before: Seq<LineView>,
    ch: Seq<ChangeView>,
    o: int,
    n: int,
)
    requires
        ch.len() > 0,
        ch[0].0 == ChangeTag::Equal,
    ensures
        before.push(
            look.row(o, "  "@, without_newlines(ch[0].1), look.theme.diff_context()),
        ) + look.rows(ch.skip(1), o + 1, n + 1) == before + look.rows(ch, o, n),
{
    reveal(DiffLook::rows);
    let row = look.row(o, "  "@, without_newlines(ch[0].1), look.theme.diff_context());
    assert(before.push(row) + look.rows(ch.skip(1), o + 1, n + 1) =~= before + (seq![row]
        + look.rows(ch.skip(1), o + 1, n + 1)));
}

proof fn lemma_rows_insert(
    look: DiffLook,
    before: Seq<LineView>,
    ch: Seq<ChangeView>,
    o: int,
    n: int,
)
    requires
        ch.len() > 0,
        ch[0].0 == ChangeTag::Insert,
    ensures
        before.push(
            look.row(n, "+ "@, without_newlines(ch[0].1), look.theme.diff_added()),
        ) + look.rows(ch.skip(1), o, n + 1) == before + look.rows(ch, o, n),
{
    reveal(DiffLook::rows);
    let row = look.row(n, "+ "@, without_newlines(ch[0].1), look.theme.diff_added());
    assert(before.push(row) + look.rows(ch.skip(1), o, n + 1) =~= before + (seq![row] + look.rows(
        ch.skip(1),
        o,
        n + 1,
    )));
}

proof fn lemma_rows_block(
    look: DiffLook,
    before: Seq<LineView>,
    cv: Seq<ChangeView>,
    a: int,
    b: int,
    c: int,
    o: int,
    n: int,
)
    requires
        0 <= a < b <= c <= cv.len(),
        forall|k: int| a <= k < b ==> #[trigger] cv[k].0 == ChangeTag::Delete,
        forall|k: int| b <= k < c ==> #[trigger] cv[k].0 == ChangeTag::Insert,
        b < cv.len() ==> cv[b].0 != ChangeTag::Delete,
        c < cv.len() ==> cv[c].0 != ChangeTag::Insert,
    ensures
        before + look.block_rows(cv.subrange(a, b), cv.subrange(b, c), o, n) + look.rows(
            cv.skip(c),
            o + (b - a),
            n + (c - b),
        ) == before + look.rows(cv.skip(a), o, n),
{
    reveal(DiffLook::rows);
    let ch = cv.skip(a);
    let d = b - a;
    let k = c - b;
    assert forall|i: int| 0 <= i < d implies #[trigger] ch[i].0 == ChangeTag::Delete by {
        assert(cv[a + i].0 == ChangeTag::Delete);
    }
    lemma_run(ch, ChangeTag::Delete, d);
    let after = ch.skip(d);
    assert forall|j: int| 0 <= j < k implies #[trigger] after[j].0 == ChangeTag::Insert by {
        assert(cv[b + j].0 == ChangeTag::Insert);
    }
    if k < after.len() {
        assert(after[k] == cv[c]);
    }
    lemma_run(after, ChangeTag::Insert, k);
    assert(ch[0] == cv[a]);
    assert(cv.subrange(a, b) =~= ch.take(d));
    assert(cv.subrange(b, c) =~= ch.subrange(d, d + k));
    assert(ch.skip(d + k) =~= cv.skip(c));
    let block = look.block_rows(ch.take(d), ch.subrange(d, d + k), o, n);
    let rest = look.rows(ch.skip(d + k), o + d, n + k);
    assert(before + block + rest =~= before + (block + rest));
}

/// How the diff of two texts is numbered: from `start_line` or 1, on as many
/// columns as the highest number may need.
pub open spec fn diff_look(
    theme: Theme,
    old_text: Seq<char>,
    new_text: Seq<char>,
    start_line: Option<usize>,
) -> DiffLook {
    let start = match start_line {
        Some(n) => n as int,
        None => 1,
    };
    let count = if lines(old_text).len() >= lines(new_text).len() {
        lines(old_text).len()
    } else {
        lines(new_text).len()
    };
    DiffLook { theme, start, gw: decimal((start + count) as nat).len() }
}

/// The lines that show the change from one text to another.
pub open spec fn diff_rows(
    theme: Theme,
    old_text: Seq<char>,
    new_text: Seq<char>,
    start_line: Option<usize>,
) -> Seq<LineView> {
    diff_look(theme, old_text, new_text, start_line).rows(line_changes(old_text, new_text), 0, 0)
}

fn push_row(
    out: &mut Vec<Line>,
    theme: &Theme,
    n: u128,
    gw: usize,
    mark: &str,
    text: &str,
    style: crate::style::Style,
    Ghost(look): Ghost<DiffLook>,
    Ghost(idx): Ghost<int>,
)
    requires
        look.theme == *theme,
        look.gw == gw,
        look.start + idx == n,
    ensures
        final(out).deep_view() == old(out).deep_view().push(look.row(idx, mark@, text@, style)),
{
    let ghost before = out.deep_view();
    let mut s = mark.to_owned();
    s.append(text);
    let line = Line::two(
        Span::new(gutter_text(n, gw), theme.diff_context()),
        Span::new(s, style),
    );
    out.push(line);
    assert(out.deep_view() =~= before.push(look.row(idx, mark@, text@, style)));
}

fn push_inline_row(
    out: &mut Vec<Line>,
    theme: &Theme,
    n: u128,
    gw: usize,
    mark: &str,
    style: crate::style::Style,
    spans: Vec<Span>,
    Ghost(look): Ghost<DiffLook>,
    Ghost(idx): Ghost<int>,
)
    requires
        look.theme == *theme,
        look.gw == gw,
        look.start + idx == n,
    ensures
        final(out).deep_view() == old(out).deep_view().push(
            look.inline_row(idx, mark@, style, spans.deep_view()),
        ),
{
    let ghost before = out.deep_view();
    let ghost sv = spans.deep_view();
    let mut line = Line::two(
        Span::new(gutter_text(n, gw), theme.diff_context()),
        Span::styled(mark, style),
    );
    let ghost head = line.spans@;
    let mut rest = spans;
    line.spans.append(&mut rest);
    assert(line.deep_view() =~= look.inline_row(idx, mark@, style, sv));
    out.push(line);
    assert(out.deep_view() =~= before.push(look.inline_row(idx, mark@, style, sv)));
}

/// The lines for changes that have been found between two texts, numbered
/// from `start` on `gw` columns.
pub fn change_lines(
    theme: &Theme,
    changes: &Vec<(ChangeTag, String)>,
    start: usize,
    gw: usize,
) -> (r: Vec<Line>)
    ensures
        r.deep_view() == (DiffLook { theme: *theme, start: start as int, gw: gw as nat }).rows(
            changes.deep_view(),
            0,
            0,
        ),
        r@.len() == changes@.len(),
        forall|tag: ChangeTag| #[trigger]
            marked(r.deep_view(), mark_of(tag)) == listed(
                DiffLook { theme: *theme, start: start as int, gw: gw as nat },
                changes.deep_view(),
                tag,
                0,
                0,
            ),
{
    let ghost look = DiffLook { theme: *theme, start: start as int, gw: gw as nat };
    let ghost cv = changes.deep_view();
    let mut out: Vec<Line> = Vec::new();
    let mut o: usize = 0;
    let mut n: usize = 0;
    let mut i: usize = 0;
    let total: usize = changes.len();
    let ghost goal = look.rows(cv, 0, 0);
    assert(cv.skip(0) =~= cv);
    assert(out.deep_view() + look.rows(cv.skip(0), 0, 0) =~= goal);
    proof {
        assert(out.deep_view() =~= Seq::<LineView>::empty());
        lemma_told_at_start(look, cv);
    }
    while i < total
        invariant
            i <= total,
            total == changes@.len(),
            cv == changes.deep_view(),
            look == (DiffLook { theme: *theme, start: start as int, gw: gw as nat }),
            o <= i,
            n <= i,
            out.deep_view() + look.rows(cv.skip(i as int), o as int, n as int) == goal,
            out@.len() == i,
            told(look, cv, out.deep_view(), i as int, o as int, n as int),
        decreases total - i,
    {
        let ghost ch = cv.skip(i as int);
        let ghost before = out.deep_view();
        assert(ch[0] == cv[i as int]);
        let tag = changes[i].0;
        if tag == ChangeTag::Equal {
            let text = strip_newlines(changes[i].1.as_str());
            push_row(
                &mut out,
                theme,
                start as u128 + o as u128,
                gw,
                "  ",
                text.as_str(),
                theme.diff_context(),
                Ghost(look),
                Ghost(o as int),
            );
            proof {
                assert(ch.skip(1) =~= cv.skip(i + 1));
                lemma_rows_equal(look, before, ch, o as int, n as int);
                lemma_told_single(
                    look,
                    cv,
                    before,
                    i as int,
                    o as int,
                    n as int,
                    theme.diff_context(),
                );
            }
            o = o + 1;
            n = n + 1;
            i = i + 1;
        } else if tag == ChangeTag::Insert {
            let text = strip_newlines(changes[i].1.as_str());
            push_row(
                &mut out,
                theme,
                start as u128 + n as u128,
                gw,
                "+ ",
                text.as_str(),
                theme.diff_added(),
                Ghost(look),
                Ghost(n as int),
            );
            proof {
                assert(ch.skip(1) =~= cv.skip(i + 1));
                lemma_rows_insert(look, before, ch, o as int, n as int);
                lemma_told_single(
                    look,
                    cv,
                    before,
                    i as int,
                    o as int,
                    n as int,
                    theme.diff_added(),
                );
            }
            n = n + 1;
            i = i + 1;
        } else {
            let del_start: usize = i;
            let mut e: usize = i;
            while e < total && changes[e].0 == ChangeTag::Delete
                invariant
                    del_start <= e <= total,
                    total == changes@.len(),
                    cv == changes.deep_view(),
                    forall|k: int| del_start <= k < e ==> #[trigger] cv[k].0 == ChangeTag::Delete,
                decreases total - e,
            {
                assert(cv[e as int].0 == changes@[e as int].0);
                e = e + 1;
            }
            let ins_start: usize = e;
            let mut f: usize = e;
            while f < total && changes[f].0 == ChangeTag::Insert
                invariant
                    ins_start <= f <= total,
                    total == changes@.len(),
                    cv == changes.deep_view(),
                    forall|k: int| ins_start <= k < f ==> #[trigger] cv[k].0 == ChangeTag::Insert,
                decreases total - f,
            {
                assert(cv[f as int].0 == changes@[f as int].0);
                f = f + 1;
            }
            push_block(
                &mut out,
                theme,
                changes,
                del_start,
                ins_start,
                f,
                start,
                o,
                n,
                gw,
                Ghost(look),
            );
            proof {
                if ins_start < total {
                    assert(cv[ins_start as int].0 == changes@[ins_start as int].0);
                }
                if f < total {
                    assert(cv[f as int].0 == changes@[f as int].0);
                }
                lemma_rows_block(
                    look,
                    before,
                    cv,
                    del_start as int,
                    ins_start as int,
                    f as int,
                    o as int,
                    n as int,
                );
                lemma_told_block(
                    look,
                    cv,
                    before,
                    del_start as int,
                    ins_start as int,
                    f as int,
                    o as int,
                    n as int,
                );
            }
            o = o + (ins_start - del_start);
            n = n + (f - ins_start);
            i = f;
        }
    }
    proof {
        lemma_rows_end(look, cv.skip(total as int), o as int, n as int);
        lemma_told_at_end(look, cv, out.deep_view(), o as int, n as int);
    }
    assert(out.deep_view() =~= goal);
    out
}

fn push_block(
    out: &mut Vec<Line>,
    theme: &Theme,
    changes: &Vec<(ChangeTag, String)>,
    a: usize,
    b: usize,
    c: usize,
    start: usize,
    o: usize,
    n: usize,
    gw: usize,
    Ghost(look): Ghost<DiffLook>,
)
    requires
        a <= b <= c <= changes@.len(),
        look == (DiffLook { theme: *theme, start: start as int, gw: gw as nat }),
    ensures
        final(out).deep_view() == old(out).deep_view() + look.block_rows(
            changes.deep_view().subrange(a as int, b as int),
            changes.deep_view().subrange(b as int, c as int),
            o as int,
            n as int,
        ),
        pairs_agree(
            changes.deep_view().subrange(a as int, b as int),
            changes.deep_view().subrange(b as int, c as int),
        ),
{
    let ghost before = out.deep_view();
    let ghost cv = changes.deep_view();
    let ghost dels = cv.subrange(a as int, b as int);
    let ghost inss = cv.subrange(b as int, c as int);
    let paired: usize = if b - a <= c - b {
        b - a
    } else {
        c - b
    };
    let total: usize = changes.len();
    let mut j: usize = 0;
    assert(before + look.paired_rows(dels, inss, o as int, n as int, 0) =~= before);
    while j < paired
        invariant
            j <= paired <= b - a,
            paired <= c - b,
            a <= b <= c <= total,
            total == changes@.len(),
            look == (DiffLook { theme: *theme, start: start as int, gw: gw as nat }),
            cv == changes.deep_view(),
            dels == cv.subrange(a as int, b as int),
            inss == cv.subrange(b as int, c as int),
            out.deep_view() == before + look.paired_rows(dels, inss, o as int, n as int, j as int),
            forall|q: int|
                0 <= q < j ==> #[trigger] chars_agree(
                    without_newlines(dels[q].1),
                    without_newlines(inss[q].1),
                ),
        decreases paired - j,
    {
        let ghost so_far = out.deep_view();
        let d = strip_newlines(changes[a + j].1.as_str());
        let i = strip_newlines(changes[b + j].1.as_str());
        assert(dels[j as int].1 == changes@[a + j].1@);
        assert(inss[j as int].1 == changes@[b + j].1@);
        let (del_spans, ins_spans) = inline_diff(theme, d.as_str(), i.as_str());
        assert(chars_agree(d@, i@));
        push_inline_row(
            out,
            theme,
            start as u128 + o as u128 + j as u128,
            gw,
            "- ",
            theme.diff_removed(),
            del_spans,
            Ghost(look),
            Ghost(o + j),
        );
        push_inline_row(
            out,
            theme,
            start as u128 + n as u128 + j as u128,
            gw,
            "+ ",
            theme.diff_added(),
            ins_spans,
            Ghost(look),
            Ghost(n + j),
        );
        assert(out.deep_view() =~= before + look.paired_rows(
            dels,
            inss,
            o as int,
            n as int,
            j + 1,
        ));
        j = j + 1;
    }
    let ghost pairs = before + look.paired_rows(dels, inss, o as int, n as int, paired as int);
    let ghost left = Seq::new(
        (dels.len() - paired) as nat,
        |q: int|
            look.row(
                o + paired + q,
                "- "@,
                without_newlines(dels[paired + q].1),
                look.theme.diff_removed(),
            ),
    );
    let mut p: usize = paired;
    assert(pairs + left.take(0) =~= pairs);
    while p < b - a
        invariant
            paired <= p <= b - a,
            a <= b <= c <= total,
            total == changes@.len(),
            look == (DiffLook { theme: *theme, start: start as int, gw: gw as nat }),
            cv == changes.deep_view(),
            dels == cv.subrange(a as int, b as int),
            left == Seq::new(
                (dels.len() - paired) as nat,
                |q: int|
                    look.row(
                        o + paired + q,
                        "- "@,
                        without_newlines(dels[paired + q].1),
                        look.theme.diff_removed(),
                    ),
            ),
            out.deep_view() == pairs + left.take(p - paired),
        decreases b - a - p,
    {
        let ghost so_far = out.deep_view();
        let d = strip_newlines(changes[a + p].1.as_str());
        assert(dels[p as int].1 == changes@[a + p].1@);
        push_row(
            out,
            theme,
            start as u128 + o as u128 + p as u128,
            gw,
            "- ",
            d.as_str(),
            theme.diff_removed(),
            Ghost(look),
            Ghost(o + p),
        );
        assert(left[p - paired] == look.row(o + p, "- "@, d@, look.theme.diff_removed()));
        assert(out.deep_view() =~= pairs + left.take(p + 1 - paired));
        p = p + 1;
    }
    let ghost with_left = pairs + left;
    assert(left.take(p - paired) =~= left);
    let ghost right = Seq::new(
        (inss.len() - paired) as nat,
        |q: int|
            look.row(
                n + paired + q,
                "+ "@,
                without_newlines(inss[paired + q].1),
                look.theme.diff_added(),
            ),
    );
    let mut r: usize = paired;
    assert(with_left + right.take(0) =~= with_left);
    while r < c - b
        invariant
            paired <= r <= c - b,
            a <= b <= c <= total,
            total == changes@.len(),
            look == (DiffLook { theme: *theme, start: start as int, gw: gw as nat }),
            cv == changes.deep_view(),
            inss == cv.subrange(b as int, c as int),
            right == Seq::new(
                (inss.len() - paired) as nat,
                |q: int|
                    look.row(
                        n + paired + q,
                        "+ "@,
                        without_newlines(inss[paired + q].1),
                        look.theme.diff_added(),
                    ),
            ),
            out.deep_view() == with_left + right.take(r - paired),
        decreases c - b - r,
    {
        let i = strip_newlines(changes[b + r].1.as_str());
        assert(inss[r as int].1 == changes@[b + r].1@);
        push_row(
            out,
            theme,
            start as u128 + n as u128 + r as u128,
            gw,
            "+ ",
            i.as_str(),
            theme.diff_added(),
            Ghost(look),
            Ghost(n + r),
        );
        assert(right[r - paired] == look.row(n + r, "+ "@, i@, look.theme.diff_added()));
        assert(out.deep_view() =~= with_left + right.take(r + 1 - paired));
        r = r + 1;
    }
    assert(right.take(r - paired) =~= right);
    assert(out.deep_view() =~= before + look.block_rows(dels, inss, o as int, n as int));
}

/// The lines that show the change from one text to another.
pub fn build_diff_lines(
    theme: &Theme,
    old_text: &str,
    new_text: &str,
    start_line: Option<usize>,
) -> (r: Vec<Line>)
    ensures
        r.deep_view() == diff_rows(*theme, old_text@, new_text@, start_line),
        r@.len() == line_changes(old_text@, new_text@).len(),
        forall|tag: ChangeTag| #[trigger]
            marked(r.deep_view(), mark_of(tag)) == listed(
                diff_look(*theme, old_text@, new_text@, start_line),
                line_changes(old_text@, new_text@),
                tag,
                0,
                0,
            ),
{
    let start: usize = match start_line {
        Some(n) => n,
        None => 1,
    };
    let changes = diff_by_lines(old_text, new_text);
    let old_count: usize = split_lines(old_text).len();
    let new_count: usize = split_lines(new_text).len();
    let count: usize = if old_count >= new_count {
        old_count
    } else {
        new_count
    };
    let gw: usize = number(start as u128 + count as u128).as_str().unicode_len();
    change_lines(theme, &changes, start, gw)
}

// ── what the rows of a diff show ─────────────────────────────────────────────

/// What a row shows in its gutter, and what it says behind its mark.
pub type MarkedView = (Seq<char>, Seq<char>);

/// What a row says behind its gutter.
pub open spec fn row_text(row: LineView) -> Seq<char> {
    spans_text(row.skip(1))
}

/// The row has a gutter, and behind it the mark.
pub open spec fn bears(row: LineView, mark: Seq<char>) -> bool {
    row.len() > 0 && row_text(row).len() >= 2 && row_text(row).take(2) == mark
}

/// The rows with a mark, in their order.
pub open spec fn marked(rows: Seq<LineView>, mark: Seq<char>) -> Seq<MarkedView>
    decreases rows.len(),
{
    if rows.len() == 0 {
        Seq::empty()
    } else {
        let before = marked(rows.drop_last(), mark);
        if bears(rows.last(), mark) {
            before.push((rows.last()[0].content, row_text(rows.last()).skip(2)))
        } else {
            before
        }
    }
}

/// The mark of a change.
pub open spec fn mark_of(tag: ChangeTag) -> Seq<char> {
    match tag {
        ChangeTag::Equal => "  "@,
        ChangeTag::Delete => "- "@,
        ChangeTag::Insert => "+ "@,
    }
}

/// The lines behind the changes with a tag, each with the number that it has in its
/// version, when `o` old and `n` new lines have gone before.  A line that stands in
/// both versions has its number in the old one.
pub open spec fn listed(
    look: DiffLook,
    ch: Seq<ChangeView>,
    tag: ChangeTag,
    o: int,
    n: int,
) -> Seq<MarkedView>
    decreases ch.len(),
{
    if ch.len() == 0 {
        Seq::empty()
    } else {
        let rest = listed(
            look,
            ch.skip(1),
            tag,
            if ch[0].0 == ChangeTag::Insert {
                o
            } else {
                o + 1
            },
            if ch[0].0 == ChangeTag::Delete {
                n
            } else {
                n + 1
            },
        );
        if ch[0].0 == tag {
            let number = if tag == ChangeTag::Insert {
                look.start + n
            } else {
                look.start + o
            };
            seq![(gutter(number, look.gw), without_newlines(ch[0].1))] + rest
        } else {
            rest
        }
    }
}

/// The character diff of two lines puts both together again.
pub open spec fn chars_agree(old_text: Seq<char>, new_text: Seq<char>) -> bool {
    &&& version(char_changes(old_text, new_text), ChangeTag::Delete) == old_text
    &&& version(char_changes(old_text, new_text), ChangeTag::Insert) == new_text
}

/// The character diffs of the lines that are paired put them together again.
pub open spec fn pairs_agree(dels: Seq<ChangeView>, inss: Seq<ChangeView>) -> bool {
    forall|j: int|
        0 <= j < dels.len() && j < inss.len() ==> #[trigger] chars_agree(
            without_newlines(dels[j].1),
            without_newlines(inss[j].1),
        )
}

proof fn lemma_marks_differ()
    ensures
        "  "@.len() == 2,
        "- "@.len() == 2,
        "+ "@.len() == 2,
        "  "@ != "- "@,
        "  "@ != "+ "@,
        "- "@ != "+ "@,
{
    reveal_strlit("  ");
    reveal_strlit("- ");
    reveal_strlit("+ ");
    assert("  "@[0] == ' ' && "- "@[0] == '-' && "+ "@[0] == '+');
}

proof fn lemma_spans_text_add(a: LineView, b: LineView)
    ensures
        spans_text(a + b) == spans_text(a) + spans_text(b),
    decreases b.len(),
{
    if b.len() == 0 {
        assert(a + b =~= a);
        assert(spans_text(a) + spans_text(b) =~= spans_text(a));
    } else {
        lemma_spans_text_add(a, b.drop_last());
        assert((a + b).drop_last() =~= a + b.drop_last());
        assert(spans_text(a + b) =~= spans_text(a) + spans_text(b));
    }
}

proof fn lemma_marked_add(a: Seq<LineView>, b: Seq<LineView>, mark: Seq<char>)
    ensures
        marked(a + b, mark) == marked(a, mark) + marked(b, mark),
    decreases b.len(),
{
    if b.len() == 0 {
        assert(a + b =~= a);
        assert(marked(a, mark) + marked(b, mark) =~= marked(a, mark));
    } else {
        lemma_marked_add(a, b.drop_last(), mark);
        assert((a + b).drop_last() =~= a + b.drop_last());
        assert(marked(a + b, mark) =~= marked(a, mark) + marked(b, mark));
    }
}

/// A row says its mark and its text.
proof fn lemma_row_bears(
    look: DiffLook,
    n: int,
    mark: Seq<char>,
    text: Seq<char>,
    style: crate::style::Style,
)
    requires
        mark.len() == 2,
    ensures
        ({
            let row = look.row(n, mark, text, style);
            &&& row_text(row) == mark + text
            &&& bears(row, mark)
            &&& row_text(row).skip(2) == text
            &&& row[0].content == gutter(look.start + n, look.gw)
            &&& forall|other: Seq<char>|
                other != mark ==> !#[trigger] bears(row, other)
        }),
{
    let row = look.row(n, mark, text, style);
    let rest = seq![span_of(mark + text, style)];
    assert(row.skip(1) =~= rest);
    lemma_spans_text_push(Seq::empty(), span_of(mark + text, style));
    assert(rest =~= Seq::empty().push(span_of(mark + text, style)));
    assert(spans_text(rest) =~= mark + text);
    assert(row_text(row).take(2) =~= mark);
    assert(row_text(row).skip(2) =~= text);
}

/// A row of spans says its mark and what the spans say.
proof fn lemma_inline_row_bears(
    look: DiffLook,
    n: int,
    mark: Seq<char>,
    style: crate::style::Style,
    spans: LineView,
)
    requires
        mark.len() == 2,
    ensures
        ({
            let row = look.inline_row(n, mark, style, spans);
            &&& row_text(row) == mark + spans_text(spans)
            &&& bears(row, mark)
            &&& row_text(row).skip(2) == spans_text(spans)
            &&& row[0].content == gutter(look.start + n, look.gw)
            &&& forall|other: Seq<char>|
                other != mark ==> !#[trigger] bears(row, other)
        }),
{
    let row = look.inline_row(n, mark, style, spans);
    let head = seq![span_of(mark, style)];
    assert(row.skip(1) =~= head + spans);
    lemma_spans_text_add(head, spans);
    lemma_spans_text_push(Seq::empty(), span_of(mark, style));
    assert(head =~= Seq::empty().push(span_of(mark, style)));
    assert(spans_text(head) =~= mark);
    assert(row_text(row).take(2) =~= mark);
    assert(row_text(row).skip(2) =~= spans_text(spans));
}

/// The lines of changes, numbered from `base`.
spec fn in_turn(look: DiffLook, s: Seq<ChangeView>, base: int) -> Seq<MarkedView> {
    Seq::new(
        s.len(),
        |j: int| (gutter(look.start + base + j, look.gw), without_newlines(s[j].1)),
    )
}

/// Rows that all bear a mark are all of the rows with the mark, and none with another.
proof fn lemma_marked_uniform(rows: Seq<LineView>, goal: Seq<MarkedView>, mark: Seq<char>)
    requires
        rows.len() == goal.len(),
        forall|j: int|
            0 <= j < rows.len() ==> {
                &&& bears(#[trigger] rows[j], mark)
                &&& rows[j][0].content == goal[j].0
                &&& row_text(rows[j]).skip(2) == goal[j].1
            },
    ensures
        marked(rows, mark) == goal,
        forall|other: Seq<char>|
            other != mark ==> #[trigger] marked(rows, other) == Seq::<MarkedView>::empty(),
    decreases rows.len(),
{
    if rows.len() > 0 {
        let lead = rows.drop_last();
        assert forall|j: int| 0 <= j < lead.len() implies {
            &&& bears(#[trigger] lead[j], mark)
            &&& lead[j][0].content == goal.drop_last()[j].0
            &&& row_text(lead[j]).skip(2) == goal.drop_last()[j].1
        } by {
            assert(lead[j] == rows[j]);
        }
        lemma_marked_uniform(lead, goal.drop_last(), mark);
        assert(rows.last() == rows[rows.len() - 1]);
        assert(bears(rows[rows.len() - 1], mark));
        assert(marked(rows, mark) =~= goal);
        assert forall|other: Seq<char>| other != mark implies #[trigger] marked(rows, other)
            == Seq::<MarkedView>::empty() by {
            assert(marked(lead, other) == Seq::<MarkedView>::empty());
            assert(!bears(rows.last(), other));
        }
    }
}

proof fn lemma_paired_marked(
    look: DiffLook,
    dels: Seq<ChangeView>,
    inss: Seq<ChangeView>,
    o: int,
    n: int,
    k: int,
)
    requires
        0 <= k <= dels.len(),
        k <= inss.len(),
        pairs_agree(dels, inss),
    ensures
        ({
            let rows = look.paired_rows(dels, inss, o, n, k);
            &&& rows.len() == 2 * k
            &&& marked(rows, "- "@) == in_turn(look, dels.take(k), o)
            &&& marked(rows, "+ "@) == in_turn(look, inss.take(k), n)
            &&& marked(rows, "  "@) == Seq::<MarkedView>::empty()
        }),
    decreases k,
{
    let rows = look.paired_rows(dels, inss, o, n, k);
    lemma_marks_differ();
    if k == 0 {
        assert(marked(rows, "- "@) =~= in_turn(look, dels.take(k), o));
        assert(marked(rows, "+ "@) =~= in_turn(look, inss.take(k), n));
    } else {
        lemma_paired_marked(look, dels, inss, o, n, k - 1);
        let before = look.paired_rows(dels, inss, o, n, k - 1);
        let d = without_newlines(dels[k - 1].1);
        let i = without_newlines(inss[k - 1].1);
        assert(chars_agree(d, i));
        let theme = look.theme;
        law_highlighting_keeps_the_text(
            char_changes(d, i),
            ChangeTag::Delete,
            theme.diff_removed(),
            theme.diff_removed_hl(),
        );
        law_highlighting_keeps_the_text(
            char_changes(d, i),
            ChangeTag::Insert,
            theme.diff_added(),
            theme.diff_added_hl(),
        );
        let r1 = look.inline_row(
            o + k - 1,
            "- "@,
            theme.diff_removed(),
            removed_spans(theme, d, i),
        );
        let r2 = look.inline_row(n + k - 1, "+ "@, theme.diff_added(), added_spans(theme, d, i));
        lemma_inline_row_bears(
            look,
            o + k - 1,
            "- "@,
            theme.diff_removed(),
            removed_spans(theme, d, i),
        );
        lemma_inline_row_bears(
            look,
            n + k - 1,
            "+ "@,
            theme.diff_added(),
            added_spans(theme, d, i),
        );
        assert(rows =~= before.push(r1).push(r2));
        assert(before.push(r1).push(r2).drop_last() =~= before.push(r1));
        assert(before.push(r1).drop_last() =~= before);
        assert(marked(before.push(r1), "- "@) == marked(before, "- "@).push(
            (gutter(look.start + o + k - 1, look.gw), d),
        ));
        assert(marked(before.push(r1), "+ "@) == marked(before, "+ "@));
        assert(marked(before.push(r1), "  "@) == marked(before, "  "@));
        assert(marked(rows, "- "@) =~= in_turn(look, dels.take(k), o));
        assert(marked(rows, "+ "@) =~= in_turn(look, inss.take(k), n));
    }
}

/// A block has a row for every removed and every added line.
proof fn lemma_block_marked(
    look: DiffLook,
    dels: Seq<ChangeView>,
    inss: Seq<ChangeView>,
    o: int,
    n: int,
)
    requires
        pairs_agree(dels, inss),
    ensures
        ({
            let rows = look.block_rows(dels, inss, o, n);
            &&& rows.len() == dels.len() + inss.len()
            &&& marked(rows, "- "@) == in_turn(look, dels, o)
            &&& marked(rows, "+ "@) == in_turn(look, inss, n)
            &&& marked(rows, "  "@) == Seq::<MarkedView>::empty()
        }),
{
    lemma_marks_differ();
    let k = if dels.len() <= inss.len() {
        dels.len() as int
    } else {
        inss.len() as int
    };
    let theme = look.theme;
    let pairs = look.paired_rows(dels, inss, o, n, k);
    let left = Seq::new(
        (dels.len() - k) as nat,
        |j: int|
            look.row(o + k + j, "- "@, without_newlines(dels[k + j].1), theme.diff_removed()),
    );
    let right = Seq::new(
        (inss.len() - k) as nat,
        |j: int| look.row(n + k + j, "+ "@, without_newlines(inss[k + j].1), theme.diff_added()),
    );
    lemma_paired_marked(look, dels, inss, o, n, k);
    let left_goal = in_turn(look, dels, o).skip(k);
    let right_goal = in_turn(look, inss, n).skip(k);
    assert forall|j: int| 0 <= j < left.len() implies {
        &&& bears(#[trigger] left[j], "- "@)
        &&& left[j][0].content == left_goal[j].0
        &&& row_text(left[j]).skip(2) == left_goal[j].1
    } by {
        lemma_row_bears(
            look,
            o + k + j,
            "- "@,
            without_newlines(dels[k + j].1),
            theme.diff_removed(),
        );
    }
    lemma_marked_uniform(left, left_goal, "- "@);
    assert forall|j: int| 0 <= j < right.len() implies {
        &&& bears(#[trigger] right[j], "+ "@)
        &&& right[j][0].content == right_goal[j].0
        &&& row_text(right[j]).skip(2) == right_goal[j].1
    } by {
        lemma_row_bears(
            look,
            n + k + j,
            "+ "@,
            without_newlines(inss[k + j].1),
            theme.diff_added(),
        );
    }
    lemma_marked_uniform(right, right_goal, "+ "@);
    let rows = look.block_rows(dels, inss, o, n);
    assert(rows =~= pairs + left + right);
    lemma_marked_add(pairs + left, right, "- "@);
    lemma_marked_add(pairs, left, "- "@);
    lemma_marked_add(pairs + left, right, "+ "@);
    lemma_marked_add(pairs, left, "+ "@);
    lemma_marked_add(pairs + left, right, "  "@);
    lemma_marked_add(pairs, left, "  "@);
    assert(marked(rows, "- "@) =~= in_turn(look, dels, o));
    assert(marked(rows, "+ "@) =~= in_turn(look, inss, n));
}

/// A run of changes with one tag is listed as a whole under it, and not at all under
/// another.
proof fn lemma_run_listed(
    look: DiffLook,
    ch: Seq<ChangeView>,
    own: ChangeTag,
    tag: ChangeTag,
    k: int,
    o: int,
    n: int,
)
    requires
        own != ChangeTag::Equal,
        0 <= k <= ch.len(),
        forall|j: int| 0 <= j < k ==> #[trigger] ch[j].0 == own,
    ensures
        ({
            let rest = listed(
                look,
                ch.skip(k),
                tag,
                if own == ChangeTag::Delete {
                    o + k
                } else {
                    o
                },
                if own == ChangeTag::Insert {
                    n + k
                } else {
                    n
                },
            );
            listed(look, ch, tag, o, n) == (if tag == own {
                in_turn(
                    look,
                    ch.take(k),
                    if own == ChangeTag::Insert {
                        n
                    } else {
                        o
                    },
                )
            } else {
                Seq::empty()
            }) + rest
        }),
    decreases k,
{
    if k == 0 {
        assert(ch.skip(0) =~= ch);
        assert(in_turn(look, ch.take(0), o) =~= Seq::empty());
        assert(in_turn(look, ch.take(0), n) =~= Seq::empty());
        assert(Seq::<MarkedView>::empty() + listed(look, ch, tag, o, n) =~= listed(
            look,
            ch,
            tag,
            o,
            n,
        ));
    } else {
        let s = ch.skip(1);
        assert(ch[0].0 == own);
        assert forall|j: int| 0 <= j < k - 1 implies #[trigger] s[j].0 == own by {
            assert(s[j] == ch[j + 1]);
        }
        let o1 = if own == ChangeTag::Insert {
            o
        } else {
            o + 1
        };
        let n1 = if own == ChangeTag::Delete {
            n
        } else {
            n + 1
        };
        lemma_run_listed(look, s, own, tag, k - 1, o1, n1);
        assert(s.skip(k - 1) =~= ch.skip(k));
        if tag == own {
            let base = if own == ChangeTag::Insert {
                n
            } else {
                o
            };
            assert(in_turn(look, ch.take(k), base) =~= seq![
                (gutter(look.start + base, look.gw), without_newlines(ch[0].1)),
            ] + in_turn(look, s.take(k - 1), base + 1));
            assert(listed(look, ch, tag, o, n) =~= in_turn(look, ch.take(k), base) + listed(
                look,
                ch.skip(k),
                tag,
                if own == ChangeTag::Delete {
                    o + k
                } else {
                    o
                },
                if own == ChangeTag::Insert {
                    n + k
                } else {
                    n
                },
            ));
        }
    }
}

/// A run of removed lines and a run of added lines behind it are listed as the block of
/// the two shows them.
proof fn lemma_block_listed(
    look: DiffLook,
    ch: Seq<ChangeView>,
    tag: ChangeTag,
    d: int,
    k: int,
    o: int,
    n: int,
)
    requires
        0 <= d,
        0 <= k,
        d + k <= ch.len(),
        forall|j: int| 0 <= j < d ==> #[trigger] ch[j].0 == ChangeTag::Delete,
        forall|j: int| d <= j < d + k ==> #[trigger] ch[j].0 == ChangeTag::Insert,
        pairs_agree(ch.take(d), ch.subrange(d, d + k)),
    ensures
        listed(look, ch, tag, o, n) == marked(
            look.block_rows(ch.take(d), ch.subrange(d, d + k), o, n),
            mark_of(tag),
        ) + listed(look, ch.skip(d + k), tag, o + d, n + k),
        look.block_rows(ch.take(d), ch.subrange(d, d + k), o, n).len() == d + k,
{
    let dels = ch.take(d);
    let inss = ch.subrange(d, d + k);
    lemma_block_marked(look, dels, inss, o, n);
    lemma_run_listed(look, ch, ChangeTag::Delete, tag, d, o, n);
    let after = ch.skip(d);
    assert forall|j: int| 0 <= j < k implies #[trigger] after[j].0 == ChangeTag::Insert by {
        assert(after[j] == ch[d + j]);
    }
    lemma_run_listed(look, after, ChangeTag::Insert, tag, k, o + d, n);
    assert(after.take(k) =~= inss);
    assert(after.skip(k) =~= ch.skip(d + k));
    assert(listed(look, ch, tag, o, n) =~= marked(
        look.block_rows(dels, inss, o, n),
        mark_of(tag),
    ) + listed(look, ch.skip(d + k), tag, o + d, n + k));
}

/// A line that stands in one version or in both is listed first, as its row shows it.
proof fn lemma_single_listed(
    look: DiffLook,
    ch: Seq<ChangeView>,
    tag: ChangeTag,
    o: int,
    n: int,
    style: crate::style::Style,
)
    requires
        ch.len() > 0,
        ch[0].0 != ChangeTag::Delete,
    ensures
        ({
            let equal = ch[0].0 == ChangeTag::Equal;
            let number = if equal {
                o
            } else {
                n
            };
            let row = look.row(number, mark_of(ch[0].0), without_newlines(ch[0].1), style);
            &&& bears(row, mark_of(ch[0].0))
            &&& listed(look, ch, tag, o, n) == marked(seq![row], mark_of(tag)) + listed(
                look,
                ch.skip(1),
                tag,
                if equal {
                    o + 1
                } else {
                    o
                },
                n + 1,
            )
        }),
{
    lemma_marks_differ();
    let number = if ch[0].0 == ChangeTag::Equal {
        o
    } else {
        n
    };
    let mark = mark_of(ch[0].0);
    let row = look.row(number, mark, without_newlines(ch[0].1), style);
    lemma_row_bears(look, number, mark, without_newlines(ch[0].1), style);
    assert(seq![row].drop_last() =~= Seq::<LineView>::empty());
    assert(marked(Seq::<LineView>::empty(), mark_of(tag)) =~= Seq::<MarkedView>::empty());
    if ch[0].0 == tag {
        assert(marked(seq![row], mark_of(tag)) =~= seq![
            (gutter(look.start + number, look.gw), without_newlines(ch[0].1)),
        ]);
    } else {
        assert(mark_of(tag) != mark);
        assert(!bears(row, mark_of(tag)));
        assert(marked(seq![row], mark_of(tag)) =~= Seq::<MarkedView>::empty());
        assert(listed(look, ch, tag, o, n) =~= marked(seq![row], mark_of(tag)) + listed(
            look,
            ch.skip(1),
            tag,
            if ch[0].0 == ChangeTag::Equal {
                o + 1
            } else {
                o
            },
            n + 1,
        ));
    }
}

proof fn lemma_run_bounds(ch: Seq<ChangeView>, tag: ChangeTag)
    ensures
        0 <= run(ch, tag) <= ch.len(),
        forall|j: int| 0 <= j < run(ch, tag) ==> #[trigger] ch[j].0 == tag,
    decreases ch.len(),
{
    if ch.len() > 0 && ch[0].0 == tag {
        lemma_run_bounds(ch.skip(1), tag);
        assert forall|j: int| 0 <= j < run(ch, tag) implies #[trigger] ch[j].0 == tag by {
            if j > 0 {
                assert(ch[j] == ch.skip(1)[j - 1]);
            }
        }
    }
}

/// The first `i` changes have been told by `out`, with `o` old and `n` new lines among
/// them.
#[verifier::opaque]
spec fn told(
    look: DiffLook,
    cv: Seq<ChangeView>,
    out: Seq<LineView>,
    i: int,
    o: int,
    n: int,
) -> bool {
    forall|tag: ChangeTag| #[trigger]
        marked(out, mark_of(tag)) + listed(look, cv.skip(i), tag, o, n) == listed(
            look,
            cv,
            tag,
            0,
            0,
        )
}

proof fn lemma_told_at_start(look: DiffLook, cv: Seq<ChangeView>)
    ensures
        told(look, cv, Seq::empty(), 0, 0, 0),
{
    reveal(told);
    assert(cv.skip(0) =~= cv);
    let none = Seq::<LineView>::empty();
    assert forall|tag: ChangeTag| #[trigger]
        marked(none, mark_of(tag)) + listed(look, cv.skip(0), tag, 0, 0) == listed(
            look,
            cv,
            tag,
            0,
            0,
        ) by {
        assert(marked(none, mark_of(tag)) =~= Seq::<MarkedView>::empty());
        assert(marked(none, mark_of(tag)) + listed(look, cv, tag, 0, 0) =~= listed(
            look,
            cv,
            tag,
            0,
            0,
        ));
    }
}

proof fn lemma_told_single(
    look: DiffLook,
    cv: Seq<ChangeView>,
    before: Seq<LineView>,
    i: int,
    o: int,
    n: int,
    style: crate::style::Style,
)
    requires
        0 <= i < cv.len(),
        cv[i].0 != ChangeTag::Delete,
        told(look, cv, before, i, o, n),
    ensures
        ({
            let equal = cv[i].0 == ChangeTag::Equal;
            let row = look.row(
                if equal {
                    o
                } else {
                    n
                },
                mark_of(cv[i].0),
                without_newlines(cv[i].1),
                style,
            );
            told(
                look,
                cv,
                before.push(row),
                i + 1,
                if equal {
                    o + 1
                } else {
                    o
                },
                n + 1,
            )
        }),
{
    reveal(told);
    let ch = cv.skip(i);
    assert(ch[0] == cv[i]);
    assert(ch.skip(1) =~= cv.skip(i + 1));
    let equal = cv[i].0 == ChangeTag::Equal;
    let row = look.row(
        if equal {
            o
        } else {
            n
        },
        mark_of(cv[i].0),
        without_newlines(cv[i].1),
        style,
    );
    let o1 = if equal {
        o + 1
    } else {
        o
    };
    let after = before.push(row);
    assert(after =~= before + seq![row]);
    assert forall|tag: ChangeTag| #[trigger]
        marked(after, mark_of(tag)) + listed(look, cv.skip(i + 1), tag, o1, n + 1) == listed(
            look,
            cv,
            tag,
            0,
            0,
        ) by {
        lemma_single_listed(look, ch, tag, o, n, style);
        lemma_marked_add(before, seq![row], mark_of(tag));
        assert(marked(after, mark_of(tag)) + listed(look, cv.skip(i + 1), tag, o1, n + 1)
            =~= marked(before, mark_of(tag)) + listed(look, ch, tag, o, n));
    }
}

proof fn lemma_told_block(
    look: DiffLook,
    cv: Seq<ChangeView>,
    before: Seq<LineView>,
    a: int,
    b: int,
    c: int,
    o: int,
    n: int,
)
    requires
        0 <= a < b <= c <= cv.len(),
        forall|k: int| a <= k < b ==> #[trigger] cv[k].0 == ChangeTag::Delete,
        forall|k: int| b <= k < c ==> #[trigger] cv[k].0 == ChangeTag::Insert,
        pairs_agree(cv.subrange(a, b), cv.subrange(b, c)),
        told(look, cv, before, a, o, n),
    ensures
        told(
            look,
            cv,
            before + look.block_rows(cv.subrange(a, b), cv.subrange(b, c), o, n),
            c,
            o + (b - a),
            n + (c - b),
        ),
        look.block_rows(cv.subrange(a, b), cv.subrange(b, c), o, n).len() == c - a,
{
    reveal(told);
    let ch = cv.skip(a);
    let d = b - a;
    let k = c - b;
    assert(cv.subrange(a, b) =~= ch.take(d));
    assert(cv.subrange(b, c) =~= ch.subrange(d, d + k));
    assert(ch.skip(d + k) =~= cv.skip(c));
    assert forall|j: int| 0 <= j < d implies #[trigger] ch[j].0 == ChangeTag::Delete by {
        assert(ch[j] == cv[a + j]);
    }
    assert forall|j: int| d <= j < d + k implies #[trigger] ch[j].0 == ChangeTag::Insert by {
        assert(ch[j] == cv[a + j]);
    }
    let block = look.block_rows(ch.take(d), ch.subrange(d, d + k), o, n);
    let after = before + block;
    assert forall|tag: ChangeTag| #[trigger]
        marked(after, mark_of(tag)) + listed(look, cv.skip(c), tag, o + d, n + k) == listed(
            look,
            cv,
            tag,
            0,
            0,
        ) by {
        lemma_block_listed(look, ch, tag, d, k, o, n);
        lemma_marked_add(before, block, mark_of(tag));
        assert(marked(after, mark_of(tag)) + listed(look, cv.skip(c), tag, o + d, n + k)
            =~= marked(before, mark_of(tag)) + listed(look, ch, tag, o, n));
    }
    lemma_block_listed(look, ch, ChangeTag::Equal, d, k, o, n);
}

proof fn lemma_told_at_end(
    look: DiffLook,
    cv: Seq<ChangeView>,
    out: Seq<LineView>,
    o: int,
    n: int,
)
    requires
        told(look, cv, out, cv.len() as int, o, n),
    ensures
        forall|tag: ChangeTag| #[trigger]
            marked(out, mark_of(tag)) == listed(look, cv, tag, 0, 0),
{
    reveal(told);
    assert forall|tag: ChangeTag| #[trigger]
        marked(out, mark_of(tag)) == listed(look, cv, tag, 0, 0) by {
        let none = listed(look, cv.skip(cv.len() as int), tag, o, n);
        assert(none =~= Seq::<MarkedView>::empty());
        assert(marked(out, mark_of(tag)) + none =~= marked(out, mark_of(tag)));
    }
}

/// Every change has exactly one row.  The rows with the mark of a tag are, in their
/// order, the lines behind the changes with that tag, without their line feeds and with
/// the numbers that they have in their version; what stands in both versions keeps its
/// place among all rows.  The lines that are shown character by character are told in
/// full, as the character diffs put them together again.
pub proof fn law_every_change_has_its_row(
    look: DiffLook,
    ch: Seq<ChangeView>,
    o: int,
    n: int,
)
    requires
        forall|a: Seq<char>, b: Seq<char>| #[trigger] chars_agree(a, b),
    ensures
        look.rows(ch, o, n).len() == ch.len(),
        forall|tag: ChangeTag| #[trigger]
            marked(look.rows(ch, o, n), mark_of(tag)) == listed(look, ch, tag, o, n),
        forall|i: int|
            0 <= i < ch.len() && (#[trigger] ch[i]).0 == ChangeTag::Equal ==> bears(
                look.rows(ch, o, n)[i],
                mark_of(ChangeTag::Equal),
            ),
    decreases ch.len(),
{
    reveal(DiffLook::rows);
    let rows = look.rows(ch, o, n);
    if ch.len() == 0 {
    } else if ch[0].0 != ChangeTag::Delete {
        let equal = ch[0].0 == ChangeTag::Equal;
        let o1 = if equal {
            o + 1
        } else {
            o
        };
        law_every_change_has_its_row(look, ch.skip(1), o1, n + 1);
        let rest = look.rows(ch.skip(1), o1, n + 1);
        let style = if equal {
            look.theme.diff_context()
        } else {
            look.theme.diff_added()
        };
        let row = rows[0];
        assert(rows =~= seq![row] + rest);
        assert forall|tag: ChangeTag| #[trigger]
            marked(rows, mark_of(tag)) == listed(look, ch, tag, o, n) by {
            lemma_single_listed(look, ch, tag, o, n, style);
            lemma_marked_add(seq![row], rest, mark_of(tag));
            assert(marked(rest, mark_of(tag)) == listed(look, ch.skip(1), tag, o1, n + 1));
        }
        lemma_single_listed(look, ch, ChangeTag::Equal, o, n, style);
        assert forall|i: int|
            0 <= i < ch.len() && (#[trigger] ch[i]).0 == ChangeTag::Equal implies bears(
            rows[i],
            mark_of(ChangeTag::Equal),
        ) by {
            if i > 0 {
                assert(ch.skip(1)[i - 1] == ch[i]);
                assert(rows[i] == rest[i - 1]);
            }
        }
    } else {
        let d = run(ch, ChangeTag::Delete);
        let k = run(ch.skip(d), ChangeTag::Insert);
        lemma_run_bounds(ch, ChangeTag::Delete);
        lemma_run_bounds(ch.skip(d), ChangeTag::Insert);
        assert(ch.skip(1).len() == ch.len() - 1);
        lemma_run_bounds(ch.skip(1), ChangeTag::Delete);
        assert forall|j: int| d <= j < d + k implies #[trigger] ch[j].0 == ChangeTag::Insert by {
            assert(ch[j] == ch.skip(d)[j - d]);
        }
        law_every_change_has_its_row(look, ch.skip(d + k), o + d, n + k);
        let block = look.block_rows(ch.take(d), ch.subrange(d, d + k), o, n);
        let rest = look.rows(ch.skip(d + k), o + d, n + k);
        assert(rows =~= block + rest);
        assert forall|tag: ChangeTag| #[trigger]
            marked(rows, mark_of(tag)) == listed(look, ch, tag, o, n) by {
            lemma_block_listed(look, ch, tag, d, k, o, n);
            lemma_marked_add(block, rest, mark_of(tag));
            assert(marked(rest, mark_of(tag)) == listed(
                look,
                ch.skip(d + k),
                tag,
                o + d,
                n + k,
            ));
        }
        lemma_block_listed(look, ch, ChangeTag::Equal, d, k, o, n);
        assert forall|i: int|
            0 <= i < ch.len() && (#[trigger] ch[i]).0 == ChangeTag::Equal implies bears(
            rows[i],
            mark_of(ChangeTag::Equal),
        ) by {
            if i >= d + k {
                assert(ch.skip(d + k)[i - (d + k)] == ch[i]);
                assert(rows[i] == rest[i - (d + k)]);
            }
        }
    }
}

/// A line is shown without the line feeds at its end, and with all that stands before
/// them.
pub proof fn law_only_line_feeds_are_stripped(s: Seq<char>)
    ensures
        ({
            let t = without_newlines(s);
            &&& t.is_prefix_of(s)
            &&& forall|i: int| t.len() <= i < s.len() ==> #[trigger] s[i] == '\n'
            &&& t.len() > 0 ==> t.last() != '\n'
        }),
    decreases s.len(),
{
    if s.len() > 0 && s.last() == '\n' {
        law_only_line_feeds_are_stripped(s.drop_last());
        let t = without_newlines(s);
        assert forall|i: int| t.len() <= i < s.len() implies #[trigger] s[i] == '\n' by {
            if i < s.len() - 1 {
                assert(s.drop_last()[i] == s[i]);
            }
        }
    }
}

/// What the parts say that differ, or those that do not.
pub open spec fn parts_text(parts: Seq<PartView>, differs: bool) -> Seq<char>
    decreases parts.len(),
{
    if parts.len() == 0 {
        Seq::empty()
    } else if parts.last().1 == differs {
        parts_text(parts.drop_last(), differs) + parts.last().0
    } else {
        parts_text(parts.drop_last(), differs)
    }
}

/// What the changes with a tag say.
pub open spec fn changes_text(changes: Seq<ChangeView>, tag: ChangeTag) -> Seq<char>
    decreases changes.len(),
{
    if changes.len() == 0 {
        Seq::empty()
    } else if changes.last().0 == tag {
        changes_text(changes.drop_last(), tag) + changes.last().1
    } else {
        changes_text(changes.drop_last(), tag)
    }
}

proof fn lemma_part_joins(parts: Seq<PartView>, text: Seq<char>, differs: bool, asked: bool)
    ensures
        parts_text(with_part(parts, text, differs), asked) == (if asked == differs {
            parts_text(parts, asked) + text
        } else {
            parts_text(parts, asked)
        }),
{
    let after = with_part(parts, text, differs);
    if parts.len() > 0 && parts.last().1 == differs {
        assert(after.drop_last() =~= parts.drop_last());
        assert(parts_text(parts.drop_last(), asked) + (parts.last().0 + text) =~= (parts_text(
            parts.drop_last(),
            asked,
        ) + parts.last().0) + text);
    } else {
        assert(after.drop_last() =~= parts);
    }
}

/// What a version shows as highlighted is what only that version has, what it shows
/// plain stands in both, and the two take turns.
pub proof fn law_highlighted_parts_differ(
    changes: Seq<ChangeView>,
    own: ChangeTag,
    plain: crate::style::Style,
    hl: crate::style::Style,
)
    requires
        own != ChangeTag::Equal,
    ensures
        ({
            let parts = parts_of(changes, own);
            let spans = part_spans(parts, plain, hl);
            &&& parts_text(parts, true) == changes_text(changes, own)
            &&& parts_text(parts, false) == changes_text(changes, ChangeTag::Equal)
            &&& forall|i: int| 0 < i < parts.len() ==> (#[trigger] parts[i]).1 != parts[i - 1].1
            &&& spans.len() == parts.len()
            &&& forall|i: int|
                0 <= i < parts.len() ==> {
                    &&& (#[trigger] spans[i]).content == parts[i].0
                    &&& parts[i].1 ==> spans[i].style == hl
                    &&& !parts[i].1 ==> spans[i].style == plain
                }
        }),
    decreases changes.len(),
{
    if changes.len() > 0 {
        law_highlighted_parts_differ(changes.drop_last(), own, plain, hl);
        let before = parts_of(changes.drop_last(), own);
        let (tag, text) = changes.last();
        let parts = parts_of(changes, own);
        if tag == ChangeTag::Equal || tag == own {
            let differs = tag != ChangeTag::Equal;
            lemma_part_joins(before, text, differs, true);
            lemma_part_joins(before, text, differs, false);
            assert(parts == with_part(before, text, differs));
            assert forall|i: int| 0 < i < parts.len() implies (#[trigger] parts[i]).1 != parts[i
                - 1].1 by {
                if i < before.len() {
                    assert(before[i].1 != before[i - 1].1);
                }
            }
        }
    }
}

// ── a new file ───────────────────────────────────────────────────────────────

/// How many lines of a new file are shown.
pub const MAX_PREVIEW: usize = 20;

/// The lines that show the start of a new file, and how many more it has.
pub open spec fn write_rows(theme: Theme, content: Seq<char>) -> Seq<LineView> {
    let all = lines(content);
    let gw = decimal(all.len()).len();
    let shown = Seq::new(
        if all.len() <= MAX_PREVIEW {
            all.len()
        } else {
            MAX_PREVIEW as nat
        },
        |i: int|
            seq![
                span_of(gutter(i + 1, gw), theme.diff_context()),
                span_of("+ "@ + all[i], theme.diff_added()),
            ],
    );
    if all.len() <= MAX_PREVIEW {
        shown
    } else {
        shown.push(
            seq![
                span_of(
                    "  "@ + spaces(gw) + "   ... ("@ + decimal((all.len() - MAX_PREVIEW) as nat)
                        + " more lines)"@,
                    theme.diff_context(),
                ),
            ],
        )
    }
}

/// The lines that show the start of a new file.
pub fn build_write_lines(theme: &Theme, content: &str) -> (r: Vec<Line>)
    ensures
        r.deep_view() == write_rows(*theme, content@),
{
    let all = split_lines(content);
    let ghost av = lines(content@);
    let total: usize = all.len();
    assert(av.len() == total);
    let gw: usize = count_text(total).as_str().unicode_len();
    let ghost goal = write_rows(*theme, content@);
    let mut out: Vec<Line> = Vec::new();
    let mut i: usize = 0;
    let shown: usize = if total <= MAX_PREVIEW {
        total
    } else {
        MAX_PREVIEW
    };
    assert(out.deep_view() =~= goal.take(0));
    while i < shown
        invariant
            i <= shown <= total,
            shown <= MAX_PREVIEW,
            total == all@.len(),
            all.deep_view() == av,
            av == lines(content@),
            gw == decimal(av.len()).len(),
            goal == write_rows(*theme, content@),
            shown == (if av.len() <= MAX_PREVIEW {
                av.len() as int
            } else {
                MAX_PREVIEW as int
            }),
            out.deep_view() == goal.take(i as int),
        decreases shown - i,
    {
        let ghost before = out.deep_view();
        let mut s = "+ ".to_owned();
        s.append(all[i].as_str());
        assert(av[i as int] == all@[i as int]@);
        let line = Line::two(
            Span::new(gutter_text((i + 1) as u128, gw), theme.diff_context()),
            Span::new(s, theme.diff_added()),
        );
        assert(line.deep_view() =~= goal[i as int]);
        out.push(line);
        assert(out.deep_view() =~= before.push(goal[i as int]));
        assert(out.deep_view() =~= goal.take(i + 1));
        i = i + 1;
    }
    if total > MAX_PREVIEW {
        let ghost before = out.deep_view();
        let mut s = "  ".to_owned();
        s.append(blanks(gw).as_str());
        s.append("   ... (");
        s.append(count_text(total - MAX_PREVIEW).as_str());
        s.append(" more lines)");
        let line = Line::one(Span::new(s, theme.diff_context()));
        assert(line.deep_view() =~= goal[MAX_PREVIEW as int]);
        out.push(line);
        assert(out.deep_view() =~= before.push(goal[MAX_PREVIEW as int]));
    }
    assert(out.deep_view() =~= goal);
    out
}

/// A diff is numbered from the line at which it starts, or from one where that is not known;
/// its gutter has room for every number.
pub proof fn law_diff_starts_at_its_line(
    theme: Theme,
    old_text: Seq<char>,
    new_text: Seq<char>,
    line: usize,
)
    ensures
        diff_look(theme, old_text, new_text, Some(line)).start == line,
        diff_look(theme, old_text, new_text, None).start == 1,
        diff_look(theme, old_text, new_text, Some(line)).theme == theme,
        lines(new_text).len() <= lines(old_text).len() ==> diff_look(
            theme,
            old_text,
            new_text,
            Some(line),
        ).gw == decimal((line + lines(old_text).len()) as nat).len(),
        lines(old_text).len() <= lines(new_text).len() ==> diff_look(
            theme,
            old_text,
            new_text,
            Some(line),
        ).gw == decimal((line + lines(new_text).len()) as nat).len(),
{
}

} // verus!
