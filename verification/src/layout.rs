//! How the input is broken into rows.
use crate::seqs::least;
use crate::style::{LineView, Span};
use crate::text::{
    bytes, byte_len, char_width, lemma_bytes_take, lemma_bytes_take_le,
    lemma_char_pos_of_prefix, push_char, to_chars, width,
};
use vstd::prelude::*;

verus! {

/// How many columns a character takes, by the tables of `unicode-width`;
/// nothing for a control character.
pub uninterp spec fn cell_width(c: char) -> Option<usize>;

/// `unicode_width::UnicodeWidthChar::width`: a function of the character.
#[verifier::external_body]
fn width_of(c: char) -> (r: Option<usize>)
    ensures
        r == cell_width(c),
{
    unicode_width::UnicodeWidthChar::width(c)
}

/// How many columns a text takes, by the tables of `unicode-width`.
pub uninterp spec fn text_width(s: Seq<char>) -> usize;

/// `unicode_width::UnicodeWidthStr::width`: a function of the text.
#[verifier::external_body]
fn width_of_text(s: &str) -> (r: usize)
    ensures
        r == text_width(s@),
{
    unicode_width::UnicodeWidthStr::width(s)
}

/// How many columns spans take side by side, as far as the number fits.
pub open spec fn spans_width(spans: LineView) -> usize
    decreases spans.len(),
{
    if spans.len() == 0 {
        0
    } else {
        least(
            spans_width(spans.drop_last()) + text_width(spans.last().content),
            usize::MAX as int,
        ) as usize
    }
}

/// How many columns spans take side by side.
pub fn line_columns(spans: &Vec<Span>) -> (r: usize)
    ensures
        r == spans_width(spans.deep_view()),
{
    let ghost sv = spans.deep_view();
    let mut total: usize = 0;
    let mut i: usize = 0;
    while i < spans.len()
        invariant
            i <= spans@.len(),
            sv == spans.deep_view(),
            total == spans_width(sv.take(i as int)),
        decreases spans@.len() - i,
    {
        assert(sv[i as int] == spans@[i as int].deep_view());
        assert(sv.take(i + 1).drop_last() =~= sv.take(i as int));
        total = total.saturating_add(width_of_text(spans[i].content.as_str()));
        i = i + 1;
    }
    assert(sv.take(i as int) =~= sv);
    total
}

/// How many columns a character takes; a control character takes none.
pub open spec fn columns_of(c: char) -> int {
    match cell_width(c) {
        Some(w) => w as int,
        None => 0,
    }
}

/// A row of the input: its text, the bytes of the input that it shows, and
/// which byte stands at which column.
#[derive(Debug, PartialEq, Eq)]
pub struct InputVisualRow {
    pub text: String,
    pub start: usize,
    pub end: usize,
    pub columns: Vec<(usize, usize)>,
}

#[verifier::ext_equal]
pub struct RowView {
    pub text: Seq<char>,
    pub start: int,
    pub end: int,
    pub columns: Seq<(int, int)>,
}

/// Pairs of numbers, as numbers.
pub open spec fn pairs(v: Seq<(usize, usize)>) -> Seq<(int, int)> {
    v.map_values(|p: (usize, usize)| (p.0 as int, p.1 as int))
}

impl DeepView for InputVisualRow {
    type V = RowView;

    open spec fn deep_view(&self) -> RowView {
        RowView {
            text: self.text@,
            start: self.start as int,
            end: self.end as int,
            columns: pairs(self.columns@),
        }
    }
}

/// The rows of the input, and where the cursor is.
#[derive(Debug, PartialEq, Eq)]
pub struct InputVisualLayout {
    pub rows: Vec<InputVisualRow>,
    pub cursor_row: usize,
    pub cursor_col: usize,
    pub cursor_text_col: usize,
}

#[verifier::ext_equal]
pub struct LayoutView {
    pub rows: Seq<RowView>,
    pub cursor_row: int,
    pub cursor_col: int,
    pub cursor_text_col: int,
}

impl DeepView for InputVisualLayout {
    type V = LayoutView;

    open spec fn deep_view(&self) -> LayoutView {
        LayoutView {
            rows: self.rows.deep_view(),
            cursor_row: self.cursor_row as int,
            cursor_col: self.cursor_col as int,
            cursor_text_col: self.cursor_text_col as int,
        }
    }
}

/// The offset behind the last leading column that is not beyond `preferred`.
pub open spec fn offset_at(columns: Seq<(int, int)>, preferred: int, otherwise: int) -> int
    decreases columns.len(),
{
    if columns.len() == 0 || columns[0].0 > preferred {
        otherwise
    } else {
        offset_at(columns.drop_first(), preferred, columns[0].1)
    }
}

impl LayoutView {
    /// The byte that the cursor goes to in a row, near a column.
    pub open spec fn offset_for(self, row: int, preferred: int) -> int {
        if 0 <= row < self.rows.len() {
            offset_at(self.rows[row].columns, preferred, self.rows[row].end)
        } else {
            0
        }
    }
}

impl InputVisualLayout {
    /// Number of rows, at least one.
    pub fn total_rows(&self) -> (r: usize)
        ensures
            r == (if self.rows@.len() > 0 {
                self.rows@.len() as int
            } else {
                1
            }),
    {
        if self.rows.len() > 0 {
            self.rows.len()
        } else {
            1
        }
    }

    /// The byte that the cursor goes to in a row, near a column.
    pub fn cursor_offset_for_row_col(&self, row: usize, preferred_col: usize) -> (r: usize)
        ensures
            r == self.deep_view().offset_for(row as int, preferred_col as int),
    {
        if row >= self.rows.len() {
            return 0;
        }
        let line = &self.rows[row];
        let ghost cv = pairs(line.columns@);
        let mut best: usize = line.end;
        let mut i: usize = 0;
        assert(cv.skip(0) =~= cv);
        assert(self.deep_view().rows[row as int] == line.deep_view());
        while i < line.columns.len()
            invariant
                i <= line.columns@.len(),
                cv == pairs(line.columns@),
                offset_at(cv.skip(i as int), preferred_col as int, best as int)
                    == self.deep_view().offset_for(row as int, preferred_col as int),
            decreases line.columns@.len() - i,
        {
            assert(cv.skip(i as int)[0] == cv[i as int]);
            assert(cv.skip(i as int).drop_first() =~= cv.skip(i + 1));
            if line.columns[i].0 > preferred_col {
                return best;
            }
            best = line.columns[i].1;
            i = i + 1;
        }
        best
    }
}

/// A layout under construction: the finished rows, the row that is being
/// filled, the column reached on the screen and in the row, and the place of
/// the cursor once it is passed.
#[verifier::ext_equal]
pub struct Filling {
    pub rows: Seq<RowView>,
    pub text: Seq<char>,
    pub start: int,
    pub end: int,
    pub columns: Seq<(int, int)>,
    pub col: int,
    pub text_col: int,
    pub cursor: Option<(int, int, int)>,
}

impl Filling {
    /// Nothing filled in; the first row starts behind the prompt.
    pub open spec fn begin(cursor: int, prefix: int) -> Filling {
        Filling {
            rows: Seq::empty(),
            text: Seq::empty(),
            start: 0,
            end: 0,
            columns: seq![(0int, 0int)],
            col: prefix,
            text_col: 0,
            cursor: if cursor == 0 {
                Some((0int, prefix, 0int))
            } else {
                None
            },
        }
    }

    /// The row that is being filled.
    pub open spec fn row(self) -> RowView {
        RowView { text: self.text, start: self.start, end: self.end, columns: self.columns }
    }

    /// With the row finished and the next one begun at byte `next`.
    pub open spec fn broken(self, next: int) -> Filling {
        Filling {
            rows: self.rows.push(self.row()),
            text: Seq::empty(),
            start: next,
            end: next,
            columns: seq![(0int, next)],
            col: 0,
            text_col: 0,
            cursor: self.cursor,
        }
    }

    /// With the place of the cursor, where it stands at byte `at`.
    pub open spec fn marked(self, cursor: int, at: int) -> Filling {
        if self.cursor is None && at == cursor {
            Filling {
                cursor: Some((self.rows.len() as int, self.col, self.text_col)),
                ..self
            }
        } else {
            self
        }
    }

    /// With a character of the row.
    pub open spec fn put(self, c: char, w: int, at: int) -> Filling {
        let end = at + width(c);
        Filling {
            text: self.text.push(c),
            end,
            columns: self.columns.push((self.text_col + w, end)),
            col: self.col + w,
            text_col: self.text_col + w,
            ..self
        }
    }

    /// With the character at byte `at`, which takes `w` columns: a line feed
    /// ends the row, a character that does not fit begins a new one.
    pub open spec fn step(
        self,
        c: char,
        w: int,
        at: int,
        cursor: int,
        line_width: int,
    ) -> Filling {
        let s = self.marked(cursor, at);
        if c == '\n' {
            (Filling { end: at, ..s }).broken(at + width(c))
        } else if w > 0 && s.col + w > line_width {
            s.broken(at).put(c, w, at)
        } else {
            s.put(c, w, at)
        }
    }
}

/// The layout of a text, under construction; `widths` are the columns that
/// its characters take.
pub open spec fn filled(
    input: Seq<char>,
    widths: Seq<int>,
    cursor: int,
    line_width: int,
    prefix: int,
) -> Filling
    decreases input.len(),
{
    if input.len() == 0 {
        Filling::begin(cursor, prefix)
    } else {
        filled(input.drop_last(), widths, cursor, line_width, prefix).step(
            input.last(),
            widths[input.len() - 1],
            bytes(input.drop_last()) as int,
            cursor,
            line_width,
        )
    }
}

/// The rows of the input on lines of `line_width` columns (at least one), the
/// first behind a prompt of `prefix` columns, and the place of the cursor.
pub open spec fn layout_with(
    input: Seq<char>,
    widths: Seq<int>,
    cursor: int,
    line_width: int,
    prefix: int,
) -> LayoutView {
    let w = if line_width < 1 {
        1
    } else {
        line_width
    };
    let f = filled(input, widths, cursor, w, prefix).marked(cursor, bytes(input) as int);
    let at = match f.cursor {
        Some(p) => p,
        None => (0int, prefix, 0int),
    };
    LayoutView {
        rows: f.rows.push(f.row()),
        cursor_row: at.0,
        cursor_col: at.1,
        cursor_text_col: at.2,
    }
}

/// The columns that the characters of a text take.
pub open spec fn widths_of(input: Seq<char>) -> Seq<int> {
    input.map_values(|c: char| columns_of(c))
}

/// The layout of the input, with the columns that its characters take.
pub open spec fn layout_of(
    input: Seq<char>,
    cursor: int,
    line_width: int,
    prefix: int,
) -> LayoutView {
    layout_with(input, widths_of(input), cursor, line_width, prefix)
}

fn finish_row(
    rows: &mut Vec<InputVisualRow>,
    text: String,
    start: usize,
    end: usize,
    columns: Vec<(usize, usize)>,
)
    ensures
        final(rows).deep_view() == old(rows).deep_view().push(
            RowView {
                text: text@,
                start: start as int,
                end: end as int,
                columns: pairs(columns@),
            },
        ),
{
    let ghost before = rows.deep_view();
    let row = InputVisualRow { text, start, end, columns };
    rows.push(row);
    assert(rows.deep_view() =~= before.push(row.deep_view()));
}

/// The rows of the input, and the place of the cursor.
pub fn build_input_visual_layout(
    input: &str,
    input_cursor: usize,
    line_width: usize,
    prefix_width: usize,
) -> (r: InputVisualLayout)
    ensures
        r.deep_view() == layout_of(
            input@,
            input_cursor as int,
            line_width as int,
            prefix_width as int,
        ),
{
    let v = to_chars(input);
    let mut widths: Vec<usize> = Vec::new();
    let mut i: usize = 0;
    while i < v.len()
        invariant
            i <= v@.len(),
            v@ == input@,
            numbers(widths@) == widths_of(input@).take(i as int),
        decreases v@.len() - i,
    {
        let ghost before = numbers(widths@);
        let w: usize = match width_of(v[i]) {
            Some(w) => w,
            None => 0,
        };
        widths.push(w);
        assert(numbers(widths@) =~= before.push(w as int));
        assert(numbers(widths@) =~= widths_of(input@).take(i + 1));
        i = i + 1;
    }
    assert(numbers(widths@) =~= widths_of(input@));
    lay_out(input, &widths, input_cursor, line_width, prefix_width)
}

/// Machine numbers, as numbers.
pub open spec fn numbers(v: Seq<usize>) -> Seq<int> {
    v.map_values(|n: usize| n as int)
}

/// The rows of the input, and the place of the cursor, when the columns that
/// its characters take are known.
pub fn lay_out(
    input: &str,
    widths: &Vec<usize>,
    input_cursor: usize,
    line_width: usize,
    prefix_width: usize,
) -> (r: InputVisualLayout)
    requires
        widths@.len() == input@.len(),
    ensures
        r.deep_view() == layout_with(
            input@,
            numbers(widths@),
            input_cursor as int,
            line_width as int,
            prefix_width as int,
        ),
{
    let ghost wv = numbers(widths@);
    let line_width: usize = if line_width < 1 {
        1
    } else {
        line_width
    };
    let total: usize = byte_len(input);
    let v = to_chars(input);
    let mut rows: Vec<InputVisualRow> = Vec::new();
    let mut text = String::new();
    let mut columns: Vec<(usize, usize)> = Vec::new();
    columns.push((0, 0));
    let mut start: usize = 0;
    let mut end: usize = 0;
    let mut col: usize = prefix_width;
    let mut text_col: usize = 0;
    let mut cursor: Option<(usize, usize, usize)> = if input_cursor == 0 {
        Some((0, prefix_width, 0))
    } else {
        None
    };
    let mut at: usize = 0;
    let mut i: usize = 0;
    let ghost goal = Filling::begin(input_cursor as int, prefix_width as int);
    proof {
        assert(input@.take(0) =~= Seq::<char>::empty());
        assert(rows.deep_view() =~= goal.rows);
        assert(pairs(columns@) =~= goal.columns);
    }
    while i < v.len()
        invariant
            i <= v@.len(),
            v@ == input@,
            widths@.len() == input@.len(),
            wv == numbers(widths@),
            line_width >= 1,
            total == bytes(input@),
            at == bytes(input@.take(i as int)),
            at <= total,
            text_col <= col,
            ({
                let f = filled(
                    input@.take(i as int),
                    wv,
                    input_cursor as int,
                    line_width as int,
                    prefix_width as int,
                );
                &&& f.rows == rows.deep_view()
                &&& f.text == text@
                &&& f.start == start
                &&& f.end == end
                &&& f.columns == pairs(columns@)
                &&& f.col == col
                &&& f.text_col == text_col
                &&& match (f.cursor, cursor) {
                    (Some(a), Some(b)) => a.0 == b.0 && a.1 == b.1 && a.2 == b.2,
                    (None, None) => true,
                    _ => false,
                }
            }),
        decreases v@.len() - i,
    {
        let c = v[i];
        proof {
            assert(input@.take(i + 1).drop_last() =~= input@.take(i as int));
            assert(input@.take(i + 1).last() == c);
            lemma_bytes_take(input@, i as int);
            lemma_bytes_take_le(input@, i + 1, i + 1);
        }
        if cursor.is_none() && at == input_cursor {
            cursor = Some((rows.len(), col, text_col));
        }
        let next: usize = at + char_width(c);
        if c == '\n' {
            let done = text;
            let marks = columns;
            finish_row(&mut rows, done, start, at, marks);
            text = String::new();
            columns = Vec::new();
            columns.push((0, next));
            start = next;
            end = next;
            col = 0;
            text_col = 0;
            assert(pairs(columns@) =~= seq![(0int, next as int)]);
        } else {
            let w: usize = widths[i];
            assert(wv[i as int] == w);
            if w > 0 && (col > line_width || w > line_width - col) {
                let done = text;
                let marks = columns;
                finish_row(&mut rows, done, start, end, marks);
                text = String::new();
                columns = Vec::new();
                columns.push((0, at));
                start = at;
                col = 0;
                text_col = 0;
                assert(pairs(columns@) =~= seq![(0int, at as int)]);
            }
            let ghost marks = pairs(columns@);
            push_char(&mut text, c);
            col = col + w;
            text_col = text_col + w;
            end = next;
            columns.push((text_col, end));
            assert(pairs(columns@) =~= marks.push((text_col as int, end as int)));
        }
        at = next;
        i = i + 1;
    }
    assert(input@.take(input@.len() as int) =~= input@);
    if cursor.is_none() && input_cursor == total {
        cursor = Some((rows.len(), col, text_col));
    }
    finish_row(&mut rows, text, start, end, columns);
    match cursor {
        Some(p) => InputVisualLayout {
            rows,
            cursor_row: p.0,
            cursor_col: p.1,
            cursor_text_col: p.2,
        },
        None => InputVisualLayout {
            rows,
            cursor_row: 0,
            cursor_col: prefix_width,
            cursor_text_col: 0,
        },
    }
}


// ── laws ─────────────────────────────────────────────────────────────────────

/// `b` is the byte position of a character of `input`, or its end.
pub open spec fn good_offset(input: Seq<char>, b: int) -> bool {
    exists|k: int| 0 <= k <= input.len() && b == bytes(#[trigger] input.take(k))
}

/// The row shows the bytes of the input that it says it shows, and all its
/// columns stand for positions between characters.
pub open spec fn shows(input: Seq<char>, row: RowView) -> bool {
    &&& exists|a: int, b: int|
        {
            &&& 0 <= a <= b <= input.len()
            &&& row.start == bytes(#[trigger] input.take(a))
            &&& row.end == bytes(#[trigger] input.take(b))
            &&& row.text == input.subrange(a, b)
        }
    &&& forall|i: int| 0 <= i < row.columns.len() ==> good_offset(input, #[trigger] row.columns[i].1)
}

/// The next row begins where the row ends, or behind the line feed there.
pub open spec fn joins(input: Seq<char>, row: RowView, next: int) -> bool {
    ||| next == row.end
    ||| exists|k: int|
        {
            &&& 0 <= k < input.len()
            &&& input[k] == '\n'
            &&& row.end == bytes(#[trigger] input.take(k))
            &&& next == row.end + 1
        }
}

/// Rows that show the first `k` characters of the input, gaplessly.
spec fn sound(input: Seq<char>, f: Filling, k: int) -> bool {
    &&& forall|i: int| 0 <= i < f.rows.len() ==> shows(input, #[trigger] f.rows[i])
    &&& forall|i: int|
        0 < i < f.rows.len() ==> joins(input, f.rows[i - 1], (#[trigger] f.rows[i]).start)
    &&& f.rows.len() > 0 ==> f.rows[0].start == 0 && joins(input, f.rows.last(), f.start)
    &&& f.rows.len() == 0 ==> f.start == 0
    &&& f.end == bytes(input.take(k))
    &&& shows(input, f.row())
    &&& exists|a: int|
        0 <= a <= k && f.start == bytes(#[trigger] input.take(a)) && f.text == input.subrange(a, k)
}

proof fn lemma_marked_sound(input: Seq<char>, f: Filling, k: int, cursor: int, at: int)
    requires
        sound(input, f, k),
    ensures
        sound(input, f.marked(cursor, at), k),
{
    assert(f.marked(cursor, at).row() == f.row());
    assert(f.marked(cursor, at).rows == f.rows);
}

proof fn lemma_broken_sound(input: Seq<char>, f: Filling, k: int, n: int)
    requires
        0 <= k <= n <= input.len(),
        sound(input, f, k),
        n == k || (n == k + 1 && input[k] == '\n'),
    ensures
        sound(input, f.broken(bytes(input.take(n)) as int), n),
{
    let next = bytes(input.take(n)) as int;
    let g = f.broken(next);
    if n == k + 1 {
        lemma_bytes_take(input, k);
    }
    assert(joins(input, f.row(), next));
    assert forall|i: int| 0 <= i < g.rows.len() implies shows(input, #[trigger] g.rows[i]) by {
        if i < f.rows.len() {
            assert(g.rows[i] == f.rows[i]);
        } else {
            assert(g.rows[i] == f.row());
        }
    }
    assert forall|i: int| 0 < i < g.rows.len() implies joins(
        input,
        g.rows[i - 1],
        (#[trigger] g.rows[i]).start,
    ) by {
        assert(g.rows[i - 1] == f.rows[i - 1]);
        if i < f.rows.len() {
            assert(g.rows[i] == f.rows[i]);
        } else {
            assert(g.rows[i] == f.row());
            assert(f.rows.last() == f.rows[i - 1]);
        }
    }
    assert(g.rows.last() == f.row());
    if f.rows.len() == 0 {
        assert(g.rows[0] == f.row());
    } else {
        assert(g.rows[0] == f.rows[0]);
    }
    assert(good_offset(input, next)) by {
        assert(next == bytes(input.take(n)));
    }
    assert(g.text =~= input.subrange(n, n));
    assert(g.row().columns[0].1 == next);
    assert(shows(input, g.row())) by {
        assert(g.row().start == bytes(input.take(n)));
        assert(g.row().text == input.subrange(n, n));
    }
    assert(0 <= n <= n && g.start == bytes(input.take(n)) && g.text == input.subrange(n, n));
}

proof fn lemma_put_sound(input: Seq<char>, f: Filling, k: int, w: int)
    requires
        0 <= k < input.len(),
        sound(input, f, k),
    ensures
        sound(input, f.put(input[k], w, bytes(input.take(k)) as int), k + 1),
{
    let g = f.put(input[k], w, bytes(input.take(k)) as int);
    lemma_bytes_take(input, k);
    let a = choose|a: int|
        0 <= a <= k && f.start == bytes(#[trigger] input.take(a)) && f.text == input.subrange(a, k);
    assert(g.text =~= input.subrange(a, k + 1));
    assert(g.end == bytes(input.take(k + 1)));
    assert(good_offset(input, g.end));
    assert forall|i: int| 0 <= i < g.columns.len() implies good_offset(
        input,
        #[trigger] g.columns[i].1,
    ) by {
        if i < f.columns.len() {
            assert(f.row().columns[i] == g.columns[i]);
        }
    }
    assert(shows(input, g.row())) by {
        assert(g.row().start == bytes(input.take(a)));
        assert(g.row().end == bytes(input.take(k + 1)));
    }
    assert(g.rows == f.rows);
    assert(0 <= a <= k + 1 && g.start == bytes(input.take(a)) && g.text == input.subrange(a, k + 1));
}

proof fn lemma_filled_sound(
    input: Seq<char>,
    widths: Seq<int>,
    cursor: int,
    line_width: int,
    prefix: int,
    k: int,
)
    requires
        0 <= k <= input.len(),
    ensures
        sound(input, filled(input.take(k), widths, cursor, line_width, prefix), k),
    decreases k,
{
    let f = filled(input.take(k), widths, cursor, line_width, prefix);
    if k == 0 {
        assert(input.take(0) =~= Seq::<char>::empty());
        assert(bytes(input.take(0)) == 0);
        assert(f.text =~= input.subrange(0, 0));
        assert(good_offset(input, 0));
        assert(f.row().columns[0].1 == 0);
        assert(shows(input, f.row())) by {
            assert(f.row().start == bytes(input.take(0)));
        }
        assert(0 <= 0 <= 0 && f.start == bytes(input.take(0)) && f.text == input.subrange(0, 0));
    } else {
        let p = filled(input.take(k - 1), widths, cursor, line_width, prefix);
        lemma_filled_sound(input, widths, cursor, line_width, prefix, k - 1);
        assert(input.take(k).drop_last() =~= input.take(k - 1));
        let at = bytes(input.take(k - 1)) as int;
        let c = input[k - 1];
        assert(input.take(k).last() == c);
        let w = widths[k - 1];
        let s = p.marked(cursor, at);
        lemma_marked_sound(input, p, k - 1, cursor, at);
        lemma_bytes_take(input, k - 1);
        if c == '\n' {
            let e = Filling { end: at, ..s };
            assert(e =~= s);
            lemma_broken_sound(input, s, k - 1, k);
        } else if w > 0 && s.col + w > line_width {
            lemma_broken_sound(input, s, k - 1, k - 1);
            lemma_put_sound(input, s.broken(at), k - 1, w);
        } else {
            lemma_put_sound(input, s, k - 1, w);
        }
    }
}

proof fn lemma_finished_rows(input: Seq<char>, g: Filling, n: int)
    requires
        sound(input, g, n),
    ensures
        ({
            let rows = g.rows.push(g.row());
            &&& rows[0].start == 0
            &&& rows.last().end == bytes(input.take(n))
            &&& forall|i: int| 0 <= i < rows.len() ==> shows(input, #[trigger] rows[i])
            &&& forall|i: int|
                0 < i < rows.len() ==> joins(input, rows[i - 1], (#[trigger] rows[i]).start)
        }),
{
    let rows = g.rows.push(g.row());
    assert forall|i: int| 0 <= i < rows.len() implies shows(input, #[trigger] rows[i]) by {
        if i < g.rows.len() {
            assert(rows[i] == g.rows[i]);
        } else {
            assert(rows[i] == g.row());
        }
    }
    assert forall|i: int| 0 < i < rows.len() implies joins(
        input,
        rows[i - 1],
        (#[trigger] rows[i]).start,
    ) by {
        assert(rows[i - 1] == g.rows[i - 1]);
        if i < g.rows.len() {
            assert(rows[i] == g.rows[i]);
        } else {
            assert(g.rows.last() == g.rows[i - 1]);
        }
    }
    if g.rows.len() > 0 {
        assert(rows[0] == g.rows[0]);
    }
}

/// The rows show the whole input: the first begins at its start, each begins
/// where the one before ends or behind a line feed, the last ends at its end,
/// and each shows just the text between its two positions.
pub proof fn law_rows_show_the_input(
    input: Seq<char>,
    widths: Seq<int>,
    cursor: int,
    line_width: int,
    prefix: int,
)
    ensures
        ({
            let rows = layout_with(input, widths, cursor, line_width, prefix).rows;
            &&& rows.len() > 0
            &&& rows[0].start == 0
            &&& rows.last().end == bytes(input)
            &&& forall|i: int| 0 <= i < rows.len() ==> shows(input, #[trigger] rows[i])
            &&& forall|i: int|
                0 < i < rows.len() ==> joins(input, rows[i - 1], (#[trigger] rows[i]).start)
        }),
{
    let w = if line_width < 1 {
        1
    } else {
        line_width
    };
    let n = input.len() as int;
    let f = filled(input, widths, cursor, w, prefix);
    assert(input.take(n) =~= input);
    lemma_filled_sound(input, widths, cursor, w, prefix, n);
    lemma_marked_sound(input, f, n, cursor, bytes(input) as int);
    let g = f.marked(cursor, bytes(input) as int);
    let rows = g.rows.push(g.row());
    assert(layout_with(input, widths, cursor, line_width, prefix).rows == rows);
    lemma_finished_rows(input, g, n);
}

/// The columns before the text of a row: those of the prompt in the first.
pub open spec fn indent(row: int, prefix: int) -> int {
    if row == 0 {
        prefix
    } else {
        0
    }
}

/// A row in which two characters take columns ends within the line.
pub open spec fn fits_line(row: RowView, indent: int, line_width: int) -> bool {
    forall|i: int, j: int, k: int|
        0 <= i < j < k < row.columns.len() && (#[trigger] row.columns[i]).0 < (
        #[trigger] row.columns[j]).0 < (#[trigger] row.columns[k]).0 ==> indent
            + row.columns.last().0 <= line_width
}

/// The cursor stands at byte `cursor`, which is at column `text_col` of the row.
pub open spec fn stands_on(row: RowView, cursor: int, text_col: int) -> bool {
    &&& row.start <= cursor <= row.end
    &&& row.columns.contains((text_col, cursor))
}

/// Rows that fit, with the place of the cursor, after `k` characters.
spec fn placed(
    input: Seq<char>,
    f: Filling,
    k: int,
    cursor: int,
    line_width: int,
    prefix: int,
) -> bool {
    &&& f.start <= f.end
    &&& f.end == bytes(input.take(k))
    &&& f.columns.len() > 0
    &&& f.columns.last() == (f.text_col, f.end)
    &&& f.col == indent(f.rows.len() as int, prefix) + f.text_col
    &&& forall|i: int|
        0 <= i < f.rows.len() ==> fits_line(#[trigger] f.rows[i], indent(i, prefix), line_width)
    &&& fits_line(f.row(), indent(f.rows.len() as int, prefix), line_width)
    &&& match f.cursor {
        Some((row, col, text_col)) => {
            &&& 0 <= row <= f.rows.len()
            &&& col == indent(row, prefix) + text_col
            &&& stands_on(
                if row < f.rows.len() {
                    f.rows[row]
                } else {
                    f.row()
                },
                cursor,
                text_col,
            )
        },
        None => true,
    }
    &&& forall|j: int|
        0 <= j < k && bytes(#[trigger] input.take(j)) == cursor ==> f.cursor is Some
}

proof fn lemma_marked_placed(
    input: Seq<char>,
    f: Filling,
    k: int,
    cursor: int,
    line_width: int,
    prefix: int,
)
    requires
        placed(input, f, k, cursor, line_width, prefix),
    ensures
        placed(
            input,
            f.marked(cursor, bytes(input.take(k)) as int),
            k,
            cursor,
            line_width,
            prefix,
        ),
        bytes(input.take(k)) == cursor ==> f.marked(
            cursor,
            bytes(input.take(k)) as int,
        ).cursor is Some,
{
    let g = f.marked(cursor, bytes(input.take(k)) as int);
    assert(g.row() == f.row());
    assert(f.columns.contains(f.columns.last()));
}

proof fn lemma_broken_placed(
    input: Seq<char>,
    f: Filling,
    k: int,
    n: int,
    cursor: int,
    line_width: int,
    prefix: int,
)
    requires
        0 <= k <= n <= k + 1,
        n <= input.len(),
        placed(input, f, k, cursor, line_width, prefix),
        bytes(input.take(k)) == cursor ==> f.cursor is Some,
    ensures
        placed(
            input,
            f.broken(bytes(input.take(n)) as int),
            n,
            cursor,
            line_width,
            prefix,
        ),
{
    let g = f.broken(bytes(input.take(n)) as int);
    assert forall|i: int| 0 <= i < g.rows.len() implies fits_line(
        #[trigger] g.rows[i],
        indent(i, prefix),
        line_width,
    ) by {
        if i < f.rows.len() {
            assert(g.rows[i] == f.rows[i]);
        } else {
            assert(g.rows[i] == f.row());
        }
    }
    if let Some((row, col, text_col)) = f.cursor {
        if row < f.rows.len() {
            assert(g.rows[row] == f.rows[row]);
        } else {
            assert(g.rows[row] == f.row());
        }
    }
}

proof fn lemma_put_placed(
    input: Seq<char>,
    f: Filling,
    k: int,
    w: int,
    cursor: int,
    line_width: int,
    prefix: int,
)
    requires
        0 <= k < input.len(),
        w >= 0,
        placed(input, f, k, cursor, line_width, prefix),
        bytes(input.take(k)) == cursor ==> f.cursor is Some,
        w > 0 ==> f.columns.len() == 1 || f.col + w <= line_width,
    ensures
        placed(
            input,
            f.put(input[k], w, bytes(input.take(k)) as int),
            k + 1,
            cursor,
            line_width,
            prefix,
        ),
{
    let g = f.put(input[k], w, bytes(input.take(k)) as int);
    lemma_bytes_take(input, k);
    let shift = indent(f.rows.len() as int, prefix);
    assert(g.columns.last() == (g.text_col, g.end));
    assert forall|a: int, b: int, c: int|
        0 <= a < b < c < g.row().columns.len() && (#[trigger] g.row().columns[a]).0 < (
        #[trigger] g.row().columns[b]).0 < (#[trigger] g.row().columns[c]).0 implies shift
        + g.row().columns.last().0 <= line_width by {
        let n = f.columns.len() as int;
        assert(f.row().columns[a] == g.columns[a]);
        assert(f.row().columns[b] == g.columns[b]);
        if w == 0 {
            if c == n {
                assert(g.columns[c].0 == f.row().columns[n - 1].0);
                assert(b < n - 1);
                assert(f.row().columns[b].0 < f.row().columns[n - 1].0);
            } else {
                assert(f.row().columns[c] == g.columns[c]);
            }
        }
    }
    if let Some((row, col, text_col)) = f.cursor {
        if row == f.rows.len() {
            let m = choose|m: int| 0 <= m < f.columns.len() && f.columns[m] == (text_col, cursor);
            assert(g.columns[m] == (text_col, cursor));
            assert(g.row().columns.contains((text_col, cursor)));
        }
    }
}

proof fn lemma_filled_placed(
    input: Seq<char>,
    widths: Seq<int>,
    cursor: int,
    line_width: int,
    prefix: int,
    k: int,
)
    requires
        0 <= k <= input.len(),
        widths.len() == input.len(),
        forall|i: int| 0 <= i < widths.len() ==> #[trigger] widths[i] >= 0,
    ensures
        placed(
            input,
            filled(input.take(k), widths, cursor, line_width, prefix),
            k,
            cursor,
            line_width,
            prefix,
        ),
    decreases k,
{
    let f = filled(input.take(k), widths, cursor, line_width, prefix);
    if k == 0 {
        assert(input.take(0) =~= Seq::<char>::empty());
        assert(f.columns.contains(f.columns[0]));
    } else {
        let p = filled(input.take(k - 1), widths, cursor, line_width, prefix);
        lemma_filled_placed(input, widths, cursor, line_width, prefix, k - 1);
        assert(input.take(k).drop_last() =~= input.take(k - 1));
        let at = bytes(input.take(k - 1)) as int;
        let c = input[k - 1];
        assert(input.take(k).last() == c);
        let w = widths[k - 1];
        let s = p.marked(cursor, at);
        lemma_marked_placed(input, p, k - 1, cursor, line_width, prefix);
        lemma_bytes_take(input, k - 1);
        if c == '\n' {
            let e = Filling { end: at, ..s };
            assert(e =~= s);
            lemma_broken_placed(input, s, k - 1, k, cursor, line_width, prefix);
        } else if w > 0 && s.col + w > line_width {
            lemma_broken_placed(input, s, k - 1, k - 1, cursor, line_width, prefix);
            lemma_put_placed(input, s.broken(at), k - 1, w, cursor, line_width, prefix);
        } else {
            lemma_put_placed(input, s, k - 1, w, cursor, line_width, prefix);
        }
    }
}

/// Every row with two or more characters that take columns fits its line, the first
/// behind the prompt; and the cursor, which stands between characters, is on the
/// row that shows its position, at the column of that position.
pub proof fn law_rows_fit_and_show_the_cursor(
    input: Seq<char>,
    widths: Seq<int>,
    cursor: int,
    line_width: int,
    prefix: int,
)
    requires
        widths.len() == input.len(),
        forall|i: int| 0 <= i < widths.len() ==> #[trigger] widths[i] >= 0,
        good_offset(input, cursor),
    ensures
        ({
            let l = layout_with(input, widths, cursor, line_width, prefix);
            let room = if line_width < 1 {
                1
            } else {
                line_width
            };
            &&& forall|i: int|
                0 <= i < l.rows.len() ==> fits_line(
                    #[trigger] l.rows[i],
                    indent(i, prefix),
                    room,
                )
            &&& 0 <= l.cursor_row < l.rows.len()
            &&& stands_on(l.rows[l.cursor_row], cursor, l.cursor_text_col)
            &&& l.cursor_col == indent(l.cursor_row, prefix) + l.cursor_text_col
        }),
{
    let room = if line_width < 1 {
        1
    } else {
        line_width
    };
    let n = input.len() as int;
    let f = filled(input, widths, cursor, room, prefix);
    assert(input.take(n) =~= input);
    lemma_filled_placed(input, widths, cursor, room, prefix, n);
    lemma_marked_placed(input, f, n, cursor, room, prefix);
    let g = f.marked(cursor, bytes(input) as int);
    let l = layout_with(input, widths, cursor, line_width, prefix);
    assert(l.rows == g.rows.push(g.row()));
    let j = choose|j: int| 0 <= j <= input.len() && cursor == bytes(#[trigger] input.take(j));
    assert(g.cursor is Some);
    assert forall|i: int| 0 <= i < l.rows.len() implies fits_line(
        #[trigger] l.rows[i],
        indent(i, prefix),
        room,
    ) by {
        if i < g.rows.len() {
            assert(l.rows[i] == g.rows[i]);
        } else {
            assert(l.rows[i] == g.row());
        }
    }
}

proof fn lemma_offset_at_good(
    input: Seq<char>,
    columns: Seq<(int, int)>,
    preferred: int,
    otherwise: int,
)
    requires
        good_offset(input, otherwise),
        forall|i: int| 0 <= i < columns.len() ==> good_offset(input, #[trigger] columns[i].1),
    ensures
        good_offset(input, offset_at(columns, preferred, otherwise)),
    decreases columns.len(),
{
    if columns.len() > 0 && columns[0].0 <= preferred {
        let d = columns.drop_first();
        assert forall|i: int| 0 <= i < d.len() implies good_offset(input, #[trigger] d[i].1) by {
            assert(d[i] == columns[i + 1]);
        }
        lemma_offset_at_good(input, d, preferred, columns[0].1);
    }
}

/// The cursor never lands inside a character when it moves between rows.
pub proof fn law_row_moves_land_between_characters(
    input: Seq<char>,
    widths: Seq<int>,
    cursor: int,
    line_width: int,
    prefix: int,
    row: int,
    preferred: int,
)
    ensures
        crate::text::on_boundary(
            input,
            layout_with(input, widths, cursor, line_width, prefix).offset_for(row, preferred),
        ),
{
    law_rows_show_the_input(input, widths, cursor, line_width, prefix);
    let l = layout_with(input, widths, cursor, line_width, prefix);
    let b = l.offset_for(row, preferred);
    if 0 <= row < l.rows.len() {
        let r = l.rows[row];
        assert(shows(input, r));
        assert(good_offset(input, r.end));
        lemma_offset_at_good(input, r.columns, preferred, r.end);
    } else {
        assert(bytes(input.take(0)) == 0);
        assert(good_offset(input, 0));
    }
    let k = choose|k: int| 0 <= k <= input.len() && b == bytes(#[trigger] input.take(k));
    lemma_char_pos_of_prefix(input, k);
}

} // verus!
