//! The input line: editing, and mentions of files.
use crate::app::{
    App, AppView, FileIndexEntryLite, FileIndexEntryLiteView, MentionState, MentionStateView,
};
use crate::layout::{
    build_input_visual_layout, law_row_moves_land_between_characters, layout_of, widths_of,
    LayoutView,
};
use crate::protocol::{ClientMsg, ClientMsgView};
use crate::ranking::{best, fuzzy_match, fuzzy_score, rank_entries};
use crate::text::{
    byte_len, bytes, cat3, char_pos, char_pos_of, from_chars, has_char, is_white,
    lemma_bytes_concat, lemma_bytes_push, lemma_bytes_take, lemma_bytes_take_le, lemma_char_pos,
    lemma_char_pos_of_prefix, on_boundary, owned, push_char, same, to_chars, white, width,
};
use vstd::prelude::*;

verus! {

/// How many files are offered for a mention.
pub const MAX_MENTIONS: usize = 8;

/// The width of the prompt before the first row of the input.
pub const PROMPT_WIDTH: usize = 2;

// ── what a mention is ────────────────────────────────────────────────────────

/// Position of the last `@`.
pub open spec fn last_at(s: Seq<char>) -> Option<int>
    decreases s.len(),
{
    if s.len() == 0 {
        None
    } else if s.last() == '@' {
        Some(s.len() - 1)
    } else {
        last_at(s.drop_last())
    }
}

/// Holds white space.
pub open spec fn has_white(s: Seq<char>) -> bool {
    exists|i: int| 0 <= i < s.len() && white(#[trigger] s[i])
}

/// The mention that the cursor stands in: from an `@` at the start of a word
/// up to the cursor, without white space; the byte of the `@`, and what
/// follows it.
pub open spec fn mention_at(input: Seq<char>, cursor: int) -> Option<(usize, Seq<char>)> {
    if !on_boundary(input, cursor) {
        None
    } else {
        let before = input.take(char_pos(input, cursor));
        match last_at(before) {
            Some(t) => {
                let token = before.skip(t + 1);
                if (t > 0 && !white(before[t - 1])) || has_white(token) {
                    None
                } else {
                    Some((bytes(before.take(t)) as usize, token))
                }
            },
            None => None,
        }
    }
}

/// The fuzzy scores of a query in the paths of files.
pub open spec fn path_scores(
    entries: Seq<FileIndexEntryLiteView>,
    query: Seq<char>,
) -> Seq<Option<i64>> {
    entries.map_values(|e: FileIndexEntryLiteView| fuzzy_score(e.path, query))
}

impl AppView {
    /// The files that are offered for a query.
    pub open spec fn file_matches(self, query: Seq<char>) -> Seq<FileIndexEntryLiteView> {
        best(self.file_index, path_scores(self.file_index, query), query, MAX_MENTIONS as nat)
    }

    /// With the mention that the cursor stands in.
    pub open spec fn mention_refreshed(self) -> AppView {
        AppView {
            mention_state: match mention_at(self.input, self.input_cursor as int) {
                Some((start, query)) => Some(
                    MentionStateView {
                        trigger_start: start,
                        query,
                        selected_index: 0,
                        results: self.file_matches(query),
                    },
                ),
                None => None,
            },
            ..self
        }
    }

    /// With another input and cursor, no column to return to, and the mention
    /// that the cursor stands in.
    pub open spec fn edited(self, input: Seq<char>, cursor: int) -> AppView {
        (AppView {
            input,
            input_cursor: cursor as usize,
            input_preferred_col: None,
            ..self
        }).mention_refreshed()
    }

    /// Number of characters before the cursor.
    pub open spec fn cursor_pos(self) -> int {
        char_pos(self.input, self.input_cursor as int)
    }

    /// With a character typed at the cursor.
    pub open spec fn char_inserted(self, c: char) -> AppView {
        let k = self.cursor_pos();
        self.edited(
            self.input.take(k).push(c) + self.input.skip(k),
            self.input_cursor + width(c),
        )
    }

    /// Without the character before the cursor.
    pub open spec fn char_erased(self) -> AppView {
        let k = self.cursor_pos();
        if self.input_cursor > 0 {
            self.edited(
                self.input.take(k - 1) + self.input.skip(k),
                bytes(self.input.take(k - 1)) as int,
            )
        } else {
            self
        }
    }

    /// Without the character behind the cursor.
    pub open spec fn char_deleted(self) -> AppView {
        let k = self.cursor_pos();
        if self.input_cursor < bytes(self.input) {
            self.edited(
                self.input.take(k) + self.input.skip(k + 1),
                self.input_cursor as int,
            )
        } else {
            self
        }
    }

    /// With the cursor one character to the left.
    pub open spec fn cursor_left(self) -> AppView {
        if self.input_cursor > 0 {
            self.edited(self.input, bytes(self.input.take(self.cursor_pos() - 1)) as int)
        } else {
            self
        }
    }

    /// With the cursor one character to the right.
    pub open spec fn cursor_right(self) -> AppView {
        if self.input_cursor < bytes(self.input) {
            self.edited(self.input, bytes(self.input.take(self.cursor_pos() + 1)) as int)
        } else {
            self
        }
    }

    /// The rows of the input.
    pub open spec fn input_rows(self, prefix: int) -> LayoutView {
        layout_of(self.input, self.input_cursor as int, self.input_line_width as int, prefix)
    }

    /// With the cursor in another row, near the column that it came from.
    pub open spec fn cursor_in_row(self, layout: LayoutView, row: int) -> AppView {
        let preferred = match self.input_preferred_col {
            Some(c) => c,
            None => layout.cursor_text_col as usize,
        };
        (AppView {
            input_cursor: layout.offset_for(row, preferred as int) as usize,
            input_preferred_col: Some(preferred),
            ..self
        }).mention_refreshed()
    }

    /// With the cursor one row up; in the first row its column is kept.
    pub open spec fn row_up(self, prefix: int) -> AppView {
        let l = self.input_rows(prefix);
        if l.cursor_row == 0 {
            AppView { input_preferred_col: Some(l.cursor_text_col as usize), ..self }
        } else {
            self.cursor_in_row(l, l.cursor_row - 1)
        }
    }

    /// With the cursor one row down; in the last row its column is kept.
    pub open spec fn row_down(self, prefix: int) -> AppView {
        let l = self.input_rows(prefix);
        if l.cursor_row + 1 >= l.rows.len() {
            AppView { input_preferred_col: Some(l.cursor_text_col as usize), ..self }
        } else {
            self.cursor_in_row(l, l.cursor_row + 1)
        }
    }
}

// ── editing ──────────────────────────────────────────────────────────────────

proof fn lemma_pos_in_range(s: Seq<char>, b: int)
    requires
        on_boundary(s, b),
    ensures
        0 <= char_pos(s, b) <= s.len(),
        b == bytes(s.take(char_pos(s, b))),
        b > 0 ==> char_pos(s, b) > 0,
        b < bytes(s) ==> char_pos(s, b) < s.len(),
{
    lemma_char_pos(s, b);
    if char_pos(s, b) == 0 {
        assert(bytes(s.take(0)) == 0);
    }
    if char_pos(s, b) == s.len() {
        assert(s.take(s.len() as int) =~= s);
    }
}

impl App {
    /// Types a character at the cursor.
    pub fn input_insert(&mut self, c: char)
        requires
            on_boundary(old(self)@.input, old(self)@.input_cursor as int),
        ensures
            final(self)@ == old(self)@.char_inserted(c),
            on_boundary(final(self)@.input, final(self)@.input_cursor as int),
    {
        let ghost s = self@.input;
        let v = to_chars(self.input.as_str());
        let k = char_pos_of(&v, self.input_cursor);
        proof {
            lemma_pos_in_range(s, self.input_cursor as int);
        }
        let n: usize = v.len();
        let mut text = from_chars(&v, 0, k);
        let rest = from_chars(&v, k, n);
        push_char(&mut text, c);
        text.append(rest.as_str());
        let total: usize = byte_len(text.as_str());
        let behind: usize = byte_len(rest.as_str());
        proof {
            assert(s.subrange(0, k as int) =~= s.take(k as int));
            assert(s.subrange(k as int, n as int) =~= s.skip(k as int));
            let head = s.take(k as int).push(c);
            lemma_bytes_concat(head, s.skip(k as int));
            lemma_bytes_push(s.take(k as int), c);
            assert(text@ =~= head + s.skip(k as int));
            assert(text@.take(k + 1) =~= head);
            lemma_char_pos_of_prefix(text@, k + 1);
        }
        self.input = text;
        self.input_cursor = total - behind;
        self.input_preferred_col = None;
        self.refresh_mention_state();
    }

    /// Removes the character before the cursor.
    pub fn input_backspace(&mut self)
        requires
            on_boundary(old(self)@.input, old(self)@.input_cursor as int),
        ensures
            final(self)@ == old(self)@.char_erased(),
            on_boundary(final(self)@.input, final(self)@.input_cursor as int),
    {
        if self.input_cursor > 0 {
            let ghost s = self@.input;
            let v = to_chars(self.input.as_str());
            let k = char_pos_of(&v, self.input_cursor);
            proof {
                lemma_pos_in_range(s, self.input_cursor as int);
            }
            let n: usize = v.len();
            let head = from_chars(&v, 0, k - 1);
            let cursor: usize = byte_len(head.as_str());
            let mut text = head;
            text.append(from_chars(&v, k, n).as_str());
            proof {
                assert(s.subrange(0, k - 1) =~= s.take(k - 1));
                assert(s.subrange(k as int, n as int) =~= s.skip(k as int));
                assert(text@.take(k - 1) =~= s.take(k - 1));
                lemma_char_pos_of_prefix(text@, k - 1);
            }
            self.input = text;
            self.input_cursor = cursor;
            self.input_preferred_col = None;
            self.refresh_mention_state();
        }
    }

    /// Removes the character behind the cursor.
    pub fn input_delete(&mut self)
        requires
            on_boundary(old(self)@.input, old(self)@.input_cursor as int),
        ensures
            final(self)@ == old(self)@.char_deleted(),
            on_boundary(final(self)@.input, final(self)@.input_cursor as int),
    {
        if self.input_cursor < byte_len(self.input.as_str()) {
            let ghost s = self@.input;
            let v = to_chars(self.input.as_str());
            let k = char_pos_of(&v, self.input_cursor);
            proof {
                lemma_pos_in_range(s, self.input_cursor as int);
            }
            let n: usize = v.len();
            let mut text = from_chars(&v, 0, k);
            text.append(from_chars(&v, k + 1, n).as_str());
            proof {
                assert(s.subrange(0, k as int) =~= s.take(k as int));
                assert(s.subrange(k + 1, n as int) =~= s.skip(k + 1));
                assert(text@.take(k as int) =~= s.take(k as int));
                lemma_char_pos_of_prefix(text@, k as int);
            }
            self.input = text;
            self.input_preferred_col = None;
            self.refresh_mention_state();
        }
    }

    /// Moves the cursor one character to the left.
    pub fn input_left(&mut self)
        requires
            on_boundary(old(self)@.input, old(self)@.input_cursor as int),
        ensures
            final(self)@ == old(self)@.cursor_left(),
            on_boundary(final(self)@.input, final(self)@.input_cursor as int),
    {
        if self.input_cursor > 0 {
            let ghost s = self@.input;
            let v = to_chars(self.input.as_str());
            let k = char_pos_of(&v, self.input_cursor);
            proof {
                lemma_pos_in_range(s, self.input_cursor as int);
            }
            let head = from_chars(&v, 0, k - 1);
            proof {
                assert(s.subrange(0, k - 1) =~= s.take(k - 1));
                lemma_char_pos_of_prefix(s, k - 1);
            }
            self.input_cursor = byte_len(head.as_str());
            self.input_preferred_col = None;
            self.refresh_mention_state();
        }
    }

    /// Moves the cursor one character to the right.
    pub fn input_right(&mut self)
        requires
            on_boundary(old(self)@.input, old(self)@.input_cursor as int),
        ensures
            final(self)@ == old(self)@.cursor_right(),
            on_boundary(final(self)@.input, final(self)@.input_cursor as int),
    {
        if self.input_cursor < byte_len(self.input.as_str()) {
            let ghost s = self@.input;
            let v = to_chars(self.input.as_str());
            let k = char_pos_of(&v, self.input_cursor);
            proof {
                lemma_pos_in_range(s, self.input_cursor as int);
            }
            let head = from_chars(&v, 0, k + 1);
            proof {
                assert(s.subrange(0, k + 1) =~= s.take(k + 1));
                lemma_char_pos_of_prefix(s, k + 1);
            }
            self.input_cursor = byte_len(head.as_str());
            self.input_preferred_col = None;
            self.refresh_mention_state();
        }
    }

    /// Moves the cursor to the start of the input.
    pub fn input_home(&mut self)
        ensures
            final(self)@ == old(self)@.edited(old(self)@.input, 0),
            on_boundary(final(self)@.input, final(self)@.input_cursor as int),
    {
        self.input_preferred_col = None;
        self.input_cursor = 0;
        proof {
            assert(bytes(self@.input.take(0)) == 0);
            lemma_char_pos_of_prefix(self@.input, 0);
        }
        self.refresh_mention_state();
    }

    /// Moves the cursor to the end of the input.
    pub fn input_end(&mut self)
        ensures
            final(self)@ == old(self)@.edited(old(self)@.input, bytes(old(self)@.input) as int),
            on_boundary(final(self)@.input, final(self)@.input_cursor as int),
    {
        self.input_preferred_col = None;
        self.input_cursor = byte_len(self.input.as_str());
        proof {
            assert(self@.input.take(self@.input.len() as int) =~= self@.input);
            lemma_char_pos_of_prefix(self@.input, self@.input.len() as int);
        }
        self.refresh_mention_state();
    }

    /// Moves the cursor one row up.
    pub fn input_up_visual(&mut self, prefix_width: usize)
        requires
            on_boundary(old(self)@.input, old(self)@.input_cursor as int),
        ensures
            final(self)@ == old(self)@.row_up(prefix_width as int),
            on_boundary(final(self)@.input, final(self)@.input_cursor as int),
    {
        let layout = build_input_visual_layout(
            self.input.as_str(),
            self.input_cursor,
            self.input_line_width,
            prefix_width,
        );
        if layout.cursor_row == 0 {
            self.input_preferred_col = Some(layout.cursor_text_col);
            return ;
        }
        let preferred: usize = match self.input_preferred_col {
            Some(c) => c,
            None => layout.cursor_text_col,
        };
        proof {
            law_row_moves_land_between_characters(
                self@.input,
                widths_of(self@.input),
                self.input_cursor as int,
                self.input_line_width as int,
                prefix_width as int,
                layout.cursor_row - 1,
                preferred as int,
            );
        }
        self.input_cursor = layout.cursor_offset_for_row_col(layout.cursor_row - 1, preferred);
        self.input_preferred_col = Some(preferred);
        self.refresh_mention_state();
    }

    /// Moves the cursor one row down.
    pub fn input_down_visual(&mut self, prefix_width: usize)
        requires
            on_boundary(old(self)@.input, old(self)@.input_cursor as int),
        ensures
            final(self)@ == old(self)@.row_down(prefix_width as int),
            on_boundary(final(self)@.input, final(self)@.input_cursor as int),
    {
        let layout = build_input_visual_layout(
            self.input.as_str(),
            self.input_cursor,
            self.input_line_width,
            prefix_width,
        );
        proof {
            crate::layout::law_rows_show_the_input(
                self@.input,
                widths_of(self@.input),
                self.input_cursor as int,
                self.input_line_width as int,
                prefix_width as int,
            );
            assert(layout.deep_view().rows.len() == layout.rows@.len());
        }
        if layout.cursor_row >= layout.total_rows() - 1 {
            self.input_preferred_col = Some(layout.cursor_text_col);
            return ;
        }
        let preferred: usize = match self.input_preferred_col {
            Some(c) => c,
            None => layout.cursor_text_col,
        };
        proof {
            law_row_moves_land_between_characters(
                self@.input,
                widths_of(self@.input),
                self.input_cursor as int,
                self.input_line_width as int,
                prefix_width as int,
                layout.cursor_row + 1,
                preferred as int,
            );
        }
        self.input_cursor = layout.cursor_offset_for_row_col(layout.cursor_row + 1, preferred);
        self.input_preferred_col = Some(preferred);
        self.refresh_mention_state();
    }

    /// Hands the input out and leaves it empty.
    pub fn take_input(&mut self) -> (r: String)
        ensures
            r@ == old(self)@.input,
            final(self)@ == old(self)@.input_taken(),
            on_boundary(final(self)@.input, final(self)@.input_cursor as int),
    {
        self.input_cursor = 0;
        self.input_scroll = 0;
        self.input_preferred_col = None;
        self.scroll_offset = 0;
        self.mention_state = None;
        let mut text = String::new();
        std::mem::swap(&mut text, &mut self.input);
        proof {
            assert(bytes(self@.input.take(0)) == 0);
            lemma_char_pos_of_prefix(self@.input, 0);
        }
        text
    }
}

impl AppView {
    /// With an empty input, and the view at the bottom.
    pub open spec fn input_taken(self) -> AppView {
        AppView {
            input: Seq::empty(),
            input_cursor: 0,
            input_scroll: 0,
            input_preferred_col: None,
            scroll_offset: 0,
            mention_state: None,
            ..self
        }
    }
}

// ── mentions ─────────────────────────────────────────────────────────────────

proof fn lemma_last_at(s: Seq<char>, t: int)
    requires
        0 <= t < s.len(),
        s[t] == '@',
        forall|j: int| t < j < s.len() ==> s[j] != '@',
    ensures
        last_at(s) == Some(t),
    decreases s.len(),
{
    if t < s.len() - 1 {
        lemma_last_at(s.drop_last(), t);
    }
}

proof fn lemma_no_at(s: Seq<char>)
    requires
        forall|j: int| 0 <= j < s.len() ==> s[j] != '@',
    ensures
        last_at(s) is None,
    decreases s.len(),
{
    if s.len() > 0 {
        lemma_no_at(s.drop_last());
    }
}

impl App {
    /// The mention that a cursor stands in.
    pub fn active_mention_query_from(&self, input: &str, cursor: usize) -> (r: Option<
        (usize, String),
    >)
        ensures
            r.deep_view() == mention_at(input@, cursor as int),
    {
        let v = to_chars(input);
        let k = char_pos_of(&v, cursor);
        let ghost before = input@.take(k as int);
        proof {
            lemma_char_pos(input@, cursor as int);
            assert(input@.subrange(0, k as int) =~= before);
        }
        let head = from_chars(&v, 0, k);
        if byte_len(head.as_str()) != cursor {
            return None;
        }
        let mut t: usize = k;
        while t > 0 && v[t - 1] != '@'
            invariant
                t <= k <= v@.len(),
                v@ == input@,
                before == input@.take(k as int),
                forall|j: int| t <= j < k ==> before[j] != '@',
            decreases t,
        {
            t = t - 1;
        }
        if t == 0 {
            proof {
                lemma_no_at(before);
            }
            return None;
        }
        let at: usize = t - 1;
        proof {
            lemma_last_at(before, at as int);
        }
        if at > 0 && !is_white(v[at - 1]) {
            return None;
        }
        let ghost token = before.skip(at + 1);
        let mut i: usize = t;
        while i < k
            invariant
                t <= i <= k <= v@.len(),
                t == at + 1,
                v@ == input@,
                before == input@.take(k as int),
                token == before.skip(at + 1),
                forall|j: int| 0 <= j < i - t ==> !white(#[trigger] token[j]),
                last_at(before) == Some(at as int),
                on_boundary(input@, cursor as int),
                k == char_pos(input@, cursor as int),
            decreases k - i,
        {
            assert(token[i - t] == v@[i as int]);
            if is_white(v[i]) {
                assert(has_white(token));
                return None;
            }
            i = i + 1;
        }
        let text = from_chars(&v, t, k);
        let prefix = from_chars(&v, 0, at);
        proof {
            assert(text@ =~= token);
            assert(prefix@ =~= before.take(at as int));
            assert(!has_white(token));
        }
        Some((byte_len(prefix.as_str()), text))
    }

    /// The files that are offered for a query, the best first.
    pub fn rank_file_matches(&self, query: &str) -> (r: Vec<FileIndexEntryLite>)
        ensures
            r.deep_view() == self@.file_matches(query@),
    {
        let ghost fv = self@.file_index;
        let mut scores: Vec<Option<i64>> = Vec::new();
        let mut i: usize = 0;
        while i < self.file_index.len()
            invariant
                i <= self.file_index@.len(),
                fv == self@.file_index,
                scores@ == path_scores(fv, query@).take(i as int),
            decreases self.file_index@.len() - i,
        {
            let score = fuzzy_match(self.file_index[i].path.as_str(), query);
            assert(path_scores(fv, query@)[i as int] == score);
            scores.push(score);
            assert(scores@ =~= path_scores(fv, query@).take(i + 1));
            i = i + 1;
        }
        assert(scores@ =~= path_scores(fv, query@));
        rank_entries(&self.file_index, &scores, query, MAX_MENTIONS)
    }

    /// Finds the mention that the cursor stands in, and the files for it.
    pub fn refresh_mention_state(&mut self)
        ensures
            final(self)@ == old(self)@.mention_refreshed(),
    {
        let found = self.active_mention_query_from(self.input.as_str(), self.input_cursor);
        match found {
            Some((trigger_start, query)) => {
                let results = self.rank_file_matches(query.as_str());
                self.mention_state = Some(
                    MentionState { trigger_start, query, selected_index: 0, results },
                );
            },
            None => {
                self.mention_state = None;
            },
        }
    }

    /// Asks for the file index, where a mention needs it and it is not there.
    pub fn request_file_index_if_needed(&mut self) -> (r: Option<ClientMsg>)
        ensures
            final(self)@ == old(self)@.index_requested(),
            r.deep_view() == (if old(self)@.needs_index() {
                Some(ClientMsgView::GetFileIndex)
            } else {
                None
            }),
    {
        if self.mention_state.is_some() && self.file_index.len() == 0 && !self.file_index_loading {
            self.file_index_loading = true;
            self.file_index_error = None;
            return Some(ClientMsg::GetFileIndex);
        }
        None
    }

    /// Moves the selection of the mention by `delta`, around the ends.
    pub fn move_mention_selection(&mut self, delta: isize)
        ensures
            final(self)@ == old(self)@.mention_moved(delta as int),
    {
        if let Some(m) = &mut self.mention_state {
            m.selected_index = turned(m.selected_index, delta, m.results.len());
        }
    }

    /// Puts the selected file in place of the mention.
    pub fn accept_selected_mention(&mut self) -> (r: bool)
        requires
            on_boundary(old(self)@.input, old(self)@.input_cursor as int),
        ensures
            r == old(self)@.can_accept_mention(),
            final(self)@ == old(self)@.mention_accepted(),
            on_boundary(final(self)@.input, final(self)@.input_cursor as int),
    {
        let (start, query_len, path) = match &self.mention_state {
            Some(m) => {
                if m.selected_index >= m.results.len() {
                    return false;
                }
                (
                    m.trigger_start,
                    byte_len(m.query.as_str()),
                    m.results[m.selected_index].path.clone(),
                )
            },
            None => {
                return false;
            },
        };
        let ghost s = self@.input;
        let replacement = cat3("@", path.as_str(), " ");
        let v = to_chars(self.input.as_str());
        let n: usize = v.len();
        let total: usize = byte_len(self.input.as_str());
        let a = char_pos_of(&v, start);
        let end: u128 = start as u128 + 1 + query_len as u128;
        let b: usize = if end >= total as u128 {
            n
        } else {
            char_pos_of(&v, end as usize)
        };
        proof {
            lemma_char_pos(s, start as int);
            lemma_char_pos(s, end as int);
            if end >= total {
                let p = char_pos(s, end as int);
                if p < s.len() {
                    lemma_bytes_take_le(s, p, s.len() as int);
                    assert(bytes(s.take(p)) >= end);
                }
            }
        }
        let mut text = from_chars(&v, 0, a);
        text.append(replacement.as_str());
        let cursor: usize = byte_len(text.as_str());
        let ghost head = text@;
        text.append(from_chars(&v, b, n).as_str());
        proof {
            assert(s.subrange(0, a as int) =~= s.take(a as int));
            assert(s.subrange(b as int, n as int) =~= s.skip(b as int));
            assert(text@.take(head.len() as int) =~= head);
            lemma_char_pos_of_prefix(text@, head.len() as int);
            lemma_bytes_concat(s.take(a as int), replacement@);
        }
        self.input = text;
        self.input_cursor = cursor;
        self.mention_state = None;
        true
    }
}

/// `(at + delta) mod len`, or 0 where there is nothing to turn through.
pub open spec fn turn(at: int, delta: int, len: int) -> int {
    if len == 0 {
        0
    } else {
        (at + delta) % len
    }
}

/// Moves an index by `delta` around `len` places.
pub fn turned(at: usize, delta: isize, len: usize) -> (r: usize)
    ensures
        r == turn(at as int, delta as int, len as int),
        len > 0 ==> r < len,
{
    if len == 0 {
        return 0;
    }
    let m: u128 = len as u128;
    let a: u128 = (at as u128) % m;
    if delta >= 0 {
        let d: u128 = (delta as u128) % m;
        proof {
            vstd::arithmetic::div_mod::lemma_add_mod_noop(at as int, delta as int, len as int);
        }
        ((a + d) % m) as usize
    } else {
        let d: u128 = ((-(delta as i128)) as u128) % m;
        proof {
            vstd::arithmetic::div_mod::lemma_sub_mod_noop(at as int, -(delta as int), len as int);
            vstd::arithmetic::div_mod::lemma_mod_add_multiples_vanish(a - d, len as int);
        }
        ((a + m - d) % m) as usize
    }
}

impl AppView {
    /// A mention needs the file index, which is neither there nor on its way.
    pub open spec fn needs_index(self) -> bool {
        self.mention_state is Some && self.file_index.len() == 0 && !self.file_index_loading
    }

    /// With the file index on its way, where it is needed.
    pub open spec fn index_requested(self) -> AppView {
        if self.needs_index() {
            AppView { file_index_loading: true, file_index_error: None, ..self }
        } else {
            self
        }
    }

    /// With the selection of the mention moved.
    pub open spec fn mention_moved(self, delta: int) -> AppView {
        AppView {
            mention_state: match self.mention_state {
                Some(m) => Some(
                    MentionStateView {
                        selected_index: turn(
                            m.selected_index as int,
                            delta,
                            m.results.len() as int,
                        ) as usize,
                        ..m
                    },
                ),
                None => None,
            },
            ..self
        }
    }

    /// A file is selected.
    pub open spec fn can_accept_mention(self) -> bool {
        match self.mention_state {
            Some(m) => m.selected_index < m.results.len(),
            None => false,
        }
    }

    /// With the selected file in place of the mention, and the cursor behind
    /// it.
    pub open spec fn mention_accepted(self) -> AppView {
        if self.can_accept_mention() {
            let m = self.mention_state->0;
            let path = m.results[m.selected_index as int].path;
            let replacement = "@"@ + path + " "@;
            let a = char_pos(self.input, m.trigger_start as int);
            let b = char_pos(self.input, m.trigger_start + 1 + bytes(m.query));
            AppView {
                input: self.input.take(a) + replacement + self.input.skip(b),
                input_cursor: (bytes(self.input.take(a)) + bytes(replacement)) as usize,
                mention_state: None,
                ..self
            }
        } else {
            self
        }
    }
}

// ── links in a prompt ────────────────────────────────────────────────────────

/// Where the word that begins at `i` ends.
pub open spec fn word_end(s: Seq<char>, i: int) -> int
    decreases s.len() - i,
{
    if i < 0 || i >= s.len() || white(s[i]) {
        i
    } else {
        word_end(s, i + 1)
    }
}

/// With one more link, where the word looks like a path and is not there yet.
pub open spec fn with_link(links: Seq<Seq<char>>, word: Seq<char>) -> Seq<Seq<char>> {
    if word.len() > 0 && (word.contains('/') || word.contains('.')) && !links.contains(word) {
        links.push(word)
    } else {
        links
    }
}

proof fn lemma_word_end(s: Seq<char>, i: int)
    requires
        0 <= i <= s.len(),
    ensures
        i <= word_end(s, i) <= s.len(),
    decreases s.len() - i,
{
    if i < s.len() && !white(s[i]) {
        lemma_word_end(s, i + 1);
    }
}

/// The paths that are mentioned from `i` on, each once, behind `links`.
pub open spec fn links_from(s: Seq<char>, i: int, links: Seq<Seq<char>>) -> Seq<Seq<char>>
    decreases s.len() - i,
{
    if i < 0 || i >= s.len() {
        links
    } else if s[i] == '@' {
        let e = word_end(s, i + 1);
        if i + 1 <= e <= s.len() {
            links_from(s, e, with_link(links, s.subrange(i + 1, e)))
        } else {
            links
        }
    } else {
        links_from(s, i + 1, links)
    }
}

fn contains_text(list: &Vec<String>, s: &str) -> (r: bool)
    ensures
        r == list.deep_view().contains(s@),
{
    let ghost lv = list.deep_view();
    let mut i: usize = 0;
    while i < list.len()
        invariant
            i <= list@.len(),
            lv == list.deep_view(),
            forall|j: int| 0 <= j < i ==> #[trigger] lv[j] != s@,
        decreases list@.len() - i,
    {
        assert(lv[i as int] == list@[i as int]@);
        if same(list[i].as_str(), s) {
            return true;
        }
        i = i + 1;
    }
    false
}

impl App {
    /// The text of a prompt, and the paths that it mentions, each once.
    pub fn build_prompt_text_and_links(&self, input: &str) -> (r: (String, Vec<String>))
        ensures
            r.0@ == input@,
            r.1.deep_view() == links_from(input@, 0, Seq::empty()),
    {
        let v = to_chars(input);
        let n: usize = v.len();
        let mut links: Vec<String> = Vec::new();
        let mut i: usize = 0;
        assert(links.deep_view() =~= Seq::<Seq<char>>::empty());
        while i < n
            invariant
                i <= n,
                n == v@.len(),
                v@ == input@,
                links_from(input@, i as int, links.deep_view()) == links_from(
                    input@,
                    0,
                    Seq::empty(),
                ),
            decreases n - i,
        {
            if v[i] == '@' {
                let start: usize = i + 1;
                let mut end: usize = start;
                proof {
                    lemma_word_end(input@, start as int);
                }
                while end < n && !is_white(v[end])
                    invariant
                        start <= end <= n,
                        n == v@.len(),
                        v@ == input@,
                        word_end(input@, end as int) == word_end(input@, start as int),
                    decreases n - end,
                {
                    end = end + 1;
                }
                let ghost before = links.deep_view();
                let word = from_chars(&v, start, end);
                if end > start && (has_char(word.as_str(), '/') || has_char(word.as_str(), '.'))
                    && !contains_text(&links, word.as_str()) {
                    links.push(word);
                    assert(links.deep_view() =~= before.push(word@));
                }
                assert(links.deep_view() == with_link(before, word@));
                i = end;
            } else {
                i = i + 1;
            }
        }
        (owned(input), links)
    }
}

// ── laws ─────────────────────────────────────────────────────────────────────

/// A character that was typed and erased again leaves text and cursor as they
/// were.
pub proof fn law_typed_and_erased(app: AppView, c: char)
    requires
        on_boundary(app.input, app.input_cursor as int),
        app.input_cursor + width(c) <= usize::MAX,
    ensures
        ({
            let s = app.char_inserted(c).char_erased();
            s.input == app.input && s.input_cursor == app.input_cursor
        }),
{
    let k = app.cursor_pos();
    lemma_pos_in_range(app.input, app.input_cursor as int);
    let typed = app.char_inserted(c);
    let head = app.input.take(k).push(c);
    assert(typed.input =~= head + app.input.skip(k));
    assert(typed.input.take(k + 1) =~= head);
    lemma_bytes_push(app.input.take(k), c);
    lemma_char_pos_of_prefix(typed.input, k + 1);
    assert(typed.input.take(k) =~= app.input.take(k));
    assert(typed.input.skip(k + 1) =~= app.input.skip(k));
    assert(app.input.take(k) + app.input.skip(k) =~= app.input);
}

/// A step to the right and a step to the left lead back.
pub proof fn law_right_then_left(app: AppView)
    requires
        on_boundary(app.input, app.input_cursor as int),
        app.input_cursor < bytes(app.input) <= usize::MAX,
    ensures
        app.cursor_right().input == app.input,
        app.cursor_right().input_cursor > app.input_cursor,
        app.cursor_right().cursor_left().input_cursor == app.input_cursor,
{
    let k = app.cursor_pos();
    lemma_pos_in_range(app.input, app.input_cursor as int);
    lemma_bytes_take(app.input, k);
    lemma_bytes_take_le(app.input, k + 1, k + 1);
    lemma_char_pos_of_prefix(app.input, k + 1);
}

/// Every path that a prompt mentions is linked once, and what is linked looks
/// like a path.
pub proof fn law_links_are_distinct_paths(s: Seq<char>, i: int, links: Seq<Seq<char>>)
    requires
        links.no_duplicates(),
        forall|k: int|
            0 <= k < links.len() ==> (#[trigger] links[k]).contains('/') || links[k].contains('.'),
    ensures
        links_from(s, i, links).no_duplicates(),
        forall|k: int|
            0 <= k < links_from(s, i, links).len() ==> (#[trigger] links_from(
                s,
                i,
                links,
            )[k]).contains('/') || links_from(s, i, links)[k].contains('.'),
    decreases s.len() - i,
{
    if 0 <= i < s.len() {
        if s[i] == '@' {
            let e = word_end(s, i + 1);
            if i + 1 <= e <= s.len() {
                let next = with_link(links, s.subrange(i + 1, e));
                assert(next.no_duplicates());
                law_links_are_distinct_paths(s, e, next);
            }
        } else {
            law_links_are_distinct_paths(s, i + 1, links);
        }
    }
}

} // verus!
