//! What keys do, told by what was on the screen before and what is sent.
use crate::app::{ActivityStateView, AppView, ConnState, Popup, Screen, SessionOp};
use crate::handlers::{AppAction, KeyCode, KeyEvent, OutboxView};
use crate::input::{links_from, with_link, word_end};
use crate::layout::{offset_at, RowView};
use crate::protocol::{ClientMsgView, PromptBlockView};
use crate::text::{
    bytes, lemma_bytes_concat, lemma_bytes_push, lemma_bytes_take, lemma_bytes_take_le,
    lemma_char_pos_of_prefix, white, width,
};
use vstd::prelude::*;

verus! {

/// A key without Ctrl.
pub open spec fn pressed(code: KeyCode) -> KeyEvent {
    KeyEvent { code, ctrl: false }
}

/// A key with Ctrl.
pub open spec fn with_ctrl(c: char) -> KeyEvent {
    KeyEvent { code: KeyCode::Char(c), ctrl: true }
}

/// Keys go to the screen or to the popup: no chord is begun, no question and no
/// confirmation waits.
pub open spec fn listening(app: AppView) -> bool {
    !app.chord && app.elicitation is None && app.pending_cancel_confirm_until is None
}

/// Keys go to the conversation, which can be written in.
pub open spec fn writing(app: AppView) -> bool {
    &&& listening(app)
    &&& app.popup == Popup::Closed
    &&& app.screen == Screen::Chat
    &&& !app.session_op_pending()
}

/// Keys go to a popup.
pub open spec fn in_popup(app: AppView, popup: Popup) -> bool {
    listening(app) && app.popup == popup
}

// ── prompts ──────────────────────────────────────────────────────────────────

/// A word of the input that starts with `@` and looks like a path: it starts at `i`, where
/// no earlier mention goes on, and ends at `e`.
pub open spec fn mentions(s: Seq<char>, i: int, e: int) -> bool {
    &&& 0 <= i && i + 1 < e <= s.len()
    &&& s[i] == '@'
    &&& forall|j: int| i < j < e ==> !white(#[trigger] s[j])
    &&& e < s.len() ==> white(s[e])
    &&& s.subrange(i + 1, e).contains('/') || s.subrange(i + 1, e).contains('.')
    &&& forall|j: int|
        0 <= j < i && #[trigger] s[j] == '@' ==> exists|w: int|
            j < w < i && white(#[trigger] s[w])
}

proof fn lemma_word_ends(s: Seq<char>, i: int, e: int)
    requires
        0 <= i <= e <= s.len(),
        forall|j: int| i <= j < e ==> !white(#[trigger] s[j]),
        e < s.len() ==> white(s[e]),
    ensures
        word_end(s, i) == e,
    decreases e - i,
{
    if i < e {
        assert(!white(s[i]));
        lemma_word_ends(s, i + 1, e);
    }
}

proof fn lemma_word_end_is(s: Seq<char>, i: int)
    requires
        0 <= i <= s.len(),
    ensures
        i <= word_end(s, i) <= s.len(),
        forall|j: int| i <= j < word_end(s, i) ==> !white(#[trigger] s[j]),
        word_end(s, i) < s.len() ==> white(s[word_end(s, i)]),
    decreases s.len() - i,
{
    if i < s.len() && !white(s[i]) {
        lemma_word_end_is(s, i + 1);
    }
}

proof fn lemma_links_stay(s: Seq<char>, i: int, links: Seq<Seq<char>>, link: Seq<char>)
    requires
        links.contains(link),
    ensures
        links_from(s, i, links).contains(link),
    decreases s.len() - i,
{
    if 0 <= i < s.len() {
        if s[i] == '@' {
            let e = word_end(s, i + 1);
            if i + 1 <= e <= s.len() {
                let next = with_link(links, s.subrange(i + 1, e));
                let k = choose|k: int| 0 <= k < links.len() && links[k] == link;
                assert(next[k] == link);
                lemma_links_stay(s, e, next, link);
            }
        } else {
            lemma_links_stay(s, i + 1, links, link);
        }
    }
}

proof fn lemma_mention_is_linked(s: Seq<char>, from: int, links: Seq<Seq<char>>, i: int, e: int)
    requires
        0 <= from <= i,
        mentions(s, i, e),
    ensures
        links_from(s, from, links).contains(s.subrange(i + 1, e)),
    decreases s.len() - from,
{
    let word = s.subrange(i + 1, e);
    if from == i {
        lemma_word_ends(s, i + 1, e);
        let next = with_link(links, word);
        assert(next.contains(word)) by {
            if !links.contains(word) {
                assert(next[next.len() - 1] == word);
            }
        }
        lemma_links_stay(s, e, next, word);
    } else if s[from] == '@' {
        let end = word_end(s, from + 1);
        lemma_word_end_is(s, from + 1);
        let w = choose|w: int| from < w < i && white(#[trigger] s[w]);
        assert(end <= w) by {
            if w < end {
                assert(!white(s[w]));
            }
        }
        lemma_mention_is_linked(s, end, with_link(links, s.subrange(from + 1, end)), i, e);
    } else {
        lemma_mention_is_linked(s, from + 1, links, i, e);
    }
}

/// `word` stands in the text from behind an `@` at `i` up to `e`.
pub open spec fn stands_behind_at(s: Seq<char>, i: int, e: int, word: Seq<char>) -> bool {
    0 <= i < e <= s.len() && s[i] == '@' && s.subrange(i + 1, e) == word
}

/// The word stands in the text behind an `@`.
pub open spec fn behind_at(s: Seq<char>, word: Seq<char>) -> bool {
    exists|i: int, e: int| stands_behind_at(s, i, e, word)
}

/// Every word stands in the text behind an `@`.
pub open spec fn all_behind_at(s: Seq<char>, words: Seq<Seq<char>>) -> bool {
    forall|k: int| 0 <= k < words.len() ==> behind_at(s, #[trigger] words[k])
}

proof fn lemma_links_are_words(s: Seq<char>, from: int, links: Seq<Seq<char>>)
    requires
        0 <= from,
        all_behind_at(s, links),
    ensures
        all_behind_at(s, links_from(s, from, links)),
    decreases s.len() - from,
{
    if from < s.len() {
        if s[from] == '@' {
            let e = word_end(s, from + 1);
            if from + 1 <= e <= s.len() {
                let word = s.subrange(from + 1, e);
                let next = with_link(links, word);
                assert(stands_behind_at(s, from, e, word));
                assert(behind_at(s, word));
                assert forall|k: int| 0 <= k < next.len() implies behind_at(
                    s,
                    #[trigger] next[k],
                ) by {
                    if k < links.len() {
                        assert(next[k] == links[k]);
                    } else {
                        assert(next[k] == word);
                    }
                }
                lemma_links_are_words(s, e, next);
            }
        } else {
            lemma_links_are_words(s, from + 1, links);
        }
    }
}

/// Enter in a conversation sends what was written: one prompt, whose first part is the
/// text as it stands, and which has a link for every word that starts with `@` and looks
/// like a path.  Each path is linked once, and nothing is linked that the text does not
/// mention.  The input is empty then.
pub proof fn law_enter_sends_the_input(app: AppView, out: OutboxView)
    requires
        !app.chord,
        app.elicitation is None,
        app.popup == Popup::Closed,
        app.screen == Screen::Chat,
        !app.session_op_pending(),
        app.conn == ConnState::Connected,
        app.input.len() > 0,
        !app.can_accept_mention(),
    ensures
        ({
            let (next, sent, action) = app.on_key(out, pressed(KeyCode::Enter));
            let prompt = sent.msgs.last()->Prompt_prompt;
            &&& action == AppAction::Nothing
            &&& sent.msgs.len() == out.msgs.len() + 1
            &&& sent.msgs.drop_last() == out.msgs
            &&& sent.msgs.last() is Prompt
            &&& prompt.len() > 0
            &&& prompt[0] == PromptBlockView::Text { text: app.input }
            &&& forall|i: int, e: int| #[trigger]
                mentions(app.input, i, e) ==> prompt.contains(
                    PromptBlockView::ResourceLink {
                        name: app.input.subrange(i + 1, e),
                        uri: app.input.subrange(i + 1, e),
                    },
                )
            &&& forall|k: int|
                1 <= k < prompt.len() ==> {
                    &&& (#[trigger] prompt[k]) is ResourceLink
                    &&& prompt[k]->ResourceLink_name == prompt[k]->ResourceLink_uri
                    &&& behind_at(app.input, prompt[k]->ResourceLink_name)
                }
            &&& forall|j: int, k: int|
                1 <= j < k < prompt.len() ==> #[trigger] prompt[j] != #[trigger] prompt[k]
            &&& next.input.len() == 0
            &&& next.input_cursor == 0
            &&& next.scroll_offset == 0
            &&& next.messages == app.messages
        }),
{
    let key = pressed(KeyCode::Enter);
    let s = app.settled_for(key);
    assert(s.input == app.input && s.messages == app.messages);
    reveal(AppView::on_plain_key);
    reveal(AppView::chat_key);
    reveal(AppView::on_chat_enter);
    let (next, sent, action) = app.on_key(out, key);
    let links = links_from(app.input, 0, Seq::empty());
    let prompt = crate::handlers::prompt_of(app.input);
    assert(sent.msgs.drop_last() =~= out.msgs);
    assert(sent.msgs.last() == ClientMsgView::Prompt { prompt });
    assert(prompt.len() == links.len() + 1);
    assert forall|k: int| 1 <= k < prompt.len() implies #[trigger] prompt[k]
        == PromptBlockView::ResourceLink { name: links[k - 1], uri: links[k - 1] } by {}
    lemma_links_are_words(app.input, 0, Seq::empty());
    crate::input::law_links_are_distinct_paths(app.input, 0, Seq::empty());
    assert forall|i: int, e: int| #[trigger] mentions(app.input, i, e) implies prompt.contains(
        PromptBlockView::ResourceLink {
            name: app.input.subrange(i + 1, e),
            uri: app.input.subrange(i + 1, e),
        },
    ) by {
        lemma_mention_is_linked(app.input, 0, Seq::empty(), i, e);
        let word = app.input.subrange(i + 1, e);
        let k = choose|k: int| 0 <= k < links.len() && links[k] == word;
        assert(prompt[k + 1] == PromptBlockView::ResourceLink { name: word, uri: word });
    }
    assert forall|k: int| 1 <= k < prompt.len() implies {
        &&& (#[trigger] prompt[k]) is ResourceLink
        &&& prompt[k]->ResourceLink_name == prompt[k]->ResourceLink_uri
        &&& behind_at(app.input, prompt[k]->ResourceLink_name)
    } by {
        assert(prompt[k]->ResourceLink_name == links[k - 1]);
    }
    assert forall|j: int, k: int| 1 <= j < k < prompt.len() implies #[trigger] prompt[j]
        != #[trigger] prompt[k] by {
        assert(links[j - 1] != links[k - 1]);
    }
}

/// Enter sends nothing while there is nothing to send, no connection, or an undo or a redo
/// under way; what was written stays.
pub proof fn law_enter_may_send_nothing(app: AppView, out: OutboxView)
    requires
        listening(app),
        app.popup == Popup::Closed,
        app.screen == Screen::Chat,
        !app.can_accept_mention(),
        app.input.len() == 0 || app.conn != ConnState::Connected || app.session_op_pending(),
    ensures
        ({
            let (next, sent, action) = app.on_key(out, pressed(KeyCode::Enter));
            sent == out && next.input == app.input && next.messages == app.messages
        }),
{
    reveal(AppView::on_plain_key);
    reveal(AppView::chat_key);
    reveal(AppView::on_chat_enter);
}

// ── writing ──────────────────────────────────────────────────────────────────

/// A key goes to the conversation.
proof fn lemma_goes_to_the_conversation(app: AppView, out: OutboxView, code: KeyCode)
    requires
        writing(app),
        code != KeyCode::Tab,
    ensures
        ({
            let (next, sent, action) = app.on_key(out, pressed(code));
            &&& (next, sent) == app.with_some_width().chat_key(out, code)
            &&& action == AppAction::Nothing
        }),
{
    reveal(AppView::on_plain_key);
}

/// A key that edits the input or moves in it does just that.
proof fn lemma_edits(app: AppView, out: OutboxView, code: KeyCode)
    requires
        writing(app),
        code == KeyCode::Backspace || code == KeyCode::Delete || code == KeyCode::Left || code
            == KeyCode::Right || code == KeyCode::Home,
    ensures
        ({
            let (next, sent, _) = app.on_key(out, pressed(code));
            &&& next == app.with_some_width().on_edit_key(code)
            &&& sent == out
        }),
{
    lemma_goes_to_the_conversation(app, out, code);
    reveal(AppView::chat_key);
}

/// A character that is typed stands where the cursor was, and the cursor behind it;
/// nothing else of the text changes.
pub proof fn law_typing_inserts_at_the_cursor(app: AppView, out: OutboxView, c: char, k: int)
    requires
        writing(app),
        0 <= k <= app.input.len(),
        app.input_cursor == bytes(app.input.take(k)),
        bytes(app.input) + width(c) <= usize::MAX,
    ensures
        ({
            let (next, sent, _) = app.on_key(out, pressed(KeyCode::Char(c)));
            &&& next.input.len() == app.input.len() + 1
            &&& next.input[k] == c
            &&& next.input.take(k) == app.input.take(k)
            &&& next.input.skip(k + 1) == app.input.skip(k)
            &&& next.input_cursor == bytes(next.input.take(k + 1))
            &&& next.messages == app.messages
            &&& sent.msgs == out.msgs || sent.msgs == out.msgs.push(ClientMsgView::GetFileIndex)
        }),
{
    reveal(AppView::on_plain_key);
    reveal(AppView::chat_key);
    let s = app.with_some_width();
    lemma_char_pos_of_prefix(app.input, k);
    lemma_bytes_take_le(app.input, k, app.input.len() as int);
    assert(app.input.take(app.input.len() as int) =~= app.input);
    let (next, sent, _) = app.on_key(out, pressed(KeyCode::Char(c)));
    assert(next.input == app.input.take(k).push(c) + app.input.skip(k));
    assert(next.input.take(k) =~= app.input.take(k));
    assert(next.input.skip(k + 1) =~= app.input.skip(k));
    assert(next.input.take(k + 1) =~= app.input.take(k).push(c));
    lemma_bytes_push(app.input.take(k), c);
}

/// Backspace takes the character before the cursor away, Delete the one behind it, and
/// nothing else.
pub proof fn law_erasing_takes_one_character(app: AppView, out: OutboxView, k: int)
    requires
        writing(app),
        0 <= k <= app.input.len(),
        app.input_cursor == bytes(app.input.take(k)),
        bytes(app.input) <= usize::MAX,
    ensures
        ({
            let (back, sent, _) = app.on_key(out, pressed(KeyCode::Backspace));
            let (del, sent2, _) = app.on_key(out, pressed(KeyCode::Delete));
            &&& sent == out && sent2 == out
            &&& k > 0 ==> back.input == app.input.remove(k - 1) && back.input_cursor == bytes(
                app.input.take(k - 1),
            )
            &&& k == 0 ==> back.input == app.input && back.input_cursor == app.input_cursor
            &&& k < app.input.len() ==> del.input == app.input.remove(k) && del.input_cursor
                == app.input_cursor
            &&& k == app.input.len() ==> del.input == app.input
            &&& back.messages == app.messages && del.messages == app.messages
        }),
{
    lemma_edits(app, out, KeyCode::Backspace);
    lemma_edits(app, out, KeyCode::Delete);
    reveal(AppView::on_edit_key);
    lemma_char_pos_of_prefix(app.input, k);
    lemma_bytes_take_le(app.input, k, app.input.len() as int);
    assert(app.input.take(app.input.len() as int) =~= app.input);
    if k > 0 {
        lemma_bytes_take(app.input, k - 1);
        lemma_bytes_take_le(app.input, k - 1, k);
        assert(app.input.take(k - 1) + app.input.skip(k) =~= app.input.remove(k - 1));
        lemma_step_is_wide(app.input, k - 1);
    } else {
        assert(bytes(app.input.take(0)) == 0);
    }
    if k < app.input.len() {
        assert(app.input.take(k) + app.input.skip(k + 1) =~= app.input.remove(k));
        lemma_step_is_wide(app.input, k);
        lemma_bytes_take_le(app.input, k + 1, app.input.len() as int);
    }
}

/// A character takes at least one byte.
proof fn lemma_step_is_wide(s: Seq<char>, k: int)
    requires
        0 <= k < s.len(),
    ensures
        bytes(s.take(k)) < bytes(s.take(k + 1)),
{
    assert(s.take(k + 1) =~= s.take(k).push(s[k]));
    lemma_bytes_push(s.take(k), s[k]);
}

/// Left and Right move the cursor by one character, Home and End to the ends; the text
/// stays.
pub proof fn law_cursor_moves_by_characters(app: AppView, out: OutboxView, k: int)
    requires
        writing(app),
        0 <= k <= app.input.len(),
        app.input_cursor == bytes(app.input.take(k)),
        bytes(app.input) <= usize::MAX,
        app.input.len() > 0,
    ensures
        ({
            let (left, s1, _) = app.on_key(out, pressed(KeyCode::Left));
            let (right, s2, _) = app.on_key(out, pressed(KeyCode::Right));
            let (home, s3, _) = app.on_key(out, pressed(KeyCode::Home));
            let (end, s4, _) = app.on_key(out, pressed(KeyCode::End));
            &&& s1 == out && s2 == out && s3 == out && s4 == out
            &&& left.input == app.input && right.input == app.input && home.input == app.input
                && end.input == app.input
            &&& left.input_cursor == bytes(
                app.input.take(
                    if k > 0 {
                        k - 1
                    } else {
                        0
                    },
                ),
            )
            &&& right.input_cursor == bytes(
                app.input.take(
                    if k < app.input.len() {
                        k + 1
                    } else {
                        k
                    },
                ),
            )
            &&& home.input_cursor == 0
            &&& end.input_cursor == bytes(app.input)
        }),
{
    lemma_edits(app, out, KeyCode::Left);
    lemma_edits(app, out, KeyCode::Right);
    lemma_edits(app, out, KeyCode::Home);
    lemma_goes_to_the_conversation(app, out, KeyCode::End);
    assert(app.on_key(out, pressed(KeyCode::End)).0 == app.with_some_width().edited(
        app.input,
        bytes(app.input) as int,
    ) && app.on_key(out, pressed(KeyCode::End)).1 == out) by {
        reveal(AppView::chat_key);
    }
    reveal(AppView::on_edit_key);
    lemma_char_pos_of_prefix(app.input, k);
    lemma_bytes_take_le(app.input, k, app.input.len() as int);
    assert(app.input.take(app.input.len() as int) =~= app.input);
    if k > 0 {
        lemma_step_is_wide(app.input, k - 1);
    } else {
        assert(bytes(app.input.take(0)) == 0);
    }
    if k < app.input.len() {
        lemma_step_is_wide(app.input, k);
        lemma_bytes_take_le(app.input, k + 1, app.input.len() as int);
    }
}

/// Page up and page down scroll the conversation by ten rows, down to its end.
pub proof fn law_pages_scroll(app: AppView, out: OutboxView)
    requires
        writing(app),
        app.scroll_offset <= u16::MAX - 10,
    ensures
        ({
            let (up, s1, _) = app.on_key(out, pressed(KeyCode::PageUp));
            let (down, s2, _) = app.on_key(out, pressed(KeyCode::PageDown));
            &&& s1 == out && s2 == out
            &&& up.scroll_offset == app.scroll_offset + 10
            &&& down.scroll_offset == (if app.scroll_offset >= 10 {
                app.scroll_offset - 10
            } else {
                0
            })
            &&& up.input == app.input && down.input == app.input
        }),
{
    reveal(AppView::on_plain_key);
    reveal(AppView::chat_key);
}

/// Esc closes a mention that is being written, and sends nothing; without a mention and
/// without work of the agent it does nothing to the input.
pub proof fn law_esc_closes_a_mention(app: AppView, out: OutboxView)
    requires
        writing(app),
        app.mention_state is Some || !app.turn_active(),
    ensures
        ({
            let (next, sent, _) = app.on_key(out, pressed(KeyCode::Esc));
            &&& next.mention_state is None
            &&& next.input == app.input
            &&& next.input_cursor == app.input_cursor
            &&& sent == out
        }),
{
    reveal(AppView::on_plain_key);
    reveal(AppView::chat_key);
    reveal(AppView::on_chat_esc);
}

// ── mentions ─────────────────────────────────────────────────────────────────

/// While the cursor stands in a word that starts with `@`, files are offered for what was
/// written behind it; elsewhere none are.
pub proof fn law_mention_is_recognised(app: AppView, k: int, t: int)
    requires
        0 <= t < k <= app.input.len(),
        app.input_cursor == bytes(app.input.take(k)),
        bytes(app.input) <= usize::MAX,
        app.input[t] == '@',
        t == 0 || white(app.input[t - 1]),
        forall|j: int| t < j < k ==> #[trigger] app.input[j] != '@' && !white(app.input[j]),
    ensures
        ({
            let m = app.mention_refreshed().mention_state;
            &&& m is Some
            &&& m->0.query == app.input.subrange(t + 1, k)
            &&& m->0.trigger_start == bytes(app.input.take(t))
            &&& m->0.selected_index == 0
            &&& m->0.results == app.file_matches(m->0.query)
        }),
{
    lemma_char_pos_of_prefix(app.input, k);
    let before = app.input.take(k);
    assert forall|j: int| t < j < k implies #[trigger] before[j] != '@' by {
        assert(before[j] == app.input[j]);
    }
    lemma_last_at(before, t);
    assert(before.skip(t + 1) =~= app.input.subrange(t + 1, k));
    let token = app.input.subrange(t + 1, k);
    assert(!crate::input::has_white(token)) by {
        if crate::input::has_white(token) {
            let j = choose|j: int| 0 <= j < token.len() && white(#[trigger] token[j]);
            assert(token[j] == app.input[t + 1 + j]);
            assert(app.input[t + 1 + j] != '@');
        }
    }
    assert(before.take(t) =~= app.input.take(t));
    lemma_bytes_take_le(app.input, t, app.input.len() as int);
    assert(app.input.take(app.input.len() as int) =~= app.input);
}

proof fn lemma_last_at(s: Seq<char>, t: int)
    requires
        0 <= t < s.len(),
        s[t] == '@',
        forall|j: int| t < j < s.len() ==> #[trigger] s[j] != '@',
    ensures
        crate::input::last_at(s) == Some(t),
    decreases s.len(),
{
    if t < s.len() - 1 {
        assert(s[s.len() - 1] != '@');
        let d = s.drop_last();
        assert forall|j: int| t < j < d.len() implies #[trigger] d[j] != '@' by {
            assert(d[j] == s[j]);
        }
        lemma_last_at(d, t);
    }
}

proof fn lemma_no_at(s: Seq<char>)
    requires
        !s.contains('@'),
    ensures
        crate::input::last_at(s) is None,
    decreases s.len(),
{
    if s.len() > 0 {
        assert(s[s.len() - 1] == s.last());
        let d = s.drop_last();
        assert(!d.contains('@')) by {
            if d.contains('@') {
                let j = choose|j: int| 0 <= j < d.len() && d[j] == '@';
                assert(s[j] == '@');
            }
        }
        lemma_no_at(d);
    }
}

/// Without an `@` before the cursor, and behind white space, nothing is offered.
pub proof fn law_no_mention_elsewhere(app: AppView, k: int)
    requires
        0 <= k <= app.input.len(),
        app.input_cursor == bytes(app.input.take(k)),
        !app.input.take(k).contains('@') || (k > 0 && white(app.input[k - 1])),
    ensures
        app.mention_refreshed().mention_state is None,
        app.mention_refreshed().input == app.input,
{
    lemma_char_pos_of_prefix(app.input, k);
    let before = app.input.take(k);
    if !before.contains('@') {
        lemma_no_at(before);
    } else {
        lemma_last_at_is(before);
        let t = crate::input::last_at(before)->0;
        let token = before.skip(t + 1);
        assert(white(before[k - 1]));
        assert(before[t] == '@');
        assert(!white('@'));
        assert(token[k - 1 - (t + 1)] == before[k - 1]);
        assert(crate::input::has_white(token));
    }
}

proof fn lemma_last_at_is(s: Seq<char>)
    requires
        s.contains('@'),
    ensures
        crate::input::last_at(s) is Some,
        0 <= crate::input::last_at(s)->0 < s.len(),
        s[crate::input::last_at(s)->0] == '@',
    decreases s.len(),
{
    if s.last() != '@' {
        let j = choose|j: int| 0 <= j < s.len() && s[j] == '@';
        assert(s.drop_last()[j] == '@');
        lemma_last_at_is(s.drop_last());
    }
}

/// Enter takes the selected file into the input: it stands in place of what was
/// written of it, behind the `@` and with a blank behind it, and the cursor behind that.
/// What stands before and behind stays.
pub proof fn law_selected_file_is_taken(app: AppView, out: OutboxView, t: int, e: int)
    requires
        writing(app),
        app.can_accept_mention(),
        0 <= t < e <= app.input.len(),
        app.mention_state->0.trigger_start == bytes(app.input.take(t)),
        app.input[t] == '@',
        app.mention_state->0.query == app.input.subrange(t + 1, e),
        bytes(app.input.take(t)) + 2 + bytes(
            app.mention_state->0.results[app.mention_state->0.selected_index as int].path,
        ) <= usize::MAX,
    ensures
        ({
            let (next, sent, _) = app.on_key(out, pressed(KeyCode::Enter));
            let m = app.mention_state->0;
            let path = m.results[m.selected_index as int].path;
            let put = seq!['@'] + path + seq![' '];
            &&& next.input == app.input.take(t) + put + app.input.skip(e)
            &&& next.input_cursor == bytes(app.input.take(t) + put)
            &&& next.mention_state is None
            &&& sent == out
            &&& next.messages == app.messages
        }),
{
    reveal(AppView::on_plain_key);
    reveal(AppView::chat_key);
    reveal(AppView::on_chat_enter);
    reveal_strlit("@");
    reveal_strlit(" ");
    assert("@"@ =~= seq!['@']);
    assert(" "@ =~= seq![' ']);
    let m = app.mention_state->0;
    let path = m.results[m.selected_index as int].path;
    let put = seq!['@'] + path + seq![' '];
    assert("@"@ + path + " "@ =~= put);
    lemma_char_pos_of_prefix(app.input, t);
    assert(app.input.take(e) =~= app.input.take(t) + (seq!['@'] + m.query));
    lemma_bytes_concat(app.input.take(t), seq!['@'] + m.query);
    lemma_bytes_concat(seq!['@'], m.query);
    lemma_bytes_concat(seq!['@'] + path, seq![' ']);
    lemma_bytes_concat(seq!['@'], path);
    lemma_bytes_concat(app.input.take(t), put);
    lemma_bytes_push(Seq::empty(), '@');
    lemma_bytes_push(Seq::empty(), ' ');
    assert(Seq::<char>::empty().push('@') =~= seq!['@']);
    assert(Seq::<char>::empty().push(' ') =~= seq![' ']);
    assert(bytes(Seq::<char>::empty()) == 0);
    assert(bytes(seq!['@']) == 1);
    lemma_char_pos_of_prefix(app.input, e);
}

/// Up and Down go round the files that are offered.
pub proof fn law_selection_goes_round(app: AppView, out: OutboxView)
    requires
        writing(app),
        app.mention_state is Some,
        app.mention_state->0.selected_index < app.mention_state->0.results.len() <= usize::MAX,
    ensures
        ({
            let m = app.mention_state->0;
            let n = m.results.len();
            let (down, _, _) = app.on_key(out, pressed(KeyCode::Down));
            let (up, _, _) = app.on_key(out, pressed(KeyCode::Up));
            &&& down.mention_state is Some && up.mention_state is Some
            &&& down.mention_state->0.results == m.results
            &&& down.mention_state->0.selected_index == (if m.selected_index + 1 < n {
                m.selected_index + 1
            } else {
                0
            })
            &&& up.mention_state->0.selected_index == (if m.selected_index > 0 {
                m.selected_index - 1
            } else {
                n - 1
            })
            &&& down.input == app.input && up.input == app.input
        }),
{
    reveal(AppView::on_plain_key);
    reveal(AppView::chat_key);
    reveal(AppView::on_chat_row);
    let m = app.mention_state->0;
    let n = m.results.len() as int;
    let at = m.selected_index as int;
    assert((at + 1) % n == (if at + 1 < n {
        at + 1
    } else {
        0
    })) by (nonlinear_arith)
        requires
            0 <= at < n,
    ;
    assert((at - 1) % n == (if at > 0 {
        at - 1
    } else {
        n - 1
    })) by (nonlinear_arith)
        requires
            0 <= at < n,
    ;
}

// ── undo and redo ────────────────────────────────────────────────────────────

/// `k` is the turn that an undo reverts: the last one with a message among the first `n`.
pub open spec fn last_turn(app: AppView, n: int, k: int) -> bool {
    &&& 0 <= k < n <= app.undoable_turns.len()
    &&& app.undoable_turns[k].message_id.len() > 0
    &&& forall|j: int| k < j < n ==> (#[trigger] app.undoable_turns[j]).message_id.len() == 0
}

proof fn lemma_last_turn(app: AppView, n: int, k: int)
    requires
        last_turn(app, n, k),
    ensures
        crate::seqs::final_match(app.undoable_turns.take(n), crate::undo::has_message()) == Some(
            app.undoable_turns[k],
        ),
{
    let s = app.undoable_turns.take(n);
    let p = crate::undo::has_message();
    assert(s[k] == app.undoable_turns[k]);
    assert forall|j: int| k < j < s.len() implies !p(#[trigger] s[j]) by {
        assert(s[j] == app.undoable_turns[j]);
    }
    crate::seqs::lemma_final_index(s, p);
    crate::seqs::lemma_final_index_is(s, p, k);
}

/// An undo asks the server to revert the last turn that is in effect: the last one, or the
/// one before the part that is undone already.  Its text comes back into an input that is
/// blank, and the conversation waits for the server.
pub proof fn law_undo_reverts_the_last_turn(app: AppView, out: OutboxView, n: int, k: int)
    requires
        app.chord,
        app.conn == ConnState::Connected,
        app.activity == ActivityStateView::Idle,
        !app.undo_pending(),
        last_turn(app, n, k),
        app.frontier() is None ==> n == app.undoable_turns.len(),
        app.frontier() is Some ==> {
            ||| n < app.undoable_turns.len() && app.undoable_turns[n].message_id
                == app.frontier()->0 && forall|j: int|
                0 <= j < n ==> (#[trigger] app.undoable_turns[j]).message_id != app.frontier()->0
            ||| n == app.undoable_turns.len() && forall|j: int|
                0 <= j < n ==> (#[trigger] app.undoable_turns[j]).message_id != app.frontier()->0
        },
    ensures
        ({
            let (next, sent, _) = app.on_key(out, pressed(KeyCode::Char('u')));
            let turn = app.undoable_turns[k];
            &&& sent.msgs == out.msgs.push(ClientMsgView::Undo { message_id: turn.message_id })
            &&& next.activity == ActivityStateView::SessionOp(SessionOp::Undo)
            &&& next.frontier() == Some(turn.message_id)
            &&& next.undo_pending()
            &&& next.undo_stack().drop_last() == app.undo_stack()
            &&& next.messages == app.messages
            &&& next.undoable_turns == app.undoable_turns
            &&& app.input.len() == 0 && turn.text.len() > 0 ==> next.input == turn.text
            &&& !crate::text::blank(app.input) ==> next.input == app.input
        }),
{
    let key = pressed(KeyCode::Char('u'));
    let s = app.settled_for(key);
    reveal(AppView::chord_ended);
    reveal(AppView::on_chord);
    reveal(AppView::undo_asked);
    lemma_last_turn(app, n, k);
    if app.frontier() is Some {
        let p = crate::undo::turn_of(app.frontier()->0);
        if n < app.undoable_turns.len() {
            crate::seqs::lemma_first_is(app.undoable_turns, p, n);
        } else {
            crate::seqs::lemma_first_none(app.undoable_turns, p);
        }
    }
    let ready = (AppView { chord: false, ..s }).with_status(
        crate::app::LogLevel::Debug,
        "input"@,
        "ready"@,
    );
    assert(ready.undoable_turns == app.undoable_turns);
    assert(ready.undo_state == app.undo_state);
    assert(ready.undo_stack() == app.undo_stack());
    assert(!ready.undo_pending()) by {
        if ready.undo_pending() {
            let i = choose|i: int|
                0 <= i < ready.undo_stack().len() && #[trigger] ready.undo_stack()[i].status
                    == crate::app::UndoFrameStatus::Pending;
            assert(app.undo_stack()[i].status == crate::app::UndoFrameStatus::Pending);
        }
    }
    assert(ready.undo_target() == Some(app.undoable_turns[k]));
    let (next, sent, _) = app.on_key(out, key);
    assert(next.undo_stack().drop_last() =~= app.undo_stack());
    crate::undo::law_undo_moves_back(ready);
    let stack = next.undo_stack();
    assert(stack[stack.len() - 1].status == crate::app::UndoFrameStatus::Pending);
}

/// Undo and redo are refused while the agent works or while one of them is under way:
/// nothing is sent and nothing is undone.  A redo asks the server where something is undone.
pub proof fn law_undo_and_redo_take_turns(app: AppView, out: OutboxView)
    requires
        app.chord,
        app.conn == ConnState::Connected,
    ensures
        ({
            let (undo, s1, _) = app.on_key(out, pressed(KeyCode::Char('u')));
            let (redo, s2, _) = app.on_key(out, pressed(KeyCode::Char('r')));
            &&& app.turn_active() || app.session_op_pending() || app.undo_pending() ==> {
                &&& s1 == out && s2 == out
                &&& undo.undo_state == app.undo_state && redo.undo_state == app.undo_state
                &&& undo.activity == app.activity && redo.activity == app.activity
                &&& undo.input == app.input && redo.input == app.input
            }
            &&& !app.turn_active() && !app.session_op_pending() && !app.undo_pending() ==> {
                &&& app.undo_stack().len() > 0 ==> s2.msgs == out.msgs.push(ClientMsgView::Redo)
                    && redo.activity == ActivityStateView::SessionOp(SessionOp::Redo)
                &&& app.undo_stack().len() == 0 ==> s2 == out && redo.activity == app.activity
                &&& app.undoable_turns.len() == 0 ==> s1 == out && undo.undo_state
                    == app.undo_state
            }
            &&& redo.messages == app.messages && undo.messages == app.messages
            &&& redo.undo_state == app.undo_state
        }),
{
    reveal(AppView::chord_ended);
    reveal(AppView::on_chord);
    reveal(AppView::undo_asked);
    reveal(AppView::redo_asked);
    let s = app.settled_for(pressed(KeyCode::Char('u')));
    let ready = (AppView { chord: false, ..s }).with_status(
        crate::app::LogLevel::Debug,
        "input"@,
        "ready"@,
    );
    assert(ready.undo_stack() == app.undo_stack());
    assert(ready.undo_pending() == app.undo_pending()) by {
        if app.undo_pending() {
            let i = choose|i: int|
                0 <= i < app.undo_stack().len() && #[trigger] app.undo_stack()[i].status
                    == crate::app::UndoFrameStatus::Pending;
            assert(ready.undo_stack()[i].status == crate::app::UndoFrameStatus::Pending);
        }
        if ready.undo_pending() {
            let i = choose|i: int|
                0 <= i < ready.undo_stack().len() && #[trigger] ready.undo_stack()[i].status
                    == crate::app::UndoFrameStatus::Pending;
            assert(app.undo_stack()[i].status == crate::app::UndoFrameStatus::Pending);
        }
    }
    if app.undoable_turns.len() == 0 {
        assert(ready.undoable_turns.take(0) =~= Seq::empty());
    }
}

proof fn lemma_offset_at(columns: Seq<(int, int)>, preferred: int, otherwise: int) -> (i: int)
    requires
        columns.len() > 0,
        columns[0].0 <= preferred,
    ensures
        0 <= i < columns.len(),
        columns[i].0 <= preferred,
        i + 1 < columns.len() ==> columns[i + 1].0 > preferred,
        offset_at(columns, preferred, otherwise) == columns[i].1,
    decreases columns.len(),
{
    let d = columns.drop_first();
    if d.len() == 0 || d[0].0 > preferred {
        assert(offset_at(d, preferred, columns[0].1) == columns[0].1);
        0
    } else {
        1 + lemma_offset_at(d, preferred, columns[0].1)
    }
}

/// The cursor stands in a row at the last column that is not beyond the one it came
/// from.
pub open spec fn near_column(row: RowView, cursor: int, column: int, i: int) -> bool {
    &&& 0 <= i < row.columns.len()
    &&& row.columns[i].0 <= column
    &&& i + 1 < row.columns.len() ==> row.columns[i + 1].0 > column
    &&& cursor == row.columns[i].1
}

/// The column that a move from row to row began from.
pub open spec fn column_kept(app: AppView) -> int {
    match app.input_preferred_col {
        Some(c) => c as int,
        None => app.input_rows(2).cursor_text_col,
    }
}

/// An arrow up moves the cursor to the row above, near the column from which such a
/// move began; in the first row it stays.  The text stays.
pub proof fn law_arrow_up_moves_one_row(app: AppView, out: OutboxView, above: RowView)
    requires
        writing(app),
        app.mention_state is None,
        app.input_line_width > 0,
        0 <= app.input_rows(2).cursor_text_col <= usize::MAX,
    ensures
        ({
            let (next, sent, _) = app.on_key(out, pressed(KeyCode::Up));
            let layout = app.input_rows(2);
            &&& sent == out
            &&& next.input == app.input
            &&& layout.cursor_row == 0 ==> next.input_cursor == app.input_cursor
            &&& 0 < layout.cursor_row <= layout.rows.len() && above == layout.rows[layout.cursor_row
                - 1] && above.columns.len() > 0 && above.columns[0].0 <= column_kept(app) && (
            forall|j: int|
                0 <= j < above.columns.len() ==> 0 <= (#[trigger] above.columns[j]).1 <= usize::MAX)
                ==> exists|i: int|
                near_column(above, next.input_cursor as int, column_kept(app), i)
        }),
{
    lemma_goes_to_the_conversation(app, out, KeyCode::Up);
    reveal(AppView::chat_key);
    reveal(AppView::on_chat_row);
    assert(app.with_some_width() == app);
    let layout = app.input_rows(2);
    let (next, sent, _) = app.on_key(out, pressed(KeyCode::Up));
    assert(next == app.row_up(2));
    if 0 < layout.cursor_row <= layout.rows.len() && above == layout.rows[layout.cursor_row - 1]
        && above.columns.len() > 0 && above.columns[0].0 <= column_kept(app) && (forall|j: int|
        0 <= j < above.columns.len() ==> 0 <= (#[trigger] above.columns[j]).1 <= usize::MAX) {
        let i = lemma_offset_at(above.columns, column_kept(app), above.end);
        assert(next.input_cursor == above.columns[i].1);
        assert(near_column(above, next.input_cursor as int, column_kept(app), i));
    }
}

/// An arrow down moves the cursor to the row below, near the column from which such a
/// move began; in the last row it stays.  The text stays.
pub proof fn law_arrow_down_moves_one_row(app: AppView, out: OutboxView, below: RowView)
    requires
        writing(app),
        app.mention_state is None,
        app.input_line_width > 0,
        0 <= app.input_rows(2).cursor_text_col <= usize::MAX,
    ensures
        ({
            let (next, sent, _) = app.on_key(out, pressed(KeyCode::Down));
            let layout = app.input_rows(2);
            &&& sent == out
            &&& next.input == app.input
            &&& layout.cursor_row + 1 >= layout.rows.len() ==> next.input_cursor
                == app.input_cursor
            &&& 0 <= layout.cursor_row < layout.rows.len() - 1 && below
                == layout.rows[layout.cursor_row + 1] && below.columns.len() > 0
                && below.columns[0].0 <= column_kept(app) && (forall|j: int|
                0 <= j < below.columns.len() ==> 0 <= (#[trigger] below.columns[j]).1 <= usize::MAX)
                ==> exists|i: int|
                near_column(below, next.input_cursor as int, column_kept(app), i)
        }),
{
    lemma_goes_to_the_conversation(app, out, KeyCode::Down);
    reveal(AppView::chat_key);
    reveal(AppView::on_chat_row);
    assert(app.with_some_width() == app);
    let layout = app.input_rows(2);
    let (next, sent, _) = app.on_key(out, pressed(KeyCode::Down));
    assert(next == app.row_down(2));
    if 0 <= layout.cursor_row < layout.rows.len() - 1 && below == layout.rows[layout.cursor_row + 1]
        && below.columns.len() > 0 && below.columns[0].0 <= column_kept(app) && (forall|j: int|
        0 <= j < below.columns.len() ==> 0 <= (#[trigger] below.columns[j]).1 <= usize::MAX) {
        let i = lemma_offset_at(below.columns, column_kept(app), below.end);
        assert(next.input_cursor == below.columns[i].1);
        assert(near_column(below, next.input_cursor as int, column_kept(app), i));
    }
}

/// The file index is asked for, once, when a character makes a mention and no index
/// is there or on its way; otherwise nothing is sent.
pub proof fn law_index_is_asked_for_once(app: AppView, out: OutboxView, c: char)
    requires
        writing(app),
    ensures
        ({
            let (next, sent, _) = app.on_key(out, pressed(KeyCode::Char(c)));
            let needed = next.mention_state is Some && app.file_index.len() == 0
                && !app.file_index_loading;
            &&& needed ==> sent == (OutboxView {
                msgs: out.msgs.push(ClientMsgView::GetFileIndex),
                ..out
            })
            &&& !needed ==> sent == out
            &&& next.file_index_loading == (app.file_index_loading || needed)
            &&& next.file_index == app.file_index
        }),
{
    reveal(AppView::on_plain_key);
    reveal(AppView::chat_key);
}

/// An `@` inside a word, as in an address, begins no mention.
pub proof fn law_no_mention_inside_words(app: AppView, t: int, k: int)
    requires
        0 < t < k <= app.input.len(),
        app.input_cursor == bytes(app.input.take(k)),
        app.input[t] == '@',
        !white(app.input[t - 1]),
        forall|j: int| t < j < k ==> (#[trigger] app.input[j]) != '@',
    ensures
        app.mention_refreshed().mention_state is None,
        app.mention_refreshed().input == app.input,
{
    lemma_char_pos_of_prefix(app.input, k);
    let before = app.input.take(k);
    assert forall|j: int| t < j < before.len() implies (#[trigger] before[j]) != '@' by {
        assert(before[j] == app.input[j]);
    }
    lemma_last_at(before, t);
    assert(before[t - 1] == app.input[t - 1]);
}

} // verus!
