//! What holds of what is shown of tool calls and of answers.
use crate::app::{ChatEntryView, ToolDetailView};
use crate::json::{parsed, JsonView};
use crate::text::{clipped, decimal, joined, short_form};
use crate::theme::Theme;
use crate::tools::{
    after_answers, answer_lines, answer_text, awaits_answer, backfilled, call_detail, detail_of,
    law_answers_change_only_waiting_cards, todo_lines,
};
use vstd::prelude::*;

verus! {

// ── calls ────────────────────────────────────────────────────────────────────

proof fn lemma_tool_names()
    ensures
        "edit"@.len() == 4 && "edit"@[0] == 'e',
        "multiedit"@.len() == 9 && "multiedit"@[0] == 'm',
        "write_file"@.len() == 10 && "write_file"@[0] == 'w',
        "read_tool"@.len() == 9 && "read_tool"@[0] == 'r',
        "shell"@.len() == 5 && "shell"@[0] == 's',
        "search_text"@.len() == 11 && "search_text"@[0] == 's',
        "glob"@.len() == 4 && "glob"@[0] == 'g',
        "ls"@.len() == 2 && "ls"@[0] == 'l',
        "delete_file"@.len() == 11 && "delete_file"@[0] == 'd',
        "browse"@.len() == 6 && "browse"@[0] == 'b',
        "web_fetch"@.len() == 9 && "web_fetch"@[0] == 'w',
        "apply_patch"@.len() == 11 && "apply_patch"@[0] == 'a',
        "delegate"@.len() == 8 && "delegate"@[0] == 'd',
        "language_query"@.len() == 14 && "language_query"@[0] == 'l',
        "question"@.len() == 8 && "question"@[0] == 'q',
        "todowrite"@.len() == 9 && "todowrite"@[0] == 't',
{
    reveal_strlit("edit");
    reveal_strlit("multiedit");
    reveal_strlit("write_file");
    reveal_strlit("read_tool");
    reveal_strlit("shell");
    reveal_strlit("search_text");
    reveal_strlit("glob");
    reveal_strlit("ls");
    reveal_strlit("delete_file");
    reveal_strlit("browse");
    reveal_strlit("web_fetch");
    reveal_strlit("apply_patch");
    reveal_strlit("delegate");
    reveal_strlit("language_query");
    reveal_strlit("question");
    reveal_strlit("todowrite");
}

/// Arguments that come as a text are read as JSON; a call without arguments, or of
/// an unknown tool, shows its name alone.
pub proof fn law_arguments_are_read(
    theme: Theme,
    tool: Seq<char>,
    text: Seq<char>,
    obj: JsonView,
)
    requires
        parsed(text) == Some(obj),
        !(obj is Text),
    ensures
        call_detail(theme, tool, Some(JsonView::Text(text))) == call_detail(theme, tool, Some(obj)),
        call_detail(theme, tool, None) == ToolDetailView::Bare,
        call_detail(theme, tool, Some(obj)) == detail_of(theme, tool, obj),
{
}

/// An edit shows the file and both texts of its arguments, whichever of the two
/// spellings their keys have, and a diff between the two.
pub proof fn law_edit_shows_both_texts(
    theme: Theme,
    obj: JsonView,
    file: Seq<char>,
    before: Seq<char>,
    after: Seq<char>,
)
    requires
        obj.text_at("filePath"@) == Some(file) || (obj.get("filePath"@) is None && obj.text_at(
            "file_path"@,
        ) == Some(file)),
        obj.text_at("oldString"@) == Some(before) || (obj.get("oldString"@) is None && obj.text_at(
            "old_string"@,
        ) == Some(before)),
        obj.text_at("newString"@) == Some(after) || (obj.get("newString"@) is None && obj.text_at(
            "new_string"@,
        ) == Some(after)),
    ensures
        detail_of(theme, "edit"@, obj) == (ToolDetailView::Edit {
            file,
            before,
            after,
            start_line: None,
            cached_lines: crate::diff::diff_rows(theme, before, after, None),
        }),
{
}

/// A call that writes a file shows its path and its content.
pub proof fn law_write_shows_path_and_content(
    theme: Theme,
    obj: JsonView,
    path: Seq<char>,
    content: Seq<char>,
)
    requires
        obj.text_at("path"@) == Some(path),
        obj.text_at("content"@) == Some(content),
    ensures
        detail_of(theme, "write_file"@, obj) == (ToolDetailView::WriteFile {
            path,
            content,
            cached_lines: crate::diff::write_rows(theme, content),
        }),
{
    lemma_tool_names();
}

/// A call that reads a file shows its path, and the lines that it reads where they
/// are given.
pub proof fn law_read_shows_path_and_lines(theme: Theme, obj: JsonView, path: Seq<char>)
    requires
        obj.text_at("path"@) == Some(path),
    ensures
        detail_of(theme, "read_tool"@, obj) == ToolDetailView::Summary(
            short_form(path) + match (obj.natural_at("offset"@), obj.natural_at("limit"@)) {
                (Some(first), Some(count)) => ":"@ + decimal(first as nat) + "-"@ + decimal(
                    (first + count) as nat,
                ),
                (Some(first), None) => ":"@ + decimal(first as nat),
                _ => Seq::empty(),
            },
        ),
{
    lemma_tool_names();
}

/// A shell call shows its command, a call for a page its address, and a delegation
/// its objective: each whole where it is short.
pub proof fn law_short_subjects_are_shown_whole(
    theme: Theme,
    obj: JsonView,
    subject: Seq<char>,
)
    requires
        crate::text::bytes(subject) <= 50,
    ensures
        obj.text_at("command"@) == Some(subject) ==> detail_of(theme, "shell"@, obj)
            == ToolDetailView::Summary(subject),
        obj.text_at("url"@) == Some(subject) ==> detail_of(theme, "browse"@, obj)
            == ToolDetailView::Summary(subject) && detail_of(theme, "web_fetch"@, obj)
            == ToolDetailView::Summary(subject),
        obj.text_at("objective"@) == Some(subject) ==> detail_of(theme, "delegate"@, obj)
            == ToolDetailView::Summary(subject),
{
    lemma_tool_names();
}

/// Longer commands and addresses are cut at sixty bytes, longer objectives at fifty.
pub proof fn law_long_subjects_are_cut(theme: Theme, obj: JsonView)
    ensures
        detail_of(theme, "shell"@, obj) == ToolDetailView::Summary(
            clipped(obj.text_or_empty("command"@), 60, "\u{2026}"@),
        ),
        detail_of(theme, "browse"@, obj) == ToolDetailView::Summary(
            clipped(obj.text_or_empty("url"@), 60, "\u{2026}"@),
        ),
        detail_of(theme, "web_fetch"@, obj) == detail_of(theme, "browse"@, obj),
        detail_of(theme, "delegate"@, obj) == ToolDetailView::Summary(
            clipped(obj.text_or_empty("objective"@), 50, "\u{2026}"@),
        ),
{
    lemma_tool_names();
}

/// A text search shows its pattern in quotation marks and where it looks: what it
/// is limited to, or a path, or here.
pub proof fn law_search_shows_pattern_and_place(theme: Theme, obj: JsonView, pattern: Seq<char>)
    requires
        obj.text_at("pattern"@) == Some(pattern),
    ensures
        obj.text_at("include"@) matches Some(only) ==> (only.len() > 0 ==> detail_of(
            theme,
            "search_text"@,
            obj,
        ) == ToolDetailView::Summary("\""@ + pattern + "\" "@ + only)),
        obj.text_at("path"@) matches Some(path) ==> (obj.text_at("include"@) is None && path.len()
            > 0 ==> detail_of(theme, "search_text"@, obj) == ToolDetailView::Summary(
            "\""@ + pattern + "\" "@ + short_form(path),
        )),
        obj.text_at("include"@) is None && obj.text_at("path"@) is None ==> detail_of(
            theme,
            "search_text"@,
            obj,
        ) == ToolDetailView::Summary("\""@ + pattern + "\" "@ + "."@),
        obj.text_at("path"@) is None ==> detail_of(theme, "glob"@, obj) == ToolDetailView::Summary(
            pattern,
        ),
        obj.text_at("path"@) matches Some(path) ==> (path.len() > 0 ==> detail_of(
            theme,
            "glob"@,
            obj,
        ) == ToolDetailView::Summary(pattern + " in "@ + short_form(path))),
{
    lemma_tool_names();
}

/// Calls on a path show the path; several edits are counted.
pub proof fn law_other_calls_show_their_subject(theme: Theme, obj: JsonView)
    ensures
        obj.text_at("path"@) matches Some(path) ==> (path.len() > 0 ==> detail_of(theme, "ls"@, obj)
            == ToolDetailView::Summary(short_form(path)) && detail_of(theme, "delete_file"@, obj)
            == ToolDetailView::Summary(short_form(path))),
        obj.text_at("path"@) is None ==> detail_of(theme, "ls"@, obj) == ToolDetailView::Summary(
            "."@,
        ),
        obj.text_at("filePath"@) matches Some(file) ==> (obj.items_at("edits"@) matches Some(edits)
            ==> detail_of(theme, "multiedit"@, obj) == ToolDetailView::Summary(
            short_form(file) + " ("@ + decimal(edits.len()) + " edits)"@,
        )),
        obj.text_at("action"@) matches Some(action) ==> (obj.text_at("uri"@) matches Some(uri)
            ==> detail_of(theme, "language_query"@, obj) == ToolDetailView::Summary(
            action + " "@ + short_form(uri),
        )),
        detail_of(theme, "apply_patch"@, obj) == ToolDetailView::Summary("patch"@),
        detail_of(theme, "question"@, obj) == ToolDetailView::Summary("asking..."@),
{
    lemma_tool_names();
}

/// Every item of a to-do list that has a text has a line, in order, with a mark
/// that tells whether it is done.
pub proof fn law_todo_items_have_their_lines(items: Seq<JsonView>, item: JsonView, text: Seq<char>)
    requires
        item.text_at("content"@) == Some(text),
        text.len() > 0,
    ensures
        todo_lines(items.push(item)) == todo_lines(items).push(
            (if item.text_at("status"@) == Some("completed"@) {
                "[x] "@
            } else {
                "[ ] "@
            }) + text,
        ),
        todo_lines(Seq::empty()).len() == 0,
{
    assert(items.push(item).drop_last() =~= items);
    reveal_strlit("pending");
    reveal_strlit("completed");
    assert("pending"@.len() == 7);
    assert("completed"@.len() == 9);
}

/// A to-do list shows its lines one below the other, or its name alone where it
/// has none.
pub proof fn law_todo_list_is_shown(theme: Theme, obj: JsonView, items: Seq<JsonView>)
    requires
        obj.items_at("todos"@) == Some(items),
    ensures
        todo_lines(items).len() > 0 ==> detail_of(theme, "todowrite"@, obj)
            == ToolDetailView::Summary(joined(todo_lines(items), "\n"@)),
        todo_lines(items).len() == 0 ==> detail_of(theme, "todowrite"@, obj)
            == ToolDetailView::Bare,
{
    lemma_tool_names();
}

// ── answers in a replay ──────────────────────────────────────────────────────

/// How many of the first `n` entries are questions that wait for their answer.
pub open spec fn waiting(messages: Seq<ChatEntryView>, n: int) -> int
    decreases n,
{
    if n <= 0 {
        0
    } else {
        waiting(messages, n - 1) + if awaits_answer(messages[n - 1]) {
            1int
        } else {
            0
        }
    }
}

proof fn lemma_waiting_skip(messages: Seq<ChatEntryView>, n: int)
    requires
        1 <= n <= messages.len(),
    ensures
        waiting(messages, n) == waiting(messages.skip(1), n - 1) + if awaits_answer(messages[0]) {
            1int
        } else {
            0
        },
        waiting(messages, n) >= 0,
        waiting(messages.skip(1), n - 1) >= 0,
    decreases n,
{
    if n > 1 {
        lemma_waiting_skip(messages, n - 1);
        assert(messages.skip(1)[n - 2] == messages[n - 1]);
    } else {
        assert(waiting(messages, 0) == 0);
        assert(waiting(messages.skip(1), 0) == 0);
    }
}

/// The questions that wait are given the answers in order: the first the first, and
/// so on; those for which there is no answer go on waiting.
pub proof fn law_answers_go_to_their_questions(
    messages: Seq<ChatEntryView>,
    answers: Seq<JsonView>,
    i: int,
)
    requires
        0 <= i < messages.len(),
        awaits_answer(messages[i]),
    ensures
        ({
            let w = waiting(messages, i);
            let e = backfilled(messages, answers)[i];
            &&& 0 <= w
            &&& w < answers.len() ==> e is Elicitation && e->Elicitation_outcome == Some(
                answer_text(answers[w]),
            ) && e->Elicitation_message == messages[i]->Elicitation_message
            &&& w >= answers.len() ==> e == messages[i]
        }),
    decreases messages.len(),
{
    if i > 0 {
        lemma_waiting_skip(messages, i);
        let rest = messages.skip(1);
        assert(rest[i - 1] == messages[i]);
        if answers.len() > 0 {
            if awaits_answer(messages[0]) {
                law_answers_go_to_their_questions(rest, answers.skip(1), i - 1);
                law_answers_change_only_waiting_cards(rest, answers.skip(1), i - 1);
                assert(backfilled(messages, answers)[i] == backfilled(rest, answers.skip(1))[i - 1]);
                let w = waiting(messages, i);
                assert(w >= 1);
                if w < answers.len() {
                    assert(answers.skip(1)[w - 1] == answers[w]);
                }
            } else {
                law_answers_go_to_their_questions(rest, answers, i - 1);
                law_answers_change_only_waiting_cards(rest, answers, i - 1);
                assert(backfilled(messages, answers)[i] == backfilled(rest, answers)[i - 1]);
            }
        }
    } else {
        assert(waiting(messages, 0) == 0);
    }
}

/// The result of a question hands its answers out; a result that cannot be read
/// changes nothing.
pub proof fn law_question_result_is_read(messages: Seq<ChatEntryView>, result: Seq<char>)
    ensures
        parsed(result) is None ==> after_answers(messages, result) == messages,
        parsed(result) matches Some(v) ==> (v.items_at("answers"@) matches Some(answers)
            ==> after_answers(messages, result) == backfilled(messages, answers)),
{
}

/// An answer shows each of its labels in a line of its own, in order, behind a mark.
pub proof fn law_answer_shows_its_labels(labels: Seq<JsonView>, label: Seq<char>, answer: JsonView)
    ensures
        answer_lines(labels.push(JsonView::Text(label))) == answer_lines(labels).push(
            "\u{25B8} "@ + label,
        ),
        answer_lines(Seq::empty()).len() == 0,
        answer.items_at("answers"@) == Some(labels) ==> answer_text(answer) == joined(
            answer_lines(labels),
            "\n"@,
        ),
{
    assert(labels.push(JsonView::Text(label)).drop_last() =~= labels);
}

} // verus!
