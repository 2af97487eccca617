//! What is shown of tool calls, and how their results are read.
use crate::app::{ChatEntry, ChatEntryView, ToolDetail, ToolDetailView};
use crate::diff::{build_diff_lines, build_write_lines, diff_rows, write_rows};
use crate::elicitation::{outcome_line, with_outcome};
use crate::json::{parse, parsed, Json, JsonView};
use crate::seqs::{
    final_index, lemma_filter_step, lemma_final_index, lemma_final_index_is, lemma_final_index_none,
    lemma_take_all,
};
use crate::symbols::{ELLIPSIS, OUTCOME_BULLET};
use crate::text::{
    blank, cat2, cat3, clip, clipped, count_text, decimal, has_prefix, is_blank, join, joined,
    lines, number, opt_is, owned, same, short_form, short_path, split_lines, starts,
};
use crate::theme::Theme;
use vstd::prelude::*;

verus! {

// ── the content of a message ─────────────────────────────────────────────────

/// The text of a content block, where it is a text block that has one.
pub open spec fn block_text(block: JsonView) -> Option<Seq<char>> {
    if block.text_at("type"@) == Some("text"@) {
        block.text_at("text"@)
    } else {
        None
    }
}

/// The texts of content blocks, one behind the other.
pub open spec fn block_texts(blocks: Seq<JsonView>) -> Seq<char>
    decreases blocks.len(),
{
    if blocks.len() == 0 {
        Seq::empty()
    } else {
        match block_text(blocks.last()) {
            Some(t) => block_texts(blocks.drop_last()) + t,
            None => block_texts(blocks.drop_last()),
        }
    }
}

/// The text of a message: a string, or the text blocks of a list.
pub open spec fn content_text(v: JsonView) -> Seq<char> {
    match v {
        JsonView::Text(s) => s,
        JsonView::Array(a) => block_texts(a),
        _ => Seq::empty(),
    }
}

/// The text of a message: a string, or the text blocks of a list.
pub fn content_to_string(v: &Json) -> (r: String)
    ensures
        r@ == content_text(v.tree()),
{
    match v {
        Json::Text(s) => s.clone(),
        Json::Array(a) => {
            let ghost av = a.deep_view();
            assert(v.tree()->Array_0 =~= av);
            let mut out = String::new();
            let mut i: usize = 0;
            assert(out@ =~= block_texts(av.take(0)));
            while i < a.len()
                invariant
                    i <= a@.len(),
                    av == a.deep_view(),
                    out@ == block_texts(av.take(i as int)),
                decreases a@.len() - i,
            {
                proof {
                    assert(av.take(i + 1).drop_last() =~= av.take(i as int));
                    assert(av.take(i + 1).last() == a@[i as int].tree());
                }
                let is_text = match a[i].str_at("type") {
                    Some(t) => same(t.as_str(), "text"),
                    None => false,
                };
                if is_text {
                    match a[i].str_at("text") {
                        Some(t) => {
                            out.append(t.as_str());
                        },
                        None => {},
                    }
                }
                i = i + 1;
            }
            assert(av.take(av.len() as int) =~= av);
            out
        },
        _ => String::new(),
    }
}

// ── what is shown of a call ──────────────────────────────────────────────────

/// The text under the first of two keys that is there, or nothing.
pub open spec fn text_under(obj: JsonView, key: Seq<char>, other: Seq<char>) -> Seq<char> {
    let v = match obj.get(key) {
        Some(v) => Some(v),
        None => obj.get(other),
    };
    match v {
        Some(v) => match v.text() {
            Some(s) => s,
            None => Seq::empty(),
        },
        None => Seq::empty(),
    }
}

fn str_under(obj: &Json, key: &str, other: &str) -> (r: String)
    ensures
        r@ == text_under(obj.tree(), key@, other@),
{
    let v = match obj.get(key) {
        Some(v) => Some(v),
        None => obj.get(other),
    };
    match v {
        Some(v) => match v.as_str() {
            Some(s) => s.clone(),
            None => String::new(),
        },
        None => String::new(),
    }
}

/// The line of an item of a to-do list; none for an item without text.
pub open spec fn todo_line(item: JsonView) -> Option<Seq<char>> {
    let content = item.text_or_empty("content"@);
    let status = match item.text_at("status"@) {
        Some(s) => s,
        None => "pending"@,
    };
    if content.len() == 0 {
        None
    } else if status == "completed"@ {
        Some("[x] "@ + content)
    } else {
        Some("[ ] "@ + content)
    }
}

/// The lines of a to-do list.
pub open spec fn todo_lines(items: Seq<JsonView>) -> Seq<Seq<char>>
    decreases items.len(),
{
    if items.len() == 0 {
        Seq::empty()
    } else {
        match todo_line(items.last()) {
            Some(l) => todo_lines(items.drop_last()).push(l),
            None => todo_lines(items.drop_last()),
        }
    }
}

fn read_todo_lines(items: &Vec<Json>) -> (r: Vec<String>)
    ensures
        r.deep_view() == todo_lines(items.deep_view()),
{
    let ghost iv = items.deep_view();
    let mut out: Vec<String> = Vec::new();
    let mut i: usize = 0;
    assert(out.deep_view() =~= todo_lines(iv.take(0)));
    while i < items.len()
        invariant
            i <= items@.len(),
            iv == items.deep_view(),
            out.deep_view() == todo_lines(iv.take(i as int)),
        decreases items@.len() - i,
    {
        let ghost before = out.deep_view();
        let item = &items[i];
        proof {
            assert(iv.take(i + 1).drop_last() =~= iv.take(i as int));
            assert(iv.take(i + 1).last() == item.tree());
        }
        let content = item.str_or_empty("content");
        let done = match item.str_at("status") {
            Some(s) => same(s.as_str(), "completed"),
            None => false,
        };
        proof {
            reveal_strlit("pending");
            reveal_strlit("completed");
            assert("pending"@.len() == 7);
            assert("completed"@.len() == 9);
        }
        if !content.as_str().is_empty() {
            let line = if done {
                cat2("[x] ", content.as_str())
            } else {
                cat2("[ ] ", content.as_str())
            };
            out.push(line);
            assert(out.deep_view() =~= before.push(line@));
        }
        i = i + 1;
    }
    assert(iv.take(iv.len() as int) =~= iv);
    out
}

/// The lines of a file that were read.
pub open spec fn line_range(obj: JsonView) -> Seq<char> {
    match (obj.natural_at("offset"@), obj.natural_at("limit"@)) {
        (Some(o), Some(l)) => ":"@ + decimal(o as nat) + "-"@ + decimal((o + l) as nat),
        (Some(o), None) => ":"@ + decimal(o as nat),
        _ => Seq::empty(),
    }
}

fn range_text(obj: &Json) -> (r: String)
    ensures
        r@ == line_range(obj.tree()),
{
    match (obj.u64_at("offset"), obj.u64_at("limit")) {
        (Some(o), Some(l)) => {
            let mut s = cat3(":", number(o as u128).as_str(), "-");
            s.append(number(o as u128 + l as u128).as_str());
            s
        },
        (Some(o), None) => cat2(":", number(o as u128).as_str()),
        _ => String::new(),
    }
}

/// Where a text search looks.
pub open spec fn search_place(obj: JsonView) -> Seq<char> {
    if obj.text_or_empty("include"@).len() > 0 {
        obj.text_or_empty("include"@)
    } else if obj.text_or_empty("path"@).len() > 0 {
        short_form(obj.text_or_empty("path"@))
    } else {
        "."@
    }
}

/// What is shown of a call of a tool with its arguments.
pub open spec fn detail_of(theme: Theme, tool: Seq<char>, obj: JsonView) -> ToolDetailView {
    let path = obj.text_or_empty("path"@);
    if tool == "edit"@ {
        let before = text_under(obj, "oldString"@, "old_string"@);
        let after = text_under(obj, "newString"@, "new_string"@);
        ToolDetailView::Edit {
            file: text_under(obj, "filePath"@, "file_path"@),
            before,
            after,
            start_line: None,
            cached_lines: diff_rows(theme, before, after, None),
        }
    } else if tool == "multiedit"@ {
        let count = match obj.items_at("edits"@) {
            Some(a) => a.len(),
            None => 0,
        };
        ToolDetailView::Summary(
            short_form(text_under(obj, "filePath"@, "file_path"@)) + " ("@ + decimal(count)
                + " edits)"@,
        )
    } else if tool == "write_file"@ {
        let content = obj.text_or_empty("content"@);
        ToolDetailView::WriteFile { path, content, cached_lines: write_rows(theme, content) }
    } else if tool == "read_tool"@ {
        ToolDetailView::Summary(short_form(path) + line_range(obj))
    } else if tool == "shell"@ {
        ToolDetailView::Summary(clipped(obj.text_or_empty("command"@), 60, ELLIPSIS@))
    } else if tool == "search_text"@ {
        ToolDetailView::Summary(
            "\""@ + obj.text_or_empty("pattern"@) + "\" "@ + search_place(obj),
        )
    } else if tool == "glob"@ {
        let pattern = obj.text_or_empty("pattern"@);
        ToolDetailView::Summary(
            if path.len() == 0 {
                pattern
            } else {
                pattern + " in "@ + short_form(path)
            },
        )
    } else if tool == "ls"@ {
        ToolDetailView::Summary(
            if path.len() == 0 {
                "."@
            } else {
                short_form(path)
            },
        )
    } else if tool == "delete_file"@ {
        ToolDetailView::Summary(short_form(path))
    } else if tool == "browse"@ || tool == "web_fetch"@ {
        ToolDetailView::Summary(clipped(obj.text_or_empty("url"@), 60, ELLIPSIS@))
    } else if tool == "apply_patch"@ {
        ToolDetailView::Summary("patch"@)
    } else if tool == "delegate"@ {
        ToolDetailView::Summary(clipped(obj.text_or_empty("objective"@), 50, ELLIPSIS@))
    } else if tool == "language_query"@ {
        ToolDetailView::Summary(
            obj.text_or_empty("action"@) + " "@ + short_form(obj.text_or_empty("uri"@)),
        )
    } else if tool == "question"@ {
        ToolDetailView::Summary("asking..."@)
    } else if tool == "todowrite"@ {
        match obj.items_at("todos"@) {
            Some(items) => if todo_lines(items).len() == 0 {
                ToolDetailView::Bare
            } else {
                ToolDetailView::Summary(joined(todo_lines(items), "\n"@))
            },
            None => ToolDetailView::Bare,
        }
    } else {
        ToolDetailView::Bare
    }
}

/// The arguments of a call: a JSON text is parsed, and stands for nothing
/// where it is none.
pub open spec fn arguments_of(args: JsonView) -> JsonView {
    match args.text() {
        Some(s) => match parsed(s) {
            Some(v) => v,
            None => JsonView::Null,
        },
        None => args,
    }
}

/// What is shown of a call of a tool.
pub open spec fn call_detail(
    theme: Theme,
    tool: Seq<char>,
    args: Option<JsonView>,
) -> ToolDetailView {
    match args {
        Some(a) => detail_of(theme, tool, arguments_of(a)),
        None => ToolDetailView::Bare,
    }
}

fn edit_detail(theme: &Theme, obj: &Json) -> (r: ToolDetail)
    ensures
        r.deep_view() == detail_of(*theme, "edit"@, obj.tree()),
{
    let before = str_under(obj, "oldString", "old_string");
    let after = str_under(obj, "newString", "new_string");
    let cached_lines = build_diff_lines(theme, before.as_str(), after.as_str(), None);
    ToolDetail::Edit {
        file: str_under(obj, "filePath", "file_path"),
        before,
        after,
        start_line: None,
        cached_lines,
    }
}

/// What is shown of a call of a tool with its arguments.
pub fn tool_detail(theme: &Theme, tool_name: &str, obj: &Json) -> (r: ToolDetail)
    ensures
        r.deep_view() == detail_of(*theme, tool_name@, obj.tree()),
{
    if same(tool_name, "edit") {
        edit_detail(theme, obj)
    } else if same(tool_name, "multiedit") {
        let file = str_under(obj, "filePath", "file_path");
        let count: usize = match obj.array_at("edits") {
            Some(a) => a.len(),
            None => 0,
        };
        let mut s = cat2(short_path(file.as_str()).as_str(), " (");
        s.append(count_text(count).as_str());
        s.append(" edits)");
        ToolDetail::Summary(s)
    } else if same(tool_name, "write_file") {
        let content = obj.str_or_empty("content");
        let cached_lines = build_write_lines(theme, content.as_str());
        ToolDetail::WriteFile { path: obj.str_or_empty("path"), content, cached_lines }
    } else if same(tool_name, "read_tool") {
        let path = obj.str_or_empty("path");
        ToolDetail::Summary(cat2(short_path(path.as_str()).as_str(), range_text(obj).as_str()))
    } else if same(tool_name, "shell") {
        ToolDetail::Summary(clip(obj.str_or_empty("command").as_str(), 60, ELLIPSIS))
    } else if same(tool_name, "search_text") {
        let pattern = obj.str_or_empty("pattern");
        let path = obj.str_or_empty("path");
        let include_glob = obj.str_or_empty("include");
        let place = if !include_glob.as_str().is_empty() {
            include_glob
        } else if !path.as_str().is_empty() {
            short_path(path.as_str())
        } else {
            owned(".")
        };
        let mut s = cat3("\"", pattern.as_str(), "\" ");
        s.append(place.as_str());
        ToolDetail::Summary(s)
    } else if same(tool_name, "glob") {
        let pattern = obj.str_or_empty("pattern");
        let path = obj.str_or_empty("path");
        if path.as_str().is_empty() {
            ToolDetail::Summary(pattern)
        } else {
            ToolDetail::Summary(
                cat3(pattern.as_str(), " in ", short_path(path.as_str()).as_str()),
            )
        }
    } else if same(tool_name, "ls") {
        let path = obj.str_or_empty("path");
        if path.as_str().is_empty() {
            ToolDetail::Summary(owned("."))
        } else {
            ToolDetail::Summary(short_path(path.as_str()))
        }
    } else if same(tool_name, "delete_file") {
        ToolDetail::Summary(short_path(obj.str_or_empty("path").as_str()))
    } else if same(tool_name, "browse") || same(tool_name, "web_fetch") {
        ToolDetail::Summary(clip(obj.str_or_empty("url").as_str(), 60, ELLIPSIS))
    } else if same(tool_name, "apply_patch") {
        ToolDetail::Summary(owned("patch"))
    } else if same(tool_name, "delegate") {
        ToolDetail::Summary(clip(obj.str_or_empty("objective").as_str(), 50, ELLIPSIS))
    } else if same(tool_name, "language_query") {
        let action = obj.str_or_empty("action");
        let uri = obj.str_or_empty("uri");
        ToolDetail::Summary(cat3(action.as_str(), " ", short_path(uri.as_str()).as_str()))
    } else if same(tool_name, "question") {
        ToolDetail::Summary(owned("asking..."))
    } else if same(tool_name, "todowrite") {
        match obj.array_at("todos") {
            Some(items) => {
                let list = read_todo_lines(items);
                if list.len() == 0 {
                    ToolDetail::Bare
                } else {
                    ToolDetail::Summary(join(&list, "\n"))
                }
            },
            None => ToolDetail::Bare,
        }
    } else {
        ToolDetail::Bare
    }
}

/// What is shown of a call of a tool.
pub fn parse_tool_detail(theme: &Theme, tool_name: &str, arguments: &Option<Json>) -> (r:
    ToolDetail)
    ensures
        r.deep_view() == call_detail(*theme, tool_name@, arguments.deep_view()),
{
    match arguments {
        Some(args) => match args.as_str() {
            Some(s) => match parse(s.as_str()) {
                Some(obj) => tool_detail(theme, tool_name, &obj),
                None => tool_detail(theme, tool_name, &Json::Null),
            },
            None => tool_detail(theme, tool_name, args),
        },
        None => ToolDetail::Bare,
    }
}

// ── the result of a call ─────────────────────────────────────────────────────

/// Being the call with the id.
pub open spec fn call_with_id(id: Seq<char>) -> spec_fn(ChatEntryView) -> bool {
    |e: ChatEntryView| e matches ChatEntryView::ToolCall { tool_call_id, .. } && tool_call_id == Some(id)
}

/// Having more than white space.
pub open spec fn has_text() -> spec_fn(Seq<char>) -> bool {
    |l: Seq<char>| !blank(l)
}

/// The last three lines that hold text.
pub open spec fn output_tail(stdout: Seq<char>) -> Seq<Seq<char>> {
    let full = lines(stdout).filter(has_text());
    if full.len() <= 3 {
        full
    } else {
        full.skip(full.len() - 3)
    }
}

/// What is shown of a call once its result is known: where an edit starts, and
/// the end of what a shell command wrote.
pub open spec fn detail_with_result(
    name: Seq<char>,
    detail: ToolDetailView,
    obj: JsonView,
) -> ToolDetailView {
    match detail {
        ToolDetailView::Edit { file, before, after, start_line, cached_lines } => {
            ToolDetailView::Edit {
                file,
                before,
                after,
                start_line: match obj.natural_at("startLineOld"@) {
                    Some(n) => Some(n as usize),
                    None => None,
                },
                cached_lines,
            }
        },
        ToolDetailView::Summary(header) => match obj.text_at("stdout"@) {
            Some(stdout) => if starts(name, "shell"@) && output_tail(stdout).len() > 0 {
                ToolDetailView::SummaryWithOutput {
                    header,
                    output: joined(output_tail(stdout), "\n"@),
                }
            } else {
                detail
            },
            None => detail,
        },
        _ => detail,
    }
}

/// The call with what its result tells.
pub open spec fn entry_with_result(e: ChatEntryView, obj: JsonView) -> ChatEntryView {
    match e {
        ChatEntryView::ToolCall { tool_call_id, name, is_error, detail } => {
            ChatEntryView::ToolCall {
                tool_call_id,
                name,
                is_error,
                detail: detail_with_result(name, detail, obj),
            }
        },
        _ => e,
    }
}

/// The conversation with what the result of a call tells: its last entry is
/// brought up to date.
pub open spec fn with_result(
    messages: Seq<ChatEntryView>,
    id: Seq<char>,
    obj: JsonView,
) -> Seq<ChatEntryView> {
    match final_index(messages, call_with_id(id)) {
        Some(k) => messages.update(k, entry_with_result(messages[k], obj)),
        None => messages,
    }
}

/// The conversation after the end of a call, whose result is a JSON text.
pub open spec fn after_result(
    messages: Seq<ChatEntryView>,
    id: Option<Seq<char>>,
    result: Seq<char>,
) -> Seq<ChatEntryView> {
    match (id, parsed(result)) {
        (Some(id), Some(obj)) => with_result(messages, id, obj),
        _ => messages,
    }
}

fn tail_lines(stdout: &str) -> (r: Vec<String>)
    ensures
        r.deep_view() == output_tail(stdout@),
{
    let all = split_lines(stdout);
    let ghost av = all.deep_view();
    let ghost p = has_text();
    let mut full: Vec<String> = Vec::new();
    let mut i: usize = 0;
    assert(full.deep_view() =~= av.take(0).filter(p)) by {
        reveal(Seq::filter);
    }
    while i < all.len()
        invariant
            i <= all@.len(),
            av == all.deep_view(),
            p == has_text(),
            full.deep_view() == av.take(i as int).filter(p),
        decreases all@.len() - i,
    {
        let ghost before = full.deep_view();
        proof {
            lemma_filter_step(av, p, i as int);
            assert(av[i as int] == all@[i as int]@);
        }
        if !is_blank(all[i].as_str()) {
            full.push(all[i].clone());
            assert(full.deep_view() =~= before.push(av[i as int]));
        }
        i = i + 1;
    }
    proof {
        lemma_take_all(av);
    }
    if full.len() <= 3 {
        full
    } else {
        let n: usize = full.len();
        let ghost fv = full.deep_view();
        let r = full.split_off(n - 3);
        assert(r.deep_view() =~= fv.skip(n - 3));
        r
    }
}

/// Brings the entry of a call up to date with its result.
pub fn apply_tool_result(messages: &mut Vec<ChatEntry>, id: &str, obj: &Json)
    ensures
        final(messages).deep_view() == with_result(old(messages).deep_view(), id@, obj.tree()),
{
    let ghost mv = messages.deep_view();
    let ghost p = call_with_id(id@);
    let n: usize = messages.len();
    let mut i: usize = n;
    let mut found: Option<usize> = None;
    while i > 0 && found.is_none()
        invariant
            i <= n,
            n == messages@.len(),
            messages.deep_view() == mv,
            mv == old(messages).deep_view(),
            p == call_with_id(id@),
            found is None ==> forall|j: int| i <= j < n ==> !p(#[trigger] mv[j]),
            match found {
                Some(k) => k < n && final_index(mv, p) == Some(k as int) && p(mv[k as int]),
                None => true,
            },
        decreases i,
    {
        i = i - 1;
        assert(mv[i as int] == messages@[i as int].deep_view());
        match &messages[i] {
            ChatEntry::ToolCall { tool_call_id, .. } => {
                if opt_is(tool_call_id, id) {
                    found = Some(i);
                    proof {
                        lemma_final_index_is(mv, p, i as int);
                    }
                }
            },
            _ => {},
        }
    }
    match found {
        Some(k) => {
            if let ChatEntry::ToolCall { name, detail, .. } = &mut messages[k] {
                update_detail(name, detail, obj);
            }
            assert(messages.deep_view() =~= mv.update(
                k as int,
                entry_with_result(mv[k as int], obj.tree()),
            ));
        },
        None => {
            proof {
                lemma_final_index_none(mv, p);
            }
        },
    }
}

fn update_detail(name: &String, detail: &mut ToolDetail, obj: &Json)
    ensures
        final(detail).deep_view() == detail_with_result(
            name@,
            old(detail).deep_view(),
            obj.tree(),
        ),
{
    let ghost was = detail.deep_view();
    let mut output: Option<String> = None;
    if has_prefix(name.as_str(), "shell") {
        match obj.str_at("stdout") {
            Some(stdout) => {
                let tail = tail_lines(stdout.as_str());
                if tail.len() > 0 {
                    output = Some(join(&tail, "\n"));
                }
            },
            None => {},
        }
    }
    let mut header: Option<String> = None;
    match detail {
        ToolDetail::Edit { start_line, .. } => {
            *start_line = match obj.u64_at("startLineOld") {
                Some(n) => Some(n as usize),
                None => None,
            };
        },
        ToolDetail::Summary(h) => {
            header = Some(h.clone());
        },
        _ => {},
    }
    match (header, output) {
        (Some(header), Some(output)) => {
            *detail = ToolDetail::SummaryWithOutput { header, output };
        },
        _ => {},
    }
}

/// Brings the entry of a call up to date with its result, a JSON text.
pub fn update_tool_detail(
    messages: &mut Vec<ChatEntry>,
    tool_call_id: &Option<String>,
    result: &str,
)
    ensures
        final(messages).deep_view() == after_result(
            old(messages).deep_view(),
            tool_call_id.deep_view(),
            result@,
        ),
{
    match tool_call_id {
        Some(id) => match parse(result) {
            Some(obj) => {
                apply_tool_result(messages, id.as_str(), &obj);
            },
            None => {},
        },
        None => {},
    }
}

// ── answers of a replayed question ───────────────────────────────────────────

/// The labels of one answer, each on a line.
pub open spec fn answer_lines(labels: Seq<JsonView>) -> Seq<Seq<char>>
    decreases labels.len(),
{
    if labels.len() == 0 {
        Seq::empty()
    } else {
        match labels.last().text() {
            Some(s) => answer_lines(labels.drop_last()).push(outcome_line(s)),
            None => answer_lines(labels.drop_last()),
        }
    }
}

/// What the card of a question shows for an answer.
pub open spec fn answer_text(answer: JsonView) -> Seq<char> {
    match answer.items_at("answers"@) {
        Some(labels) => joined(answer_lines(labels), "\n"@),
        None => Seq::empty(),
    }
}

/// The card of a question that was answered before, without the answer.
pub open spec fn awaits_answer(e: ChatEntryView) -> bool {
    e matches ChatEntryView::Elicitation { outcome, .. } && outcome == Some("responded"@)
}

/// The conversation with answers on the cards that await one, in order.
pub open spec fn backfilled(
    messages: Seq<ChatEntryView>,
    answers: Seq<JsonView>,
) -> Seq<ChatEntryView>
    decreases messages.len(),
{
    if messages.len() == 0 || answers.len() == 0 {
        messages
    } else if awaits_answer(messages[0]) {
        seq![with_outcome(messages[0], answer_text(answers[0]))] + backfilled(
            messages.skip(1),
            answers.skip(1),
        )
    } else {
        seq![messages[0]] + backfilled(messages.skip(1), answers)
    }
}

/// The conversation after the result of a question, a JSON text.
pub open spec fn after_answers(
    messages: Seq<ChatEntryView>,
    result: Seq<char>,
) -> Seq<ChatEntryView> {
    match parsed(result) {
        Some(v) => match v.items_at("answers"@) {
            Some(answers) => backfilled(messages, answers),
            None => messages,
        },
        None => messages,
    }
}

fn answer_of(answer: &Json) -> (r: String)
    ensures
        r@ == answer_text(answer.tree()),
{
    match answer.array_at("answers") {
        Some(labels) => {
            let ghost lv = labels.deep_view();
            let mut out: Vec<String> = Vec::new();
            let mut i: usize = 0;
            assert(out.deep_view() =~= answer_lines(lv.take(0)));
            while i < labels.len()
                invariant
                    i <= labels@.len(),
                    lv == labels.deep_view(),
                    out.deep_view() == answer_lines(lv.take(i as int)),
                decreases labels@.len() - i,
            {
                let ghost before = out.deep_view();
                proof {
                    assert(lv.take(i + 1).drop_last() =~= lv.take(i as int));
                    assert(lv.take(i + 1).last() == labels@[i as int].tree());
                }
                match labels[i].as_str() {
                    Some(s) => {
                        let line = cat2(OUTCOME_BULLET, s.as_str());
                        out.push(line);
                        assert(out.deep_view() =~= before.push(line@));
                    },
                    None => {},
                }
                i = i + 1;
            }
            assert(lv.take(lv.len() as int) =~= lv);
            join(&out, "\n")
        },
        None => String::new(),
    }
}

/// Puts answers on the cards that await one, in order.
pub fn fill_in_answers(messages: &mut Vec<ChatEntry>, answers: &Vec<Json>)
    ensures
        final(messages).deep_view() == backfilled(
            old(messages).deep_view(),
            answers.deep_view(),
        ),
{
    let ghost mv = messages.deep_view();
    let ghost av = answers.deep_view();
    let ghost goal = backfilled(mv, av);
    let n: usize = messages.len();
    let mut i: usize = 0;
    let mut a: usize = 0;
    assert(mv.skip(0) =~= mv);
    assert(av.skip(0) =~= av);
    assert(mv.take(0) + backfilled(mv.skip(0), av.skip(0)) =~= goal);
    while i < n && a < answers.len()
        invariant
            i <= n,
            n == messages@.len(),
            a <= answers@.len(),
            av == answers.deep_view(),
            messages.deep_view().len() == n,
            messages.deep_view().take(i as int) + backfilled(
                messages.deep_view().skip(i as int),
                av.skip(a as int),
            ) == goal,
        decreases n - i,
    {
        let ghost cur = messages.deep_view();
        let ghost rest = cur.skip(i as int);
        assert(rest[0] == messages@[i as int].deep_view());
        assert(rest.skip(1) =~= cur.skip(i + 1));
        assert(av.skip(a as int)[0] == answers@[a as int].tree());
        assert(av.skip(a as int).skip(1) =~= av.skip(a + 1));
        let waits = match &messages[i] {
            ChatEntry::Elicitation { outcome, .. } => opt_is(outcome, "responded"),
            _ => false,
        };
        if waits {
            let text = answer_of(&answers[a]);
            let ghost tv = text@;
            if let ChatEntry::Elicitation { outcome, .. } = &mut messages[i] {
                *outcome = Some(text);
            }
            proof {
                let now = messages.deep_view();
                let done = with_outcome(cur[i as int], tv);
                assert(now =~= cur.update(i as int, done));
                assert(now.skip(i + 1) =~= cur.skip(i + 1));
                assert(now.take(i + 1) + backfilled(now.skip(i + 1), av.skip(a + 1)) =~= cur.take(
                    i as int,
                ) + (seq![done] + backfilled(rest.skip(1), av.skip(a + 1))));
            }
            a = a + 1;
        } else {
            proof {
                assert(cur.take(i + 1) + backfilled(cur.skip(i + 1), av.skip(a as int)) =~= cur.take(
                    i as int,
                ) + (seq![cur[i as int]] + backfilled(rest.skip(1), av.skip(a as int))));
            }
        }
        i = i + 1;
    }
    assert(messages.deep_view().take(i as int) + messages.deep_view().skip(i as int)
        =~= messages.deep_view());
}

/// Puts the answers of a question, a JSON text, on the cards that await one.
pub fn backfill_elicitation_outcomes(messages: &mut Vec<ChatEntry>, result_str: &str)
    ensures
        final(messages).deep_view() == after_answers(old(messages).deep_view(), result_str@),
{
    match parse(result_str) {
        Some(v) => match v.array_at("answers") {
            Some(answers) => {
                fill_in_answers(messages, answers);
            },
            None => {},
        },
        None => {},
    }
}

/// Answers never add or remove entries of the conversation, and change only
/// the cards that await one.
pub proof fn law_answers_change_only_waiting_cards(
    messages: Seq<ChatEntryView>,
    answers: Seq<JsonView>,
    i: int,
)
    requires
        0 <= i < messages.len(),
    ensures
        backfilled(messages, answers).len() == messages.len(),
        !awaits_answer(messages[i]) ==> backfilled(messages, answers)[i] == messages[i],
    decreases messages.len(),
{
    if answers.len() > 0 {
        let rest = messages.skip(1);
        let left = if awaits_answer(messages[0]) {
            answers.skip(1)
        } else {
            answers
        };
        if rest.len() > 0 {
            law_answers_change_only_waiting_cards(
                rest,
                left,
                if i > 0 {
                    i - 1
                } else {
                    0
                },
            );
        } else {
            assert(backfilled(rest, left) == rest);
        }
    }
}

/// The result of a call changes one entry at most: the last one of the call with the
/// id.  Of that entry name, id and failure stay.
pub proof fn law_result_concerns_its_call(
    messages: Seq<ChatEntryView>,
    id: Option<Seq<char>>,
    result: Seq<char>,
    i: int,
)
    requires
        0 <= i < messages.len(),
    ensures
        after_result(messages, id, result).len() == messages.len(),
        after_result(messages, id, result)[i] != messages[i] ==> {
            let e = after_result(messages, id, result)[i];
            &&& id is Some
            &&& messages[i] is ToolCall && e is ToolCall
            &&& messages[i]->ToolCall_tool_call_id == id && e->ToolCall_tool_call_id == id
            &&& e->ToolCall_name == messages[i]->ToolCall_name
            &&& e->ToolCall_is_error == messages[i]->ToolCall_is_error
            &&& forall|j: int|
                i < j < messages.len() && (#[trigger] messages[j]) is ToolCall
                    ==> messages[j]->ToolCall_tool_call_id != id
        },
{
    if let (Some(id), Some(obj)) = (id, parsed(result)) {
        let p = call_with_id(id);
        lemma_final_index(messages, p);
        if let Some(k) = final_index(messages, p) {
            assert forall|j: int| k < j < messages.len() && (#[trigger] messages[j]) is ToolCall
                implies messages[j]->ToolCall_tool_call_id != Some(id) by {
                assert(!p(messages[j]));
            }
        }
    }
}

/// The result of an edit tells where it starts: the last entry of its call has that
/// line, and file and texts stay.
pub proof fn law_edit_learns_its_line(
    messages: Seq<ChatEntryView>,
    id: Seq<char>,
    result: Seq<char>,
    k: int,
)
    requires
        0 <= k < messages.len(),
        messages[k] is ToolCall,
        messages[k]->ToolCall_tool_call_id == Some(id),
        messages[k]->ToolCall_detail is Edit,
        forall|j: int|
            k < j < messages.len() && (#[trigger] messages[j]) is ToolCall
                ==> messages[j]->ToolCall_tool_call_id != Some(id),
        parsed(result) is Some,
        parsed(result)->0.natural_at("startLineOld"@) is Some,
    ensures
        ({
            let e = after_result(messages, Some(id), result)[k];
            let line = parsed(result)->0.natural_at("startLineOld"@)->0;
            &&& e is ToolCall
            &&& e->ToolCall_detail is Edit
            &&& e->ToolCall_detail->Edit_start_line == Some(line as usize)
            &&& e->ToolCall_detail->Edit_file == messages[k]->ToolCall_detail->Edit_file
            &&& e->ToolCall_detail->Edit_before == messages[k]->ToolCall_detail->Edit_before
            &&& e->ToolCall_detail->Edit_after == messages[k]->ToolCall_detail->Edit_after
        }),
{
    let p = call_with_id(id);
    assert forall|j: int| k < j < messages.len() implies !p(#[trigger] messages[j]) by {}
    lemma_final_index_is(messages, p, k);
}

/// The result of a shell command shows the end of what it wrote: lines with text only,
/// three at most, the last ones and in their order, below what was shown of the call.
pub proof fn law_shell_output_is_shown(
    name: Seq<char>,
    header: Seq<char>,
    obj: JsonView,
    stdout: Seq<char>,
)
    requires
        starts(name, "shell"@),
        obj.text_at("stdout"@) == Some(stdout),
    ensures
        ({
            let full = lines(stdout).filter(|l: Seq<char>| !blank(l));
            let tail = if full.len() <= 3 {
                full
            } else {
                full.skip(full.len() - 3)
            };
            let d = detail_with_result(name, ToolDetailView::Summary(header), obj);
            &&& full.len() == 0 ==> d == ToolDetailView::Summary(header)
            &&& full.len() > 0 ==> d is SummaryWithOutput
            &&& full.len() > 0 ==> d->SummaryWithOutput_header == header
            &&& full.len() > 0 ==> d->SummaryWithOutput_output == joined(tail, "\n"@)
        }),
{
    assert(has_text() =~= |l: Seq<char>| !blank(l));
}

/// The text of a message in blocks is the texts of its text blocks in their order.
pub proof fn law_text_blocks_are_joined(blocks: Seq<JsonView>, block: JsonView)
    ensures
        content_text(JsonView::Array(Seq::empty())).len() == 0,
        block.text_at("type"@) == Some("text"@) && block.text_at("text"@) is Some ==> content_text(
            JsonView::Array(blocks.push(block)),
        ) == content_text(JsonView::Array(blocks)) + block.text_at("text"@)->0,
        block.text_at("type"@) != Some("text"@) ==> content_text(JsonView::Array(blocks.push(block)))
            == content_text(JsonView::Array(blocks)),
        block is Text ==> content_text(block) == block->Text_0,
{
    assert(blocks.push(block).drop_last() =~= blocks);
}

} // verus!
