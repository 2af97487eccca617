//! Editing the prompt in an editor of the user's choice.
use crate::app::{App, AppView, LogLevel, StreamingCacheView};
use crate::cards::CardCacheView;
use crate::input::word_end;
use crate::text::{
    byte_len, bytes, cat2, from_chars, is_white, on_boundary, to_chars, trim, trimmed, white,
};
use vstd::prelude::*;

verus! {

/// An editor and its arguments.
#[derive(Debug, PartialEq, Eq)]
pub struct EditorCommand {
    pub program: String,
    pub args: Vec<String>,
}

#[verifier::ext_equal]
pub struct EditorCommandView {
    pub program: Seq<char>,
    pub args: Seq<Seq<char>>,
}

impl DeepView for EditorCommand {
    type V = EditorCommandView;

    open spec fn deep_view(&self) -> EditorCommandView {
        EditorCommandView { program: self.program@, args: self.args.deep_view() }
    }
}

/// The words from a position on: what stands between white space.
pub open spec fn words(s: Seq<char>, i: int) -> Seq<Seq<char>>
    decreases s.len() - i,
{
    if i < 0 || i >= s.len() {
        Seq::empty()
    } else if white(s[i]) {
        words(s, i + 1)
    } else {
        let e = word_end(s, i);
        if i < e <= s.len() {
            seq![s.subrange(i, e)] + words(s, e)
        } else {
            Seq::empty()
        }
    }
}

/// The command in a text: its first word, with the others as arguments.
pub open spec fn command_in(s: Seq<char>) -> Option<EditorCommandView> {
    let w = words(s, 0);
    if w.len() > 0 {
        Some(EditorCommandView { program: w[0], args: w.drop_first() })
    } else {
        None
    }
}

/// The command in a value, where there is a value.
pub open spec fn command_of(value: Option<Seq<char>>) -> Option<EditorCommandView> {
    match value {
        Some(v) => command_in(trimmed(v)),
        None => None,
    }
}

/// The first command among the values of some variables.
pub open spec fn first_command(env: Seq<(Seq<char>, Option<Seq<char>>)>) -> Option<
    EditorCommandView,
>
    decreases env.len(),
{
    if env.len() == 0 {
        None
    } else {
        match command_of(env[0].1) {
            Some(c) => Some(c),
            None => first_command(env.drop_first()),
        }
    }
}

/// Splits a text at its white space.
pub fn split_whitespace(s: &str) -> (r: Vec<String>)
    ensures
        r.deep_view() == words(s@, 0),
{
    let chars = to_chars(s);
    let ghost sv = s@;
    let mut out: Vec<String> = Vec::new();
    let mut i: usize = 0;
    assert(out.deep_view() + words(sv, 0) =~= words(sv, 0));
    while i < chars.len()
        invariant
            chars@ == sv,
            i <= chars@.len(),
            out.deep_view() + words(sv, i as int) == words(sv, 0),
        decreases chars@.len() - i,
    {
        if is_white(chars[i]) {
            i = i + 1;
        } else {
            let start: usize = i;
            while i < chars.len() && !is_white(chars[i])
                invariant
                    chars@ == sv,
                    start <= i <= chars@.len(),
                    start < i || (i < chars@.len() && !white(sv[i as int])),
                    word_end(sv, start as int) == word_end(sv, i as int),
                decreases chars@.len() - i,
            {
                i = i + 1;
            }
            let word = from_chars(&chars, start, i);
            let ghost before = out.deep_view();
            out.push(word);
            proof {
                let w = sv.subrange(start as int, i as int);
                assert(word_end(sv, start as int) == i);
                assert(words(sv, start as int) =~= seq![w] + words(sv, i as int));
                assert(out.deep_view() =~= before.push(w));
                assert(out.deep_view() + words(sv, i as int) =~= before + (seq![w] + words(
                    sv,
                    i as int,
                )));
            }
        }
    }
    assert(out.deep_view() + words(sv, i as int) =~= out.deep_view());
    out
}

/// Reads an editor command.
pub fn parse_editor_command(value: &str) -> (r: Option<EditorCommand>)
    ensures
        r.deep_view() == command_in(value@),
{
    let mut parts = split_whitespace(value);
    if parts.len() == 0 {
        return None;
    }
    let ghost w = parts.deep_view();
    let ghost pv = parts@;
    let program = parts.remove(0);
    assert(parts.deep_view() =~= w.drop_first());
    assert(program@ == w[0]) by {
        assert(w[0] == pv[0]@);
    }
    Some(EditorCommand { program, args: parts })
}

/// The variables and their values, as texts.
pub open spec fn env_view(env: Seq<(&'static str, Option<String>)>) -> Seq<
    (Seq<char>, Option<Seq<char>>),
> {
    env.map_values(|v: (&'static str, Option<String>)| (v.0@, v.1.deep_view()))
}

/// The first editor command among the values of some variables.
pub fn editor_command_from_env(env: &Vec<(&'static str, Option<String>)>) -> (r: Option<
    EditorCommand,
>)
    ensures
        r.deep_view() == first_command(env_view(env@)),
{
    let ghost ev = env_view(env@);
    let mut i: usize = 0;
    assert(ev.skip(0) =~= ev);
    while i < env.len()
        invariant
            ev == env_view(env@),
            i <= env@.len(),
            first_command(ev.skip(i as int)) == first_command(ev),
        decreases env@.len() - i,
    {
        assert(ev.skip(i as int)[0] == ev[i as int]);
        assert(ev.skip(i as int).drop_first() =~= ev.skip(i + 1));
        if let Some(v) = &env[i].1 {
            let t = trim(v.as_str());
            if let Some(c) = parse_editor_command(t.as_str()) {
                return Some(c);
            }
        }
        i = i + 1;
    }
    None
}

impl AppView {
    /// With the prompt that came out of the editor.
    pub open spec fn input_replaced(self, text: Seq<char>) -> AppView {
        (AppView { input: text, input_cursor: bytes(text) as usize, input_scroll: 0, ..self }
        ).mention_refreshed()
    }

    /// With what came out of the editor: a prompt, nothing, or an error.
    pub open spec fn editor_done(self, result: Result<Option<Seq<char>>, Seq<char>>) -> AppView {
        match result {
            Ok(Some(text)) => self.input_replaced(text).with_status(
                LogLevel::Info,
                "editor"@,
                "loaded prompt from external editor"@,
            ),
            Ok(None) => self.with_status(LogLevel::Info, "editor"@, "external editor cancelled"@),
            Err(e) => self.with_status(
                LogLevel::Error,
                "editor"@,
                "external editor failed: "@ + e,
            ),
        }
    }

    /// With nothing left of what was drawn before.
    pub open spec fn undrawn(self) -> AppView {
        AppView {
            card_cache: CardCacheView::empty(),
            streaming_cache: StreamingCacheView::empty(),
            ..self
        }
    }
}

/// Puts a prompt in place of the one that is being written.
pub fn apply_external_editor_result(app: &mut App, updated_input: String)
    ensures
        final(app)@ == old(app)@.input_replaced(updated_input@),
        on_boundary(final(app)@.input, final(app)@.input_cursor as int),
{
    assert(updated_input@.take(updated_input@.len() as int) =~= updated_input@);
    let n: usize = byte_len(updated_input.as_str());
    app.input = updated_input;
    app.input_cursor = n;
    app.input_scroll = 0;
    app.refresh_mention_state();
}

/// Takes what came out of the editor.
pub fn apply_external_editor_outcome(app: &mut App, result: Result<Option<String>, String>)
    ensures
        final(app)@ == old(app)@.editor_done(
            match result {
                Ok(t) => Ok(t.deep_view()),
                Err(e) => Err(e@),
            },
        ),
        old(app)@.wf() ==> final(app)@.wf(),
{
    match result {
        Ok(Some(text)) => {
            apply_external_editor_result(app, text);
            app.set_status(LogLevel::Info, "editor", "loaded prompt from external editor");
        },
        Ok(None) => {
            app.set_status(LogLevel::Info, "editor", "external editor cancelled");
        },
        Err(e) => {
            app.set_status(
                LogLevel::Error,
                "editor",
                cat2("external editor failed: ", e.as_str()).as_str(),
            );
        },
    }
}

/// Comes back from the editor to a screen that it has left blank.
pub fn return_from_editor(app: &mut App, result: Result<Option<String>, String>)
    ensures
        final(app)@ == old(app)@.undrawn().editor_done(
            match result {
                Ok(t) => Ok(t.deep_view()),
                Err(e) => Err(e@),
            },
        ),
        old(app)@.wf() ==> final(app)@.wf(),
{
    app.card_cache.invalidate();
    app.streaming_cache.invalidate();
    apply_external_editor_outcome(app, result);
}

/// An editor that was left without success changes nothing of the prompt.
pub proof fn law_cancelled_edit_keeps_the_prompt(app: AppView, error: Seq<char>)
    ensures
        app.editor_done(Ok(None)).input == app.input,
        app.editor_done(Ok(None)).input_cursor == app.input_cursor,
        app.editor_done(Err(error)).input == app.input,
        app.editor_done(Err(error)).input_cursor == app.input_cursor,
{
}

} // verus!
