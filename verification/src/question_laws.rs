//! What holds of the questions of the agent and of their answers.
use crate::app::AppView;
use crate::elicitation::{
    among, fields_of, has_value, is_value, kind_of, lemma_put_lookup, number_answer, outcome_line,
    properties_of, question_card, toggled, value_in, ElicitationFieldKindView,
    ElicitationOptionView, ElicitationStateView,
};
use crate::handlers::{KeyCode, OutboxView};
use crate::json::{equal, lemma_equal_to_itself, lookup, JsonView};
use crate::key_laws::pressed;
use crate::protocol::ClientMsgView;
use crate::seqs::{lemma_first_index, lemma_first_is, lemma_first_none};
use crate::text::{
    bytes, joined, lemma_bytes_push, lemma_bytes_take_le, lemma_char_pos_of_prefix, starts, width,
};
use vstd::prelude::*;

verus! {

/// A question waits, and keys go to it.
pub open spec fn asked(app: AppView, e: ElicitationStateView) -> bool {
    !app.chord && app.pending_cancel_confirm_until is None && app.elicitation == Some(e)
}

/// `k` is the first card of the question.
pub open spec fn is_first_card(app: AppView, id: Seq<char>, k: int) -> bool {
    &&& 0 <= k < app.messages.len()
    &&& app.messages[k] is Elicitation && app.messages[k]->Elicitation_elicitation_id == id
    &&& forall|j: int|
        0 <= j < k && (#[trigger] app.messages[j]) is Elicitation
            ==> app.messages[j]->Elicitation_elicitation_id != id
}

// ── what is asked ────────────────────────────────────────────────────────────

/// A form has one field for each property of the schema, in their order: with its name, its
/// title or else its name, and required where the schema lists it.
pub proof fn law_fields_follow_the_schema(schema: JsonView, i: int)
    requires
        0 <= i < properties_of(schema).len(),
    ensures
        ({
            let (name, prop) = properties_of(schema)[i];
            let f = fields_of(schema)[i];
            &&& fields_of(schema).len() == properties_of(schema).len()
            &&& f.name == name
            &&& prop.text_at("title"@) is Some ==> f.title == prop.text_at("title"@)->0
            &&& prop.text_at("title"@) is None ==> f.title == name
            &&& f.description == prop.text_at("description"@)
            &&& schema.items_at("required"@) is Some ==> (f.required <==> schema.items_at(
                "required"@,
            )->0.contains(JsonView::Text(name)))
            &&& schema.items_at("required"@) is None ==> !f.required
            &&& f.kind == kind_of(prop)
        }),
{
}

/// A list of values is a single choice among them, a list of items a multiple choice; other
/// fields are answered as their type says, and by a text where it says nothing.
pub proof fn law_kinds_follow_the_schema(prop: JsonView, list: Seq<JsonView>, i: int)
    requires
        0 <= i < list.len(),
    ensures
        ({
            let kind = kind_of(prop);
            let plain = prop.items_at("oneOf"@) is None && prop.items_at("enum"@) is None;
            &&& prop.items_at("oneOf"@) == Some(list) ==> {
                &&& kind is SingleSelect
                &&& kind->SingleSelect_options.len() == list.len()
                &&& kind->SingleSelect_options[i].label == list[i].text_or_empty("title"@)
                &&& list[i].get("const"@) is Some ==> kind->SingleSelect_options[i].value
                    == list[i].get("const"@)->0
            }
            &&& prop.items_at("oneOf"@) is None && prop.items_at("enum"@) == Some(list) ==> {
                &&& kind is SingleSelect
                &&& kind->SingleSelect_options.len() == list.len()
                &&& kind->SingleSelect_options[i].value == list[i]
                &&& list[i] is Text ==> kind->SingleSelect_options[i].label == list[i]->Text_0
            }
            &&& plain && prop.text_at("type"@) == Some("boolean"@) ==> kind is BooleanToggle
            &&& plain && prop.text_at("type"@) == Some("integer"@) ==> kind
                == (ElicitationFieldKindView::NumberInput { integer: true })
            &&& plain && prop.text_at("type"@) == Some("number"@) ==> kind
                == (ElicitationFieldKindView::NumberInput { integer: false })
            &&& plain && (prop.text_at("type"@) is None || prop.text_at("type"@) == Some(
                "string"@,
            )) ==> kind is TextInput
            &&& plain && prop.text_at("type"@) == Some("array"@) && prop.get("items"@) is Some
                && prop.get("items"@)->0.items_at("anyOf"@) == Some(list) ==> {
                &&& kind is MultiSelect
                &&& kind->MultiSelect_options.len() == list.len()
                &&& kind->MultiSelect_options[i].label == list[i].text_or_empty("title"@)
            }
        }),
{
    reveal_strlit("boolean");
    reveal_strlit("integer");
    reveal_strlit("number");
    reveal_strlit("string");
    reveal_strlit("array");
    assert("boolean"@.len() == 7 && "integer"@.len() == 7 && "number"@.len() == 6);
    assert("string"@.len() == 6 && "array"@.len() == 5);
    assert("boolean"@[0] == 'b' && "integer"@[0] == 'i');
    assert("number"@[0] == 'n' && "string"@[0] == 's');
}

// ── how it is answered ───────────────────────────────────────────────────────

proof fn lemma_answers_hold(state: ElicitationStateView, i: int, n: int)
    requires
        0 <= i < state.fields.len(),
        0 <= n <= state.fields.len(),
        forall|a: int, b: int|
            0 <= a < b < state.fields.len() ==> (#[trigger] state.fields[a]).name != (
            #[trigger] state.fields[b]).name,
    ensures
        i < n ==> lookup(state.answers(n), state.fields[i].name) == state.answer(state.fields[i]),
        i >= n ==> lookup(state.answers(n), state.fields[i].name) is None,
    decreases n,
{
    if n > 0 {
        lemma_answers_hold(state, i, n - 1);
        let f = state.fields[n - 1];
        if state.answer(f) is Some {
            lemma_put_lookup(
                state.answers(n - 1),
                f.name,
                state.answer(f)->0,
                state.fields[i].name,
            );
        }
        if i < n - 1 {
            assert(state.fields[i].name != state.fields[n - 1].name);
        } else if i > n - 1 {
            assert(state.fields[n - 1].name != state.fields[i].name);
        }
    }
}

/// The answer to a form holds, under the name of each field, what was chosen or written for
/// it, and nothing for a field that is left open.
pub proof fn law_answer_holds_every_field(state: ElicitationStateView, i: int)
    requires
        0 <= i < state.fields.len(),
        forall|a: int, b: int|
            0 <= a < b < state.fields.len() ==> (#[trigger] state.fields[a]).name != (
            #[trigger] state.fields[b]).name,
    ensures
        ({
            let content = JsonView::Object(state.answers(state.fields.len() as int));
            let f = state.fields[i];
            let chosen = f.kind is SingleSelect || f.kind is MultiSelect || f.kind is BooleanToggle;
            &&& chosen && state.selected.contains_key(f.name) ==> content.get(f.name) == Some(
                state.selected[f.name],
            )
            &&& chosen && !state.selected.contains_key(f.name) ==> content.get(f.name) is None
            &&& f.kind is TextInput && state.text_input.len() > 0 ==> content.get(f.name) == Some(
                JsonView::Text(state.text_input),
            )
            &&& f.kind is NumberInput && state.text_input.len() > 0 ==> content.get(f.name) == Some(
                number_answer(state.text_input, f.kind->NumberInput_integer),
            )
            &&& !chosen && state.text_input.len() == 0 ==> content.get(f.name) is None
        }),
{
    lemma_answers_hold(state, i, state.fields.len() as int);
}

/// A whole number that was written is answered as that number; what is no number is answered
/// as nothing.
pub proof fn law_whole_numbers_are_answered(text: Seq<char>)
    ensures
        ({
            let n = crate::text::i64_of(text);
            let a = number_answer(text, true);
            &&& n is None ==> a == JsonView::Null
            &&& n is Some ==> a is Number
            &&& n is Some && n->0 >= 0 ==> a->Number_unsigned == Some(n->0 as u64) && a->Number_text
                == crate::text::decimal(n->0 as nat)
            &&& n is Some && n->0 < 0 ==> a->Number_unsigned is None && a->Number_text == seq!['-']
                + crate::text::decimal((-(n->0)) as nat)
        }),
{
}

/// Enter on a single choice takes the highlighted one and sends it, where the form is then
/// complete: the question is over, and its card tells the choice.
pub proof fn law_enter_sends_the_choice(
    app: AppView,
    out: OutboxView,
    e: ElicitationStateView,
    options: Seq<ElicitationOptionView>,
)
    requires
        asked(app, e),
        e.fields.len() == 1,
        e.fields[0].kind == (ElicitationFieldKindView::SingleSelect { options }),
        e.option_cursor < options.len(),
    ensures
        ({
            let (next, sent, _) = app.on_key(out, pressed(KeyCode::Enter));
            let name = e.fields[0].name;
            let value = options[e.option_cursor as int].value;
            &&& sent.msgs.len() == out.msgs.len() + 1
            &&& sent.msgs.drop_last() == out.msgs
            &&& sent.msgs.last() is ElicitationResponse
            &&& sent.msgs.last()->ElicitationResponse_elicitation_id == e.elicitation_id
            &&& sent.msgs.last()->ElicitationResponse_action == "accept"@
            &&& sent.msgs.last()->ElicitationResponse_content is Some
            &&& sent.msgs.last()->ElicitationResponse_content->0.get(name) == Some(value)
            &&& next.elicitation is None
            &&& next.messages.len() == app.messages.len()
            &&& next.input == app.input
        }),
{
    reveal(ElicitationStateView::form_key);
    reveal(AppView::question_resolved);
    let f = e.form_key(KeyCode::Enter);
    assert(f == e.chosen());
    assert(f.selected.contains_key(e.fields[0].name));
    assert(f.answer(f.fields[0]) is Some);
    assert(f.valid());
    law_answer_holds_every_field(f, 0);
    lemma_first_index(app.messages, question_card(e.elicitation_id));
    let (next, sent, _) = app.on_key(out, pressed(KeyCode::Enter));
    assert(sent.msgs.drop_last() =~= out.msgs);
}

/// Enter on a form that is not complete sends nothing: the question waits on.
pub proof fn law_incomplete_form_is_not_sent(
    app: AppView,
    out: OutboxView,
    e: ElicitationStateView,
    i: int,
)
    requires
        asked(app, e),
        0 <= i < e.fields.len(),
        e.fields[i].required,
        e.fields[i].kind is TextInput || e.fields[i].kind is NumberInput,
        e.text_input.len() == 0,
    ensures
        ({
            let (next, sent, _) = app.on_key(out, pressed(KeyCode::Enter));
            &&& sent == out
            &&& next.elicitation is Some
            &&& next.elicitation->0.elicitation_id == e.elicitation_id
            &&& next.messages == app.messages
        }),
{
    reveal(ElicitationStateView::form_key);
    let f = e.form_key(KeyCode::Enter);
    assert(f.fields == e.fields && f.text_input == e.text_input);
    assert(f.answer(f.fields[i]) is None);
    assert(!f.valid());
}

/// Esc declines the question: the server is told, without content, the question is over, and
/// its first card tells so; no other entry changes.
pub proof fn law_esc_declines(
    app: AppView,
    out: OutboxView,
    e: ElicitationStateView,
    k: int,
)
    requires
        asked(app, e),
        is_first_card(app, e.elicitation_id, k),
    ensures
        ({
            let (next, sent, _) = app.on_key(out, pressed(KeyCode::Esc));
            &&& sent.msgs == out.msgs.push(
                ClientMsgView::ElicitationResponse {
                    elicitation_id: e.elicitation_id,
                    action: "decline"@,
                    content: None,
                },
            )
            &&& next.elicitation is None
            &&& next.messages.len() == app.messages.len()
            &&& forall|i: int|
                0 <= i < app.messages.len() && i != k ==> #[trigger] next.messages[i]
                    == app.messages[i]
            &&& next.messages[k] is Elicitation
            &&& next.messages[k]->Elicitation_outcome == Some("declined"@)
            &&& next.messages[k]->Elicitation_message == app.messages[k]->Elicitation_message
            &&& next.messages[k]->Elicitation_source == app.messages[k]->Elicitation_source
            &&& next.messages[k]->Elicitation_elicitation_id == e.elicitation_id
        }),
{
    reveal(AppView::question_resolved);
    let p = question_card(e.elicitation_id);
    assert forall|j: int| 0 <= j < k implies !p(#[trigger] app.messages[j]) by {}
    lemma_first_is(app.messages, p, k);
}

/// Blank takes the highlighted choice of a multiple choice where it was left, and leaves it
/// where it was taken; the other choices stay.
pub proof fn law_blank_toggles_the_choice(
    app: AppView,
    out: OutboxView,
    e: ElicitationStateView,
    options: Seq<ElicitationOptionView>,
    list: Seq<JsonView>,
)
    requires
        asked(app, e),
        e.fields.len() == 1,
        e.field_cursor == 0,
        e.fields[0].kind == (ElicitationFieldKindView::MultiSelect { options }),
        e.option_cursor < options.len(),
        if e.selected.contains_key(e.fields[0].name) {
            e.selected[e.fields[0].name] == JsonView::Array(list)
        } else {
            list.len() == 0
        },
    ensures
        ({
            let (next, sent, _) = app.on_key(out, pressed(KeyCode::Char(' ')));
            let name = e.fields[0].name;
            let value = options[e.option_cursor as int].value;
            let is = next.elicitation->0.selected[name]->Array_0;
            &&& sent == out
            &&& next.elicitation is Some
            &&& next.elicitation->0.selected.contains_key(name)
            &&& next.elicitation->0.selected[name] is Array
            &&& next.elicitation->0.option_cursor == e.option_cursor
            &&& (forall|j: int| 0 <= j < list.len() ==> !equal(#[trigger] list[j], value)) ==> is
                == list.push(value)
            &&& forall|k: int|
                0 <= k < list.len() && equal(#[trigger] list[k], value) && (forall|j: int|
                    0 <= j < k ==> !equal(#[trigger] list[j], value)) ==> is == list.remove(k)
        }),
{
    reveal(ElicitationStateView::form_key);
    let value = options[e.option_cursor as int].value;
    let p = is_value(value);
    if forall|j: int| 0 <= j < list.len() ==> !equal(#[trigger] list[j], value) {
        assert forall|j: int| 0 <= j < list.len() implies !p(#[trigger] list[j]) by {}
        lemma_first_none(list, p);
    }
    assert forall|k: int|
        0 <= k < list.len() && equal(#[trigger] list[k], value) && (forall|j: int|
            0 <= j < k ==> !equal(#[trigger] list[j], value)) implies toggled(list, value)
        == list.remove(k) by {
        assert forall|j: int| 0 <= j < k implies !p(#[trigger] list[j]) by {}
        lemma_first_is(list, p, k);
    }
    if !e.selected.contains_key(e.fields[0].name) {
        assert(list =~= Seq::empty());
    }
}

/// Up and Down move the highlight by one and keep it on a choice.
pub proof fn law_highlight_stays_on_the_choices(
    app: AppView,
    out: OutboxView,
    e: ElicitationStateView,
)
    requires
        asked(app, e),
        e.fields.len() > 0,
        e.option_cursor < e.options().len() <= usize::MAX,
    ensures
        ({
            let (down, s1, _) = app.on_key(out, pressed(KeyCode::Down));
            let (up, s2, _) = app.on_key(out, pressed(KeyCode::Up));
            let n = e.options().len();
            &&& s1 == out && s2 == out
            &&& down.elicitation is Some && up.elicitation is Some
            &&& down.elicitation->0.option_cursor == (if e.option_cursor + 1 < n {
                e.option_cursor + 1
            } else {
                n - 1
            })
            &&& up.elicitation->0.option_cursor == (if e.option_cursor > 0 {
                e.option_cursor - 1
            } else {
                0
            })
            &&& down.elicitation->0.selected == e.selected
            &&& up.elicitation->0.selected == e.selected
        }),
{
    reveal(ElicitationStateView::form_key);
}

/// What is typed into a text stands at the cursor, and Backspace takes it away again.
pub proof fn law_answer_is_typed(
    app: AppView,
    out: OutboxView,
    e: ElicitationStateView,
    c: char,
    k: int,
)
    requires
        asked(app, e),
        e.fields.len() > 0,
        e.field().kind is TextInput || e.field().kind is NumberInput,
        c != ' ',
        0 <= k <= e.text_input.len(),
        e.text_cursor == bytes(e.text_input.take(k)),
        bytes(e.text_input) + width(c) <= usize::MAX,
    ensures
        ({
            let (typed, s1, _) = app.on_key(out, pressed(KeyCode::Char(c)));
            let t = typed.elicitation->0;
            let (back, s2, _) = typed.on_key(out, pressed(KeyCode::Backspace));
            &&& s1 == out
            &&& typed.elicitation is Some
            &&& t.text_input.len() == e.text_input.len() + 1
            &&& t.text_input[k] == c
            &&& t.text_input.take(k) == e.text_input.take(k)
            &&& t.text_input.skip(k + 1) == e.text_input.skip(k)
            &&& t.text_cursor == bytes(t.text_input.take(k + 1))
            &&& t.selected == e.selected
            &&& back.elicitation is Some
            &&& back.elicitation->0.text_input == e.text_input
            &&& back.elicitation->0.text_cursor == e.text_cursor
        }),
{
    reveal(ElicitationStateView::form_key);
    lemma_char_pos_of_prefix(e.text_input, k);
    lemma_bytes_take_le(e.text_input, k, e.text_input.len() as int);
    assert(e.text_input.take(e.text_input.len() as int) =~= e.text_input);
    let t = e.typed(c);
    assert(t.text_input.take(k) =~= e.text_input.take(k));
    assert(t.text_input.skip(k + 1) =~= e.text_input.skip(k));
    assert(t.text_input.take(k + 1) =~= e.text_input.take(k).push(c));
    lemma_bytes_push(e.text_input.take(k), c);
    lemma_char_pos_of_prefix(t.text_input, k + 1);
    let (typed, s1, _) = app.on_key(out, pressed(KeyCode::Char(c)));
    assert(typed.elicitation == Some(t));
    assert(t.erased().text_input =~= e.text_input);
}

/// A choice that is in the list is found there whatever form its value has, and one that was
/// put in is in.
pub proof fn law_choices_are_compared_by_value(list: Seq<JsonView>, v: JsonView)
    ensures
        among(list, v) <==> exists|k: int| 0 <= k < list.len() && equal(#[trigger] list[k], v),
        among(list.push(v), v),
{
    let p = is_value(v);
    lemma_first_index(list, p);
    if exists|k: int| 0 <= k < list.len() && equal(#[trigger] list[k], v) {
        let k = choose|k: int| 0 <= k < list.len() && equal(#[trigger] list[k], v);
        assert(p(list[k]));
    }
    lemma_first_index(list.push(v), p);
    lemma_equal_to_itself(v);
    assert(p(list.push(v)[list.len() as int]));
}

/// The outcome that is shown of an answer: the label of the one choice, the labels of
/// those that were ticked, one in each line and in the order of the choices, yes or no,
/// or the text that was typed.
pub proof fn law_outcome_shows_the_answer(e: ElicitationStateView, k: int)
    requires
        e.fields.len() > 0,
    ensures
        e.fields[0].kind matches ElicitationFieldKindView::SingleSelect { options } ==> (0 <= k
            < options.len() && e.selected.contains_key(e.fields[0].name) && equal(
            options[k].value,
            e.selected[e.fields[0].name],
        ) && (forall|j: int|
            0 <= j < k ==> !equal((#[trigger] options[j]).value, e.selected[e.fields[0].name]))
            ==> e.display() == "\u{25B8} "@ + options[k].label),
        e.fields[0].kind matches ElicitationFieldKindView::BooleanToggle ==> (
        e.selected.contains_key(e.fields[0].name) ==> (e.selected[e.fields[0].name] matches JsonView::Bool(b)
            ==> e.display() == if b {
            "Yes"@
        } else {
            "No"@
        })),
        e.fields[0].kind is TextInput || e.fields[0].kind is NumberInput ==> e.display()
            == e.text_input,
{
    match e.fields[0].kind {
        ElicitationFieldKindView::SingleSelect { options } => {
            let v = e.selected[e.fields[0].name];
            if 0 <= k < options.len() && equal(options[k].value, v) && (forall|j: int|
                0 <= j < k ==> !equal((#[trigger] options[j]).value, v)) {
                lemma_first_is(options, has_value(v), k);
            }
        },
        _ => {},
    }
}

/// Where several choices may be ticked, the outcome shows those that are, in the order of
/// the choices.
pub proof fn law_outcome_shows_ticked_choices(
    e: ElicitationStateView,
    options: Seq<ElicitationOptionView>,
    list: Seq<JsonView>,
)
    requires
        e.fields.len() > 0,
        e.fields[0].kind == (ElicitationFieldKindView::MultiSelect { options }),
        e.selected.contains_key(e.fields[0].name),
        e.selected[e.fields[0].name] == JsonView::Array(list),
    ensures
        e.display() == joined(
            options.filter(|o: ElicitationOptionView| among(list, o.value)).map_values(
                |o: ElicitationOptionView| "\u{25B8} "@ + o.label,
            ),
            "\n"@,
        ),
{
    let ticked = |o: ElicitationOptionView| among(list, o.value);
    assert(ticked =~= value_in(list));
    assert(options.filter(ticked).map_values(|o: ElicitationOptionView| "\u{25B8} "@ + o.label)
        =~= options.filter(ticked).map_values(|o: ElicitationOptionView| outcome_line(o.label)));
}

/// Who asks is told by the name of the server behind `mcp:`, or of the part of the agent behind
/// `builtin:`; any other source is named as it is.
pub proof fn law_asker_is_named(e: ElicitationStateView, name: Seq<char>)
    ensures
        e.source == "mcp:"@ + name ==> e.asker() == name,
        e.source == "builtin:question"@ ==> e.asker() == "built-in"@,
        e.source == "builtin:"@ + name && name != "question"@ ==> e.asker() == name,
        !e.source.contains(':') ==> e.asker() == e.source,
{
    reveal_strlit("mcp:");
    reveal_strlit("builtin:");
    reveal_strlit("builtin:question");
    reveal_strlit("question");
    assert("mcp:"@[3] == ':' && "mcp:"@[0] == 'm');
    assert("builtin:"@[7] == ':' && "builtin:"@[0] == 'b');
    assert("builtin:question"@ =~= "builtin:"@ + "question"@);
    if e.source == "mcp:"@ + name {
        assert(e.source.take(4) =~= "mcp:"@);
        assert(e.source.skip(4) =~= name);
    }
    if e.source == "builtin:"@ + name {
        assert(e.source.take(8) =~= "builtin:"@);
        assert(e.source.skip(8) =~= name);
        assert(e.source[0] == 'b');
        if starts(e.source, "mcp:"@) {
            assert(e.source.take(4)[0] == 'm');
        }
        if e.source == "builtin:question"@ {
            assert(e.source.skip(8) =~= "question"@);
        }
    }
    if e.source == "builtin:question"@ {
        assert(e.source[0] == 'b');
        if starts(e.source, "mcp:"@) {
            assert(e.source.take(4)[0] == 'm');
        }
    }
    if !e.source.contains(':') {
        if starts(e.source, "mcp:"@) {
            assert(e.source.take(4)[3] == ':');
            assert(e.source[3] == ':');
        }
        if starts(e.source, "builtin:"@) {
            assert(e.source.take(8)[7] == ':');
            assert(e.source[7] == ':');
        }
        if e.source == "builtin:question"@ {
            assert(e.source[7] == ':');
        }
    }
}

} // verus!
