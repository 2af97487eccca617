//! Questions of the agent, and the forms that answer them.
use crate::app::{App, AppView, ChatEntry, ChatEntryView};
use crate::cards::CardCacheView;
use crate::json::{equal, lemma_equal_to_itself, lookup, same_json, Json, JsonView};
use crate::seqs::{
    first, first_index, lemma_filter_step, lemma_first_index, lemma_first_is, lemma_first_none,
    lemma_take_all,
};
use crate::strmap::StrMap;
use crate::symbols::OUTCOME_BULLET;
use crate::text::{
    cat2, from_chars, has_prefix, i64_of, join, joined, owned, parse_i64, same, signed_decimal,
    signed_number, starts, to_chars,
};
use vstd::prelude::*;

verus! {

/// One choice of a question.
#[derive(Debug)]
pub struct ElicitationOption {
    pub value: Json,
    pub label: String,
    pub description: Option<String>,
}

#[verifier::ext_equal]
pub struct ElicitationOptionView {
    pub value: JsonView,
    pub label: Seq<char>,
    pub description: Option<Seq<char>>,
}

impl DeepView for ElicitationOption {
    type V = ElicitationOptionView;

    open spec fn deep_view(&self) -> ElicitationOptionView {
        ElicitationOptionView {
            value: self.value.deep_view(),
            label: self.label@,
            description: self.description.deep_view(),
        }
    }
}

impl Clone for ElicitationOption {
    fn clone(&self) -> (r: Self)
        ensures
            r.deep_view() == self.deep_view(),
    {
        let r = ElicitationOption {
            value: self.value.clone(),
            label: self.label.clone(),
            description: self.description.clone(),
        };
        assert(r.deep_view() =~= self.deep_view());
        r
    }
}

/// How a question is answered.
#[derive(Debug)]
pub enum ElicitationFieldKind {
    SingleSelect { options: Vec<ElicitationOption> },
    MultiSelect { options: Vec<ElicitationOption> },
    TextInput,
    NumberInput { integer: bool },
    BooleanToggle,
}

#[verifier::ext_equal]
pub enum ElicitationFieldKindView {
    SingleSelect { options: Seq<ElicitationOptionView> },
    MultiSelect { options: Seq<ElicitationOptionView> },
    TextInput,
    NumberInput { integer: bool },
    BooleanToggle,
}

impl DeepView for ElicitationFieldKind {
    type V = ElicitationFieldKindView;

    open spec fn deep_view(&self) -> ElicitationFieldKindView {
        match self {
            ElicitationFieldKind::SingleSelect { options } => ElicitationFieldKindView::SingleSelect {
                options: options.deep_view(),
            },
            ElicitationFieldKind::MultiSelect { options } => ElicitationFieldKindView::MultiSelect {
                options: options.deep_view(),
            },
            ElicitationFieldKind::TextInput => ElicitationFieldKindView::TextInput,
            ElicitationFieldKind::NumberInput { integer } => ElicitationFieldKindView::NumberInput {
                integer: *integer,
            },
            ElicitationFieldKind::BooleanToggle => ElicitationFieldKindView::BooleanToggle,
        }
    }
}

impl Clone for ElicitationFieldKind {
    fn clone(&self) -> (r: Self)
        ensures
            r.deep_view() == self.deep_view(),
    {
        let r = match self {
            ElicitationFieldKind::SingleSelect { options } => ElicitationFieldKind::SingleSelect {
                options: options.clone(),
            },
            ElicitationFieldKind::MultiSelect { options } => ElicitationFieldKind::MultiSelect {
                options: options.clone(),
            },
            ElicitationFieldKind::TextInput => ElicitationFieldKind::TextInput,
            ElicitationFieldKind::NumberInput { integer } => ElicitationFieldKind::NumberInput {
                integer: *integer,
            },
            ElicitationFieldKind::BooleanToggle => ElicitationFieldKind::BooleanToggle,
        };
        assert(r.deep_view() =~= self.deep_view());
        r
    }
}

/// One field of a form.
#[derive(Debug)]
pub struct ElicitationField {
    pub name: String,
    pub title: String,
    pub description: Option<String>,
    pub required: bool,
    pub kind: ElicitationFieldKind,
}

#[verifier::ext_equal]
pub struct ElicitationFieldView {
    pub name: Seq<char>,
    pub title: Seq<char>,
    pub description: Option<Seq<char>>,
    pub required: bool,
    pub kind: ElicitationFieldKindView,
}

impl DeepView for ElicitationField {
    type V = ElicitationFieldView;

    open spec fn deep_view(&self) -> ElicitationFieldView {
        ElicitationFieldView {
            name: self.name@,
            title: self.title@,
            description: self.description.deep_view(),
            required: self.required,
            kind: self.kind.deep_view(),
        }
    }
}

impl Clone for ElicitationField {
    fn clone(&self) -> (r: Self)
        ensures
            r.deep_view() == self.deep_view(),
    {
        let r = ElicitationField {
            name: self.name.clone(),
            title: self.title.clone(),
            description: self.description.clone(),
            required: self.required,
            kind: self.kind.clone(),
        };
        assert(r.deep_view() =~= self.deep_view());
        r
    }
}

/// A question of the agent that waits for its answer.
#[derive(Debug)]
pub struct ElicitationState {
    pub elicitation_id: String,
    pub message: String,
    pub source: String,
    pub fields: Vec<ElicitationField>,
    /// Which field is active (for multi-field forms, currently always 0).
    pub field_cursor: usize,
    /// Which option within the current select field is highlighted.
    pub option_cursor: usize,
    /// Selections so far, by field name.
    pub selected: StrMap<Json>,
    /// Text of text and number fields.
    pub text_input: String,
    /// Byte position of the cursor in it.
    pub text_cursor: usize,
}

#[verifier::ext_equal]
pub struct ElicitationStateView {
    pub elicitation_id: Seq<char>,
    pub message: Seq<char>,
    pub source: Seq<char>,
    pub fields: Seq<ElicitationFieldView>,
    pub field_cursor: usize,
    pub option_cursor: usize,
    pub selected: Map<Seq<char>, JsonView>,
    pub text_input: Seq<char>,
    pub text_cursor: usize,
}

impl DeepView for ElicitationState {
    type V = ElicitationStateView;

    open spec fn deep_view(&self) -> ElicitationStateView {
        ElicitationStateView {
            elicitation_id: self.elicitation_id@,
            message: self.message@,
            source: self.source@,
            fields: self.fields.deep_view(),
            field_cursor: self.field_cursor,
            option_cursor: self.option_cursor,
            selected: self.selected.deep_view(),
            text_input: self.text_input@,
            text_cursor: self.text_cursor,
        }
    }
}


// ── reading a schema ─────────────────────────────────────────────────────────

/// A choice of a `oneOf` or `anyOf` list.
pub open spec fn option_of(opt: JsonView) -> ElicitationOptionView {
    ElicitationOptionView {
        value: match opt.get("const"@) {
            Some(v) => v,
            None => JsonView::Null,
        },
        label: opt.text_or_empty("title"@),
        description: opt.text_at("description"@),
    }
}

/// A choice of an `enum` list.
pub open spec fn enum_option_of(v: JsonView) -> ElicitationOptionView {
    ElicitationOptionView {
        value: v,
        label: match v.text() {
            Some(s) => s,
            None => Seq::empty(),
        },
        description: None,
    }
}

/// The choices of a `oneOf` or `anyOf` list.
pub open spec fn options_of(list: Seq<JsonView>) -> Seq<ElicitationOptionView> {
    list.map_values(|o: JsonView| option_of(o))
}

/// The choices of an `enum` list.
pub open spec fn enum_options_of(list: Seq<JsonView>) -> Seq<ElicitationOptionView> {
    list.map_values(|o: JsonView| enum_option_of(o))
}

/// The list of choices of an array property.
pub open spec fn item_list(prop: JsonView) -> Option<Seq<JsonView>> {
    match prop.get("items"@) {
        Some(items) => match items.get("anyOf"@) {
            Some(v) => v.items(),
            None => items.items_at("oneOf"@),
        },
        None => None,
    }
}

/// How a property is answered.
pub open spec fn kind_of(prop: JsonView) -> ElicitationFieldKindView {
    let typ = match prop.text_at("type"@) {
        Some(t) => t,
        None => "string"@,
    };
    match prop.items_at("oneOf"@) {
        Some(list) => ElicitationFieldKindView::SingleSelect { options: options_of(list) },
        None => match prop.items_at("enum"@) {
            Some(list) => ElicitationFieldKindView::SingleSelect {
                options: enum_options_of(list),
            },
            None => if typ == "array"@ {
                match item_list(prop) {
                    Some(list) => ElicitationFieldKindView::MultiSelect {
                        options: options_of(list),
                    },
                    None => ElicitationFieldKindView::TextInput,
                }
            } else if typ == "boolean"@ {
                ElicitationFieldKindView::BooleanToggle
            } else if typ == "integer"@ {
                ElicitationFieldKindView::NumberInput { integer: true }
            } else if typ == "number"@ {
                ElicitationFieldKindView::NumberInput { integer: false }
            } else {
                ElicitationFieldKindView::TextInput
            },
        },
    }
}

/// The schema lists the property as required.
pub open spec fn is_required(schema: JsonView, name: Seq<char>) -> bool {
    match schema.items_at("required"@) {
        Some(list) => list.contains(JsonView::Text(name)),
        None => false,
    }
}

/// The field of a property.
pub open spec fn field_of(schema: JsonView, name: Seq<char>, prop: JsonView) -> ElicitationFieldView {
    ElicitationFieldView {
        name,
        title: match prop.text_at("title"@) {
            Some(t) => t,
            None => name,
        },
        description: prop.text_at("description"@),
        required: is_required(schema, name),
        kind: kind_of(prop),
    }
}

/// The properties of a schema.
pub open spec fn properties_of(schema: JsonView) -> Seq<(Seq<char>, JsonView)> {
    match schema.get("properties"@) {
        Some(JsonView::Object(o)) => o,
        _ => Seq::empty(),
    }
}

/// One field for each property of a schema, in their order.
pub open spec fn fields_of(schema: JsonView) -> Seq<ElicitationFieldView> {
    properties_of(schema).map_values(
        |e: (Seq<char>, JsonView)| field_of(schema, e.0, e.1),
    )
}

fn read_option(opt: &Json) -> (r: ElicitationOption)
    ensures
        r.deep_view() == option_of(opt.tree()),
{
    ElicitationOption {
        value: match opt.get("const") {
            Some(v) => v.clone(),
            None => Json::Null,
        },
        label: opt.str_or_empty("title"),
        description: match opt.str_at("description") {
            Some(s) => Some(s.clone()),
            None => None,
        },
    }
}

fn read_options(list: &Vec<Json>) -> (r: Vec<ElicitationOption>)
    ensures
        r.deep_view() == options_of(list.deep_view()),
{
    let ghost lv = list.deep_view();
    let mut out: Vec<ElicitationOption> = Vec::new();
    let mut i: usize = 0;
    assert(out.deep_view() =~= options_of(lv).take(0));
    while i < list.len()
        invariant
            i <= list@.len(),
            lv == list.deep_view(),
            out.deep_view() == options_of(lv).take(i as int),
        decreases list@.len() - i,
    {
        let ghost before = out.deep_view();
        let o = read_option(&list[i]);
        assert(options_of(lv)[i as int] == o.deep_view());
        out.push(o);
        assert(out.deep_view() =~= before.push(options_of(lv)[i as int]));
        assert(out.deep_view() =~= options_of(lv).take(i + 1));
        i = i + 1;
    }
    assert(out.deep_view() =~= options_of(lv));
    out
}

fn read_enum_options(list: &Vec<Json>) -> (r: Vec<ElicitationOption>)
    ensures
        r.deep_view() == enum_options_of(list.deep_view()),
{
    let ghost lv = list.deep_view();
    let mut out: Vec<ElicitationOption> = Vec::new();
    let mut i: usize = 0;
    assert(out.deep_view() =~= enum_options_of(lv).take(0));
    while i < list.len()
        invariant
            i <= list@.len(),
            lv == list.deep_view(),
            out.deep_view() == enum_options_of(lv).take(i as int),
        decreases list@.len() - i,
    {
        let ghost before = out.deep_view();
        let v = &list[i];
        let o = ElicitationOption {
            value: v.clone(),
            label: match v.as_str() {
                Some(s) => s.clone(),
                None => String::new(),
            },
            description: None,
        };
        assert(enum_options_of(lv)[i as int] == o.deep_view());
        out.push(o);
        assert(out.deep_view() =~= before.push(enum_options_of(lv)[i as int]));
        assert(out.deep_view() =~= enum_options_of(lv).take(i + 1));
        i = i + 1;
    }
    assert(out.deep_view() =~= enum_options_of(lv));
    out
}

fn read_kind(prop: &Json) -> (r: ElicitationFieldKind)
    ensures
        r.deep_view() == kind_of(prop.tree()),
{
    let typ = match prop.str_at("type") {
        Some(t) => t.clone(),
        None => owned("string"),
    };
    match prop.array_at("oneOf") {
        Some(list) => {
            return ElicitationFieldKind::SingleSelect { options: read_options(list) };
        },
        None => {},
    }
    match prop.array_at("enum") {
        Some(list) => {
            return ElicitationFieldKind::SingleSelect { options: read_enum_options(list) };
        },
        None => {},
    }
    if same(typ.as_str(), "array") {
        let list = match prop.get("items") {
            Some(items) => match items.get("anyOf") {
                Some(v) => v.as_array(),
                None => items.array_at("oneOf"),
            },
            None => None,
        };
        match list {
            Some(l) => ElicitationFieldKind::MultiSelect { options: read_options(l) },
            None => ElicitationFieldKind::TextInput,
        }
    } else if same(typ.as_str(), "boolean") {
        ElicitationFieldKind::BooleanToggle
    } else if same(typ.as_str(), "integer") {
        ElicitationFieldKind::NumberInput { integer: true }
    } else if same(typ.as_str(), "number") {
        ElicitationFieldKind::NumberInput { integer: false }
    } else {
        ElicitationFieldKind::TextInput
    }
}

fn read_required(schema: &Json, name: &str) -> (r: bool)
    ensures
        r == is_required(schema.tree(), name@),
{
    match schema.array_at("required") {
        Some(list) => {
            let ghost lv = list.deep_view();
            let mut i: usize = 0;
            while i < list.len()
                invariant
                    i <= list@.len(),
                    lv == list.deep_view(),
                    schema.tree().items_at("required"@) == Some(lv),
                    forall|j: int| 0 <= j < i ==> #[trigger] lv[j] != JsonView::Text(name@),
                decreases list@.len() - i,
            {
                assert(lv[i as int] == list@[i as int].tree());
                match list[i].as_str() {
                    Some(s) => {
                        if same(s.as_str(), name) {
                            assert(lv[i as int] == JsonView::Text(name@));
                            return true;
                        }
                    },
                    None => {},
                }
                i = i + 1;
            }
            false
        },
        None => false,
    }
}

impl ElicitationState {
    /// Reads the properties of a JSON Schema into fields.
    pub fn parse_schema(schema: &Json) -> (r: Vec<ElicitationField>)
        ensures
            r.deep_view() == fields_of(schema.tree()),
    {
        let ghost sv = schema.tree();
        let ghost pv = properties_of(sv);
        let mut fields: Vec<ElicitationField> = Vec::new();
        assert(fields.deep_view() =~= fields_of(sv).take(0));
        match schema.get("properties") {
            Some(props) => match props {
                Json::Object(entries) => {
                    let mut i: usize = 0;
                    assert(pv.len() == entries@.len());
                    while i < entries.len()
                        invariant
                            i <= entries@.len(),
                            sv == schema.tree(),
                            pv == properties_of(sv),
                            pv.len() == entries@.len(),
                            forall|k: int|
                                0 <= k < entries@.len() ==> #[trigger] pv[k] == (
                                    entries@[k].0@,
                                    entries@[k].1.tree(),
                                ),
                            fields.deep_view() == fields_of(sv).take(i as int),
                        decreases entries@.len() - i,
                    {
                        let ghost before = fields.deep_view();
                        let name = &entries[i].0;
                        let prop = &entries[i].1;
                        assert(pv[i as int] == (name@, prop.tree()));
                        let field = ElicitationField {
                            name: name.clone(),
                            title: match prop.str_at("title") {
                                Some(t) => t.clone(),
                                None => name.clone(),
                            },
                            description: match prop.str_at("description") {
                                Some(s) => Some(s.clone()),
                                None => None,
                            },
                            required: read_required(schema, name.as_str()),
                            kind: read_kind(prop),
                        };
                        assert(fields_of(sv)[i as int] == field.deep_view());
                        fields.push(field);
                        assert(fields.deep_view() =~= before.push(fields_of(sv)[i as int]));
                        assert(fields.deep_view() =~= fields_of(sv).take(i + 1));
                        i = i + 1;
                    }
                },
                _ => {},
            },
            None => {},
        }
        assert(fields.deep_view() =~= fields_of(sv));
        fields
    }
}

// ── filling in the form ──────────────────────────────────────────────────────

/// What `serde_json` makes of the text of a number with a fraction: the text
/// of the number, where it is one.
pub uninterp spec fn real_number(text: Seq<char>) -> Option<Seq<char>>;

/// `str::parse` into a floating-point number and
/// `serde_json::Number::from_f64`: the text of the JSON number, or nothing
/// where the text is no number or the number is not finite.
#[verifier::external_body]
fn parse_real(text: &str) -> (r: Option<String>)
    ensures
        r.deep_view() == real_number(text@),
{
    serde_json::Number::from_f64(text.parse().ok()?).map(|n| n.to_string())
}

/// The JSON number of a whole number.
pub open spec fn json_of_i64(n: i64) -> JsonView {
    JsonView::Number {
        unsigned: if n >= 0 {
            Some(n as u64)
        } else {
            None
        },
        text: signed_decimal(n as int),
    }
}

/// What a number field stands for: a number, or nothing where the text is none.
pub open spec fn number_answer(text: Seq<char>, integer: bool) -> JsonView {
    if integer {
        match i64_of(text) {
            Some(n) => json_of_i64(n),
            None => JsonView::Null,
        }
    } else {
        match real_number(text) {
            Some(t) => JsonView::Number { unsigned: None, text: t },
            None => JsonView::Null,
        }
    }
}

/// With a value under a key, in place of the one that was there.
pub open spec fn entry_put(
    o: Seq<(Seq<char>, JsonView)>,
    key: Seq<char>,
    v: JsonView,
) -> Seq<(Seq<char>, JsonView)>
    decreases o.len(),
{
    if o.len() == 0 {
        seq![(key, v)]
    } else if o[0].0 == key {
        seq![(key, v)] + o.skip(1)
    } else {
        seq![o[0]] + entry_put(o.skip(1), key, v)
    }
}

/// Being a choice with the value.
pub open spec fn has_value(v: JsonView) -> spec_fn(ElicitationOptionView) -> bool {
    |o: ElicitationOptionView| equal(o.value, v)
}

/// Being a choice whose value is in the list.
pub open spec fn value_in(list: Seq<JsonView>) -> spec_fn(ElicitationOptionView) -> bool {
    |o: ElicitationOptionView| among(list, o.value)
}

/// The line that shows a choice that was made.
pub open spec fn outcome_line(label: Seq<char>) -> Seq<char> {
    OUTCOME_BULLET@ + label
}

/// Being equal to the value.
pub open spec fn is_value(v: JsonView) -> spec_fn(JsonView) -> bool {
    |x: JsonView| equal(x, v)
}

/// A value that equals `v` is in the list.
pub open spec fn among(list: Seq<JsonView>, v: JsonView) -> bool {
    first_index(list, is_value(v)) is Some
}

/// A list of values with one taken out where it is in, put in where it is not.
pub open spec fn toggled(list: Seq<JsonView>, v: JsonView) -> Seq<JsonView> {
    match first_index(list, is_value(v)) {
        Some(k) => list.remove(k),
        None => list.push(v),
    }
}

impl ElicitationStateView {
    /// The active field.
    pub open spec fn field(self) -> ElicitationFieldView {
        self.fields[if self.field_cursor < self.fields.len() {
            self.field_cursor as int
        } else {
            self.fields.len() - 1
        }]
    }

    /// The choices of the active field.
    pub open spec fn options(self) -> Seq<ElicitationOptionView> {
        match self.field().kind {
            ElicitationFieldKindView::SingleSelect { options } => options,
            ElicitationFieldKindView::MultiSelect { options } => options,
            _ => Seq::empty(),
        }
    }

    /// With the highlight moved by `delta` and kept on a choice.
    pub open spec fn moved(self, delta: int) -> ElicitationStateView {
        let max = if self.options().len() > 0 {
            self.options().len() - 1
        } else {
            0
        };
        let to = self.option_cursor + delta;
        ElicitationStateView {
            option_cursor: (if to < 0 {
                0
            } else if to > max {
                max
            } else {
                to
            }) as usize,
            ..self
        }
    }

    /// With the highlighted choice as the value of a single-choice field.
    pub open spec fn chosen(self) -> ElicitationStateView {
        match self.field().kind {
            ElicitationFieldKindView::SingleSelect { options } => if self.option_cursor
                < options.len() {
                ElicitationStateView {
                    selected: self.selected.insert(
                        self.field().name,
                        options[self.option_cursor as int].value,
                    ),
                    ..self
                }
            } else {
                self
            },
            _ => self,
        }
    }

    /// With the highlighted choice of a multiple-choice field taken or left.
    pub open spec fn toggled_option(self) -> ElicitationStateView {
        match self.field().kind {
            ElicitationFieldKindView::MultiSelect { options } => if self.option_cursor
                < options.len() {
                let name = self.field().name;
                let was = if self.selected.contains_key(name) {
                    self.selected[name]
                } else {
                    JsonView::Array(Seq::empty())
                };
                let is = match was {
                    JsonView::Array(items) => JsonView::Array(
                        toggled(items, options[self.option_cursor as int].value),
                    ),
                    v => v,
                };
                ElicitationStateView { selected: self.selected.insert(name, is), ..self }
            } else {
                self
            },
            _ => self,
        }
    }

    /// The answer to a field, where it has one.
    pub open spec fn answer(self, f: ElicitationFieldView) -> Option<JsonView> {
        let selection = if self.selected.contains_key(f.name) {
            Some(self.selected[f.name])
        } else {
            None
        };
        match f.kind {
            ElicitationFieldKindView::TextInput => if self.text_input.len() > 0 {
                Some(JsonView::Text(self.text_input))
            } else {
                None
            },
            ElicitationFieldKindView::NumberInput { integer } => if self.text_input.len() > 0 {
                Some(number_answer(self.text_input, integer))
            } else {
                None
            },
            _ => selection,
        }
    }

    /// The answers to the first `n` fields.
    pub open spec fn answers(self, n: int) -> Seq<(Seq<char>, JsonView)>
        decreases n,
    {
        if n <= 0 {
            Seq::empty()
        } else {
            let f = self.fields[n - 1];
            match self.answer(f) {
                Some(v) => entry_put(self.answers(n - 1), f.name, v),
                None => self.answers(n - 1),
            }
        }
    }

    /// Every required field has an answer.
    pub open spec fn valid(self) -> bool {
        forall|i: int|
            0 <= i < self.fields.len() && (#[trigger] self.fields[i]).required ==> self.answer(
                self.fields[i],
            ) is Some
    }

    /// Who asks, for display: the source without the mark of its kind.
    pub open spec fn asker(self) -> Seq<char> {
        if starts(self.source, "mcp:"@) {
            self.source.skip(4)
        } else if self.source == "builtin:question"@ {
            "built-in"@
        } else if starts(self.source, "builtin:"@) {
            self.source.skip(8)
        } else {
            self.source
        }
    }

    /// What was chosen or entered, for display.
    pub open spec fn display(self) -> Seq<char> {
        if self.fields.len() == 0 {
            Seq::empty()
        } else {
            let f = self.fields[0];
            let selection = if self.selected.contains_key(f.name) {
                Some(self.selected[f.name])
            } else {
                None
            };
            match f.kind {
                ElicitationFieldKindView::SingleSelect { options } => match selection {
                    Some(v) => match first(options, has_value(v)) {
                        Some(o) => outcome_line(o.label),
                        None => Seq::empty(),
                    },
                    None => Seq::empty(),
                },
                ElicitationFieldKindView::MultiSelect { options } => match selection {
                    Some(JsonView::Array(list)) => joined(
                        options.filter(value_in(list)).map_values(
                            |o: ElicitationOptionView| outcome_line(o.label),
                        ),
                        "\n"@,
                    ),
                    _ => Seq::empty(),
                },
                ElicitationFieldKindView::BooleanToggle => match selection {
                    Some(JsonView::Bool(b)) => if b {
                        "Yes"@
                    } else {
                        "No"@
                    },
                    _ => Seq::empty(),
                },
                _ => self.text_input,
            }
        }
    }
}


fn put_entry(o: &mut Vec<(String, Json)>, key: &String, v: Json)
    ensures
        Json::Object(*final(o)).tree()->Object_0 == entry_put(
            Json::Object(*old(o)).tree()->Object_0,
            key@,
            v.tree(),
        ),
{
    let ghost before = Json::Object(*o).tree()->Object_0;
    let mut i: usize = 0;
    while i < o.len()
        invariant
            i <= o@.len(),
            before == Json::Object(*o).tree()->Object_0,
            before == Json::Object(*old(o)).tree()->Object_0,
            forall|k: int| 0 <= k < i ==> #[trigger] before[k].0 != key@,
        decreases o@.len() - i,
    {
        assert(before[i as int].0 == o@[i as int].0@);
        if same(o[i].0.as_str(), key.as_str()) {
            o.set(i, (key.clone(), v));
            proof {
                lemma_put_at(before, key@, v.tree(), i as int);
                assert(Json::Object(*o).tree()->Object_0 =~= before.update(
                    i as int,
                    (key@, v.tree()),
                ));
            }
            return ;
        }
        i = i + 1;
    }
    o.push((key.clone(), v));
    proof {
        lemma_put_new(before, key@, v.tree());
        assert(Json::Object(*o).tree()->Object_0 =~= before.push((key@, v.tree())));
    }
}

proof fn lemma_put_at(o: Seq<(Seq<char>, JsonView)>, key: Seq<char>, v: JsonView, i: int)
    requires
        0 <= i < o.len(),
        o[i].0 == key,
        forall|k: int| 0 <= k < i ==> #[trigger] o[k].0 != key,
    ensures
        entry_put(o, key, v) == o.update(i, (key, v)),
    decreases i,
{
    if i == 0 {
        assert(seq![(key, v)] + o.skip(1) =~= o.update(0, (key, v)));
    } else {
        assert(o[0].0 != key);
        let s = o.skip(1);
        assert forall|k: int| 0 <= k < i - 1 implies #[trigger] s[k].0 != key by {
            assert(o[k + 1].0 != key);
        }
        lemma_put_at(s, key, v, i - 1);
        assert(seq![o[0]] + s.update(i - 1, (key, v)) =~= o.update(i, (key, v)));
    }
}

proof fn lemma_put_new(o: Seq<(Seq<char>, JsonView)>, key: Seq<char>, v: JsonView)
    requires
        forall|k: int| 0 <= k < o.len() ==> #[trigger] o[k].0 != key,
    ensures
        entry_put(o, key, v) == o.push((key, v)),
    decreases o.len(),
{
    if o.len() == 0 {
        assert(seq![(key, v)] =~= o.push((key, v)));
    } else {
        assert(o[0].0 != key);
        let s = o.skip(1);
        assert forall|k: int| 0 <= k < s.len() implies #[trigger] s[k].0 != key by {
            assert(o[k + 1].0 != key);
        }
        lemma_put_new(s, key, v);
        assert(seq![o[0]] + s.push((key, v)) =~= o.push((key, v)));
    }
}

fn number_json(text: &str, integer: bool) -> (r: Json)
    ensures
        r.tree() == number_answer(text@, integer),
{
    if integer {
        match parse_i64(text) {
            Some(n) => Json::Number {
                unsigned: if n >= 0 {
                    Some(n as u64)
                } else {
                    None
                },
                text: signed_number(n),
            },
            None => Json::Null,
        }
    } else {
        match parse_real(text) {
            Some(t) => Json::Number { unsigned: None, text: t },
            None => Json::Null,
        }
    }
}

pub(crate) fn position_of(list: &Vec<Json>, v: &Json) -> (r: Option<usize>)
    ensures
        match r {
            Some(k) => first_index(list.deep_view(), is_value(v.tree())) == Some(k as int) && k
                < list@.len(),
            None => first_index(list.deep_view(), is_value(v.tree())) is None,
        },
        r is Some <==> among(list.deep_view(), v.tree()),
{
    let ghost lv = list.deep_view();
    let ghost p = is_value(v.tree());
    let mut i: usize = 0;
    while i < list.len()
        invariant
            i <= list@.len(),
            lv == list.deep_view(),
            p == is_value(v.tree()),
            forall|j: int| 0 <= j < i ==> !p(#[trigger] lv[j]),
        decreases list@.len() - i,
    {
        assert(lv[i as int] == list@[i as int].tree());
        if same_json(&list[i], v) {
            proof {
                lemma_first_is(lv, p, i as int);
            }
            return Some(i);
        }
        i = i + 1;
    }
    proof {
        lemma_first_none(lv, p);
    }
    None
}

impl ElicitationState {
    /// The active field.
    pub fn current_field(&self) -> (r: &ElicitationField)
        requires
            self.fields@.len() > 0,
        ensures
            r.deep_view() == self.deep_view().field(),
    {
        let n: usize = self.fields.len();
        let k: usize = if self.field_cursor < n {
            self.field_cursor
        } else {
            n - 1
        };
        &self.fields[k]
    }

    /// Number of choices of the active field.
    pub fn current_option_count(&self) -> (r: usize)
        requires
            self.fields@.len() > 0,
        ensures
            r == self.deep_view().options().len(),
    {
        match &self.current_field().kind {
            ElicitationFieldKind::SingleSelect { options } => options.len(),
            ElicitationFieldKind::MultiSelect { options } => options.len(),
            _ => 0,
        }
    }

    /// Moves the highlight by `delta` and keeps it on a choice.
    pub fn move_cursor(&mut self, delta: i32)
        requires
            old(self).fields@.len() > 0,
        ensures
            final(self).deep_view() == old(self).deep_view().moved(delta as int),
    {
        let count: usize = self.current_option_count();
        let max: i128 = if count > 0 {
            count as i128 - 1
        } else {
            0
        };
        let to: i128 = self.option_cursor as i128 + delta as i128;
        self.option_cursor = if to < 0 {
            0
        } else if to > max {
            max as usize
        } else {
            to as usize
        };
    }

    /// Takes the highlighted choice of a single-choice field as its value.
    pub fn select_current_option(&mut self)
        requires
            old(self).fields@.len() > 0,
        ensures
            final(self).deep_view() == old(self).deep_view().chosen(),
    {
        let field = self.current_field();
        let pick: Option<(String, Json)> = match &field.kind {
            ElicitationFieldKind::SingleSelect { options } => {
                if self.option_cursor < options.len() {
                    Some((field.name.clone(), options[self.option_cursor].value.clone()))
                } else {
                    None
                }
            },
            _ => None,
        };
        match pick {
            Some((name, value)) => {
                self.selected.insert(name, value);
            },
            None => {},
        }
    }

    /// Takes or leaves the highlighted choice of a multiple-choice field.
    pub fn toggle_current_option(&mut self)
        requires
            old(self).fields@.len() > 0,
        ensures
            final(self).deep_view() == old(self).deep_view().toggled_option(),
    {
        let field = self.current_field();
        let pick: Option<(String, Json)> = match &field.kind {
            ElicitationFieldKind::MultiSelect { options } => {
                if self.option_cursor < options.len() {
                    Some((field.name.clone(), options[self.option_cursor].value.clone()))
                } else {
                    None
                }
            },
            _ => None,
        };
        match pick {
            Some((name, value)) => {
                let ghost sel = self.deep_view().selected;
                let was = match self.selected.remove(name.as_str()) {
                    Some(v) => v,
                    None => Json::Array(Vec::new()),
                };
                let ghost wv = was.tree();
                proof {
                    if !sel.contains_key(name@) {
                        assert(wv->Array_0 =~= Seq::<JsonView>::empty());
                    }
                }
                let is = match was {
                    Json::Array(items) => {
                        let mut items = items;
                        let ghost before = items.deep_view();
                        assert(wv->Array_0 =~= before);
                        match position_of(&items, &value) {
                            Some(k) => {
                                let _ = items.remove(k);
                                assert(items.deep_view() =~= before.remove(k as int));
                            },
                            None => {
                                items.push(value);
                                assert(items.deep_view() =~= before.push(value.tree()));
                            },
                        }
                        let r = Json::Array(items);
                        assert(r.tree()->Array_0 =~= items.deep_view());
                        r
                    },
                    v => v,
                };
                self.selected.insert(name, is);
                assert(sel.remove(name@).insert(name@, is.tree()) =~= sel.insert(
                    name@,
                    is.tree(),
                ));
            },
            None => {},
        }
    }

    /// The object that answers the question.
    pub fn build_accept_content(&self) -> (r: Json)
        ensures
            r.tree() == JsonView::Object(
                self.deep_view().answers(self.deep_view().fields.len() as int),
            ),
    {
        let ghost me = self.deep_view();
        let mut obj: Vec<(String, Json)> = Vec::new();
        let mut i: usize = 0;
        assert(Json::Object(obj).tree()->Object_0 =~= me.answers(0));
        while i < self.fields.len()
            invariant
                i <= self.fields@.len(),
                me == self.deep_view(),
                Json::Object(obj).tree()->Object_0 == me.answers(i as int),
            decreases self.fields@.len() - i,
        {
            let field = &self.fields[i];
            assert(me.fields[i as int] == field.deep_view());
            match &field.kind {
                ElicitationFieldKind::TextInput => {
                    if !self.text_input.as_str().is_empty() {
                        put_entry(&mut obj, &field.name, Json::Text(self.text_input.clone()));
                    }
                },
                ElicitationFieldKind::NumberInput { integer } => {
                    if !self.text_input.as_str().is_empty() {
                        let v = number_json(self.text_input.as_str(), *integer);
                        put_entry(&mut obj, &field.name, v);
                    }
                },
                _ => {
                    match self.selected.get(field.name.as_str()) {
                        Some(v) => {
                            put_entry(&mut obj, &field.name, v.clone());
                        },
                        None => {},
                    }
                },
            }
            i = i + 1;
        }
        Json::Object(obj)
    }

    /// Whether every required field has a value.
    pub fn is_valid(&self) -> (r: bool)
        ensures
            r == self.deep_view().valid(),
    {
        let ghost me = self.deep_view();
        let mut i: usize = 0;
        while i < self.fields.len()
            invariant
                i <= self.fields@.len(),
                me == self.deep_view(),
                forall|j: int|
                    0 <= j < i && (#[trigger] me.fields[j]).required ==> me.answer(
                        me.fields[j],
                    ) is Some,
            decreases self.fields@.len() - i,
        {
            let field = &self.fields[i];
            assert(me.fields[i as int] == field.deep_view());
            if field.required {
                let answered = match &field.kind {
                    ElicitationFieldKind::TextInput => !self.text_input.as_str().is_empty(),
                    ElicitationFieldKind::NumberInput { .. } => !self.text_input.as_str().is_empty(),
                    _ => self.selected.contains_key(field.name.as_str()),
                };
                assert(answered == (me.answer(me.fields[i as int]) is Some));
                if !answered {
                    return false;
                }
            }
            i = i + 1;
        }
        true
    }

    /// Who asks, for display.
    pub fn source_label(&self) -> (r: String)
        ensures
            r@ == self.deep_view().asker(),
    {
        proof {
            reveal_strlit("mcp:");
            reveal_strlit("builtin:");
            assert("mcp:"@.len() == 4);
            assert("builtin:"@.len() == 8);
        }
        if has_prefix(self.source.as_str(), "mcp:") {
            let v = to_chars(self.source.as_str());
            let n: usize = v.len();
            let r = from_chars(&v, 4, n);
            assert(r@ =~= self.source@.skip(4));
            r
        } else if same(self.source.as_str(), "builtin:question") {
            owned("built-in")
        } else if has_prefix(self.source.as_str(), "builtin:") {
            let v = to_chars(self.source.as_str());
            let n: usize = v.len();
            let r = from_chars(&v, 8, n);
            assert(r@ =~= self.source@.skip(8));
            r
        } else {
            self.source.clone()
        }
    }

    /// What was chosen or entered, for display.
    pub fn selected_display(&self) -> (r: String)
        ensures
            r@ == self.deep_view().display(),
    {
        if self.fields.len() == 0 {
            return String::new();
        }
        let field = &self.fields[0];
        assert(self.deep_view().fields[0] == field.deep_view());
        match &field.kind {
            ElicitationFieldKind::SingleSelect { options } => {
                match self.selected.get(field.name.as_str()) {
                    Some(v) => chosen_line(options, v),
                    None => String::new(),
                }
            },
            ElicitationFieldKind::MultiSelect { options } => {
                match self.selected.get(field.name.as_str()) {
                    Some(v) => match v {
                        Json::Array(list) => {
                            assert(v.tree()->Array_0 =~= list.deep_view());
                            chosen_lines(options, list)
                        },
                        _ => String::new(),
                    },
                    None => String::new(),
                }
            },
            ElicitationFieldKind::BooleanToggle => {
                match self.selected.get(field.name.as_str()) {
                    Some(v) => match v.as_bool() {
                        Some(b) => if b {
                            owned("Yes")
                        } else {
                            owned("No")
                        },
                        None => String::new(),
                    },
                    None => String::new(),
                }
            },
            _ => self.text_input.clone(),
        }
    }
}

fn chosen_line(options: &Vec<ElicitationOption>, v: &Json) -> (r: String)
    ensures
        r@ == (match first(options.deep_view(), has_value(v.tree())) {
            Some(o) => outcome_line(o.label),
            None => Seq::empty(),
        }),
{
    let ghost ov = options.deep_view();
    let ghost p = has_value(v.tree());
    let mut i: usize = 0;
    while i < options.len()
        invariant
            i <= options@.len(),
            ov == options.deep_view(),
            p == has_value(v.tree()),
            forall|j: int| 0 <= j < i ==> !p(#[trigger] ov[j]),
        decreases options@.len() - i,
    {
        assert(ov[i as int] == options@[i as int].deep_view());
        if same_json(&options[i].value, v) {
            proof {
                lemma_first_is(ov, p, i as int);
            }
            return cat2(OUTCOME_BULLET, options[i].label.as_str());
        }
        i = i + 1;
    }
    proof {
        lemma_first_none(ov, p);
    }
    String::new()
}

fn chosen_lines(options: &Vec<ElicitationOption>, list: &Vec<Json>) -> (r: String)
    ensures
        r@ == joined(
            options.deep_view().filter(value_in(list.deep_view())).map_values(
                |o: ElicitationOptionView| outcome_line(o.label),
            ),
            "\n"@,
        ),
{
    let ghost ov = options.deep_view();
    let ghost p = value_in(list.deep_view());
    let ghost f = |o: ElicitationOptionView| outcome_line(o.label);
    let mut out: Vec<String> = Vec::new();
    let mut i: usize = 0;
    assert(out.deep_view() =~= ov.take(0).filter(p).map_values(f)) by {
        reveal(Seq::filter);
    }
    while i < options.len()
        invariant
            i <= options@.len(),
            ov == options.deep_view(),
            p == value_in(list.deep_view()),
            f == (|o: ElicitationOptionView| outcome_line(o.label)),
            out.deep_view() == ov.take(i as int).filter(p).map_values(f),
        decreases options@.len() - i,
    {
        let ghost before = out.deep_view();
        proof {
            lemma_filter_step(ov, p, i as int);
            assert(ov[i as int] == options@[i as int].deep_view());
        }
        if position_of(list, &options[i].value).is_some() {
            let line = cat2(OUTCOME_BULLET, options[i].label.as_str());
            out.push(line);
            assert(out.deep_view() =~= before.push(line@));
            assert(ov.take(i + 1).filter(p).map_values(f) =~= ov.take(i as int).filter(
                p,
            ).map_values(f).push(f(ov[i as int])));
        }
        i = i + 1;
    }
    proof {
        lemma_take_all(ov);
    }
    join(&out, "\n")
}

// ── the answer in the conversation ───────────────────────────────────────────

/// Being the card of a question.
pub open spec fn question_card(id: Seq<char>) -> spec_fn(ChatEntryView) -> bool {
    |e: ChatEntryView| e matches ChatEntryView::Elicitation { elicitation_id, .. } && elicitation_id == id
}

/// With an outcome on the card of a question.
pub open spec fn with_outcome(e: ChatEntryView, text: Seq<char>) -> ChatEntryView {
    match e {
        ChatEntryView::Elicitation { elicitation_id, message, source, outcome } => {
            ChatEntryView::Elicitation { elicitation_id, message, source, outcome: Some(text) }
        },
        other => other,
    }
}

impl AppView {
    /// The question is answered: its first card shows the outcome.
    #[verifier::opaque]
    pub open spec fn question_resolved(self, id: Seq<char>, outcome: Seq<char>) -> AppView {
        (AppView {
            messages: match first_index(self.messages, question_card(id)) {
                Some(k) => self.messages.update(k, with_outcome(self.messages[k], outcome)),
                None => self.messages,
            },
            elicitation: None,
            card_cache: CardCacheView::empty(),
            ..self
        }).status_refreshed()
    }
}

fn find_question(messages: &Vec<ChatEntry>, elicitation_id: &str) -> (r: Option<usize>)
    ensures
        match r {
            Some(k) => k < messages@.len() && first_index(
                messages.deep_view(),
                question_card(elicitation_id@),
            ) == Some(k as int),
            None => first_index(messages.deep_view(), question_card(elicitation_id@)) is None,
        },
{
    let ghost mv = messages.deep_view();
    let ghost p = question_card(elicitation_id@);
    let mut i: usize = 0;
    while i < messages.len()
        invariant
            i <= messages@.len(),
            mv == messages.deep_view(),
            p == question_card(elicitation_id@),
            forall|j: int| 0 <= j < i ==> !p(#[trigger] mv[j]),
        decreases messages@.len() - i,
    {
        assert(mv[i as int] == messages@[i as int].deep_view());
        if let ChatEntry::Elicitation { elicitation_id: eid, .. } = &messages[i] {
            if same(eid.as_str(), elicitation_id) {
                proof {
                    lemma_first_is(mv, p, i as int);
                }
                return Some(i);
            }
        }
        i = i + 1;
    }
    proof {
        lemma_first_none(mv, p);
    }
    None
}

fn mark_question(messages: &mut Vec<ChatEntry>, k: usize, outcome: &str)
    requires
        k < old(messages)@.len(),
    ensures
        final(messages).deep_view() == old(messages).deep_view().update(
            k as int,
            with_outcome(old(messages).deep_view()[k as int], outcome@),
        ),
{
    let ghost mv = messages.deep_view();
    assert(mv[k as int] == messages@[k as int].deep_view());
    if let ChatEntry::Elicitation { outcome: out, .. } = &mut messages[k] {
        *out = Some(owned(outcome));
    }
    assert(messages.deep_view() =~= mv.update(k as int, with_outcome(mv[k as int], outcome@)));
}

impl App {
    /// Marks the card of a question with its outcome and ends the question.
    pub fn resolve_elicitation(&mut self, elicitation_id: &str, outcome: &str)
        ensures
            final(self)@ == old(self)@.question_resolved(elicitation_id@, outcome@),
            old(self)@.wf() ==> final(self)@.wf(),
    {
        reveal(AppView::question_resolved);
        if let Some(k) = find_question(&self.messages, elicitation_id) {
            mark_question(&mut self.messages, k, outcome);
        }
        self.elicitation = None;
        self.card_cache.invalidate();
        self.refresh_transient_status();
    }
}

// ── laws ─────────────────────────────────────────────────────────────────────

pub proof fn lemma_put_lookup(o: Seq<(Seq<char>, JsonView)>, key: Seq<char>, v: JsonView, k: Seq<char>)
    ensures
        lookup(entry_put(o, key, v), k) == (if k == key {
            Some(v)
        } else {
            lookup(o, k)
        }),
    decreases o.len(),
{
    reveal_with_fuel(lookup, 2);
    let r = entry_put(o, key, v);
    if o.len() == 0 {
        assert(r.drop_first() =~= Seq::empty());
    } else if o[0].0 == key {
        assert(r.drop_first() =~= o.skip(1));
        assert(o.drop_first() =~= o.skip(1));
    } else {
        lemma_put_lookup(o.skip(1), key, v, k);
        assert(r.drop_first() =~= entry_put(o.skip(1), key, v));
        assert(o.drop_first() =~= o.skip(1));
    }
}

/// The answer of a form that may be sent has a value for every required field.
pub proof fn law_valid_form_answers_required_fields(state: ElicitationStateView, i: int)
    requires
        state.valid(),
        0 <= i < state.fields.len(),
        state.fields[i].required,
    ensures
        JsonView::Object(state.answers(state.fields.len() as int)).get(
            state.fields[i].name,
        ) is Some,
{
    lemma_answered(state, i, state.fields.len() as int);
}

proof fn lemma_answered(state: ElicitationStateView, i: int, n: int)
    requires
        0 <= i < n <= state.fields.len(),
        state.answer(state.fields[i]) is Some,
    ensures
        lookup(state.answers(n), state.fields[i].name) is Some,
    decreases n,
{
    let f = state.fields[n - 1];
    if state.answer(f) is Some {
        lemma_put_lookup(
            state.answers(n - 1),
            f.name,
            state.answer(f)->0,
            state.fields[i].name,
        );
    }
    if i < n - 1 {
        lemma_answered(state, i, n - 1);
    }
}

/// Taking a choice that was left, and leaving it again, changes nothing.
pub proof fn law_toggle_twice(list: Seq<JsonView>, v: JsonView)
    requires
        !among(list, v),
    ensures
        toggled(toggled(list, v), v) == list,
        among(toggled(list, v), v),
{
    lemma_first_index(list, is_value(v));
    lemma_equal_to_itself(v);
    let once = list.push(v);
    assert(toggled(list, v) == once);
    assert(once[once.len() - 1] == v);
    assert forall|j: int| 0 <= j < list.len() implies !is_value(v)(#[trigger] once[j]) by {
        assert(once[j] == list[j]);
    }
    lemma_first_is(once, is_value(v), list.len() as int);
    assert(once.remove(list.len() as int) =~= list);
}

} // verus!
