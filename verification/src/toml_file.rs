//! Settings as text: tables of texts, booleans and lists, in TOML.
use crate::json::{
    array_value, bool_value, copy_value, entries_of, from_value, keys_differ, lemma_lookup_found,
    lemma_same_entries, lookup, object_value, text_value, value_tree, Json, JsonView,
};
use crate::text::{owned, to_chars};
use vstd::prelude::*;

verus! {

/// How often a quote must not stand in a row.
pub const LONG_RUN: usize = 256;

/// What `toml::from_str` makes of a text, or nothing where it fails.
pub uninterp spec fn toml_parsed(text: Seq<char>) -> Option<JsonView>;

/// What `toml::to_string_pretty` writes for a value, or nothing where it fails.
pub uninterp spec fn toml_written(value: JsonView) -> Option<Seq<char>>;

/// From a position on, a character stands so often in a row that a writer which
/// counts in a byte cannot count it.
pub open spec fn long_run(s: Seq<char>, c: char, i: int) -> bool {
    &&& 0 <= i
    &&& i + LONG_RUN <= s.len()
    &&& forall|k: int| i <= k < i + LONG_RUN ==> #[trigger] s[k] == c
}

/// A character nowhere stands too often in a row.
pub open spec fn no_long_run(s: Seq<char>, c: char) -> bool {
    forall|i: int| !#[trigger] long_run(s, c, i)
}

/// No quote stands too often in a row.
pub open spec fn few_quotes(s: Seq<char>) -> bool {
    no_long_run(s, '\'') && no_long_run(s, '"')
}

/// No text in a value, but for keys, has too many quotes in a row.
pub open spec fn short_quote_runs(v: JsonView) -> bool
    decreases v,
{
    match v {
        JsonView::Text(s) => few_quotes(s),
        JsonView::Array(a) => forall|i: int| 0 <= i < a.len() ==> short_quote_runs(#[trigger] a[i]),
        JsonView::Object(o) => forall|i: int|
            0 <= i < o.len() ==> short_quote_runs((#[trigger] o[i]).1),
        _ => true,
    }
}

/// A value made of texts without long runs of quotes, booleans, lists of such texts,
/// and tables of them, with tables in each other to some depth.
pub open spec fn storable(v: JsonView, depth: nat) -> bool
    decreases depth, 0int,
{
    match v {
        JsonView::Bool(_) => true,
        JsonView::Text(s) => few_quotes(s),
        JsonView::Array(a) => forall|i: int|
            0 <= i < a.len() ==> match #[trigger] a[i] {
                JsonView::Text(s) => few_quotes(s),
                _ => false,
            },
        JsonView::Object(o) => depth > 0 && storable_entries(o, (depth - 1) as nat),
        _ => false,
    }
}

/// Entries whose values are storable.
pub open spec fn storable_entries(o: Seq<(Seq<char>, JsonView)>, depth: nat) -> bool
    decreases depth, 1int,
{
    forall|i: int| 0 <= i < o.len() ==> storable((#[trigger] o[i]).1, depth)
}

/// A table that is storable as a file.
pub open spec fn storable_file(v: JsonView) -> bool {
    v is Object && storable(v, 5)
}

/// `toml::from_str` into a `serde_json::Value`: what comes out is a function of
/// the text.
#[verifier::external_body]
fn parse_toml(text: &str) -> (r: Option<serde_json::Value>)
    ensures
        match r {
            Some(v) => toml_parsed(text@) == Some(value_tree(v)),
            None => toml_parsed(text@) is None,
        },
{
    toml::from_str(text).ok()
}

/// `toml::to_string_pretty`: what comes out is a function of the value.  A table
/// of texts, booleans, lists of texts and tables, a few levels deep, is written so
/// that `toml::from_str` reads it back.  The writer counts quotes in a row in a byte,
/// so texts with more of them are left out.
#[verifier::external_body]
fn write_toml(v: &serde_json::Value) -> (r: Option<String>)
    requires
        short_quote_runs(value_tree(*v)),
    ensures
        r.deep_view() == toml_written(value_tree(*v)),
        storable_file(value_tree(*v)) ==> r is Some && toml_parsed(
            r->0@,
        ) == Some(value_tree(*v)),
{
    toml::to_string_pretty(v).ok()
}

/// Reads a TOML text.
pub fn read_toml(text: &str) -> (r: Option<Json>)
    ensures
        match r {
            Some(j) => toml_parsed(text@) == Some(j.tree()),
            None => toml_parsed(text@) is None,
        },
{
    match parse_toml(text) {
        Some(v) => Some(from_value(v)),
        None => None,
    }
}

/// The text of a value; none where a text in it has too many quotes in a row, or
/// where the value cannot be written.
pub open spec fn table_text(v: JsonView) -> Option<Seq<char>> {
    if short_quote_runs(v) {
        toml_written(v)
    } else {
        None
    }
}

/// What is storable has no long runs of quotes.
pub proof fn lemma_storable_is_short(v: JsonView, depth: nat)
    requires
        storable(v, depth),
    ensures
        short_quote_runs(v),
    decreases depth,
{
    match v {
        JsonView::Array(a) => {
            assert forall|i: int| 0 <= i < a.len() implies short_quote_runs(#[trigger] a[i]) by {
                assert(match a[i] {
                    JsonView::Text(s) => few_quotes(s),
                    _ => false,
                });
            }
        },
        JsonView::Object(o) => {
            assert forall|i: int| 0 <= i < o.len() implies short_quote_runs(
                (#[trigger] o[i]).1,
            ) by {
                lemma_storable_is_short(o[i].1, (depth - 1) as nat);
            }
        },
        _ => {},
    }
}

/// A part of a value without long runs of quotes has none either.
pub proof fn lemma_part_is_short(t: JsonView, k: Seq<char>)
    requires
        short_quote_runs(t),
        t.get(k) is Some,
    ensures
        short_quote_runs(t.get(k)->0),
{
    if let JsonView::Object(o) = t {
        let _ = lemma_lookup_found(o, k);
    }
}

fn lacks_long_run(s: &str, c: char) -> (r: bool)
    ensures
        r == no_long_run(s@, c),
{
    let v = to_chars(s);
    let mut n: usize = 0;
    let mut i: usize = 0;
    while i < v.len()
        invariant
            i <= v@.len(),
            v@ == s@,
            n <= i,
            n < LONG_RUN,
            forall|k: int| i - n <= k < i ==> #[trigger] s@[k] == c,
            n < i ==> s@[i - n - 1] != c,
            forall|j: int| j + LONG_RUN <= i ==> !#[trigger] long_run(s@, c, j),
        decreases v@.len() - i,
    {
        if v[i] == c {
            if n + 1 == LONG_RUN {
                assert(long_run(s@, c, i - n));
                return false;
            }
            assert forall|j: int| j + LONG_RUN <= i + 1 implies !#[trigger] long_run(
                s@,
                c,
                j,
            ) by {
                if long_run(s@, c, j) {
                    assert(s@[i - n - 1] == c);
                }
            }
            n = n + 1;
        } else {
            assert forall|j: int| j + LONG_RUN <= i + 1 implies !#[trigger] long_run(
                s@,
                c,
                j,
            ) by {
                if long_run(s@, c, j) {
                    assert(s@[i as int] == c);
                }
            }
            n = 0;
        }
        i = i + 1;
    }
    true
}

fn has_short_runs(v: &Json) -> (r: bool)
    ensures
        r == short_quote_runs(v.tree()),
    decreases v,
{
    match v {
        Json::Text(s) => lacks_long_run(s.as_str(), '\'') && lacks_long_run(s.as_str(), '"'),
        Json::Array(a) => {
            let mut i: usize = 0;
            while i < a.len()
                invariant
                    i <= a@.len(),
                    *v == Json::Array(*a),
                    forall|k: int| 0 <= k < i ==> short_quote_runs((#[trigger] a@[k]).tree()),
                decreases a@.len() - i,
            {
                assert(decreases_to!(*v => a@[i as int]));
                if !has_short_runs(&a[i]) {
                    assert(!short_quote_runs(v.tree()->Array_0[i as int]));
                    return false;
                }
                i = i + 1;
            }
            assert forall|k: int| 0 <= k < v.tree()->Array_0.len() implies short_quote_runs(
                #[trigger] v.tree()->Array_0[k],
            ) by {
                assert(v.tree()->Array_0[k] == a@[k].tree());
            }
            true
        },
        Json::Object(o) => {
            let mut i: usize = 0;
            while i < o.len()
                invariant
                    i <= o@.len(),
                    *v == Json::Object(*o),
                    forall|k: int| 0 <= k < i ==> short_quote_runs((#[trigger] o@[k]).1.tree()),
                decreases o@.len() - i,
            {
                assert(decreases_to!(*v => o@[i as int].1));
                if !has_short_runs(&o[i].1) {
                    assert(!short_quote_runs(v.tree()->Object_0[i as int].1));
                    return false;
                }
                i = i + 1;
            }
            assert forall|k: int| 0 <= k < v.tree()->Object_0.len() implies short_quote_runs(
                (#[trigger] v.tree()->Object_0[k]).1,
            ) by {
                assert(v.tree()->Object_0[k].1 == o@[k].1.tree());
            }
            true
        },
        _ => true,
    }
}

/// Writes a TOML text.
pub fn write_table(v: &serde_json::Value) -> (r: Option<String>)
    ensures
        r.deep_view() == table_text(value_tree(*v)),
        storable_file(value_tree(*v)) ==> r is Some && toml_parsed(
            r->0@,
        ) == Some(value_tree(*v)),
{
    proof {
        if storable_file(value_tree(*v)) {
            lemma_storable_is_short(value_tree(*v), 5);
        }
    }
    if has_short_runs(&from_value(copy_value(v))) {
        write_toml(v)
    } else {
        None
    }
}

// ── building tables ──────────────────────────────────────────────────────────

/// Entries with one more, where there is a value for it.
pub open spec fn puts(o: Seq<(Seq<char>, JsonView)>, key: Seq<char>, v: Option<JsonView>) -> Seq<
    (Seq<char>, JsonView),
> {
    match v {
        Some(v) => o.push((key, v)),
        None => o,
    }
}

/// What a further entry changes: its key is found, unless it was found before.
pub proof fn lemma_lookup_push(
    o: Seq<(Seq<char>, JsonView)>,
    e: (Seq<char>, JsonView),
    k: Seq<char>,
)
    ensures
        lookup(o.push(e), k) == (match lookup(o, k) {
            Some(x) => Some(x),
            None => if k == e.0 {
                Some(e.1)
            } else {
                None
            },
        }),
    decreases o.len(),
{
    let p = o.push(e);
    if o.len() == 0 {
        assert(p.drop_first() =~= Seq::<(Seq<char>, JsonView)>::empty());
        assert(lookup(p.drop_first(), k) is None);
    } else {
        assert(p.drop_first() =~= o.drop_first().push(e));
        lemma_lookup_push(o.drop_first(), e, k);
    }
}

/// A key that was not there is found afterwards, and others as before.
pub proof fn lemma_puts(
    o: Seq<(Seq<char>, JsonView)>,
    key: Seq<char>,
    v: Option<JsonView>,
    depth: nat,
)
    requires
        lookup(o, key) is None,
        keys_differ(o),
    ensures
        forall|k: Seq<char>| #[trigger]
            lookup(puts(o, key, v), k) == (if k == key {
                v
            } else {
                lookup(o, k)
            }),
        keys_differ(puts(o, key, v)),
        storable_entries(o, depth) && (v is Some ==> storable(v->0, depth))
            ==> storable_entries(puts(o, key, v), depth),
{
    let _ = lemma_lookup_found(o, key);
    if let Some(x) = v {
        assert forall|k: Seq<char>| #[trigger]
            lookup(puts(o, key, v), k) == (if k == key {
                v
            } else {
                lookup(o, k)
            }) by {
            lemma_lookup_push(o, (key, x), k);
        }
        let p = puts(o, key, v);
        assert forall|i: int, j: int| 0 <= i < j < p.len() implies (#[trigger] p[i]).0 != (
        #[trigger] p[j]).0 by {
            if j == o.len() {
                assert(o[i].0 != key);
            } else {
                assert(o[i].0 != o[j].0);
            }
        }
    }
}

/// Puts an entry behind others.
pub fn put(o: &mut Vec<(String, serde_json::Value)>, key: &str, v: Option<serde_json::Value>)
    ensures
        entries_of(final(o)@) == puts(
            entries_of(old(o)@),
            key@,
            match v {
                Some(x) => Some(value_tree(x)),
                None => None,
            },
        ),
{
    let ghost before = entries_of(o@);
    if let Some(x) = v {
        o.push((owned(key), x));
        assert(entries_of(o@) =~= before.push((key@, value_tree(x))));
    }
}

/// A text, where there is one.
pub open spec fn opt_text_tree(s: Option<Seq<char>>) -> Option<JsonView> {
    match s {
        Some(s) => Some(JsonView::Text(s)),
        None => None,
    }
}

/// A boolean, where there is one.
pub open spec fn opt_bool_tree(b: Option<bool>) -> Option<JsonView> {
    match b {
        Some(b) => Some(JsonView::Bool(b)),
        None => None,
    }
}

/// A list of texts.
pub open spec fn texts_tree(a: Seq<Seq<char>>) -> JsonView {
    JsonView::Array(a.map_values(|s: Seq<char>| JsonView::Text(s)))
}

/// A list of texts, where there is one.
pub open spec fn opt_texts_tree(a: Option<Seq<Seq<char>>>) -> Option<JsonView> {
    match a {
        Some(a) => Some(texts_tree(a)),
        None => None,
    }
}

/// Puts a text behind other entries, where there is one.
pub fn put_text(o: &mut Vec<(String, serde_json::Value)>, key: &str, s: &Option<String>)
    ensures
        entries_of(final(o)@) == puts(entries_of(old(o)@), key@, opt_text_tree(s.deep_view())),
{
    match s {
        Some(s) => put(o, key, Some(text_value(s.clone()))),
        None => put(o, key, None),
    }
}

/// Puts a boolean behind other entries, where there is one.
pub fn put_bool(o: &mut Vec<(String, serde_json::Value)>, key: &str, b: Option<bool>)
    ensures
        entries_of(final(o)@) == puts(entries_of(old(o)@), key@, opt_bool_tree(b)),
{
    match b {
        Some(b) => put(o, key, Some(bool_value(b))),
        None => put(o, key, None),
    }
}

/// Puts a list of texts behind other entries, where there is one.
pub fn put_texts(o: &mut Vec<(String, serde_json::Value)>, key: &str, a: &Option<Vec<String>>)
    ensures
        entries_of(final(o)@) == puts(entries_of(old(o)@), key@, opt_texts_tree(a.deep_view())),
{
    match a {
        Some(a) => {
            let ghost av = a.deep_view();
            let mut list: Vec<serde_json::Value> = Vec::new();
            let mut i: usize = 0;
            while i < a.len()
                invariant
                    i <= a@.len(),
                    av == a.deep_view(),
                    list@.len() == i,
                    forall|k: int|
                        0 <= k < i ==> value_tree(#[trigger] list@[k]) == JsonView::Text(av[k]),
                decreases a@.len() - i,
            {
                assert(av[i as int] == a@[i as int]@);
                list.push(text_value(a[i].clone()));
                i = i + 1;
            }
            assert(list@.map_values(|x: serde_json::Value| value_tree(x)) =~= av.map_values(
                |s: Seq<char>| JsonView::Text(s),
            ));
            put(o, key, Some(array_value(list)));
        },
        None => put(o, key, None),
    }
}

/// A table of entries.
pub fn table(o: Vec<(String, serde_json::Value)>) -> (r: serde_json::Value)
    requires
        keys_differ(entries_of(o@)),
    ensures
        value_tree(r) is Object,
        forall|k: Seq<char>| #[trigger] value_tree(r).get(k) == lookup(entries_of(o@), k),
        forall|d: nat|
            storable_entries(entries_of(o@), d) ==> #[trigger] storable(value_tree(r), d + 1),
{
    let ghost a = entries_of(o@);
    let r = object_value(o);
    proof {
        let b = value_tree(r)->Object_0;
        lemma_same_entries(a, b);
        assert forall|d: nat| storable_entries(a, d) implies #[trigger] storable(
            value_tree(r),
            d + 1,
        ) by {
            assert forall|i: int| 0 <= i < b.len() implies storable(
                (#[trigger] b[i]).1,
                d,
            ) by {
                assert(a.contains(b[i]));
            }
            assert(storable_entries(b, d));
        }
    }
    r
}

// ── reading tables ───────────────────────────────────────────────────────────

/// A field of a record, which is written as a table, or as a list of its fields
/// in order.
pub open spec fn part(t: JsonView, key: Seq<char>, place: int) -> Option<JsonView> {
    match t {
        JsonView::Array(a) => if place < a.len() {
            Some(a[place])
        } else {
            None
        },
        _ => t.get(key),
    }
}

/// A text that may be missing; nothing where something else stands there.
pub open spec fn text_field(t: JsonView, key: Seq<char>, place: int) -> Option<Option<Seq<char>>> {
    match part(t, key, place) {
        None => Some(None),
        Some(JsonView::Text(s)) => Some(Some(s)),
        Some(_) => None,
    }
}

/// A boolean that may be missing.
pub open spec fn bool_field(t: JsonView, key: Seq<char>, place: int) -> Option<Option<bool>> {
    match part(t, key, place) {
        None => Some(None),
        Some(JsonView::Bool(b)) => Some(Some(b)),
        Some(_) => None,
    }
}

/// The texts of a list; nothing where something else stands in it.
pub open spec fn texts_of(a: Seq<JsonView>) -> Option<Seq<Seq<char>>> {
    if forall|i: int| 0 <= i < a.len() ==> (#[trigger] a[i]) is Text {
        Some(a.map_values(|v: JsonView| v->Text_0))
    } else {
        None
    }
}

/// A list of texts that may be missing.
pub open spec fn texts_field(t: JsonView, key: Seq<char>, place: int) -> Option<
    Option<Seq<Seq<char>>>,
> {
    match part(t, key, place) {
        None => Some(None),
        Some(JsonView::Array(a)) => match texts_of(a) {
            Some(s) => Some(Some(s)),
            None => None,
        },
        Some(_) => None,
    }
}

/// Reads a field of a record.
pub fn read_part<'a>(t: &'a Json, key: &str, place: usize) -> (r: Option<&'a Json>)
    ensures
        match r {
            Some(j) => part(t.tree(), key@, place as int) == Some(j.tree()),
            None => part(t.tree(), key@, place as int) is None,
        },
{
    match t {
        Json::Array(a) => {
            assert(t.tree()->Array_0 =~= a.deep_view());
            if place < a.len() {
                assert(a.deep_view()[place as int] == a@[place as int].tree());
                Some(&a[place])
            } else {
                None
            }
        },
        _ => t.get(key),
    }
}

/// Reads a text that may be missing.
pub fn read_text(t: &Json, key: &str, place: usize) -> (r: Option<Option<String>>)
    ensures
        r.deep_view() == text_field(t.tree(), key@, place as int),
{
    match read_part(t, key, place) {
        None => Some(None),
        Some(Json::Text(s)) => Some(Some(s.clone())),
        Some(_) => None,
    }
}

/// Reads a boolean that may be missing.
pub fn read_bool(t: &Json, key: &str, place: usize) -> (r: Option<Option<bool>>)
    ensures
        r == bool_field(t.tree(), key@, place as int),
{
    match read_part(t, key, place) {
        None => Some(None),
        Some(Json::Bool(b)) => Some(Some(*b)),
        Some(_) => None,
    }
}

fn read_text_list(a: &Vec<Json>) -> (r: Option<Vec<String>>)
    ensures
        r.deep_view() == texts_of(a.deep_view()),
{
    let ghost av = a.deep_view();
    let mut out: Vec<String> = Vec::new();
    let mut i: usize = 0;
    while i < a.len()
        invariant
            i <= a@.len(),
            av == a.deep_view(),
            out@.len() == i,
            forall|k: int| 0 <= k < i ==> #[trigger] av[k] == JsonView::Text(out@[k]@),
        decreases a@.len() - i,
    {
        assert(av[i as int] == a@[i as int].tree());
        match &a[i] {
            Json::Text(s) => {
                out.push(s.clone());
            },
            _ => {
                assert(!(av[i as int] is Text));
                return None;
            },
        }
        i = i + 1;
    }
    assert(out.deep_view() =~= av.map_values(|v: JsonView| v->Text_0));
    Some(out)
}

/// Reads a list of texts that may be missing.
pub fn read_texts(t: &Json, key: &str, place: usize) -> (r: Option<Option<Vec<String>>>)
    ensures
        r.deep_view() == texts_field(t.tree(), key@, place as int),
{
    match read_part(t, key, place) {
        None => Some(None),
        Some(Json::Array(a)) => {
            assert(Json::Array(*a).tree()->Array_0 =~= a.deep_view());
            match read_text_list(a) {
                Some(list) => Some(Some(list)),
                None => None,
            }
        },
        Some(_) => None,
    }
}

/// A list of texts is read back as it was put.
pub proof fn lemma_texts_read_back(a: Seq<Seq<char>>)
    ensures
        texts_of(texts_tree(a)->Array_0) == Some(a),
{
    let list = texts_tree(a)->Array_0;
    assert(list.map_values(|v: JsonView| v->Text_0) =~= a);
}

} // verus!
