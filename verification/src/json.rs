//! JSON values, as far as the protocol leaves them untyped.
use crate::text::same;
use vstd::prelude::*;

verus! {

/// A JSON value.  A number keeps its text, and its value where that is a
/// natural number.
#[derive(Debug, PartialEq, Eq)]
pub enum Json {
    Null,
    Bool(bool),
    Number { unsigned: Option<u64>, text: String },
    Text(String),
    Array(Vec<Json>),
    Object(Vec<(String, Json)>),
}

#[verifier::ext_equal]
pub enum JsonView {
    Null,
    Bool(bool),
    Number { unsigned: Option<u64>, text: Seq<char> },
    Text(Seq<char>),
    Array(Seq<JsonView>),
    Object(Seq<(Seq<char>, JsonView)>),
}

impl Json {
    /// The model of a JSON value.
    pub open spec fn tree(&self) -> JsonView
        decreases self,
    {
        match self {
            Json::Null => JsonView::Null,
            Json::Bool(b) => JsonView::Bool(*b),
            Json::Number { unsigned, text } => JsonView::Number {
                unsigned: *unsigned,
                text: text@,
            },
            Json::Text(s) => JsonView::Text(s@),
            Json::Array(a) => JsonView::Array(
                Seq::new(
                    a@.len(),
                    |i: int|
                        if 0 <= i < a@.len() {
                            a@[i].tree()
                        } else {
                            JsonView::Null
                        },
                ),
            ),
            Json::Object(o) => JsonView::Object(
                Seq::new(
                    o@.len(),
                    |i: int|
                        if 0 <= i < o@.len() {
                            (o@[i].0@, o@[i].1.tree())
                        } else {
                            (Seq::empty(), JsonView::Null)
                        },
                ),
            ),
        }
    }
}

impl DeepView for Json {
    type V = JsonView;

    open spec fn deep_view(&self) -> JsonView {
        self.tree()
    }
}

// ── reading ──────────────────────────────────────────────────────────────────

/// The value of the first entry with the given key.
pub open spec fn lookup(o: Seq<(Seq<char>, JsonView)>, key: Seq<char>) -> Option<JsonView>
    decreases o.len(),
{
    if o.len() == 0 {
        None
    } else if o[0].0 == key {
        Some(o[0].1)
    } else {
        lookup(o.drop_first(), key)
    }
}

impl JsonView {
    /// The value of a key, where this is an object that has it.
    pub open spec fn get(self, key: Seq<char>) -> Option<JsonView> {
        match self {
            JsonView::Object(o) => lookup(o, key),
            _ => None,
        }
    }

    /// The text, where this is a string.
    pub open spec fn text(self) -> Option<Seq<char>> {
        match self {
            JsonView::Text(s) => Some(s),
            _ => None,
        }
    }

    /// The items, where this is an array.
    pub open spec fn items(self) -> Option<Seq<JsonView>> {
        match self {
            JsonView::Array(a) => Some(a),
            _ => None,
        }
    }

    /// The value, where this is a natural number that fits 64 bits.
    pub open spec fn natural(self) -> Option<u64> {
        match self {
            JsonView::Number { unsigned, .. } => unsigned,
            _ => None,
        }
    }

    /// The value, where this is a boolean.
    pub open spec fn boolean(self) -> Option<bool> {
        match self {
            JsonView::Bool(b) => Some(b),
            _ => None,
        }
    }

    /// The text under a key, or nothing.
    pub open spec fn text_at(self, key: Seq<char>) -> Option<Seq<char>> {
        match self.get(key) {
            Some(v) => v.text(),
            None => None,
        }
    }

    /// The text under a key, or the empty text.
    pub open spec fn text_or_empty(self, key: Seq<char>) -> Seq<char> {
        match self.text_at(key) {
            Some(s) => s,
            None => Seq::empty(),
        }
    }

    /// The items under a key.
    pub open spec fn items_at(self, key: Seq<char>) -> Option<Seq<JsonView>> {
        match self.get(key) {
            Some(v) => v.items(),
            None => None,
        }
    }

    /// The natural number under a key.
    pub open spec fn natural_at(self, key: Seq<char>) -> Option<u64> {
        match self.get(key) {
            Some(v) => v.natural(),
            None => None,
        }
    }
}

proof fn lemma_lookup_first(o: Seq<(Seq<char>, JsonView)>, key: Seq<char>, i: int)
    requires
        0 <= i < o.len(),
        o[i].0 == key,
        forall|k: int| 0 <= k < i ==> #[trigger] o[k].0 != key,
    ensures
        lookup(o, key) == Some(o[i].1),
    decreases i,
{
    if i > 0 {
        let d = o.drop_first();
        assert(o[0].0 != key);
        assert forall|k: int| 0 <= k < i - 1 implies #[trigger] d[k].0 != key by {
            assert(o[k + 1].0 != key);
        }
        lemma_lookup_first(d, key, i - 1);
    }
}

proof fn lemma_lookup_none(o: Seq<(Seq<char>, JsonView)>, key: Seq<char>)
    requires
        forall|k: int| 0 <= k < o.len() ==> #[trigger] o[k].0 != key,
    ensures
        lookup(o, key) is None,
    decreases o.len(),
{
    if o.len() > 0 {
        let d = o.drop_first();
        assert(o[0].0 != key);
        assert forall|k: int| 0 <= k < d.len() implies #[trigger] d[k].0 != key by {
            assert(o[k + 1].0 != key);
        }
        lemma_lookup_none(d, key);
    }
}

impl Json {
    /// The value of a key, where this is an object that has it.
    pub fn get(&self, key: &str) -> (r: Option<&Json>)
        ensures
            match r {
                Some(v) => self.tree().get(key@) == Some(v.tree()),
                None => self.tree().get(key@) is None,
            },
    {
        match self {
            Json::Object(o) => {
                let ghost ov = self.tree()->Object_0;
                let mut i: usize = 0;
                while i < o.len()
                    invariant
                        i <= o@.len(),
                        self.tree() == JsonView::Object(ov),
                        ov.len() == o@.len(),
                        forall|k: int|
                            0 <= k < o@.len() ==> #[trigger] ov[k] == (o@[k].0@, o@[k].1.tree()),
                        forall|k: int| 0 <= k < i ==> #[trigger] ov[k].0 != key@,
                    decreases o@.len() - i,
                {
                    assert(ov[i as int].0 == o@[i as int].0@);
                    if same(o[i].0.as_str(), key) {
                        proof {
                            lemma_lookup_first(ov, key@, i as int);
                        }
                        return Some(&o[i].1);
                    }
                    i = i + 1;
                }
                proof {
                    lemma_lookup_none(ov, key@);
                }
                None
            },
            _ => None,
        }
    }

    /// The text, where this is a string.
    pub fn as_str(&self) -> (r: Option<&String>)
        ensures
            match r {
                Some(s) => self.tree().text() == Some(s@),
                None => self.tree().text() is None,
            },
    {
        match self {
            Json::Text(s) => Some(s),
            _ => None,
        }
    }

    /// The items, where this is an array.
    pub fn as_array(&self) -> (r: Option<&Vec<Json>>)
        ensures
            match r {
                Some(a) => self.tree().items() == Some(a.deep_view()),
                None => self.tree().items() is None,
            },
    {
        match self {
            Json::Array(a) => {
                assert(self.tree()->Array_0 =~= a.deep_view());
                Some(a)
            },
            _ => None,
        }
    }

    /// The value, where this is a natural number that fits 64 bits.
    pub fn as_u64(&self) -> (r: Option<u64>)
        ensures
            r == self.tree().natural(),
    {
        match self {
            Json::Number { unsigned, .. } => *unsigned,
            _ => None,
        }
    }

    /// The value, where this is a boolean.
    pub fn as_bool(&self) -> (r: Option<bool>)
        ensures
            r == self.tree().boolean(),
    {
        match self {
            Json::Bool(b) => Some(*b),
            _ => None,
        }
    }

    /// The text under a key.
    pub fn str_at(&self, key: &str) -> (r: Option<&String>)
        ensures
            match r {
                Some(s) => self.tree().text_at(key@) == Some(s@),
                None => self.tree().text_at(key@) is None,
            },
    {
        match self.get(key) {
            Some(v) => v.as_str(),
            None => None,
        }
    }

    /// The text under a key, or the empty text.
    pub fn str_or_empty(&self, key: &str) -> (r: String)
        ensures
            r@ == self.tree().text_or_empty(key@),
    {
        match self.str_at(key) {
            Some(s) => s.clone(),
            None => String::new(),
        }
    }

    /// The items under a key.
    pub fn array_at(&self, key: &str) -> (r: Option<&Vec<Json>>)
        ensures
            match r {
                Some(a) => self.tree().items_at(key@) == Some(a.deep_view()),
                None => self.tree().items_at(key@) is None,
            },
    {
        match self.get(key) {
            Some(v) => v.as_array(),
            None => None,
        }
    }

    /// The natural number under a key.
    pub fn u64_at(&self, key: &str) -> (r: Option<u64>)
        ensures
            r == self.tree().natural_at(key@),
    {
        match self.get(key) {
            Some(v) => v.as_u64(),
            None => None,
        }
    }
}

impl Clone for Json {
    fn clone(&self) -> (r: Self)
        ensures
            r.tree() == self.tree(),
        decreases self,
    {
        match self {
            Json::Null => Json::Null,
            Json::Bool(b) => Json::Bool(*b),
            Json::Number { unsigned, text } => Json::Number {
                unsigned: *unsigned,
                text: text.clone(),
            },
            Json::Text(s) => Json::Text(s.clone()),
            Json::Array(a) => {
                let mut out: Vec<Json> = Vec::new();
                let mut i: usize = 0;
                while i < a.len()
                    invariant
                        i <= a@.len(),
                        *self == Json::Array(*a),
                        out@.len() == i,
                        forall|k: int| 0 <= k < i ==> (#[trigger] out@[k]).tree() == a@[k].tree(),
                    decreases a@.len() - i,
                {
                    assert(decreases_to!(self->Array_0@ => self->Array_0@[i as int]));
                    let x = (&a[i]).clone();
                    out.push(x);
                    i = i + 1;
                }
                let r = Json::Array(out);
                assert(r.tree()->Array_0 =~= self.tree()->Array_0);
                r
            },
            Json::Object(o) => {
                let mut out: Vec<(String, Json)> = Vec::new();
                let mut i: usize = 0;
                while i < o.len()
                    invariant
                        i <= o@.len(),
                        *self == Json::Object(*o),
                        out@.len() == i,
                        forall|k: int|
                            0 <= k < i ==> (#[trigger] out@[k]).0@ == o@[k].0@ && out@[k].1.tree()
                                == o@[k].1.tree(),
                    decreases o@.len() - i,
                {
                    assert(decreases_to!(self->Object_0@ => self->Object_0@[i as int]));
                    let x = (&o[i].1).clone();
                    out.push((o[i].0.clone(), x));
                    i = i + 1;
                }
                let r = Json::Object(out);
                assert(r.tree()->Object_0 =~= self.tree()->Object_0);
                r
            },
        }
    }
}

/// A floating-point zero, of either sign.
pub open spec fn real_zero(text: Seq<char>) -> bool {
    text == "0.0"@ || text == "-0.0"@
}

/// Whether two JSON values are equal: zeros of either sign are.
pub open spec fn equal(a: JsonView, b: JsonView) -> bool
    decreases a,
{
    match (a, b) {
        (JsonView::Null, JsonView::Null) => true,
        (JsonView::Bool(x), JsonView::Bool(y)) => x == y,
        (
            JsonView::Number { unsigned: u, text: s },
            JsonView::Number { unsigned: v, text: t },
        ) => u == v && (s == t || real_zero(s) && real_zero(t)),
        (JsonView::Text(s), JsonView::Text(t)) => s == t,
        (JsonView::Array(x), JsonView::Array(y)) => x.len() == y.len() && forall|i: int|
            0 <= i < x.len() ==> equal(#[trigger] x[i], y[i]),
        (JsonView::Object(x), JsonView::Object(y)) => x.len() == y.len() && forall|i: int|
            0 <= i < x.len() ==> (#[trigger] x[i]).0 == y[i].0 && equal(x[i].1, y[i].1),
        _ => false,
    }
}

/// A value equals itself.
pub proof fn lemma_equal_to_itself(a: JsonView)
    ensures
        equal(a, a),
    decreases a,
{
    match a {
        JsonView::Array(x) => {
            assert forall|i: int| 0 <= i < x.len() implies equal(#[trigger] x[i], x[i]) by {
                lemma_equal_to_itself(x[i]);
            }
        },
        JsonView::Object(x) => {
            assert forall|i: int| 0 <= i < x.len() implies equal((#[trigger] x[i]).1, x[i].1) by {
                lemma_equal_to_itself(x[i].1);
            }
        },
        _ => {},
    }
}

fn is_real_zero(text: &str) -> (r: bool)
    ensures
        r == real_zero(text@),
{
    same(text, "0.0") || same(text, "-0.0")
}

/// Whether two JSON values are equal.
pub fn same_json(a: &Json, b: &Json) -> (r: bool)
    ensures
        r == equal(a.tree(), b.tree()),
    decreases a,
{
    match (a, b) {
        (Json::Null, Json::Null) => true,
        (Json::Bool(x), Json::Bool(y)) => *x == *y,
        (Json::Number { unsigned: u, text: s }, Json::Number { unsigned: v, text: t }) => {
            same_natural(u, v) && (same(s.as_str(), t.as_str()) || is_real_zero(s.as_str())
                && is_real_zero(t.as_str()))
        },
        (Json::Text(s), Json::Text(t)) => same(s.as_str(), t.as_str()),
        (Json::Array(x), Json::Array(y)) => {
            if x.len() != y.len() {
                return false;
            }
            let ghost xv = a.tree()->Array_0;
            let ghost yv = b.tree()->Array_0;
            let mut i: usize = 0;
            while i < x.len()
                invariant
                    i <= x@.len(),
                    x@.len() == y@.len(),
                    *a == Json::Array(*x),
                    *b == Json::Array(*y),
                    xv == a.tree()->Array_0,
                    yv == b.tree()->Array_0,
                    forall|k: int| 0 <= k < i ==> equal(#[trigger] xv[k], yv[k]),
                decreases x@.len() - i,
            {
                assert(decreases_to!(*a => x@[i as int]));
                assert(xv[i as int] == x@[i as int].tree());
                assert(yv[i as int] == y@[i as int].tree());
                if !same_json(&x[i], &y[i]) {
                    return false;
                }
                i = i + 1;
            }
            true
        },
        (Json::Object(x), Json::Object(y)) => {
            if x.len() != y.len() {
                return false;
            }
            let ghost xv = a.tree()->Object_0;
            let ghost yv = b.tree()->Object_0;
            let mut i: usize = 0;
            while i < x.len()
                invariant
                    i <= x@.len(),
                    x@.len() == y@.len(),
                    *a == Json::Object(*x),
                    *b == Json::Object(*y),
                    xv == a.tree()->Object_0,
                    yv == b.tree()->Object_0,
                    forall|k: int|
                        0 <= k < i ==> (#[trigger] xv[k]).0 == yv[k].0 && equal(xv[k].1, yv[k].1),
                decreases x@.len() - i,
            {
                assert(decreases_to!(*a => x@[i as int].1));
                assert(xv[i as int] == (x@[i as int].0@, x@[i as int].1.tree()));
                assert(yv[i as int] == (y@[i as int].0@, y@[i as int].1.tree()));
                if !same(x[i].0.as_str(), y[i].0.as_str()) || !same_json(&x[i].1, &y[i].1) {
                    return false;
                }
                i = i + 1;
            }
            true
        },
        _ => false,
    }
}

fn same_natural(a: &Option<u64>, b: &Option<u64>) -> (r: bool)
    ensures
        r == (*a == *b),
{
    match (a, b) {
        (None, None) => true,
        (Some(x), Some(y)) => *x == *y,
        _ => false,
    }
}

// ── parsing ──────────────────────────────────────────────────────────────────

#[verifier::external_type_specification]
#[verifier::external_body]
pub struct ExValue(serde_json::Value);

/// What a `serde_json::Value` holds.
pub uninterp spec fn value_tree(v: serde_json::Value) -> JsonView;

/// What `serde_json::from_str` makes of a text, or nothing where it fails.
pub uninterp spec fn parsed(text: Seq<char>) -> Option<JsonView>;

/// One level of a `serde_json::Value`.
enum Level {
    Null,
    Bool(bool),
    Number(Option<u64>, String),
    Text(String),
    Array(Vec<serde_json::Value>),
    Object(Vec<(String, serde_json::Value)>),
}

/// `serde_json::from_str` into a `serde_json::Value`: what comes out is a
/// function of the text.
#[verifier::external_body]
fn parse_value(text: &str) -> (r: Option<serde_json::Value>)
    ensures
        match r {
            Some(v) => parsed(text@) == Some(value_tree(v)),
            None => parsed(text@) is None,
        },
{
    serde_json::from_str(text).ok()
}

/// Tells the variants of `serde_json::Value` apart and moves their fields out;
/// of a number, what `Number::as_u64` and its text give, of an object, its
/// entries in the order in which `serde_json::Map` hands them out.
#[verifier::external_body]
fn level_of(v: serde_json::Value) -> (r: Level)
    ensures
        value_tree(v) == (match r {
            Level::Null => JsonView::Null,
            Level::Bool(b) => JsonView::Bool(b),
            Level::Number(unsigned, text) => JsonView::Number { unsigned, text: text@ },
            Level::Text(s) => JsonView::Text(s@),
            Level::Array(a) => JsonView::Array(
                a@.map_values(|x: serde_json::Value| value_tree(x)),
            ),
            Level::Object(o) => JsonView::Object(
                o@.map_values(|x: (String, serde_json::Value)| (x.0@, value_tree(x.1))),
            ),
        }),
{
    match v {
        serde_json::Value::Null => Level::Null,
        serde_json::Value::Bool(b) => Level::Bool(b),
        serde_json::Value::Number(n) => Level::Number(n.as_u64(), n.to_string()),
        serde_json::Value::String(s) => Level::Text(s),
        serde_json::Value::Array(a) => Level::Array(a),
        serde_json::Value::Object(o) => Level::Object(o.into_iter().collect()),
    }
}

/// The library's form of a `serde_json::Value`.
pub fn from_value(v: serde_json::Value) -> (r: Json)
    ensures
        r.tree() == value_tree(v),
    decreases value_tree(v),
{
    let ghost t = value_tree(v);
    match level_of(v) {
        Level::Null => Json::Null,
        Level::Bool(b) => Json::Bool(b),
        Level::Number(unsigned, text) => Json::Number { unsigned, text },
        Level::Text(s) => Json::Text(s),
        Level::Array(a) => {
            let ghost all = a@;
            let mut rest = a;
            let mut out: Vec<Json> = Vec::new();
            let n: usize = rest.len();
            let mut i: usize = n;
            while i > 0
                invariant
                    i <= n,
                    n == all.len(),
                    rest@ == all.take(i as int),
                    out@.len() == n - i,
                    t == value_tree(v),
                    t == JsonView::Array(all.map_values(|x: serde_json::Value| value_tree(x))),
                    forall|k: int|
                        0 <= k < n - i ==> (#[trigger] out@[k]).tree() == value_tree(
                            all[n - 1 - k],
                        ),
                decreases i,
            {
                let x = rest.pop().unwrap();
                proof {
                    assert(x == all[i - 1]);
                    assert(t->Array_0[i - 1] == value_tree(x));
                    assert(decreases_to!(t => t->Array_0[i - 1]));
                    assert(rest@ =~= all.take(i - 1));
                }
                out.push(from_value(x));
                i = i - 1;
            }
            let items = reversed(out);
            let r = Json::Array(items);
            assert(r.tree()->Array_0 =~= t->Array_0);
            r
        },
        Level::Object(o) => {
            let ghost all = o@;
            let mut rest = o;
            let mut out: Vec<(String, Json)> = Vec::new();
            let n: usize = rest.len();
            let mut i: usize = n;
            while i > 0
                invariant
                    i <= n,
                    n == all.len(),
                    rest@ == all.take(i as int),
                    out@.len() == n - i,
                    t == value_tree(v),
                    t == JsonView::Object(
                        all.map_values(|x: (String, serde_json::Value)| (x.0@, value_tree(x.1))),
                    ),
                    forall|k: int|
                        0 <= k < n - i ==> (#[trigger] out@[k]).0@ == all[n - 1 - k].0@
                            && out@[k].1.tree() == value_tree(all[n - 1 - k].1),
                decreases i,
            {
                let x = rest.pop().unwrap();
                proof {
                    assert(x == all[i - 1]);
                    assert(t->Object_0[i - 1].1 == value_tree(x.1));
                    assert(decreases_to!(t => t->Object_0[i - 1].1));
                    assert(rest@ =~= all.take(i - 1));
                }
                out.push((x.0, from_value(x.1)));
                i = i - 1;
            }
            let entries = reversed(out);
            let r = Json::Object(entries);
            assert(r.tree()->Object_0 =~= t->Object_0);
            r
        },
    }
}

/// The items in the opposite order.
pub fn reversed<T>(v: Vec<T>) -> (r: Vec<T>)
    ensures
        r@ == v@.reverse(),
{
    let ghost all = v@;
    let mut rest = v;
    let mut out: Vec<T> = Vec::new();
    let n: usize = rest.len();
    let mut i: usize = n;
    while i > 0
        invariant
            i <= n,
            n == all.len(),
            rest@ == all.take(i as int),
            out@.len() == n - i,
            forall|k: int| 0 <= k < n - i ==> (#[trigger] out@[k]) == all[n - 1 - k],
        decreases i,
    {
        let x = rest.pop().unwrap();
        assert(rest@ =~= all.take(i - 1));
        out.push(x);
        i = i - 1;
    }
    assert(out@ =~= all.reverse());
    out
}

/// Parses a JSON text.
pub fn parse(text: &str) -> (r: Option<Json>)
    ensures
        match r {
            Some(j) => parsed(text@) == Some(j.tree()),
            None => parsed(text@) is None,
        },
{
    match parse_value(text) {
        Some(v) => Some(from_value(v)),
        None => None,
    }
}

// ── building ─────────────────────────────────────────────────────────────────

/// Entries as keys and trees.
pub open spec fn entries_of(o: Seq<(String, serde_json::Value)>) -> Seq<(Seq<char>, JsonView)> {
    o.map_values(|x: (String, serde_json::Value)| (x.0@, value_tree(x.1)))
}

/// No key stands twice.
pub open spec fn keys_differ(o: Seq<(Seq<char>, JsonView)>) -> bool {
    forall|i: int, j: int| 0 <= i < j < o.len() ==> (#[trigger] o[i]).0 != (#[trigger] o[j]).0
}

/// `serde_json::Value`'s `clone`: a value that holds the same.
#[verifier::external_body]
pub(crate) fn copy_value(v: &serde_json::Value) -> (r: serde_json::Value)
    ensures
        value_tree(r) == value_tree(*v),
{
    v.clone()
}

/// A string as a `serde_json::Value`.
#[verifier::external_body]
pub(crate) fn text_value(s: String) -> (r: serde_json::Value)
    ensures
        value_tree(r) == JsonView::Text(s@),
{
    serde_json::Value::String(s)
}

/// A boolean as a `serde_json::Value`.
#[verifier::external_body]
pub(crate) fn bool_value(b: bool) -> (r: serde_json::Value)
    ensures
        value_tree(r) == JsonView::Bool(b),
{
    serde_json::Value::Bool(b)
}

/// A list as a `serde_json::Value`.
#[verifier::external_body]
pub(crate) fn array_value(a: Vec<serde_json::Value>) -> (r: serde_json::Value)
    ensures
        value_tree(r) == JsonView::Array(a@.map_values(|x: serde_json::Value| value_tree(x))),
{
    serde_json::Value::Array(a)
}

/// Entries as a `serde_json::Value`: an object that has the same entries, in
/// the order in which `serde_json::Map` keeps them.
#[verifier::external_body]
pub(crate) fn object_value(o: Vec<(String, serde_json::Value)>) -> (r: serde_json::Value)
    requires
        keys_differ(entries_of(o@)),
    ensures
        match value_tree(r) {
            JsonView::Object(e) => e.to_multiset() == entries_of(o@).to_multiset(),
            _ => false,
        },
{
    serde_json::Value::Object(o.into_iter().collect())
}

/// Where no key stands twice, every entry is found under its key.
pub proof fn lemma_lookup_entry(o: Seq<(Seq<char>, JsonView)>, i: int)
    requires
        keys_differ(o),
        0 <= i < o.len(),
    ensures
        lookup(o, o[i].0) == Some(o[i].1),
{
    assert forall|k: int| 0 <= k < i implies #[trigger] o[k].0 != o[i].0 by {}
    lemma_lookup_first(o, o[i].0, i);
}

/// What is found is an entry.
pub proof fn lemma_lookup_found(o: Seq<(Seq<char>, JsonView)>, key: Seq<char>) -> (i: int)
    ensures
        match lookup(o, key) {
            Some(v) => 0 <= i < o.len() && o[i] == (key, v),
            None => forall|k: int| 0 <= k < o.len() ==> (#[trigger] o[k]).0 != key,
        },
    decreases o.len(),
{
    if o.len() == 0 {
        0
    } else if o[0].0 == key {
        0
    } else {
        let d = o.drop_first();
        let j = lemma_lookup_found(d, key);
        if lookup(d, key) is None {
            assert forall|k: int| 0 <= k < o.len() implies (#[trigger] o[k]).0 != key by {
                if k > 0 {
                    assert(d[k - 1].0 != key);
                }
            }
        }
        j + 1
    }
}

/// Objects with the same entries say the same of every key.
pub proof fn lemma_same_entries(a: Seq<(Seq<char>, JsonView)>, b: Seq<(Seq<char>, JsonView)>)
    requires
        keys_differ(a),
        a.to_multiset() == b.to_multiset(),
    ensures
        forall|k: Seq<char>| #[trigger] lookup(b, k) == lookup(a, k),
        forall|i: int| 0 <= i < b.len() ==> a.contains(#[trigger] b[i]),
        b.len() == a.len(),
{
    broadcast use vstd::seq_lib::group_to_multiset_ensures;
    assert(a.len() == a.to_multiset().len() && b.len() == b.to_multiset().len());
    assert forall|i: int| 0 <= i < b.len() implies a.contains(#[trigger] b[i]) by {
        assert(b.contains(b[i]));
        assert(b.to_multiset().count(b[i]) > 0);
    }
    assert forall|k: Seq<char>| #[trigger] lookup(b, k) == lookup(a, k) by {
        let i = lemma_lookup_found(b, k);
        let j = lemma_lookup_found(a, k);
        if lookup(b, k) is Some {
            let m = a.index_of(b[i]);
            assert(a.contains(b[i]));
            lemma_lookup_entry(a, m);
        } else if lookup(a, k) is Some {
            assert(a.contains(a[j]));
            assert(a.to_multiset().count(a[j]) > 0);
            assert(b.contains(a[j]));
            let m = b.index_of(a[j]);
            assert(b[m].0 == k);
        }
    }
}

} // verus!
