//! The session cache: which model and effort each session used in each mode.
use crate::app::{App, AppView, CachedModeState, CachedModeStateView};
use crate::config::{join_or_here, lemma_shallow, Storage, StorageView};
use crate::json::{
    entries_of, keys_differ, lookup, text_value, value_tree, Json, JsonView,
};
use crate::strmap::StrMap;
use crate::text::{owned, same};
use crate::toml_file::{
    few_quotes, lemma_lookup_push, lemma_part_is_short, lemma_puts, part, put, read_part, read_toml,
    short_quote_runs, storable, storable_entries, table, table_text, toml_parsed, write_table,
};
use vstd::prelude::*;

verus! {

// ── one mode ─────────────────────────────────────────────────────────────────

/// Which model was used, and at what effort.
#[derive(Debug, PartialEq, Eq)]
pub struct ModeState {
    /// `"provider/model"`.
    pub model: String,
    /// `"auto"`, `"low"`, `"medium"`, `"high"` or `"max"`.
    pub effort: String,
}

#[verifier::ext_equal]
pub struct ModeStateView {
    pub model: Seq<char>,
    pub effort: Seq<char>,
}

impl DeepView for ModeState {
    type V = ModeStateView;

    open spec fn deep_view(&self) -> ModeStateView {
        ModeStateView { model: self.model@, effort: self.effort@ }
    }
}

impl ModeStateView {
    /// Neither text has too many quotes in a row.
    pub open spec fn few_quotes(self) -> bool {
        few_quotes(self.model) && few_quotes(self.effort)
    }

    /// Whether a table says this.
    pub open spec fn is_table(self, t: JsonView) -> bool {
        &&& t is Object
        &&& forall|k: Seq<char>| #[trigger] t.get(k) == self.entry(k)
    }

    /// What stands under a key.
    pub open spec fn entry(self, k: Seq<char>) -> Option<JsonView> {
        if k == "model"@ {
            Some(JsonView::Text(self.model))
        } else if k == "effort"@ {
            Some(JsonView::Text(self.effort))
        } else {
            None
        }
    }
}

/// What a record says of a mode; nothing where a field is missing.
pub open spec fn mode_state_of(t: JsonView) -> Option<ModeStateView> {
    if t is Object || t is Array {
        match (part(t, "model"@, 0), part(t, "effort"@, 1)) {
            (Some(JsonView::Text(model)), Some(JsonView::Text(effort))) => Some(
                ModeStateView { model, effort },
            ),
            _ => None,
        }
    } else {
        None
    }
}

proof fn lemma_mode_keys()
    ensures
        "model"@ != "effort"@,
{
    reveal_strlit("model");
    reveal_strlit("effort");
    assert("model"@.len() != "effort"@.len());
}

fn read_mode_state(t: &Json) -> (r: Option<ModeState>)
    ensures
        r.deep_view() == mode_state_of(t.tree()),
{
    match t {
        Json::Object(_) => {},
        Json::Array(_) => {},
        _ => {
            return None;
        },
    }
    match (read_part(t, "model", 0), read_part(t, "effort", 1)) {
        (Some(Json::Text(model)), Some(Json::Text(effort))) => Some(
            ModeState { model: model.clone(), effort: effort.clone() },
        ),
        _ => None,
    }
}

fn mode_table(m: &ModeState) -> (r: serde_json::Value)
    ensures
        m.deep_view().is_table(value_tree(r)),
        m.deep_view().few_quotes() ==> storable(value_tree(r), 1),
{
    let ghost v = m.deep_view();
    let mut o: Vec<(String, serde_json::Value)> = Vec::new();
    let ghost o0 = entries_of(o@);
    put(&mut o, "model", Some(text_value(m.model.clone())));
    let ghost o1 = entries_of(o@);
    put(&mut o, "effort", Some(text_value(m.effort.clone())));
    proof {
        lemma_mode_keys();
        assert(o0 =~= Seq::empty());
        assert(forall|k: Seq<char>| #[trigger] lookup(o0, k) is None);
        lemma_puts(o0, "model"@, Some(JsonView::Text(v.model)), 0);
        lemma_puts(o1, "effort"@, Some(JsonView::Text(v.effort)), 0);
    }
    let r = table(o);
    assert(v.few_quotes() ==> storable(value_tree(r), 0 + 1));
    r
}

// ── one session ──────────────────────────────────────────────────────────────

/// Whether a table says which state each mode has.
pub open spec fn is_modes_table(modes: Map<Seq<char>, ModeStateView>, t: JsonView) -> bool {
    &&& t is Object
    &&& forall|k: Seq<char>| #[trigger]
        t.get(k) is Some <==> modes.contains_key(k)
    &&& forall|k: Seq<char>| #[trigger]
        t.get(k) is Some ==> modes[k].is_table(t.get(k)->0)
}

/// What a table says of the modes; nothing where it says something else.
pub open spec fn modes_of(t: JsonView) -> Option<Map<Seq<char>, ModeStateView>> {
    if t is Object && forall|k: Seq<char>| #[trigger]
        t.get(k) is Some ==> mode_state_of(t.get(k)->0) is Some {
        Some(Map::new(|k: Seq<char>| t.get(k) is Some, |k: Seq<char>| mode_state_of(t.get(k)->0)->0))
    } else {
        None
    }
}

/// Modes by name.
#[derive(Debug)]
pub struct SessionCache {
    pub modes: StrMap<ModeState>,
}

#[verifier::ext_equal]
pub struct SessionCacheView {
    pub modes: Map<Seq<char>, ModeStateView>,
}

impl DeepView for SessionCache {
    type V = SessionCacheView;

    open spec fn deep_view(&self) -> SessionCacheView {
        SessionCacheView { modes: self.modes.deep_view() }
    }
}

impl SessionCacheView {
    /// No text but for keys has too many quotes in a row.
    pub open spec fn few_quotes(self) -> bool {
        forall|k: Seq<char>| #[trigger]
            self.modes.contains_key(k) ==> self.modes[k].few_quotes()
    }

    /// Whether a table says this.
    pub open spec fn is_table(self, t: JsonView) -> bool {
        &&& t is Object
        &&& t.get("modes"@) is Some
        &&& is_modes_table(self.modes, t.get("modes"@)->0)
        &&& forall|k: Seq<char>| k != "modes"@ ==> #[trigger] t.get(k) is None
    }
}

/// What a record says of a session; no mode has a state where it names none.
pub open spec fn session_cache_of(t: JsonView) -> Option<SessionCacheView> {
    if t is Object || t is Array {
        match part(t, "modes"@, 0) {
            None => Some(SessionCacheView { modes: Map::empty() }),
            Some(m) => match modes_of(m) {
                Some(modes) => Some(SessionCacheView { modes }),
                None => None,
            },
        }
    } else {
        None
    }
}

impl Default for SessionCache {
    fn default() -> (r: Self)
        ensures
            r.deep_view() == (SessionCacheView { modes: Map::empty() }),
    {
        SessionCache { modes: StrMap::new() }
    }
}

/// Entries read so far.
proof fn lemma_take_next(o: Seq<(Seq<char>, JsonView)>, i: int, k: Seq<char>)
    requires
        0 <= i < o.len(),
    ensures
        lookup(o.take(i + 1), k) == (match lookup(o.take(i), k) {
            Some(x) => Some(x),
            None => if k == o[i].0 {
                Some(o[i].1)
            } else {
                None
            },
        }),
{
    assert(o.take(i + 1) =~= o.take(i).push(o[i]));
    lemma_lookup_push(o.take(i), o[i], k);
}

/// What was found among the first entries is found among all.
proof fn lemma_found_early(o: Seq<(Seq<char>, JsonView)>, i: int, k: Seq<char>)
    requires
        0 <= i <= o.len(),
        lookup(o.take(i), k) is Some,
    ensures
        lookup(o, k) == lookup(o.take(i), k),
    decreases o.len() - i,
{
    if i < o.len() {
        lemma_take_next(o, i, k);
        lemma_found_early(o, i + 1, k);
    } else {
        assert(o.take(i) =~= o);
    }
}

fn read_modes(t: &Json) -> (r: Option<StrMap<ModeState>>)
    ensures
        r.deep_view() == modes_of(t.tree()),
{
    match t {
        Json::Object(o) => {
            let ghost ov = t.tree()->Object_0;
            let mut out: StrMap<ModeState> = StrMap::new();
            let mut i: usize = 0;
            assert(ov.take(0) =~= Seq::empty());
            while i < o.len()
                invariant
                    i <= o@.len(),
                    *t == Json::Object(*o),
                    ov == t.tree()->Object_0,
                    ov.len() == o@.len(),
                    forall|k: Seq<char>|
                        (#[trigger] lookup(ov.take(i as int), k)) is Some
                            <==> out.deep_view().contains_key(k),
                    forall|k: Seq<char>|
                        (#[trigger] lookup(ov.take(i as int), k)) is Some ==> mode_state_of(
                            lookup(ov.take(i as int), k)->0,
                        ) == Some(out.deep_view()[k]),
                decreases o@.len() - i,
            {
                let ghost before = out.deep_view();
                assert(ov[i as int].0 == o@[i as int].0@);
                assert(ov[i as int].1 == o@[i as int].1.tree());
                if !out.contains_key(o[i].0.as_str()) {
                    match read_mode_state(&o[i].1) {
                        Some(m) => {
                            out.insert(o[i].0.clone(), m);
                        },
                        None => {
                            proof {
                                let k = ov[i as int].0;
                                lemma_take_next(ov, i as int, k);
                                lemma_found_early(ov, i + 1, k);
                                assert(t.tree().get(k) == Some(ov[i as int].1));
                            }
                            return None;
                        },
                    }
                }
                proof {
                    assert forall|k: Seq<char>|
                        (#[trigger] lookup(ov.take(i + 1), k)) is Some
                            <==> out.deep_view().contains_key(k) by {
                        lemma_take_next(ov, i as int, k);
                        assert(lookup(ov.take(i as int), k) is Some <==> before.contains_key(k));
                    }
                    assert forall|k: Seq<char>|
                        (#[trigger] lookup(ov.take(i + 1), k)) is Some implies mode_state_of(
                        lookup(ov.take(i + 1), k)->0,
                    ) == Some(out.deep_view()[k]) by {
                        lemma_take_next(ov, i as int, k);
                        assert(lookup(ov.take(i as int), k) is Some <==> before.contains_key(k));
                    }
                }
                i = i + 1;
            }
            proof {
                assert(ov.take(i as int) =~= ov);
                assert forall|k: Seq<char>| #[trigger] t.tree().get(k) is Some implies mode_state_of(
                    t.tree().get(k)->0,
                ) is Some by {
                    assert(t.tree().get(k) == lookup(ov, k));
                }
                let goal = modes_of(t.tree())->0;
                assert forall|k: Seq<char>| #[trigger]
                    goal.contains_key(k) <==> out.deep_view().contains_key(k) by {
                    assert(t.tree().get(k) == lookup(ov, k));
                }
                assert forall|k: Seq<char>| goal.contains_key(k) implies #[trigger] goal[k]
                    == out.deep_view()[k] by {
                    assert(t.tree().get(k) == lookup(ov, k));
                }
                assert(goal =~= out.deep_view());
            }
            Some(out)
        },
        _ => None,
    }
}

fn read_session_cache(t: &Json) -> (r: Option<SessionCache>)
    ensures
        r.deep_view() == session_cache_of(t.tree()),
{
    match t {
        Json::Object(_) => {},
        Json::Array(_) => {},
        _ => {
            return None;
        },
    }
    match read_part(t, "modes", 0) {
        None => Some(SessionCache { modes: StrMap::new() }),
        Some(m) => match read_modes(m) {
            Some(modes) => Some(SessionCache { modes }),
            None => None,
        },
    }
}

fn modes_table(modes: &StrMap<ModeState>) -> (r: serde_json::Value)
    ensures
        is_modes_table(modes.deep_view(), value_tree(r)),
        (SessionCacheView { modes: modes.deep_view() }).few_quotes() ==> storable(value_tree(r), 2),
{
    let ghost mv = modes.deep_view();
    let ghost ks = modes.keys();
    let ghost plain = (SessionCacheView { modes: mv }).few_quotes();
    let mut o: Vec<(String, serde_json::Value)> = Vec::new();
    let n: usize = modes.len();
    let mut i: usize = 0;
    assert(entries_of(o@) =~= Seq::empty());
    while i < n
        invariant
            n == ks.len(),
            i <= n,
            mv == modes.deep_view(),
            ks == modes.keys(),
            ks.no_duplicates(),
            plain == (SessionCacheView { modes: mv }).few_quotes(),
            keys_differ(entries_of(o@)),
            forall|k: Seq<char>|
                (#[trigger] lookup(entries_of(o@), k)) is Some <==> ks.take(i as int).contains(k),
            forall|k: Seq<char>|
                (#[trigger] lookup(entries_of(o@), k)) is Some ==> mv.contains_key(k)
                    && mv[k].is_table(lookup(entries_of(o@), k)->0),
            plain ==> storable_entries(entries_of(o@), 1),
        decreases n - i,
    {
        let ghost before = entries_of(o@);
        let ghost key = ks[i as int];
        let v = mode_table(modes.value_at(i));
        let ghost tv = value_tree(v);
        put(&mut o, modes.key_at(i).as_str(), Some(v));
        proof {
            assert(!ks.take(i as int).contains(key)) by {
                if ks.take(i as int).contains(key) {
                    let j = ks.take(i as int).index_of(key);
                    assert(ks[j] == ks[i as int]);
                }
            }
            lemma_puts(before, key, Some(tv), 1);
            assert((SessionCacheView { modes: mv }).modes.contains_key(key));
            assert forall|k: Seq<char>|
                (#[trigger] lookup(entries_of(o@), k)) is Some <==> ks.take(i + 1).contains(k) by {
                assert(ks.take(i + 1) =~= ks.take(i as int).push(key));
                assert(ks.take(i as int).push(key)[i as int] == key);
                if ks.take(i as int).contains(k) {
                    let j = ks.take(i as int).index_of(k);
                    assert(ks.take(i + 1)[j] == k);
                }
            }
        }
        i = i + 1;
    }
    let r = table(o);
    proof {
        assert(ks.take(i as int) =~= ks);
        assert(plain ==> storable(value_tree(r), 1 + 1));
    }
    r
}

fn session_table(s: &SessionCache) -> (r: serde_json::Value)
    ensures
        s.deep_view().is_table(value_tree(r)),
        s.deep_view().few_quotes() ==> storable(value_tree(r), 3),
{
    let v = modes_table(&s.modes);
    let ghost tv = value_tree(v);
    let mut o: Vec<(String, serde_json::Value)> = Vec::new();
    let ghost o0 = entries_of(o@);
    put(&mut o, "modes", Some(v));
    proof {
        assert(o0 =~= Seq::empty());
        assert(forall|k: Seq<char>| #[trigger] lookup(o0, k) is None);
        lemma_puts(o0, "modes"@, Some(tv), 2);
    }
    let r = table(o);
    assert(s.deep_view().few_quotes() ==> storable(value_tree(r), 2 + 1));
    r
}

proof fn lemma_session_read_back(s: SessionCacheView, t: JsonView)
    requires
        s.is_table(t),
    ensures
        session_cache_of(t) == Some(s),
{
    let m = t.get("modes"@)->0;
    lemma_mode_keys();
    assert forall|k: Seq<char>| #[trigger] m.get(k) is Some implies mode_state_of(m.get(k)->0)
        == Some(s.modes[k]) by {
        let x = m.get(k)->0;
        assert(x.get("model"@) == s.modes[k].entry("model"@));
        assert(x.get("effort"@) == s.modes[k].entry("effort"@));
    }
    assert(modes_of(m)->0 =~= s.modes);
}

// ── all sessions ─────────────────────────────────────────────────────────────

/// Whether a table says what each session used.
pub open spec fn is_sessions_table(
    sessions: Map<Seq<char>, SessionCacheView>,
    t: JsonView,
) -> bool {
    &&& t is Object
    &&& forall|k: Seq<char>| #[trigger]
        t.get(k) is Some <==> sessions.contains_key(k)
    &&& forall|k: Seq<char>| #[trigger]
        t.get(k) is Some ==> sessions[k].is_table(t.get(k)->0)
}

/// What a table says of the sessions; nothing where it says something else.
pub open spec fn sessions_of(t: JsonView) -> Option<Map<Seq<char>, SessionCacheView>> {
    if t is Object && forall|k: Seq<char>| #[trigger]
        t.get(k) is Some ==> session_cache_of(t.get(k)->0) is Some {
        Some(
            Map::new(
                |k: Seq<char>| t.get(k) is Some,
                |k: Seq<char>| session_cache_of(t.get(k)->0)->0,
            ),
        )
    } else {
        None
    }
}

/// Sessions by identifier.
#[derive(Debug)]
pub struct TuiCache {
    pub sessions: StrMap<SessionCache>,
}

#[verifier::ext_equal]
pub struct TuiCacheView {
    pub sessions: Map<Seq<char>, SessionCacheView>,
}

impl DeepView for TuiCache {
    type V = TuiCacheView;

    open spec fn deep_view(&self) -> TuiCacheView {
        TuiCacheView { sessions: self.sessions.deep_view() }
    }
}

impl TuiCacheView {
    /// Nothing kept.
    pub open spec fn nothing() -> TuiCacheView {
        TuiCacheView { sessions: Map::empty() }
    }

    /// No text but for keys has too many quotes in a row.
    pub open spec fn few_quotes(self) -> bool {
        forall|k: Seq<char>| #[trigger]
            self.sessions.contains_key(k) ==> self.sessions[k].few_quotes()
    }

    /// Whether a table says this.
    pub open spec fn is_table(self, t: JsonView) -> bool {
        &&& t is Object
        &&& t.get("sessions"@) is Some
        &&& is_sessions_table(self.sessions, t.get("sessions"@)->0)
        &&& forall|k: Seq<char>| k != "sessions"@ ==> #[trigger] t.get(k) is None
    }
}

/// What a record says; nothing where it is no session cache.
pub open spec fn cache_of(t: JsonView) -> Option<TuiCacheView> {
    if t is Object || t is Array {
        match part(t, "sessions"@, 0) {
            None => Some(TuiCacheView::nothing()),
            Some(m) => match sessions_of(m) {
                Some(sessions) => Some(TuiCacheView { sessions }),
                None => None,
            },
        }
    } else {
        None
    }
}

/// The session cache in a text; nothing where the text holds none.
pub open spec fn cache_in(text: Seq<char>) -> Option<TuiCacheView> {
    match toml_parsed(text) {
        Some(t) => cache_of(t),
        None => None,
    }
}

/// The session cache in a file: empty where the file holds none.
pub open spec fn cache_at(storage: StorageView, path: Seq<char>) -> TuiCacheView {
    match storage.table_at(path) {
        Some(t) => match cache_of(t) {
            Some(c) => c,
            None => TuiCacheView::nothing(),
        },
        None => TuiCacheView::nothing(),
    }
}

fn read_sessions(t: &Json) -> (r: Option<StrMap<SessionCache>>)
    ensures
        r.deep_view() == sessions_of(t.tree()),
{
    match t {
        Json::Object(o) => {
            let ghost ov = t.tree()->Object_0;
            let mut out: StrMap<SessionCache> = StrMap::new();
            let mut i: usize = 0;
            assert(ov.take(0) =~= Seq::empty());
            while i < o.len()
                invariant
                    i <= o@.len(),
                    *t == Json::Object(*o),
                    ov == t.tree()->Object_0,
                    ov.len() == o@.len(),
                    forall|k: Seq<char>|
                        (#[trigger] lookup(ov.take(i as int), k)) is Some
                            <==> out.deep_view().contains_key(k),
                    forall|k: Seq<char>|
                        (#[trigger] lookup(ov.take(i as int), k)) is Some ==> session_cache_of(
                            lookup(ov.take(i as int), k)->0,
                        ) == Some(out.deep_view()[k]),
                decreases o@.len() - i,
            {
                let ghost before = out.deep_view();
                assert(ov[i as int].0 == o@[i as int].0@);
                assert(ov[i as int].1 == o@[i as int].1.tree());
                if !out.contains_key(o[i].0.as_str()) {
                    match read_session_cache(&o[i].1) {
                        Some(m) => {
                            out.insert(o[i].0.clone(), m);
                        },
                        None => {
                            proof {
                                let k = ov[i as int].0;
                                lemma_take_next(ov, i as int, k);
                                lemma_found_early(ov, i + 1, k);
                                assert(t.tree().get(k) == Some(ov[i as int].1));
                            }
                            return None;
                        },
                    }
                }
                proof {
                    assert forall|k: Seq<char>|
                        (#[trigger] lookup(ov.take(i + 1), k)) is Some
                            <==> out.deep_view().contains_key(k) by {
                        lemma_take_next(ov, i as int, k);
                        assert(lookup(ov.take(i as int), k) is Some <==> before.contains_key(k));
                    }
                    assert forall|k: Seq<char>|
                        (#[trigger] lookup(ov.take(i + 1), k)) is Some implies session_cache_of(
                        lookup(ov.take(i + 1), k)->0,
                    ) == Some(out.deep_view()[k]) by {
                        lemma_take_next(ov, i as int, k);
                        assert(lookup(ov.take(i as int), k) is Some <==> before.contains_key(k));
                    }
                }
                i = i + 1;
            }
            proof {
                assert(ov.take(i as int) =~= ov);
                assert forall|k: Seq<char>| #[trigger]
                    t.tree().get(k) is Some implies session_cache_of(
                    t.tree().get(k)->0,
                ) is Some by {
                    assert(t.tree().get(k) == lookup(ov, k));
                }
                let goal = sessions_of(t.tree())->0;
                assert forall|k: Seq<char>| #[trigger]
                    goal.contains_key(k) <==> out.deep_view().contains_key(k) by {
                    assert(t.tree().get(k) == lookup(ov, k));
                }
                assert forall|k: Seq<char>| goal.contains_key(k) implies #[trigger] goal[k]
                    == out.deep_view()[k] by {
                    assert(t.tree().get(k) == lookup(ov, k));
                }
                assert(goal =~= out.deep_view());
            }
            Some(out)
        },
        _ => None,
    }
}

fn read_cache(t: &Json) -> (r: Option<TuiCache>)
    ensures
        r.deep_view() == cache_of(t.tree()),
{
    match t {
        Json::Object(_) => {},
        Json::Array(_) => {},
        _ => {
            return None;
        },
    }
    match read_part(t, "sessions", 0) {
        None => Some(TuiCache { sessions: StrMap::new() }),
        Some(m) => match read_sessions(m) {
            Some(sessions) => Some(TuiCache { sessions }),
            None => None,
        },
    }
}

fn sessions_table(sessions: &StrMap<SessionCache>) -> (r: serde_json::Value)
    ensures
        is_sessions_table(sessions.deep_view(), value_tree(r)),
        (TuiCacheView { sessions: sessions.deep_view() }).few_quotes() ==> storable(
            value_tree(r),
            4,
        ),
{
    let ghost mv = sessions.deep_view();
    let ghost ks = sessions.keys();
    let ghost plain = (TuiCacheView { sessions: mv }).few_quotes();
    let mut o: Vec<(String, serde_json::Value)> = Vec::new();
    let n: usize = sessions.len();
    let mut i: usize = 0;
    assert(entries_of(o@) =~= Seq::empty());
    while i < n
        invariant
            n == ks.len(),
            i <= n,
            mv == sessions.deep_view(),
            ks == sessions.keys(),
            ks.no_duplicates(),
            plain == (TuiCacheView { sessions: mv }).few_quotes(),
            keys_differ(entries_of(o@)),
            forall|k: Seq<char>|
                (#[trigger] lookup(entries_of(o@), k)) is Some <==> ks.take(i as int).contains(k),
            forall|k: Seq<char>|
                (#[trigger] lookup(entries_of(o@), k)) is Some ==> mv.contains_key(k)
                    && mv[k].is_table(lookup(entries_of(o@), k)->0),
            plain ==> storable_entries(entries_of(o@), 3),
        decreases n - i,
    {
        let ghost before = entries_of(o@);
        let ghost key = ks[i as int];
        let v = session_table(sessions.value_at(i));
        let ghost tv = value_tree(v);
        put(&mut o, sessions.key_at(i).as_str(), Some(v));
        proof {
            assert(!ks.take(i as int).contains(key)) by {
                if ks.take(i as int).contains(key) {
                    let j = ks.take(i as int).index_of(key);
                    assert(ks[j] == ks[i as int]);
                }
            }
            lemma_puts(before, key, Some(tv), 3);
            assert((TuiCacheView { sessions: mv }).sessions.contains_key(key));
            assert forall|k: Seq<char>|
                (#[trigger] lookup(entries_of(o@), k)) is Some <==> ks.take(i + 1).contains(k) by {
                assert(ks.take(i + 1) =~= ks.take(i as int).push(key));
                assert(ks.take(i as int).push(key)[i as int] == key);
                if ks.take(i as int).contains(k) {
                    let j = ks.take(i as int).index_of(k);
                    assert(ks.take(i + 1)[j] == k);
                }
            }
        }
        i = i + 1;
    }
    let r = table(o);
    proof {
        assert(ks.take(i as int) =~= ks);
        assert(plain ==> storable(value_tree(r), 3 + 1));
    }
    r
}

fn cache_table(c: &TuiCache) -> (r: serde_json::Value)
    ensures
        c.deep_view().is_table(value_tree(r)),
        c.deep_view().few_quotes() ==> storable(value_tree(r), 5),
{
    let v = sessions_table(&c.sessions);
    let ghost tv = value_tree(v);
    let mut o: Vec<(String, serde_json::Value)> = Vec::new();
    let ghost o0 = entries_of(o@);
    put(&mut o, "sessions", Some(v));
    proof {
        assert(o0 =~= Seq::empty());
        assert(forall|k: Seq<char>| #[trigger] lookup(o0, k) is None);
        lemma_puts(o0, "sessions"@, Some(tv), 4);
    }
    let r = table(o);
    assert(c.deep_view().few_quotes() ==> storable(value_tree(r), 4 + 1));
    r
}

proof fn lemma_short_mode(m: ModeStateView, t: JsonView)
    requires
        m.is_table(t),
        short_quote_runs(t),
    ensures
        m.few_quotes(),
{
    lemma_mode_keys();
    assert(t.get("model"@) == m.entry("model"@));
    assert(t.get("effort"@) == m.entry("effort"@));
    lemma_part_is_short(t, "model"@);
    lemma_part_is_short(t, "effort"@);
}

proof fn lemma_short_session(s: SessionCacheView, t: JsonView)
    requires
        s.is_table(t),
        short_quote_runs(t),
    ensures
        s.few_quotes(),
{
    lemma_part_is_short(t, "modes"@);
    let m = t.get("modes"@)->0;
    assert forall|k: Seq<char>| #[trigger]
        s.modes.contains_key(k) implies s.modes[k].few_quotes() by {
        assert(m.get(k) is Some);
        lemma_part_is_short(m, k);
        lemma_short_mode(s.modes[k], m.get(k)->0);
    }
}

/// A cache whose table has no long runs of quotes has none.
proof fn lemma_short_cache(c: TuiCacheView, t: JsonView)
    requires
        c.is_table(t),
        short_quote_runs(t),
    ensures
        c.few_quotes(),
{
    lemma_part_is_short(t, "sessions"@);
    let m = t.get("sessions"@)->0;
    assert forall|k: Seq<char>| #[trigger]
        c.sessions.contains_key(k) implies c.sessions[k].few_quotes() by {
        assert(m.get(k) is Some);
        lemma_part_is_short(m, k);
        lemma_short_session(c.sessions[k], m.get(k)->0);
    }
}

proof fn lemma_cache_read_back(c: TuiCacheView, t: JsonView)
    requires
        c.is_table(t),
    ensures
        cache_of(t) == Some(c),
{
    let m = t.get("sessions"@)->0;
    assert forall|k: Seq<char>| #[trigger] m.get(k) is Some implies session_cache_of(m.get(k)->0)
        == Some(c.sessions[k]) by {
        lemma_session_read_back(c.sessions[k], m.get(k)->0);
    }
    assert(sessions_of(m)->0 =~= c.sessions);
}

// ── between the cache and a running program ──────────────────────────────────

/// A mode's state as it is kept.
pub open spec fn kept(c: CachedModeStateView) -> ModeStateView {
    ModeStateView {
        model: c.model,
        effort: match c.effort {
            Some(e) => e,
            None => "auto"@,
        },
    }
}

/// A mode's state as it is restored.
pub open spec fn restored(m: ModeStateView) -> CachedModeStateView {
    CachedModeStateView {
        model: m.model,
        effort: if m.effort == "auto"@ {
            None
        } else {
            Some(m.effort)
        },
    }
}

/// A session's modes as they are kept.
pub open spec fn kept_modes(m: Map<Seq<char>, CachedModeStateView>) -> SessionCacheView {
    SessionCacheView { modes: m.map_values(|c: CachedModeStateView| kept(c)) }
}

/// A session's modes as they are restored.
pub open spec fn restored_modes(s: SessionCacheView) -> Map<Seq<char>, CachedModeStateView> {
    s.modes.map_values(|m: ModeStateView| restored(m))
}

/// The sessions of a running program as they are kept.
pub open spec fn kept_sessions(
    m: Map<Seq<char>, Map<Seq<char>, CachedModeStateView>>,
) -> TuiCacheView {
    TuiCacheView {
        sessions: m.map_values(|s: Map<Seq<char>, CachedModeStateView>| kept_modes(s)),
    }
}

/// Sessions as they are restored.
pub open spec fn restored_sessions(c: TuiCacheView) -> Map<
    Seq<char>,
    Map<Seq<char>, CachedModeStateView>,
> {
    c.sessions.map_values(|s: SessionCacheView| restored_modes(s))
}

impl AppView {
    /// With the sessions of a cache in place of those of the same identifiers.
    pub open spec fn hydrated(self, c: TuiCacheView) -> AppView {
        AppView {
            session_cache: self.session_cache.union_prefer_right(restored_sessions(c)),
            ..self
        }
    }
}

/// What a running program keeps is what it restores, where no effort is spelt
/// like the automatic one.
pub proof fn law_kept_sessions_are_restored(
    m: Map<Seq<char>, Map<Seq<char>, CachedModeStateView>>,
)
    requires
        forall|s: Seq<char>, k: Seq<char>| #[trigger]
            m[s].contains_key(k) && m.contains_key(s) ==> m[s][k].effort != Some("auto"@),
    ensures
        restored_sessions(kept_sessions(m)) == m,
{
    let r = restored_sessions(kept_sessions(m));
    assert forall|s: Seq<char>| m.contains_key(s) implies #[trigger] r[s] == m[s] by {
        assert forall|k: Seq<char>| m[s].contains_key(k) implies #[trigger] r[s][k] == m[s][k] by {
            assert(m[s][k].effort != Some("auto"@));
        }
        assert(r[s] =~= m[s]);
    }
    assert(r =~= m);
}

fn keep_modes(m: &StrMap<CachedModeState>) -> (r: StrMap<ModeState>)
    ensures
        r.deep_view() == kept_modes(m.deep_view()).modes,
{
    let ghost mv = m.deep_view();
    let ghost ks = m.keys();
    let ghost goal = kept_modes(mv).modes;
    let mut out: StrMap<ModeState> = StrMap::new();
    let n: usize = m.len();
    let mut i: usize = 0;
    while i < n
        invariant
            n == ks.len(),
            i <= n,
            mv == m.deep_view(),
            ks == m.keys(),
            goal == kept_modes(mv).modes,
            forall|k: Seq<char>| #[trigger]
                out.deep_view().contains_key(k) <==> ks.take(i as int).contains(k),
            forall|k: Seq<char>| #[trigger]
                out.deep_view().contains_key(k) ==> mv.contains_key(k) && out.deep_view()[k]
                    == goal[k],
        decreases n - i,
    {
        let c = m.value_at(i);
        let effort = match &c.effort {
            Some(e) => e.clone(),
            None => owned("auto"),
        };
        let ghost before = out.deep_view();
        let ghost key = ks[i as int];
        out.insert(m.key_at(i).clone(), ModeState { model: c.model.clone(), effort });
        proof {
            assert(goal[key] == kept(mv[key]));
            assert(ks.take(i + 1) =~= ks.take(i as int).push(key));
            assert forall|k: Seq<char>| #[trigger]
                out.deep_view().contains_key(k) <==> ks.take(i + 1).contains(k) by {
                assert(ks.take(i as int).push(key)[i as int] == key);
                assert(before.contains_key(k) <==> ks.take(i as int).contains(k));
                if ks.take(i as int).contains(k) {
                    let j = ks.take(i as int).index_of(k);
                    assert(ks.take(i + 1)[j] == k);
                }
            }
        }
        i = i + 1;
    }
    proof {
        assert(ks.take(i as int) =~= ks);
        assert(out.deep_view() =~= goal);
    }
    out
}

fn restore_modes(m: &StrMap<ModeState>) -> (r: StrMap<CachedModeState>)
    ensures
        r.deep_view() == restored_modes(SessionCacheView { modes: m.deep_view() }),
{
    let ghost mv = m.deep_view();
    let ghost ks = m.keys();
    let ghost goal = restored_modes(SessionCacheView { modes: mv });
    let mut out: StrMap<CachedModeState> = StrMap::new();
    let n: usize = m.len();
    let mut i: usize = 0;
    while i < n
        invariant
            n == ks.len(),
            i <= n,
            mv == m.deep_view(),
            ks == m.keys(),
            goal == restored_modes(SessionCacheView { modes: mv }),
            forall|k: Seq<char>| #[trigger]
                out.deep_view().contains_key(k) <==> ks.take(i as int).contains(k),
            forall|k: Seq<char>| #[trigger]
                out.deep_view().contains_key(k) ==> mv.contains_key(k) && out.deep_view()[k]
                    == goal[k],
        decreases n - i,
    {
        let s = m.value_at(i);
        let effort = if same(s.effort.as_str(), "auto") {
            None
        } else {
            Some(s.effort.clone())
        };
        let ghost before = out.deep_view();
        let ghost key = ks[i as int];
        out.insert(m.key_at(i).clone(), CachedModeState { model: s.model.clone(), effort });
        proof {
            assert(goal[key] == restored(mv[key]));
            assert(ks.take(i + 1) =~= ks.take(i as int).push(key));
            assert forall|k: Seq<char>| #[trigger]
                out.deep_view().contains_key(k) <==> ks.take(i + 1).contains(k) by {
                assert(ks.take(i as int).push(key)[i as int] == key);
                assert(before.contains_key(k) <==> ks.take(i as int).contains(k));
                if ks.take(i as int).contains(k) {
                    let j = ks.take(i as int).index_of(k);
                    assert(ks.take(i + 1)[j] == k);
                }
            }
        }
        i = i + 1;
    }
    proof {
        assert(ks.take(i as int) =~= ks);
        assert(out.deep_view() =~= goal);
    }
    out
}

impl Default for TuiCache {
    fn default() -> (r: Self)
        ensures
            r.deep_view() == TuiCacheView::nothing(),
    {
        TuiCache { sessions: StrMap::new() }
    }
}

impl TuiCache {
    /// Where the session cache is kept.
    pub fn cache_path(storage: &Storage) -> (r: String)
        ensures
            r@ == storage@.cache_place(),
    {
        match &storage.cache_path {
            Some(p) => p.clone(),
            None => join_or_here(&storage.cache_dir, "qmt/tui-cache.toml"),
        }
    }

    /// The session cache in a text.
    pub fn from_toml(text: &str) -> (r: Option<TuiCache>)
        ensures
            r.deep_view() == cache_in(text@),
    {
        match read_toml(text) {
            Some(t) => read_cache(&t),
            None => None,
        }
    }

    /// The session cache as a text, which is read back as it was; none where a text
    /// in it has too many quotes in a row.
    pub fn to_toml(&self) -> (r: Option<String>)
        ensures
            exists|t: JsonView| #[trigger]
                self.deep_view().is_table(t) && r.deep_view() == table_text(t),
            r is Some <==> self.deep_view().few_quotes(),
            r is Some ==> cache_in(r->0@) == Some(self.deep_view()),
    {
        let v = cache_table(self);
        proof {
            lemma_cache_read_back(self.deep_view(), value_tree(v));
            if self.deep_view().few_quotes() {
                lemma_shallow(value_tree(v), 5);
            } else if short_quote_runs(value_tree(v)) {
                lemma_short_cache(self.deep_view(), value_tree(v));
            }
        }
        write_table(&v)
    }

    /// Reads the session cache from its usual place.
    pub fn load(storage: &Storage) -> (r: TuiCache)
        ensures
            r.deep_view() == cache_at(storage@, storage@.cache_place()),
    {
        let path = TuiCache::cache_path(storage);
        TuiCache::load_from_path(storage, path.as_str())
    }

    /// Reads the session cache from a file; it is empty where the file is missing
    /// or holds something else.
    pub fn load_from_path(storage: &Storage, path: &str) -> (r: TuiCache)
        ensures
            r.deep_view() == cache_at(storage@, path@),
    {
        match storage.read_table(path) {
            Some(t) => match read_cache(&t) {
                Some(c) => c,
                None => TuiCache::default(),
            },
            None => TuiCache::default(),
        }
    }

    /// Puts the session cache in its usual place, where it is then found again unless
    /// a text in it has too many quotes in a row.
    pub fn save(&self, storage: &mut Storage)
        ensures
            exists|t: JsonView| #[trigger]
                self.deep_view().is_table(t) && final(storage)@ == old(storage)@.stored(
                    old(storage)@.cache_place(),
                    table_text(t),
                ),
            self.deep_view().few_quotes() ==> cache_at(
                final(storage)@,
                final(storage)@.cache_place(),
            ) == self.deep_view(),
    {
        let path = TuiCache::cache_path(storage);
        self.save_to_path(storage, path.as_str());
    }

    /// Puts the session cache in a file.
    pub fn save_to_path(&self, storage: &mut Storage, path: &str)
        ensures
            exists|t: JsonView| #[trigger]
                self.deep_view().is_table(t) && final(storage)@ == old(storage)@.stored(
                    path@,
                    table_text(t),
                ),
            self.deep_view().few_quotes() ==> cache_at(final(storage)@, path@)
                == self.deep_view(),
    {
        let text = self.to_toml();
        storage.store(path, text);
    }

    /// The sessions of a running program.
    pub fn from_app(app: &App) -> (r: TuiCache)
        ensures
            r.deep_view() == kept_sessions(app@.session_cache),
    {
        let m = &app.session_cache;
        let ghost mv = m.deep_view();
        let ghost ks = m.keys();
        let ghost goal = kept_sessions(mv).sessions;
        let mut out: StrMap<SessionCache> = StrMap::new();
        let n: usize = m.len();
        let mut i: usize = 0;
        while i < n
            invariant
                n == ks.len(),
                i <= n,
                mv == m.deep_view(),
                ks == m.keys(),
                goal == kept_sessions(mv).sessions,
                forall|k: Seq<char>| #[trigger]
                    out.deep_view().contains_key(k) <==> ks.take(i as int).contains(k),
                forall|k: Seq<char>| #[trigger]
                    out.deep_view().contains_key(k) ==> mv.contains_key(k) && out.deep_view()[k]
                        == goal[k],
            decreases n - i,
        {
            let modes = keep_modes(m.value_at(i));
            let ghost before = out.deep_view();
            let ghost key = ks[i as int];
            out.insert(m.key_at(i).clone(), SessionCache { modes });
            proof {
                assert(goal[key] == kept_modes(mv[key]));
                assert(ks.take(i + 1) =~= ks.take(i as int).push(key));
                assert forall|k: Seq<char>| #[trigger]
                    out.deep_view().contains_key(k) <==> ks.take(i + 1).contains(k) by {
                    assert(ks.take(i as int).push(key)[i as int] == key);
                    assert(before.contains_key(k) <==> ks.take(i as int).contains(k));
                    if ks.take(i as int).contains(k) {
                        let j = ks.take(i as int).index_of(k);
                        assert(ks.take(i + 1)[j] == k);
                    }
                }
            }
            i = i + 1;
        }
        proof {
            assert(ks.take(i as int) =~= ks);
            assert(out.deep_view() =~= goal);
        }
        TuiCache { sessions: out }
    }

    /// Gives a running program the sessions of this cache.
    pub fn hydrate_app(&self, app: &mut App)
        ensures
            final(app)@ == old(app)@.hydrated(self.deep_view()),
    {
        let m = &self.sessions;
        let ghost start = app@;
        let ghost mv = m.deep_view();
        let ghost ks = m.keys();
        let ghost goal = restored_sessions(self.deep_view());
        let n: usize = m.len();
        let mut i: usize = 0;
        while i < n
            invariant
                n == ks.len(),
                i <= n,
                mv == m.deep_view(),
                ks == m.keys(),
                mv == self.deep_view().sessions,
                goal == restored_sessions(self.deep_view()),
                app@ == (AppView { session_cache: app@.session_cache, ..start }),
                forall|k: Seq<char>| #[trigger]
                    app@.session_cache.contains_key(k) <==> (start.session_cache.contains_key(k)
                        || ks.take(i as int).contains(k)),
                forall|k: Seq<char>| #[trigger]
                    app@.session_cache.contains_key(k) ==> app@.session_cache[k] == (
                    if ks.take(i as int).contains(k) {
                        goal[k]
                    } else {
                        start.session_cache[k]
                    }),
            decreases n - i,
        {
            let modes = restore_modes(&m.value_at(i).modes);
            let ghost before = app@.session_cache;
            let ghost key = ks[i as int];
            app.session_cache.insert(m.key_at(i).clone(), modes);
            proof {
                assert(goal[key] == restored_modes(mv[key]));
                assert(app@ =~= (AppView { session_cache: app@.session_cache, ..start }));
                assert(ks.take(i + 1) =~= ks.take(i as int).push(key));
                assert forall|k: Seq<char>|
                    ks.take(i + 1).contains(k) <==> (#[trigger] ks.take(i as int).contains(k) || k
                        == key) by {
                    assert(ks.take(i as int).push(key)[i as int] == key);
                    if ks.take(i as int).contains(k) {
                        let j = ks.take(i as int).index_of(k);
                        assert(ks.take(i + 1)[j] == k);
                    }
                }
                assert forall|k: Seq<char>| #[trigger]
                    app@.session_cache.contains_key(k) <==> (start.session_cache.contains_key(k)
                        || ks.take(i + 1).contains(k)) by {
                    assert(before.contains_key(k) <==> (start.session_cache.contains_key(k)
                        || ks.take(i as int).contains(k)));
                }
                assert forall|k: Seq<char>| #[trigger]
                    app@.session_cache.contains_key(k) implies app@.session_cache[k] == (
                if ks.take(i + 1).contains(k) {
                    goal[k]
                } else {
                    start.session_cache[k]
                }) by {
                    assert(before.contains_key(k) <==> (start.session_cache.contains_key(k)
                        || ks.take(i as int).contains(k)));
                }
            }
            i = i + 1;
        }
        proof {
            assert(ks.take(i as int) =~= ks);
            assert(app@.session_cache =~= start.session_cache.union_prefer_right(goal));
            assert(app@ =~= start.hydrated(self.deep_view()));
        }
    }
}

/// Puts the sessions of a running program in the cache that is kept.
pub fn save_cache(app: &App, storage: &mut Storage)
    ensures
        ({
            let place = old(storage)@.cache_place();
            let kept = kept_sessions(app@.session_cache);
            &&& exists|t: JsonView| #[trigger]
                kept.is_table(t) && final(storage)@ == old(storage)@.stored(
                    place,
                    table_text(t),
                )
            &&& kept.few_quotes() ==> cache_at(final(storage)@, place) == kept
        }),
{
    TuiCache::from_app(app).save(storage);
}

} // verus!
