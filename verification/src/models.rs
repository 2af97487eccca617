//! Models, reasoning effort, modes, and what is remembered of them.
use crate::app::{App, AppView, CachedModeState, CachedModeStateView};
use crate::protocol::{ClientMsg, ClientMsgView, ModelEntry, ModelEntryView};
use crate::seqs::{
    first, first_index, lemma_filter_step, lemma_first_index, lemma_first_is, lemma_first_none,
    lemma_take_all,
};
use crate::strmap::StrMap;
use crate::text::{
    cat3, contains, copy_opt, cut_once, has, is_char, lowercase, opt_is, owned, same, same_opt,
    split_once, to_lower,
};
use vstd::prelude::*;

verus! {

/// Model and effort by session and mode.
pub type CacheView = Map<Seq<char>, Map<Seq<char>, CachedModeStateView>>;

// ── reasoning effort ─────────────────────────────────────────────────────────

/// The level behind `cur` in the cycle auto, low, medium, high, max; an
/// unknown level counts as auto.
pub open spec fn next_effort(cur: Option<Seq<char>>) -> Option<Seq<char>> {
    if cur == Some("low"@) {
        Some("medium"@)
    } else if cur == Some("medium"@) {
        Some("high"@)
    } else if cur == Some("high"@) {
        Some("max"@)
    } else if cur == Some("max"@) {
        None
    } else {
        Some("low"@)
    }
}

/// The name of a level.
pub open spec fn effort_name(level: Option<Seq<char>>) -> Seq<char> {
    match level {
        Some(s) => s,
        None => "auto"@,
    }
}

/// One of the five levels.
pub open spec fn known_effort(level: Option<Seq<char>>) -> bool {
    ||| level is None
    ||| level == Some("low"@)
    ||| level == Some("medium"@)
    ||| level == Some("high"@)
    ||| level == Some("max"@)
}

/// Five steps lead through all levels and back to where they started.
pub proof fn law_effort_cycles(level: Option<Seq<char>>)
    requires
        known_effort(level),
    ensures
        next_effort(next_effort(next_effort(next_effort(next_effort(level))))) == level,
        known_effort(next_effort(level)),
        next_effort(level) != level,
{
    reveal_strlit("low");
    reveal_strlit("medium");
    reveal_strlit("high");
    reveal_strlit("max");
    assert("low"@[0] == 'l');
    assert("medium"@[1] == 'e');
    assert("max"@[1] == 'a');
    assert("high"@[0] == 'h');
    assert("low"@.len() == 3);
    assert("medium"@.len() == 6);
    assert("high"@.len() == 4);
    assert("max"@.len() == 3);
    assert("max"@[0] == 'm');
}

// ── the session cache ────────────────────────────────────────────────────────

/// With the state of one mode of one session.
pub open spec fn cache_put(
    cache: CacheView,
    sid: Seq<char>,
    mode: Seq<char>,
    state: CachedModeStateView,
) -> CacheView {
    let modes = if cache.contains_key(sid) {
        cache[sid]
    } else {
        Map::empty()
    };
    cache.insert(sid, modes.insert(mode, state))
}

/// The state of one mode of one session.
pub open spec fn cache_get(
    cache: CacheView,
    sid: Seq<char>,
    mode: Seq<char>,
) -> Option<CachedModeStateView> {
    if cache.contains_key(sid) && cache[sid].contains_key(mode) {
        Some(cache[sid][mode])
    } else {
        None
    }
}

/// What was put for a session and a mode is what is found there, and nothing
/// else changes.
pub proof fn law_cache_put_get(
    cache: CacheView,
    sid: Seq<char>,
    mode: Seq<char>,
    state: CachedModeStateView,
    other_sid: Seq<char>,
    other_mode: Seq<char>,
)
    ensures
        cache_get(cache_put(cache, sid, mode, state), sid, mode) == Some(state),
        (other_sid, other_mode) != (sid, mode) ==> cache_get(
            cache_put(cache, sid, mode, state),
            other_sid,
            other_mode,
        ) == cache_get(cache, other_sid, other_mode),
{
}

/// The entry of a provider's model.
pub open spec fn is_model(provider: Seq<char>, model: Seq<char>) -> spec_fn(ModelEntryView) -> bool {
    |e: ModelEntryView| e.provider == provider && e.model == model
}

/// The entry of a provider's model that no node offers.
pub open spec fn is_local_model(provider: Seq<char>, model: Seq<char>) -> spec_fn(
    ModelEntryView,
) -> bool {
    |e: ModelEntryView| e.provider == provider && e.model == model && e.node_id is None
}

/// `"provider/model"`.
pub open spec fn model_key(provider: Seq<char>, model: Seq<char>) -> Seq<char> {
    provider + "/"@ + model
}

impl AppView {
    /// With the next level, remembered for the session and its mode.
    pub open spec fn effort_cycled(self) -> AppView {
        (AppView { reasoning_effort: next_effort(self.reasoning_effort), ..self }).mode_cached()
    }

    /// With model and effort remembered for the session and its mode, where
    /// session, provider and model are known.
    pub open spec fn mode_cached(self) -> AppView {
        match (self.session_id, self.current_provider, self.current_model) {
            (Some(sid), Some(provider), Some(model)) => AppView {
                session_cache: cache_put(
                    self.session_cache,
                    sid,
                    self.agent_mode,
                    CachedModeStateView {
                        model: model_key(provider, model),
                        effort: self.reasoning_effort,
                    },
                ),
                ..self
            },
            _ => self,
        }
    }

    /// The key of the current model, or nothing.
    pub open spec fn current_key(self) -> Seq<char> {
        match (self.current_provider, self.current_model) {
            (Some(p), Some(m)) => model_key(p, m),
            _ => Seq::empty(),
        }
    }

    /// What is remembered for the session and its mode.
    pub open spec fn remembered(self) -> Option<CachedModeStateView> {
        match self.session_id {
            Some(sid) => cache_get(self.session_cache, sid, self.agent_mode),
            None => None,
        }
    }

    /// The entry of the remembered model, where it is another than the current
    /// one and is on offer.
    pub open spec fn model_to_restore(self, key: Seq<char>) -> Option<ModelEntryView> {
        if key == self.current_key() {
            None
        } else {
            match cut_once(key, '/') {
                Some((provider, model)) => first(self.models, is_model(provider, model)),
                None => None,
            }
        }
    }

    /// With the model of `entry`, and the message that asks for it.
    pub open spec fn restored_model(self, sid: Seq<char>, entry: Option<ModelEntryView>) -> (
        AppView,
        Seq<ClientMsgView>,
    ) {
        match entry {
            Some(e) => (
                AppView {
                    current_provider: Some(e.provider),
                    current_model: Some(e.model),
                    ..self
                },
                seq![
                    ClientMsgView::SetSessionModel {
                        session_id: sid,
                        model_id: e.id,
                        node_id: e.node_id,
                    },
                ],
            ),
            None => (self, Seq::empty()),
        }
    }

    /// With the remembered model and effort, and the messages that ask for
    /// what differs.
    pub open spec fn mode_restored(self) -> (AppView, Seq<ClientMsgView>) {
        match self.remembered() {
            Some(cached) => {
                let (s, msgs) = self.restored_model(
                    self.session_id->0,
                    self.model_to_restore(cached.model),
                );
                if cached.effort != s.reasoning_effort {
                    (
                        AppView { reasoning_effort: cached.effort, ..s },
                        msgs.push(
                            ClientMsgView::SetReasoningEffort {
                                reasoning_effort: effort_name(cached.effort),
                            },
                        ),
                    )
                } else {
                    (s, msgs)
                }
            },
            None => (self, Seq::empty()),
        }
    }
}

/// What was remembered is restored once: restoring it again asks for nothing more
/// and changes nothing, whether or not the model is on offer.
pub proof fn law_restoring_twice_is_silent(app: AppView)
    ensures
        app.mode_restored().0.mode_restored() == (
            app.mode_restored().0,
            Seq::<ClientMsgView>::empty(),
        ),
{
    if let Some(cached) = app.remembered() {
        let key = cached.model;
        if key != app.current_key() {
            lemma_first_index(key, is_char('/'));
            if let Some((provider, model)) = cut_once(key, '/') {
                reveal_strlit("/");
                assert(model_key(provider, model) =~= key);
                lemma_first_index(app.models, is_model(provider, model));
            }
        }
        let once = app.mode_restored().0;
        assert(once.remembered() == Some(cached));
        assert(once.model_to_restore(key) is None);
    }
}

/// What was remembered in a mode asks for nothing as long as model and effort
/// stay.
pub proof fn law_restore_of_current_is_silent(app: AppView)
    requires
        app.session_id is Some,
        app.current_provider is Some,
        app.current_model is Some,
    ensures
        app.mode_cached().mode_restored() == (app.mode_cached(), Seq::<ClientMsgView>::empty()),
{
    let c = app.mode_cached();
    law_cache_put_get(
        app.session_cache,
        app.session_id->0,
        app.agent_mode,
        CachedModeStateView {
            model: model_key(app.current_provider->0, app.current_model->0),
            effort: app.reasoning_effort,
        },
        app.session_id->0,
        app.agent_mode,
    );
    assert(c.remembered()->0.model == c.current_key());
}

/// Position of the first entry of a provider's model.
pub fn find_model(models: &Vec<ModelEntry>, provider: &str, model: &str) -> (r: Option<usize>)
    ensures
        match r {
            Some(k) => first_index(models.deep_view(), is_model(provider@, model@)) == Some(
                k as int,
            ) && k < models@.len(),
            None => first_index(models.deep_view(), is_model(provider@, model@)) is None,
        },
{
    let ghost mv = models.deep_view();
    let ghost p = is_model(provider@, model@);
    let mut i: usize = 0;
    while i < models.len()
        invariant
            i <= models@.len(),
            mv == models.deep_view(),
            p == is_model(provider@, model@),
            forall|j: int| 0 <= j < i ==> !p(#[trigger] mv[j]),
        decreases models@.len() - i,
    {
        assert(mv[i as int] == models@[i as int].deep_view());
        if same(models[i].provider.as_str(), provider) && same(models[i].model.as_str(), model) {
            proof {
                lemma_first_is(mv, p, i as int);
            }
            return Some(i);
        }
        i = i + 1;
    }
    proof {
        lemma_first_none(mv, p);
    }
    None
}

/// Position of the first entry of a provider's model that no node offers.
pub fn find_local_model(models: &Vec<ModelEntry>, provider: &str, model: &str) -> (r: Option<
    usize,
>)
    ensures
        match r {
            Some(k) => first_index(models.deep_view(), is_local_model(provider@, model@)) == Some(
                k as int,
            ) && k < models@.len(),
            None => first_index(models.deep_view(), is_local_model(provider@, model@)) is None,
        },
{
    let ghost mv = models.deep_view();
    let ghost p = is_local_model(provider@, model@);
    let mut i: usize = 0;
    while i < models.len()
        invariant
            i <= models@.len(),
            mv == models.deep_view(),
            p == is_local_model(provider@, model@),
            forall|j: int| 0 <= j < i ==> !p(#[trigger] mv[j]),
        decreases models@.len() - i,
    {
        assert(mv[i as int] == models@[i as int].deep_view());
        if same(models[i].provider.as_str(), provider) && same(models[i].model.as_str(), model)
            && models[i].node_id.is_none() {
            proof {
                lemma_first_is(mv, p, i as int);
            }
            return Some(i);
        }
        i = i + 1;
    }
    proof {
        lemma_first_none(mv, p);
    }
    None
}

impl App {
    /// The name of the current level.
    pub fn reasoning_effort_label(&self) -> (r: String)
        ensures
            r@ == effort_name(self@.reasoning_effort),
    {
        match &self.reasoning_effort {
            Some(s) => s.clone(),
            None => owned("auto"),
        }
    }

    /// Moves on to the next level, remembers it, and gives the message that
    /// tells the server.
    pub fn cycle_reasoning_effort(&mut self) -> (r: ClientMsg)
        ensures
            final(self)@ == old(self)@.effort_cycled(),
            r.deep_view() == (ClientMsgView::SetReasoningEffort {
                reasoning_effort: effort_name(next_effort(old(self)@.reasoning_effort)),
            }),
    {
        let next: Option<&'static str> = if opt_is(&self.reasoning_effort, "low") {
            Some("medium")
        } else if opt_is(&self.reasoning_effort, "medium") {
            Some("high")
        } else if opt_is(&self.reasoning_effort, "high") {
            Some("max")
        } else if opt_is(&self.reasoning_effort, "max") {
            None
        } else {
            Some("low")
        };
        self.reasoning_effort = match next {
            Some(s) => Some(owned(s)),
            None => None,
        };
        self.cache_session_mode_state();
        ClientMsg::SetReasoningEffort {
            reasoning_effort: match next {
                Some(s) => owned(s),
                None => owned("auto"),
            },
        }
    }

    /// Remembers model and effort for the session and its mode.
    pub fn cache_session_mode_state(&mut self)
        ensures
            final(self)@ == old(self)@.mode_cached(),
    {
        if self.session_id.is_none() || self.current_provider.is_none()
            || self.current_model.is_none() {
            return ;
        }
        let sid = copy_opt(&self.session_id).unwrap();
        let provider = copy_opt(&self.current_provider).unwrap();
        let model = copy_opt(&self.current_model).unwrap();
        let state = CachedModeState {
            model: cat3(provider.as_str(), "/", model.as_str()),
            effort: copy_opt(&self.reasoning_effort),
        };
        let mut modes = match self.session_cache.remove(sid.as_str()) {
            Some(m) => m,
            None => StrMap::new(),
        };
        modes.insert(self.agent_mode.clone(), state);
        self.session_cache.insert(sid, modes);
        proof {
            let c = old(self)@.session_cache;
            let m = if c.contains_key(sid@) {
                c[sid@]
            } else {
                Map::empty()
            };
            assert(c.remove(sid@).insert(
                sid@,
                m.insert(old(self)@.agent_mode, state.deep_view()),
            ) =~= c.insert(sid@, m.insert(old(self)@.agent_mode, state.deep_view())));
        }
    }

    /// The key of the current model, or nothing.
    fn current_model_key(&self) -> (r: String)
        ensures
            r@ == self@.current_key(),
    {
        match (&self.current_provider, &self.current_model) {
            (Some(p), Some(m)) => cat3(p.as_str(), "/", m.as_str()),
            _ => String::new(),
        }
    }

    /// What is remembered for the session and its mode.
    fn remembered_mode_state(&self) -> (r: Option<CachedModeState>)
        ensures
            r.deep_view() == self@.remembered(),
    {
        match &self.session_id {
            Some(sid) => match self.session_cache.get(sid.as_str()) {
                Some(modes) => match modes.get(self.agent_mode.as_str()) {
                    Some(state) => Some(state.clone()),
                    None => None,
                },
                None => None,
            },
            None => None,
        }
    }

    /// Restores the model and the effort that are remembered for the session
    /// and its mode, and gives the messages that ask the server for what
    /// differs.
    pub fn apply_cached_mode_state(&mut self) -> (r: Vec<ClientMsg>)
        ensures
            (final(self)@, r.deep_view()) == old(self)@.mode_restored(),
    {
        let mut cmds: Vec<ClientMsg> = Vec::new();
        assert(cmds.deep_view() =~= Seq::<ClientMsgView>::empty());
        let cached = match self.remembered_mode_state() {
            Some(c) => c,
            None => {
                return cmds;
            },
        };
        let sid = copy_opt(&self.session_id).unwrap();
        let key = self.current_model_key();
        let ghost before = self@;
        if !same(cached.model.as_str(), key.as_str()) {
            if let Some((provider, model)) = split_once(cached.model.as_str(), '/') {
                if let Some(k) = find_model(&self.models, provider.as_str(), model.as_str()) {
                    proof {
                        crate::seqs::lemma_first_index(
                            self@.models,
                            is_model(provider@, model@),
                        );
                        assert(self@.models[k as int] == self.models@[k as int].deep_view());
                    }
                    cmds.push(
                        ClientMsg::SetSessionModel {
                            session_id: sid,
                            model_id: self.models[k].id.clone(),
                            node_id: copy_opt(&self.models[k].node_id),
                        },
                    );
                    self.current_provider = Some(provider);
                    self.current_model = Some(model);
                }
            }
        }
        let ghost step = before.restored_model(
            before.session_id->0,
            before.model_to_restore(cached.model@),
        );
        assert(self@ =~= step.0);
        assert(cmds.deep_view() =~= step.1);
        if !same_opt(&cached.effort, &self.reasoning_effort) {
            let name = match &cached.effort {
                Some(s) => s.clone(),
                None => owned("auto"),
            };
            cmds.push(ClientMsg::SetReasoningEffort { reasoning_effort: name });
            self.reasoning_effort = cached.effort;
            assert(cmds.deep_view() =~= step.1.push(
                ClientMsgView::SetReasoningEffort { reasoning_effort: name@ },
            ));
        }
        cmds
    }
}

// ── the model list ───────────────────────────────────────────────────────────

/// The models that the model popup shows for a filter.
pub open spec fn model_shown(query: Seq<char>) -> spec_fn(ModelEntryView) -> bool {
    |m: ModelEntryView|
        {
            ||| contains(lowercase(m.label), query)
            ||| contains(lowercase(m.provider), query)
            ||| contains(lowercase(m.model), query)
        }
}

impl AppView {
    /// The models that the filter leaves.
    pub open spec fn shown_models(self) -> Seq<ModelEntryView> {
        if self.model_filter.len() == 0 {
            self.models
        } else {
            self.models.filter(model_shown(lowercase(self.model_filter)))
        }
    }
}

impl App {
    /// The models that the filter leaves.
    pub fn filtered_models(&self) -> (r: Vec<&ModelEntry>)
        ensures
            r.deep_view() == self@.shown_models(),
    {
        let all = self.model_filter.as_str().is_empty();
        let q = to_lower(self.model_filter.as_str());
        let ghost p = model_shown(q@);
        let ghost mv = self@.models;
        let mut out: Vec<&ModelEntry> = Vec::new();
        let mut i: usize = 0;
        assert(out.deep_view() =~= mv.take(0).filter(p)) by {
            reveal(Seq::filter);
        }
        assert(out.deep_view() =~= mv.take(0));
        while i < self.models.len()
            invariant
                i <= self.models@.len(),
                mv == self@.models,
                q@ == lowercase(self.model_filter@),
                p == model_shown(q@),
                all ==> out.deep_view() == mv.take(i as int),
                !all ==> out.deep_view() == mv.take(i as int).filter(p),
            decreases self.models@.len() - i,
        {
            let m = &self.models[i];
            let ghost before = out.deep_view();
            proof {
                lemma_filter_step(mv, p, i as int);
                assert(mv[i as int] == m.deep_view());
                assert(mv.take(i + 1) =~= mv.take(i as int).push(mv[i as int]));
            }
            if all || has(to_lower(m.label.as_str()).as_str(), q.as_str()) || has(
                to_lower(m.provider.as_str()).as_str(),
                q.as_str(),
            ) || has(to_lower(m.model.as_str()).as_str(), q.as_str()) {
                out.push(m);
                assert(out.deep_view() =~= before.push(mv[i as int]));
            }
            i = i + 1;
        }
        proof {
            lemma_take_all(mv);
        }
        out
    }

    /// Remembers the model that the user chose for a mode.
    pub fn set_mode_model_preference(&mut self, mode: &str, provider: &str, model: &str)
        ensures
            final(self)@ == (AppView {
                mode_model_preferences: old(self)@.mode_model_preferences.insert(
                    mode@,
                    (provider@, model@),
                ),
                ..old(self)@
            }),
    {
        self.mode_model_preferences.insert(owned(mode), (owned(provider), owned(model)));
    }

    /// The model that the user chose for a mode.
    pub fn get_mode_model_preference(&self, mode: &str) -> (r: Option<(String, String)>)
        ensures
            r.deep_view() == (if self@.mode_model_preferences.contains_key(mode@) {
                Some(self@.mode_model_preferences[mode@])
            } else {
                None
            }),
    {
        match self.mode_model_preferences.get(mode) {
            Some(pair) => Some((pair.0.clone(), pair.1.clone())),
            None => None,
        }
    }

    /// The mode behind the current one: build and plan take turns, any other
    /// is followed by build.
    pub fn next_mode(&self) -> (r: &'static str)
        ensures
            r@ == mode_after(self@.agent_mode),
    {
        if same(self.agent_mode.as_str(), "build") {
            "plan"
        } else {
            "build"
        }
    }
}

/// The mode behind `mode`.
pub open spec fn mode_after(mode: Seq<char>) -> Seq<char> {
    if mode == "build"@ {
        "plan"@
    } else {
        "build"@
    }
}

/// Build and plan take turns.
pub proof fn law_modes_take_turns(mode: Seq<char>)
    requires
        mode == "build"@ || mode == "plan"@,
    ensures
        mode_after(mode_after(mode)) == mode,
        mode_after(mode) != mode,
{
    reveal_strlit("build");
    reveal_strlit("plan");
    assert("build"@.len() == 5);
    assert("plan"@.len() == 4);
}

/// The levels rise from low over medium and high to max, and auto stands between max and
/// low; from a level that is not known the next is low.
pub proof fn law_efforts_rise(level: Seq<char>)
    ensures
        next_effort(None) == Some("low"@),
        next_effort(Some("low"@)) == Some("medium"@),
        next_effort(Some("medium"@)) == Some("high"@),
        next_effort(Some("high"@)) == Some("max"@),
        next_effort(Some("max"@)) is None,
        !known_effort(Some(level)) ==> next_effort(Some(level)) == Some("low"@),
        effort_name(None) == "auto"@,
        effort_name(Some(level)) == level,
{
    reveal_strlit("low");
    reveal_strlit("medium");
    reveal_strlit("high");
    reveal_strlit("max");
    assert("low"@.len() == 3 && "low"@[0] == 'l');
    assert("max"@.len() == 3 && "max"@[0] == 'm');
    assert("medium"@.len() == 6);
    assert("high"@.len() == 4);
}

/// What is remembered for the mode of a session is in use again once it is restored, as
/// far as the model is on offer, and the server is told of each thing that changed: of the
/// model by the id that it is offered under.
pub proof fn law_remembered_model_is_restored(
    app: AppView,
    provider: Seq<char>,
    model: Seq<char>,
    k: int,
)
    requires
        app.remembered() is Some,
        cut_once(app.remembered()->0.model, '/') == Some((provider, model)),
        app.remembered()->0.model != app.current_key(),
        0 <= k < app.models.len(),
        app.models[k].provider == provider,
        app.models[k].model == model,
        forall|j: int|
            0 <= j < k ==> (#[trigger] app.models[j]).provider != provider || app.models[j].model
                != model,
    ensures
        ({
            let (next, sent) = app.mode_restored();
            let effort = app.remembered()->0.effort;
            &&& next.current_provider == Some(provider)
            &&& next.current_model == Some(model)
            &&& next.reasoning_effort == effort
            &&& sent.len() == if effort == app.reasoning_effort {
                1int
            } else {
                2int
            }
            &&& sent[0] == (ClientMsgView::SetSessionModel {
                session_id: app.session_id->0,
                model_id: app.models[k].id,
                node_id: app.models[k].node_id,
            })
            &&& effort != app.reasoning_effort ==> sent[1] == (ClientMsgView::SetReasoningEffort {
                reasoning_effort: effort_name(effort),
            })
        }),
{
    lemma_first_is(app.models, is_model(provider, model), k);
}

} // verus!
