use qmtui::app::{App, CachedModeState};
use qmtui::protocol::{ClientMsg, ModelEntry};
use qmtui::strmap::StrMap;
use qmtui::theme::Base16Palette;

fn palette(id: &str, shade: u32) -> Base16Palette {
    let mut colors: [u32; 16] = [0; 16];
    for (i, c) in colors.iter_mut().enumerate() {
        *c = shade + 0x01_01_01 * (i as u32);
    }
    Base16Palette { id: id.to_string(), label: id.to_string(), colors }
}

fn new_app() -> App {
    App::new(vec![
        palette("base16-querymate", 0x10_20_30),
        palette("base16-ocean", 0x20_10_40),
        palette("base16-eighties", 0x40_50_10),
    ])
}

fn remember(app: &mut App, sid: &str, mode: &str, state: CachedModeState) {
    let mut modes = app.session_cache.remove(sid).unwrap_or_else(StrMap::new);
    modes.insert(mode.into(), state);
    app.session_cache.insert(sid.into(), modes);
}

fn set_ctx(app: &mut App, sid: &str, mode: &str, provider: &str, model: &str) {
    app.session_id = Some(sid.into());
    app.agent_mode = mode.into();
    app.current_provider = Some(provider.into());
    app.current_model = Some(model.into());
}

fn make_model_entry(provider: &str, model: &str) -> ModelEntry {
    ModelEntry {
        id: format!("{provider}/{model}"),
        label: model.into(),
        provider: provider.into(),
        model: model.into(),
        node_id: None,
        family: None,
        quant: None,
    }
}

// ── cache_session_mode_state ──────────────────────────────────────────────

#[test]
fn cache_stores_model_and_effort_under_session_and_mode() {
    let mut app = new_app();
    set_ctx(&mut app, "s1", "build", "acme", "sonnet");
    app.reasoning_effort = Some("high".into());

    app.cache_session_mode_state();

    let cms = &app.session_cache.get("s1").unwrap().get("build").unwrap();
    assert_eq!(cms.model, "acme/sonnet");
    assert_eq!(cms.effort, Some("high".into()));
}

#[test]
fn cache_stores_auto_effort_as_none() {
    let mut app = new_app();
    set_ctx(&mut app, "s1", "plan", "openai", "gpt-4o");
    app.reasoning_effort = None;

    app.cache_session_mode_state();

    let cms = &app.session_cache.get("s1").unwrap().get("plan").unwrap();
    assert_eq!(cms.model, "openai/gpt-4o");
    assert_eq!(cms.effort, None);
}

#[test]
fn cache_noop_when_no_session_id() {
    let mut app = new_app();
    app.agent_mode = "build".into();
    app.current_provider = Some("acme".into());
    app.current_model = Some("sonnet".into());

    app.cache_session_mode_state();

    assert!(app.session_cache.len() == 0);
}

#[test]
fn cache_noop_when_no_provider_or_model() {
    let mut app = new_app();
    app.session_id = Some("s1".into());
    app.agent_mode = "build".into();

    app.cache_session_mode_state();

    assert!(app.session_cache.len() == 0);
}

#[test]
fn cache_overwrites_existing_mode_entry() {
    let mut app = new_app();
    set_ctx(&mut app, "s1", "build", "acme", "sonnet");
    app.reasoning_effort = Some("low".into());
    app.cache_session_mode_state();

    // Switch model + effort, same session + mode
    app.current_model = Some("opus".into());
    app.current_provider = Some("acme".into());
    app.reasoning_effort = Some("max".into());
    app.cache_session_mode_state();

    let cms = &app.session_cache.get("s1").unwrap().get("build").unwrap();
    assert_eq!(cms.model, "acme/opus");
    assert_eq!(cms.effort, Some("max".into()));
}

#[test]
fn cache_different_modes_independent_within_session() {
    let mut app = new_app();

    set_ctx(&mut app, "s1", "build", "acme", "sonnet");
    app.reasoning_effort = Some("high".into());
    app.cache_session_mode_state();

    set_ctx(&mut app, "s1", "plan", "openai", "gpt-4o");
    app.reasoning_effort = Some("low".into());
    app.cache_session_mode_state();

    assert_eq!(
        app.session_cache.get("s1").unwrap().get("build").unwrap().model,
        "acme/sonnet"
    );
    assert_eq!(app.session_cache.get("s1").unwrap().get("build").unwrap().effort, Some("high".into()));
    assert_eq!(app.session_cache.get("s1").unwrap().get("plan").unwrap().model, "openai/gpt-4o");
    assert_eq!(app.session_cache.get("s1").unwrap().get("plan").unwrap().effort, Some("low".into()));
}

#[test]
fn cache_different_sessions_independent() {
    let mut app = new_app();

    set_ctx(&mut app, "s1", "build", "acme", "sonnet");
    app.reasoning_effort = Some("high".into());
    app.cache_session_mode_state();

    set_ctx(&mut app, "s2", "build", "acme", "sonnet");
    app.reasoning_effort = Some("low".into());
    app.cache_session_mode_state();

    assert_eq!(app.session_cache.get("s1").unwrap().get("build").unwrap().effort, Some("high".into()));
    assert_eq!(app.session_cache.get("s2").unwrap().get("build").unwrap().effort, Some("low".into()));
}

// ── apply_cached_mode_state ───────────────────────────────────────────────

#[test]
fn apply_restores_effort_when_model_matches() {
    let mut app = new_app();
    set_ctx(&mut app, "s1", "build", "acme", "sonnet");
    app.reasoning_effort = None;

    remember(&mut app, "s1", "build",
        CachedModeState {
            model: "acme/sonnet".into(),
            effort: Some("high".into()),
        },
    );

    let cmds = app.apply_cached_mode_state();
    assert_eq!(app.reasoning_effort, Some("high".into()));
    assert_eq!(cmds.len(), 1);
    assert!(
        matches!(&cmds[0], ClientMsg::SetReasoningEffort { reasoning_effort } if reasoning_effort == "high")
    );
}

#[test]
fn apply_restores_model_and_effort_when_model_differs() {
    let mut app = new_app();
    set_ctx(&mut app, "s1", "build", "acme", "sonnet");
    app.reasoning_effort = None;
    // The cached state says build mode used opus with max effort
    remember(&mut app, "s1", "build",
        CachedModeState {
            model: "acme/opus".into(),
            effort: Some("max".into()),
        },
    );
    // Need the model in the models list for the lookup
    app.models = vec![make_model_entry("acme", "opus")];

    let cmds = app.apply_cached_mode_state();

    assert_eq!(app.current_provider.as_deref(), Some("acme"));
    assert_eq!(app.current_model.as_deref(), Some("opus"));
    assert_eq!(app.reasoning_effort, Some("max".into()));
    assert_eq!(cmds.len(), 2);
    assert!(matches!(&cmds[0], ClientMsg::SetSessionModel { .. }));
    assert!(
        matches!(&cmds[1], ClientMsg::SetReasoningEffort { reasoning_effort } if reasoning_effort == "max")
    );
}

#[test]
fn apply_returns_empty_when_no_cache_entry() {
    let mut app = new_app();
    set_ctx(&mut app, "s1", "build", "acme", "sonnet");
    app.reasoning_effort = Some("high".into());

    let cmds = app.apply_cached_mode_state();
    assert!(cmds.is_empty());
    // Nothing changed
    assert_eq!(app.reasoning_effort, Some("high".into()));
}

#[test]
fn apply_returns_empty_when_everything_matches() {
    let mut app = new_app();
    set_ctx(&mut app, "s1", "build", "acme", "sonnet");
    app.reasoning_effort = Some("high".into());

    remember(&mut app, "s1", "build",
        CachedModeState {
            model: "acme/sonnet".into(),
            effort: Some("high".into()),
        },
    );

    let cmds = app.apply_cached_mode_state();
    assert!(cmds.is_empty());
}

#[test]
fn apply_returns_empty_when_no_session_id() {
    let mut app = new_app();
    app.agent_mode = "build".into();
    app.current_provider = Some("acme".into());
    app.current_model = Some("sonnet".into());
    app.reasoning_effort = Some("max".into());

    let cmds = app.apply_cached_mode_state();
    assert!(cmds.is_empty());
    assert_eq!(app.reasoning_effort, Some("max".into()));
}

#[test]
fn apply_skips_model_switch_when_model_not_in_models_list() {
    let mut app = new_app();
    set_ctx(&mut app, "s1", "build", "acme", "sonnet");
    app.reasoning_effort = None;

    remember(&mut app, "s1", "build",
        CachedModeState {
            model: "acme/opus".into(),
            effort: Some("max".into()),
        },
    );
    // models list is empty — can't resolve opus
    app.models = vec![];

    let cmds = app.apply_cached_mode_state();
    // Can't switch model, but effort still restored
    assert_eq!(app.current_model.as_deref(), Some("sonnet")); // unchanged
    assert_eq!(app.reasoning_effort, Some("max".into()));
    assert_eq!(cmds.len(), 1);
    assert!(matches!(&cmds[0], ClientMsg::SetReasoningEffort { .. }));
}

// ── cycle auto-caches ─────────────────────────────────────────────────────

#[test]
fn cycle_caches_mode_state() {
    let mut app = new_app();
    set_ctx(&mut app, "s1", "build", "acme", "sonnet");

    app.cycle_reasoning_effort();

    assert_eq!(app.reasoning_effort, Some("low".into()));
    let cms = &app.session_cache.get("s1").unwrap().get("build").unwrap();
    assert_eq!(cms.model, "acme/sonnet");
    assert_eq!(cms.effort, Some("low".into()));
}

#[test]
fn cycle_does_not_cache_when_no_context() {
    let mut app = new_app();
    app.cycle_reasoning_effort();
    assert_eq!(app.reasoning_effort, Some("low".into()));
    assert!(app.session_cache.len() == 0);
}
