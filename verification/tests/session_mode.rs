use qmtui::app::{App, CachedModeState};
use qmtui::protocol::{
    AgentEvent, ClientMsg, EventKind, ModelEntry, RawServerMsg, ReasoningEffortField, ServerData,
    SessionCreatedData, SessionLoadedData, StateData,
};
use qmtui::strmap::StrMap;
use qmtui::theme::Base16Palette;

fn palette(id: &str, shade: u32) -> Base16Palette {
    let mut colors: [u32; 16] = [0; 16];
    for (i, c) in colors.iter_mut().enumerate() {
        *c = shade + 0x01_01_01 * (i as u32);
    }
    Base16Palette { id: id.to_string(), label: id.to_string(), colors }
}

fn new_app() -> App {
    App::new(vec![
        palette("base16-querymate", 0x10_20_30),
        palette("base16-ocean", 0x20_10_40),
        palette("base16-eighties", 0x40_50_10),
    ])
}

fn remember(app: &mut App, sid: &str, mode: &str, state: CachedModeState) {
    let mut modes = app.session_cache.remove(sid).unwrap_or_else(StrMap::new);
    modes.insert(mode.into(), state);
    app.session_cache.insert(sid.into(), modes);
}

fn event(kind: EventKind) -> Option<AgentEvent> {
    Some(AgentEvent { kind, timestamp: None })
}

fn provider_changed_event(provider: &str, model: &str) -> Option<AgentEvent> {
    event(EventKind::ProviderChanged {
        provider: provider.into(),
        model: model.into(),
        config_id: None,
        context_limit: None,
    })
}

fn mode_changed_event(mode: &str) -> Option<AgentEvent> {
    event(EventKind::SessionModeChanged { mode: mode.into() })
}

fn make_session_loaded(audit: Option<Vec<Option<AgentEvent>>>) -> RawServerMsg {
    RawServerMsg {
        msg_type: "session_loaded".into(),
        data: Some(ServerData::SessionLoaded(SessionLoadedData {
            session_id: "s1".into(),
            agent_id: "a1".into(),
            audit,
            undo_stack: vec![],
        })),
    }
}

// ── SessionModeChanged in live events ─────────────────────────────────────

#[test]
fn live_session_mode_changed_updates_agent_mode() {
    let mut app = new_app();
    app.agent_mode = "build".into();
    app.handle_event_kind(
        &EventKind::SessionModeChanged {
            mode: "plan".into(),
        },
        false,
    );
    assert_eq!(app.agent_mode, "plan");
}

#[test]
fn live_session_mode_changed_to_build_updates_agent_mode() {
    let mut app = new_app();
    app.agent_mode = "plan".into();
    app.handle_event_kind(
        &EventKind::SessionModeChanged {
            mode: "build".into(),
        },
        false,
    );
    assert_eq!(app.agent_mode, "build");
}

// ── SessionModeChanged in audit replay ────────────────────────────────────

#[test]
fn replay_session_mode_changed_restores_mode() {
    let mut app = new_app();
    app.agent_mode = "build".into();
    let audit = Some(vec![mode_changed_event("plan")]);
    app.replay_audit(&audit);
    assert_eq!(app.agent_mode, "plan");
}

#[test]
fn replay_last_session_mode_changed_wins() {
    let mut app = new_app();
    app.agent_mode = "build".into();
    let audit = Some(vec![
        mode_changed_event("plan"),
        mode_changed_event("build"),
        mode_changed_event("plan"),
    ]);
    app.replay_audit(&audit);
    assert_eq!(app.agent_mode, "plan");
}

#[test]
fn replay_no_mode_change_leaves_agent_mode_unchanged() {
    let mut app = new_app();
    app.agent_mode = "build".into();
    let audit = Some(vec![provider_changed_event("acme", "sonnet")]);
    app.replay_audit(&audit);
    assert_eq!(app.agent_mode, "build");
}

// ── session_loaded returns SetAgentMode ───────────────────────────────────

#[test]
fn session_loaded_returns_set_agent_mode_from_audit() {
    let mut app = new_app();
    app.agent_mode = "build".into();
    let audit = Some(vec![mode_changed_event("plan")]);
    let cmds = app.handle_server_msg(make_session_loaded(audit));
    assert!(
        cmds.iter().any(|m| matches!(
            m,
            ClientMsg::SetAgentMode { mode } if mode == "plan"
        )),
        "expected SetAgentMode(plan) in {cmds:?}"
    );
}

#[test]
fn session_loaded_always_returns_set_agent_mode_even_without_mode_event() {
    let mut app = new_app();
    app.agent_mode = "build".into();
    let audit = Some(vec![]);
    let cmds = app.handle_server_msg(make_session_loaded(audit));
    // No SessionModeChanged → agent_mode stays "build"; command still sent
    assert!(
        cmds.iter().any(|m| matches!(
            m,
            ClientMsg::SetAgentMode { mode } if mode == "build"
        )),
        "expected SetAgentMode(build) in {cmds:?}"
    );
}

// ── session_loaded restores mode state from session cache ──────────────────

#[test]
fn session_loaded_restores_effort_from_session_cache() {
    let mut app = new_app();
    // Pre-cache: session s1, mode plan, model acme/sonnet, effort high
    remember(&mut app, "s1", "plan",
        CachedModeState {
            model: "acme/sonnet".into(),
            effort: Some("high".into()),
        },
    );

    let audit = Some(vec![
        provider_changed_event("acme", "sonnet"),
        mode_changed_event("plan"),
    ]);
    let cmds = app.handle_server_msg(make_session_loaded(audit));
    assert!(
        cmds.iter().any(|m| matches!(
            m,
            ClientMsg::SetReasoningEffort { reasoning_effort } if reasoning_effort == "high"
        )),
        "expected SetReasoningEffort(high) in {cmds:?}"
    );
    assert_eq!(app.reasoning_effort, Some("high".into()));
}

#[test]
fn session_loaded_restores_model_from_session_cache() {
    let mut app = new_app();
    // Cache says plan mode used opus
    remember(&mut app, "s1", "plan",
        CachedModeState {
            model: "acme/opus".into(),
            effort: Some("max".into()),
        },
    );
    // Need opus in the models list
    app.models = vec![ModelEntry {
        id: "acme/opus".into(),
        label: "opus".into(),
        provider: "acme".into(),
        model: "opus".into(),
        node_id: None,
        family: None,
        quant: None,
    }];

    // Audit says session was in plan mode using sonnet (different from cache)
    let audit = Some(vec![
        provider_changed_event("acme", "sonnet"),
        mode_changed_event("plan"),
    ]);
    let cmds = app.handle_server_msg(make_session_loaded(audit));

    // Cache wins: model switched to opus
    assert!(
        cmds.iter()
            .any(|m| matches!(m, ClientMsg::SetSessionModel { .. })),
        "expected SetSessionModel in {cmds:?}"
    );
    assert_eq!(app.current_model.as_deref(), Some("opus"));
}

#[test]
fn session_loaded_no_cache_entry_returns_no_effort_or_model_cmds() {
    let mut app = new_app();
    app.reasoning_effort = None;
    let audit = Some(vec![
        provider_changed_event("acme", "sonnet"),
        mode_changed_event("plan"),
    ]);

    let cmds = app.handle_server_msg(make_session_loaded(audit));
    // Only SetAgentMode, no SetReasoningEffort or SetSessionModel
    assert!(
        !cmds
            .iter()
            .any(|m| matches!(m, ClientMsg::SetReasoningEffort { .. })),
        "expected no SetReasoningEffort: {cmds:?}"
    );
    assert!(
        !cmds
            .iter()
            .any(|m| matches!(m, ClientMsg::SetSessionModel { .. })),
        "expected no SetSessionModel: {cmds:?}"
    );
}

// ── handle_server_msg returns Vec now (backward compat for other msgs) ────

#[test]
fn state_msg_returns_empty_vec() {
    let mut app = new_app();
    let cmds = app.handle_server_msg(RawServerMsg {
        msg_type: "state".into(),
        data: Some(ServerData::State(StateData {
            active_session_id: None,
            agents: vec![],
            agent_mode: Some("build".into()),
            reasoning_effort: ReasoningEffortField::Absent,
        })),
    });
    assert!(cmds.is_empty());
}

#[test]
fn session_created_returns_subscribe_in_vec() {
    let mut app = new_app();
    let cmds = app.handle_server_msg(RawServerMsg {
        msg_type: "session_created".into(),
        data: Some(ServerData::SessionCreated(SessionCreatedData {
            session_id: "s99".into(),
            agent_id: "a1".into(),
            request_id: None,
        })),
    });
    assert!(
        cmds.iter().any(|m| matches!(m, ClientMsg::SubscribeSession { session_id, .. } if session_id == "s99")),
        "expected SubscribeSession in {cmds:?}"
    );
}
