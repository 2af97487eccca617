use qmtui::app::{App, CachedModeState, ConnState, Popup};
use qmtui::handlers::{handle_key, KeyCode, KeyEvent, Outbox};
use qmtui::protocol::{ClientMsg, ModelEntry, RawServerMsg, ReasoningEffortData, ServerData};
use qmtui::strmap::StrMap;
use qmtui::theme::Base16Palette;

fn palette(id: &str, shade: u32) -> Base16Palette {
    let mut colors: [u32; 16] = [0; 16];
    for (i, c) in colors.iter_mut().enumerate() {
        *c = shade + 0x01_01_01 * (i as u32);
    }
    Base16Palette { id: id.to_string(), label: id.to_string(), colors }
}

fn new_app() -> App {
    App::new(vec![
        palette("base16-querymate", 0x10_20_30),
        palette("base16-ocean", 0x20_10_40),
        palette("base16-eighties", 0x40_50_10),
    ])
}

fn key(code: KeyCode) -> KeyEvent {
    KeyEvent { code, ctrl: false }
}

fn ctrl(code: KeyCode) -> KeyEvent {
    KeyEvent { code, ctrl: true }
}

fn take(out: &mut Outbox) -> ClientMsg {
    assert!(!out.msgs.is_empty(), "message sent");
    out.msgs.remove(0)
}

fn remember(app: &mut App, sid: &str, mode: &str, state: CachedModeState) {
    let mut modes = app.session_cache.remove(sid).unwrap_or_else(StrMap::new);
    modes.insert(mode.into(), state);
    app.session_cache.insert(sid.into(), modes);
}

fn effort_msg(effort: &str) -> RawServerMsg {
    RawServerMsg {
        msg_type: "reasoning_effort".into(),
        data: Some(ServerData::ReasoningEffort(ReasoningEffortData {
            reasoning_effort: Some(effort.into()),
        })),
    }
}

fn ctrl_t() -> KeyEvent {
    ctrl(KeyCode::Char('t'))
}

// ── Ctrl+t cycles reasoning effort and sends message ─────────────────────

#[test]
fn ctrl_t_cycles_effort_and_sends_msg() {
    let mut tx = Outbox::new();
    let mut app = new_app();
    assert_eq!(app.reasoning_effort, None);

    handle_key(&mut app, ctrl_t(), &mut tx);

    assert_eq!(app.reasoning_effort, Some("low".into()));
    let msg = take(&mut tx);
    match msg {
        ClientMsg::SetReasoningEffort { reasoning_effort } => {
            assert_eq!(reasoning_effort, "low");
        }
        other => panic!("unexpected message: {other:?}"),
    }
}

#[test]
fn ctrl_t_full_cycle_sends_auto_on_wrap() {
    let mut tx = Outbox::new();
    let mut app = new_app();
    app.reasoning_effort = Some("max".into());

    handle_key(&mut app, ctrl_t(), &mut tx);

    assert_eq!(app.reasoning_effort, None);
    let msg = take(&mut tx);
    match msg {
        ClientMsg::SetReasoningEffort { reasoning_effort } => {
            assert_eq!(reasoning_effort, "auto");
        }
        other => panic!("unexpected message: {other:?}"),
    }
}

#[test]
fn ctrl_t_status_updated() {
    let mut tx = Outbox::new();
    let mut app = new_app();
    handle_key(&mut app, ctrl_t(), &mut tx);
    // status should reflect the new level
    assert!(
        app.status.contains("low"),
        "expected status to mention 'low', got: {}",
        app.status
    );
}

fn make_model(provider: &str, model: &str) -> ModelEntry {
    ModelEntry {
        id: format!("{provider}/{model}"),
        label: model.into(),
        provider: provider.into(),
        model: model.into(),
        node_id: None,
        family: None,
        quant: None,
    }
}

fn tab_key() -> KeyEvent {
    key(KeyCode::Tab)
}

// ── Ctrl+x t caches mode state per session ──────────────────────────────

#[test]
fn ctrl_t_caches_mode_state_for_session() {
    let mut tx = Outbox::new();
    let mut app = new_app();
    app.session_id = Some("s1".into());
    app.agent_mode = "build".into();
    app.current_provider = Some("acme".into());
    app.current_model = Some("sonnet".into());
    app.conn = ConnState::Connected;

    handle_key(&mut app, ctrl(KeyCode::Char('t')), &mut tx);

    let cms = &app.session_cache.get("s1").unwrap().get("build").unwrap();
    assert_eq!(cms.model, "acme/sonnet");
    assert_eq!(cms.effort, Some("low".into()));
}

// ── Tab: saves outgoing, restores incoming ────────────────────────────────

#[test]
fn tab_saves_outgoing_and_restores_incoming_mode_state() {
    let mut tx = Outbox::new();
    let mut app = new_app();
    app.conn = ConnState::Connected;
    app.session_id = Some("s1".into());
    app.agent_mode = "build".into();
    app.current_provider = Some("acme".into());
    app.current_model = Some("sonnet".into());
    app.reasoning_effort = Some("high".into());
    app.models = vec![
        make_model("acme", "sonnet"),
        make_model("openai", "gpt-4o"),
    ];

    // Pre-cache plan mode state for this session
    remember(&mut app, "s1", "plan",
        CachedModeState {
            model: "openai/gpt-4o".into(),
            effort: Some("low".into()),
        },
    );

    // Tab → switch build → plan
    handle_key(&mut app, tab_key(), &mut tx);

    // Outgoing build state saved
    let build = &app.session_cache.get("s1").unwrap().get("build").unwrap();
    assert_eq!(build.model, "acme/sonnet");
    assert_eq!(build.effort, Some("high".into()));

    // Incoming plan state restored
    assert_eq!(app.agent_mode, "plan");
    assert_eq!(app.current_provider.as_deref(), Some("openai"));
    assert_eq!(app.current_model.as_deref(), Some("gpt-4o"));
    assert_eq!(app.reasoning_effort, Some("low".into()));

    let msgs: Vec<_> = std::mem::take(&mut tx.msgs);
    assert!(
        msgs.iter()
            .any(|m| matches!(m, ClientMsg::SetSessionModel { .. })),
        "expected SetSessionModel: {msgs:?}"
    );
    assert!(
        msgs.iter().any(|m| matches!(
            m,
            ClientMsg::SetReasoningEffort { reasoning_effort }
            if reasoning_effort == "low"
        )),
        "expected SetReasoningEffort(low): {msgs:?}"
    );
}

#[test]
fn tab_no_cache_entry_leaves_model_and_effort_unchanged() {
    let mut tx = Outbox::new();
    let mut app = new_app();
    app.conn = ConnState::Connected;
    app.session_id = Some("s1".into());
    app.agent_mode = "build".into();
    app.current_provider = Some("acme".into());
    app.current_model = Some("sonnet".into());
    app.reasoning_effort = Some("high".into());
    // No plan cache entry

    handle_key(&mut app, tab_key(), &mut tx);

    // Mode switched but model/effort unchanged (no cache to restore from)
    assert_eq!(app.agent_mode, "plan");
    assert_eq!(app.reasoning_effort, Some("high".into()));
    assert_eq!(app.current_model.as_deref(), Some("sonnet"));
    let msgs: Vec<_> = std::mem::take(&mut tx.msgs);
    assert!(
        !msgs
            .iter()
            .any(|m| matches!(m, ClientMsg::SetReasoningEffort { .. })),
        "no SetReasoningEffort expected: {msgs:?}"
    );
}

// ── Model select: drops effort to auto ────────────────────────────────────

#[test]
fn model_select_drops_effort_to_auto() {
    let mut tx = Outbox::new();
    let mut app = new_app();
    app.conn = ConnState::Connected;
    app.session_id = Some("s1".into());
    app.popup = Popup::ModelSelect;
    app.agent_mode = "build".into();
    app.current_provider = Some("acme".into());
    app.current_model = Some("sonnet".into());
    app.reasoning_effort = Some("high".into());
    app.models = vec![make_model("acme", "opus")];
    app.model_cursor = 0;

    handle_key(&mut app, key(KeyCode::Enter), &mut tx);

    // Effort dropped to auto
    assert_eq!(app.reasoning_effort, None);

    let msgs: Vec<_> = std::mem::take(&mut tx.msgs);
    assert!(
        msgs.iter().any(|m| matches!(
            m,
            ClientMsg::SetReasoningEffort { reasoning_effort }
            if reasoning_effort == "auto"
        )),
        "expected SetReasoningEffort(auto): {msgs:?}"
    );
}

#[test]
fn model_select_caches_new_model_with_auto_effort() {
    let mut tx = Outbox::new();
    let mut app = new_app();
    app.conn = ConnState::Connected;
    app.session_id = Some("s1".into());
    app.popup = Popup::ModelSelect;
    app.agent_mode = "build".into();
    app.current_provider = Some("acme".into());
    app.current_model = Some("sonnet".into());
    app.reasoning_effort = Some("high".into());
    app.models = vec![make_model("acme", "opus")];
    app.model_cursor = 0;

    handle_key(&mut app, key(KeyCode::Enter), &mut tx);

    let cms = &app.session_cache.get("s1").unwrap().get("build").unwrap();
    assert_eq!(cms.model, "acme/opus");
    assert_eq!(cms.effort, None); // auto
}

#[test]
fn model_select_no_effort_msg_when_already_auto() {
    let mut tx = Outbox::new();
    let mut app = new_app();
    app.conn = ConnState::Connected;
    app.session_id = Some("s1".into());
    app.popup = Popup::ModelSelect;
    app.agent_mode = "build".into();
    app.current_provider = Some("acme".into());
    app.current_model = Some("sonnet".into());
    app.reasoning_effort = None; // already auto
    app.models = vec![make_model("acme", "opus")];
    app.model_cursor = 0;

    handle_key(&mut app, key(KeyCode::Enter), &mut tx);

    let msgs: Vec<_> = std::mem::take(&mut tx.msgs);
    assert!(
        !msgs
            .iter()
            .any(|m| matches!(m, ClientMsg::SetReasoningEffort { .. })),
        "no SetReasoningEffort when already auto: {msgs:?}"
    );
}

// ── reasoning_effort server push caches per session+mode ──────────────────

#[test]
fn server_push_caches_effort_for_session_and_mode() {
    let mut app = new_app();
    app.session_id = Some("s1".into());
    app.agent_mode = "build".into();
    app.current_provider = Some("acme".into());
    app.current_model = Some("sonnet".into());

    app.handle_server_msg(effort_msg("medium"));

    let cms = &app.session_cache.get("s1").unwrap().get("build").unwrap();
    assert_eq!(cms.model, "acme/sonnet");
    assert_eq!(cms.effort, Some("medium".into()));
}

#[test]
fn server_push_auto_caches_none_effort() {
    let mut app = new_app();
    app.session_id = Some("s1".into());
    app.agent_mode = "build".into();
    app.current_provider = Some("acme".into());
    app.current_model = Some("sonnet".into());
    app.reasoning_effort = Some("high".into());

    app.handle_server_msg(effort_msg("auto"));

    let cms = &app.session_cache.get("s1").unwrap().get("build").unwrap();
    assert_eq!(cms.effort, None);
}
