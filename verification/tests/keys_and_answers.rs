use qmtui::app::{ActivityState, App, ChatEntry, ConnState, Screen, SessionOp};
use qmtui::elicitation::{
    ElicitationField, ElicitationFieldKind, ElicitationOption, ElicitationState,
};
use qmtui::handlers::{handle_key, KeyCode, KeyEvent, Outbox};
use qmtui::json::{parse, same_json, Json};
use qmtui::protocol::{
    ClientMsg, ModelEntry, RawServerMsg, ServerData, SessionGroup, SessionListData, SessionLoadedData,
    SessionSummary,
};
use qmtui::strmap::StrMap;
use qmtui::theme::Base16Palette;
use qmtui::tools::backfill_elicitation_outcomes;

fn palette(id: &str, shade: u32) -> Base16Palette {
    Base16Palette { id: id.into(), label: id.into(), colors: [shade; 16] }
}

fn chatting() -> App {
    let mut app = App::new(vec![palette("one", 0x10_20_30), palette("two", 0x40_50_60)]);
    app.conn = ConnState::Connected;
    app.screen = Screen::Chat;
    app.session_id = Some("s1".into());
    app
}

fn key(code: KeyCode) -> KeyEvent {
    KeyEvent { code, ctrl: false }
}

fn ctrl(c: char) -> KeyEvent {
    KeyEvent { code: KeyCode::Char(c), ctrl: true }
}

fn number_form(text: &str, integer: bool) -> ElicitationState {
    ElicitationState {
        elicitation_id: "e1".into(),
        message: "How many?".into(),
        source: "mcp:counter".into(),
        fields: vec![ElicitationField {
            name: "n".into(),
            title: "N".into(),
            description: None,
            required: true,
            kind: ElicitationFieldKind::NumberInput { integer },
        }],
        field_cursor: 0,
        option_cursor: 0,
        selected: StrMap::new(),
        text_input: text.into(),
        text_cursor: text.len(),
    }
}

fn answer(form: &ElicitationState) -> Json {
    match form.build_accept_content() {
        Json::Object(entries) => entries.into_iter().next().map(|e| e.1).unwrap(),
        _ => panic!("an object is sent"),
    }
}

// ── keys ──────────────────────────────────────────────────────────────────

#[test]
fn without_a_connection_nothing_is_sent() {
    let mut app = chatting();
    app.conn = ConnState::Disconnected;
    app.input = "hello".into();
    app.input_cursor = 5;
    let mut out = Outbox::new();
    handle_key(&mut app, key(KeyCode::Enter), &mut out);
    assert!(out.msgs.is_empty());
    assert_eq!(app.input, "hello");
    assert_eq!(app.status, "not connected - waiting to reconnect");
}

#[test]
fn a_second_esc_in_time_stops_the_agent() {
    let mut app = chatting();
    app.activity = ActivityState::Thinking;
    app.now_ns = 1_000_000_000;
    let mut out = Outbox::new();
    handle_key(&mut app, key(KeyCode::Esc), &mut out);
    assert!(out.msgs.is_empty());
    app.now_ns = 1_500_000_000;
    handle_key(&mut app, key(KeyCode::Esc), &mut out);
    assert!(matches!(&out.msgs[..], [ClientMsg::CancelSession]));
    assert_eq!(app.status, "stopping...");
}

#[test]
fn a_late_esc_counts_as_the_first() {
    let mut app = chatting();
    app.activity = ActivityState::Thinking;
    let mut out = Outbox::new();
    handle_key(&mut app, key(KeyCode::Esc), &mut out);
    app.now_ns = 60_000_000_000;
    handle_key(&mut app, key(KeyCode::Esc), &mut out);
    assert!(out.msgs.is_empty());
    assert!(app.cancel_confirm_active());
}

#[test]
fn another_key_gives_up_the_stop() {
    let mut app = chatting();
    app.activity = ActivityState::Thinking;
    let mut out = Outbox::new();
    handle_key(&mut app, key(KeyCode::Esc), &mut out);
    handle_key(&mut app, key(KeyCode::Char('a')), &mut out);
    assert!(!app.cancel_confirm_active());
    assert!(out.msgs.is_empty());
}

#[test]
fn blocked_input_takes_no_keys() {
    let mut app = chatting();
    app.activity = ActivityState::SessionOp(SessionOp::Undo);
    app.input = "draft".into();
    app.input_cursor = 2;
    let mut out = Outbox::new();
    for code in [KeyCode::Char('x'), KeyCode::Backspace, KeyCode::Enter, KeyCode::Left] {
        handle_key(&mut app, key(code), &mut out);
    }
    assert_eq!((app.input.as_str(), app.input_cursor), ("draft", 2));
    assert!(out.msgs.is_empty());
}

#[test]
fn an_interrupt_clears_the_input_before_it_quits() {
    let mut app = chatting();
    app.input = "draft".into();
    app.input_cursor = 5;
    let mut out = Outbox::new();
    handle_key(&mut app, ctrl('c'), &mut out);
    assert!(app.input.is_empty() && !app.should_quit);
    handle_key(&mut app, ctrl('c'), &mut out);
    assert!(app.should_quit);
}

#[test]
fn a_chord_ends_with_its_second_key() {
    let mut app = chatting();
    let mut out = Outbox::new();
    handle_key(&mut app, ctrl('x'), &mut out);
    assert!(app.chord);
    handle_key(&mut app, key(KeyCode::Char('?')), &mut out);
    assert!(!app.chord);
}

#[test]
fn a_mode_that_is_entered_again_has_its_settings_back() {
    let model = |name: &str| ModelEntry {
        id: format!("acme/{name}"),
        label: name.into(),
        provider: "acme".into(),
        model: name.into(),
        node_id: None,
        family: None,
        quant: None,
    };
    let mut app = chatting();
    app.models = vec![model("small"), model("large")];
    app.agent_mode = "build".into();
    app.current_provider = Some("acme".into());
    app.current_model = Some("small".into());
    app.reasoning_effort = Some("high".into());
    let mut out = Outbox::new();
    handle_key(&mut app, key(KeyCode::Tab), &mut out);
    assert_eq!(app.agent_mode, "plan");
    app.current_model = Some("large".into());
    app.reasoning_effort = None;
    handle_key(&mut app, key(KeyCode::Tab), &mut out);
    assert_eq!(app.agent_mode, "build");
    assert_eq!(app.current_model.as_deref(), Some("small"));
    assert_eq!(app.reasoning_effort.as_deref(), Some("high"));
    handle_key(&mut app, key(KeyCode::Tab), &mut out);
    assert_eq!(app.current_model.as_deref(), Some("large"));
    assert_eq!(app.reasoning_effort, None);
}

#[test]
fn a_rendered_stream_is_found_by_its_length() {
    let mut app = chatting();
    app.streaming_cache.store(5, vec![]);
    assert!(app.streaming_cache.get(5).is_some());
    assert!(app.streaming_cache.get(6).is_none());
    app.invalidate_streaming_caches();
    assert!(app.streaming_cache.get(5).is_none());
}

// ── themes ────────────────────────────────────────────────────────────────

#[test]
fn a_frame_keeps_its_theme() {
    let mut app = chatting();
    app.theme.set_by_index(&app.themes, 0);
    app.theme.begin_frame(&app.themes);
    let base = app.theme.base();
    app.theme.set_by_index(&app.themes, 1);
    assert_eq!(app.theme.base(), base);
    app.theme.begin_frame(&app.themes);
    assert_ne!(app.theme.base(), base);
}

// ── answers ───────────────────────────────────────────────────────────────

#[test]
fn numbers_are_answered_as_numbers() {
    let real = |t: &str| Json::Number { unsigned: None, text: t.into() };
    assert_eq!(answer(&number_form("1.50", false)), real("1.5"));
    assert_eq!(answer(&number_form("7", false)), real("7.0"));
    assert_eq!(answer(&number_form("many", false)), Json::Null);
    assert_eq!(answer(&number_form("inf", false)), Json::Null);
    let whole = Json::Number { unsigned: Some(42), text: "42".into() };
    assert_eq!(answer(&number_form("42", true)), whole);
    let below = Json::Number { unsigned: None, text: "-3".into() };
    assert_eq!(answer(&number_form("-3", true)), below);
    assert_eq!(answer(&number_form("1.5", true)), Json::Null);
}

#[test]
fn a_required_field_needs_an_answer() {
    assert!(number_form("4", true).is_valid());
    assert!(!number_form("", true).is_valid());
}

#[test]
fn a_choice_that_is_toggled_twice_is_as_it_was() {
    let mut form = number_form("", true);
    let option = |v: &str| ElicitationOption {
        value: Json::Text(v.into()),
        label: v.into(),
        description: None,
    };
    form.fields[0].kind =
        ElicitationFieldKind::MultiSelect { options: vec![option("a"), option("b")] };
    form.toggle_current_option();
    let once = form.build_accept_content();
    form.move_cursor(1);
    form.toggle_current_option();
    form.toggle_current_option();
    assert_eq!(form.build_accept_content(), once);
}

#[test]
fn zeros_of_either_sign_are_one_choice() {
    let json = |s: &str| parse(s).unwrap();
    assert!(same_json(&json("0.0"), &json("-0.0")));
    assert!(same_json(&json("[{\"a\": -0.0}]"), &json("[{\"a\": 0.0}]")));
    assert!(!same_json(&json("0"), &json("0.0")));
    assert!(!same_json(&json("1.5"), &json("-1.5")));

    let mut form = number_form("", true);
    let option = |v: &str| ElicitationOption {
        value: json(v),
        label: v.into(),
        description: None,
    };
    form.fields[0].kind =
        ElicitationFieldKind::MultiSelect { options: vec![option("0.0"), option("-0.0")] };
    form.toggle_current_option();
    form.move_cursor(1);
    form.toggle_current_option();
    assert_eq!(answer(&form), Json::Array(vec![]));
}

#[test]
fn who_asks_is_shown_without_the_mark_of_its_kind() {
    let mut form = number_form("", true);
    assert_eq!(form.source_label(), "counter");
    form.source = "builtin:question".into();
    assert_eq!(form.source_label(), "built-in");
    form.source = "builtin:notes".into();
    assert_eq!(form.source_label(), "notes");
    form.source = "agent".into();
    assert_eq!(form.source_label(), "agent");
}

#[test]
fn answers_change_only_cards_that_wait() {
    let card = |id: &str, outcome: Option<&str>| ChatEntry::Elicitation {
        elicitation_id: id.into(),
        message: "?".into(),
        source: "builtin:question".into(),
        outcome: outcome.map(|s| s.to_string()),
    };
    let mut messages = vec![card("a", Some("kept")), card("b", Some("responded"))];
    backfill_elicitation_outcomes(&mut messages, r#"{"answers":[{"question":"?","answers":["Yes"]}]}"#);
    assert_eq!(messages.len(), 2);
    assert!(matches!(
        &messages[0],
        ChatEntry::Elicitation { outcome: Some(o), .. } if o == "kept"
    ));
    assert!(matches!(
        &messages[1],
        ChatEntry::Elicitation { outcome: Some(o), .. } if o.contains("Yes")
    ));
}

// ── sessions ──────────────────────────────────────────────────────────────

fn session(id: &str, updated: &str) -> SessionSummary {
    SessionSummary {
        session_id: id.into(),
        title: None,
        cwd: None,
        created_at: None,
        updated_at: Some(updated.into()),
        parent_session_id: None,
        has_children: false,
    }
}

#[test]
fn the_session_list_is_sorted_by_its_last_update() {
    let mut app = chatting();
    let group = |cwd: &str, sessions: Vec<SessionSummary>| SessionGroup {
        cwd: Some(cwd.into()),
        sessions,
        latest_activity: None,
    };
    app.handle_server_msg(RawServerMsg {
        msg_type: "session_list".into(),
        data: Some(ServerData::SessionList(SessionListData {
            groups: vec![
                group("/old", vec![session("a", "2024-01-01T00:00:00Z")]),
                group(
                    "/new",
                    vec![session("b", "2024-02-01T00:00:00Z"), session("c", "2024-03-01T00:00:00Z")],
                ),
            ],
        })),
    });
    let ids: Vec<&str> = app
        .session_groups
        .iter()
        .flat_map(|g| g.sessions.iter().map(|s| s.session_id.as_str()))
        .collect();
    assert_eq!(ids, vec!["c", "b", "a"]);
    assert_eq!(app.status, "3 session(s)");
}

#[test]
fn sessions_of_the_same_update_keep_their_order() {
    let mut app = chatting();
    let same = "2024-01-01T00:00:00Z";
    let group = |cwd: &str, ids: &[&str]| SessionGroup {
        cwd: Some(cwd.into()),
        sessions: ids.iter().map(|id| session(id, same)).collect(),
        latest_activity: None,
    };
    app.handle_server_msg(RawServerMsg {
        msg_type: "session_list".into(),
        data: Some(ServerData::SessionList(SessionListData {
            groups: vec![group("/x", &["b", "a", "c"]), group("/w", &["d"])],
        })),
    });
    let ids: Vec<&str> = app
        .session_groups
        .iter()
        .flat_map(|g| g.sessions.iter().map(|s| s.session_id.as_str()))
        .collect();
    assert_eq!(ids, vec!["b", "a", "c", "d"]);
}

#[test]
fn what_is_remembered_is_restored_once() {
    let model = |name: &str| ModelEntry {
        id: format!("acme/{name}"),
        label: name.into(),
        provider: "acme".into(),
        model: name.into(),
        node_id: None,
        family: None,
        quant: None,
    };
    for offered in [vec![model("small")], vec![]] {
        let mut app = chatting();
        let models = offered.len();
        app.models = offered;
        app.current_provider = Some("acme".into());
        app.current_model = Some("small".into());
        app.reasoning_effort = Some("high".into());
        app.cache_session_mode_state();
        app.current_model = Some("large".into());
        app.reasoning_effort = None;
        assert_eq!(app.apply_cached_mode_state().len(), 1 + models);
        assert!(app.apply_cached_mode_state().is_empty());
    }
}

#[test]
fn a_loaded_session_shows_nothing_of_an_earlier_stream() {
    let mut app = chatting();
    app.streaming_content = "half an".into();
    app.streaming_thinking = "hm".into();
    app.streaming_cache.store(7, vec![]);
    app.streaming_thinking_cache.store(2, vec![]);
    app.handle_server_msg(RawServerMsg {
        msg_type: "session_loaded".into(),
        data: Some(ServerData::SessionLoaded(SessionLoadedData {
            session_id: "s2".into(),
            agent_id: "a".into(),
            audit: None,
            undo_stack: vec![],
        })),
    });
    assert!(app.streaming_content.is_empty());
    assert!(app.streaming_thinking.is_empty());
    assert!(app.streaming_thinking_cache.get(2).is_none());
}
