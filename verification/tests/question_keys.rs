use qmtui::app::{App, ChatEntry, ConnState, ToolDetail};
use qmtui::connection::reconnect_delay_ms;
use qmtui::diff::build_diff_lines;
use qmtui::elicitation::{
    ElicitationField, ElicitationFieldKind, ElicitationOption, ElicitationState,
};
use qmtui::handlers::{
    handle_elicitation_key, invalidate_theme_caches, KeyCode, KeyEvent, Outbox,
};
use qmtui::json::Json;
use qmtui::protocol::ClientMsg;
use qmtui::strmap::StrMap;
use qmtui::style::Line;
use qmtui::symbols::OUTCOME_BULLET;
use qmtui::theme::Base16Palette;

fn palette(id: &str, shade: u32) -> Base16Palette {
    let mut colors: [u32; 16] = [0; 16];
    for (i, c) in colors.iter_mut().enumerate() {
        *c = shade + 0x01_01_01 * (i as u32);
    }
    Base16Palette { id: id.to_string(), label: id.to_string(), colors }
}

fn new_app() -> App {
    App::new(vec![
        palette("base16-querymate", 0x10_20_30),
        palette("base16-ocean", 0x20_10_40),
        palette("base16-eighties", 0x40_50_10),
    ])
}

fn text(s: &str) -> Json {
    Json::Text(s.to_string())
}

fn key(code: KeyCode) -> KeyEvent {
    KeyEvent { code, ctrl: false }
}

fn take(out: &mut Outbox) -> ClientMsg {
    assert!(!out.msgs.is_empty(), "message sent");
    out.msgs.remove(0)
}

fn form(fields: Vec<ElicitationField>) -> ElicitationState {
    ElicitationState {
        elicitation_id: "test-id".into(),
        message: "Test question".into(),
        source: "builtin:question".into(),
        fields,
        field_cursor: 0,
        option_cursor: 0,
        selected: StrMap::new(),
        text_input: String::new(),
        text_cursor: 0,
    }
}

fn line(s: &str) -> Line {
    Line::raw(s)
}

fn make_elicitation_single_select() -> ElicitationState {
    form(vec![ElicitationField {
        name: "choice".into(),
        title: "Pick one".into(),
        description: None,
        required: true,
        kind: ElicitationFieldKind::SingleSelect {
            options: vec![
                ElicitationOption {
                    value: text("a"),
                    label: "Alpha".into(),
                    description: None,
                },
                ElicitationOption {
                    value: text("b"),
                    label: "Beta".into(),
                    description: None,
                },
            ],
        },
    }])
}

fn make_app_with_elicitation(state: ElicitationState) -> App {
    let mut app = new_app();
    app.conn = ConnState::Connected;
    app.session_id = Some("sess-1".into());
    app.messages.push(ChatEntry::Elicitation {
        elicitation_id: state.elicitation_id.clone(),
        message: state.message.clone(),
        source: state.source.clone(),
        outcome: None,
    });
    app.elicitation = Some(state);
    app
}

#[test]
fn reconnect_delay_caps_after_five_steps() {
    assert_eq!(reconnect_delay_ms(0), 250);
    assert_eq!(reconnect_delay_ms(1), 500);
    assert_eq!(reconnect_delay_ms(2), 1000);
    assert_eq!(reconnect_delay_ms(3), 2000);
    assert_eq!(reconnect_delay_ms(4), 4000);
    assert_eq!(reconnect_delay_ms(5), 8000);
    assert_eq!(reconnect_delay_ms(8), 8000);
}

// ── Elicitation key handling ──────────────────────────────────────────────

#[test]
fn elicitation_down_moves_option_cursor() {
    let mut app = make_app_with_elicitation(make_elicitation_single_select());
    let mut tx = Outbox::new();
    handle_elicitation_key(&mut app, key(KeyCode::Down), &mut tx);
    assert_eq!(app.elicitation.as_ref().unwrap().option_cursor, 1);
}

#[test]
fn elicitation_up_does_not_go_below_zero() {
    let mut app = make_app_with_elicitation(make_elicitation_single_select());
    let mut tx = Outbox::new();
    handle_elicitation_key(&mut app, key(KeyCode::Up), &mut tx);
    assert_eq!(app.elicitation.as_ref().unwrap().option_cursor, 0);
}

#[test]
fn elicitation_enter_on_single_select_sends_accept_and_resolves() {
    let mut app = make_app_with_elicitation(make_elicitation_single_select());
    let mut tx = Outbox::new();
    // Move to Beta and press Enter
    handle_elicitation_key(&mut app, key(KeyCode::Down), &mut tx);
    handle_elicitation_key(&mut app, key(KeyCode::Enter), &mut tx);

    // Elicitation should be cleared
    assert!(app.elicitation.is_none());

    // Accept response sent
    let msg = take(&mut tx);
    assert!(matches!(msg,
        ClientMsg::ElicitationResponse { action, content: Some(ref c), .. }
        if action == "accept" && c.str_at("choice") == Some(&"b".to_string())
    ));

    // Chat card updated with the selected label
    assert!(app.messages.iter().any(|m| matches!(m,
        ChatEntry::Elicitation { outcome: Some(o), .. } if *o == format!("{OUTCOME_BULLET}Beta")
    )));
}

#[test]
fn elicitation_esc_sends_decline_and_resolves() {
    let mut app = make_app_with_elicitation(make_elicitation_single_select());
    let mut tx = Outbox::new();
    handle_elicitation_key(&mut app, key(KeyCode::Esc), &mut tx);

    assert!(app.elicitation.is_none());
    let msg = take(&mut tx);
    assert!(matches!(msg,
        ClientMsg::ElicitationResponse { action, .. } if action == "decline"
    ));
    assert!(app.messages.iter().any(|m| matches!(m,
        ChatEntry::Elicitation { outcome: Some(o), .. } if o == "declined"
    )));
}

#[test]
fn elicitation_enter_on_text_field_sends_accept_with_text() {
    let mut app =
        make_app_with_elicitation(form(vec![ElicitationField {
            name: "name".into(),
            title: "Name".into(),
            description: None,
            required: true,
            kind: ElicitationFieldKind::TextInput,
        }]));
    app.elicitation.as_mut().unwrap().text_input = "Alice".into();
    let mut tx = Outbox::new();
    handle_elicitation_key(&mut app, key(KeyCode::Enter), &mut tx);

    assert!(app.elicitation.is_none());
    let msg = take(&mut tx);
    assert!(matches!(msg,
        ClientMsg::ElicitationResponse { action, content: Some(ref c), .. }
        if action == "accept" && c.str_at("name") == Some(&"Alice".to_string())
    ));
    assert!(app.messages.iter().any(|m| matches!(m,
        ChatEntry::Elicitation { outcome: Some(o), .. } if o == "Alice"
    )));
}

#[test]
fn elicitation_char_input_appends_to_text_buffer() {
    let mut app =
        make_app_with_elicitation(form(vec![ElicitationField {
            name: "msg".into(),
            title: "Message".into(),
            description: None,
            required: false,
            kind: ElicitationFieldKind::TextInput,
        }]));
    let mut tx = Outbox::new();
    handle_elicitation_key(&mut app, key(KeyCode::Char('H')), &mut tx);
    handle_elicitation_key(&mut app, key(KeyCode::Char('i')), &mut tx);
    assert_eq!(app.elicitation.as_ref().unwrap().text_input, "Hi");
}

#[test]
fn elicitation_backspace_removes_last_char_from_text_buffer() {
    let mut app =
        make_app_with_elicitation(form(vec![ElicitationField {
            name: "msg".into(),
            title: "Message".into(),
            description: None,
            required: false,
            kind: ElicitationFieldKind::TextInput,
        }]));
    app.elicitation.as_mut().unwrap().text_input = "Hi".into();
    app.elicitation.as_mut().unwrap().text_cursor = 2;
    let mut tx = Outbox::new();
    handle_elicitation_key(&mut app, key(KeyCode::Backspace), &mut tx);
    assert_eq!(app.elicitation.as_ref().unwrap().text_input, "H");
}

#[test]
fn invalidate_theme_caches_clears_all_render_caches() {
    // Build cached_lines under theme 0
    let mut app = new_app();
    app.theme.set_by_index(&app.themes, 0);
    app.theme.begin_frame(&app.themes);

    // Populate card_cache
    app.messages.push(ChatEntry::User { text: "hello".into(), message_id: None });
    app.card_cache.processed_messages = 1;

    // Populate streaming caches
    app.streaming_cache.store(5, vec![line("stream")]);
    app.streaming_thinking_cache.store(3, vec![line("think")]);

    // Populate a ToolCall with cached_lines baked under theme 0
    let old_lines = build_diff_lines(&app.theme, "aaa", "bbb", None);
    assert!(!old_lines.is_empty());
    app.messages.push(ChatEntry::ToolCall {
        tool_call_id: None,
        name: "edit".into(),
        is_error: false,
        detail: ToolDetail::Edit {
            file: "f.rs".into(),
            before: "aaa".into(),
            after: "bbb".into(),
            start_line: None,
            cached_lines: build_diff_lines(&app.theme, "aaa", "bbb", None),
        },
    });

    // Confirm caches are populated
    assert!(app.streaming_cache.get(5).is_some());
    assert!(app.streaming_thinking_cache.get(3).is_some());
    assert_eq!(app.card_cache.processed_messages, 1);

    // Switch to a different theme and update the frame snapshot
    // before invalidating — just as handle_theme_popup_key does.
    app.theme.set_by_index(&app.themes, 2);
    app.theme.begin_frame(&app.themes);
    invalidate_theme_caches(&mut app);

    // All caches cleared
    assert_eq!(app.card_cache.processed_messages, 0, "card_cache should be invalidated");
    assert!(app.streaming_cache.get(5).is_none(), "streaming_cache should be invalidated");
    assert!(
        app.streaming_thinking_cache.get(3).is_none(),
        "streaming_thinking_cache should be invalidated"
    );

    // Tool cached_lines rebuilt with the NEW theme's styles
    if let ChatEntry::ToolCall { detail: ToolDetail::Edit { cached_lines, .. }, .. } =
        &app.messages[1]
    {
        assert!(!cached_lines.is_empty(), "tool cached_lines should be rebuilt");
        // Lines must differ from the old theme — styles are theme-dependent
        assert_ne!(
            *cached_lines, old_lines,
            "cached_lines should use the new theme's styles, not the old"
        );
    } else {
        panic!("expected ToolCall with Edit detail");
    }
}
