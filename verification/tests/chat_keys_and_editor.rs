use qmtui::app::{ActivityState, App, ConnState, LogLevel, Screen, SessionOp};
use qmtui::config::{ServerConfig, TuiConfig};
use qmtui::editor::{
    apply_external_editor_outcome, apply_external_editor_result, editor_command_from_env,
};
use qmtui::handlers::{handle_chat_key, handle_key, AppAction, KeyCode, KeyEvent, Outbox};
use qmtui::program::log_server_binary_discovery;
use qmtui::protocol::{ClientMsg, PromptBlock};
use qmtui::server_manager::BinaryDiscovery;
use qmtui::theme::Base16Palette;

fn palette(id: &str, shade: u32) -> Base16Palette {
    let mut colors: [u32; 16] = [0; 16];
    for (i, c) in colors.iter_mut().enumerate() {
        *c = shade + 0x01_01_01 * (i as u32);
    }
    Base16Palette { id: id.to_string(), label: id.to_string(), colors }
}

fn new_app() -> App {
    App::new(vec![
        palette("base16-querymate", 0x10_20_30),
        palette("base16-ocean", 0x20_10_40),
        palette("base16-eighties", 0x40_50_10),
    ])
}

fn key(code: KeyCode) -> KeyEvent {
    KeyEvent { code, ctrl: false }
}

fn ctrl(code: KeyCode) -> KeyEvent {
    KeyEvent { code, ctrl: true }
}

fn take(out: &mut Outbox) -> ClientMsg {
    assert!(!out.msgs.is_empty(), "message sent");
    out.msgs.remove(0)
}

fn ctrl_x() -> KeyEvent {
    ctrl(KeyCode::Char('x'))
}

fn plain_key(c: char) -> KeyEvent {
    key(KeyCode::Char(c))
}

#[test]
fn chat_up_down_navigate_wrapped_input_without_scrolling_history() {
    let mut tx = Outbox::new();
    let mut app = new_app();
    app.screen = Screen::Chat;
    app.input = "abcdef".into();
    app.input_cursor = 4;
    app.input_line_width = 4;
    app.scroll_offset = 7;

    handle_chat_key(&mut app, key(KeyCode::Up), &mut tx);
    assert_eq!(app.input_cursor, 2);
    assert_eq!(app.scroll_offset, 7);

    handle_chat_key(&mut app, key(KeyCode::Down), &mut tx);
    assert_eq!(app.input_cursor, 4);
    assert_eq!(app.scroll_offset, 7);
}

#[test]
fn chat_pageup_pagedown_still_scroll_history() {
    let mut tx = Outbox::new();
    let mut app = new_app();
    app.screen = Screen::Chat;
    app.scroll_offset = 3;

    handle_chat_key(&mut app, key(KeyCode::PageUp), &mut tx);
    assert_eq!(app.scroll_offset, 13);

    handle_chat_key(&mut app, key(KeyCode::PageDown), &mut tx);
    assert_eq!(app.scroll_offset, 3);
}

#[test]
fn editor_command_prefers_visual_over_editor() {
    let env = vec![("VISUAL", Some("nvim -f".into())), ("EDITOR", Some("vim".into()))];
    let cmd = editor_command_from_env(&env).expect("expected editor command");
    assert_eq!(cmd.program, "nvim");
    assert_eq!(cmd.args, vec!["-f".to_string()]);
}

#[test]
fn editor_command_uses_editor_when_visual_missing() {
    let env = vec![("VISUAL", None), ("EDITOR", Some("nano".into()))];
    let cmd = editor_command_from_env(&env).expect("expected editor command");
    assert_eq!(cmd.program, "nano");
    assert!(cmd.args.is_empty());
}

#[test]
fn editor_command_rejects_blank_values() {
    let env = vec![("VISUAL", Some("   ".into())), ("EDITOR", Some("".into()))];
    assert!(editor_command_from_env(&env).is_none());
}

#[test]
fn apply_external_editor_result_updates_input_and_cursor() {
    let mut app = new_app();
    app.input = "old".into();
    app.input_cursor = 1;
    app.input_scroll = 3;

    apply_external_editor_result(&mut app, "new text".into());

    assert_eq!(app.input, "new text");
    assert_eq!(app.input_cursor, "new text".len());
    assert_eq!(app.input_scroll, 0);
}

#[test]
fn ctrl_x_e_returns_open_editor_action_in_chat() {
    let mut tx = Outbox::new();
    let mut app = new_app();
    app.screen = Screen::Chat;
    app.input = "draft".into();
    assert_eq!(
        handle_key(&mut app, ctrl_x(), &mut tx),
        AppAction::Nothing
    );

    let action = handle_key(&mut app, plain_key('e'), &mut tx);

    assert_eq!(action, AppAction::OpenExternalEditor);
    assert!(!app.chord);
    assert_eq!(app.input, "draft");
}

#[test]
fn ctrl_x_e_outside_chat_stays_in_tui() {
    let mut tx = Outbox::new();
    let mut app = new_app();
    app.screen = Screen::Sessions;
    assert_eq!(
        handle_key(&mut app, ctrl_x(), &mut tx),
        AppAction::Nothing
    );

    let action = handle_key(&mut app, plain_key('e'), &mut tx);

    assert_eq!(action, AppAction::Nothing);
    assert!(app.status.contains("only available in chat"));
    assert!(matches!(app.logs.last(), Some(entry) if entry.target == "editor"));
}

#[test]
fn apply_external_editor_outcome_updates_input_on_success() {
    let mut app = new_app();
    app.input = "draft".into();

    apply_external_editor_outcome(&mut app, Ok(Some("revised prompt".into())));

    assert_eq!(app.input, "revised prompt");
    assert_eq!(app.input_cursor, "revised prompt".len());
    assert_eq!(app.status, "loaded prompt from external editor");
    assert!(matches!(app.logs.last(), Some(entry) if entry.target == "editor"));
}

#[test]
fn log_server_binary_discovery_records_path_lookup_when_binary_path_unset() {
    let mut app = new_app();
    let cfg = TuiConfig {
        server: ServerConfig {
            binary_path: None,
            ..ServerConfig::default()
        },
        ..TuiConfig::default()
    };

    log_server_binary_discovery(
        &mut app,
        &cfg,
        &BinaryDiscovery {
            binary: None,
            configured_path: None,
            configured_exists: false,
            used_path_lookup: true,
        },
    );

    assert!(app.logs.iter().any(|entry| entry.target == "server"
        && entry.level == LogLevel::Info
        && entry.message == "server.binary_path not set; checking qmtcode on PATH"));
    assert!(app.logs.iter().any(|entry| entry.target == "server"
        && entry.level == LogLevel::Info
        && entry.message == "qmtcode not found on PATH"));
}

#[test]
fn apply_external_editor_outcome_keeps_input_on_cancel() {
    let mut app = new_app();
    app.input = "draft".into();

    apply_external_editor_outcome(&mut app, Ok(None));

    assert_eq!(app.input, "draft");
    assert_eq!(app.status, "external editor cancelled");
}

#[test]
fn chat_input_accepts_typing_and_submit_while_turn_active() {
    let mut tx = Outbox::new();
    let mut app = new_app();
    app.screen = Screen::Chat;
    app.conn = ConnState::Connected;
    app.activity = ActivityState::RunningTool {
        name: "read_tool".into(),
    };

    handle_chat_key(&mut app, key(KeyCode::Char('n')), &mut tx);
    handle_chat_key(&mut app, key(KeyCode::Enter), &mut tx);

    assert!(matches!(
        take(&mut tx),
        ClientMsg::Prompt { prompt } if matches!(prompt.as_slice(), [PromptBlock::Text { text }] if text == "n")
    ));
    assert!(app.input.is_empty());
}

#[test]
fn chat_double_esc_cancels_running_tool_phase() {
    let mut tx = Outbox::new();
    let mut app = new_app();
    app.screen = Screen::Chat;
    app.activity = ActivityState::RunningTool {
        name: "read_tool".into(),
    };

    handle_chat_key(&mut app, key(KeyCode::Esc), &mut tx);
    assert!(app.cancel_confirm_active());

    handle_chat_key(&mut app, key(KeyCode::Esc), &mut tx);
    assert!(matches!(
        take(&mut tx),
        ClientMsg::CancelSession
    ));
    assert_eq!(app.status, "stopping...");
}

#[test]
fn chat_input_is_blocked_while_undo_is_pending() {
    let mut tx = Outbox::new();
    let mut app = new_app();
    app.screen = Screen::Chat;
    app.conn = ConnState::Connected;
    app.activity = ActivityState::SessionOp(SessionOp::Undo);
    app.input = "draft".into();
    app.input_cursor = app.input.len();

    handle_chat_key(&mut app, key(KeyCode::Char('x')), &mut tx);
    assert_eq!(app.input, "draft");

    handle_chat_key(&mut app, key(KeyCode::Backspace), &mut tx);
    assert_eq!(app.input, "draft");

    handle_chat_key(&mut app, key(KeyCode::Left), &mut tx);
    assert_eq!(app.input_cursor, "draft".len());

    handle_chat_key(&mut app, key(KeyCode::Enter), &mut tx);
    assert_eq!(app.input, "draft");
    assert!(tx.msgs.is_empty());
}

#[test]
fn chat_input_is_blocked_while_cancel_confirm_is_active() {
    let mut tx = Outbox::new();
    let mut app = new_app();
    app.screen = Screen::Chat;
    app.conn = ConnState::Connected;
    app.activity = ActivityState::RunningTool {
        name: "read_tool".into(),
    };
    app.input = "draft".into();
    app.input_cursor = app.input.len();

    handle_chat_key(&mut app, key(KeyCode::Esc), &mut tx);
    assert!(app.cancel_confirm_active());
    assert!(app.input_blocked_by_activity());

    handle_chat_key(&mut app, key(KeyCode::Char('x')), &mut tx);
    assert_eq!(app.input, "draft");

    handle_chat_key(&mut app, key(KeyCode::Enter), &mut tx);
    assert_eq!(app.status, "press Esc again to stop");
    assert!(tx.msgs.is_empty());

    handle_chat_key(&mut app, key(KeyCode::Esc), &mut tx);
    assert_eq!(app.status, "stopping...");
    assert!(matches!(
        take(&mut tx),
        ClientMsg::CancelSession
    ));
}
