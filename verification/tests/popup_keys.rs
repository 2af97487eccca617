use qmtui::app::{App, ConnState, FileIndexEntryLite, LogLevel, PathCompletionState, Popup};
use qmtui::handlers::{
    apply_popup_session_key, handle_key, handle_new_session_popup_key, handle_session_popup_key,
    KeyCode, KeyEvent, Outbox, SessionKeyAction,
};
use qmtui::protocol::{ClientMsg, SessionGroup, SessionSummary};
use qmtui::theme::Base16Palette;

fn palette(id: &str, shade: u32) -> Base16Palette {
    let mut colors: [u32; 16] = [0; 16];
    for (i, c) in colors.iter_mut().enumerate() {
        *c = shade + 0x01_01_01 * (i as u32);
    }
    Base16Palette { id: id.to_string(), label: id.to_string(), colors }
}

fn new_app() -> App {
    App::new(vec![
        palette("base16-querymate", 0x10_20_30),
        palette("base16-ocean", 0x20_10_40),
        palette("base16-eighties", 0x40_50_10),
    ])
}

fn key(code: KeyCode) -> KeyEvent {
    KeyEvent { code, ctrl: false }
}

fn ctrl(code: KeyCode) -> KeyEvent {
    KeyEvent { code, ctrl: true }
}

fn take(out: &mut Outbox) -> ClientMsg {
    assert!(!out.msgs.is_empty(), "message sent");
    out.msgs.remove(0)
}

fn make_group(cwd: Option<&str>, ids: &[&str]) -> SessionGroup {
    SessionGroup {
        cwd: cwd.map(String::from),
        latest_activity: None,
        sessions: ids
            .iter()
            .map(|id| SessionSummary {
                session_id: id.to_string(),
                title: Some(format!("Session {id}")),
                cwd: cwd.map(String::from),
                created_at: None,
                updated_at: None,
                parent_session_id: None,
                has_children: false,
            })
            .collect(),
    }
}

// ── Down / Up navigation ──────────────────────────────────────────────────

#[test]
fn popup_down_moves_cursor_forward() {
    let mut app = new_app();
    app.popup = Popup::SessionSelect;
    app.session_groups = vec![make_group(Some("/a"), &["s1", "s2"])];
    // visible: [GroupHeader, Session(s1), Session(s2)]
    assert_eq!(app.session_cursor, 0);
    apply_popup_session_key(&mut app, KeyCode::Down);
    assert_eq!(app.session_cursor, 1);
    apply_popup_session_key(&mut app, KeyCode::Down);
    assert_eq!(app.session_cursor, 2);
}

#[test]
fn popup_down_clamps_at_last_item() {
    let mut app = new_app();
    app.popup = Popup::SessionSelect;
    app.session_groups = vec![make_group(Some("/a"), &["s1"])];
    // visible: [GroupHeader(0), Session(1)] — max idx = 1
    app.session_cursor = 1;
    apply_popup_session_key(&mut app, KeyCode::Down);
    assert_eq!(app.session_cursor, 1); // clamped, no button slot
}

#[test]
fn popup_up_moves_cursor_back() {
    let mut app = new_app();
    app.popup = Popup::SessionSelect;
    app.session_groups = vec![make_group(Some("/a"), &["s1", "s2"])];
    app.session_cursor = 2;
    apply_popup_session_key(&mut app, KeyCode::Up);
    assert_eq!(app.session_cursor, 1);
}

#[test]
fn popup_up_does_not_go_below_zero() {
    let mut app = new_app();
    app.popup = Popup::SessionSelect;
    app.session_groups = vec![make_group(Some("/a"), &["s1"])];
    app.session_cursor = 0;
    apply_popup_session_key(&mut app, KeyCode::Up);
    assert_eq!(app.session_cursor, 0);
}

// ── Enter on GroupHeader toggles popup collapse ───────────────────────────

#[test]
fn popup_enter_on_header_collapses_group() {
    let mut app = new_app();
    app.popup = Popup::SessionSelect;
    app.session_groups = vec![make_group(Some("/a"), &["s1"])];
    app.session_cursor = 0; // GroupHeader
    let action = apply_popup_session_key(&mut app, KeyCode::Enter);
    assert_eq!(action, SessionKeyAction::Nothing);
    assert!(app.popup_collapsed_groups.contains("/a"));
    // start-page state untouched
    assert!(!app.collapsed_groups.contains("/a"));
}

#[test]
fn popup_enter_on_collapsed_header_expands_group() {
    let mut app = new_app();
    app.popup = Popup::SessionSelect;
    app.session_groups = vec![make_group(Some("/a"), &["s1"])];
    app.popup_collapsed_groups.insert("/a".to_string());
    app.session_cursor = 0;
    let action = apply_popup_session_key(&mut app, KeyCode::Enter);
    assert_eq!(action, SessionKeyAction::Nothing);
    assert!(!app.popup_collapsed_groups.contains("/a"));
}

#[test]
fn popup_collapse_clamps_cursor() {
    let mut app = new_app();
    app.popup = Popup::SessionSelect;
    // [GroupHeader(0), Session(s1, 1), Session(s2, 2)]
    app.session_groups = vec![make_group(Some("/a"), &["s1", "s2"])];
    app.session_cursor = 0; // header
    // Collapse /a → only header remains
    apply_popup_session_key(&mut app, KeyCode::Enter);
    // Cursor must be 0 (clamped to header)
    assert_eq!(app.session_cursor, 0);
    assert!(app.popup_collapsed_groups.contains("/a"));
}

// ── Enter on Session loads it ─────────────────────────────────────────────

#[test]
fn popup_enter_on_session_returns_load_and_closes_popup() {
    let mut app = new_app();
    app.popup = Popup::SessionSelect;
    app.session_groups = vec![make_group(Some("/a"), &["abc12345"])];
    app.session_cursor = 1; // Session row
    let action = apply_popup_session_key(&mut app, KeyCode::Enter);
    assert_eq!(
        action,
        SessionKeyAction::LoadSession {
            session_id: "abc12345".to_string()
        }
    );
    assert_eq!(app.popup, Popup::Closed);
}

// ── Enter with all groups shows all sessions (no cap) ─────────────────────

#[test]
fn popup_enter_can_reach_session_beyond_start_page_cap() {
    let mut app = new_app();
    app.popup = Popup::SessionSelect;
    // 5 sessions — start page would cap at 3; popup shows all
    app.session_groups = vec![make_group(Some("/a"), &["s1", "s2", "s3", "s4", "s5"])];
    // visible: [Header(0), s1(1), s2(2), s3(3), s4(4), s5(5)]
    app.session_cursor = 5;
    let action = apply_popup_session_key(&mut app, KeyCode::Enter);
    assert_eq!(
        action,
        SessionKeyAction::LoadSession {
            session_id: "s5".to_string()
        }
    );
}

// ── Delete on Session removes it ─────────────────────────────────────────

#[test]
fn popup_delete_on_session_returns_delete_and_removes() {
    let mut app = new_app();
    app.popup = Popup::SessionSelect;
    app.session_groups = vec![make_group(Some("/a"), &["s1", "s2"])];
    app.session_cursor = 1; // Session s1
    let action = apply_popup_session_key(&mut app, KeyCode::Delete);
    assert_eq!(
        action,
        SessionKeyAction::DeleteSession {
            session_id: "s1".to_string()
        }
    );
    assert_eq!(app.session_groups[0].sessions.len(), 1);
    assert_eq!(app.session_groups[0].sessions[0].session_id, "s2");
}

#[test]
fn popup_delete_removes_empty_group() {
    let mut app = new_app();
    app.popup = Popup::SessionSelect;
    app.session_groups = vec![make_group(Some("/a"), &["only"])];
    app.session_cursor = 1;
    apply_popup_session_key(&mut app, KeyCode::Delete);
    assert!(app.session_groups.is_empty());
}

#[test]
fn popup_delete_on_header_is_noop() {
    let mut app = new_app();
    app.popup = Popup::SessionSelect;
    app.session_groups = vec![make_group(Some("/a"), &["s1"])];
    app.session_cursor = 0; // GroupHeader
    let action = apply_popup_session_key(&mut app, KeyCode::Delete);
    assert_eq!(action, SessionKeyAction::Nothing);
    assert_eq!(app.session_groups[0].sessions.len(), 1);
}

// ── Esc closes popup ──────────────────────────────────────────────────────

#[test]
fn popup_esc_closes_popup() {
    let mut app = new_app();
    app.popup = Popup::SessionSelect;
    apply_popup_session_key(&mut app, KeyCode::Esc);
    assert_eq!(app.popup, Popup::Closed);
}

// ── Filter: Char appends, Backspace removes, both reset cursor ────────────

#[test]
fn popup_char_appends_to_filter_and_resets_cursor() {
    let mut app = new_app();
    app.popup = Popup::SessionSelect;
    app.session_groups = vec![make_group(Some("/a"), &["s1"])];
    app.session_cursor = 1;
    apply_popup_session_key(&mut app, KeyCode::Char('x'));
    assert_eq!(app.session_filter, "x");
    assert_eq!(app.session_cursor, 0);
}

#[test]
fn popup_ctrl_n_opens_new_session_popup() {
    let mut app = new_app();
    app.popup = Popup::SessionSelect;
    app.conn = ConnState::Connected;
    app.launch_cwd = Some("/launch".into());

    let mut tx = Outbox::new();
    handle_session_popup_key(&mut app, ctrl(KeyCode::Char('n')), &mut tx);

    assert_eq!(app.popup, Popup::NewSession);
    assert_eq!(app.new_session_path, "/launch");
    assert!(tx.msgs.is_empty());
}

#[test]
fn popup_plain_n_still_filters_instead_of_creating_session() {
    let mut app = new_app();
    app.popup = Popup::SessionSelect;
    app.session_groups = vec![make_group(Some("/a"), &["s1"])];

    let mut tx = Outbox::new();
    handle_session_popup_key(&mut app, key(KeyCode::Char('n')), &mut tx);

    assert_eq!(app.popup, Popup::SessionSelect);
    assert_eq!(app.session_filter, "n");
    assert!(tx.msgs.is_empty());
}

#[test]
fn global_ctrl_x_n_opens_new_session_popup() {
    let mut app = new_app();
    app.conn = ConnState::Connected;
    app.launch_cwd = Some("/launch".into());
    let mut tx = Outbox::new();

    handle_key(&mut app, ctrl(KeyCode::Char('x')), &mut tx);
    handle_key(&mut app, key(KeyCode::Char('n')), &mut tx);

    assert_eq!(app.popup, Popup::NewSession);
    assert_eq!(app.new_session_path, "/launch");
    assert!(tx.msgs.is_empty());
}

#[test]
fn global_ctrl_x_l_opens_log_popup() {
    let mut app = new_app();
    let mut tx = Outbox::new();

    handle_key(&mut app, ctrl(KeyCode::Char('x')), &mut tx);
    handle_key(&mut app, key(KeyCode::Char('l')), &mut tx);

    assert_eq!(app.popup, Popup::Log);
    assert_eq!(app.log_cursor, 0);
    assert!(app.log_filter.is_empty());
}

#[test]
fn log_popup_filters_cycles_level_and_closes() {
    let mut app = new_app();
    app.popup = Popup::Log;
    app.log_cursor = 2;
    app.log_level_filter = LogLevel::Info;

    let mut tx = Outbox::new();
    handle_key(&mut app, key(KeyCode::Char('x')), &mut tx);
    assert_eq!(app.log_filter, "x");
    assert_eq!(app.log_cursor, 0);

    handle_key(&mut app, key(KeyCode::Backspace), &mut tx);
    assert!(app.log_filter.is_empty());

    handle_key(&mut app, key(KeyCode::Tab), &mut tx);
    assert_eq!(app.log_level_filter, LogLevel::Warn);

    handle_key(&mut app, key(KeyCode::Esc), &mut tx);
    assert_eq!(app.popup, Popup::Closed);
}

#[test]
fn new_session_popup_enter_with_empty_path_uses_launch_cwd() {
    let mut app = new_app();
    app.conn = ConnState::Connected;
    app.popup = Popup::NewSession;
    app.launch_cwd = Some("/launch".into());
    app.new_session_path.clear();
    app.new_session_cursor = 0;

    let mut tx = Outbox::new();
    handle_new_session_popup_key(&mut app, key(KeyCode::Enter), &mut tx);

    assert_eq!(app.popup, Popup::Closed);
    assert!(matches!(
        take(&mut tx),
        ClientMsg::NewSession {
            cwd: Some(ref cwd),
            request_id: None
        } if cwd == "/launch"
    ));
}

#[test]
fn new_session_popup_enter_normalizes_relative_path_to_absolute() {
    let mut app = new_app();
    app.conn = ConnState::Connected;
    app.popup = Popup::NewSession;
    app.launch_cwd = Some("/launch".into());
    app.new_session_path = "proj/subdir".into();
    app.new_session_cursor = app.new_session_path.len();

    let mut tx = Outbox::new();
    handle_new_session_popup_key(&mut app, key(KeyCode::Enter), &mut tx);

    assert!(matches!(
        take(&mut tx),
        ClientMsg::NewSession {
            cwd: Some(ref cwd),
            request_id: None
        } if cwd == "/launch/proj/subdir"
    ));
}

#[test]
fn new_session_popup_tab_accepts_selected_completion() {
    let mut app = new_app();
    app.popup = Popup::NewSession;
    app.new_session_completion = Some(PathCompletionState {
        query: "pro".into(),
        selected_index: 0,
        results: vec![FileIndexEntryLite {
            path: "/launch/project".into(),
            is_dir: true,
        }],
    });

    let mut tx = Outbox::new();
    handle_new_session_popup_key(&mut app, key(KeyCode::Tab), &mut tx);

    assert_eq!(app.new_session_path, "/launch/project/");
    assert!(app.new_session_completion.is_none());
}

#[test]
fn handle_key_routes_tab_to_new_session_popup_before_global_mode_switch() {
    let mut app = new_app();
    app.conn = ConnState::Connected;
    app.popup = Popup::NewSession;
    app.agent_mode = "build".into();
    app.new_session_completion = Some(PathCompletionState {
        query: "pro".into(),
        selected_index: 0,
        results: vec![FileIndexEntryLite {
            path: "/launch/project".into(),
            is_dir: true,
        }],
    });

    let mut tx = Outbox::new();
    handle_key(&mut app, key(KeyCode::Tab), &mut tx);

    assert_eq!(app.new_session_path, "/launch/project/");
    assert!(app.new_session_completion.is_none());
    assert_eq!(app.agent_mode, "build");
    assert!(tx.msgs.is_empty());
}

#[test]
fn popup_backspace_removes_last_filter_char_and_resets_cursor() {
    let mut app = new_app();
    app.popup = Popup::SessionSelect;
    app.session_filter = "ab".to_string();
    app.session_cursor = 2;
    apply_popup_session_key(&mut app, KeyCode::Backspace);
    assert_eq!(app.session_filter, "a");
    assert_eq!(app.session_cursor, 0);
}

// ── multiple groups: navigation crosses group boundaries ─────────────────

#[test]
fn popup_down_crosses_group_boundary() {
    let mut app = new_app();
    app.popup = Popup::SessionSelect;
    app.session_groups = vec![
        make_group(Some("/a"), &["s1"]),
        make_group(Some("/b"), &["s2"]),
    ];
    // visible: [Header /a (0), Session s1 (1), Header /b (2), Session s2 (3)]
    app.session_cursor = 1; // s1
    apply_popup_session_key(&mut app, KeyCode::Down);
    assert_eq!(app.session_cursor, 2); // Header /b
    apply_popup_session_key(&mut app, KeyCode::Down);
    assert_eq!(app.session_cursor, 3); // s2
}

// ── collapse in popup does not affect start-page navigation ──────────────

#[test]
fn popup_collapse_independent_of_start_page() {
    let mut app = new_app();
    app.popup = Popup::SessionSelect;
    app.session_groups = vec![make_group(Some("/a"), &["s1"])];
    // collapse in popup
    app.session_cursor = 0;
    apply_popup_session_key(&mut app, KeyCode::Enter);
    assert!(app.popup_collapsed_groups.contains("/a"));
    // start page state untouched
    assert!(!app.collapsed_groups.contains("/a"));
}
