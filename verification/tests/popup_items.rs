use qmtui::app::{App, PopupItem};
use qmtui::protocol::{SessionGroup, SessionSummary};
use qmtui::theme::Base16Palette;

fn palette(id: &str, shade: u32) -> Base16Palette {
    let mut colors: [u32; 16] = [0; 16];
    for (i, c) in colors.iter_mut().enumerate() {
        *c = shade + 0x01_01_01 * (i as u32);
    }
    Base16Palette { id: id.to_string(), label: id.to_string(), colors }
}

fn new_app() -> App {
    App::new(vec![
        palette("base16-querymate", 0x10_20_30),
        palette("base16-ocean", 0x20_10_40),
        palette("base16-eighties", 0x40_50_10),
    ])
}

fn make_group(cwd: Option<&str>, ids: &[&str]) -> SessionGroup {
    SessionGroup {
        cwd: cwd.map(String::from),
        latest_activity: None,
        sessions: ids
            .iter()
            .map(|id| SessionSummary {
                session_id: id.to_string(),
                title: Some(format!("Session {id}")),
                cwd: cwd.map(String::from),
                created_at: None,
                updated_at: None,
                parent_session_id: None,
                has_children: false,
            })
            .collect(),
    }
}

// ── empty state ───────────────────────────────────────────────────────────

#[test]
fn popup_items_empty_when_no_sessions() {
    let app = new_app();
    assert!(app.visible_popup_items().is_empty());
}

// ── basic structure: header then sessions ─────────────────────────────────

#[test]
fn popup_items_header_then_sessions() {
    let mut app = new_app();
    app.session_groups = vec![make_group(Some("/a"), &["s1", "s2"])];
    let items = app.visible_popup_items();
    // 1 header + 2 sessions
    assert_eq!(items.len(), 3);
    assert!(matches!(&items[0], PopupItem::GroupHeader { .. }));
    assert!(matches!(&items[1], PopupItem::Session { .. }));
    assert!(matches!(&items[2], PopupItem::Session { .. }));
}

// ── no MAX_RECENT_SESSIONS cap ────────────────────────────────────────────

#[test]
fn popup_items_shows_all_sessions_beyond_cap() {
    let mut app = new_app();
    // 10 sessions - all should appear, no cap like start page
    let ids: Vec<&str> = vec!["s1", "s2", "s3", "s4", "s5", "s6", "s7", "s8", "s9", "s10"];
    app.session_groups = vec![make_group(Some("/a"), &ids)];
    let items = app.visible_popup_items();
    // 1 header + 10 sessions = 11
    assert_eq!(items.len(), 11);
    // No ShowMore items
    assert!(
        !items
            .iter()
            .any(|i| matches!(i, PopupItem::GroupHeader { .. } if false))
    );
}

// ── no MAX_VISIBLE_GROUPS cap ─────────────────────────────────────────────

#[test]
fn popup_items_shows_all_groups_beyond_cap() {
    let mut app = new_app();
    app.session_groups = vec![
        make_group(Some("/a"), &["s1"]),
        make_group(Some("/b"), &["s2"]),
        make_group(Some("/c"), &["s3"]),
        make_group(Some("/d"), &["s4"]),
        make_group(Some("/e"), &["s5"]),
    ];
    let items = app.visible_popup_items();
    let headers = items
        .iter()
        .filter(|i| matches!(i, PopupItem::GroupHeader { .. }))
        .count();
    // All 5 groups shown (start page would cap at MAX_VISIBLE_GROUPS=3)
    assert_eq!(headers, 5);
}

// ── collapse is separate from start page ──────────────────────────────────

#[test]
fn popup_collapsed_is_independent_of_start_page_collapsed() {
    let mut app = new_app();
    app.session_groups = vec![make_group(Some("/a"), &["s1", "s2"])];
    // Collapse on the start page should NOT affect the popup
    app.collapsed_groups.insert("/a".to_string());
    let items = app.visible_popup_items();
    // Popup uses popup_collapsed_groups, not collapsed_groups
    // /a is expanded in popup → header + 2 sessions = 3
    assert_eq!(items.len(), 3);
}

#[test]
fn popup_collapsed_hides_sessions() {
    let mut app = new_app();
    app.session_groups = vec![make_group(Some("/a"), &["s1", "s2"])];
    app.popup_collapsed_groups.insert("/a".to_string());
    let items = app.visible_popup_items();
    // Only the header visible
    assert_eq!(items.len(), 1);
    assert!(matches!(
        &items[0],
        PopupItem::GroupHeader {
            collapsed: true,
            ..
        }
    ));
}

#[test]
fn popup_expanded_shows_sessions() {
    let mut app = new_app();
    app.session_groups = vec![make_group(Some("/a"), &["s1"])];
    // Not in popup_collapsed_groups → expanded
    let items = app.visible_popup_items();
    assert_eq!(items.len(), 2);
    assert!(matches!(
        &items[0],
        PopupItem::GroupHeader {
            collapsed: false,
            ..
        }
    ));
}

// ── multiple groups, mixed collapse ───────────────────────────────────────

#[test]
fn popup_items_multiple_groups() {
    let mut app = new_app();
    app.session_groups = vec![
        make_group(Some("/a"), &["s1"]),
        make_group(Some("/b"), &["s2", "s3"]),
    ];
    let items = app.visible_popup_items();
    // /a: 1 header + 1 session; /b: 1 header + 2 sessions = 5
    assert_eq!(items.len(), 5);
}

#[test]
fn popup_one_group_collapsed_other_expanded() {
    let mut app = new_app();
    app.session_groups = vec![
        make_group(Some("/a"), &["s1"]),
        make_group(Some("/b"), &["s2", "s3"]),
    ];
    app.popup_collapsed_groups.insert("/a".to_string());
    let items = app.visible_popup_items();
    // /a collapsed: 1 header; /b expanded: 1 header + 2 sessions = 4
    assert_eq!(items.len(), 4);
    assert!(matches!(
        &items[0],
        PopupItem::GroupHeader {
            collapsed: true,
            ..
        }
    ));
    assert!(matches!(
        &items[1],
        PopupItem::GroupHeader {
            collapsed: false,
            ..
        }
    ));
}

// ── filter hides non-matching sessions ────────────────────────────────────

#[test]
fn popup_filter_hides_non_matching_sessions() {
    let mut app = new_app();
    app.session_groups = vec![make_group(Some("/a"), &["aaa", "bbb", "aab"])];
    app.session_filter = "aa".to_string();
    let items = app.visible_popup_items();
    // header + "aaa" + "aab" (bbb filtered out by session_id)
    assert_eq!(items.len(), 3);
}

#[test]
fn popup_filter_hides_groups_with_no_matches() {
    let mut app = new_app();
    app.session_groups = vec![
        make_group(Some("/a"), &["aaa"]),
        make_group(Some("/b"), &["bbb"]),
    ];
    app.session_filter = "bbb".to_string();
    let items = app.visible_popup_items();
    // /a has no matches → hidden; /b: header + "bbb" = 2
    assert_eq!(items.len(), 2);
    if let PopupItem::GroupHeader { cwd, .. } = &items[0] {
        assert_eq!(cwd.as_deref(), Some("/b"));
    } else {
        panic!("expected GroupHeader");
    }
}

// ── session indices are correct ───────────────────────────────────────────

#[test]
fn popup_items_session_indices_correct() {
    let mut app = new_app();
    app.session_groups = vec![
        make_group(Some("/a"), &["s0", "s1"]),
        make_group(Some("/b"), &["s2"]),
    ];
    let items = app.visible_popup_items();
    // items[0]: GroupHeader /a
    // items[1]: Session group_idx=0, session_idx=0
    // items[2]: Session group_idx=0, session_idx=1
    // items[3]: GroupHeader /b
    // items[4]: Session group_idx=1, session_idx=0
    assert!(matches!(
        &items[1],
        PopupItem::Session {
            group_idx: 0,
            session_idx: 0
        }
    ));
    assert!(matches!(
        &items[2],
        PopupItem::Session {
            group_idx: 0,
            session_idx: 1
        }
    ));
    assert!(matches!(
        &items[4],
        PopupItem::Session {
            group_idx: 1,
            session_idx: 0
        }
    ));
}

// ── group header carries correct session_count ────────────────────────────

#[test]
fn popup_group_header_session_count_reflects_total() {
    let mut app = new_app();
    app.session_groups = vec![make_group(Some("/a"), &["s1", "s2", "s3"])];
    let items = app.visible_popup_items();
    assert!(matches!(
        &items[0],
        PopupItem::GroupHeader {
            session_count: 3,
            ..
        }
    ));
}

// ── toggle_popup_group_collapse ───────────────────────────────────────────

#[test]
fn toggle_popup_collapse_collapses_then_expands() {
    let mut app = new_app();
    assert!(!app.popup_collapsed_groups.contains("/a"));
    app.toggle_popup_group_collapse(&Some("/a".into()));
    assert!(app.popup_collapsed_groups.contains("/a"));
    app.toggle_popup_group_collapse(&Some("/a".into()));
    assert!(!app.popup_collapsed_groups.contains("/a"));
}

#[test]
fn toggle_popup_collapse_none_cwd_uses_empty_string_key() {
    let mut app = new_app();
    app.toggle_popup_group_collapse(&None);
    assert!(app.popup_collapsed_groups.contains(""));
    app.toggle_popup_group_collapse(&None);
    assert!(!app.popup_collapsed_groups.contains(""));
}

#[test]
fn toggle_popup_collapse_does_not_affect_start_page_state() {
    let mut app = new_app();
    app.toggle_popup_group_collapse(&Some("/a".into()));
    assert!(app.popup_collapsed_groups.contains("/a"));
    // start page collapsed_groups should be untouched
    assert!(!app.collapsed_groups.contains("/a"));
}
