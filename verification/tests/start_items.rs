use qmtui::app::{App, StartPageItem};
use qmtui::protocol::{RawServerMsg, ServerData, SessionGroup, SessionListData, SessionSummary};
use qmtui::theme::Base16Palette;

fn palette(id: &str, shade: u32) -> Base16Palette {
    let mut colors: [u32; 16] = [0; 16];
    for (i, c) in colors.iter_mut().enumerate() {
        *c = shade + 0x01_01_01 * (i as u32);
    }
    Base16Palette { id: id.to_string(), label: id.to_string(), colors }
}

fn new_app() -> App {
    App::new(vec![
        palette("base16-querymate", 0x10_20_30),
        palette("base16-ocean", 0x20_10_40),
        palette("base16-eighties", 0x40_50_10),
    ])
}

fn make_group(cwd: Option<&str>, ids: &[(&str, Option<&str>)]) -> SessionGroup {
    SessionGroup {
        cwd: cwd.map(String::from),
        latest_activity: None,
        sessions: ids
            .iter()
            .map(|(id, updated_at)| SessionSummary {
                session_id: id.to_string(),
                title: Some(format!("Session {id}")),
                cwd: cwd.map(String::from),
                created_at: None,
                updated_at: updated_at.map(String::from),
                parent_session_id: None,
                has_children: false,
            })
            .collect(),
    }
}

// ── visible_start_items: no sessions ─────────────────────────────────────

#[test]
fn visible_items_empty_when_no_sessions() {
    let app = new_app();
    let items = app.visible_start_items();
    assert!(items.is_empty());
}

// ── visible_start_items: basic structure ─────────────────────────────────

#[test]
fn visible_items_header_then_sessions_expanded() {
    let mut app = new_app();
    app.session_groups = vec![make_group(Some("/a"), &[("s1", None), ("s2", None)])];

    let items = app.visible_start_items();
    // 1 header + 2 sessions
    assert_eq!(items.len(), 3);
    assert!(matches!(&items[0], StartPageItem::GroupHeader { .. }));
    assert!(matches!(&items[1], StartPageItem::Session { .. }));
    assert!(matches!(&items[2], StartPageItem::Session { .. }));
}

// ── visible_start_items: collapse hides children ─────────────────────────

#[test]
fn visible_items_collapsed_group_hides_sessions() {
    let mut app = new_app();
    app.session_groups = vec![make_group(Some("/a"), &[("s1", None), ("s2", None)])];
    app.collapsed_groups.insert("/a".to_string());

    let items = app.visible_start_items();
    // only the header
    assert_eq!(items.len(), 1);
    assert!(matches!(
        &items[0],
        StartPageItem::GroupHeader {
            collapsed: true,
            ..
        }
    ));
}

// ── visible_start_items: multiple groups ─────────────────────────────────

#[test]
fn visible_items_multiple_groups() {
    let mut app = new_app();
    app.session_groups = vec![
        make_group(Some("/a"), &[("s1", None)]),
        make_group(Some("/b"), &[("s2", None), ("s3", None)]),
    ];

    let items = app.visible_start_items();
    // group /a: 1 header + 1 session = 2
    // group /b: 1 header + 2 sessions = 3
    assert_eq!(items.len(), 5);
}

// ── visible_start_items: mixed collapse ───────────────────────────────────

#[test]
fn visible_items_one_group_collapsed_other_expanded() {
    let mut app = new_app();
    app.session_groups = vec![
        make_group(Some("/a"), &[("s1", None)]),
        make_group(Some("/b"), &[("s2", None), ("s3", None)]),
    ];
    app.collapsed_groups.insert("/a".to_string());

    let items = app.visible_start_items();
    // /a collapsed: 1 header
    // /b expanded:  1 header + 2 sessions
    assert_eq!(items.len(), 4);
    assert!(matches!(
        &items[0],
        StartPageItem::GroupHeader {
            collapsed: true,
            ..
        }
    ));
    assert!(matches!(
        &items[1],
        StartPageItem::GroupHeader {
            collapsed: false,
            ..
        }
    ));
}

// ── visible_start_items: filter hides non-matching sessions ──────────────

#[test]
fn visible_items_filter_hides_non_matching_sessions() {
    let mut app = new_app();
    app.session_groups = vec![make_group(
        Some("/a"),
        &[("aaa", None), ("bbb", None), ("aab", None)],
    )];
    app.session_filter = "aa".to_string();

    let items = app.visible_start_items();
    // header + "aaa" + "aab" (bbb filtered out by session_id)
    assert_eq!(items.len(), 3);
}

// ── visible_start_items: filter hides empty groups ────────────────────────

#[test]
fn visible_items_filter_hides_groups_with_no_matches() {
    let mut app = new_app();
    app.session_groups = vec![
        make_group(Some("/a"), &[("aaa", None)]),
        make_group(Some("/b"), &[("bbb", None)]),
    ];
    app.session_filter = "bbb".to_string();

    let items = app.visible_start_items();
    // group /a has no matches → hidden entirely
    // group /b: header + "bbb"
    assert_eq!(items.len(), 2);
    if let StartPageItem::GroupHeader { cwd, .. } = &items[0] {
        assert_eq!(cwd.as_deref(), Some("/b"));
    } else {
        panic!("expected GroupHeader");
    }
}

// ── visible_start_items: session indices are correct ─────────────────────

#[test]
fn visible_items_session_indices_correct() {
    let mut app = new_app();
    app.session_groups = vec![
        make_group(Some("/a"), &[("s0", None), ("s1", None)]),
        make_group(Some("/b"), &[("s2", None)]),
    ];

    let items = app.visible_start_items();
    // items[0]: GroupHeader /a
    // items[1]: Session group_idx=0, session_idx=0
    // items[2]: Session group_idx=0, session_idx=1
    // items[3]: GroupHeader /b
    // items[4]: Session group_idx=1, session_idx=0
    assert!(matches!(
        &items[1],
        StartPageItem::Session {
            group_idx: 0,
            session_idx: 0
        }
    ));
    assert!(matches!(
        &items[2],
        StartPageItem::Session {
            group_idx: 0,
            session_idx: 1
        }
    ));
    assert!(matches!(
        &items[4],
        StartPageItem::Session {
            group_idx: 1,
            session_idx: 0
        }
    ));
}

// ── session_list message preserves group structure ────────────────────────

#[test]
fn session_list_message_populates_session_groups() {
    let mut app = new_app();
    app.handle_server_msg(RawServerMsg {
        msg_type: "session_list".into(),
        data: Some(ServerData::SessionList(SessionListData {
            groups: vec![SessionGroup {
                cwd: Some("/home/user/proj".into()),
                latest_activity: None,
                sessions: vec![SessionSummary {
                    session_id: "s1".into(),
                    title: Some("T1".into()),
                    cwd: None,
                    created_at: None,
                    updated_at: Some("2024-01-01T00:00:00Z".into()),
                    parent_session_id: None,
                    has_children: false,
                }],
            }],
        })),
    });

    assert_eq!(app.session_groups.len(), 1);
    assert_eq!(
        app.session_groups[0].cwd.as_deref(),
        Some("/home/user/proj")
    );
    assert_eq!(app.session_groups[0].sessions.len(), 1);
    assert_eq!(app.session_groups[0].sessions[0].session_id, "s1");
}

// ── filtered_sessions still works (for popup compat) ─────────────────────

#[test]
fn filtered_sessions_returns_flat_list_for_popup() {
    let mut app = new_app();
    app.session_groups = vec![
        make_group(Some("/a"), &[("s1", None)]),
        make_group(Some("/b"), &[("s2", None), ("s3", None)]),
    ];

    let flat = app.filtered_sessions();
    assert_eq!(flat.len(), 3);
}

#[test]
fn filtered_sessions_applies_filter() {
    let mut app = new_app();
    app.session_groups = vec![make_group(Some("/a"), &[("aaa", None), ("bbb", None)])];
    app.session_filter = "aaa".to_string();

    let flat = app.filtered_sessions();
    assert_eq!(flat.len(), 1);
    assert_eq!(flat[0].session_id, "aaa");
}

// ── GroupHeader carries correct session_count ─────────────────────────────

#[test]
fn group_header_session_count_reflects_total_not_filtered() {
    let mut app = new_app();
    app.session_groups = vec![make_group(
        Some("/a"),
        &[("s1", None), ("s2", None), ("s3", None)],
    )];

    let items = app.visible_start_items();
    assert!(matches!(
        &items[0],
        StartPageItem::GroupHeader {
            session_count: 3,
            ..
        }
    ));
}

// ── toggle_group_collapse ─────────────────────────────────────────────────

#[test]
fn toggle_group_collapse_collapses_then_expands() {
    let mut app = new_app();
    let key = "/a".to_string();
    assert!(!app.collapsed_groups.contains(&key));

    app.toggle_group_collapse(&Some("/a".into()));
    assert!(app.collapsed_groups.contains(&key));

    app.toggle_group_collapse(&Some("/a".into()));
    assert!(!app.collapsed_groups.contains(&key));
}

#[test]
fn toggle_group_collapse_none_cwd_uses_empty_string_key() {
    let mut app = new_app();
    app.toggle_group_collapse(&None);
    assert!(app.collapsed_groups.contains(""));

    app.toggle_group_collapse(&None);
    assert!(!app.collapsed_groups.contains(""));
}

// ── MAX_RECENT_SESSIONS cap ───────────────────────────────────────────────

#[test]
fn visible_items_group_with_three_sessions_shows_no_show_more() {
    let mut app = new_app();
    app.session_groups = vec![make_group(
        Some("/a"),
        &[("s1", None), ("s2", None), ("s3", None)],
    )];
    let items = app.visible_start_items();
    // header + 3 sessions, no ShowMore
    assert_eq!(items.len(), 4);
    assert!(
        !items
            .iter()
            .any(|i| matches!(i, StartPageItem::ShowMore { .. }))
    );
}

#[test]
fn visible_items_group_with_four_sessions_caps_at_three_plus_show_more() {
    let mut app = new_app();
    app.session_groups = vec![make_group(
        Some("/a"),
        &[("s1", None), ("s2", None), ("s3", None), ("s4", None)],
    )];
    let items = app.visible_start_items();
    // header + 3 sessions + ShowMore
    assert_eq!(items.len(), 5);
    assert!(matches!(
        items[4],
        StartPageItem::ShowMore { remaining: 1, .. }
    ));
}

#[test]
fn visible_items_show_more_remaining_is_total_minus_three() {
    let mut app = new_app();
    // 7 sessions → show 3 + ShowMore(remaining=4)
    app.session_groups = vec![make_group(
        Some("/a"),
        &[
            ("s1", None),
            ("s2", None),
            ("s3", None),
            ("s4", None),
            ("s5", None),
            ("s6", None),
            ("s7", None),
        ],
    )];
    let items = app.visible_start_items();
    assert!(matches!(
        items.last(),
        Some(StartPageItem::ShowMore { remaining: 4, .. })
    ));
}

#[test]
fn visible_items_filter_active_still_caps_sessions() {
    let mut app = new_app();
    app.session_groups = vec![make_group(
        Some("/a"),
        &[
            ("aaa1", None),
            ("aaa2", None),
            ("aaa3", None),
            ("aaa4", None),
        ],
    )];
    app.session_filter = "aaa".to_string();
    let items = app.visible_start_items();
    // All 4 match the filter but cap still applies → header + 3 sessions + ShowMore(1)
    assert_eq!(items.len(), 5);
    assert!(matches!(
        items.last(),
        Some(StartPageItem::ShowMore { remaining: 1 })
    ));
}

// ── MAX_VISIBLE_GROUPS cap ────────────────────────────────────────────────

#[test]
fn visible_items_three_groups_shows_no_trailing_show_more() {
    let mut app = new_app();
    app.session_groups = vec![
        make_group(Some("/a"), &[("s1", None)]),
        make_group(Some("/b"), &[("s2", None)]),
        make_group(Some("/c"), &[("s3", None)]),
    ];
    let items = app.visible_start_items();
    // 3 headers + 3 sessions = 6, no trailing ShowMore
    assert_eq!(items.len(), 6);
    assert!(
        !items
            .iter()
            .any(|i| matches!(i, StartPageItem::ShowMore { .. }))
    );
}

#[test]
fn visible_items_four_groups_caps_at_three_plus_show_more() {
    let mut app = new_app();
    app.session_groups = vec![
        make_group(Some("/a"), &[("s1", None)]),
        make_group(Some("/b"), &[("s2", None)]),
        make_group(Some("/c"), &[("s3", None)]),
        make_group(Some("/d"), &[("s4", None)]),
    ];
    let items = app.visible_start_items();
    // 3 groups (3 headers + 3 sessions) + 1 trailing ShowMore = 7
    assert_eq!(items.len(), 7);
    assert!(matches!(
        items.last(),
        Some(StartPageItem::ShowMore { remaining: 1 })
    ));
}

#[test]
fn visible_items_trailing_show_more_remaining_is_hidden_groups() {
    let mut app = new_app();
    app.session_groups = vec![
        make_group(Some("/a"), &[("s1", None)]),
        make_group(Some("/b"), &[("s2", None)]),
        make_group(Some("/c"), &[("s3", None)]),
        make_group(Some("/d"), &[("s4", None)]),
        make_group(Some("/e"), &[("s5", None)]),
        make_group(Some("/f"), &[("s6", None)]),
    ];
    let items = app.visible_start_items();
    // 3 shown groups + 1 trailing ShowMore(remaining=3)
    assert!(matches!(
        items.last(),
        Some(StartPageItem::ShowMore { remaining: 3 })
    ));
}

#[test]
fn visible_items_group_cap_applied_with_filter_active() {
    let mut app = new_app();
    app.session_groups = vec![
        make_group(Some("/a"), &[("aaa1", None)]),
        make_group(Some("/b"), &[("aaa2", None)]),
        make_group(Some("/c"), &[("aaa3", None)]),
        make_group(Some("/d"), &[("aaa4", None)]),
    ];
    app.session_filter = "aaa".to_string();
    let items = app.visible_start_items();
    // Filter active but group cap still applies → 3 groups + trailing ShowMore(1)
    let headers = items
        .iter()
        .filter(|i| matches!(i, StartPageItem::GroupHeader { .. }))
        .count();
    assert_eq!(headers, 3);
    assert!(matches!(
        items.last(),
        Some(StartPageItem::ShowMore { remaining: 1 })
    ));
}
