use qmtui::app::{App, StartPageItem};
use qmtui::protocol::{SessionGroup, SessionSummary};
use qmtui::start_page::build_start_page_rows;
use qmtui::theme::Base16Palette;

fn palette(id: &str, shade: u32) -> Base16Palette {
    let mut colors: [u32; 16] = [0; 16];
    for (i, c) in colors.iter_mut().enumerate() {
        *c = shade + 0x01_01_01 * (i as u32);
    }
    Base16Palette { id: id.to_string(), label: id.to_string(), colors }
}

fn new_app() -> App {
    App::new(vec![
        palette("base16-querymate", 0x10_20_30),
        palette("base16-ocean", 0x20_10_40),
        palette("base16-eighties", 0x40_50_10),
    ])
}

fn make_group(cwd: Option<&str>, ids: &[&str]) -> SessionGroup {
    SessionGroup {
        cwd: cwd.map(String::from),
        latest_activity: None,
        sessions: ids
            .iter()
            .map(|id| SessionSummary {
                session_id: id.to_string(),
                title: Some(format!("Session {id}")),
                cwd: cwd.map(String::from),
                created_at: None,
                updated_at: None,
                parent_session_id: None,
                has_children: false,
            })
            .collect(),
    }
}

#[test]
fn start_page_rows_empty_groups_yields_empty_rows() {
    let app = new_app();
    let rows = build_start_page_rows(&app, 80, 0);
    assert!(rows.is_empty());
}

#[test]
fn start_page_rows_single_expanded_group() {
    let mut app = new_app();
    app.session_groups = vec![make_group(Some("/a"), &["s1", "s2"])];
    let rows = build_start_page_rows(&app, 80, 0);
    assert_eq!(rows.len(), 3);
    assert!(matches!(rows[0].item, StartPageItem::GroupHeader { .. }));
    assert!(matches!(rows[1].item, StartPageItem::Session { .. }));
    assert!(matches!(rows[2].item, StartPageItem::Session { .. }));
}

#[test]
fn start_page_rows_collapsed_group_shows_only_header() {
    let mut app = new_app();
    app.session_groups = vec![make_group(Some("/a"), &["s1", "s2"])];
    app.collapsed_groups.insert("/a".to_string());
    let rows = build_start_page_rows(&app, 80, 0);
    assert_eq!(rows.len(), 1);
    assert!(matches!(
        rows[0].item,
        StartPageItem::GroupHeader {
            collapsed: true,
            ..
        }
    ));
}

#[test]
fn start_page_rows_selected_flag_matches_cursor() {
    let mut app = new_app();
    app.session_groups = vec![make_group(Some("/a"), &["s1", "s2"])];
    app.session_cursor = 1; // points at first session row (index 1)
    let rows = build_start_page_rows(&app, 80, 0);
    assert!(!rows[0].selected); // header not selected
    assert!(rows[1].selected); // first session selected
    assert!(!rows[2].selected);
}

#[test]
fn start_page_rows_header_contains_cwd() {
    let mut app = new_app();
    app.session_groups = vec![make_group(Some("/home/user/proj"), &["s1"])];
    let rows = build_start_page_rows(&app, 80, 0);
    // The header line should contain the cwd somewhere in its text
    let header_text = rows[0]
        .line
        .spans
        .iter()
        .map(|s| s.content.as_str())
        .collect::<String>();
    assert!(
        header_text.contains("/home/user/proj") || header_text.contains("proj"),
        "header text '{header_text}' should contain cwd"
    );
}

#[test]
fn start_page_rows_session_contains_id() {
    let mut app = new_app();
    app.session_groups = vec![make_group(Some("/a"), &["abcdef12"])];
    let rows = build_start_page_rows(&app, 80, 0);
    let session_text = rows[1]
        .line
        .spans
        .iter()
        .map(|s| s.content.as_str())
        .collect::<String>();
    assert!(
        session_text.contains("abcdef12") || session_text.contains("abcdef"),
        "session row '{session_text}' should contain id prefix"
    );
}

#[test]
fn start_page_rows_collapsed_indicator_present() {
    let mut app = new_app();
    app.session_groups = vec![make_group(Some("/a"), &["s1"])];
    app.collapsed_groups.insert("/a".to_string());
    let rows = build_start_page_rows(&app, 80, 0);
    let text = rows[0]
        .line
        .spans
        .iter()
        .map(|s| s.content.as_str())
        .collect::<String>();
    assert!(
        text.contains('\u{25B8}'),
        "collapsed header must contain ▸, got: {text}"
    );
}

#[test]
fn start_page_rows_expanded_indicator_present() {
    let mut app = new_app();
    app.session_groups = vec![make_group(Some("/a"), &["s1"])];
    // not collapsed
    let rows = build_start_page_rows(&app, 80, 0);
    let text = rows[0]
        .line
        .spans
        .iter()
        .map(|s| s.content.as_str())
        .collect::<String>();
    assert!(
        text.contains('\u{25BE}'),
        "expanded header must contain ▾, got: {text}"
    );
}

#[test]
fn start_page_rows_no_sessions_yields_empty_state_row() {
    let app = new_app();
    let rows = build_start_page_rows(&app, 80, 0);
    assert!(
        rows.is_empty(),
        "no groups means no rows (empty state handled in draw_start)"
    );
}
