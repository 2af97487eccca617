use qmtui::app::{
    App, FileIndexEntryLite, LogLevel, PathCompletionState, Popup, Screen, SessionActivity,
};
use qmtui::canvas::{Area, Paint};
use qmtui::chat_page::{draw, draw_chat};
use qmtui::highlight::Highlighter;
use qmtui::layout::build_input_visual_layout;
use qmtui::popups::{
    draw_help_popup, draw_log_popup, draw_model_popup, draw_new_session_popup, draw_session_popup,
};
use qmtui::protocol::{SessionGroup, SessionSummary};
use qmtui::spinner::{spinner, SpinnerKind};
use qmtui::style::{Line, Style};
use qmtui::symbols::ICON_MULTI_SESSION;
use qmtui::theme::Base16Palette;
use ratatui::backend::{Backend, TestBackend};
use ratatui::buffer::Buffer;
use ratatui::layout::{Position, Rect};
use ratatui::style::Modifier;
use ratatui::widgets::{Block, Clear, List, ListItem, ListState, Paragraph, Wrap};
use ratatui::Terminal;

fn palette(id: &str, shade: u32) -> Base16Palette {
    let mut colors: [u32; 16] = [0; 16];
    for (i, c) in colors.iter_mut().enumerate() {
        *c = shade + 0x01_01_01 * (i as u32);
    }
    Base16Palette { id: id.to_string(), label: id.to_string(), colors }
}

fn new_app() -> App {
    App::new(vec![
        palette("base16-querymate", 0x10_20_30),
        palette("base16-ocean", 0x20_10_40),
        palette("base16-eighties", 0x40_50_10),
    ])
}

fn style_of(s: Style) -> ratatui::style::Style {
    let mut out = ratatui::style::Style::default();
    if let Some(c) = s.fg {
        out = out.fg(ratatui::style::Color::Rgb(c.r, c.g, c.b));
    }
    if let Some(c) = s.bg {
        out = out.bg(ratatui::style::Color::Rgb(c.r, c.g, c.b));
    }
    if s.bold {
        out = out.add_modifier(Modifier::BOLD);
    }
    out
}

fn text_of(lines: &[Line]) -> Vec<ratatui::text::Line<'static>> {
    lines
        .iter()
        .map(|l| {
            ratatui::text::Line::from(
                l.spans
                    .iter()
                    .map(|s| ratatui::text::Span::styled(s.content.clone(), style_of(s.style)))
                    .collect::<Vec<_>>(),
            )
        })
        .collect()
}

fn rect(a: Area) -> Rect {
    Rect::new(a.x, a.y, a.width, a.height)
}

/// Draws a picture on a test terminal: its cells, and where the cursor is.
fn show(picture: &[Paint], width: u16, height: u16) -> (Buffer, Position) {
    let mut terminal = Terminal::new(TestBackend::new(width, height)).unwrap();
    terminal
        .draw(|f| {
            for p in picture {
                match p {
                    Paint::Clear(area) => f.render_widget(Clear, rect(*area)),
                    Paint::Fill { area, style } => {
                        f.render_widget(Block::default().style(style_of(*style)), rect(*area));
                    }
                    Paint::Text { area, lines, style, wrap, scroll, centered } => {
                        let mut p = Paragraph::new(text_of(lines))
                            .style(style_of(*style))
                            .scroll((*scroll, 0));
                        if *wrap {
                            p = p.wrap(Wrap { trim: false });
                        }
                        if *centered {
                            p = p.centered();
                        }
                        f.render_widget(p, rect(*area));
                    }
                    Paint::List { area, title, rows, style, highlight, selected, offset } => {
                        let mut block = Block::default().style(style_of(*style));
                        if let Some(t) = title {
                            block = block.title(t.clone());
                        }
                        let items: Vec<ListItem> =
                            text_of(rows).into_iter().map(ListItem::new).collect();
                        let mut list = List::new(items).block(block);
                        if let Some(h) = highlight {
                            list = list.highlight_style(style_of(*h));
                        }
                        let mut state =
                            ListState::default().with_selected(*selected).with_offset(*offset);
                        f.render_stateful_widget(list, rect(*area), &mut state);
                    }
                    Paint::Cursor { x, y } => f.set_cursor_position((*x, *y)),
                }
            }
        })
        .unwrap();
    let buffer = terminal.backend().buffer().clone();
    let cursor = terminal.backend_mut().get_cursor_position().unwrap();
    (buffer, cursor)
}

fn all_cells(buffer: &Buffer) -> String {
    buffer.content().iter().map(|cell| cell.symbol()).collect()
}

fn screen(width: u16, height: u16) -> Area {
    Area { x: 0, y: 0, width, height }
}

fn render_chat_buffer(app: &mut App, width: u16, height: u16) -> Buffer {
    let picture = draw_chat(app, screen(width, height), 0, &Highlighter::new());
    show(&picture, width, height).0
}

fn buffer_line(buffer: &Buffer, y: u16) -> String {
    (0..buffer.area.width).map(|x| buffer[(x, y)].symbol()).collect::<String>()
}

fn make_group(cwd: Option<&str>, ids: &[&str]) -> SessionGroup {
    SessionGroup {
        cwd: cwd.map(String::from),
        latest_activity: None,
        sessions: ids
            .iter()
            .map(|id| SessionSummary {
                session_id: id.to_string(),
                title: Some(format!("Session {id}")),
                cwd: cwd.map(String::from),
                created_at: None,
                updated_at: None,
                parent_session_id: None,
                has_children: false,
            })
            .collect(),
    }
}

#[test]
fn spinner_supports_all_defined_kinds() {
    assert_eq!(spinner(SpinnerKind::Braille, 0), "⠋");
    assert_eq!(spinner(SpinnerKind::Line, 0), "-");
    assert_eq!(spinner(SpinnerKind::Dots, 0), ".  ");
}

#[test]
fn input_visual_layout_wraps_long_lines_and_tracks_cursor() {
    let layout = build_input_visual_layout("abcdef", 4, 4, 2);
    assert_eq!(layout.rows.len(), 2);
    assert_eq!(layout.rows[0].text, "ab");
    assert_eq!(layout.rows[1].text, "cdef");
    assert_eq!(layout.cursor_row, 1);
    assert_eq!(layout.cursor_col, 2);
}

#[test]
fn input_visual_layout_preserves_hard_break_rows() {
    let layout = build_input_visual_layout("ab\ncd", 3, 6, 2);
    assert_eq!(layout.rows.len(), 2);
    assert_eq!(layout.rows[0].text, "ab");
    assert_eq!(layout.rows[1].text, "cd");
    assert_eq!(layout.cursor_row, 1);
    assert_eq!(layout.cursor_col, 0);
}

#[test]
fn draw_chat_shows_multi_session_badge_for_other_recent_sessions() {
    let mut app = new_app();
    app.now_ns = 10_000_000_000;
    app.screen = Screen::Chat;
    app.session_id = Some("session-a".into());
    app.agent_mode = "build".into();
    app.current_provider = Some("acme".into());
    app.current_model = Some("sonnet".into());
    app.session_activity.insert(
        "session-a".into(),
        SessionActivity {
            last_event_at: app.now_ns,
        },
    );

    let buffer = render_chat_buffer(&mut app, 80, 8);
    let rendered = all_cells(&buffer);
    assert!(!rendered.contains(ICON_MULTI_SESSION));

    app.session_activity.insert(
        "session-b".into(),
        SessionActivity {
            last_event_at: app.now_ns,
        },
    );
    let buffer = render_chat_buffer(&mut app, 80, 8);
    let rendered = all_cells(&buffer);
    assert!(rendered.contains(&format!("{ICON_MULTI_SESSION} 1")));
    assert!(!rendered.contains(&format!("{ICON_MULTI_SESSION} 2")));

    app.session_activity.insert(
        "session-c".into(),
        SessionActivity {
            last_event_at: app.now_ns,
        },
    );
    let buffer = render_chat_buffer(&mut app, 80, 8);
    let rendered = all_cells(&buffer);
    assert!(rendered.contains(&format!("{ICON_MULTI_SESSION} 2")));

    app.session_activity.insert(
        "session-c".into(),
        SessionActivity {
            last_event_at: app.now_ns - 6_000_000_000,
        },
    );
    let buffer = render_chat_buffer(&mut app, 80, 8);
    let rendered = all_cells(&buffer);
    assert!(rendered.contains(&format!("{ICON_MULTI_SESSION} 1")));
    assert!(!rendered.contains(&format!("{ICON_MULTI_SESSION} 2")));
}

#[test]
fn draw_chat_preserves_hard_line_breaks_in_input() {
    let mut app = new_app();
    app.screen = Screen::Chat;
    app.agent_mode = "build".into();
    app.input = "alpha\nbeta".into();
    app.input_cursor = app.input.len();

    let buffer = render_chat_buffer(&mut app, 40, 10);
    let line1 = buffer_line(&buffer, 7);
    let line2 = buffer_line(&buffer, 8);

    assert!(
        line1.contains("> alpha"),
        "first input line missing: {line1:?}"
    );
    assert!(
        line2.contains("beta"),
        "second input line missing: {line2:?}"
    );
}

#[test]
fn draw_chat_places_cursor_on_next_row_after_newline() {
    let mut app = new_app();
    app.screen = Screen::Chat;
    app.agent_mode = "build".into();
    app.input = "alpha\nbeta".into();
    app.input_cursor = "alpha\n".len();

    let picture = draw_chat(&mut app, screen(40, 10), 0, &Highlighter::new());
    let (_, cursor) = show(&picture, 40, 10);

    assert_eq!(cursor, Position::new(2, 8));
}

#[test]
fn draw_session_popup_shows_active_badge_for_current_session() {
    let mut app = new_app();
    app.popup = Popup::SessionSelect;
    app.session_id = Some("s2".into());
    app.session_groups = vec![make_group(Some("/a"), &["s1", "s2"])];

    let picture = draw_session_popup(&app, screen(80, 20), 0);
    let (buffer, _) = show(&picture, 80, 20);
    let rendered = all_cells(&buffer);

    assert!(rendered.contains("active"));
}

#[test]
fn draw_new_session_popup_shows_compact_default_cwd_hint() {
    let mut app = new_app();
    app.popup = Popup::NewSession;
    app.new_session_path = "/launch".into();
    app.new_session_cursor = app.new_session_path.len();
    app.new_session_completion = Some(PathCompletionState {
        query: "/launch".into(),
        selected_index: 0,
        results: vec![FileIndexEntryLite {
            path: "/launch/project".into(),
            is_dir: true,
        }],
    });

    let picture = draw_new_session_popup(&app, screen(80, 12));
    let (buffer, _) = show(&picture, 80, 12);
    let rendered = all_cells(&buffer);

    assert!(rendered.contains("new session"));
    assert!(rendered.contains("workspace path (empty = default cwd)"));
    assert!(rendered.contains("> /launch"));
    assert!(rendered.contains("/launch/project"));
    assert!(!rendered.contains("[D]"));
    assert!(rendered.contains("tab complete  enter start  esc cancel"));
}

#[test]
fn draw_log_popup_shows_filter_level_and_entries() {
    let mut app = new_app();
    app.popup = Popup::Log;
    app.log_filter = "server".into();
    app.log_level_filter = LogLevel::Info;
    app.push_log(
        LogLevel::Info,
        "server",
        "starting local server",
    );
    app.push_log(LogLevel::Error, "server", "start failed");
    app.log_cursor = app.filtered_logs().len().saturating_sub(1);

    let picture = draw_log_popup(&app, screen(100, 20));
    let (buffer, _) = show(&picture, 100, 20);
    let rendered = all_cells(&buffer);

    assert!(rendered.contains("logs"));
    assert!(rendered.contains("level: INFO+"));
    assert!(rendered.contains("starting local server"));
    assert!(rendered.contains("start failed"));
    assert!(rendered.contains("server"));
}

#[test]
fn popups_stand_in_the_middle_of_the_screen() {
    let app = new_app();
    let screen = Area { x: 0, y: 0, width: 100, height: 50 };
    let cleared = |picture: &[Paint]| match &picture[0] {
        Paint::Clear(area) => *area,
        _ => panic!("a popup clears its area first"),
    };
    let model = cleared(&draw_model_popup(&app, screen));
    assert_eq!(model, Area { x: 20, y: 10, width: 60, height: 30 });
    let help = cleared(&draw_help_popup(&app, screen));
    assert_eq!(help, Area { x: 15, y: 5, width: 70, height: 40 });
}

#[test]
fn everything_is_drawn_on_the_screen() {
    let hl = Highlighter::new();
    for (width, height) in [(100, 40), (40, 12), (7, 5), (1, 1), (0, 0)] {
        let screen = Area { x: 0, y: 0, width, height };
        for (page, popup) in [
            (Screen::Sessions, Popup::Closed),
            (Screen::Chat, Popup::Closed),
            (Screen::Chat, Popup::ModelSelect),
            (Screen::Chat, Popup::Help),
        ] {
            let mut app = new_app();
            app.screen = page;
            app.popup = popup;
            for step in draw(&mut app, screen, 0, 0, &hl) {
                if let Paint::Fill { area, .. } = step {
                    assert!(area.x + area.width <= width, "{area:?} in {screen:?}");
                    assert!(area.y + area.height <= height, "{area:?} in {screen:?}");
                }
            }
        }
    }
}
