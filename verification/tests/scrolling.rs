use qmtui::app::App;
use qmtui::protocol::EventKind;
use qmtui::theme::Base16Palette;

fn palette(id: &str, shade: u32) -> Base16Palette {
    let mut colors: [u32; 16] = [0; 16];
    for (i, c) in colors.iter_mut().enumerate() {
        *c = shade + 0x01_01_01 * (i as u32);
    }
    Base16Palette { id: id.to_string(), label: id.to_string(), colors }
}

fn new_app() -> App {
    App::new(vec![
        palette("base16-querymate", 0x10_20_30),
        palette("base16-ocean", 0x20_10_40),
        palette("base16-eighties", 0x40_50_10),
    ])
}

#[test]
fn content_delta_preserves_scroll_when_scrolled_up() {
    let mut app = new_app();
    app.handle_event_kind(&EventKind::TurnStarted, false);
    app.scroll_offset = 20;

    app.handle_event_kind(
        &EventKind::AssistantContentDelta {
            content: "hello".into(),
            message_id: None,
        },
        false,
    );

    assert_eq!(
        app.scroll_offset, 20,
        "scroll_offset should be preserved when user is scrolled up"
    );
}

#[test]
fn scroll_compensation_bumps_offset_by_growth() {
    let mut app = new_app();
    app.scroll_offset = 30;
    app.prev_total_height = 100;

    // Content grew by 5 rows
    app.compensate_scroll_for_growth(105);

    assert_eq!(
        app.scroll_offset, 35,
        "scroll_offset should increase by growth to keep viewport stable"
    );
    assert_eq!(app.prev_total_height, 105);
}

#[test]
fn scroll_compensation_noop_when_at_bottom() {
    let mut app = new_app();
    app.scroll_offset = 0; // following
    app.prev_total_height = 100;

    app.compensate_scroll_for_growth(110);

    assert_eq!(
        app.scroll_offset, 0,
        "scroll_offset should stay 0 when auto-following"
    );
    assert_eq!(app.prev_total_height, 110);
}

#[test]
fn scroll_compensation_noop_when_no_growth() {
    let mut app = new_app();
    app.scroll_offset = 20;
    app.prev_total_height = 100;

    app.compensate_scroll_for_growth(100);

    assert_eq!(app.scroll_offset, 20);
    assert_eq!(app.prev_total_height, 100);
}

#[test]
fn content_delta_stays_at_bottom_when_following() {
    let mut app = new_app();
    app.handle_event_kind(&EventKind::TurnStarted, false);
    app.scroll_offset = 0; // at bottom

    app.handle_event_kind(
        &EventKind::AssistantContentDelta {
            content: "hello".into(),
            message_id: None,
        },
        false,
    );

    assert_eq!(
        app.scroll_offset, 0,
        "scroll_offset should remain 0 when user is at the bottom"
    );
}
