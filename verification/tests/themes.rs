use qmtui::app::App;
use qmtui::popups::build_theme_list_item;
use qmtui::style::{Color, Style};
use qmtui::symbols::{COLOR_SWATCH, ELLIPSIS};
use qmtui::theme::{u32_to_color, Base16Palette};

fn palette(id: &str, shade: u32) -> Base16Palette {
    let mut colors: [u32; 16] = [0; 16];
    for (i, c) in colors.iter_mut().enumerate() {
        *c = shade + 0x01_01_01 * (i as u32);
    }
    Base16Palette { id: id.to_string(), label: id.to_string(), colors }
}

/// Eight palettes, by index.
fn themed_app() -> App {
    App::new((0..8u32).map(|i| palette(&format!("theme-{i}"), 0x10_10_10 * i)).collect())
}

fn fake_palette(colors: [u32; 16]) -> Base16Palette {
    Base16Palette { id: "test-id".into(), label: "Test Theme".into(), colors }
}

#[test]
fn begin_frame_snapshots_theme_index() {
    let mut app = themed_app();
    // Set theme to index 2
    app.theme.set_by_index(&app.themes, 2);
    app.theme.begin_frame(&app.themes);

    // palette() should use the snapshotted index
    assert_eq!(app.theme.palette(&app.themes).id, app.themes[2].id);

    // Change the selection — palette() should still return the snapshot
    app.theme.set_by_index(&app.themes, 5);
    assert_eq!(
        app.theme.palette(&app.themes).id,
        app.themes[2].id,
        "palette() should read from frame snapshot, not the selection"
    );

    // After begin_frame, it should pick up the new index
    app.theme.begin_frame(&app.themes);
    assert_eq!(app.theme.palette(&app.themes).id, app.themes[5].id);
}

#[test]
fn styles_use_frame_snapshot() {
    let mut app = themed_app();
    app.theme.set_by_index(&app.themes, 3);
    app.theme.begin_frame(&app.themes);

    let style_a = app.theme.base();

    // Change the selection but don't call begin_frame
    app.theme.set_by_index(&app.themes, 7);

    let style_b = app.theme.base();

    // Both should be identical — reading from the same snapshot
    assert_eq!(style_a.fg, style_b.fg);
    assert_eq!(style_a.bg, style_b.bg);
}

#[test]
fn init_selects_by_id_or_falls_back_to_the_first() {
    let mut app = themed_app();
    app.theme.init(&app.themes, "theme-6");
    assert_eq!(app.theme.current_index(), 6);
    assert_eq!(app.theme.current_id(&app.themes), "theme-6");
    app.theme.init(&app.themes, "no such theme");
    assert_eq!(app.theme.current_index(), 0);
    app.theme.set_by_index(&app.themes, 99);
    assert_eq!(app.theme.current_index(), 0);
}

/// The item must carry exactly 16 swatch spans after marker + label + gap.
#[test]
fn theme_list_item_has_sixteen_swatches() {
    let app = themed_app();
    let colors = [
        0xff0000, 0x00ff00, 0x0000ff, 0xffffff, 0x000000, 0x111111, 0x222222, 0x333333, 0x444444,
        0x555555, 0x666666, 0x777777, 0x888888, 0x999999, 0xaaaaaa, 0xbbbbbb,
    ];
    let t = fake_palette(colors);
    let line = build_theme_list_item(&app.theme, &t, false, 80, false);
    // 19 spans: 1 marker + 1 label + 1 gap + 16 swatches
    assert_eq!(line.spans.len(), 19);
    // Verify the swatch fg colours match the palette entries
    for (i, &c) in colors.iter().enumerate() {
        let expected_fg = u32_to_color(c);
        assert_eq!(
            line.spans[3 + i].style.fg,
            Some(expected_fg),
            "swatch {i} should have correct fg colour"
        );
    }
}

/// Each swatch span must contain exactly the `■` character.
#[test]
fn theme_list_item_swatches_use_block_char() {
    let app = themed_app();
    let t = fake_palette([0x123456; 16]);
    let color = u32_to_color(0x123456);
    assert_eq!(color, Color { r: 0x12, g: 0x34, b: 0x56 });
    let line = build_theme_list_item(&app.theme, &t, false, 80, false);
    for span in &line.spans[3..] {
        assert_eq!(span.content, COLOR_SWATCH);
        assert_eq!(span.content, "■");
    }
}

/// Marker is `"* "` for the theme in use, `"  "` otherwise.
#[test]
fn theme_list_item_marker_active_vs_inactive() {
    let app = themed_app();
    let t = fake_palette([0; 16]);
    let active = build_theme_list_item(&app.theme, &t, true, 80, false);
    let inactive = build_theme_list_item(&app.theme, &t, false, 80, false);
    assert_eq!(active.spans[0].content.len(), 2);
    assert_eq!(inactive.spans[0].content.len(), 2);
    assert_eq!(active.spans[0].content, "* ");
    assert_eq!(inactive.spans[0].content, "  ");
}

/// Label longer than `avail` must be truncated with `…`.
#[test]
fn theme_list_item_label_truncated_with_ellipsis() {
    let app = themed_app();
    // list_w = 24: marker(2) + swatches+gap(17) = 19 overhead → avail = 5
    // label "Very Long Theme Name" (20 chars) must be cut to 4 + "…" = 5 chars
    let t = Base16Palette {
        id: "t".into(),
        label: "Very Long Theme Name".into(),
        colors: [0; 16],
    };
    let list_w = 24usize;
    let avail = list_w.saturating_sub(2 + 17);
    let expected_label: String =
        "Very Long Theme Name".chars().take(avail.saturating_sub(1)).collect();
    let expected_display = format!("{expected_label}{ELLIPSIS}");
    assert_eq!(avail, 5);
    assert_eq!(expected_display, "Very\u{2026}");

    let item = build_theme_list_item(&app.theme, &t, false, list_w, false);
    assert_eq!(item.spans[1].content, expected_display);
}

/// Short label that fits must NOT get an ellipsis.
#[test]
fn theme_list_item_short_label_no_truncation() {
    let app = themed_app();
    let t = Base16Palette { id: "t".into(), label: "Hi".into(), colors: [0; 16] };
    // list_w = 80, avail = 80 - 2 - 17 = 61 — "Hi" (2 chars) fits fine
    let item = build_theme_list_item(&app.theme, &t, false, 80, false);
    assert_eq!("Hi".chars().count(), 2);
    assert_eq!(item.spans[1].content, "Hi");
}

/// u32_to_color converts RGB u32 correctly for all byte boundaries.
#[test]
fn u32_to_color_correct_rgb_extraction() {
    assert_eq!(u32_to_color(0x000000), Color { r: 0, g: 0, b: 0 });
    assert_eq!(u32_to_color(0xffffff), Color { r: 255, g: 255, b: 255 });
    assert_eq!(u32_to_color(0xff0000), Color { r: 255, g: 0, b: 0 });
    assert_eq!(u32_to_color(0x00ff00), Color { r: 0, g: 255, b: 0 });
    assert_eq!(u32_to_color(0x0000ff), Color { r: 0, g: 0, b: 255 });
    assert_eq!(u32_to_color(0xaabbcc), Color { r: 0xaa, g: 0xbb, b: 0xcc });
}

/// The dimmed background is ten steps darker in each channel, and never wraps.
#[test]
fn dimmed_background_is_darker() {
    let mut colors = [0u32; 16];
    colors[0] = 0x05_20_ff;
    let app = App::new(vec![fake_palette(colors)]);
    assert_eq!(app.theme.bg_dim(), Color { r: 0, g: 0x16, b: 0xf5 });
    assert_eq!(
        app.theme.base(),
        Style::plain().fg(app.theme.fg()).bg(Color { r: 5, g: 0x20, b: 0xff })
    );
}
