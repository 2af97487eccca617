use qmtui::app::{App, ChatEntry, ToolDetail};
use qmtui::cards::{Card, CardKind};
use qmtui::deck::build_message_cards;
use qmtui::diff::{build_diff_lines, build_write_lines};
use qmtui::highlight::Highlighter;
use qmtui::style::Line;
use qmtui::symbols::MD_BULLET;
use qmtui::theme::Base16Palette;

fn palette(id: &str, shade: u32) -> Base16Palette {
    let mut colors: [u32; 16] = [0; 16];
    for (i, c) in colors.iter_mut().enumerate() {
        *c = shade + 0x01_01_01 * (i as u32);
    }
    Base16Palette { id: id.to_string(), label: id.to_string(), colors }
}

fn new_app() -> App {
    App::new(vec![
        palette("base16-querymate", 0x10_20_30),
        palette("base16-ocean", 0x20_10_40),
        palette("base16-eighties", 0x40_50_10),
    ])
}

fn tool_call(name: &str) -> ChatEntry {
    ChatEntry::ToolCall {
        tool_call_id: None,
        name: name.into(),
        is_error: false,
        detail: ToolDetail::Bare,
    }
}

fn cards_of(app: &mut App) -> &Vec<Card> {
    build_message_cards(app, &Highlighter::new());
    &app.card_cache.cards
}

#[test]
fn message_cards_empty() {
    let mut app = new_app();
    let cards = cards_of(&mut app);
    assert!(cards.is_empty());
    assert_eq!(app.card_cache.processed_messages, 0);
}

#[test]
fn message_cards_single_user() {
    let mut app = new_app();
    app.messages.push(ChatEntry::User {
        text: "hello".into(),
        message_id: None,
    });
    let cards = cards_of(&mut app);
    assert_eq!(cards.len(), 1);
    assert_eq!(cards[0].kind, CardKind::User);
    assert_eq!(app.card_cache.processed_messages, 1);
}

#[test]
fn message_cards_user_supports_markdown_rendering() {
    let mut app = new_app();
    app.messages.push(ChatEntry::User {
        text: "- item\n\n`code`".into(),
        message_id: None,
    });

    let cards = cards_of(&mut app);
    assert_eq!(cards.len(), 1);
    assert_eq!(cards[0].kind, CardKind::User);

    let rendered: Vec<String> = cards[0]
        .lines
        .iter()
        .map(|line| {
            line.spans
                .iter()
                .map(|span| span.content.as_str())
                .collect::<String>()
        })
        .collect();

    assert!(rendered.iter().any(|line| line.contains(MD_BULLET)));
    assert!(rendered.iter().any(|line| line.contains("code")));
}

#[test]
fn message_cards_incremental_append() {
    let mut app = new_app();
    app.messages.push(ChatEntry::User {
        text: "hello".into(),
        message_id: None,
    });
    {
        let cards = cards_of(&mut app);
        assert_eq!(cards.len(), 1);
    }

    app.messages.push(ChatEntry::Assistant {
        content: "world".into(),
        thinking: None,
    });
    {
        let cards = cards_of(&mut app);
        assert_eq!(cards.len(), 2);
        assert_eq!(cards[0].kind, CardKind::User);
        assert_eq!(cards[1].kind, CardKind::Assistant);
    }
}

#[test]
fn message_cards_cache_hit_no_change() {
    let mut app = new_app();
    app.messages.push(ChatEntry::User {
        text: "hello".into(),
        message_id: None,
    });
    build_message_cards(&mut app, &Highlighter::new());
    assert_eq!(app.card_cache.processed_messages, 1);

    // Second call with no new messages — cache hit
    let cards = cards_of(&mut app);
    assert_eq!(cards.len(), 1);
    assert_eq!(app.card_cache.processed_messages, 1);
}

#[test]
fn message_cards_tool_batch() {
    let mut app = new_app();
    app.messages.push(tool_call("read"));
    app.messages.push(tool_call("write"));

    let cards = cards_of(&mut app);
    // Two consecutive tools → one tool card
    assert_eq!(cards.len(), 1);
    assert!(matches!(cards[0].kind, CardKind::Tool { .. }));
    assert_eq!(cards[0].lines.len(), 2);
}

#[test]
fn message_cards_tool_batch_grows_incrementally() {
    let mut app = new_app();
    app.messages.push(tool_call("read"));
    {
        let cards = cards_of(&mut app);
        assert_eq!(cards.len(), 1);
        assert_eq!(cards[0].lines.len(), 1);
    }

    // Add another tool — should merge into same batch
    app.messages.push(tool_call("write"));
    {
        let cards = cards_of(&mut app);
        assert_eq!(cards.len(), 1); // still 1 card
        assert_eq!(cards[0].lines.len(), 2); // but now 2 lines
    }
}

#[test]
fn message_cards_tool_then_user_finalizes_batch() {
    let mut app = new_app();
    app.messages.push(tool_call("read"));
    build_message_cards(&mut app, &Highlighter::new());

    app.messages.push(ChatEntry::User {
        text: "next".into(),
        message_id: None,
    });
    let cards = cards_of(&mut app);
    assert_eq!(cards.len(), 2);
    assert!(matches!(cards[0].kind, CardKind::Tool { .. }));
    assert_eq!(cards[1].kind, CardKind::User);
}

#[test]
fn message_cards_invalidated_on_clear() {
    let mut app = new_app();
    app.messages.push(ChatEntry::User {
        text: "hello".into(),
        message_id: None,
    });
    build_message_cards(&mut app, &Highlighter::new());
    assert_eq!(app.card_cache.processed_messages, 1);

    app.messages.clear();
    app.card_cache.invalidate();
    let cards = cards_of(&mut app);
    assert!(cards.is_empty());
    assert_eq!(app.card_cache.processed_messages, 0);
}

#[test]
fn message_cards_auto_invalidates_on_shrink() {
    let mut app = new_app();
    app.messages.push(ChatEntry::User {
        text: "hello".into(),
        message_id: None,
    });
    app.messages.push(ChatEntry::Assistant {
        content: "world".into(),
        thinking: None,
    });
    build_message_cards(&mut app, &Highlighter::new());
    assert_eq!(app.card_cache.processed_messages, 2);

    // Simulate retain() shrinking messages (like compaction does)
    app.messages.retain(|e| matches!(e, ChatEntry::User { .. }));
    let cards = cards_of(&mut app);
    assert_eq!(cards.len(), 1);
    assert_eq!(cards[0].kind, CardKind::User);
}

#[test]
fn message_cards_incremental_matches_full_rebuild() {
    let mut app = new_app();

    // Build incrementally
    app.messages.push(ChatEntry::User {
        text: "q1".into(),
        message_id: None,
    });
    build_message_cards(&mut app, &Highlighter::new());

    app.messages.push(ChatEntry::Assistant {
        content: "a1".into(),
        thinking: None,
    });
    build_message_cards(&mut app, &Highlighter::new());

    app.messages.push(tool_call("edit"));
    build_message_cards(&mut app, &Highlighter::new());

    app.messages.push(ChatEntry::User {
        text: "q2".into(),
        message_id: None,
    });
    let incremental_kinds: Vec<_> = {
        let cards = cards_of(&mut app);
        cards.iter().map(|c| c.kind).collect()
    };

    // Full rebuild from scratch
    app.card_cache.invalidate();
    let full_kinds: Vec<_> = {
        let cards = cards_of(&mut app);
        cards.iter().map(|c| c.kind).collect()
    };

    assert_eq!(incremental_kinds, full_kinds);
}

#[test]
fn message_cards_compact_tool_after_assistant() {
    let mut app = new_app();
    app.messages.push(ChatEntry::Assistant {
        content: "thinking...".into(),
        thinking: None,
    });
    app.messages.push(tool_call("read"));

    let cards = cards_of(&mut app);
    assert_eq!(cards.len(), 2);
    assert_eq!(cards[0].kind, CardKind::Assistant);
    // Tool after assistant should be compact (no top padding)
    assert_eq!(cards[1].kind, CardKind::Tool { compact: true });
}

#[test]
fn message_cards_non_compact_tool_after_user() {
    let mut app = new_app();
    app.messages.push(ChatEntry::User {
        text: "do it".into(),
        message_id: None,
    });
    app.messages.push(tool_call("read"));

    let cards = cards_of(&mut app);
    assert_eq!(cards.len(), 2);
    assert_eq!(cards[0].kind, CardKind::User);
    // Tool after user should NOT be compact
    assert_eq!(cards[1].kind, CardKind::Tool { compact: false });
}

#[test]
fn tool_detail_edit_carries_precomputed_diff_lines() {
    let detail = ToolDetail::Edit {
        file: "src/main.rs".into(),
        before: "hello".into(),
        after: "world".into(),
        start_line: None,
        cached_lines: build_diff_lines(&new_app().theme, "hello", "world", None),
    };
    match &detail {
        ToolDetail::Edit { cached_lines, .. } => {
            assert!(
                !cached_lines.is_empty(),
                "diff lines should be pre-computed"
            );
        }
        _ => panic!("expected Edit"),
    }
}

#[test]
fn tool_detail_write_carries_precomputed_lines() {
    let detail = ToolDetail::WriteFile {
        path: "out.txt".into(),
        content: "line1\nline2\n".into(),
        cached_lines: build_write_lines(&new_app().theme, "line1\nline2\n"),
    };
    match &detail {
        ToolDetail::WriteFile { cached_lines, .. } => {
            assert_eq!(cached_lines.len(), 2);
        }
        _ => panic!("expected WriteFile"),
    }
}

#[test]
fn message_cards_edit_tool_includes_diff_lines() {
    let mut app = new_app();
    let old = "aaa\nbbb\n";
    let new = "aaa\nccc\n";
    app.messages.push(ChatEntry::ToolCall {
        tool_call_id: None,
        name: "edit".into(),
        is_error: false,
        detail: ToolDetail::Edit {
            file: "f.rs".into(),
            before: old.into(),
            after: new.into(),
            start_line: Some(1),
            cached_lines: build_diff_lines(&app.theme, old, new, Some(1)),
        },
    });

    let cards = cards_of(&mut app);
    assert_eq!(cards.len(), 1);
    // header line + diff lines (at least equal + changed = 2 original lines)
    assert!(
        cards[0].lines.len() > 1,
        "tool card should include header + diff lines, got {} lines",
        cards[0].lines.len()
    );
}

#[test]
fn message_cards_write_tool_includes_content_lines() {
    let mut app = new_app();
    let content = "fn main() {}\n";
    app.messages.push(ChatEntry::ToolCall {
        tool_call_id: None,
        name: "write_file".into(),
        is_error: false,
        detail: ToolDetail::WriteFile {
            path: "out.rs".into(),
            content: content.into(),
            cached_lines: build_write_lines(&app.theme, content),
        },
    });

    let cards = cards_of(&mut app);
    assert_eq!(cards.len(), 1);
    // header line + 1 content line
    assert_eq!(cards[0].lines.len(), 2);
}

#[test]
fn card_height_short_line_fits_in_one_row() {
    let card = Card::new(CardKind::User, vec![Line::raw("hello")]);
    // top_pad=1, 1 line fits, bottom_pad=1 → 3
    assert_eq!(card.height(80), 3);
}

#[test]
fn card_height_line_exactly_fills_width_no_wrap() {
    // inner_w = 10 - 4 = 6; line is exactly 6 chars
    let card = Card::new(CardKind::User, vec![Line::raw("abcdef")]);
    assert_eq!(card.height(10), 3); // top=1, rows=1, bottom=1
}

#[test]
fn card_height_line_one_over_wraps_to_two_rows() {
    // inner_w = 10 - 4 = 6; line is 7 chars → wraps to 2 rows
    let card = Card::new(CardKind::User, vec![Line::raw("abcdefg")]);
    // top=1, rows=2, bottom=1 → 4
    assert_eq!(card.height(10), 4);
}

#[test]
fn card_height_long_line_wraps_proportionally() {
    // inner_w = 20 - 4 = 16; line is 32 chars → 2 rows
    let card = Card::new(CardKind::User, vec![Line::raw(&"a".repeat(32))]);
    assert_eq!(card.height(20), 4); // top=1, rows=2, bottom=1
}

#[test]
fn card_height_multiple_short_lines() {
    let card = Card::new(
        CardKind::Assistant,
        vec![
            Line::raw("line one"),
            Line::raw("line two"),
            Line::raw("line three"),
        ],
    );
    // All fit in 80 cols → 3 rows; top=1, bottom=1 → 5
    assert_eq!(card.height(80), 5);
}

#[test]
fn card_height_compact_tool_no_padding() {
    let card = Card::new(CardKind::Tool { compact: true }, vec![Line::raw("short")]);
    // top=0, rows=1, bottom=0 → 1
    assert_eq!(card.height(80), 1);
}

#[test]
fn card_height_non_compact_tool_top_pad_only() {
    let card = Card::new(CardKind::Tool { compact: false }, vec![Line::raw("short")]);
    // top=1, rows=1, bottom=0 → 2
    assert_eq!(card.height(80), 2);
}

#[test]
fn card_height_very_narrow_wraps_many_rows() {
    // inner_w = 6 - 4 = 2; line is 10 chars → ceil(10/2)=5 rows
    let card = Card::new(CardKind::User, vec![Line::raw("0123456789")]);
    // top=1, rows=5, bottom=1 → 7
    assert_eq!(card.height(6), 7);
}

#[test]
fn card_height_zero_inner_width_counts_as_one_row() {
    let card = Card::new(CardKind::User, vec![Line::raw("some text")]);
    // inner_w = 4 - 4 = 0 → treat as 1 row
    assert_eq!(card.height(4), 3); // top=1, rows=1, bottom=1
}

#[test]
fn message_card_with_thinking_includes_bullet_header() {
    let mut app = new_app();
    app.messages.push(ChatEntry::Assistant {
        content: "answer".into(),
        thinking: Some("reasoning".into()),
    });
    let cards = cards_of(&mut app);
    assert_eq!(cards.len(), 1);
    // First line should be the ● bullet
    let first_line = &cards[0].lines[0];
    let text: String = first_line
        .spans
        .iter()
        .map(|s| s.content.as_str())
        .collect();
    assert!(text.contains('\u{25CF}'), "expected ● bullet, got: {text}");
}

#[test]
fn message_card_without_thinking_has_no_bullet() {
    let mut app = new_app();
    app.messages.push(ChatEntry::Assistant {
        content: "answer".into(),
        thinking: None,
    });
    let cards = cards_of(&mut app);
    assert_eq!(cards.len(), 1);
    let first_line = &cards[0].lines[0];
    let text: String = first_line
        .spans
        .iter()
        .map(|s| s.content.as_str())
        .collect();
    assert!(
        !text.contains('\u{25CF}'),
        "should not contain ● when no thinking"
    );
}

#[test]
fn message_card_thinking_hidden_when_show_thinking_false() {
    let mut app = new_app();
    app.show_thinking = false;
    app.messages.push(ChatEntry::Assistant {
        content: "answer".into(),
        thinking: Some("reasoning".into()),
    });
    let cards = cards_of(&mut app);
    assert_eq!(cards.len(), 1);
    // No line should contain the ● bullet
    for line in &cards[0].lines {
        let text: String = line.spans.iter().map(|s| s.content.as_str()).collect();
        assert!(
            !text.contains('\u{25CF}'),
            "thinking should be hidden, got: {text}"
        );
    }
}
