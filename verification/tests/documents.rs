use qmtui::app::{App, ChatEntry};
use qmtui::canvas::{Area, Paint};
use qmtui::deck::build_message_cards;
use qmtui::diff::{build_diff_lines, inline_diff, inline_spans, ChangeTag};
use qmtui::highlight::{lay_out_code, Highlighter};
use qmtui::markdown::{parse, render, MdEnd, MdEvent, MdTag};
use qmtui::messages::draw_messages;
use qmtui::style::{Color, Line, Span, Style};
use qmtui::symbols::MD_BULLET;
use qmtui::theme::{Base16Palette, Theme};

fn new_app() -> App {
    let mut colors: [u32; 16] = [0; 16];
    for (i, c) in colors.iter_mut().enumerate() {
        *c = 0x10_20_30 + 0x01_01_01 * (i as u32);
    }
    App::new(vec![Base16Palette { id: "one".into(), label: "One".into(), colors }])
}

fn theme() -> Theme {
    let mut app = new_app();
    app.theme.begin_frame(&app.themes);
    app.theme
}

fn words(line: &Line) -> String {
    line.spans.iter().map(|s| s.content.as_str()).collect()
}

fn texts(lines: &[Line]) -> Vec<String> {
    lines.iter().map(words).collect()
}

fn said(spans: &[Span]) -> Vec<&str> {
    spans.iter().map(|s| s.content.as_str()).collect()
}

// ── differences ───────────────────────────────────────────────────────────

#[test]
fn lines_are_compared_character_by_character() {
    let t = theme();
    let (old, new) = inline_diff(&t, "let a = 1;", "let b = 1;");
    assert_eq!(said(&old), vec!["let ", "a", " = 1;"]);
    assert_eq!(said(&new), vec!["let ", "b", " = 1;"]);
    assert_eq!(old[0].style, t.diff_removed());
    assert_eq!(old[1].style, t.diff_removed_hl());
    assert_eq!(new[1].style, t.diff_added_hl());
    assert_eq!(new[2].style, t.diff_added());
}

#[test]
fn highlighting_keeps_both_lines() {
    let t = theme();
    for (a, b) in [("", "x"), ("same", "same"), ("größe = 1", "größer = 12"), ("abc", "")] {
        let (old, new) = inline_diff(&t, a, b);
        assert_eq!(said(&old).concat(), a);
        assert_eq!(said(&new).concat(), b);
    }
}

#[test]
fn neighbouring_changes_are_joined() {
    let t = theme();
    let change = |tag: ChangeTag, s: &str| (tag, s.to_string());
    let (old, new) = inline_spans(
        &t,
        &vec![
            change(ChangeTag::Equal, "a"),
            change(ChangeTag::Equal, "b"),
            change(ChangeTag::Delete, "c"),
            change(ChangeTag::Delete, "d"),
            change(ChangeTag::Insert, "e"),
        ],
    );
    assert_eq!(said(&old), vec!["ab", "cd"]);
    assert_eq!(said(&new), vec!["ab", "e"]);
}

#[test]
fn changed_lines_are_marked_and_numbered() {
    let shown = texts(&build_diff_lines(&theme(), "a\nb\nc\n", "a\nx\nc\n", Some(7)));
    assert!(shown.iter().any(|l| l.contains("- b")), "{shown:?}");
    assert!(shown.iter().any(|l| l.contains("+ x")), "{shown:?}");
    assert!(shown.iter().any(|l| l.contains('8')), "{shown:?}");
}

// ── code ──────────────────────────────────────────────────────────────────

#[test]
fn keywords_are_coloured() {
    let hl = Highlighter::new();
    let t = theme();
    let lines = hl.highlight_block(&t, "fn main() {}", &Some("rust".to_string()));
    assert_eq!(texts(&lines), vec![" 1 fn main() {}"]);
    let keyword = lines[0].spans.iter().find(|s| s.content == "fn").unwrap();
    assert_eq!(keyword.style.fg, Some(Color { r: 0xcc, g: 0x99, b: 0xcc }));
}

#[test]
fn code_in_an_unknown_language_has_one_colour() {
    let hl = Highlighter::new();
    let t = theme();
    let lines = hl.highlight_block(&t, "fn main() {}", &Some("no such language".to_string()));
    assert_eq!(texts(&lines), vec![" 1 fn main() {}"]);
    assert_eq!(lines[0].spans.len(), 3);
    assert_eq!(lines, hl.highlight_block(&t, "fn main() {}", &None));
}

#[test]
fn lines_of_code_are_numbered_to_the_right() {
    let code: Vec<String> = (0..10).map(|i| format!("line {i}\n")).collect();
    let found = (0..10).map(|_| None).collect();
    let shown = texts(&lay_out_code(&theme(), &code, &found));
    assert_eq!(shown[0], "  1 line 0");
    assert_eq!(shown[9], " 10 line 9");
}

// ── markdown ──────────────────────────────────────────────────────────────

#[test]
fn markdown_is_parsed_into_events() {
    let events = parse("# Hi ~~x~~\n");
    assert!(matches!(&events[0], MdEvent::Start(MdTag::Heading(1))));
    assert!(matches!(&events[1], MdEvent::Text(s) if s == "Hi "));
    assert!(matches!(&events[2], MdEvent::Start(MdTag::Strikethrough)));
    assert!(matches!(&events[events.len() - 1], MdEvent::End(MdEnd::Heading)));
}

#[test]
fn markdown_styles_words() {
    let t = theme();
    let hl = Highlighter::new();
    let lines = render(&t, "plain **bold** `code`", Style::plain(), &hl);
    assert_eq!(lines.len(), 1);
    let style_of = |s: &str| lines[0].spans.iter().find(|p| p.content.contains(s)).unwrap().style;
    assert_eq!(style_of("plain"), Style::plain());
    assert!(style_of("bold").bold);
    assert_eq!(style_of("code"), t.md_code_inline());
}

#[test]
fn markdown_does_not_end_in_an_empty_line() {
    let t = theme();
    let hl = Highlighter::new();
    for md in ["# Title\n\ntext\n\n\n", "- a\n- b\n", "```rust\nfn a() {}\n```\n", "> q\n\n"] {
        let lines = render(&t, md, Style::plain(), &hl);
        assert!(!words(&lines[lines.len() - 1]).is_empty(), "{md:?}");
    }
    assert!(render(&t, "", Style::plain(), &hl).is_empty());
}

#[test]
fn lists_have_bullets_and_numbers() {
    let t = theme();
    let hl = Highlighter::new();
    let shown = texts(&render(&t, "- a\n- b\n", Style::plain(), &hl));
    assert_eq!(shown.iter().filter(|l| l.contains(MD_BULLET)).count(), 2);
    let shown = texts(&render(&t, "3. c\n4. d\n", Style::plain(), &hl));
    assert!(shown.iter().any(|l| l.contains("3.")) && shown.iter().any(|l| l.contains("4.")));
}

// ── cards in the conversation ─────────────────────────────────────────────

fn say(app: &mut App, text: &str) {
    app.messages.push(ChatEntry::User { text: text.into(), message_id: None });
}

fn tops(picture: &[Paint]) -> Vec<(u16, String)> {
    let mut out = Vec::new();
    for step in picture {
        if let Paint::Text { area, lines, scroll, .. } = step {
            for (i, line) in lines.iter().enumerate() {
                let row = area.y as i32 + i as i32 - *scroll as i32;
                if row >= area.y as i32 && row < area.y as i32 + area.height as i32 {
                    out.push((row as u16, words(line)));
                }
            }
        }
    }
    out
}

#[test]
fn cards_made_bit_by_bit_are_those_made_at_once() {
    let hl = Highlighter::new();
    let mut slow = new_app();
    for i in 0..4 {
        say(&mut slow, &format!("message {i}"));
        build_message_cards(&mut slow, &hl);
    }
    let mut fast = new_app();
    for i in 0..4 {
        say(&mut fast, &format!("message {i}"));
    }
    build_message_cards(&mut fast, &hl);
    assert_eq!(slow.card_cache.cards.len(), fast.card_cache.cards.len());
    for (a, b) in slow.card_cache.cards.iter().zip(&fast.card_cache.cards) {
        assert_eq!(texts(&a.lines), texts(&b.lines));
    }
}

#[test]
fn a_view_that_was_scrolled_up_stays_when_the_conversation_grows() {
    let hl = Highlighter::new();
    let area = Area { x: 0, y: 0, width: 40, height: 10 };
    let mut app = new_app();
    for i in 0..20 {
        say(&mut app, &format!("message {i}"));
    }
    draw_messages(&mut app, area, &hl);
    app.scroll_offset = 6;
    let before = tops(&draw_messages(&mut app, area, &hl));
    assert_eq!(app.scroll_offset, 6);
    let height = app.prev_total_height;

    say(&mut app, "one more");
    let after = tops(&draw_messages(&mut app, area, &hl));
    assert_eq!(after, before);
    assert_eq!(app.scroll_offset, 6 + app.prev_total_height - height);
}

#[test]
fn a_view_at_the_bottom_follows_the_conversation() {
    let hl = Highlighter::new();
    let area = Area { x: 0, y: 0, width: 40, height: 10 };
    let mut app = new_app();
    for i in 0..20 {
        say(&mut app, &format!("message {i}"));
    }
    draw_messages(&mut app, area, &hl);
    say(&mut app, "one more");
    let shown = tops(&draw_messages(&mut app, area, &hl));
    assert_eq!(app.scroll_offset, 0);
    assert!(shown.iter().any(|(_, s)| s.contains("one more")), "{shown:?}");
}

#[test]
fn scrolling_ends_at_the_top() {
    let hl = Highlighter::new();
    let area = Area { x: 0, y: 0, width: 40, height: 10 };
    let mut app = new_app();
    for i in 0..20 {
        say(&mut app, &format!("message {i}"));
    }
    draw_messages(&mut app, area, &hl);
    app.scroll_offset = 10_000;
    let shown = tops(&draw_messages(&mut app, area, &hl));
    assert_eq!(app.scroll_offset, app.prev_total_height - area.height);
    assert!(shown.iter().any(|(_, s)| s.contains("message 0")), "{shown:?}");
}
