use qmtui::app::{App, FileIndexEntryLite};
use qmtui::clock::relative_time;
use qmtui::layout::{build_input_visual_layout, line_columns};
use qmtui::paths::normalize_lexical_path;
use qmtui::popups::short_cwd;
use qmtui::protocol::{
    reasoning_effort_field, ReasoningEffortField, SessionGroup, SessionSummary,
};
use qmtui::ranking::rank_entries;
use qmtui::spinner::{spinner, spinner_frames, SpinnerKind};
use qmtui::style::{Span, Style};
use qmtui::text::{is_blank, trim};
use qmtui::theme::Base16Palette;

fn new_app() -> App {
    App::new(vec![Base16Palette { id: "one".into(), label: "One".into(), colors: [0; 16] }])
}

fn file(path: &str) -> FileIndexEntryLite {
    FileIndexEntryLite { path: path.into(), is_dir: false }
}

fn session(id: &str, title: &str) -> SessionSummary {
    SessionSummary {
        session_id: id.into(),
        title: Some(title.into()),
        cwd: None,
        created_at: None,
        updated_at: None,
        parent_session_id: None,
        has_children: false,
    }
}

#[test]
fn blank_texts_trim_to_nothing() {
    for s in ["", " ", "\t\n", "\u{3000}\u{a0}"] {
        assert!(is_blank(s));
        assert_eq!(trim(s), "");
    }
    assert!(!is_blank(" a "));
    assert_eq!(trim(" a b\n"), "a b");
}

#[test]
fn ages_are_counted_in_whole_units() {
    let stamp = "1970-01-01T00:00:00Z";
    let day: i64 = 86_400;
    assert_eq!(relative_time(stamp, 0), "just now");
    assert_eq!(relative_time(stamp, 59), "just now");
    assert_eq!(relative_time(stamp, 60), "1m ago");
    assert_eq!(relative_time(stamp, 3_599), "59m ago");
    assert_eq!(relative_time(stamp, 3_600), "1h ago");
    assert_eq!(relative_time(stamp, day), "1d ago");
    assert_eq!(relative_time(stamp, 7 * day), "1w ago");
    assert_eq!(relative_time(stamp, 35 * day), "1mo ago");
    assert_eq!(relative_time(stamp, 365 * day), "1y ago");
    assert_eq!(relative_time("1970-01-02T00:00:00.000Z", 0), "just now");
}

#[test]
fn ages_know_leap_years() {
    assert_eq!(relative_time("2024-03-01T00:00:00Z", 1_709_251_200 + 60), "1m ago");
    assert_eq!(relative_time("2024-02-29T00:00:00Z", 1_709_251_200), "1d ago");
    assert_eq!(relative_time("2023-03-01T00:00:00Z", 1_677_628_800 + 60), "1m ago");
}

#[test]
fn stamps_that_cannot_be_read_are_given_back() {
    assert_eq!(relative_time("yesterday", 0), "yesterday");
    assert_eq!(relative_time("2024-xx-01T00:00:00Z", 0), "2024-xx-01T00:00:00Z");
}

#[test]
fn paths_are_cut_to_their_last_parts() {
    assert_eq!(short_cwd("/home/me", 8), "/home/me");
    assert_eq!(short_cwd("/home/me/projects/alpha", 16), "…/projects/alpha");
    assert_eq!(short_cwd("/home/me/projects/alpha", 12), "…/alpha");
    assert_eq!(short_cwd("abcdefgh", 4), "abc…");
    assert_eq!(short_cwd("abcdefgh", 1), "…");
    assert_eq!(short_cwd("abcdefgh", 0), "");
    assert_eq!(short_cwd("", 0), "");
}

#[test]
fn dots_are_walked_out_of_paths() {
    assert_eq!(normalize_lexical_path("/a/./b//../c"), "/a/c");
    assert_eq!(normalize_lexical_path(&normalize_lexical_path("/a/./b//../c")), "/a/c");
    assert_eq!(normalize_lexical_path("/a/b/.."), "/a");
}

#[test]
fn spinner_shows_each_frame_for_two_ticks() {
    assert_eq!(spinner(SpinnerKind::Line, 0), "-");
    assert_eq!(spinner(SpinnerKind::Line, 1), "-");
    assert_eq!(spinner(SpinnerKind::Line, 2), "\\");
    for kind in [SpinnerKind::Braille, SpinnerKind::Line, SpinnerKind::Dots] {
        let turn = 2 * spinner_frames(kind).len() as u64;
        assert_eq!(spinner(kind, turn), spinner(kind, 0));
    }
}

#[test]
fn wide_characters_take_two_columns() {
    let span = |s: &str| Span::new(s.to_string(), Style::plain());
    assert_eq!(line_columns(&vec![span("日本"), span("ab")]), 6);
}

#[test]
fn rows_of_the_input_break_before_a_character_that_does_not_fit() {
    let layout = build_input_visual_layout("日本語ab", 0, 4, 0);
    let rows: Vec<(&str, usize, usize)> =
        layout.rows.iter().map(|r| (r.text.as_str(), r.start, r.end)).collect();
    assert_eq!(rows, vec![("日本", 0, 6), ("語ab", 6, 11)]);
}

#[test]
fn rows_of_the_input_show_all_of_it() {
    let input = "one two\n\nthree";
    let layout = build_input_visual_layout(input, 0, 5, 2);
    for row in &layout.rows {
        assert_eq!(row.text, input[row.start..row.end]);
    }
    assert_eq!(layout.rows[0].start, 0);
    assert_eq!(layout.rows[layout.rows.len() - 1].end, input.len());
}

#[test]
fn rows_of_the_input_fit_and_show_the_cursor() {
    let input = "hello 日本語\nwide world";
    for width in 2..9 {
        for (cursor, _) in input.char_indices() {
            let l = build_input_visual_layout(input, cursor, width, 2);
            for (i, row) in l.rows.iter().enumerate() {
                let before = if i == 0 { 2 } else { 0 };
                if row.text.chars().count() > 1 {
                    assert!(before + row.columns[row.columns.len() - 1].0 <= width);
                }
            }
            let row = &l.rows[l.cursor_row];
            assert!(row.start <= cursor && cursor <= row.end);
            assert!(row.columns.contains(&(l.cursor_text_col, cursor)));
        }
    }
}

#[test]
fn moving_between_rows_keeps_to_characters() {
    let mut app = new_app();
    app.input = "日本語日本語".into();
    app.input_cursor = 3;
    app.input_line_width = 4;
    app.input_down_visual(0);
    assert!(app.input.is_char_boundary(app.input_cursor));
    app.input_up_visual(0);
    assert_eq!(app.input_cursor, 3);
}

#[test]
fn typing_and_erasing_leads_back() {
    let mut app = new_app();
    app.input = "añb".into();
    app.input_cursor = 1;
    app.input_insert('é');
    assert_eq!((app.input.as_str(), app.input_cursor), ("aéñb", 3));
    app.input_backspace();
    assert_eq!((app.input.as_str(), app.input_cursor), ("añb", 1));
    app.input_right();
    assert_eq!(app.input_cursor, 3);
    app.input_left();
    assert_eq!(app.input_cursor, 1);
}

#[test]
fn every_mentioned_path_is_linked_once() {
    let app = new_app();
    let (_, links) = app.build_prompt_text_and_links("see @src/a.rs, or @src/a.rs and @b.md @you");
    assert!(links.contains(&"b.md".to_string()));
    assert!(!links.contains(&"you".to_string()));
    for (i, link) in links.iter().enumerate() {
        assert!(!links[i + 1..].contains(link));
    }
}

#[test]
fn files_are_found_by_their_letters() {
    let mut app = new_app();
    app.file_index = vec![file("src/main.rs"), file("src/lib.rs"), file("README.md")];
    let paths: Vec<String> =
        app.rank_file_matches("slib").into_iter().map(|e| e.path).collect();
    assert_eq!(paths, vec!["src/lib.rs"]);
}

#[test]
fn better_scores_come_first_and_equal_ones_by_length() {
    let entries = vec![file("x/long/name"), file("x/b"), file("x/a"), file("none")];
    let scores = vec![Some(5), Some(5), Some(9), None];
    let paths: Vec<String> = rank_entries(&entries, &scores, "q", 10)
        .into_iter()
        .map(|e| e.path)
        .collect();
    assert_eq!(paths, vec!["x/a", "x/b", "x/long/name"]);
    assert_eq!(rank_entries(&entries, &scores, "q", 1).len(), 1);
}

#[test]
fn filters_ignore_case_beyond_ascii() {
    let mut app = new_app();
    app.session_groups = vec![SessionGroup {
        cwd: None,
        latest_activity: None,
        sessions: vec![session("s1", "ÄRGER mit Tests"), session("s2", "Ruhe")],
    }];
    app.session_filter = "ärger".into();
    let found: Vec<&str> =
        app.filtered_sessions().iter().map(|s| s.session_id.as_str()).collect();
    assert_eq!(found, vec!["s1"]);
    app.session_filter = "RUHE".into();
    assert_eq!(app.filtered_sessions().len(), 1);
}

#[test]
fn paths_are_completed_from_the_directory_they_lead_to() {
    let mut app = new_app();
    app.launch_cwd = Some("/work".into());
    assert_eq!(app.completion_root(""), "/work");
    assert_eq!(app.completion_root("/"), "/");
    assert_eq!(app.completion_root("/srv/pro"), "/srv");
    assert_eq!(app.completion_root("src/li"), "/work/src");

    let dir = |path: &str| FileIndexEntryLite { path: path.into(), is_dir: true };
    app.new_session_path = "/srv/pro".into();
    app.refresh_new_session_completion(&vec![
        dir("/srv/other"),
        file("/srv/profile"),
        dir("/srv/projects"),
        dir("/srv/pro"),
    ]);
    let found: Vec<String> = app
        .new_session_completion
        .unwrap()
        .results
        .into_iter()
        .map(|e| e.path)
        .collect();
    assert_eq!(found, vec!["/srv/pro", "/srv/projects"]);
}

#[test]
fn the_automatic_effort_has_two_spellings() {
    assert!(matches!(reasoning_effort_field(None), ReasoningEffortField::Auto));
    assert!(matches!(reasoning_effort_field(Some("auto".into())), ReasoningEffortField::Auto));
    assert!(matches!(
        reasoning_effort_field(Some("high".into())),
        ReasoningEffortField::Level(s) if s == "high"
    ));
}
