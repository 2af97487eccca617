use qmtui::shortcuts::shortcut_sections;

#[test]
fn shortcut_sections_all_sections_nonempty() {
    for section in shortcut_sections() {
        assert!(
            !section.rows.is_empty(),
            "section '{}' has no rows",
            section.title
        );
    }
}

#[test]
fn shortcut_sections_chat_contains_ctrl_t_thinking_cycle() {
    let chat = shortcut_sections()
        .into_iter()
        .find(|s| s.title == "chat")
        .expect("chat section missing");
    assert!(
        chat.rows.iter().any(|&(k, _)| k == "Ctrl+t"),
        "chat section must have a 'Ctrl+t' row for cycling thinking level"
    );
}

#[test]
fn shortcut_sections_chord_contains_help_entry() {
    let chord = shortcut_sections()
        .into_iter()
        .find(|s| s.title.contains("chord"))
        .expect("chord section missing");
    assert!(
        chord.rows.iter().any(|&(k, _)| k == "?"),
        "chord section must have a '?' row"
    );
}

#[test]
fn shortcut_sections_chord_contains_external_editor_entry() {
    let chord = shortcut_sections()
        .into_iter()
        .find(|s| s.title.contains("chord"))
        .expect("chord section missing");
    assert!(
        chord
            .rows
            .iter()
            .any(|&(key, desc)| key == "e" && desc == "external editor")
    );
}

#[test]
fn shortcut_sections_chord_contains_logs_entry() {
    let chord = shortcut_sections()
        .into_iter()
        .find(|s| s.title.contains("chord"))
        .expect("chord section missing");
    assert!(
        chord
            .rows
            .iter()
            .any(|&(key, desc)| key == "l" && desc == "logs popup")
    );
}

#[test]
fn shortcut_sections_titles_are_unique() {
    let titles: Vec<_> = shortcut_sections().iter().map(|s| s.title).collect();
    let unique: std::collections::HashSet<_> = titles.iter().copied().collect();
    assert_eq!(titles.len(), unique.len(), "duplicate section titles found");
}

#[test]
fn shortcut_sections_no_duplicate_keys_within_section() {
    for section in shortcut_sections() {
        let keys: Vec<_> = section.rows.iter().map(|&(k, _)| k).collect();
        let unique: std::collections::HashSet<_> = keys.iter().copied().collect();
        assert_eq!(
            keys.len(),
            unique.len(),
            "section '{}' has duplicate key entries",
            section.title
        );
    }
}

#[test]
fn shortcut_sections_global_has_chord_prefix() {
    let global = shortcut_sections()
        .into_iter()
        .find(|s| s.title == "global")
        .expect("global section missing");
    assert!(
        global.rows.iter().any(|&(_, desc)| desc.contains("chord")),
        "global section should document the chord prefix"
    );
}

#[test]
fn shortcut_sections_chat_has_mention() {
    let chat = shortcut_sections()
        .into_iter()
        .find(|s| s.title == "chat")
        .expect("chat section missing");
    assert!(
        chat.rows.iter().any(|&(k, _)| k == "@"),
        "chat section must document @ mention"
    );
}
