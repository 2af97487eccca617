//! The keys that the help popup lists.
use vstd::prelude::*;

verus! {

/// One section of the list of keys: its title, and keys with what they do.
#[derive(Debug)]
pub struct ShortcutSection {
    pub title: &'static str,
    pub rows: Vec<(&'static str, &'static str)>,
}

#[verifier::ext_equal]
pub struct ShortcutSectionView {
    pub title: Seq<char>,
    pub rows: Seq<(Seq<char>, Seq<char>)>,
}

/// A key with what it does.
pub open spec fn shortcut() -> spec_fn((&'static str, &'static str)) -> (Seq<char>, Seq<char>) {
    |row: (&'static str, &'static str)| (row.0@, row.1@)
}

impl DeepView for ShortcutSection {
    type V = ShortcutSectionView;

    open spec fn deep_view(&self) -> ShortcutSectionView {
        ShortcutSectionView { title: self.title@, rows: self.rows@.map_values(shortcut()) }
    }
}

pub open spec fn global_keys() -> ShortcutSectionView {
    ShortcutSectionView {
        title: "global"@,
        rows: seq![
            ("C-x \u{2026}"@, "chord prefix"@),
            ("Tab"@, "cycle mode (build \u{2192} plan \u{2192} review)"@),
            ("C-c"@, "clear input / quit"@),
        ],
    }
}

pub open spec fn chord_keys() -> ShortcutSectionView {
    ShortcutSectionView {
        title: "chord  (C-x \u{2026})"@,
        rows: seq![
            ("?"@, "this help"@),
            ("e"@, "external editor"@),
            ("m"@, "model selector"@),
            ("n"@, "new session"@),
            ("l"@, "logs popup"@),
            ("q"@, "quit"@),
            ("r"@, "redo"@),
            ("s"@, "session switcher"@),
            ("t"@, "theme picker"@),
            ("u"@, "undo"@),
        ],
    }
}

pub open spec fn chat_keys() -> ShortcutSectionView {
    ShortcutSectionView {
        title: "chat"@,
        rows: seq![
            ("Enter"@, "send message"@),
            ("Esc"@, "cancel / dismiss mention"@),
            ("\u{2191} \u{2193}"@, "scroll history / navigate mentions"@),
            ("PgUp PgDn"@, "scroll fast"@),
            ("\u{2190} \u{2192}"@, "move cursor"@),
            ("Home  End"@, "start / end of input line"@),
            ("End (empty)"@, "snap to bottom of history"@),
            ("Backspace"@, "delete left"@),
            ("Del"@, "delete right"@),
            ("@"@, "mention a file"@),
            ("Ctrl+t"@, "cycle thinking level (auto\u{2192}low\u{2192}medium\u{2192}high\u{2192}max)"@),
        ],
    }
}

pub open spec fn sessions_keys() -> ShortcutSectionView {
    ShortcutSectionView {
        title: "sessions screen"@,
        rows: seq![
            ("\u{2191} \u{2193}"@, "navigate sessions / groups"@),
            ("Enter"@, "load session  /  collapse-expand group"@),
            ("Del"@, "delete selected session"@),
            ("type"@, "filter sessions by title or id"@),
            ("Backspace"@, "clear last filter character"@),
            ("q  Esc"@, "quit"@),
        ],
    }
}

pub open spec fn popups_keys() -> ShortcutSectionView {
    ShortcutSectionView {
        title: "popups"@,
        rows: seq![
            ("\u{2191} \u{2193}"@, "navigate"@),
            ("Enter"@, "confirm"@),
            ("Esc"@, "close"@),
            ("type"@, "filter (sessions, models, themes)"@),
        ],
    }
}

pub open spec fn questions_keys() -> ShortcutSectionView {
    ShortcutSectionView {
        title: "elicitation"@,
        rows: seq![
            ("\u{2191} \u{2193}"@, "navigate fields / options"@),
            ("Space"@, "toggle multi-select option"@),
            ("Enter"@, "submit"@),
            ("Esc"@, "decline"@),
        ],
    }
}

/// The sections of the list of keys.
pub open spec fn key_sections() -> Seq<ShortcutSectionView> {
    seq![global_keys(), chord_keys(), chat_keys(), sessions_keys(), popups_keys(), questions_keys()]
}

fn global_section() -> (r: ShortcutSection)
    ensures
        r.deep_view() == global_keys(),
{
    let rows = vec![
        ("C-x \u{2026}", "chord prefix"),
        ("Tab", "cycle mode (build \u{2192} plan \u{2192} review)"),
        ("C-c", "clear input / quit"),
    ];
    let r = ShortcutSection { title: "global", rows };
    assert(r.deep_view().rows =~= global_keys().rows);
    r
}

fn chord_section() -> (r: ShortcutSection)
    ensures
        r.deep_view() == chord_keys(),
{
    let rows = vec![
        ("?", "this help"),
        ("e", "external editor"),
        ("m", "model selector"),
        ("n", "new session"),
        ("l", "logs popup"),
        ("q", "quit"),
        ("r", "redo"),
        ("s", "session switcher"),
        ("t", "theme picker"),
        ("u", "undo"),
    ];
    let r = ShortcutSection { title: "chord  (C-x \u{2026})", rows };
    assert(r.deep_view().rows =~= chord_keys().rows);
    r
}

fn chat_section() -> (r: ShortcutSection)
    ensures
        r.deep_view() == chat_keys(),
{
    let rows = vec![
        ("Enter", "send message"),
        ("Esc", "cancel / dismiss mention"),
        ("\u{2191} \u{2193}", "scroll history / navigate mentions"),
        ("PgUp PgDn", "scroll fast"),
        ("\u{2190} \u{2192}", "move cursor"),
        ("Home  End", "start / end of input line"),
        ("End (empty)", "snap to bottom of history"),
        ("Backspace", "delete left"),
        ("Del", "delete right"),
        ("@", "mention a file"),
        ("Ctrl+t", "cycle thinking level (auto\u{2192}low\u{2192}medium\u{2192}high\u{2192}max)"),
    ];
    let r = ShortcutSection { title: "chat", rows };
    assert(r.deep_view().rows =~= chat_keys().rows);
    r
}

fn sessions_section() -> (r: ShortcutSection)
    ensures
        r.deep_view() == sessions_keys(),
{
    let rows = vec![
        ("\u{2191} \u{2193}", "navigate sessions / groups"),
        ("Enter", "load session  /  collapse-expand group"),
        ("Del", "delete selected session"),
        ("type", "filter sessions by title or id"),
        ("Backspace", "clear last filter character"),
        ("q  Esc", "quit"),
    ];
    let r = ShortcutSection { title: "sessions screen", rows };
    assert(r.deep_view().rows =~= sessions_keys().rows);
    r
}

fn popups_section() -> (r: ShortcutSection)
    ensures
        r.deep_view() == popups_keys(),
{
    let rows = vec![
        ("\u{2191} \u{2193}", "navigate"),
        ("Enter", "confirm"),
        ("Esc", "close"),
        ("type", "filter (sessions, models, themes)"),
    ];
    let r = ShortcutSection { title: "popups", rows };
    assert(r.deep_view().rows =~= popups_keys().rows);
    r
}

fn questions_section() -> (r: ShortcutSection)
    ensures
        r.deep_view() == questions_keys(),
{
    let rows = vec![
        ("\u{2191} \u{2193}", "navigate fields / options"),
        ("Space", "toggle multi-select option"),
        ("Enter", "submit"),
        ("Esc", "decline"),
    ];
    let r = ShortcutSection { title: "elicitation", rows };
    assert(r.deep_view().rows =~= questions_keys().rows);
    r
}

/// The sections of the list of keys, in the order in which they are shown.
pub fn shortcut_sections() -> (r: Vec<ShortcutSection>)
    ensures
        r.deep_view() == key_sections(),
{
    let r = vec![
        global_section(),
        chord_section(),
        chat_section(),
        sessions_section(),
        popups_section(),
        questions_section(),
    ];
    assert(r.deep_view() =~= key_sections());
    r
}

/// No two sections have the same title.
pub proof fn law_section_titles_are_unique(i: int, j: int)
    requires
        0 <= i < j < key_sections().len(),
    ensures
        key_sections()[i].title != key_sections()[j].title,
{
    reveal_strlit("global");
    assert("global"@.len() == 6);
    reveal_strlit("chord  (C-x \u{2026})");
    assert("chord  (C-x \u{2026})"@.len() == 14);
    reveal_strlit("chat");
    assert("chat"@.len() == 4);
    reveal_strlit("sessions screen");
    assert("sessions screen"@.len() == 15);
    reveal_strlit("popups");
    assert("popups"@.len() == 6);
    reveal_strlit("elicitation");
    assert("elicitation"@.len() == 11);
    assert("global"@[0] != "popups"@[0]);
    let t = key_sections();
    assert(t[0].title != t[1].title);
    assert(t[0].title != t[2].title);
    assert(t[0].title != t[3].title);
    assert(t[0].title != t[4].title);
    assert(t[0].title != t[5].title);
    assert(t[1].title != t[2].title);
    assert(t[1].title != t[3].title);
    assert(t[1].title != t[4].title);
    assert(t[1].title != t[5].title);
    assert(t[2].title != t[3].title);
    assert(t[2].title != t[4].title);
    assert(t[2].title != t[5].title);
    assert(t[3].title != t[4].title);
    assert(t[3].title != t[5].title);
    assert(t[4].title != t[5].title);
    assert(i == 0 || i == 1 || i == 2 || i == 3 || i == 4);
    assert(j == 1 || j == 2 || j == 3 || j == 4 || j == 5);
}

proof fn lemma_global_keys(i: int, j: int)
    requires
        0 <= i < j < global_keys().rows.len(),
    ensures
        global_keys().rows[i].0 != global_keys().rows[j].0,
{
    reveal_strlit("C-x \u{2026}");
    assert("C-x \u{2026}"@.len() == 5);
    reveal_strlit("Tab");
    assert("Tab"@.len() == 3);
    reveal_strlit("C-c");
    assert("C-c"@.len() == 3);
    assert("Tab"@[0] != "C-c"@[0]);
    let r = global_keys().rows;
    assert(r[0].0 != r[1].0);
    assert(r[0].0 != r[2].0);
    assert(r[1].0 != r[2].0);
    assert(i == 0 || i == 1);
    assert(j == 1 || j == 2);
}

proof fn lemma_chord_keys(i: int, j: int)
    requires
        0 <= i < j < chord_keys().rows.len(),
    ensures
        chord_keys().rows[i].0 != chord_keys().rows[j].0,
{
    reveal_strlit("?");
    assert("?"@.len() == 1);
    reveal_strlit("e");
    assert("e"@.len() == 1);
    reveal_strlit("m");
    assert("m"@.len() == 1);
    reveal_strlit("n");
    assert("n"@.len() == 1);
    reveal_strlit("l");
    assert("l"@.len() == 1);
    reveal_strlit("q");
    assert("q"@.len() == 1);
    reveal_strlit("r");
    assert("r"@.len() == 1);
    reveal_strlit("s");
    assert("s"@.len() == 1);
    reveal_strlit("t");
    assert("t"@.len() == 1);
    reveal_strlit("u");
    assert("u"@.len() == 1);
    assert("?"@[0] != "e"@[0]);
    assert("?"@[0] != "m"@[0]);
    assert("?"@[0] != "n"@[0]);
    assert("?"@[0] != "l"@[0]);
    assert("?"@[0] != "q"@[0]);
    assert("?"@[0] != "r"@[0]);
    assert("?"@[0] != "s"@[0]);
    assert("?"@[0] != "t"@[0]);
    assert("?"@[0] != "u"@[0]);
    assert("e"@[0] != "m"@[0]);
    assert("e"@[0] != "n"@[0]);
    assert("e"@[0] != "l"@[0]);
    assert("e"@[0] != "q"@[0]);
    assert("e"@[0] != "r"@[0]);
    assert("e"@[0] != "s"@[0]);
    assert("e"@[0] != "t"@[0]);
    assert("e"@[0] != "u"@[0]);
    assert("m"@[0] != "n"@[0]);
    assert("m"@[0] != "l"@[0]);
    assert("m"@[0] != "q"@[0]);
    assert("m"@[0] != "r"@[0]);
    assert("m"@[0] != "s"@[0]);
    assert("m"@[0] != "t"@[0]);
    assert("m"@[0] != "u"@[0]);
    assert("n"@[0] != "l"@[0]);
    assert("n"@[0] != "q"@[0]);
    assert("n"@[0] != "r"@[0]);
    assert("n"@[0] != "s"@[0]);
    assert("n"@[0] != "t"@[0]);
    assert("n"@[0] != "u"@[0]);
    assert("l"@[0] != "q"@[0]);
    assert("l"@[0] != "r"@[0]);
    assert("l"@[0] != "s"@[0]);
    assert("l"@[0] != "t"@[0]);
    assert("l"@[0] != "u"@[0]);
    assert("q"@[0] != "r"@[0]);
    assert("q"@[0] != "s"@[0]);
    assert("q"@[0] != "t"@[0]);
    assert("q"@[0] != "u"@[0]);
    assert("r"@[0] != "s"@[0]);
    assert("r"@[0] != "t"@[0]);
    assert("r"@[0] != "u"@[0]);
    assert("s"@[0] != "t"@[0]);
    assert("s"@[0] != "u"@[0]);
    assert("t"@[0] != "u"@[0]);
    let r = chord_keys().rows;
    assert(r[0].0 != r[1].0);
    assert(r[0].0 != r[2].0);
    assert(r[0].0 != r[3].0);
    assert(r[0].0 != r[4].0);
    assert(r[0].0 != r[5].0);
    assert(r[0].0 != r[6].0);
    assert(r[0].0 != r[7].0);
    assert(r[0].0 != r[8].0);
    assert(r[0].0 != r[9].0);
    assert(r[1].0 != r[2].0);
    assert(r[1].0 != r[3].0);
    assert(r[1].0 != r[4].0);
    assert(r[1].0 != r[5].0);
    assert(r[1].0 != r[6].0);
    assert(r[1].0 != r[7].0);
    assert(r[1].0 != r[8].0);
    assert(r[1].0 != r[9].0);
    assert(r[2].0 != r[3].0);
    assert(r[2].0 != r[4].0);
    assert(r[2].0 != r[5].0);
    assert(r[2].0 != r[6].0);
    assert(r[2].0 != r[7].0);
    assert(r[2].0 != r[8].0);
    assert(r[2].0 != r[9].0);
    assert(r[3].0 != r[4].0);
    assert(r[3].0 != r[5].0);
    assert(r[3].0 != r[6].0);
    assert(r[3].0 != r[7].0);
    assert(r[3].0 != r[8].0);
    assert(r[3].0 != r[9].0);
    assert(r[4].0 != r[5].0);
    assert(r[4].0 != r[6].0);
    assert(r[4].0 != r[7].0);
    assert(r[4].0 != r[8].0);
    assert(r[4].0 != r[9].0);
    assert(r[5].0 != r[6].0);
    assert(r[5].0 != r[7].0);
    assert(r[5].0 != r[8].0);
    assert(r[5].0 != r[9].0);
    assert(r[6].0 != r[7].0);
    assert(r[6].0 != r[8].0);
    assert(r[6].0 != r[9].0);
    assert(r[7].0 != r[8].0);
    assert(r[7].0 != r[9].0);
    assert(r[8].0 != r[9].0);
    assert(i == 0 || i == 1 || i == 2 || i == 3 || i == 4 || i == 5 || i == 6 || i == 7 || i == 8);
    assert(j == 1 || j == 2 || j == 3 || j == 4 || j == 5 || j == 6 || j == 7 || j == 8 || j == 9);
}

proof fn lemma_chat_keys(i: int, j: int)
    requires
        0 <= i < j < chat_keys().rows.len(),
    ensures
        chat_keys().rows[i].0 != chat_keys().rows[j].0,
{
    reveal_strlit("Enter");
    assert("Enter"@.len() == 5);
    reveal_strlit("Esc");
    assert("Esc"@.len() == 3);
    reveal_strlit("\u{2191} \u{2193}");
    assert("\u{2191} \u{2193}"@.len() == 3);
    reveal_strlit("PgUp PgDn");
    assert("PgUp PgDn"@.len() == 9);
    reveal_strlit("\u{2190} \u{2192}");
    assert("\u{2190} \u{2192}"@.len() == 3);
    reveal_strlit("Home  End");
    assert("Home  End"@.len() == 9);
    reveal_strlit("End (empty)");
    assert("End (empty)"@.len() == 11);
    reveal_strlit("Backspace");
    assert("Backspace"@.len() == 9);
    reveal_strlit("Del");
    assert("Del"@.len() == 3);
    reveal_strlit("@");
    assert("@"@.len() == 1);
    reveal_strlit("Ctrl+t");
    assert("Ctrl+t"@.len() == 6);
    assert("Esc"@[0] != "\u{2191} \u{2193}"@[0]);
    assert("Esc"@[0] != "\u{2190} \u{2192}"@[0]);
    assert("Esc"@[0] != "Del"@[0]);
    assert("\u{2191} \u{2193}"@[0] != "\u{2190} \u{2192}"@[0]);
    assert("\u{2191} \u{2193}"@[0] != "Del"@[0]);
    assert("PgUp PgDn"@[0] != "Home  End"@[0]);
    assert("PgUp PgDn"@[0] != "Backspace"@[0]);
    assert("\u{2190} \u{2192}"@[0] != "Del"@[0]);
    assert("Home  End"@[0] != "Backspace"@[0]);
    let r = chat_keys().rows;
    assert(r[0].0 != r[1].0);
    assert(r[0].0 != r[2].0);
    assert(r[0].0 != r[3].0);
    assert(r[0].0 != r[4].0);
    assert(r[0].0 != r[5].0);
    assert(r[0].0 != r[6].0);
    assert(r[0].0 != r[7].0);
    assert(r[0].0 != r[8].0);
    assert(r[0].0 != r[9].0);
    assert(r[0].0 != r[10].0);
    assert(r[1].0 != r[2].0);
    assert(r[1].0 != r[3].0);
    assert(r[1].0 != r[4].0);
    assert(r[1].0 != r[5].0);
    assert(r[1].0 != r[6].0);
    assert(r[1].0 != r[7].0);
    assert(r[1].0 != r[8].0);
    assert(r[1].0 != r[9].0);
    assert(r[1].0 != r[10].0);
    assert(r[2].0 != r[3].0);
    assert(r[2].0 != r[4].0);
    assert(r[2].0 != r[5].0);
    assert(r[2].0 != r[6].0);
    assert(r[2].0 != r[7].0);
    assert(r[2].0 != r[8].0);
    assert(r[2].0 != r[9].0);
    assert(r[2].0 != r[10].0);
    assert(r[3].0 != r[4].0);
    assert(r[3].0 != r[5].0);
    assert(r[3].0 != r[6].0);
    assert(r[3].0 != r[7].0);
    assert(r[3].0 != r[8].0);
    assert(r[3].0 != r[9].0);
    assert(r[3].0 != r[10].0);
    assert(r[4].0 != r[5].0);
    assert(r[4].0 != r[6].0);
    assert(r[4].0 != r[7].0);
    assert(r[4].0 != r[8].0);
    assert(r[4].0 != r[9].0);
    assert(r[4].0 != r[10].0);
    assert(r[5].0 != r[6].0);
    assert(r[5].0 != r[7].0);
    assert(r[5].0 != r[8].0);
    assert(r[5].0 != r[9].0);
    assert(r[5].0 != r[10].0);
    assert(r[6].0 != r[7].0);
    assert(r[6].0 != r[8].0);
    assert(r[6].0 != r[9].0);
    assert(r[6].0 != r[10].0);
    assert(r[7].0 != r[8].0);
    assert(r[7].0 != r[9].0);
    assert(r[7].0 != r[10].0);
    assert(r[8].0 != r[9].0);
    assert(r[8].0 != r[10].0);
    assert(r[9].0 != r[10].0);
    assert(i == 0 || i == 1 || i == 2 || i == 3 || i == 4 || i == 5 || i == 6 || i == 7 || i == 8 || i == 9);
    assert(j == 1 || j == 2 || j == 3 || j == 4 || j == 5 || j == 6 || j == 7 || j == 8 || j == 9 || j == 10);
}

proof fn lemma_sessions_keys(i: int, j: int)
    requires
        0 <= i < j < sessions_keys().rows.len(),
    ensures
        sessions_keys().rows[i].0 != sessions_keys().rows[j].0,
{
    reveal_strlit("\u{2191} \u{2193}");
    assert("\u{2191} \u{2193}"@.len() == 3);
    reveal_strlit("Enter");
    assert("Enter"@.len() == 5);
    reveal_strlit("Del");
    assert("Del"@.len() == 3);
    reveal_strlit("type");
    assert("type"@.len() == 4);
    reveal_strlit("Backspace");
    assert("Backspace"@.len() == 9);
    reveal_strlit("q  Esc");
    assert("q  Esc"@.len() == 6);
    assert("\u{2191} \u{2193}"@[0] != "Del"@[0]);
    let r = sessions_keys().rows;
    assert(r[0].0 != r[1].0);
    assert(r[0].0 != r[2].0);
    assert(r[0].0 != r[3].0);
    assert(r[0].0 != r[4].0);
    assert(r[0].0 != r[5].0);
    assert(r[1].0 != r[2].0);
    assert(r[1].0 != r[3].0);
    assert(r[1].0 != r[4].0);
    assert(r[1].0 != r[5].0);
    assert(r[2].0 != r[3].0);
    assert(r[2].0 != r[4].0);
    assert(r[2].0 != r[5].0);
    assert(r[3].0 != r[4].0);
    assert(r[3].0 != r[5].0);
    assert(r[4].0 != r[5].0);
    assert(i == 0 || i == 1 || i == 2 || i == 3 || i == 4);
    assert(j == 1 || j == 2 || j == 3 || j == 4 || j == 5);
}

proof fn lemma_popups_keys(i: int, j: int)
    requires
        0 <= i < j < popups_keys().rows.len(),
    ensures
        popups_keys().rows[i].0 != popups_keys().rows[j].0,
{
    reveal_strlit("\u{2191} \u{2193}");
    assert("\u{2191} \u{2193}"@.len() == 3);
    reveal_strlit("Enter");
    assert("Enter"@.len() == 5);
    reveal_strlit("Esc");
    assert("Esc"@.len() == 3);
    reveal_strlit("type");
    assert("type"@.len() == 4);
    assert("\u{2191} \u{2193}"@[0] != "Esc"@[0]);
    let r = popups_keys().rows;
    assert(r[0].0 != r[1].0);
    assert(r[0].0 != r[2].0);
    assert(r[0].0 != r[3].0);
    assert(r[1].0 != r[2].0);
    assert(r[1].0 != r[3].0);
    assert(r[2].0 != r[3].0);
    assert(i == 0 || i == 1 || i == 2);
    assert(j == 1 || j == 2 || j == 3);
}

proof fn lemma_questions_keys(i: int, j: int)
    requires
        0 <= i < j < questions_keys().rows.len(),
    ensures
        questions_keys().rows[i].0 != questions_keys().rows[j].0,
{
    reveal_strlit("\u{2191} \u{2193}");
    assert("\u{2191} \u{2193}"@.len() == 3);
    reveal_strlit("Space");
    assert("Space"@.len() == 5);
    reveal_strlit("Enter");
    assert("Enter"@.len() == 5);
    reveal_strlit("Esc");
    assert("Esc"@.len() == 3);
    assert("\u{2191} \u{2193}"@[0] != "Esc"@[0]);
    assert("Space"@[0] != "Enter"@[0]);
    let r = questions_keys().rows;
    assert(r[0].0 != r[1].0);
    assert(r[0].0 != r[2].0);
    assert(r[0].0 != r[3].0);
    assert(r[1].0 != r[2].0);
    assert(r[1].0 != r[3].0);
    assert(r[2].0 != r[3].0);
    assert(i == 0 || i == 1 || i == 2);
    assert(j == 1 || j == 2 || j == 3);
}

/// Every section has keys, and none of them twice.
pub proof fn law_keys_are_listed_once(s: int, i: int, j: int)
    requires
        0 <= s < key_sections().len(),
    ensures
        key_sections()[s].rows.len() > 0,
        0 <= i < j < key_sections()[s].rows.len() ==> key_sections()[s].rows[i].0
            != key_sections()[s].rows[j].0,
{
    if 0 <= i < j < key_sections()[s].rows.len() {
        if s == 0 {
            lemma_global_keys(i, j);
        } else if s == 1 {
            lemma_chord_keys(i, j);
        } else if s == 2 {
            lemma_chat_keys(i, j);
        } else if s == 3 {
            lemma_sessions_keys(i, j);
        } else if s == 4 {
            lemma_popups_keys(i, j);
        } else if s == 5 {
            lemma_questions_keys(i, j);
        }
    }
}

} // verus!
