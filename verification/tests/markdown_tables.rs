use qmtui::app::App;
use qmtui::highlight::Highlighter;
use qmtui::markdown::render;
use qmtui::style::{Line, Style};
use qmtui::theme::Base16Palette;

fn palette(id: &str, shade: u32) -> Base16Palette {
    let mut colors: [u32; 16] = [0; 16];
    for (i, c) in colors.iter_mut().enumerate() {
        *c = shade + 0x01_01_01 * (i as u32);
    }
    Base16Palette { id: id.to_string(), label: id.to_string(), colors }
}

fn new_app() -> App {
    App::new(vec![
        palette("base16-querymate", 0x10_20_30),
        palette("base16-ocean", 0x20_10_40),
        palette("base16-eighties", 0x40_50_10),
    ])
}

/// Extract the raw text from rendered Lines (ignoring styles).
fn lines_to_text(lines: &[Line]) -> Vec<String> {
    lines
        .iter()
        .map(|l| l.spans.iter().map(|s| s.content.as_str()).collect::<String>())
        .collect()
}

fn render_md(md: &str) -> Vec<Line> {
    let mut app = new_app();
    app.theme.set_by_index(&app.themes, 0);
    app.theme.begin_frame(&app.themes);
    let hl = Highlighter::new();
    render(&app.theme, md, Style::plain(), &hl)
}

// ── Basic table structure ──────────────────────────────────────────

#[test]
fn table_basic_renders_box_drawing_borders() {
    let md = "| A | B |\n|---|---|\n| 1 | 2 |\n";
    let lines = render_md(md);
    let text = lines_to_text(&lines);

    // Should contain box-drawing top border
    assert!(
        text.iter().any(|l| l.contains('┌') && l.contains('┐')),
        "Expected top border with ┌ and ┐, got: {text:#?}"
    );
    // Should contain box-drawing bottom border
    assert!(
        text.iter().any(|l| l.contains('└') && l.contains('┘')),
        "Expected bottom border with └ and ┘, got: {text:#?}"
    );
    // Should contain header separator
    assert!(
        text.iter().any(|l| l.contains('├') && l.contains('┤')),
        "Expected header separator with ├ and ┤, got: {text:#?}"
    );
    // Should contain vertical separators
    assert!(
        text.iter().any(|l| l.contains('│')),
        "Expected vertical separators │, got: {text:#?}"
    );
}

#[test]
fn table_basic_contains_cell_content() {
    let md = "| Name | Age |\n|------|-----|\n| Alice | 30 |\n| Bob | 25 |\n";
    let lines = render_md(md);
    let text = lines_to_text(&lines);
    let joined = text.join("\n");

    assert!(
        joined.contains("Name"),
        "Missing header 'Name' in:\n{joined}"
    );
    assert!(joined.contains("Age"), "Missing header 'Age' in:\n{joined}");
    assert!(
        joined.contains("Alice"),
        "Missing cell 'Alice' in:\n{joined}"
    );
    assert!(joined.contains("30"), "Missing cell '30' in:\n{joined}");
    assert!(joined.contains("Bob"), "Missing cell 'Bob' in:\n{joined}");
    assert!(joined.contains("25"), "Missing cell '25' in:\n{joined}");
}

#[test]
fn table_correct_line_count() {
    // A 1-header + 2-body-row table should produce:
    //   top border, header row, separator, body row 1, body row 2, bottom border, blank line
    let md = "| A | B |\n|---|---|\n| 1 | 2 |\n| 3 | 4 |\n";
    let lines = render_md(md);
    let text = lines_to_text(&lines);

    // Filter out empty trailing lines
    let non_empty: Vec<_> = text.iter().filter(|l| !l.is_empty()).collect();
    assert_eq!(
        non_empty.len(),
        6, // top + header + sep + 2 body rows + bottom
        "Expected 6 non-empty lines, got {}: {non_empty:#?}",
        non_empty.len()
    );
}

// ── Alignment ──────────────────────────────────────────────────────

#[test]
fn table_left_alignment_pads_right() {
    let md = "| X |\n|:--|\n| hi |\n";
    let lines = render_md(md);
    let text = lines_to_text(&lines);

    // Find the body row with "hi"
    let body_row = text
        .iter()
        .find(|l| l.contains("hi"))
        .expect("body row missing");
    // After "hi" there should be trailing spaces before the border
    assert!(
        body_row.contains("hi "),
        "Left-aligned cell should have trailing space padding: {body_row}"
    );
}

#[test]
fn table_right_alignment_pads_left() {
    let md = "| X |\n|--:|\n| hi |\n";
    let lines = render_md(md);
    let text = lines_to_text(&lines);

    let body_row = text
        .iter()
        .find(|l| l.contains("hi"))
        .expect("body row missing");
    // Before "hi" there should be leading spaces after the border
    assert!(
        body_row.contains(" hi"),
        "Right-aligned cell should have leading space padding: {body_row}"
    );
}

#[test]
fn table_center_alignment() {
    let md = "| Header |\n|:------:|\n| hi |\n";
    let lines = render_md(md);
    let text = lines_to_text(&lines);

    let body_row = text
        .iter()
        .find(|l| l.contains("hi"))
        .expect("body row missing");
    // "hi" should have padding on both sides
    assert!(
        body_row.contains(" hi "),
        "Center-aligned cell should have padding on both sides: {body_row}"
    );
}

// ── Edge cases ─────────────────────────────────────────────────────

#[test]
fn table_empty_cells() {
    let md = "| A | B |\n|---|---|\n|   | x |\n";
    let lines = render_md(md);
    let text = lines_to_text(&lines);
    let joined = text.join("\n");

    assert!(
        joined.contains("x"),
        "Non-empty cell content missing: {joined}"
    );
    // Should still render correct structure
    assert!(
        text.iter().any(|l| l.contains('┌')),
        "Table borders missing for table with empty cells"
    );
}

#[test]
fn table_single_column() {
    let md = "| Solo |\n|------|\n| val |\n";
    let lines = render_md(md);
    let text = lines_to_text(&lines);
    let joined = text.join("\n");

    assert!(joined.contains("Solo"), "Header missing");
    assert!(joined.contains("val"), "Body missing");
    assert!(
        text.iter().any(|l| l.contains('┌') && l.contains('┐')),
        "Single-column table should have borders"
    );
    // Single column: no ┬ or ┼ (only top-left and top-right)
    assert!(
        !text.iter().any(|l| l.contains('┬')),
        "Single-column table should NOT have ┬ junction"
    );
}

#[test]
fn table_inline_code_in_cell() {
    let md = "| Code |\n|------|\n| `foo` |\n";
    let lines = render_md(md);
    let text = lines_to_text(&lines);
    let joined = text.join("\n");

    assert!(
        joined.contains("foo"),
        "Inline code content should appear in table: {joined}"
    );
}

#[test]
fn table_bold_in_cell() {
    let md = "| Styled |\n|--------|\n| **bold** |\n";
    let lines = render_md(md);
    let text = lines_to_text(&lines);
    let joined = text.join("\n");

    assert!(
        joined.contains("bold"),
        "Bold text should appear in table cell: {joined}"
    );
}

#[test]
fn table_does_not_break_surrounding_content() {
    let md = "Before\n\n| A | B |\n|---|---|\n| 1 | 2 |\n\nAfter\n";
    let lines = render_md(md);
    let text = lines_to_text(&lines);
    let joined = text.join("\n");

    assert!(joined.contains("Before"), "Text before table missing");
    assert!(joined.contains("After"), "Text after table missing");
    assert!(joined.contains('┌'), "Table borders missing");
}

// ── Header styling ─────────────────────────────────────────────────

#[test]
fn table_header_has_bold_modifier() {
    let md = "| Head |\n|------|\n| body |\n";
    let lines = render_md(md);

    // Find the line containing "Head" (the header row)
    let header_line = lines
        .iter()
        .find(|l| l.spans.iter().any(|s| s.content.as_str().contains("Head")))
        .expect("Header line not found");

    let head_span = header_line
        .spans
        .iter()
        .find(|s| s.content.as_str().contains("Head"))
        .expect("Header span not found");

    assert!(
        head_span.style.bold,
        "Header cell should be bold, got style: {:?}",
        head_span.style
    );
}

// ── Column width calculation ───────────────────────────────────────

#[test]
fn table_columns_pad_to_widest_cell() {
    let md = "| A | B |\n|---|---|\n| short | x |\n| a very long cell | y |\n";
    let lines = render_md(md);
    let text = lines_to_text(&lines);

    // The top border should be wide enough for "a very long cell"
    let top = text.iter().find(|l| l.contains('┌')).expect("top border");
    let bottom = text
        .iter()
        .find(|l| l.contains('└'))
        .expect("bottom border");
    // Top and bottom borders should have the same length
    assert_eq!(
        top.len(),
        bottom.len(),
        "Top and bottom borders should be same width"
    );
}
