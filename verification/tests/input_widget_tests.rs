use kendra::input_widget::{
    count_display_lines, header_layout, layout_lines, layout_visible_rows, to_kebab_display,
    InputBody, InputWidget,
};

#[test]
fn kebab_display_collapses_runs() {
    assert_eq!(to_kebab_display("Running Tests!!"), "running-tests");
    assert_eq!(to_kebab_display("  --Hello, World--  "), "hello-world");
    assert_eq!(to_kebab_display(""), "");
}

#[test]
fn count_display_lines_wraps() {
    assert_eq!(count_display_lines("", 80), 1);
    assert_eq!(count_display_lines("a\nb", 80), 2);
    // width 7 leaves 5 columns: 12 characters take 3 rows.
    assert_eq!(count_display_lines("abcdefghijkl", 7), 3);
    // At least one column is always available.
    assert_eq!(count_display_lines("abc", 0), 3);
}

#[test]
fn header_texts() {
    let h = header_layout("NORMAL", 2, 0, None, 60);
    assert_eq!(h.mode_text, " Normal ");
    assert_eq!(h.hint_text, "(Shift+Tab) ");
    assert_eq!(h.queue_text, "── 2 messages queued (ESC) ");
    assert_eq!(h.fill, 60 - (3 + 8 + 12 + 27));
    assert!(h.tag_section.is_none());

    let h = header_layout("PLAN", 0, 1, Some("Deep Thinking"), 80);
    assert_eq!(h.mode_text, " Plan ");
    assert_eq!(h.queue_text, "── 1 result queued ");
    assert_eq!(h.tag_section.as_deref(), Some(" deep-thinking "));

    let h = header_layout("CUSTOM", 1, 1, None, 10);
    assert_eq!(h.mode_text, " CUSTOM ");
    assert_eq!(h.queue_text, "── 2 queued (ESC) ");
    assert_eq!(h.fill, 0);
}

#[test]
fn rows_with_cursor() {
    let lines = layout_lines("hello\nworld", 8, 40);
    assert_eq!(lines.len(), 2);
    assert_eq!(lines[1].cursor_idx, Some(2));
    let rows = layout_visible_rows(&lines, 5);
    assert_eq!(rows[0].prefix, "> ");
    assert_eq!(rows[0].before, "hello");
    assert!(rows[0].cursor.is_none());
    assert_eq!(rows[1].prefix, "  ");
    assert_eq!(rows[1].before, "wo");
    assert_eq!(rows[1].cursor.as_deref(), Some("r"));
    assert_eq!(rows[1].after, "ld");
}

#[test]
fn cursor_at_end_and_scrolling() {
    // Width 5 leaves 3 columns: "abcdefg" wraps to "abc", "def", "g".
    let lines = layout_lines("abcdefg", 7, 5);
    let texts: Vec<&str> = lines.iter().map(|l| l.text.as_str()).collect();
    assert_eq!(texts, vec!["abc", "def", "g"]);
    assert_eq!(lines[2].cursor_idx, Some(1));
    let rows = layout_visible_rows(&lines, 2);
    assert_eq!(rows.len(), 2);
    assert_eq!(rows[0].before, "def");
    assert_eq!(rows[1].before, "g");
    assert_eq!(rows[1].cursor.as_deref(), Some(" "));
}

#[test]
fn widget_layout_bodies() {
    let w = InputWidget::new("", 0, "NORMAL", 0, 0, None);
    assert!(w.layout(80, 1).is_none());
    let l = w.layout(80, 3).unwrap();
    assert!(matches!(l.body, InputBody::Placeholder));
    assert!(!l.plan_accent);
    let w = InputWidget::new("x", 1, "PLAN", 0, 0, None);
    let l = w.layout(80, 3).unwrap();
    assert!(l.plan_accent);
    match l.body {
        InputBody::Rows(rows) => {
            assert_eq!(rows.len(), 1);
            assert_eq!(rows[0].before, "x");
        }
        _ => panic!("expected rows"),
    }
}
