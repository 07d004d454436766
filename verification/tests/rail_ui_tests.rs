use kendra::rail_ui::{
    password_step, rail_confirm_answer, rail_confirm_screen, rail_error, rail_info_box, rail_intro,
    rail_outro, rail_prompt_answer, rail_step, rail_success, rail_summary_box, summary_box_lines,
    term_width, PasswordKey, PasswordStep, Segment, Style,
};

fn plain(line: &[Segment]) -> String {
    line.iter().map(|s| s.text.as_str()).collect::<Vec<_>>().join("")
}

fn plain_screen(screen: &[Vec<Segment>]) -> Vec<String> {
    screen.iter().map(|l| plain(l)).collect()
}

#[test]
fn test_rail_intro_lines() {
    let s = rail_intro("Welcome", &["first", "second"]);
    assert_eq!(
        plain_screen(&s),
        vec!["", "  ┌  Welcome", "  │", "  │  first", "  │  second", "  │"]
    );
    assert_eq!(s[1][1].style, Style::Accent);
    assert_eq!(s[1][3].style, Style::Bold);
}

#[test]
fn test_rail_outro_and_step() {
    assert_eq!(plain_screen(&rail_outro("Done")), vec!["  └  Done", ""]);
    let s = rail_step("Provider", Some("1/3"));
    assert_eq!(plain_screen(&s), vec!["", "  ◇  Provider ── Step 1/3"]);
    assert_eq!(s[1].last().unwrap().style, Style::Dim);
    assert_eq!(plain_screen(&rail_step("Provider", None)), vec!["", "  ◇  Provider"]);
}

#[test]
fn test_status_lines() {
    assert_eq!(plain(&rail_success("saved")), "  │  ✓ saved");
    let e = rail_error("failed");
    assert_eq!(plain(&e), "  │  ✖ failed");
    assert_eq!(e.last().unwrap().style, Style::Error);
}

#[test]
fn test_rail_info_box_geometry() {
    let lines = vec!["abc".to_string()];
    let s = rail_info_box("Title", &lines, None, 120);
    let text = plain_screen(&s);
    // width 52: the top edge has 52 - (5 + 7) = 40 dashes.
    assert_eq!(text[1], format!("  ◇  Title {}╮", "─".repeat(40)));
    assert_eq!(text[2], format!("  │{} │", " ".repeat(47)));
    assert_eq!(text[3], format!("  │  abc{} │", " ".repeat(42)));
    assert_eq!(text[5], format!("  ├{}╯", "─".repeat(48)));
    assert_eq!(text[6], "  │");
    assert_eq!(text.len(), 7);
}

#[test]
fn test_rail_info_box_narrow_terminal() {
    let lines = vec!["a long line of text".to_string()];
    let s = rail_info_box("T", &lines, Some("2"), 30);
    let text = plain_screen(&s);
    // width capped at 26
    assert_eq!(text[1], format!("  ◇  T ── Step 2 {}╮", "─".repeat(4)));
    assert_eq!(text[5], format!("  ├{}╯", "─".repeat(22)));
}

#[test]
fn test_summary_box() {
    let rows = [("Provider", "openai"), ("Model", "m")];
    let extra = vec!["note".to_string()];
    let lines = summary_box_lines(&rows, Some(&extra));
    assert_eq!(lines, vec!["Provider    openai", "Model       m", "", "note"]);
    let s = rail_summary_box("Summary", &rows, None, 100);
    assert_eq!(s.len(), 8);
}

#[test]
fn test_confirm_and_prompt() {
    let (screen, mark) = rail_confirm_screen("Continue?", true);
    assert_eq!(plain_screen(&screen), vec!["", "  ◇  Continue? (Y/n)"]);
    assert_eq!(plain(&mark), "  │  > ");
    assert!(rail_confirm_answer("  \n", true));
    assert!(!rail_confirm_answer("", false));
    assert!(rail_confirm_answer("Yes", false));
    assert!(!rail_confirm_answer("nope", true));
    assert_eq!(rail_prompt_answer("  key-123 \n"), "key-123");
}

#[test]
fn test_password_steps() {
    let mut p = String::new();
    assert_eq!(password_step(&mut p, PasswordKey::Char('a')), PasswordStep::Echo);
    assert_eq!(password_step(&mut p, PasswordKey::Char('b')), PasswordStep::Echo);
    assert_eq!(password_step(&mut p, PasswordKey::Backspace), PasswordStep::Erase);
    assert_eq!(password_step(&mut p, PasswordKey::Other), PasswordStep::Ignore);
    assert_eq!(password_step(&mut p, PasswordKey::Enter), PasswordStep::Finish("a".to_string()));
    let mut q = String::new();
    assert_eq!(password_step(&mut q, PasswordKey::Backspace), PasswordStep::Ignore);
    q.push('x');
    assert_eq!(password_step(&mut q, PasswordKey::Esc), PasswordStep::Cancel);
    assert!(q.is_empty());
}

#[test]
fn test_term_width_default() {
    assert_eq!(term_width(None), 80);
    assert_eq!(term_width(Some(132)), 132);
}
