use kendra::constants::{is_safe_command, AutonomyLevel, ThinkingLevel};

#[test]
fn test_is_safe_command() {
    assert!(is_safe_command("ls"));
    assert!(is_safe_command("ls -la"));
    assert!(is_safe_command("git status"));
    assert!(is_safe_command("git diff --staged"));
    assert!(is_safe_command("cat foo.txt"));
    assert!(!is_safe_command("rm -rf /"));
    assert!(!is_safe_command("catastrophe")); // must not match "cat"
    assert!(!is_safe_command(""));
}

#[test]
fn test_safe_command_case_insensitive() {
    assert!(is_safe_command("LS -la"));
    assert!(is_safe_command("Git Status"));
}

#[test]
fn test_autonomy_level_display() {
    assert_eq!(AutonomyLevel::Manual.to_string(), "Manual");
    assert_eq!(AutonomyLevel::SemiAuto.to_string(), "Semi-Auto");
    assert_eq!(AutonomyLevel::Auto.to_string(), "Auto");
}

#[test]
fn test_autonomy_level_parse() {
    assert_eq!(
        AutonomyLevel::from_str_loose("manual"),
        Some(AutonomyLevel::Manual)
    );
    assert_eq!(
        AutonomyLevel::from_str_loose("Semi-Auto"),
        Some(AutonomyLevel::SemiAuto)
    );
    assert_eq!(
        AutonomyLevel::from_str_loose("auto"),
        Some(AutonomyLevel::Auto)
    );
    assert_eq!(AutonomyLevel::from_str_loose("garbage"), None);
}

#[test]
fn test_thinking_level_display() {
    assert_eq!(ThinkingLevel::Off.to_string(), "Off");
    assert_eq!(ThinkingLevel::Low.to_string(), "Low");
    assert_eq!(ThinkingLevel::Medium.to_string(), "Medium");
    assert_eq!(ThinkingLevel::High.to_string(), "High");
}

#[test]
fn test_thinking_level_parse() {
    assert_eq!(
        ThinkingLevel::from_str_loose("off"),
        Some(ThinkingLevel::Off)
    );
    assert_eq!(
        ThinkingLevel::from_str_loose("Medium"),
        Some(ThinkingLevel::Medium)
    );
    assert_eq!(
        ThinkingLevel::from_str_loose("high"),
        Some(ThinkingLevel::High)
    );
    assert_eq!(ThinkingLevel::from_str_loose("garbage"), None);
}

#[test]
fn test_thinking_level_flags() {
    assert!(!ThinkingLevel::Off.is_enabled());
    assert!(ThinkingLevel::Low.is_enabled());
    assert!(ThinkingLevel::Medium.is_enabled());
    assert!(ThinkingLevel::High.is_enabled());
    assert!(!ThinkingLevel::Low.use_critique());
    assert!(ThinkingLevel::High.use_critique());
}

#[test]
fn safe_command_aliases_and_whitespace() {
    assert!(is_safe_command("  pwd  "));
    assert!(is_safe_command("git stash list"));
    assert!(!is_safe_command("git stash"));
    assert!(!is_safe_command("   "));
    assert!(!is_safe_command("lsblk"));
    assert_eq!(AutonomyLevel::from_str_loose("SEMI"), Some(AutonomyLevel::SemiAuto));
    assert_eq!(AutonomyLevel::from_str_loose("full"), Some(AutonomyLevel::Auto));
    assert_eq!(ThinkingLevel::from_str_loose("disabled"), Some(ThinkingLevel::Off));
    assert_eq!(ThinkingLevel::from_str_loose("MAX"), Some(ThinkingLevel::High));
    assert_eq!(AutonomyLevel::default(), AutonomyLevel::SemiAuto);
    assert_eq!(ThinkingLevel::default(), ThinkingLevel::Medium);
}
