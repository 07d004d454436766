use kendra::plugin_cli::{
    dashes, installed_row, marketplace_row, parse_scope_filter, plugin_row, scope_of_flag, search_row,
    shorten_description, PluginScopeChoice, PluginStatusKind,
};

#[test]
fn test_rows_are_padded() {
    assert_eq!(marketplace_row("m", "u", "b"), format!("{:<20} {:<60} {:<10}", "m", "u", "b"));
    assert_eq!(search_row("mk", "p", "1.0", "d"), format!("{:<20} {:<25} {:<10} {:<40}", "mk", "p", "1.0", "d"));
    assert_eq!(plugin_row("p", "2", "desc"), format!("{:<25} {:<10} {:<50}", "p", "2", "desc"));
    let long = "x".repeat(30);
    assert_eq!(plugin_row(&long, "2", "d"), format!("{} {:<10} {:<50}", long, "2", "d"));
}

#[test]
fn test_installed_row() {
    let row = installed_row("p", "1.2", PluginScopeChoice::User, PluginStatusKind::Disabled, None);
    assert_eq!(row, format!("{:<25} {:<10} {:<10} {:<10} {:<15}", "p", "1.2", "global", "disabled", "local"));
    let row = installed_row("p", "1", PluginScopeChoice::Project, PluginStatusKind::Installed, Some("mk"));
    assert_eq!(row, format!("{:<25} {:<10} {:<10} {:<10} {:<15}", "p", "1", "project", "enabled", "mk"));
}

#[test]
fn test_dashes_and_shortening() {
    assert_eq!(dashes(5), "-----");
    assert_eq!(shorten_description("short", 40, 37).unwrap(), "short");
    let long = "d".repeat(45);
    assert_eq!(shorten_description(&long, 40, 37).unwrap(), format!("{}...", "d".repeat(37)));
}

#[test]
fn test_scopes() {
    assert_eq!(scope_of_flag(true), (PluginScopeChoice::User, "global"));
    assert_eq!(scope_of_flag(false), (PluginScopeChoice::Project, "project"));
    assert_eq!(parse_scope_filter(None), Ok(None));
    assert_eq!(parse_scope_filter(Some("user")), Ok(Some(PluginScopeChoice::User)));
    assert_eq!(parse_scope_filter(Some("local")), Ok(Some(PluginScopeChoice::Project)));
    assert_eq!(
        parse_scope_filter(Some("team")),
        Err("Error: unknown scope 'team' (expected 'global' or 'project')".to_string())
    );
}
