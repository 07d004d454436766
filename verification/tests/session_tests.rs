use kendra::json::JsonValue;
use kendra::session::{FileChange, FileChangeType, Session, User};

fn change(t: FileChangeType, path: &str, added: u64, removed: u64) -> FileChange {
    FileChange {
        lines_added: added,
        lines_removed: removed,
        ..FileChange::new(t, path.to_string())
    }
}

#[test]
fn test_session_new() {
    let session = Session::new();
    assert!(!session.id.is_empty());
    assert_eq!(session.channel, "cli");
    assert_eq!(session.chat_type, "direct");
    assert!(!session.is_archived());
}

#[test]
fn test_archive_unarchive() {
    let mut session = Session::new();
    assert!(!session.is_archived());
    session.archive();
    assert!(session.is_archived());
    session.unarchive();
    assert!(!session.is_archived());
}

#[test]
fn test_generate_slug() {
    let session = Session::new();
    assert_eq!(session.generate_slug(Some("Hello World Test")), "hello-world-test");
    assert_eq!(session.generate_slug(Some("Special @#$ Characters!")), "special-characters");
    let slug = session.generate_slug(Some(""));
    assert_eq!(slug.len(), session.id.len().min(8));
}

#[test]
fn test_file_changes_summary() {
    let mut session = Session::new();
    session.add_file_change(FileChange {
        change_type: FileChangeType::Created,
        file_path: "src/main.rs".to_string(),
        lines_added: 50,
        ..FileChange::new(FileChangeType::Created, "src/main.rs".to_string())
    });
    session.add_file_change(FileChange {
        change_type: FileChangeType::Modified,
        file_path: "src/lib.rs".to_string(),
        lines_added: 10,
        lines_removed: 5,
        ..FileChange::new(FileChangeType::Modified, "src/lib.rs".to_string())
    });

    let summary = session.get_file_changes_summary();
    assert_eq!(summary.total, 2);
    assert_eq!(summary.created, 1);
    assert_eq!(summary.modified, 1);
    assert_eq!(summary.total_lines_added, 60);
    assert_eq!(summary.total_lines_removed, 5);
    assert_eq!(summary.net_lines, 55);
}

#[test]
fn test_change_summary() {
    let fc = FileChange {
        lines_added: 10,
        lines_removed: 3,
        ..FileChange::new(FileChangeType::Modified, "test.rs".to_string())
    };
    assert_eq!(fc.get_change_summary(), "+10 -3");

    let created = FileChange::new(FileChangeType::Created, "new.rs".to_string());
    assert_eq!(created.get_change_summary(), "New file");
}

#[test]
fn test_file_icons() {
    assert_eq!(FileChange::new(FileChangeType::Created, "a".to_string()).get_file_icon(), "+");
    assert_eq!(FileChange::new(FileChangeType::Deleted, "a".to_string()).get_file_icon(), "-");
}

#[test]
fn test_user_new() {
    let user = User::new("alice".to_string(), "hashed_pw".to_string());
    assert_eq!(user.username, "alice");
    assert_eq!(user.role, "user");
    assert!(user.email.is_none());
}

#[test]
fn test_user_touch() {
    let mut user = User::new("carol".to_string(), "hash".to_string());
    let before = user.updated_at;
    user.touch();
    assert!(user.updated_at >= before);
}

#[test]
fn test_change_summary_variants() {
    assert_eq!(change(FileChangeType::Modified, "a", 4, 0).get_change_summary(), "+4");
    assert_eq!(change(FileChangeType::Modified, "a", 0, 7).get_change_summary(), "-7");
    assert_eq!(change(FileChangeType::Modified, "a", 0, 0).get_change_summary(), "Modified");
    assert_eq!(change(FileChangeType::Deleted, "a", 1, 1).get_change_summary(), "Deleted");
    assert_eq!(change(FileChangeType::Renamed, "b.rs", 0, 0).get_change_summary(), "Renamed -> b.rs");
    assert_eq!(change(FileChangeType::Renamed, "b", 0, 0).get_status_color(), "orange");
    assert_eq!(change(FileChangeType::Modified, "b", 0, 0).get_file_icon(), "~");
    assert_eq!(FileChange::new(FileChangeType::Created, "x".to_string()).id.len(), 8);
}

#[test]
fn test_add_file_change_folds_and_replaces() {
    let mut session = Session::new();
    session.add_file_change(change(FileChangeType::Modified, "a.rs", 3, 1));
    session.add_file_change(change(FileChangeType::Modified, "a.rs", 2, 2));
    assert_eq!(session.file_changes.len(), 1);
    assert_eq!(session.file_changes[0].lines_added, 5);
    assert_eq!(session.file_changes[0].lines_removed, 3);
    assert_eq!(session.file_changes[0].session_id.as_deref(), Some(session.id.as_str()));

    session.add_file_change(change(FileChangeType::Created, "b.rs", 9, 0));
    session.add_file_change(change(FileChangeType::Deleted, "a.rs", 0, 5));
    assert_eq!(session.file_changes.len(), 2);
    assert_eq!(session.file_changes[0].file_path, "b.rs");
    assert_eq!(session.file_changes[1].change_type, FileChangeType::Deleted);
    assert_eq!(session.summary_files(), 2);
    assert_eq!(session.summary_additions(), 9);
    assert_eq!(session.summary_deletions(), 5);
    let summary = session.get_file_changes_summary();
    assert_eq!(summary.net_lines, 4);
    assert_eq!(summary.deleted, 1);
}

#[test]
fn test_slug_edge_cases() {
    let mut session = Session::new();
    assert_eq!(session.generate_slug(Some("--Already--Dashed--")), "already-dashed");
    assert_eq!(session.generate_slug(Some("!!!")), session.id[..8].to_string());
    let long = "word ".repeat(20);
    let slug = session.generate_slug(Some(&long));
    assert!(slug.len() <= 50);
    assert!(!slug.ends_with('-'));
    assert_eq!(slug, "word-word-word-word-word-word-word-word-word-word");
    session.metadata.push(("title".to_string(), JsonValue::Str("From Metadata".to_string())));
    assert_eq!(session.generate_slug(None), "from-metadata");
}

#[test]
fn test_get_metadata() {
    let mut session = Session::new();
    session.metadata.push(("title".to_string(), JsonValue::Str("T".to_string())));
    session.metadata.push((
        "tags".to_string(),
        JsonValue::Array(vec![JsonValue::Str("rust".to_string()), JsonValue::Str("python".to_string())]),
    ));
    session.add_file_change(change(FileChangeType::Created, "x", 2, 0));
    let meta = session.get_metadata(17);
    assert_eq!(meta.title.as_deref(), Some("T"));
    assert!(meta.summary.is_none());
    assert_eq!(meta.tags, vec!["rust".to_string(), "python".to_string()]);
    assert_eq!(meta.total_tokens, 17);
    assert_eq!(meta.summary_additions, 2);
    assert_eq!(meta.summary_files, 1);
    assert_eq!(meta.channel, "cli");

    let mut other = Session::new();
    other.metadata.push((
        "tags".to_string(),
        JsonValue::Array(vec![JsonValue::Str("a".to_string()), JsonValue::Null]),
    ));
    assert!(other.get_metadata(0).tags.is_empty());
}
