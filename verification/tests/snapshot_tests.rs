use std::collections::hash_map::DefaultHasher;
use std::hash::{Hash, Hasher};
use kendra::snapshot::{changed_files, encode_project_id, undo_description, SnapshotManager};
use kendra::snapshot::{GitStep, SnapshotEvent, SnapshotOutcome, SnapshotRequest, SnapshotTask};

#[test]
fn test_encode_project_id() {
    let id1 = encode_project_id("/Users/foo/project");
    let id2 = encode_project_id("/Users/foo/project");
    assert_eq!(id1, id2);

    let id3 = encode_project_id("/Users/bar/project");
    assert_ne!(id1, id3);

    assert_eq!(id1.len(), 16);
}

#[test]
fn encode_project_id_matches_std_hash() {
    let mut hasher = DefaultHasher::new();
    "/Users/foo/project".hash(&mut hasher);
    assert_eq!(
        encode_project_id("/Users/foo/project"),
        format!("{:016x}", hasher.finish())
    );
}

#[test]
fn test_snapshot_manager_new() {
    let mgr = SnapshotManager::new("/tmp/test-project", Some("/home/me"));
    assert_eq!(mgr.snapshot_count(), 0);
    assert!(!mgr.is_initialized());
}

#[test]
fn snapshot_manager_starts_empty() {
    let mgr = SnapshotManager::new("/tmp/test-project", None);
    assert_eq!(mgr.snapshot_count(), 0);
}

#[test]
fn shadow_dir_under_home() {
    let mgr = SnapshotManager::new("/p", Some("/home/me/"));
    let id = encode_project_id("/p");
    assert_eq!(
        mgr.shadow_git_dir(),
        format!("/home/me/.opendev/snapshot/{id}")
    );
    let mgr = SnapshotManager::new("/p", None);
    assert_eq!(mgr.shadow_git_dir(), format!("/tmp/.opendev/snapshot/{id}"));
}

#[test]
fn record_tree_and_undo() {
    let mut mgr = SnapshotManager::new("/p", None);
    assert_eq!(mgr.record_tree("  \n"), None);
    assert_eq!(mgr.record_tree("abc123\n"), Some("abc123".to_string()));
    assert_eq!(mgr.begin_undo(), None);
    assert_eq!(mgr.record_tree("def456\n"), Some("def456".to_string()));
    assert_eq!(mgr.snapshot_count(), 2);
    assert_eq!(mgr.begin_undo(), Some("abc123".to_string()));
    assert_eq!(mgr.snapshot_count(), 1);
}

#[test]
fn changed_files_skips_empty_lines() {
    assert_eq!(
        changed_files("a.txt\r\n\nsrc/b.rs\n"),
        vec!["a.txt".to_string(), "src/b.rs".to_string()]
    );
    assert!(changed_files("").is_empty());
}

#[test]
fn undo_description_lists_few_files() {
    let few = vec!["a".to_string(), "b".to_string()];
    assert_eq!(
        undo_description(&few),
        "Reverted 2 file(s) to previous state: a, b"
    );
    let many: Vec<String> = (0..6).map(|i| format!("f{i}")).collect();
    assert_eq!(undo_description(&many), "Reverted 6 file(s) to previous state");
}


/// Answers the requests of a task as a shadow repository that does not
/// exist yet would, with git printing `outputs` in turn; returns the
/// outcome and the git steps asked for.
fn drive(
    mgr: &mut SnapshotManager,
    start: (SnapshotTask, SnapshotRequest),
    outputs: &mut Vec<Result<String, String>>,
) -> (SnapshotOutcome, Vec<GitStep>) {
    let (mut task, mut req) = start;
    let mut steps = Vec::new();
    loop {
        let event = match req {
            SnapshotRequest::Finished(o) => return (o, steps),
            SnapshotRequest::CreateDir(_) => SnapshotEvent::DirCreated(true),
            SnapshotRequest::CheckFile(_) => SnapshotEvent::FileExists(false),
            SnapshotRequest::Git(step) => {
                steps.push(step);
                SnapshotEvent::GitDone(outputs.remove(0))
            }
        };
        req = task.resume(mgr, event);
    }
}

#[test]
fn snapshot_track_then_undo() {
    let mut mgr = SnapshotManager::new("/p", Some("/home/me"));
    let mut outs = vec![Ok(String::new()), Ok(String::new()), Ok("tree1\n".to_string())];
    let t = mgr.track();
    let (o, steps) = drive(&mut mgr, t, &mut outs);
    assert_eq!(o, SnapshotOutcome::Captured(Some("tree1".to_string())));
    assert_eq!(steps, vec![GitStep::InitBare, GitStep::StageAll, GitStep::WriteTree]);
    assert!(mgr.is_initialized());

    let mut outs = vec![Ok(String::new()), Ok("tree2".to_string())];
    let t = mgr.track();
    let (o, _) = drive(&mut mgr, t, &mut outs);
    assert_eq!(o, SnapshotOutcome::Captured(Some("tree2".to_string())));
    assert_eq!(mgr.snapshot_count(), 2);

    // undo: drop tree2, capture again (tree3), diff against tree1, restore tree1.
    let mut outs = vec![
        Ok(String::new()),
        Ok("tree3".to_string()),
        Ok("a.rs\nb.rs\n".to_string()),
        Ok(String::new()),
        Ok(String::new()),
    ];
    let t = mgr.undo_last();
    let (o, steps) = drive(&mut mgr, t, &mut outs);
    assert_eq!(
        o,
        SnapshotOutcome::Undone(Some("Reverted 2 file(s) to previous state: a.rs, b.rs".to_string()))
    );
    assert_eq!(
        steps,
        vec![
            GitStep::StageAll,
            GitStep::WriteTree,
            GitStep::DiffTree("tree1".to_string(), "tree3".to_string()),
            GitStep::ReadTree("tree1".to_string()),
            GitStep::CheckoutIndex,
        ]
    );
}

#[test]
fn snapshot_undo_with_one_snapshot_does_nothing() {
    let mut mgr = SnapshotManager::new("/p", None);
    mgr.record_tree("only");
    let (task, req) = mgr.undo_last();
    assert!(task.is_finished());
    assert_eq!(req, SnapshotRequest::Finished(SnapshotOutcome::Undone(None)));
    assert_eq!(mgr.snapshot_count(), 1);
}

#[test]
fn snapshot_revert_given_files() {
    let mut mgr = SnapshotManager::new("/p", None);
    mgr.mark_initialized();
    let mut outs = vec![Ok(String::new()), Err("no such file".to_string()), Ok(String::new())];
    let files = vec!["x".to_string(), "y".to_string(), "z".to_string()];
    let t = mgr.revert("t0", Some(files));
    let (o, steps) = drive(&mut mgr, t, &mut outs);
    assert_eq!(o, SnapshotOutcome::Reverted(vec!["x".to_string(), "z".to_string()]));
    assert_eq!(steps[1], GitStep::Checkout("t0".to_string(), "y".to_string()));
}

#[test]
fn snapshot_failures_and_cleanup() {
    let mut mgr = SnapshotManager::new("/p", None);
    let (mut task, req) = mgr.restore("t0");
    assert!(matches!(req, SnapshotRequest::CreateDir(_)));
    let r = task.resume(&mut mgr, SnapshotEvent::DirCreated(false));
    assert_eq!(r, SnapshotRequest::Finished(SnapshotOutcome::Restored(false)));

    let (_, req) = mgr.cleanup();
    assert_eq!(req, SnapshotRequest::Finished(SnapshotOutcome::Cleaned));
    mgr.mark_initialized();
    let (_, req) = mgr.cleanup();
    assert_eq!(req, SnapshotRequest::Git(GitStep::Gc));

    let mut outs = vec![Ok(String::new()), Ok("   ".to_string())];
    let t = mgr.patch("t0");
    let (o, _) = drive(&mut mgr, t, &mut outs);
    assert_eq!(o, SnapshotOutcome::Patched(vec![]));
}

#[test]
fn snapshot_git_args() {
    let mgr = SnapshotManager::new("/proj", Some("/h"));
    let shadow = mgr.shadow_git_dir().to_string();
    assert_eq!(
        mgr.git_args(&GitStep::StageAll),
        vec!["--git-dir", shadow.as_str(), "--work-tree", "/proj", "add", "--all", "--force"]
    );
    assert_eq!(
        mgr.git_args(&GitStep::Checkout("t".to_string(), "f.rs".to_string())),
        vec!["--git-dir", shadow.as_str(), "--work-tree", "/proj", "checkout", "t", "--", "f.rs"]
    );
    assert_eq!(
        mgr.git_args(&GitStep::Gc),
        vec!["--git-dir", shadow.as_str(), "gc", "--prune=7.days.ago", "--quiet"]
    );
}
