use kendra::session::Session;
use kendra::session_manager::SessionManager;

#[test]
fn test_create_session() {
    let mut mgr = SessionManager::new("/tmp/sessions");
    let session = mgr.create_session();
    assert!(!session.id.is_empty());
    assert!(mgr.current_session().is_some());
}

#[test]
fn test_set_get_metadata() {
    let mut mgr = SessionManager::new("/tmp/sessions");
    mgr.create_session();
    assert!(mgr.get_metadata("mode").is_none());
    mgr.set_metadata("mode", "PLAN");
    assert_eq!(mgr.get_metadata("mode").as_deref(), Some("PLAN"));
    mgr.set_metadata("thinking_level", "High");
    assert_eq!(mgr.get_metadata("thinking_level").as_deref(), Some("High"));
    mgr.set_metadata("autonomy_level", "Auto");
    assert_eq!(mgr.get_metadata("autonomy_level").as_deref(), Some("Auto"));
}

#[test]
fn test_metadata_overwrite_and_no_session() {
    let mut mgr = SessionManager::new("/tmp/sessions");
    mgr.set_metadata("mode", "PLAN");
    assert!(mgr.get_metadata("mode").is_none());
    assert!(mgr.current_session().is_none());
    let mut s = Session::new();
    s.id = "abc".to_string();
    mgr.set_current_session(s);
    mgr.set_metadata("mode", "PLAN");
    mgr.set_metadata("mode", "NORMAL");
    assert_eq!(mgr.get_metadata("mode").as_deref(), Some("NORMAL"));
    assert_eq!(mgr.current_session().unwrap().metadata.len(), 1);
    assert_eq!(mgr.current_session().unwrap().id, "abc");
}

#[test]
fn test_session_files() {
    let mgr = SessionManager::new("/tmp/sessions");
    assert_eq!(mgr.session_dir(), "/tmp/sessions");
    assert_eq!(mgr.json_file("abc"), "/tmp/sessions/abc.json");
    assert_eq!(mgr.jsonl_file("abc"), "/tmp/sessions/abc.jsonl");
    assert_eq!(mgr.temp_file("abc.json"), "/tmp/sessions/.abc.json.tmp");
}
