use kendra::message::{ApiMessage, ApiToolCall};
use kendra::validated_list::{ValidatedMessageList, SYNTHETIC_TOOL_RESULT};

fn tc(id: &str, name: &str) -> ApiToolCall {
    ApiToolCall {
        id: Some(id.to_string()),
        name: Some(name.to_string()),
        arguments: Some("{}".to_string()),
    }
}

fn pending_contains(list: &ValidatedMessageList, id: &str) -> bool {
    list.pending_tool_ids().iter().any(|p| p == id)
}

#[test]
fn test_basic_user_assistant_flow() {
    let mut list = ValidatedMessageList::new(None, false);
    list.add_user("hello");
    list.add_assistant(Some("hi there"), None);
    assert_eq!(list.len(), 2);
    assert!(!list.has_pending_tools());
}

#[test]
fn test_tool_call_flow() {
    let mut list = ValidatedMessageList::new(None, false);
    list.add_user("run ls");
    list.add_assistant(None, Some(vec![tc("tc-1", "bash")]));
    assert!(list.has_pending_tools());
    assert!(pending_contains(&list, "tc-1"));

    list.add_tool_result("tc-1", "file1.txt\nfile2.txt").unwrap();
    assert!(!list.has_pending_tools());
    assert_eq!(list.len(), 3);
}

#[test]
fn test_auto_complete_pending_on_new_user() {
    let mut list = ValidatedMessageList::new(None, false);
    list.add_assistant(None, Some(vec![tc("tc-1", "bash")]));
    assert!(list.has_pending_tools());

    list.add_user("next question");
    assert!(!list.has_pending_tools());
    assert_eq!(list.len(), 3);

    let tool_msg = &list.messages()[1];
    assert_eq!(tool_msg.role.as_deref(), Some("tool"));
    assert_eq!(tool_msg.content.as_deref(), Some(SYNTHETIC_TOOL_RESULT));
    assert_eq!(tool_msg.tool_call_id.as_deref(), Some("tc-1"));
}

#[test]
fn test_strict_mode_rejects_orphan() {
    let mut list = ValidatedMessageList::new(None, true);
    list.add_user("hello");
    let result = list.add_tool_result("nonexistent", "data");
    assert_eq!(
        result,
        Err("Orphaned tool result for id=nonexistent".to_string())
    );
    assert_eq!(list.len(), 1);
}

#[test]
fn test_permissive_mode_accepts_orphan() {
    let mut list = ValidatedMessageList::new(None, false);
    list.add_user("hello");
    let result = list.add_tool_result("nonexistent", "data");
    assert!(result.is_ok());
    assert_eq!(list.len(), 2);
}

#[test]
fn test_batch_tool_results() {
    let mut list = ValidatedMessageList::new(None, false);
    let tcs = vec![tc("tc-1", "bash"), tc("tc-2", "read_file")];
    list.add_assistant(None, Some(tcs.clone()));

    let results = vec![("tc-1".to_string(), "output1".to_string())];
    list.add_tool_results_batch(&tcs, &results);
    assert!(!list.has_pending_tools());
    assert_eq!(list.len(), 3);
    assert_eq!(list.messages()[1].content.as_deref(), Some("output1"));
    assert_eq!(list.messages()[2].content.as_deref(), Some(SYNTHETIC_TOOL_RESULT));
}

#[test]
fn test_replace_all_rebuilds_state() {
    let mut list = ValidatedMessageList::new(None, false);
    list.add_user("hello");
    list.add_assistant(None, Some(vec![tc("tc-1", "bash")]));

    list.replace_all(vec![ApiMessage::plain("user", "fresh start")]);
    assert_eq!(list.len(), 1);
    assert!(!list.has_pending_tools());
}

#[test]
fn test_initial_data_rebuild() {
    let assistant_msg = ApiMessage {
        role: Some("assistant".to_string()),
        content: Some(String::new()),
        name: None,
        tool_call_id: None,
        tool_calls: Some(vec![tc("tc-1", "bash")]),
    };
    let list = ValidatedMessageList::new(Some(vec![assistant_msg]), false);
    assert!(list.has_pending_tools());
    assert!(pending_contains(&list, "tc-1"));
}

#[test]
fn pending_ids_skip_empty_and_repeat() {
    let mut list = ValidatedMessageList::new(None, false);
    let empty_id = ApiToolCall {
        id: Some(String::new()),
        name: None,
        arguments: None,
    };
    list.add_assistant(Some("x"), Some(vec![tc("a", "t"), empty_id, tc("a", "t"), tc("b", "t")]));
    assert_eq!(list.pending_tool_ids(), vec!["a".to_string(), "b".to_string()]);
    list.add_tool_result("a", "ok").unwrap();
    assert_eq!(list.pending_tool_ids(), vec!["b".to_string()]);
    let inner = list.into_inner();
    assert_eq!(inner.len(), 2);
}
