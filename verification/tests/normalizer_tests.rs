use kendra::normalizer::{camel_to_snake, normalize_params, resolve_path, ParamValue};
use kendra::paths::normalize_path;

fn text(s: &str) -> ParamValue {
    ParamValue::Text(s.to_string())
}

fn get<'a>(params: &'a [(String, ParamValue)], key: &str) -> Option<&'a ParamValue> {
    params.iter().find(|(k, _)| k == key).map(|(_, v)| v)
}

fn text_of<'a>(params: &'a [(String, ParamValue)], key: &str) -> &'a str {
    match get(params, key) {
        Some(ParamValue::Text(s)) => s.as_str(),
        _ => panic!("no text under {key}"),
    }
}

#[test]
fn test_camel_to_snake_known() {
    assert_eq!(camel_to_snake("filePath"), Some("file_path"));
    assert_eq!(camel_to_snake("maxResults"), Some("max_results"));
    assert_eq!(camel_to_snake("sessionId"), Some("session_id"));
}

#[test]
fn test_camel_to_snake_unknown() {
    assert_eq!(camel_to_snake("file_path"), None);
    assert_eq!(camel_to_snake("unknown_key"), None);
}

#[test]
fn camel_to_snake_last_entry() {
    assert_eq!(camel_to_snake("maxTokens"), Some("max_tokens"));
    assert_eq!(camel_to_snake("imageUrl"), Some("image_url"));
}

#[test]
fn test_normalize_path() {
    assert_eq!(normalize_path("/a/b/../c"), "/a/c");
    assert_eq!(normalize_path("/a/./b/c"), "/a/b/c");
    assert_eq!(normalize_path("/a/b/c"), "/a/b/c");
}

#[test]
fn normalize_path_edges() {
    assert_eq!(normalize_path("a//b/"), "a/b");
    assert_eq!(normalize_path("/.."), "");
    assert_eq!(normalize_path("x/../../y"), "y");
}

#[test]
fn test_normalize_params_key_normalization() {
    let args = vec![
        ("filePath".to_string(), text("/tmp/test.rs")),
        ("maxResults".to_string(), ParamValue::Other(serde_json::Value::from(10))),
    ];
    let result = normalize_params("search", args, None, None, None);
    assert!(get(&result, "file_path").is_some());
    assert!(get(&result, "max_results").is_some());
    assert!(get(&result, "filePath").is_none());
}

#[test]
fn test_normalize_params_whitespace_stripping() {
    let args = vec![("query".to_string(), text("  hello world  "))];
    let result = normalize_params("search", args, None, None, None);
    assert_eq!(text_of(&result, "query"), "hello world");
}

#[test]
fn test_normalize_params_path_resolution_absolute() {
    let args = vec![("file_path".to_string(), text("/absolute/path.rs"))];
    let result = normalize_params("read_file", args, Some("/workspace"), None, None);
    assert_eq!(text_of(&result, "file_path"), "/absolute/path.rs");
}

#[test]
fn test_normalize_params_path_resolution_relative() {
    let args = vec![("file_path".to_string(), text("src/main.rs"))];
    let result = normalize_params("read_file", args, Some("/workspace"), None, None);
    assert_eq!(text_of(&result, "file_path"), "/workspace/src/main.rs");
}

#[test]
fn test_normalize_params_path_with_dotdot() {
    let args = vec![("file_path".to_string(), text("src/../lib.rs"))];
    let result = normalize_params("read_file", args, Some("/workspace"), None, None);
    assert_eq!(text_of(&result, "file_path"), "/workspace/lib.rs");
}

#[test]
fn test_normalize_params_tilde_expansion() {
    let args = vec![("file_path".to_string(), text("~/projects/test.rs"))];
    let result = normalize_params("read_file", args, Some("/workspace"), Some("/home/me"), None);
    let resolved = text_of(&result, "file_path");
    assert!(!resolved.starts_with('~'));
    assert!(resolved.ends_with("projects/test.rs"));
    assert_eq!(resolved, "/home/me/projects/test.rs");
}

#[test]
fn test_normalize_params_non_path_param_not_resolved() {
    let args = vec![("query".to_string(), text("src/main.rs"))];
    let result = normalize_params("search", args, Some("/workspace"), None, None);
    assert_eq!(text_of(&result, "query"), "src/main.rs");
}

#[test]
fn test_normalize_params_empty() {
    let result = normalize_params("test", Vec::new(), None, None, None);
    assert!(result.is_empty());
}

#[test]
fn test_normalize_params_non_string_values_preserved() {
    let args = vec![
        ("count".to_string(), ParamValue::Other(serde_json::Value::from(42))),
        ("enabled".to_string(), ParamValue::Other(serde_json::Value::from(true))),
    ];
    let result = normalize_params("test", args, None, None, None);
    match get(&result, "count") {
        Some(ParamValue::Other(v)) => assert_eq!(*v, serde_json::Value::from(42)),
        _ => panic!("count changed"),
    }
    match get(&result, "enabled") {
        Some(ParamValue::Other(v)) => assert_eq!(*v, serde_json::Value::from(true)),
        _ => panic!("enabled changed"),
    }
}

#[test]
fn normalize_params_later_key_wins() {
    let args = vec![
        ("file_path".to_string(), text("/a")),
        ("filePath".to_string(), text("/b")),
    ];
    let result = normalize_params("read_file", args, None, None, None);
    assert_eq!(result.len(), 1);
    assert_eq!(text_of(&result, "file_path"), "/b");
}

#[test]
fn resolve_path_uses_cwd_without_workspace() {
    assert_eq!(resolve_path("a/./b", None, None, Some("/cwd")), "/cwd/a/b");
    assert_eq!(resolve_path("a/b", None, None, None), "a/b");
    assert_eq!(resolve_path("~", Some("/w"), Some("/home/me"), None), "/home/me");
    assert_eq!(resolve_path("~x", Some("/w"), None, None), "/w/~x");
}
