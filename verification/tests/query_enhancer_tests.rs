use kendra::json::JsonValue;
use kendra::query_enhancer::{strip_at_references, ImageBlock, QueryEnhancer};

fn s(t: &str) -> JsonValue {
    JsonValue::Str(t.to_string())
}

fn obj(fields: &[(&str, JsonValue)]) -> JsonValue {
    let mut fs = Vec::new();
    for (k, v) in fields {
        fs.push((k.to_string(), clone_json(v)));
    }
    JsonValue::Object(fs)
}

fn clone_json(v: &JsonValue) -> JsonValue {
    v.duplicate()
}

fn msg(role: &str, content: &str) -> JsonValue {
    obj(&[("role", s(role)), ("content", s(content))])
}

fn field<'a>(v: &'a JsonValue, key: &str) -> &'a JsonValue {
    v.get(key).expect("field present")
}

fn text<'a>(v: &'a JsonValue, key: &str) -> &'a str {
    v.get_str(key).expect("string field")
}

fn tmp_enhancer() -> QueryEnhancer {
    QueryEnhancer::new("/tmp/project")
}

// -- enhance_query ----------------------------------------------------------

#[test]
fn test_enhance_query_no_refs() {
    let enh = tmp_enhancer();
    let (enhanced, images) = enh.enhance_query("just a plain query", "", Vec::new());
    assert_eq!(enhanced, "just a plain query");
    assert!(images.is_empty());
}

#[test]
fn test_enhance_query_strips_at_unquoted() {
    let enh = tmp_enhancer();
    let (enhanced, _) = enh.enhance_query("look at @main.py please", "", Vec::new());
    assert!(!enhanced.contains("@main.py"));
    assert!(enhanced.contains("main.py"));
}

#[test]
fn test_enhance_query_strips_at_quoted() {
    let enh = tmp_enhancer();
    let (enhanced, _) = enh.enhance_query(r#"check @"my file.py" now"#, "", Vec::new());
    assert!(!enhanced.contains("@\""));
    assert!(enhanced.contains("my file.py"));
}

#[test]
fn test_enhance_query_preserves_email() {
    let enh = tmp_enhancer();
    let (enhanced, _) = enh.enhance_query("send to user@example.com", "", Vec::new());
    assert!(enhanced.contains("user@example.com"));
}

#[test]
fn test_enhance_query_appends_injected_text() {
    let enh = tmp_enhancer();
    let (enhanced, images) = enh.enhance_query(
        "explain @hello.rs",
        "<file_content path=\"hello.rs\">fn main() {}</file_content>",
        Vec::new(),
    );
    assert_eq!(
        enhanced,
        "explain hello.rs\n\n<file_content path=\"hello.rs\">fn main() {}</file_content>"
    );
    assert!(images.is_empty());
}

#[test]
fn test_enhance_query_keeps_image_blocks() {
    let enh = tmp_enhancer();
    let blocks = vec![ImageBlock { media_type: "image/png".to_string(), data: "AAAA".to_string() }];
    let (_, images) = enh.enhance_query("analyze @pic.png", "<image path=\"pic.png\"/>", blocks);
    assert_eq!(images.len(), 1);
    assert_eq!(images[0].media_type, "image/png");
}

#[test]
fn test_strip_at_references_exact() {
    assert_eq!(strip_at_references("look at @main.py please"), "look at main.py please");
    assert_eq!(strip_at_references(r#"check @"my file.py" now"#), "check my file.py now");
    assert_eq!(strip_at_references("@src/lib.rs and\t@a-b_c.d"), "src/lib.rs and\ta-b_c.d");
    assert_eq!(strip_at_references("send to user@example.com"), "send to user@example.com");
    assert_eq!(strip_at_references("lone @ sign"), "lone @ sign");
    assert_eq!(strip_at_references(r#"empty @"" quote"#), r#"empty @"" quote"#);
    assert_eq!(strip_at_references(r#"open @"never closed"#), r#"open @"never closed"#);
    assert_eq!(strip_at_references("@a@b"), "a@b");
    assert_eq!(strip_at_references(""), "");
}

// -- prepare_messages -------------------------------------------------------

#[test]
fn test_prepare_messages_basic() {
    let enh = tmp_enhancer();
    let msgs = enh.prepare_messages("hello", "hello", "You are helpful.", None, &[], false, None);
    assert_eq!(msgs.len(), 1);
    assert_eq!(text(&msgs[0], "role"), "system");
    assert_eq!(text(&msgs[0], "content"), "You are helpful.");
}

#[test]
fn test_prepare_messages_with_session() {
    let enh = tmp_enhancer();
    let session = vec![msg("user", "hi"), msg("assistant", "hello")];
    let msgs = enh.prepare_messages("hi", "hi", "system prompt", Some(&session), &[], false, None);
    assert_eq!(msgs.len(), 3);
    assert_eq!(text(&msgs[0], "role"), "system");
    assert_eq!(text(&msgs[1], "role"), "user");
    assert_eq!(text(&msgs[2], "role"), "assistant");
}

#[test]
fn test_prepare_messages_replaces_enhanced_content() {
    let enh = tmp_enhancer();
    let session = vec![msg("user", "look at @foo.py")];
    let msgs = enh.prepare_messages(
        "look at @foo.py",
        "look at foo.py\n\n<file_content>...</file_content>",
        "sys",
        Some(&session),
        &[],
        false,
        None,
    );
    let user_msg = &msgs[1];
    assert_eq!(text(user_msg, "role"), "user");
    assert!(text(user_msg, "content").contains("<file_content>"));
}

#[test]
fn test_prepare_messages_thinking_placeholder() {
    let enh = tmp_enhancer();

    let msgs =
        enh.prepare_messages("q", "q", "Do this: {thinking_instruction}", None, &[], true, None);
    let content = text(&msgs[0], "content");
    assert!(content.contains("reasoning"));
    assert!(!content.contains("{thinking_instruction}"));

    let msgs =
        enh.prepare_messages("q", "q", "Do this: {thinking_instruction}", None, &[], false, None);
    let content = text(&msgs[0], "content");
    assert!(content.contains("directly"));
    assert!(!content.contains("{thinking_instruction}"));
}

#[test]
fn test_prepare_messages_playbook_context() {
    let enh = tmp_enhancer();
    let msgs = enh.prepare_messages(
        "q",
        "q",
        "base prompt",
        None,
        &[],
        false,
        Some("- Always run tests before committing"),
    );
    let content = text(&msgs[0], "content");
    assert!(content.contains("## Learned Strategies"));
    assert!(content.contains("Always run tests before committing"));
}

#[test]
fn test_prepare_messages_multimodal_images() {
    let enh = tmp_enhancer();
    let session = vec![msg("user", "analyze this image")];
    let images =
        vec![ImageBlock { media_type: "image/png".to_string(), data: "base64data".to_string() }];
    let msgs = enh.prepare_messages(
        "analyze this image",
        "analyze this image",
        "sys",
        Some(&session),
        &images,
        false,
        None,
    );
    let user_content = field(&msgs[1], "content");
    match user_content {
        JsonValue::Array(blocks) => {
            assert_eq!(blocks.len(), 2);
            assert_eq!(text(&blocks[0], "type"), "text");
            assert_eq!(text(&blocks[1], "type"), "image");
        }
        _ => panic!("expected an array of content blocks"),
    }
}

#[test]
fn test_prepare_messages_exact_system_text() {
    let enh = tmp_enhancer();
    let msgs = enh.prepare_messages(
        "q",
        "q",
        "Rules: {thinking_instruction}  \n",
        None,
        &[],
        false,
        Some("- keep it short"),
    );
    assert_eq!(
        text(&msgs[0], "content"),
        "Rules: Proceed directly with your response without showing internal reasoning.\n\n## Learned Strategies\n- keep it short"
    );
}

#[test]
fn test_prepare_messages_updates_existing_system_message() {
    let enh = tmp_enhancer();
    let session = vec![msg("system", "old"), msg("user", "u1"), msg("assistant", "a"), msg("user", "u2")];
    let msgs = enh.prepare_messages("u2", "u2 enhanced", "new", Some(&session), &[], false, Some(""));
    assert_eq!(msgs.len(), 4);
    assert_eq!(text(&msgs[0], "content"), "new");
    assert_eq!(text(&msgs[1], "content"), "u1");
    assert_eq!(text(&msgs[3], "content"), "u2 enhanced");
}

#[test]
fn test_prepare_messages_image_block_shape() {
    let enh = tmp_enhancer();
    let images = vec![ImageBlock { media_type: "image/jpeg".to_string(), data: "Zm9v".to_string() }];
    let session = vec![msg("user", "see")];
    let msgs = enh.prepare_messages("see", "see", "sys", Some(&session), &images, false, None);
    match field(&msgs[1], "content") {
        JsonValue::Array(blocks) => {
            assert_eq!(text(&blocks[0], "text"), "see");
            let source = field(&blocks[1], "source");
            assert_eq!(text(source, "type"), "base64");
            assert_eq!(text(source, "media_type"), "image/jpeg");
            assert_eq!(text(source, "data"), "Zm9v");
        }
        _ => panic!("expected an array of content blocks"),
    }
}

// -- format_messages_summary ------------------------------------------------

#[test]
fn test_format_messages_summary_empty() {
    let summary = QueryEnhancer::format_messages_summary(&[], 60).unwrap();
    assert_eq!(summary, "0 messages");
}

#[test]
fn test_format_messages_summary_basic() {
    let msgs = vec![msg("system", "You are helpful."), msg("user", "Hello world")];
    let summary = QueryEnhancer::format_messages_summary(&msgs, 60).unwrap();
    assert!(summary.starts_with("2 messages:"));
    assert!(summary.contains("system:"));
    assert!(summary.contains("user:"));
    assert_eq!(summary, "2 messages: system: You are helpful. | user: Hello world");
}

#[test]
fn test_format_messages_summary_truncates() {
    let msgs = vec![msg("user", &"a]".repeat(100))];
    let summary = QueryEnhancer::format_messages_summary(&msgs, 10).unwrap();
    assert!(summary.contains("..."));
    assert_eq!(summary, "1 messages: user: a]a]a]a]a]...");
}

#[test]
fn test_format_messages_summary_other_content() {
    let msgs = vec![
        obj(&[("role", s("tool")), ("content", JsonValue::Null)]),
        obj(&[("content", JsonValue::Array(vec![s("x"), s("y")]))]),
        obj(&[("role", s("user"))]),
        obj(&[("role", s("user")), ("content", obj(&[("k", JsonValue::Number("1".to_string()))]))]),
    ];
    let summary = QueryEnhancer::format_messages_summary(&msgs, 60).unwrap();
    assert_eq!(
        summary,
        "4 messages: tool: null | unknown: [2 blocks] | user:  | user: {\"k\":1}"
    );
}

#[test]
fn test_format_messages_summary_cut_inside_char() {
    let msgs = vec![msg("user", "héllo")];
    assert!(QueryEnhancer::format_messages_summary(&msgs, 2).is_none());
    let summary = QueryEnhancer::format_messages_summary(&msgs, 3).unwrap();
    assert_eq!(summary, "1 messages: user: hé...");
}
