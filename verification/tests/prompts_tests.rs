use kendra::prompts::PromptLoader;

#[test]
fn test_get_prompt_path_txt_when_no_md() {
    let loader = PromptLoader::new("/tmp/templates");
    let path = loader.get_prompt_path("prompt", false);
    assert!(path.ends_with(".txt"));
    assert_eq!(path, "/tmp/templates/prompt.txt");
}

#[test]
fn test_get_prompt_path_md() {
    let loader = PromptLoader::new("/tmp/templates/");
    let path = loader.get_prompt_path("prompt", true);
    assert!(path.ends_with(".md"));
    assert_eq!(path, "/tmp/templates/prompt.md");
    assert_eq!(loader.md_path("system/compaction"), "/tmp/templates/system/compaction.md");
    assert_eq!(loader.templates_dir(), "/tmp/templates/");
}

#[test]
fn test_tool_description_name() {
    assert_eq!(PromptLoader::tool_description_name("read_file"), "tools/tool-read-file");
    assert_eq!(PromptLoader::tool_description_name("custom_tool_x"), "tools/tool-custom-tool-x");
    assert_eq!(PromptLoader::tool_description_name("bash"), "tools/tool-bash");
}

#[test]
fn test_load_prompt_with_fallback() {
    let loader = PromptLoader::new("/tmp/templates");
    match loader.resolve_prompt("missing", false, false, false, Some("fallback text")) {
        kendra::prompts::PromptSource::Fallback(t) => assert_eq!(t, "fallback text"),
        other => panic!("unexpected {:?}", other),
    }
}

#[test]
fn test_resolve_prompt_order() {
    let loader = PromptLoader::new("/tmp/templates");
    match loader.resolve_prompt("tools/tool-read-file", true, false, true, None) {
        kendra::prompts::PromptSource::Embedded { key } => assert_eq!(key, "tools/tool-read-file.md"),
        other => panic!("unexpected {:?}", other),
    }
    match loader.resolve_prompt("both", true, true, false, None) {
        kendra::prompts::PromptSource::File { path, markdown } => {
            assert_eq!(path, "/tmp/templates/both.md");
            assert!(markdown);
        }
        other => panic!("unexpected {:?}", other),
    }
    match loader.resolve_prompt("legacy", false, true, false, None) {
        kendra::prompts::PromptSource::File { path, markdown } => {
            assert_eq!(path, "/tmp/templates/legacy.txt");
            assert!(!markdown);
        }
        other => panic!("unexpected {:?}", other),
    }
    match loader.resolve_prompt("system/compaction", false, false, true, Some("fb")) {
        kendra::prompts::PromptSource::Embedded { key } => assert_eq!(key, "system/compaction.md"),
        other => panic!("unexpected {:?}", other),
    }
    match loader.resolve_prompt("nonexistent", false, false, false, None) {
        kendra::prompts::PromptSource::NotFound(p) => assert_eq!(p, "/tmp/templates/nonexistent.txt"),
        other => panic!("unexpected {:?}", other),
    }
}

#[test]
fn test_tool_description_source_order() {
    let loader = PromptLoader::new("/tmp/templates");
    match loader.load_tool_description("read_file", true, false, true) {
        kendra::prompts::PromptSource::Embedded { key } => assert_eq!(key, "tools/tool-read-file.md"),
        other => panic!("unexpected {:?}", other),
    }
    match loader.load_tool_description("custom_tool", true, false, false) {
        kendra::prompts::PromptSource::File { path, .. } => assert_eq!(path, "/tmp/templates/tools/tool-custom-tool.md"),
        other => panic!("unexpected {:?}", other),
    }
    match loader.load_prompt("nonexistent", false, false, false) {
        kendra::prompts::PromptSource::NotFound(p) => assert_eq!(p, "/tmp/templates/nonexistent.txt"),
        other => panic!("unexpected {:?}", other),
    }
}
