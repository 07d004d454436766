use kendra::skills::{
    detect_source, metadata_for_file, parse_frontmatter_str, parse_simple_yaml,
    strip_frontmatter, LoadStep, ScannedSkillFile, SkillLoader, SkillSource,
};

fn yaml_get<'a>(data: &'a [(String, String)], key: &str) -> Option<&'a String> {
    data.iter().find(|(k, _)| k == key).map(|(_, v)| v)
}

fn vars(pairs: &[(&str, &str)]) -> Vec<(String, String)> {
    pairs
        .iter()
        .map(|(k, v)| (k.to_string(), v.to_string()))
        .collect()
}

fn file(path: &str, content: &str, source: SkillSource) -> ScannedSkillFile {
    ScannedSkillFile {
        path: path.to_string(),
        content: content.to_string(),
        source,
    }
}

#[test]
fn test_parse_frontmatter_basic() {
    let content = "---\nname: commit\ndescription: Git commit skill\n---\n\n# Commit\n";
    let meta = parse_frontmatter_str(content).unwrap();
    assert_eq!(meta.name, "commit");
    assert_eq!(meta.description, "Git commit skill");
    assert_eq!(meta.namespace, "default");
}

#[test]
fn test_parse_frontmatter_with_namespace() {
    let content = "---\nname: rebase\ndescription: Rebase skill\nnamespace: git\n---\n\nBody\n";
    let meta = parse_frontmatter_str(content).unwrap();
    assert_eq!(meta.name, "rebase");
    assert_eq!(meta.namespace, "git");
}

#[test]
fn test_parse_frontmatter_quoted_values() {
    let content = "---\nname: \"my-skill\"\ndescription: 'Use when testing'\n---\n\nBody\n";
    let meta = parse_frontmatter_str(content).unwrap();
    assert_eq!(meta.name, "my-skill");
    assert_eq!(meta.description, "Use when testing");
}

#[test]
fn test_parse_frontmatter_missing_returns_none() {
    let content = "# No frontmatter here\nJust a plain markdown file.\n";
    assert!(parse_frontmatter_str(content).is_none());
}

#[test]
fn test_parse_frontmatter_empty_name_fallback() {
    let content = "---\ndescription: Some skill\n---\n\nBody\n";
    let meta = parse_frontmatter_str(content).unwrap();
    assert!(meta.name.is_empty());
    assert_eq!(meta.description, "Some skill");
}

#[test]
fn parse_frontmatter_default_description() {
    let meta = parse_frontmatter_str("---\nname: lint\n---\nBody").unwrap();
    assert_eq!(meta.description, "Skill: lint");
    let meta = parse_frontmatter_str("---\n# only a comment\n---\n").unwrap();
    assert_eq!(meta.description, "Skill: unknown");
}

#[test]
fn test_strip_frontmatter() {
    let content = "---\nname: foo\n---\n\n# Title\nBody text.";
    let body = strip_frontmatter(content);
    assert!(body.starts_with("# Title"));
    assert!(!body.contains("---"));
}

#[test]
fn test_strip_frontmatter_no_frontmatter() {
    let content = "# Just markdown\nNo frontmatter.";
    let body = strip_frontmatter(content);
    assert_eq!(body, content);
}

#[test]
fn strip_frontmatter_exact_rest() {
    assert_eq!(strip_frontmatter("---\na: b\n---\n\n\nrest\n"), "rest\n");
    assert_eq!(strip_frontmatter("---\n\n---x"), "x");
}

#[test]
fn test_parse_simple_yaml() {
    let text = "name: commit\ndescription: \"Git commit\"\n# comment\nnamespace: git";
    let data = parse_simple_yaml(text);
    assert_eq!(yaml_get(&data, "name").unwrap(), "commit");
    assert_eq!(yaml_get(&data, "description").unwrap(), "Git commit");
    assert_eq!(yaml_get(&data, "namespace").unwrap(), "git");
}

#[test]
fn test_parse_simple_yaml_single_quotes() {
    let text = "name: 'my-skill'";
    let data = parse_simple_yaml(text);
    assert_eq!(yaml_get(&data, "name").unwrap(), "my-skill");
}

#[test]
fn parse_simple_yaml_later_line_wins() {
    let data = parse_simple_yaml("a: 1\nb : two : parts\n\na: 3\nno colon here");
    assert_eq!(data.len(), 2);
    assert_eq!(yaml_get(&data, "a").unwrap(), "3");
    assert_eq!(yaml_get(&data, "b").unwrap(), "two : parts");
}

#[test]
fn test_expand_variables() {
    let content = "Hello {{user}}, welcome to {{project}}.";
    let v = vars(&[("user", "Alice"), ("project", "OpenDev")]);
    let result = SkillLoader::expand_variables(content, &v);
    assert_eq!(result, "Hello Alice, welcome to OpenDev.");
}

#[test]
fn test_expand_variables_no_match() {
    let content = "No variables here.";
    let v: Vec<(String, String)> = Vec::new();
    let result = SkillLoader::expand_variables(content, &v);
    assert_eq!(result, "No variables here.");
}

#[test]
fn test_expand_variables_missing_key_left_intact() {
    let content = "Hello {{user}}, your role is {{role}}.";
    let v = vars(&[("user", "Bob")]);
    let result = SkillLoader::expand_variables(content, &v);
    assert_eq!(result, "Hello Bob, your role is {{role}}.");
}

#[test]
fn expand_variables_replaces_every_occurrence() {
    let v = vars(&[("x", "1")]);
    assert_eq!(SkillLoader::expand_variables("{{x}}{{x}} {x} {{x}", &v), "11 {x} {{x}");
}

#[test]
fn test_discover_builtin_skills() {
    let mut loader = SkillLoader::new(vec![]);
    let skills = loader.discover_skills(&[]);

    assert!(skills.len() >= 3);

    let names: Vec<&str> = skills.iter().map(|s| s.name.as_str()).collect();
    assert!(names.contains(&"commit"));
    assert!(names.contains(&"review-pr"));
    assert!(names.contains(&"create-pr"));

    for skill in &skills {
        assert_eq!(skill.source, SkillSource::Builtin);
    }
}

#[test]
fn test_discover_filesystem_skills() {
    let mut loader = SkillLoader::new(vec!["/tmp/p/skills".to_string()]);
    let scanned = vec![
        file(
            "/tmp/p/skills/deploy.md",
            "---\nname: deploy\ndescription: Deployment skill\n---\n\n# Deploy\nDeploy instructions.\n",
            SkillSource::Project,
        ),
        file(
            "/tmp/p/skills/testing/SKILL.md",
            "---\nname: testing\ndescription: Testing patterns\nnamespace: qa\n---\n\n# Testing\n",
            SkillSource::Project,
        ),
    ];
    let skills = loader.discover_skills(&[scanned]);
    let names: Vec<String> = skills.iter().map(|s| s.full_name()).collect();
    assert!(names.contains(&"deploy".to_string()));
    assert!(names.contains(&"qa:testing".to_string()));
}

#[test]
fn test_project_skill_overrides_builtin() {
    let mut loader = SkillLoader::new(vec!["/p/skills".to_string()]);
    let scanned = vec![file(
        "/p/skills/commit.md",
        "---\nname: commit\ndescription: Custom commit skill\n---\n\n# Custom Commit\nOverridden.\n",
        SkillSource::Project,
    )];
    let skills = loader.discover_skills(&[scanned]);
    let commit = skills.iter().find(|s| s.name == "commit").unwrap();
    assert_eq!(commit.description, "Custom commit skill");
    assert_ne!(commit.source, SkillSource::Builtin);
    assert_eq!(skills.iter().filter(|s| s.name == "commit").count(), 1);
}

#[test]
fn test_first_dir_has_highest_priority() {
    let mut loader = SkillLoader::new(vec!["/d1".to_string(), "/d2".to_string()]);
    // One list per directory, highest priority first.
    let scanned = vec![
        vec![file(
            "/d1/myskill.md",
            "---\nname: myskill\ndescription: From dir1 (high prio)\n---\n\nDir1 content.\n",
            SkillSource::Project,
        )],
        vec![file(
            "/d2/myskill.md",
            "---\nname: myskill\ndescription: From dir2 (low prio)\n---\n\nDir2 content.\n",
            SkillSource::Project,
        )],
    ];
    let skills = loader.discover_skills(&scanned);
    let myskill = skills.iter().find(|s| s.name == "myskill").unwrap();
    assert_eq!(myskill.description, "From dir1 (high prio)");
}

#[test]
fn test_skill_name_fallback_to_filename() {
    let meta = metadata_for_file(
        "/x/skills/my-cool-skill.md",
        "---\ndescription: A cool skill\n---\n\nContent here.\n",
    )
    .unwrap();
    assert_eq!(meta.name, "my-cool-skill");
}

#[test]
fn test_build_skills_index() {
    let mut loader = SkillLoader::new(vec![]);
    let index = loader.build_skills_index(&[]);

    assert!(index.contains("## Available Skills"));
    assert!(index.contains("**commit**"));
    assert!(index.contains("**review-pr**"));
    assert!(index.contains("invoke_skill"));
}

#[test]
fn build_skills_index_sorted_lines() {
    let mut loader = SkillLoader::new(vec!["/s".to_string()]);
    let scanned = vec![file(
        "/s/rebase.md",
        "---\nname: rebase\ndescription: Git rebase\nnamespace: git\n---\n",
        SkillSource::Project,
    )];
    let index = loader.build_skills_index(&[scanned]);
    let lines: Vec<&str> = index.split('\n').collect();
    assert_eq!(lines[0], "## Available Skills");
    assert_eq!(lines[1], "");
    assert_eq!(lines[3], "");
    assert_eq!(lines[4], "- **commit**: Git commit best practices");
    assert_eq!(lines[5], "- **create-pr**: Open a well-described pull request");
    assert!(lines[6].starts_with("- **review-pr**: "));
    assert_eq!(lines[7], "- **git:rebase**: Git rebase");
    assert_eq!(lines.len(), 8);
}

#[test]
fn test_build_skills_index_empty_when_no_skills() {
    let mut loader = SkillLoader::new(vec![]);
    let index = loader.build_skills_index(&[]);
    assert!(!index.is_empty());
}

#[test]
fn test_get_skill_names() {
    let mut loader = SkillLoader::new(vec![]);
    let names = loader.get_skill_names(&[]);
    assert!(names.contains(&"commit".to_string()));
    assert!(names.contains(&"review-pr".to_string()));
}

#[test]
fn test_clear_cache() {
    let mut loader = SkillLoader::new(vec![]);
    loader.discover_skills(&[]);
    assert!(!loader.needs_discovery());

    loader.clear_cache();
    assert!(loader.needs_discovery());
    assert_eq!(loader.cached_count(), 0);
}

#[test]
fn test_load_builtin_skill() {
    let mut loader = SkillLoader::new(vec![]);
    loader.discover_skills(&[]);
    let skill = match loader.plan_load("commit", true) {
        LoadStep::Ready { metadata, raw } => loader.complete_load("commit", metadata, &raw),
        _ => panic!("expected the built-in content"),
    };
    assert_eq!(skill.metadata.name, "commit");
    assert!(!skill.content.is_empty());
    assert!(skill.content.contains("Git Commit"));
    assert!(!skill.content.starts_with("---"));
    // A second load is served from the cache.
    assert!(matches!(loader.plan_load("commit", true), LoadStep::Cached(_)));
    assert_eq!(loader.cached_count(), 1);
}

#[test]
fn test_load_nonexistent_skill_returns_none() {
    let mut loader = SkillLoader::new(vec![]);
    loader.discover_skills(&[]);
    assert!(matches!(
        loader.plan_load("nonexistent-skill-xyz", true),
        LoadStep::NotFound
    ));
}

#[test]
fn load_asks_for_discovery_first() {
    let loader = SkillLoader::new(vec![]);
    assert!(matches!(loader.plan_load("commit", true), LoadStep::Discover));
    assert!(matches!(loader.plan_load("commit", false), LoadStep::NotFound));
}

#[test]
fn test_load_namespaced_skill() {
    let mut loader = SkillLoader::new(vec!["/s".to_string()]);
    let scanned = vec![file(
        "/s/rebase.md",
        "---\nname: rebase\ndescription: Git rebase\nnamespace: git\n---\n\n# Rebase\n",
        SkillSource::Project,
    )];
    loader.discover_skills(&[scanned]);
    for name in ["git:rebase", "rebase"] {
        match loader.plan_load(name, true) {
            LoadStep::Read { metadata, path } => {
                assert_eq!(path, "/s/rebase.md");
                assert_eq!(metadata.name, "rebase");
                assert_eq!(metadata.namespace, "git");
            }
            _ => panic!("expected a file to read"),
        }
    }
}

#[test]
fn detect_source_by_components() {
    assert_eq!(
        detect_source("/home/u/.opendev/skills", Some("/home/u")),
        SkillSource::UserGlobal
    );
    assert_eq!(
        detect_source("/home/u/.opendev/skills/sub/", Some("/home/u/")),
        SkillSource::UserGlobal
    );
    assert_eq!(
        detect_source("/home/u/.opendev/skillsX", Some("/home/u")),
        SkillSource::Project
    );
    assert_eq!(detect_source("/proj/.opendev/skills", None), SkillSource::Project);
}

#[test]
fn test_clear_cache_rescans_current_files() {
    let mut loader = SkillLoader::new(vec!["/s".to_string()]);
    let first = vec![file("/s/a.md", "---\nname: alpha\ndescription: A\n---\n", SkillSource::Project)];
    let names = loader.get_skill_names(&[first]);
    assert!(names.contains(&"alpha".to_string()));
    // Without clearing, the catalog is kept even if the files changed.
    let second = vec![file("/s/b.md", "---\nname: beta\ndescription: B\n---\n", SkillSource::Project)];
    let names = loader.get_skill_names(&[second.clone()]);
    assert!(names.contains(&"alpha".to_string()));
    assert!(!names.contains(&"beta".to_string()));
    loader.clear_cache();
    assert!(loader.needs_discovery());
    assert_eq!(loader.cached_count(), 0);
    let names = loader.get_skill_names(&[second]);
    assert!(names.contains(&"beta".to_string()));
    assert!(!names.contains(&"alpha".to_string()));
}
