use llama_nexus::cli::skill::{
    info_target, local_info, pad, rule, shorten, skill_rows, skills_dir, sort_by_name, total_line,
    InfoTarget, SkillCommand,
};
use llama_nexus::clock::Timestamp;
use llama_nexus::executor::types::ExecutionError;
use llama_nexus::skills::error::SkillError;
use llama_nexus::skills::loader::{ReferenceFile, SkillLoader};
use llama_nexus::skills::parser::SkillParser;
use llama_nexus::skills::registry::SkillRegistry;
use llama_nexus::skills::types::{LoadedSkill, ScriptInfo, SkillMetadata};
use llama_nexus::skills::validator::{
    validate_compatibility, validate_description, validate_skill_name,
};
use llama_nexus::text_map::TextMap;

fn metadata(name: &str, description: &str) -> SkillMetadata {
    SkillMetadata {
        name: name.to_string(),
        description: description.to_string(),
        license: None,
        compatibility: None,
        metadata: None,
        allowed_tools: None,
        model: None,
    }
}

fn skill(name: &str) -> LoadedSkill {
    LoadedSkill {
        metadata: metadata(name, "Test skill"),
        content: String::new(),
        raw_content: String::new(),
        skill_dir: format!("/skills/{name}"),
        file_path: format!("/skills/{name}/SKILL.md"),
        enabled: true,
        loaded_at: Timestamp { secs: 0, nanos: 0 },
        scripts: Vec::new(),
    }
}

fn parse(
    content: &str,
    skill_dir: &str,
    dir_name: &str,
    metadata: SkillMetadata,
) -> Result<LoadedSkill, SkillError> {
    SkillParser::parse(content, skill_dir, Some(dir_name), Ok(metadata), Vec::new())
}

#[test]
fn test_parse_valid_skill() {
    let content = r#"---
name: weather-query
description: Query weather information for cities
---

# Weather Query Skill

This skill helps query weather.
"#;
    let (front, _) = SkillParser::split_front_matter(content).unwrap();
    assert_eq!(
        front,
        "name: weather-query\ndescription: Query weather information for cities"
    );
    let result = parse(
        content,
        "/skills/weather-query",
        "weather-query",
        metadata("weather-query", "Query weather information for cities"),
    );

    assert!(result.is_ok());
    let skill = result.unwrap();
    assert_eq!(skill.metadata.name, "weather-query");
    assert_eq!(
        skill.metadata.description,
        "Query weather information for cities"
    );
    assert!(skill.content.contains("# Weather Query Skill"));
    assert_eq!(skill.file_path, "/skills/weather-query/SKILL.md");
    assert!(skill.enabled);
    assert!(skill.loaded_at.secs > 1_600_000_000);
}

#[test]
fn test_parse_with_all_fields() {
    let content = r#"---
name: code-review
description: Review code changes and provide feedback
license: MIT
compatibility: Requires git installed
allowed-tools: git-diff git-show
metadata:
  author: llama-nexus
  version: "1.0"
model: review-model-1
---

# Code Review Skill
"#;
    let mut m = metadata("code-review", "Review code changes and provide feedback");
    m.license = Some("MIT".to_string());
    m.compatibility = Some("Requires git installed".to_string());
    m.allowed_tools = Some("git-diff git-show".to_string());
    m.model = Some("review-model-1".to_string());
    let mut more = TextMap::new();
    more.insert("author".to_string(), "llama-nexus".to_string());
    more.insert("version".to_string(), "1.0".to_string());
    m.metadata = Some(more);
    let result = parse(content, "/skills/code-review", "code-review", m);

    assert!(result.is_ok());
    let skill = result.unwrap();
    assert_eq!(skill.metadata.name, "code-review");
    assert_eq!(skill.metadata.license, Some("MIT".to_string()));
    assert_eq!(
        skill.metadata.compatibility,
        Some("Requires git installed".to_string())
    );
    assert_eq!(
        skill.metadata.get_allowed_tools(),
        vec!["git-diff", "git-show"]
    );
    assert_eq!(skill.metadata.model, Some("review-model-1".to_string()));

    let meta = skill.metadata.metadata.unwrap();
    assert_eq!(meta.get("author"), Some(&"llama-nexus".to_string()));
}

#[test]
fn test_parse_missing_front_matter() {
    let content = "# No front matter";
    let result = parse(content, "/skills/test", "test", metadata("test", "Test"));

    assert!(matches!(result, Err(SkillError::ParseError(_))));
}

#[test]
fn test_parse_unclosed_front_matter() {
    let content = r#"---
name: test
description: Test
"#;

    let result = parse(content, "/skills/test", "test", metadata("test", "Test"));

    assert!(matches!(result, Err(SkillError::ParseError(_))));
}

#[test]
fn test_parse_name_mismatch() {
    let content = r#"---
name: different-name
description: Test skill
---
"#;

    let result = parse(
        content,
        "/skills/actual-name",
        "actual-name",
        metadata("different-name", "Test skill"),
    );

    assert!(matches!(
        result,
        Err(SkillError::NameDirectoryMismatch { .. })
    ));
}

#[test]
fn test_parse_invalid_name() {
    let content = r#"---
name: Invalid-Name
description: Test skill
---
"#;

    let result = parse(
        content,
        "/skills/Invalid-Name",
        "Invalid-Name",
        metadata("Invalid-Name", "Test skill"),
    );

    assert!(matches!(result, Err(SkillError::InvalidName { .. })));
}

#[test]
fn test_parse_empty_description() {
    let content = r#"---
name: test
description: ""
---
"#;

    let result = parse(content, "/skills/test", "test", metadata("test", ""));

    assert!(matches!(result, Err(SkillError::InvalidDescription(_))));
}

#[test]
fn test_split_front_matter() {
    let content = r#"---
key: value
---

Body content here.
"#;

    let (front, body) = SkillParser::split_front_matter(content).unwrap();
    assert_eq!(front, "key: value");
    assert_eq!(body, "Body content here.");
}

#[test]
fn front_matter_errors_in_words() {
    let wrong = |s: &str| match SkillParser::split_front_matter(s) {
        Err(SkillError::ParseError(m)) => m,
        other => panic!("{other:?}"),
    };
    assert_eq!(wrong("text"), "SKILL.md must start with YAML front matter (---)");
    assert_eq!(
        wrong("---\nname: x"),
        "SKILL.md front matter not properly closed (missing ---)"
    );
    assert_eq!(wrong("---\n  \n---\nbody"), "YAML front matter cannot be empty");
    assert_eq!(wrong("--- ---"), "YAML front matter cannot be empty");
}

#[test]
fn unreadable_front_matter_is_told() {
    let r = SkillParser::parse(
        "---\n: :\n---\n",
        "/skills/x",
        Some("x"),
        Err("bad yaml".to_string()),
        vec![],
    );
    assert!(matches!(r, Err(SkillError::YamlError(m)) if m == "bad yaml"));
}

#[test]
fn long_compatibility_is_refused() {
    let mut m = metadata("x", "d");
    m.compatibility = Some("a".repeat(501));
    let r = parse("---\nk: v\n---\n", "/skills/x", "x", m);
    assert!(matches!(r, Err(SkillError::InvalidCompatibility(_))));
}

#[test]
fn fields_have_their_limits() {
    assert!(validate_skill_name("a", None).is_ok());
    assert!(validate_skill_name(&"a".repeat(64), None).is_ok());
    assert!(validate_skill_name(&"a".repeat(65), None).is_err());
    assert!(validate_skill_name("", None).is_err());
    assert!(validate_skill_name("with space", None).is_err());
    assert!(validate_skill_name("x-1", Some("x-1")).is_ok());
    assert!(validate_description(&"é".repeat(1024)).is_ok());
    assert!(validate_description(&"é".repeat(1025)).is_err());
    assert!(validate_compatibility("").is_ok());
    assert!(validate_compatibility(&"x".repeat(500)).is_ok());
    assert_eq!(
        validate_skill_name("b", Some("a")).unwrap_err().message(),
        "Skill name 'b' does not match its directory 'a'"
    );
}

#[test]
fn test_registry_new() {
    let registry = SkillRegistry::new("/skills".to_string());

    assert_eq!(registry.count(), 0);
}

#[test]
fn test_load_all_with_skills() {
    let mut registry = SkillRegistry::new("/skills".to_string());
    let count = registry.load_all(vec![
        Ok(skill("skill-one")),
        Err(SkillError::ParseError("x".to_string())),
        Ok(skill("skill-two")),
    ]);

    assert_eq!(count, 2);
    assert_eq!(registry.count(), 2);
}

#[test]
fn test_get_skill() {
    let mut registry = SkillRegistry::new("/skills".to_string());
    registry.load_all(vec![Ok(skill("my-skill"))]);

    let skill = registry.get("my-skill");
    assert!(skill.is_some());
    assert_eq!(skill.unwrap().metadata.name, "my-skill");
    assert!(registry.get("nonexistent").is_none());
}

#[test]
fn test_exists() {
    let mut registry = SkillRegistry::new("/skills".to_string());
    registry.load_all(vec![Ok(skill("test-skill"))]);

    assert!(registry.contains("test-skill"));
    assert!(!registry.contains("other-skill"));
}

#[test]
fn test_get_summaries() {
    let mut registry = SkillRegistry::new("/skills".to_string());
    registry.load_all(vec![Ok(skill("skill-a")), Ok(skill("skill-b"))]);

    let summaries = registry.get_summaries();
    assert_eq!(summaries.len(), 2);
}

#[test]
fn test_list_names() {
    let mut registry = SkillRegistry::new("/skills".to_string());
    registry.load_all(vec![Ok(skill("alpha")), Ok(skill("beta"))]);

    let names = registry.list_names();
    assert_eq!(names.len(), 2);
    assert!(names.contains(&"alpha".to_string()));
    assert!(names.contains(&"beta".to_string()));
}

#[test]
fn test_set_enabled() {
    let mut registry = SkillRegistry::new("/skills".to_string());
    registry.load_all(vec![Ok(skill("toggle-skill"))]);

    // Initially enabled
    assert!(registry.get("toggle-skill").unwrap().enabled);

    // Disable
    registry.set_enabled("toggle-skill", false).unwrap();
    assert!(!registry.get("toggle-skill").unwrap().enabled);

    // Summaries should exclude disabled skills
    let summaries = registry.get_summaries();
    assert_eq!(summaries.len(), 0);

    registry.set_enabled("toggle-skill", true).unwrap();
    assert_eq!(registry.get_summaries().len(), 1);
    assert_eq!(registry.get_summaries()[0].name, "toggle-skill");
    assert!(matches!(
        registry.set_enabled("nope", true),
        Err(SkillError::NotFound(n)) if n == "nope"
    ));
}

#[test]
fn skills_are_read_again() {
    let mut registry = SkillRegistry::new("/skills".to_string());
    registry.load_all(vec![Ok(skill("a")), Ok(skill("b"))]);
    assert_eq!(registry.skill_path("a"), "/skills/a");
    let mut changed = skill("a");
    changed.content = "new".to_string();
    registry.reload("a", Some(Ok(changed))).unwrap();
    assert_eq!(registry.get("a").unwrap().content, "new");
    assert!(matches!(registry.reload("a", None), Err(SkillError::NotFound(_))));
    assert!(matches!(
        registry.reload("a", Some(Err(SkillError::YamlError("y".to_string())))),
        Err(SkillError::YamlError(_))
    ));
    assert_eq!(registry.reload_all(vec![Ok(skill("c"))]), 1);
    assert_eq!(registry.list_names(), vec!["c"]);
}

#[test]
fn test_has_resources() {
    assert!(!SkillLoader::has_resources(false, false, false));
    assert!(SkillLoader::has_resources(true, false, false));
    assert!(SkillLoader::has_resources(false, true, false));
    assert!(SkillLoader::has_resources(false, false, true));
}

#[test]
fn references_are_markdown_or_text() {
    let file = |ext: &str, content: Option<&str>| ReferenceFile {
        extension: ext.to_string(),
        content: content.map(|c| c.to_string()),
    };
    assert_eq!(
        SkillLoader::load_references(&vec![
            file("md", Some("a")),
            file("py", Some("b")),
            file("txt", None),
            file("txt", Some("c")),
        ]),
        vec!["a", "c"]
    );
    assert_eq!(SkillLoader::asset_path("/s", "t.html"), "/s/assets/t.html");
}

#[test]
fn scripts_are_executable_by_their_mode() {
    assert!(SkillLoader::is_executable(Some(0o755)));
    assert!(SkillLoader::is_executable(Some(0o100)));
    assert!(!SkillLoader::is_executable(Some(0o644)));
    assert!(!SkillLoader::is_executable(None));
    let s = SkillLoader::script_info(None, "/p".to_string(), true);
    assert_eq!((s.name.as_str(), s.path.as_str(), s.executable), ("", "/p", true));
    let s = SkillLoader::script_info(Some("n".to_string()), "/p".to_string(), false);
    assert_eq!((s.name.as_str(), s.executable), ("n", false));
}

#[test]
fn scripts_are_executable_by_their_extension() {
    for e in ["exe", "EXE", "bat", "Cmd", "PS1"] {
        assert!(SkillLoader::is_executable_by_extension(Some(e)), "{e}");
    }
    for e in ["", "py", "exe2", "sh"] {
        assert!(!SkillLoader::is_executable_by_extension(Some(e)), "{e}");
    }
    assert!(!SkillLoader::is_executable_by_extension(None));
}

#[test]
fn scripts_are_prepared_with_their_variables() {
    let mut s = skill("x");
    s.scripts = vec![ScriptInfo {
        name: "run.py".to_string(),
        path: "/skills/x/scripts/run.py".to_string(),
        executable: true,
    }];
    let mut more = TextMap::new();
    more.insert("SKILL_NAME".to_string(), "other".to_string());
    more.insert("EXTRA".to_string(), "1".to_string());
    let run = s.prepare_script("run.py", &more, true).unwrap();
    assert_eq!(run.script.name, "run.py");
    let get = |k: &str| run.env.get(k).cloned().unwrap();
    assert_eq!(get("SKILL_DIR"), "/skills/x");
    assert_eq!(get("SKILL_NAME"), "other");
    assert_eq!(get("SCRIPT_NAME"), "run.py");
    assert_eq!(get("EXTRA"), "1");
    assert_eq!(run.env.len(), 6);
    assert!(matches!(
        s.prepare_script("no.py", &more, true),
        Err(ExecutionError::ScriptNotFound(p)) if p == "/skills/x/scripts/no.py"
    ));
    assert!(matches!(
        s.prepare_script("run.py", &more, false),
        Err(ExecutionError::ConfigError(m)) if m == "Executor manager not initialized"
    ));
}

#[test]
fn directories_of_skills() {
    let s = |t: &str| Some(t.to_string());
    assert_eq!(skills_dir(&s("/given"), &s("/conf"), &s("/home")), "/given");
    assert_eq!(skills_dir(&None, &s("/conf"), &s("/home")), "/conf");
    assert_eq!(skills_dir(&None, &None, &s("/home")), "/home/.llama-nexus/skills");
    assert_eq!(skills_dir(&None, &None, &None), "./.llama-nexus/skills");
    assert!(matches!(info_target("skillsmp:a"), InfoTarget::Remote(n) if n == "a"));
    assert!(matches!(info_target("a"), InfoTarget::Local(n) if n == "a"));
    let c = SkillCommand::List { remote: false, category: None, limit: 10 };
    assert!(matches!(c, SkillCommand::List { limit: 10, .. }));
}

#[test]
fn tables_of_skills() {
    assert_eq!(pad("ab", 4), "ab  ");
    assert_eq!(pad("éé", 4), format!("{:<4}", "éé"));
    assert_eq!(pad("abcdef", 4), "abcdef");
    assert_eq!(rule(5), "-----");
    assert_eq!(shorten("short"), "short");
    assert_eq!(shorten(&"x".repeat(47)), "x".repeat(47));
    assert_eq!(shorten(&"x".repeat(48)), format!("{}...", "x".repeat(47)));
    let pair = |n: &str, d: &str| (n.to_string(), d.to_string());
    let sorted = sort_by_name(&vec![pair("b", "2"), pair("a", "1"), pair("ab", "3"), pair("", "0")]);
    assert_eq!(
        sorted.iter().map(|p| p.0.as_str()).collect::<Vec<_>>(),
        vec!["", "a", "ab", "b"]
    );
    let sorted = sort_by_name(&vec![pair("b", "1"), pair("a", "2"), pair("b", "3"), pair("a", "4")]);
    assert_eq!(
        sorted.iter().map(|p| p.1.as_str()).collect::<Vec<_>>(),
        vec!["2", "4", "1", "3"]
    );
    let rows = skill_rows(&vec![pair("name", "desc")], 25);
    assert_eq!(rows[0], format!("{:<25} {:<50}", "name", "desc"));
    assert_eq!(total_line(3), "\nTotal: 3 skill(s)");
}

#[test]
fn skill_is_told_line_by_line() {
    let mut s = skill("x");
    s.metadata.license = Some("MIT".to_string());
    s.metadata.allowed_tools = Some("a, b".to_string());
    s.scripts = vec![ScriptInfo { name: "r.py".to_string(), path: String::new(), executable: true }];
    assert_eq!(
        local_info(&s, "/skills/x"),
        vec![
            "Name:        x",
            "Description: Test skill",
            "Enabled:     true",
            "License:     MIT",
            "Tools:       a, b",
            "Available:   r.py",
            "Path:        /skills/x",
        ]
    );
}

#[test]
fn scripts_are_supported_by_their_extension() {
    let mut s = skill("x");
    let script = |name: &str| ScriptInfo {
        name: name.to_string(),
        path: format!("/skills/x/scripts/{name}"),
        executable: true,
    };
    s.scripts = vec![script("run.py"), script("run"), script("a.tar.gz"), script(".sh")];
    let registered = vec!["py".to_string(), "gz".to_string(), "sh".to_string()];
    assert!(s.is_script_supported("run.py", Some(&registered)));
    assert!(s.is_script_supported("a.tar.gz", Some(&registered)));
    assert!(!s.is_script_supported("run", Some(&registered)));
    assert!(!s.is_script_supported(".sh", Some(&registered)));
    assert!(!s.is_script_supported("none.py", Some(&registered)));
    assert!(!s.is_script_supported("run.py", Some(&vec![])));
    assert!(!s.is_script_supported("run.py", None));
}

#[test]
fn switched_skills_show_in_the_summaries() {
    let mut registry = SkillRegistry::new("/skills".to_string());
    registry.load_all(vec![Ok(skill("a")), Ok(skill("b")), Ok(skill("c"))]);
    registry.set_enabled("c", false).unwrap();
    for enabled in [false, true, true, false] {
        registry.set_enabled("b", enabled).unwrap();
        let told: Vec<String> = registry.get_summaries().into_iter().map(|s| s.name).collect();
        assert_eq!(told.contains(&"b".to_string()), enabled);
        assert!(told.contains(&"a".to_string()) && !told.contains(&"c".to_string()));
        for name in ["a", "b", "c"] {
            assert_eq!(registry.get(name).unwrap().metadata.name, name);
        }
    }
    assert!(registry.set_enabled("d", true).is_err());
    assert_eq!(registry.count(), 3);
}
