use llama_nexus::clock::Timestamp;
use llama_nexus::skills::types::{LoadedSkill, ScriptInfo, SkillMetadata, SkillSummary};

#[test]
fn test_get_allowed_tools_space_separated() {
    let metadata = SkillMetadata {
        name: "test".to_string(),
        description: "test".to_string(),
        license: None,
        compatibility: None,
        metadata: None,
        allowed_tools: Some("tool1 tool2 tool3".to_string()),
        model: None,
    };

    let tools = metadata.get_allowed_tools();
    assert_eq!(tools, vec!["tool1", "tool2", "tool3"]);
}

#[test]
fn test_get_allowed_tools_empty() {
    let metadata = SkillMetadata {
        name: "test".to_string(),
        description: "test".to_string(),
        license: None,
        compatibility: None,
        metadata: None,
        allowed_tools: None,
        model: None,
    };

    let tools = metadata.get_allowed_tools();
    assert!(tools.is_empty());
}

#[test]
fn test_get_allowed_tools_with_extra_whitespace() {
    let metadata = SkillMetadata {
        name: "test".to_string(),
        description: "test".to_string(),
        license: None,
        compatibility: None,
        metadata: None,
        allowed_tools: Some("  tool1   tool2  ".to_string()),
        model: None,
    };

    let tools = metadata.get_allowed_tools();
    assert_eq!(tools, vec!["tool1", "tool2"]);
}

#[test]
fn test_skill_summary_from_loaded_skill() {
    let skill = LoadedSkill {
        metadata: SkillMetadata {
            name: "weather-query".to_string(),
            description: "Query weather information".to_string(),
            license: None,
            compatibility: None,
            metadata: None,
            allowed_tools: None,
            model: None,
        },
        content: "# Weather Query".to_string(),
        raw_content: "---\nname: weather-query\n---\n# Weather Query".to_string(),
        skill_dir: "/skills/weather-query".to_string(),
        file_path: "/skills/weather-query/SKILL.md".to_string(),
        enabled: true,
        loaded_at: Timestamp { secs: 0, nanos: 0 },
        scripts: Vec::new(),
    };

    let summary = SkillSummary::from_skill(&skill);
    assert_eq!(summary.name, "weather-query");
    assert_eq!(summary.description, "Query weather information");
}

#[test]
fn test_skill_summary_from_metadata() {
    let metadata = SkillMetadata {
        name: "code-review".to_string(),
        description: "Review code for best practices".to_string(),
        license: Some("MIT".to_string()),
        compatibility: None,
        metadata: None,
        allowed_tools: None,
        model: None,
    };

    let summary = SkillSummary::from_metadata(&metadata);
    assert_eq!(summary.name, "code-review");
    assert_eq!(summary.description, "Review code for best practices");
}

#[test]
fn test_get_allowed_tools_single_tool() {
    let metadata = SkillMetadata {
        name: "test".to_string(),
        description: "test".to_string(),
        license: None,
        compatibility: None,
        metadata: None,
        allowed_tools: Some("Bash".to_string()),
        model: None,
    };

    let tools = metadata.get_allowed_tools();
    assert_eq!(tools, vec!["Bash"]);
}

#[test]
fn test_get_allowed_tools_with_wildcards() {
    let metadata = SkillMetadata {
        name: "test".to_string(),
        description: "test".to_string(),
        license: None,
        compatibility: None,
        metadata: None,
        allowed_tools: Some("Bash(git:*) Read Write".to_string()),
        model: None,
    };

    let tools = metadata.get_allowed_tools();
    assert_eq!(tools, vec!["Bash(git:*)", "Read", "Write"]);
}

#[test]
fn test_get_allowed_tools_empty_string() {
    let metadata = SkillMetadata {
        name: "test".to_string(),
        description: "test".to_string(),
        license: None,
        compatibility: None,
        metadata: None,
        allowed_tools: Some("".to_string()),
        model: None,
    };

    let tools = metadata.get_allowed_tools();
    assert!(tools.is_empty());
}

#[test]
fn test_get_allowed_tools_whitespace_only() {
    let metadata = SkillMetadata {
        name: "test".to_string(),
        description: "test".to_string(),
        license: None,
        compatibility: None,
        metadata: None,
        allowed_tools: Some("   \t\n  ".to_string()),
        model: None,
    };

    let tools = metadata.get_allowed_tools();
    assert!(tools.is_empty());
}

#[test]
fn test_get_allowed_tools_comma_separated() {
    let metadata = SkillMetadata {
        name: "test".to_string(),
        description: "test".to_string(),
        license: None,
        compatibility: None,
        metadata: None,
        allowed_tools: Some("tool1, tool2, tool3".to_string()),
        model: None,
    };

    let tools = metadata.get_allowed_tools();
    assert_eq!(tools, vec!["tool1", "tool2", "tool3"]);
}

#[test]
fn test_get_allowed_tools_comma_no_space() {
    let metadata = SkillMetadata {
        name: "test".to_string(),
        description: "test".to_string(),
        license: None,
        compatibility: None,
        metadata: None,
        allowed_tools: Some("tool1,tool2,tool3".to_string()),
        model: None,
    };

    let tools = metadata.get_allowed_tools();
    assert_eq!(tools, vec!["tool1", "tool2", "tool3"]);
}

#[test]
fn test_get_allowed_tools_comma_extra_whitespace() {
    let metadata = SkillMetadata {
        name: "test".to_string(),
        description: "test".to_string(),
        license: None,
        compatibility: None,
        metadata: None,
        allowed_tools: Some("  tool1 ,  tool2  ,  tool3  ".to_string()),
        model: None,
    };

    let tools = metadata.get_allowed_tools();
    assert_eq!(tools, vec!["tool1", "tool2", "tool3"]);
}

#[test]
fn test_get_allowed_tools_mcp_tool_names_comma() {
    let metadata = SkillMetadata {
        name: "test".to_string(),
        description: "test".to_string(),
        license: None,
        compatibility: None,
        metadata: None,
        allowed_tools: Some(
            "mcp__cardea-calculator__sum, mcp__cardea-calculator__sub".to_string(),
        ),
        model: None,
    };

    let tools = metadata.get_allowed_tools();
    assert_eq!(
        tools,
        vec!["mcp__cardea-calculator__sum", "mcp__cardea-calculator__sub"]
    );
}

#[test]
fn test_get_allowed_tools_mcp_tool_names_space() {
    let metadata = SkillMetadata {
        name: "test".to_string(),
        description: "test".to_string(),
        license: None,
        compatibility: None,
        metadata: None,
        allowed_tools: Some(
            "mcp__cardea-calculator__sum mcp__cardea-calculator__sub".to_string(),
        ),
        model: None,
    };

    let tools = metadata.get_allowed_tools();
    assert_eq!(
        tools,
        vec!["mcp__cardea-calculator__sum", "mcp__cardea-calculator__sub"]
    );
}

#[test]
fn test_skill_summary_from_loaded_skill_with_allowed_tools() {
    let skill = LoadedSkill {
        metadata: SkillMetadata {
            name: "calculator".to_string(),
            description: "Calculator skill".to_string(),
            license: None,
            compatibility: None,
            metadata: None,
            allowed_tools: Some("mcp__calc__sum, mcp__calc__sub".to_string()),
            model: None,
        },
        content: "# Calculator".to_string(),
        raw_content: "---\nname: calculator\n---\n# Calculator".to_string(),
        skill_dir: "/skills/calculator".to_string(),
        file_path: "/skills/calculator/SKILL.md".to_string(),
        enabled: true,
        loaded_at: Timestamp { secs: 0, nanos: 0 },
        scripts: Vec::new(),
    };

    let summary = SkillSummary::from_skill(&skill);
    assert_eq!(summary.name, "calculator");
    assert_eq!(summary.description, "Calculator skill");
    assert_eq!(
        summary.allowed_tools,
        vec!["mcp__calc__sum", "mcp__calc__sub"]
    );
}

#[test]
fn test_skill_summary_from_metadata_with_allowed_tools() {
    let metadata = SkillMetadata {
        name: "search".to_string(),
        description: "Search skill".to_string(),
        license: None,
        compatibility: None,
        metadata: None,
        allowed_tools: Some("mcp__search__query mcp__search__lookup".to_string()),
        model: None,
    };

    let summary = SkillSummary::from_metadata(&metadata);
    assert_eq!(summary.name, "search");
    assert_eq!(summary.description, "Search skill");
    assert_eq!(
        summary.allowed_tools,
        vec!["mcp__search__query", "mcp__search__lookup"]
    );
}

fn create_test_skill_with_scripts() -> LoadedSkill {
    LoadedSkill {
        metadata: SkillMetadata {
            name: "test-skill".to_string(),
            description: "A test skill".to_string(),
            license: None,
            compatibility: None,
            metadata: None,
            allowed_tools: None,
            model: None,
        },
        content: "# Test".to_string(),
        raw_content: "".to_string(),
        skill_dir: "/skills/test-skill".to_string(),
        file_path: "/skills/test-skill/SKILL.md".to_string(),
        enabled: true,
        loaded_at: Timestamp { secs: 0, nanos: 0 },
        scripts: vec![
            ScriptInfo {
                name: "process.js".to_string(),
                path: "/skills/test-skill/scripts/process.js".to_string(),
                executable: true,
            },
            ScriptInfo {
                name: "helper.py".to_string(),
                path: "/skills/test-skill/scripts/helper.py".to_string(),
                executable: true,
            },
        ],
    }
}

#[test]
fn test_loaded_skill_get_script() {
    let skill = create_test_skill_with_scripts();

    // Found
    let script = skill.get_script("process.js");
    assert!(script.is_some());
    assert_eq!(script.unwrap().name, "process.js");

    // Not found
    let script = skill.get_script("nonexistent.js");
    assert!(script.is_none());
}

#[test]
fn test_loaded_skill_has_script() {
    let skill = create_test_skill_with_scripts();

    assert!(skill.has_script("process.js"));
    assert!(skill.has_script("helper.py"));
    assert!(!skill.has_script("nonexistent.js"));
}

#[test]
fn test_loaded_skill_directory_paths() {
    let skill = create_test_skill_with_scripts();

    assert_eq!(
        skill.assets_dir(),
        "/skills/test-skill/assets".to_string()
    );
    assert_eq!(
        skill.references_dir(),
        "/skills/test-skill/references".to_string()
    );
    assert_eq!(
        skill.scripts_dir(),
        "/skills/test-skill/scripts".to_string()
    );
}

#[test]
fn test_loaded_skill_build_script_env() {
    let skill = create_test_skill_with_scripts();
    let env = skill.build_script_env();

    assert_eq!(
        env.get("SKILL_DIR"),
        Some(&"/skills/test-skill".to_string())
    );
    assert_eq!(env.get("SKILL_NAME"), Some(&"test-skill".to_string()));
    assert_eq!(
        env.get("SKILL_ASSETS"),
        Some(&"/skills/test-skill/assets".to_string())
    );
    assert_eq!(
        env.get("SKILL_REFERENCES"),
        Some(&"/skills/test-skill/references".to_string())
    );
}

#[test]
fn test_loaded_skill_list_scripts() {
    let skill = create_test_skill_with_scripts();
    let scripts = skill.list_scripts();

    assert_eq!(scripts.len(), 2);
    assert!(scripts.contains(&"process.js"));
    assert!(scripts.contains(&"helper.py"));
}

#[test]
fn test_loaded_skill_list_scripts_empty() {
    let mut skill = create_test_skill_with_scripts();
    skill.scripts = Vec::new();
    let scripts = skill.list_scripts();

    assert!(scripts.is_empty());
}
