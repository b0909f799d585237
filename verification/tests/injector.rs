use llama_nexus::clock::Timestamp;
use llama_nexus::skills::injector::SkillInjector;
use llama_nexus::skills::types::{LoadedSkill, SkillMetadata, SkillSummary};

fn create_test_summary(name: &str, description: &str) -> SkillSummary {
    SkillSummary {
        name: name.to_string(),
        description: description.to_string(),
        allowed_tools: vec![],
    }
}

fn create_test_skill(name: &str, content: &str) -> LoadedSkill {
    LoadedSkill {
        metadata: SkillMetadata {
            name: name.to_string(),
            description: "Test skill".to_string(),
            license: None,
            compatibility: None,
            metadata: None,
            allowed_tools: None,
            model: None,
        },
        content: content.to_string(),
        raw_content: String::new(),
        skill_dir: String::new(),
        file_path: String::new(),
        enabled: true,
        loaded_at: Timestamp { secs: 0, nanos: 0 },
        scripts: Vec::new(),
    }
}

#[test]
fn test_phase1_injection_empty() {
    let result = SkillInjector::phase1_injection(&[]);
    assert!(result.is_empty());
}

#[test]
fn test_phase1_injection_single() {
    let summaries = vec![create_test_summary(
        "weather-query",
        "Query weather information",
    )];

    let result = SkillInjector::phase1_injection(&summaries);

    assert!(result.contains("## Available Skills"));
    assert!(result.contains("weather-query"));
    assert!(result.contains("Query weather information"));
    assert!(result.contains("<use_skill>skill-name</use_skill>"));
}

#[test]
fn test_phase1_injection_multiple() {
    let summaries = vec![
        create_test_summary("skill-one", "First skill"),
        create_test_summary("skill-two", "Second skill"),
    ];

    let result = SkillInjector::phase1_injection(&summaries);

    assert!(result.contains("skill-one"));
    assert!(result.contains("First skill"));
    assert!(result.contains("skill-two"));
    assert!(result.contains("Second skill"));
}

#[test]
fn test_phase2_injection() {
    let skill = create_test_skill("test-skill", "# Test Content\n\nDo this and that.");

    let result = SkillInjector::phase2_injection(&skill);

    assert!(result.contains("## Active Skill: test-skill"));
    assert!(result.contains("The following skill instructions"));
    assert!(result.contains("# Test Content"));
    assert!(result.contains("Do this and that."));
    assert!(result.contains("---")); // Content wrapped in ---
}

#[test]
fn test_phase2_injection_with_metadata() {
    // Metadata is now part of the skill content, not injected separately
    let mut skill = create_test_skill("test-skill", "Content here");
    skill.metadata.license = Some("MIT".to_string());
    skill.metadata.compatibility = Some("Requires Python 3.8+".to_string());
    skill.metadata.allowed_tools = Some("Bash Read".to_string());

    let result = SkillInjector::phase2_injection(&skill);

    // New format just wraps content in --- delimiters
    assert!(result.contains("## Active Skill: test-skill"));
    assert!(result.contains("Content here"));
    assert!(result.contains("---"));
}

#[test]
fn test_multi_skill_injection_empty() {
    let result = SkillInjector::multi_skill_injection(&[]);
    assert!(result.is_empty());
}

#[test]
fn test_multi_skill_injection() {
    let skills = vec![
        create_test_skill("skill-a", "Content A"),
        create_test_skill("skill-b", "Content B"),
    ];

    let result = SkillInjector::multi_skill_injection(&skills);

    assert!(result.contains("## Active Skills"));
    assert!(result.contains("skill-a"));
    assert!(result.contains("Content A"));
    assert!(result.contains("skill-b"));
    assert!(result.contains("Content B"));
}

#[test]
fn test_inject_summaries() {
    let system_prompt = "You are a helpful assistant.";
    let summaries = vec![create_test_summary("helper", "Helps with things")];

    let result = SkillInjector::inject_summaries(system_prompt, &summaries);

    assert!(result.starts_with("You are a helpful assistant."));
    assert!(result.contains("## Available Skills"));
    assert!(result.contains("helper"));
}

#[test]
fn test_inject_summaries_empty() {
    let system_prompt = "You are a helpful assistant.";
    let result = SkillInjector::inject_summaries(system_prompt, &[]);

    assert_eq!(result, system_prompt);
}

#[test]
fn test_inject_skill() {
    let system_prompt = "You are a helpful assistant.";
    let skill = create_test_skill("my-skill", "Do the thing.");

    let result = SkillInjector::inject_skill(system_prompt, &skill);

    assert!(result.starts_with("You are a helpful assistant."));
    assert!(result.contains("## Active Skill: my-skill"));
    assert!(result.contains("Do the thing."));
}

#[test]
fn test_phase1_injection_special_characters() {
    let summaries = vec![create_test_summary(
        "code-review",
        "Review code with `markdown` and **bold** text",
    )];

    let result = SkillInjector::phase1_injection(&summaries);

    assert!(result.contains("code-review"));
    assert!(result.contains("Review code with `markdown` and **bold** text"));
}

#[test]
fn test_phase2_injection_empty_content() {
    let skill = create_test_skill("empty-skill", "");

    let result = SkillInjector::phase2_injection(&skill);

    assert!(result.contains("## Active Skill: empty-skill"));
    assert!(result.contains("---")); // Empty content between delimiters
}

#[test]
fn test_phase2_injection_multiline_content() {
    let content = r#"# Header

This is a paragraph.

## Subheader

- List item 1
- List item 2

```rust
fn main() {
println!("Hello");
}
```
"#;
    let skill = create_test_skill("multiline-skill", content);

    let result = SkillInjector::phase2_injection(&skill);

    assert!(result.contains("# Header"));
    assert!(result.contains("## Subheader"));
    assert!(result.contains("- List item 1"));
    assert!(result.contains("fn main()"));
}

#[test]
fn test_phase2_injection_content_without_newline() {
    let skill = create_test_skill("no-newline", "Content without trailing newline");

    let result = SkillInjector::phase2_injection(&skill);

    // New format ends with ---
    assert!(result.ends_with("---"));
}

#[test]
fn test_phase2_injection_content_with_newline() {
    let skill = create_test_skill("has-newline", "Content with trailing newline\n");

    let result = SkillInjector::phase2_injection(&skill);

    // New format wraps content in ---
    assert!(result.contains("Content with trailing newline"));
    assert!(result.ends_with("---"));
}

#[test]
fn test_phase2_injection_partial_metadata() {
    // In the new simplified format, metadata is not separately injected
    // The skill content is wrapped as-is
    let mut skill1 = create_test_skill("license-only", "Content");
    skill1.metadata.license = Some("Apache-2.0".to_string());
    let result1 = SkillInjector::phase2_injection(&skill1);
    assert!(result1.contains("## Active Skill: license-only"));
    assert!(result1.contains("Content"));

    // Only compatibility
    let mut skill2 = create_test_skill("compat-only", "Content");
    skill2.metadata.compatibility = Some("Linux only".to_string());
    let result2 = SkillInjector::phase2_injection(&skill2);
    assert!(result2.contains("## Active Skill: compat-only"));
    assert!(result2.contains("Content"));
}

#[test]
fn test_inject_summaries_empty_prompt() {
    let summaries = vec![create_test_summary("skill", "Description")];
    let result = SkillInjector::inject_summaries("", &summaries);

    assert!(result.contains("## Available Skills"));
    assert!(result.contains("skill"));
}

#[test]
fn test_inject_skill_empty_prompt() {
    let skill = create_test_skill("test", "Content");
    let result = SkillInjector::inject_skill("", &skill);

    assert!(result.contains("## Active Skill: test"));
    assert!(result.contains("Content"));
}

#[test]
fn test_multi_skill_injection_order_preserved() {
    let skills = vec![
        create_test_skill("first", "First content"),
        create_test_skill("second", "Second content"),
        create_test_skill("third", "Third content"),
    ];

    let result = SkillInjector::multi_skill_injection(&skills);

    let first_pos = result.find("First content").unwrap();
    let second_pos = result.find("Second content").unwrap();
    let third_pos = result.find("Third content").unwrap();

    assert!(first_pos < second_pos);
    assert!(second_pos < third_pos);
}

#[test]
fn test_phase1_injection_order_preserved() {
    let summaries = vec![
        create_test_summary("alpha", "Alpha skill"),
        create_test_summary("beta", "Beta skill"),
        create_test_summary("gamma", "Gamma skill"),
    ];

    let result = SkillInjector::phase1_injection(&summaries);

    let alpha_pos = result.find("alpha").unwrap();
    let beta_pos = result.find("beta").unwrap();
    let gamma_pos = result.find("gamma").unwrap();

    assert!(alpha_pos < beta_pos);
    assert!(beta_pos < gamma_pos);
}

#[test]
fn test_inject_skill_preserves_prompt_structure() {
    let system_prompt = "Line 1\nLine 2\nLine 3";
    let skill = create_test_skill("test", "Skill content");

    let result = SkillInjector::inject_skill(system_prompt, &skill);

    assert!(result.starts_with("Line 1\nLine 2\nLine 3\n"));
}

#[test]
fn test_phase2_injection_long_description() {
    let mut skill = create_test_skill("long-desc", "Content");
    skill.metadata.description = "A".repeat(1024);

    // Should not panic
    let result = SkillInjector::phase2_injection(&skill);
    assert!(result.contains("## Active Skill: long-desc"));
}

#[test]
fn test_phase1_injection_markdown_formatting() {
    let result = SkillInjector::phase1_injection(&[create_test_summary("test", "desc")]);

    // Check table formatting (new format uses tables)
    assert!(result.contains("| test | desc |"));
    assert!(result.contains("| Skill | Description |"));
}
