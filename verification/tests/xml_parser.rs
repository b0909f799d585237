use llama_nexus::chat::xml_parser::{
    append_missing_close, extract_action, extract_action_detailed, extract_final_answer,
    extract_final_answer_detailed, extract_thought, extract_thought_detailed, fix_common_typos,
    fix_missing_closing_tag, has_action_tag, has_final_answer_tag, has_thought_tag,
    sanitize_xml_content,
};

#[test]
fn test_extract_thought_basic() {
    let content = "<thought>I need to search for information</thought>";
    assert_eq!(
        extract_thought(content),
        Some("I need to search for information".to_string())
    );
}

#[test]
fn test_extract_thought_with_spaces() {
    let content = "< thought >I need to search for information</ thought >";
    assert_eq!(
        extract_thought(content),
        Some("I need to search for information".to_string())
    );
}

#[test]
fn test_extract_thought_case_insensitive() {
    let content = "<THOUGHT>I need to search for information</THOUGHT>";
    assert_eq!(
        extract_thought(content),
        Some("I need to search for information".to_string())
    );
}

#[test]
fn test_extract_thought_mixed_case() {
    let content = "<Thought>I need to search for information</Thought>";
    assert_eq!(
        extract_thought(content),
        Some("I need to search for information".to_string())
    );
}

#[test]
fn test_extract_action_basic() {
    let content = "<action>search</action>";
    assert_eq!(extract_action(content), Some("search".to_string()));
}

#[test]
fn test_extract_action_with_spaces() {
    let content = "< action >search</ action >";
    assert_eq!(extract_action(content), Some("search".to_string()));
}

#[test]
fn test_extract_final_answer_basic() {
    let content = "<final_answer>The answer is 42</final_answer>";
    assert_eq!(
        extract_final_answer(content),
        Some("The answer is 42".to_string())
    );
}

#[test]
fn test_extract_final_answer_case_insensitive() {
    let content = "<FINAL_ANSWER>The answer is 42</FINAL_ANSWER>";
    assert_eq!(
        extract_final_answer(content),
        Some("The answer is 42".to_string())
    );
}

#[test]
fn test_sanitize_html_entities() {
    let content = "&lt;thought&gt;test&lt;/thought&gt;";
    let sanitized = sanitize_xml_content(content);
    assert_eq!(sanitized, "<thought>test</thought>");
    assert_eq!(extract_thought(&sanitized), Some("test".to_string()));
}

#[test]
fn test_sanitize_missing_closing_tag() {
    let content = "<thought>I need to search";
    let sanitized = sanitize_xml_content(content);
    assert!(sanitized.contains("</thought>"));
}

#[test]
fn test_fix_common_typos_thought() {
    let content = "<thougt>test</thougt>";
    let fixed = fix_common_typos(content);
    assert_eq!(fixed, "<thought>test</thought>");
}

#[test]
fn test_fix_common_typos_final_answer() {
    let content = "<finalanswer>test</finalanswer>";
    let fixed = fix_common_typos(content);
    assert_eq!(fixed, "<final_answer>test</final_answer>");
}

#[test]
fn test_fix_common_typos_final_answer_hyphen() {
    let content = "<final-answer>test</final-answer>";
    let fixed = fix_common_typos(content);
    assert_eq!(fixed, "<final_answer>test</final_answer>");
}

#[test]
fn test_has_thought_tag() {
    assert!(has_thought_tag("<thought>test</thought>"));
    assert!(has_thought_tag("< thought >test</ thought >"));
    assert!(has_thought_tag("<THOUGHT>test</THOUGHT>"));
    assert!(!has_thought_tag("<action>test</action>"));
}

#[test]
fn test_has_action_tag() {
    assert!(has_action_tag("<action>test</action>"));
    assert!(has_action_tag("< action >test</ action >"));
    assert!(!has_action_tag("<thought>test</thought>"));
}

#[test]
fn test_has_final_answer_tag() {
    assert!(has_final_answer_tag("<final_answer>test</final_answer>"));
    assert!(has_final_answer_tag(
        "< final_answer >test</ final_answer >"
    ));
    assert!(!has_final_answer_tag("<thought>test</thought>"));
}

#[test]
fn test_extract_thought_detailed_success() {
    let content = "<thought>test</thought>";
    let result = extract_thought_detailed(content);
    assert_eq!(result.content, Some("test".to_string()));
    assert!(!result.was_repaired);
}

#[test]
fn test_extract_thought_detailed_repaired() {
    let content = "&lt;thought&gt;test&lt;/thought&gt;";
    let result = extract_thought_detailed(content);
    assert_eq!(result.content, Some("test".to_string()));
    assert!(result.was_repaired);
}

#[test]
fn test_multiline_content() {
    let content =
        "<thought>\nI need to think about this.\nLet me analyze the problem.\n</thought>";
    let result = extract_thought(content);
    assert!(result.is_some());
    assert!(result.unwrap().contains("I need to think about this."));
}

#[test]
fn test_nested_content_preservation() {
    let content = "<thought>The user asked about <code>function()</code></thought>";
    let result = extract_thought(content);
    assert_eq!(
        result,
        Some("The user asked about <code>function()</code>".to_string())
    );
}

#[test]
fn details_tell_of_repairs() {
    let r = extract_action_detailed("<ACTION >\n go </ Action>");
    assert_eq!((r.content, r.was_repaired), (Some("go".to_string()), false));
    let r = extract_action_detailed("<acton>go</acton>");
    assert_eq!((r.content, r.was_repaired), (Some("go".to_string()), true));
    assert_eq!(r.repair_notes, Some("Content was sanitized".to_string()));
    let r = extract_final_answer_detailed("<FinalAnswer>42</FinalAnswer>");
    assert_eq!((r.content, r.was_repaired), (Some("42".to_string()), true));
    let r = extract_final_answer_detailed("nothing");
    assert_eq!((r.content, r.was_repaired, r.repair_notes), (None, false, None));
}

#[test]
fn sound_text_is_kept() {
    let s = "<thought>a < b</thought> <action>c</action> <code>d</code>";
    assert_eq!(sanitize_xml_content(s), s);
    assert_eq!(extract_thought(s), extract_thought_detailed(s).content);
    assert_eq!(extract_thought(s), Some("a < b".to_string()));
    assert_eq!(extract_action(s), Some("c".to_string()));
}

#[test]
fn the_long_s_is_an_s() {
    assert_eq!(
        extract_final_answer_detailed("<final_an\u{17f}wer>x</final_answer>").content,
        Some("x".to_string())
    );
}

#[test]
fn closing_tags_are_added_once() {
    let once = fix_missing_closing_tag("<Thought>x", "thought");
    assert_eq!(once, "<Thought>x</thought>");
    assert_eq!(fix_missing_closing_tag(&once, "thought"), once);
    assert_eq!(append_missing_close("<A>", "<a>", "a", "A"), "<A></A>");
    assert_eq!(append_missing_close("x", "x", "a", "A"), "x");
}

#[test]
fn typos_are_corrected_once() {
    let typos = [
        "<thougt>", "<thougth>", "<tought>", "<acton>", "<acion>", "<finalanswer>",
        "<final-answer>", "<FinalAnswer>",
    ];
    let mut all = typos.concat();
    all.push_str("<thou<thougt>gt></thougt></<acton>>");
    for typo in typos {
        all.push_str(&typo.replace('<', "</"));
    }
    let once = fix_common_typos(&all);
    assert_eq!(fix_common_typos(&once), once);
    for typo in typos {
        assert!(!once.contains(typo), "{typo}");
        assert!(!once.contains(&typo.replace('<', "</")), "{typo}");
    }
}

#[test]
fn both_extractions_agree() {
    for content in [
        "<thought>a</thought>",
        "<thought>a &lt;b&gt; &lt;/thought&gt; c</thought>",
        "<thougt>a</thougt>",
        "&lt;thought&gt;a",
        "<thought>a",
        "</thought><thought>",
        "nothing",
    ] {
        let d = extract_thought_detailed(content);
        let e = extract_thought(content);
        assert_eq!(d.content.is_some(), e.is_some(), "{content}");
        assert_eq!(d.repair_notes.is_some(), d.was_repaired, "{content}");
        if d.was_repaired {
            assert_eq!(d.content, e, "{content}");
        }
    }
}
