use llama_nexus::mcp::{extract_tool_name, format_mcp_tool_name, is_mcp_tool_name, parse_mcp_tool_name, parse_mcp_tool_name_compat};

#[test]
fn test_format_mcp_tool_name() {
    let result = format_mcp_tool_name("cardea-calculator", "sum");
    assert_eq!(result, "mcp__cardea-calculator__sum");
}

#[test]
fn test_format_mcp_tool_name_with_special_chars() {
    let result = format_mcp_tool_name("my-server", "get_data");
    assert_eq!(result, "mcp__my-server__get_data");
}

#[test]
fn test_parse_mcp_tool_name_new_format() {
    let result = parse_mcp_tool_name("mcp__cardea-calculator__sum");
    assert_eq!(result, Some(("cardea-calculator", "sum")));
}

#[test]
fn test_parse_mcp_tool_name_invalid() {
    assert_eq!(parse_mcp_tool_name("invalid_name"), None);
    assert_eq!(parse_mcp_tool_name("search---serverA"), None);
    assert_eq!(parse_mcp_tool_name("mcp__only_two_parts"), None);
    assert_eq!(parse_mcp_tool_name("wrong__server__tool"), None);
}

#[test]
fn test_parse_mcp_tool_name_compat_new_format() {
    let result = parse_mcp_tool_name_compat("mcp__cardea-calculator__sum");
    assert_eq!(result, Some(("cardea-calculator", "sum")));
}

#[test]
fn test_parse_mcp_tool_name_compat_legacy_format() {
    let result = parse_mcp_tool_name_compat("search---serverA");
    assert_eq!(result, Some(("serverA", "search")));
}

#[test]
fn test_parse_mcp_tool_name_compat_invalid() {
    assert_eq!(parse_mcp_tool_name_compat("invalid_name"), None);
    assert_eq!(parse_mcp_tool_name_compat("no_separator"), None);
}

#[test]
fn test_is_mcp_tool_name() {
    // New format
    assert!(is_mcp_tool_name("mcp__server__tool"));
    assert!(is_mcp_tool_name("mcp__cardea-calculator__sum"));

    // Legacy format
    assert!(is_mcp_tool_name("search---serverA"));
    assert!(is_mcp_tool_name("query---my-server"));

    // Not MCP tool names
    assert!(!is_mcp_tool_name("local_tool"));
    assert!(!is_mcp_tool_name("some_function"));
}

#[test]
fn test_extract_tool_name() {
    // New format
    assert_eq!(extract_tool_name("mcp__server__search"), "search");
    assert_eq!(extract_tool_name("mcp__cardea-calculator__sum"), "sum");

    // Legacy format
    assert_eq!(extract_tool_name("query---serverA"), "query");
    assert_eq!(extract_tool_name("get_data---my-server"), "get_data");

    // Not MCP tool names - returns original
    assert_eq!(extract_tool_name("local_tool"), "local_tool");
    assert_eq!(extract_tool_name("some_function"), "some_function");
}

#[test]
fn test_roundtrip_new_format() {
    let server = "my-server";
    let tool = "my_tool";
    let full_name = format_mcp_tool_name(server, tool);
    let (parsed_server, parsed_tool) = parse_mcp_tool_name(&full_name).unwrap();
    assert_eq!(parsed_server, server);
    assert_eq!(parsed_tool, tool);
}

#[test]
fn names_are_read_back_exactly_when_they_can_be_told_apart() {
    for (server, tool, told) in [
        ("a", "b", true),
        ("a_", "b", false),
        ("_a", "_b", true),
        ("a__b", "c", false),
        ("a", "b__c", false),
        ("", "", true),
        ("a", "b---c", true),
        ("a__x---y", "b", false),
    ] {
        let name = format_mcp_tool_name(server, tool);
        assert_eq!(parse_mcp_tool_name(&name) == Some((server, tool)), told, "{name}");
        assert_eq!(parse_mcp_tool_name_compat(&name) == Some((server, tool)), told, "{name}");
        if let Some((s, t)) = parse_mcp_tool_name(&name) {
            assert_eq!(format_mcp_tool_name(s, t), name);
        }
    }
    for (server, tool, told) in
        [("a", "b", true), ("a", "b-", false), ("-a", "b", true), ("x", "mcp__a__b", false)]
    {
        let name = format!("{tool}---{server}");
        assert_eq!(parse_mcp_tool_name_compat(&name) == Some((server, tool)), told, "{name}");
    }
}
