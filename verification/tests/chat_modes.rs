use llama_nexus::chat::message::{
    ChatMessage, ChatRequest, Completion, ToolCall, ToolContent, ToolMode, ToolReply, ToolSpec,
};
use llama_nexus::chat::normal::{
    after_first_answer, after_second_answer, begin_chat, continue_chat, copy_response_headers,
    tool_reply_text, Delivery, NormalAction,
};
use llama_nexus::chat::react::{check_readable, decide, observe, ReactAction};
use llama_nexus::error::ServerError;
use llama_nexus::handlers::{add_mcp_tools, prepare_chat, ToolServer};
use llama_nexus::mcp::{McpService, DEFAULT_SEARCH_FALLBACK_MESSAGE};
use llama_nexus::text_map::TextMap;

fn request(messages: Vec<ChatMessage>) -> ChatRequest {
    ChatRequest {
        model: None,
        messages,
        stream: None,
        user: None,
        tools: None,
        tool_choice: None,
    }
}

fn call(name: &str) -> ToolCall {
    ToolCall {
        id: "call-1".to_string(),
        ty: "function".to_string(),
        name: name.to_string(),
        arguments: "{}".to_string(),
    }
}

fn completion(content: Option<&str>, calls: Vec<ToolCall>) -> Completion {
    Completion {
        content: content.map(|c| c.to_string()),
        tool_calls: calls,
        prompt_tokens: 1,
        completion_tokens: 2,
    }
}

fn services(name: &str) -> TextMap<McpService> {
    let mut m = TextMap::new();
    m.insert(name.to_string(), McpService::new(name));
    m
}

fn text_reply(text: &str) -> Result<ToolReply, String> {
    Ok(ToolReply {
        is_error: Some(false),
        content: vec![ToolContent::Text(text.to_string())],
    })
}

#[test]
fn normal_chat_asks_for_the_answer_in_one_piece() {
    let mut r = request(vec![ChatMessage::user("q".to_string())]);
    r.stream = Some(true);
    assert!(begin_chat(&mut r, None));
    assert_eq!(r.stream, Some(false));
    assert_eq!(r.messages.len(), 1);
    let mut r = request(Vec::new());
    assert!(!begin_chat(&mut r, Some(vec![ChatMessage::user("from memory".to_string())])));
    assert_eq!(r.stream, None);
    assert_eq!(r.messages.len(), 1);
}

#[test]
fn normal_chat_delivers_text() {
    let c = completion(Some("hello world and more"), vec![]);
    match after_first_answer(Some(&c), true, None) {
        NormalAction::Deliver(text, Delivery::Stream(chunks)) => {
            assert_eq!(text, "hello world and more");
            assert_eq!(chunks.iter().map(|c| c.content.clone()).collect::<String>(), text);
        }
        other => panic!("{other:?}"),
    }
    assert!(matches!(
        after_first_answer(Some(&c), false, None),
        NormalAction::Deliver(_, Delivery::PassThrough)
    ));
    assert!(matches!(after_first_answer(None, false, None), NormalAction::Pass));
}

#[test]
fn normal_chat_calls_known_tools_only() {
    let s = services("server");
    let c = completion(None, vec![call("tool__server"), call("other__server")]);
    match after_first_answer(Some(&c), false, Some(&s)) {
        NormalAction::Call { call, tool, server, service } => {
            assert_eq!(call.name, "tool__server");
            assert_eq!(tool, "tool");
            assert_eq!(server, "server");
            assert_eq!(service.name, "server");
        }
        other => panic!("{other:?}"),
    }
    let unknown = completion(None, vec![call("tool__nowhere")]);
    match after_first_answer(Some(&unknown), false, Some(&s)) {
        NormalAction::Fail(e) => assert_eq!(
            e,
            ServerError::McpOperation(
                "Not found mcp client connected with nowhere mcp server".to_string()
            )
        ),
        other => panic!("{other:?}"),
    }
    match after_first_answer(Some(&unknown), false, None) {
        NormalAction::Fail(e) => {
            assert_eq!(e, ServerError::McpOperation("Empty MCP CLIENTS".to_string()))
        }
        other => panic!("{other:?}"),
    }
    for bad in ["plain", "a__b__c"] {
        match after_first_answer(Some(&completion(None, vec![call(bad)])), false, Some(&s)) {
            NormalAction::Fail(e) => assert_eq!(
                e,
                ServerError::Operation(format!("The tool call '{bad}' is not supported."))
            ),
            other => panic!("{other:?}"),
        }
    }
}

#[test]
fn second_answer_is_delivered() {
    let text = Some("done".to_string());
    let (kept, how) = after_second_answer(Some(&text), false);
    assert_eq!(kept, Some("done".to_string()));
    assert!(matches!(how, Delivery::Whole));
    let (kept, how) = after_second_answer(None, true);
    assert_eq!(kept, None);
    assert!(matches!(how, Delivery::PassThrough));
    let (kept, how) = after_second_answer(Some(&None), true);
    assert_eq!(kept, Some(String::new()));
    assert!(matches!(how, Delivery::Stream(v) if v.is_empty()));
}

#[test]
fn tool_replies_are_told() {
    let service = McpService::new("server");
    assert_eq!(tool_reply_text(text_reply("42"), "t", "server", &service), Ok("42".to_string()));
    assert_eq!(
        tool_reply_text(Err("no route".to_string()), "t", "server", &service),
        Err(ServerError::Operation("no route".to_string()))
    );
    for is_error in [None, Some(true)] {
        let reply = Ok(ToolReply { is_error, content: vec![ToolContent::Text("x".to_string())] });
        assert_eq!(
            tool_reply_text(reply, "t", "server", &service),
            Err(ServerError::Operation("Failed to call the tool: t".to_string()))
        );
    }
    let empty = Ok(ToolReply { is_error: Some(false), content: vec![] });
    assert_eq!(
        tool_reply_text(empty, "t", "server", &service),
        Err(ServerError::McpEmptyContent)
    );
    let other = Ok(ToolReply { is_error: Some(false), content: vec![ToolContent::Other] });
    assert_eq!(
        tool_reply_text(other, "t", "server", &service),
        Err(ServerError::Operation(
            "Only text content is supported for tool call results".to_string()
        ))
    );
}

#[test]
fn search_results_are_wrapped() {
    let mut service = McpService::new("cardea-agentic-search");
    let told = tool_reply_text(text_reply("facts"), "t", "cardea-agentic-search", &service).unwrap();
    assert!(told.contains("---BEGIN CONTEXT---\n\nfacts\n\n---END CONTEXT---"));
    assert!(told.contains(&format!("`{DEFAULT_SEARCH_FALLBACK_MESSAGE}`")));
    service.fallback_message = Some("nothing".to_string());
    assert!(service.has_fallback_message());
    let told = tool_reply_text(text_reply("facts"), "t", "cardea-agentic-search", &service).unwrap();
    assert!(told.contains("`nothing`"));
    service.fallback_message = Some(String::new());
    assert!(!service.has_fallback_message());
}

#[test]
fn second_request_shows_the_result() {
    let mut r = request(vec![ChatMessage::user("q".to_string())]);
    r.tool_choice = Some(ToolMode::Auto);
    continue_chat(&mut r, None, &call("t__s"), &"42".to_string());
    assert_eq!(r.messages.len(), 3);
    assert!(matches!(r.tool_choice, Some(ToolMode::Off)));
    match &r.messages[2] {
        ChatMessage::Tool { content, tool_call_id } => {
            assert_eq!(content, "42");
            assert_eq!(tool_call_id, "call-1");
        }
        other => panic!("{other:?}"),
    }
    let mut r = request(vec![ChatMessage::user("q".to_string())]);
    continue_chat(&mut r, Some(vec![]), &call("t__s"), &"42".to_string());
    assert!(r.messages.is_empty());
    assert!(r.tool_choice.is_none());
}

#[test]
fn only_some_headers_are_passed() {
    let names: Vec<String> =
        ["date", "x-secret", "content-type", "set-cookie", "requires-tool-call"]
            .iter()
            .map(|s| s.to_string())
            .collect();
    assert_eq!(copy_response_headers(&names), vec!["date", "content-type", "requires-tool-call"]);
}

#[test]
fn react_answers_and_acts() {
    let tools = {
        let mut m = TextMap::new();
        m.insert("search".to_string(), "server".to_string());
        m
    };
    let s = services("server");
    let answer = completion(Some("<thought>t</thought><final_answer> 42 </final_answer>"), vec![]);
    assert!(matches!(decide(&answer, None, None), ReactAction::Answer(a) if a == " 42 "));
    let act = completion(Some("<action>search</action>"), vec![call("search")]);
    match decide(&act, Some(&tools), Some(&s)) {
        ReactAction::Call(calls, service) => {
            assert_eq!(calls.len(), 1);
            assert_eq!(service.name, "server");
        }
        other => panic!("{other:?}"),
    }
    let again = completion(Some("<action>think</action>"), vec![]);
    assert!(matches!(decide(&again, None, None), ReactAction::Ask));
    let silent = completion(None, vec![call("search")]);
    assert!(matches!(decide(&silent, Some(&tools), Some(&s)), ReactAction::Call(_, _)));
}

#[test]
fn react_fails_as_it_should() {
    let mut tools = TextMap::new();
    tools.insert("search".to_string(), "server".to_string());
    let s = services("other");
    let fails = |c: &Completion, t: Option<&TextMap<String>>, s: Option<&TextMap<McpService>>| {
        match decide(c, t, s) {
            ReactAction::Fail(e) => e,
            other => panic!("{other:?}"),
        }
    };
    let op = |m: &str| ServerError::Operation(m.to_string());
    let no_action = completion(Some("just text"), vec![]);
    assert_eq!(fails(&no_action, None, None), op("No <action> tags found in the response"));
    let no_action = completion(Some("just text"), vec![call("search")]);
    assert_eq!(
        fails(&no_action, Some(&tools), Some(&s)),
        op("No <action> tags found in the response")
    );
    let act = completion(None, vec![call("search")]);
    assert_eq!(fails(&act, None, Some(&s)), op("Empty MCP TOOLS"));
    assert_eq!(fails(&act, Some(&tools), None), op("Empty MCP CLIENTS"));
    assert_eq!(fails(&act, Some(&tools), Some(&s)), op("Tool not found: search"));
    let unknown = completion(None, vec![call("unknown")]);
    assert_eq!(fails(&unknown, Some(&tools), Some(&s)), ServerError::McpNotFoundClient);
}

#[test]
fn react_reads_one_line_elements() {
    assert!(check_readable(&completion(Some("<thought>a</thought>"), vec![])));
    assert!(!check_readable(&completion(Some("<thought>a\n</thought>"), vec![])));
    assert!(!check_readable(&completion(Some("<final_answer>a"), vec![])));
    assert!(check_readable(&completion(Some("<final_answer>a"), vec![call("x")])));
    assert!(!check_readable(&completion(None, vec![])));
    assert!(check_readable(&completion(None, vec![call("x")])));
    // The first element that ends on its line counts.
    let c = completion(Some("<final_answer>a\n<final_answer>b</final_answer>"), vec![]);
    assert!(check_readable(&c));
    assert!(matches!(decide(&c, None, None), ReactAction::Answer(a) if a == "b"));
}

#[test]
fn react_observes_results() {
    let mut r = request(vec![ChatMessage::user("q".to_string())]);
    let calls = vec![call("search"), call("more")];
    let service = McpService::new("server");
    observe(&mut r, &calls, text_reply("found"), "server", &service).unwrap();
    assert_eq!(r.messages.len(), 3);
    match (&r.messages[1], &r.messages[2]) {
        (
            ChatMessage::Assistant { content: None, name: None, tool_calls: Some(shown) },
            ChatMessage::Tool { content, .. },
        ) => {
            assert_eq!(shown.len(), 2);
            assert_eq!(content, "<observation>found</observation>");
        }
        other => panic!("{other:?}"),
    }
    let e = observe(&mut r, &calls, Err("down".to_string()), "server", &service);
    assert_eq!(e, Err(ServerError::Operation("down".to_string())));
    assert_eq!(r.messages.len(), 3);
}

fn spec(name: &str) -> ToolSpec {
    ToolSpec { name: name.to_string(), description: None, parameters: None }
}

#[test]
fn configured_tools_join_the_request() {
    let servers = vec![
        ToolServer { enable: true, tools: Some(vec![spec("a"), spec("b")]) },
        ToolServer { enable: false, tools: None },
        ToolServer { enable: true, tools: Some(vec![spec("c")]) },
    ];
    let mut r = request(vec![]);
    r.tools = Some(vec![spec("own")]);
    r.tool_choice = Some(ToolMode::Off);
    prepare_chat(&mut r, &servers);
    let names: Vec<String> = r.tools.unwrap().iter().map(|t| t.name.clone()).collect();
    assert_eq!(names, vec!["own", "a", "b", "c"]);
    assert!(matches!(r.tool_choice, Some(ToolMode::Auto)));
    assert!(r.user.unwrap().starts_with("chatcmpl-"));

    let mut r = request(vec![]);
    r.user = Some("me".to_string());
    r.tool_choice = Some(ToolMode::Required);
    prepare_chat(&mut r, &servers);
    assert!(matches!(r.tool_choice, Some(ToolMode::Required)));
    assert_eq!(r.user, Some("me".to_string()));

    let mut r = request(vec![]);
    add_mcp_tools(&mut r, &vec![ToolServer { enable: false, tools: Some(vec![spec("a")]) }]);
    assert!(r.tools.is_none());
    assert!(r.tool_choice.is_none());
}
