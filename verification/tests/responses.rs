use llama_nexus::chat::message::ChatMessage;
use llama_nexus::clock::{Elapsed, Timestamp};
use llama_nexus::responses::code_interpreter::{
    install_command, plan_sandbox, python_command, run_result, CodeInterpreterConfig,
    CodeInterpreterError, CodeInterpreterSettings, OutputPiece, RunEnd, SandboxPool,
};
use llama_nexus::responses::db::find_session_by_response_id;
use llama_nexus::responses::handlers::{
    backend_error, backend_reply, backend_text, check_request, check_tool_conflicts, estimate_tokens,
    extended_data, finish_response, new_response_id, open_session, prepare_response,
    validate_request, BackendReply, DatabaseError, ExtendedData, ResponseError,
};
use llama_nexus::responses::models::{
    ResponseFormat, ResponseRequest, Session, ToolChoice, ToolDefinition, ToolFunction,
};
use llama_nexus::text_map::TextMap;

fn request(input: &str) -> ResponseRequest {
    ResponseRequest {
        model: "m".to_string(),
        input: input.to_string(),
        instructions: None,
        previous_response_id: None,
        modalities: None,
        response_format: None,
        reasoning: None,
        temperature: None,
        top_p: None,
        max_output_tokens: None,
        stream: None,
        included: None,
        tools: None,
        tool_choice: None,
        tool_resources: None,
        attachments: None,
        metadata: None,
        user: None,
    }
}

fn tool(name: &str) -> ToolDefinition {
    ToolDefinition {
        tool_type: "function".to_string(),
        function: Some(ToolFunction { name: name.to_string(), description: None, parameters: None }),
    }
}

fn create_test_session() -> Session {
    let mut session = Session::new(
        "test_session_123".to_string(),
        "test_model".to_string(),
        Some("You are a helpful assistant".to_string()),
    );
    session.add_message("user".to_string(), "Hello, world!".to_string(), 10, None, None);
    session.add_message(
        "assistant".to_string(),
        "Hello! How can I help you?".to_string(),
        15,
        Some(250),
        Some("resp_456".to_string()),
    );
    session
}

#[test]
fn test_find_session_by_response_id() {
    let sessions = vec![
        Session::new("other".to_string(), "test_model".to_string(), None),
        create_test_session(),
    ];
    let found = find_session_by_response_id(&sessions, "resp_456");
    assert!(found.is_some(), "Should find session by message response ID");
    assert_eq!(sessions[found.unwrap()].response_id, "test_session_123");
    assert!(find_session_by_response_id(&sessions, "resp_789").is_none());
}

#[test]
fn session_counts_its_tokens() {
    assert_eq!(create_test_session().total_tokens(), 25);
    assert!(create_test_session().created > 1_600_000_000);
}

#[test]
fn estimates_follow_single_precision() {
    for n in [0usize, 1, 3, 4, 5, 1_000_003, 16_777_215, 16_777_216, 16_777_217, 16_777_219, 20_000_003] {
        let text = "a".repeat(n);
        let expected = (text.len() as f32 / 4.0).ceil() as i32;
        assert_eq!(estimate_tokens(&text), expected, "{n}");
    }
    assert_eq!(estimate_tokens("日本"), 2);
}

#[test]
fn ranges_are_those_of_the_numbers() {
    let values = [
        -1.0f32, -0.1, -0.0, 0.0, 1e-40, 0.5, 1.0, 1.0000001, 1.5, 2.0, 2.0000002, 3.0,
        f32::INFINITY, f32::NEG_INFINITY, f32::NAN,
    ];
    for x in values {
        let mut r = request("q");
        r.temperature = Some(x.to_bits());
        assert_eq!(validate_request(&r).is_ok(), (0.0..=2.0).contains(&x), "temperature {x}");
        let mut r = request("q");
        r.top_p = Some(x.to_bits());
        assert_eq!(validate_request(&r).is_ok(), (0.0..=1.0).contains(&x), "top_p {x}");
    }
}

#[test]
fn requests_are_checked_in_order() {
    let wrong = |r: &ResponseRequest| match check_request(r) {
        Err(ResponseError::InvalidInput(m)) => m,
        other => panic!("{other:?}"),
    };
    let mut r = request(" \t ");
    assert_eq!(wrong(&r), "Input message cannot be empty");
    r.model = "  ".to_string();
    assert_eq!(wrong(&r), "Model name cannot be empty");
    let mut r = request("q");
    r.max_output_tokens = Some(0);
    r.stream = Some(true);
    assert_eq!(wrong(&r), "max_output_tokens must be positive");
    r.top_p = Some(2.0f32.to_bits());
    assert_eq!(wrong(&r), "top_p must be between 0.0 and 1.0");
    assert!(check_request(&request("q")).unwrap().is_empty());
}

#[test]
fn tools_may_not_conflict() {
    let mut r = request("q");
    assert!(check_tool_conflicts(&r, &vec!["x".to_string()]).unwrap().is_empty());
    r.tools = Some(vec![tool("a"), tool("x"), tool("y")]);
    assert_eq!(
        check_tool_conflicts(&r, &vec![]).unwrap(),
        vec!["User-supplied tools (3) will be appended after MCP tools"]
    );
    match check_tool_conflicts(&r, &vec!["y".to_string(), "x".to_string()]) {
        Err(ResponseError::InvalidInput(m)) => {
            assert_eq!(m, "Tool name 'x' conflicts with existing MCP tool")
        }
        other => panic!("{other:?}"),
    }
}

#[test]
fn database_errors_are_told() {
    let told = |e: DatabaseError| ResponseError::from_database(e).to_http_error();
    assert_eq!(
        told(DatabaseError::SessionNotFound { id: "i".to_string() }),
        (404, "Session not found: i".to_string())
    );
    assert_eq!(told(DatabaseError::Sqlx("e".to_string())), (500, "Database error: e".to_string()));
    assert_eq!(
        told(DatabaseError::Serialization("e".to_string())),
        (500, "Data serialization error: e".to_string())
    );
    assert_eq!(
        told(DatabaseError::InvalidSessionData),
        (500, "Invalid session data".to_string())
    );
    assert_eq!(
        backend_error("down").to_http_error(),
        (502, "Chat backend failed: down".to_string())
    );
}

#[test]
fn conversation_is_carried_on() {
    let id = new_response_id();
    assert!(id.starts_with("resp_") && id.len() == 37);
    let mut first = request("one");
    first.instructions = Some("be kind".to_string());
    first.tools = Some(vec![tool("t")]);
    first.tool_choice = Some(ToolChoice::String("auto".to_string()));
    first.response_format = Some(ResponseFormat::default());
    first.max_output_tokens = Some(50);
    first.temperature = Some(0.5f32.to_bits());
    let mut metadata = TextMap::new();
    metadata.insert("k".to_string(), "v".to_string());
    first.metadata = Some(metadata);
    let warnings = check_request(&first).unwrap();
    let session = open_session(&first, &id, None, 5).unwrap();
    let prepared = prepare_response(&first, session, warnings, 6);
    assert_eq!(prepared.request.messages.len(), 2);
    assert_eq!(prepared.request.user, "responses-api");
    assert_eq!(prepared.request.max_completion_tokens, Some(50));
    assert_eq!(prepared.request.temperature, Some(0.5f32.to_bits()));
    assert_eq!(
        prepared.warnings,
        vec![
            "Custom response formats not yet fully supported",
            "User-supplied tools (1) will be appended after MCP tools",
            "User-supplied tools are not yet fully integrated with chat backend",
            "Tool choice specification not yet fully supported",
        ]
    );
    let extended = extended_data(&ExtendedData {
        metadata: Some("{\"k\":\"v\"}".to_string()),
        attachments: None,
        tool_resources: None,
    });
    let (session, reply) =
        finish_response(first, id.clone(), prepared, "answer one".to_string(), extended, 7);
    assert_eq!(reply.id, id);
    assert_eq!(reply.output_text, Some("answer one".to_string()));
    assert!(reply.output[0].id.starts_with("msg_") && reply.output[0].id.len() == 36);
    assert_eq!(reply.usage.total_tokens, 1 + 3);
    assert_eq!(reply.warnings.as_ref().unwrap().len(), 4);
    assert_eq!(reply.metadata.as_ref().unwrap().get("k"), Some(&"v".to_string()));
    assert_eq!(session.extended_data, Some("{\"metadata\":{\"k\":\"v\"}}".to_string()));
    assert!(session.has_response_id(&id));

    let mut second = request("two");
    second.previous_response_id = Some(id.clone());
    second.user = Some("me".to_string());
    let next = new_response_id();
    let session = open_session(&second, &next, Some(session), 8).unwrap();
    let prepared = prepare_response(&second, session, check_request(&second).unwrap(), 9);
    assert_eq!(prepared.request.user, "me");
    assert_eq!(prepared.request.messages.len(), 4);
    assert!(matches!(&prepared.request.messages[2], ChatMessage::Assistant { content: Some(c), .. } if c == "answer one"));
    let (session, reply) = finish_response(
        second,
        next.clone(),
        prepared,
        "answer two".to_string(),
        extended_data(&ExtendedData { metadata: None, attachments: None, tool_resources: None }),
        10,
    );
    assert!(reply.warnings.is_none());
    assert_eq!(reply.previous_response_id, Some(id.clone()));
    assert!(session.has_response_id(&id) && session.has_response_id(&next));
    let roles: Vec<String> =
        session.get_conversation_history().into_iter().map(|p| p.0).collect();
    assert_eq!(roles, vec!["system", "user", "assistant", "user", "assistant"]);
}

#[test]
fn unknown_previous_reply_is_refused() {
    let mut r = request("q");
    r.previous_response_id = Some("resp_x".to_string());
    match open_session(&r, &"resp_y".to_string(), None, 0) {
        Err(e) => assert_eq!(
            e.to_http_error(),
            (404, "Previous response ID not found: resp_x".to_string())
        ),
        Ok(_) => panic!(),
    }
}

#[test]
fn extended_data_is_an_object() {
    let text = extended_data(&ExtendedData {
        metadata: Some("1".to_string()),
        attachments: Some("[]".to_string()),
        tool_resources: Some("null".to_string()),
    })
    .unwrap();
    assert_eq!(text, "{\"attachments\":[],\"metadata\":1,\"tool_resources\":null}");
    assert_eq!(backend_text(&None), "No response content");
    assert_eq!(backend_text(&Some("x".to_string())), "x");
}

fn settings() -> CodeInterpreterSettings {
    CodeInterpreterSettings::from_config(CodeInterpreterConfig {
        docker_image: "python".to_string(),
        execution_timeout_secs: 0,
        memory_limit_mb: 1,
        cpu_percent: 250,
        max_sessions: 0,
        idle_timeout_secs: 60,
        preload_packages: vec!["numpy".to_string()],
    })
}

#[test]
fn settings_stay_within_limits() {
    let s = settings();
    assert_eq!(s.execution_timeout, Elapsed::from_secs(1));
    assert_eq!(s.memory_limit_mb, 64);
    assert_eq!(s.cpu_percent, 100);
    assert_eq!(s.max_sessions, 1);
    assert_eq!(s.idle_timeout, Elapsed::from_secs(60));
    let plan = plan_sandbox(&s, "abc");
    assert_eq!(plan.name, "nexus-ci-abc");
    assert_eq!(plan.memory, 67_108_864);
    assert_eq!(plan.nano_cpus, 1_000_000_000);
    assert_eq!(plan.network_mode, "none");
    assert_eq!(install_command(&s).unwrap(), vec!["pip", "install", "--no-cache-dir", "numpy"]);
    let mut large = settings();
    large.cpu_percent = 400;
    large.memory_limit_mb = 1 << 43;
    let plan = plan_sandbox(&large, "abc");
    assert_eq!(plan.nano_cpus, 4_000_000_000);
    assert_eq!(plan.memory, i64::MIN);
    assert_eq!(python_command("print(1)"), vec!["python3", "-u", "-c", "print(1)"]);
}

#[test]
fn runs_end_in_three_ways() {
    let pieces = vec![
        OutputPiece::StdOut("a".to_string()),
        OutputPiece::StdErr("x".to_string()),
        OutputPiece::Other,
        OutputPiece::StdOut("b".to_string()),
    ];
    let r = run_result(RunEnd::Ended(pieces, Some(3))).unwrap();
    assert_eq!((r.stdout.as_str(), r.stderr.as_str(), r.exit_code), ("ab", "x", 3));
    assert_eq!(run_result(RunEnd::Ended(vec![], None)).unwrap().exit_code, 0);
    assert!(matches!(run_result(RunEnd::TimedOut), Err(CodeInterpreterError::Timeout)));
    assert_eq!(
        run_result(RunEnd::Failed("e".to_string())).unwrap_err().message(),
        "Failed to execute code: e"
    );
}

#[test]
fn sandboxes_are_kept_while_they_are_used() {
    let t = |secs: i64| Timestamp { secs, nanos: 0 };
    let mut pool = SandboxPool::new();
    assert_eq!(pool.touch("s", t(0)), None);
    pool.insert("s", "c1".to_string(), t(0));
    pool.insert("u", "c2".to_string(), t(50));
    assert_eq!(pool.idle_sessions(Elapsed::from_secs(60), t(59)), Vec::<String>::new());
    assert_eq!(pool.idle_sessions(Elapsed::from_secs(60), t(60)), vec!["s"]);
    assert_eq!(pool.touch("s", t(70)), Some("c1".to_string()));
    assert_eq!(pool.idle_sessions(Elapsed::from_secs(60), t(110)), vec!["u"]);
    assert_eq!(pool.idle_sessions(Elapsed::zero(), t(10_000)), Vec::<String>::new());
    assert_eq!(pool.teardown("u"), Some("c2".to_string()));
    assert_eq!(pool.teardown("u"), None);
}

#[test]
fn the_chat_server_answers_or_fails() {
    let s = |t: &str| t.to_string();
    assert_eq!(backend_reply(&BackendReply::Answered(Some(s("x")))).unwrap(), "x");
    assert_eq!(backend_reply(&BackendReply::Answered(None)).unwrap(), "No response content");
    let failed = |r: BackendReply| backend_reply(&r).unwrap_err().to_http_error();
    let gateway = |m: &str| (502, format!("Chat backend failed: {m}"));
    assert_eq!(failed(BackendReply::NoServer), gateway("No chat server available"));
    assert_eq!(failed(BackendReply::Unavailable(s("e"))), gateway("Failed to get chat server: e"));
    assert_eq!(failed(BackendReply::NotSent(s("e"))), gateway("Request failed: e"));
    assert_eq!(failed(BackendReply::Refused(Some(s("e")))), gateway("Chat API Error: e"));
    assert_eq!(failed(BackendReply::Refused(None)), gateway("Chat API Error: Unknown error"));
    assert_eq!(failed(BackendReply::Unreadable(s("e"))), gateway("Failed to parse response: e"));
}
