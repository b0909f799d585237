use llama_nexus::chat::message::ToolCall;
use llama_nexus::chat::normal::to_chat_message;
use llama_nexus::chat::utils::{add_tool_results_to_stored, convert_tool_calls_to_stored};
use llama_nexus::clock::Timestamp;
use llama_nexus::memory::manager::{recent_conversation, CompleteChatMemory, MemoryConfig};
use llama_nexus::memory::summarizer::MessageSummarizer;
use llama_nexus::memory::types::{
    MemoryError, MessageRole, StoredConversation, StoredMessage, StoredToolCall, StoredToolResult,
};

fn at() -> Timestamp {
    Timestamp { secs: 1_700_000_000, nanos: 0 }
}

fn config(context_window: usize, max_stored_messages: usize, summarize_threshold: usize) -> MemoryConfig {
    MemoryConfig {
        database_path: ":memory:".to_string(),
        context_window,
        max_stored_messages,
        auto_summarize: true,
        summarize_threshold,
    }
}

fn message(content: &str, sequence: i64) -> StoredMessage {
    StoredMessage {
        id: format!("m{sequence}"),
        conversation_id: "c".to_string(),
        role: MessageRole::User,
        content: content.to_string(),
        timestamp: at(),
        sequence,
        tokens: None,
        tool_calls: Vec::new(),
    }
}

fn call(name: &str, result: Option<StoredToolResult>) -> StoredToolCall {
    StoredToolCall {
        id: "id".to_string(),
        name: name.to_string(),
        arguments: "{}".to_string(),
        result,
        sequence: 0,
    }
}

fn result(success: bool, error: Option<&str>) -> StoredToolResult {
    StoredToolResult {
        content: "\"x\"".to_string(),
        success,
        error: error.map(|e| e.to_string()),
        execution_time_ms: None,
        timestamp: at(),
    }
}

#[test]
fn role_names_round_trip() {
    for role in [MessageRole::User, MessageRole::Assistant, MessageRole::System, MessageRole::Tool] {
        assert_eq!(MessageRole::from_str(role.to_text()), Ok(role));
    }
    assert_eq!(MessageRole::from_str("ASSISTANT"), Ok(MessageRole::Assistant));
    assert_eq!(
        MessageRole::from_str("robot"),
        Err("Invalid message role: robot".to_string())
    );
}

#[test]
fn new_conversation_is_empty_and_cached() {
    let mut memory = CompleteChatMemory::new(config(1000, 10, 4));
    let conv = memory.create_conversation("model", Some("user".to_string()), None);
    assert_eq!(conv.id.len(), 36);
    assert_eq!(conv.model_name, "model");
    assert_eq!(conv.message_count, 0);
    assert!(memory.is_cached(&conv.id));
    assert!(!memory.is_cached("other"));
    assert_eq!(memory.get_model_context(&conv.id).unwrap().len(), 0);
    memory.delete_conversation(&conv.id);
    assert!(!memory.is_cached(&conv.id));
    assert!(matches!(
        memory.get_model_context(&conv.id),
        Err(MemoryError::ConversationNotFound(id)) if id == conv.id
    ));
}

#[test]
fn cached_conversation_is_not_replaced() {
    let mut memory = CompleteChatMemory::new(config(1000, 10, 4));
    memory.ensure_conversation_in_cache("c", Some("s".to_string()), vec![message("a", 0)]);
    memory.ensure_conversation_in_cache("c", None, Vec::new());
    let context = memory.get_model_context("c").unwrap();
    assert_eq!(context.len(), 2);
    assert_eq!(context[0].role, "system");
    assert_eq!(context[0].content, "Previous conversation summary: s");
    assert_eq!(context[1].role, "user");
    assert_eq!(context[1].content, "a");
}

#[test]
fn message_for_unknown_conversation_is_refused() {
    let mut memory = CompleteChatMemory::new(config(1000, 10, 4));
    let r = memory.update_working_context("nope", message("a", 0));
    assert!(matches!(r, Err(MemoryError::ConversationNotFound(id)) if id == "nope"));
}

#[test]
fn context_over_the_message_limit_is_summarized() {
    let mut memory = CompleteChatMemory::new(config(100_000, 3, 4));
    memory.ensure_conversation_in_cache("c", None, Vec::new());
    for i in 0..3 {
        let r = memory.update_working_context("c", message("hello", i)).unwrap();
        assert!(r.is_none());
    }
    let update = memory.update_working_context("c", message("hello", 3)).unwrap().unwrap();
    // Three messages stay, one leaves.
    assert_eq!(update.summary, "Conversation with 1 messages.");
    assert_eq!(update.last_sequence, Some(0));
    let context = memory.get_model_context("c").unwrap();
    assert_eq!(context.len(), 4);
    assert_eq!(
        context[0].content,
        "Previous conversation summary: Conversation with 1 messages."
    );
}

#[test]
fn context_over_the_token_limit_keeps_recent_messages() {
    // 40 bytes are 10 tokens; the window of 25 tokens is passed by the third message.
    let text = "0123456789012345678901234567890123456789";
    let mut memory = CompleteChatMemory::new(config(25, 100, 4));
    memory.ensure_conversation_in_cache("c", None, Vec::new());
    assert!(memory.update_working_context("c", message(text, 0)).unwrap().is_none());
    assert!(memory.update_working_context("c", message(text, 1)).unwrap().is_none());
    let update = memory.update_working_context("c", message(text, 2)).unwrap().unwrap();
    // Nothing fits into a fifth of the window, but half the threshold stays.
    assert_eq!(update.last_sequence, Some(0));
    assert_eq!(memory.get_model_context("c").unwrap().len(), 3);
}

#[test]
fn without_summaries_nothing_leaves() {
    let mut c = config(10, 1, 4);
    c.auto_summarize = false;
    let mut memory = CompleteChatMemory::new(c);
    memory.ensure_conversation_in_cache("c", None, Vec::new());
    for i in 0..5 {
        assert!(memory.update_working_context("c", message("hello hello hello", i)).unwrap().is_none());
    }
    assert_eq!(memory.get_model_context("c").unwrap().len(), 5);
}

#[test]
fn keep_count_follows_single_precision() {
    // Messages of one token each: as many stay as fit into a fifth of the window.
    for window in [0usize, 1, 4, 5, 7, 10, 24, 25, 100, 123, 250, 499, 500] {
        let memory = CompleteChatMemory::new(config(window, usize::MAX, 0));
        let messages: Vec<StoredMessage> = (0..200).map(|i| message("abcd", i)).collect();
        let target = (window as f32 * (1.0f32 - 0.8f32)) as usize;
        assert_eq!(memory.calculate_keep_count(&messages), target.min(200), "window {window}");
    }
}

#[test]
fn keep_count_in_large_windows_follows_single_precision() {
    // One message that takes exactly `tokens` tokens stays when the target is as large.
    for window in [16_777_217usize, 20_000_001, 33_554_433, 100_000_007] {
        let target = (window as f32 * (1.0f32 - 0.8f32)) as usize;
        let memory = CompleteChatMemory::new(config(window, 10, 0));
        let fits = vec![message(&"abcd".repeat(target), 0)];
        assert_eq!(memory.calculate_keep_count(&fits), 1, "window {window}");
        let too_long = vec![message(&"abcd".repeat(target + 1), 0)];
        assert_eq!(memory.calculate_keep_count(&too_long), 0, "window {window}");
    }
}

#[test]
fn tool_calls_weigh_a_hundred_tokens() {
    let mut m = message("abcdefgh", 0);
    assert_eq!(CompleteChatMemory::estimate_message_tokens(&m), 2);
    m.tool_calls = vec![call("a", None), call("b", None)];
    assert_eq!(CompleteChatMemory::estimate_message_tokens(&m), 202);
    assert_eq!(CompleteChatMemory::calculate_total_tokens(&vec![m, message("abcd", 1)]), 203);
}

#[test]
fn summary_prompt_tells_messages_and_calls() {
    let mut m = message("hi", 0);
    m.tool_calls = vec![
        call("a", None),
        call("b", Some(result(true, None))),
        call("c", Some(result(false, Some("boom")))),
        call("d", Some(result(false, None))),
    ];
    let prompt = MessageSummarizer::new(None).build_summary_prompt(&vec![m], None);
    assert!(prompt.starts_with("Please summarize the following conversation:\\n\\n**user:** hi\\n"));
    assert!(prompt.contains("  Used tool: a\\n  Used tool: b (successful)\\n"));
    assert!(prompt.contains("  Used tool: c (failed: boom)\\n  Used tool: d (failed: unknown error)\\n\n"));
    assert!(prompt.ends_with("Summary:"));
    let with = MessageSummarizer::new(None).build_summary_prompt(&Vec::new(), Some("before"));
    assert!(with.starts_with(
        "Previous conversation summary:\\nbefore\\n\\nNew messages to incorporate:\\n\\n"
    ));
}

#[test]
fn summary_counts_messages() {
    let s = MessageSummarizer::new(None);
    let messages: Vec<StoredMessage> = (0..7).map(|i| message("text", i)).collect();
    assert_eq!(s.summarize_stored_messages(&messages, None), "Conversation with 7 messages.");
    let mut with_tools = messages;
    with_tools[3].tool_calls = vec![call("search", None)];
    assert_eq!(
        s.summarize_stored_messages(&with_tools, None),
        "Conversation with 7 messages involving tool usage."
    );
    assert_eq!(s.summarize_stored_messages(&Vec::new(), Some("old")), "old");
    assert_eq!(s.summarize_stored_messages(&Vec::new(), None), "");
}

#[test]
fn stored_calls_keep_their_arguments_as_json() {
    let calls = vec![
        ToolCall {
            id: "1".to_string(),
            ty: "function".to_string(),
            name: "f".to_string(),
            arguments: "{ \"b\" : 1, \"a\" : [ true ] }".to_string(),
        },
        ToolCall {
            id: "2".to_string(),
            ty: "function".to_string(),
            name: "g".to_string(),
            arguments: "not \"json\"".to_string(),
        },
    ];
    let mut stored = convert_tool_calls_to_stored(&calls);
    assert_eq!(stored.len(), 2);
    let first: serde_json::Value = serde_json::from_str(&stored[0].arguments).unwrap();
    assert_eq!(first["b"], 1);
    assert_eq!(first["a"][0], true);
    assert!(!stored[0].arguments.contains(' '));
    assert_eq!(stored[1].arguments, "\"not \\\"json\\\"\"");
    assert_eq!(stored[1].sequence, 1);
    assert!(stored[0].result.is_none());

    add_tool_results_to_stored(&mut stored, &vec!["line\nbreak".to_string()]);
    let result = stored[0].result.as_ref().unwrap();
    assert_eq!(result.content, "\"line\\nbreak\"");
    assert!(result.success);
    assert!(result.timestamp.secs > 1_600_000_000);
    assert!(stored[1].result.is_none());
}

#[test]
fn memory_messages_become_chat_messages() {
    let mut memory = CompleteChatMemory::new(config(100_000, 10, 4));
    let mut m = message("answer", 1);
    m.role = MessageRole::Assistant;
    m.tool_calls = vec![call("search", None)];
    memory.ensure_conversation_in_cache("c", Some("s".to_string()), vec![message("q", 0), m]);
    let context = memory.get_model_context("c").unwrap();
    let chat: Vec<String> = context.iter().map(|m| format!("{:?}", to_chat_message(m))).collect();
    assert!(chat[0].starts_with("System"));
    assert!(chat[1].starts_with("User"));
    assert!(chat[2].starts_with("Assistant"));
    assert!(chat[2].contains("search"));
    assert_eq!(context[2].tool_calls.as_ref().unwrap()[0].ty, "function");
}

#[test]
fn memory_errors_in_words() {
    assert_eq!(
        MemoryError::ConversationNotFound("c".to_string()).message(),
        "Conversation not found: c"
    );
    assert_eq!(MemoryError::Database("x".to_string()).message(), "Database error: x");
    assert_eq!(
        MemoryError::SummarizationFailed("x".to_string()).message(),
        "Summarization failed: x"
    );
}

#[test]
fn user_and_assistant_messages_are_made_to_be_stored() {
    let u = CompleteChatMemory::user_message("c", "hi".to_string(), 7);
    assert_eq!(u.id.len(), 36);
    assert_eq!(u.role, MessageRole::User);
    assert_eq!(u.sequence, 7);
    let a = CompleteChatMemory::assistant_message("c", "yo", vec![call("x", None)], 8);
    assert_eq!(a.role, MessageRole::Assistant);
    assert_eq!(a.tool_calls.len(), 1);
    assert_ne!(u.id, a.id);
}

fn conversation(id: &str, user: Option<&str>, secs: i64) -> StoredConversation {
    StoredConversation {
        id: id.to_string(),
        user_id: user.map(|u| u.to_string()),
        title: None,
        model_name: "m".to_string(),
        created_at: at(),
        updated_at: Timestamp { secs, nanos: 5 },
        message_count: 0,
        total_tokens: 0,
        summary: Some("before".to_string()),
        last_summary_sequence: None,
    }
}

#[test]
fn users_carry_on_their_conversation_whatever_the_model() {
    let mut memory = CompleteChatMemory::new(config(1000, 2, 2));
    let (id, created) = memory.get_or_create_user_conversation("u", "model a", None);
    let created = created.unwrap();
    assert_eq!(created.id, id);
    assert_eq!(created.user_id.as_deref(), Some("u"));
    assert_eq!(created.model_name, "model a");
    assert!(memory.is_cached(&id));
    let (again, none) =
        memory.get_or_create_user_conversation("u", "model b", Some((created, Vec::new())));
    assert_eq!(again, id);
    assert!(none.is_none());

    let history = vec![message("one", 1), message("two", 2), message("three", 3)];
    let stored = conversation("c", Some("v"), 1);
    let (id, none) = memory.get_or_create_user_conversation("v", "model", Some((stored, history)));
    assert_eq!(id, "c");
    assert!(none.is_none());
    let context: Vec<String> =
        memory.get_model_context("c").unwrap().into_iter().map(|m| m.content).collect();
    assert_eq!(context, vec!["Previous conversation summary: before", "two", "three"]);
}

#[test]
fn the_most_recent_conversation_of_a_user_is_found() {
    let all = vec![
        conversation("a", Some("u"), 1),
        conversation("b", Some("u"), 3),
        conversation("c", Some("v"), 9),
        conversation("d", None, 9),
        conversation("e", Some("u"), 2),
    ];
    assert_eq!(recent_conversation(&all, "u"), Some(1));
    assert_eq!(recent_conversation(&all, "v"), Some(2));
    assert_eq!(recent_conversation(&all, "w"), None);
}
