use llama_nexus::responses::models::{ResponseReply, Session};

#[test]
fn test_session_add_message() {
    let mut session = Session::new("test_id".to_string(), "test_model".to_string(), None);

    session.add_message("user".to_string(), "Hello!".to_string(), 5, None, None);

    assert_eq!(session.messages.len(), 1);
    let message = session.messages.get("0").unwrap();
    assert_eq!(message.role, "user");
    assert_eq!(message.content, "Hello!");
    assert_eq!(message.tokens, 5);
    assert!(message.response_id.is_none());

    session.add_message(
        "assistant".to_string(),
        "Hi there!".to_string(),
        10,
        Some(150),
        Some("resp_123".to_string()),
    );

    assert_eq!(session.messages.len(), 2);
    let assistant_msg = session.messages.get("1").unwrap();
    assert_eq!(assistant_msg.role, "assistant");
    assert_eq!(assistant_msg.content, "Hi there!");
    assert_eq!(assistant_msg.tokens, 10);
    assert_eq!(assistant_msg.response_time, Some(150));
    assert_eq!(assistant_msg.response_id, Some("resp_123".to_string()));
}

#[test]
fn test_session_get_conversation_history() {
    let mut session = Session::new(
        "test_id".to_string(),
        "test_model".to_string(),
        Some("System prompt".to_string()),
    );

    session.add_message(
        "user".to_string(),
        "First message".to_string(),
        5,
        None,
        None,
    );
    session.add_message(
        "assistant".to_string(),
        "First response".to_string(),
        8,
        None,
        None,
    );
    session.add_message(
        "user".to_string(),
        "Second message".to_string(),
        6,
        None,
        None,
    );

    let history = session.get_conversation_history();

    assert_eq!(history.len(), 4);
    assert_eq!(
        history[0],
        ("system".to_string(), "System prompt".to_string())
    );
    assert_eq!(
        history[1],
        ("user".to_string(), "First message".to_string())
    );
    assert_eq!(
        history[2],
        ("assistant".to_string(), "First response".to_string())
    );
    assert_eq!(
        history[3],
        ("user".to_string(), "Second message".to_string())
    );
}

#[test]
fn test_response_reply_new() {
    let response = ResponseReply::new(
        "resp_123".to_string(),
        "test_model".to_string(),
        "Hello, world!".to_string(),
        10,
        15,
        Some("prev_resp_456".to_string()),
    );

    assert_eq!(response.id, "resp_123");
    assert_eq!(response.object, "response");
    assert_eq!(response.status, "completed");
    assert_eq!(response.model, "test_model");
    assert_eq!(
        response.previous_response_id,
        Some("prev_resp_456".to_string())
    );

    assert_eq!(response.usage.input_tokens, 10);
    assert_eq!(response.usage.output_tokens, 15);
    assert_eq!(response.usage.total_tokens, 25);

    assert_eq!(response.output.len(), 1);
    let output_item = &response.output[0];
    assert_eq!(output_item.item_type, "message");
    assert_eq!(output_item.status, "completed");
    assert_eq!(output_item.role, "assistant");

    assert_eq!(output_item.content.len(), 1);
    let content_item = &output_item.content[0];
    assert_eq!(content_item.content_type, "output_text");
    assert_eq!(content_item.text, "Hello, world!");
}
