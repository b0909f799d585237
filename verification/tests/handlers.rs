use llama_nexus::responses::handlers::{estimate_tokens, validate_request, ResponseError};
use llama_nexus::responses::models::{ReasoningSettings, ResponseRequest};
use llama_nexus::text_map::TextMap;

fn bits(x: f32) -> u32 {
    x.to_bits()
}

#[test]
fn test_estimate_tokens() {
    assert_eq!(estimate_tokens(""), 0);

    assert_eq!(estimate_tokens("a"), 1);

    assert_eq!(estimate_tokens("test"), 1);
    assert_eq!(estimate_tokens("hello"), 2);

    assert_eq!(estimate_tokens("This is a test message"), 6);

    assert_eq!(estimate_tokens("Hello, world!"), 4);
}

#[test]
fn test_response_error_to_http_error() {
    let invalid_input = ResponseError::InvalidInput("Invalid request".to_string());
    let (status, msg) = invalid_input.to_http_error();
    assert_eq!(status, 400);
    assert_eq!(msg, "Invalid request");

    let session_not_found = ResponseError::SessionNotFound("Session missing".to_string());
    let (status, msg) = session_not_found.to_http_error();
    assert_eq!(status, 404);
    assert_eq!(msg, "Session missing");

    let database_error = ResponseError::DatabaseError("DB connection failed".to_string());
    let (status, msg) = database_error.to_http_error();
    assert_eq!(status, 500);
    assert_eq!(msg, "DB connection failed");

    let backend_error = ResponseError::ChatBackendError("Backend unavailable".to_string());
    let (status, msg) = backend_error.to_http_error();
    assert_eq!(status, 502);
    assert_eq!(msg, "Backend unavailable");
}

#[test]
fn test_response_error_from_conversion() {
    let error = ResponseError::InvalidInput("Bad data".to_string());
    let (status, msg): (u16, String) = error.to_http_error();
    assert_eq!(status, 400);
    assert_eq!(msg, "Bad data");
}

#[test]
fn test_validate_request_temperature_range() {
    let mut req = ResponseRequest {
        model: "test_model".to_string(),
        input: "test input".to_string(),
        instructions: None,
        previous_response_id: None,
        modalities: None,
        response_format: None,
        reasoning: None,
        temperature: Some(bits(1.5)),
        top_p: None,
        max_output_tokens: None,
        stream: None,
        included: None,
        tools: None,
        tool_choice: None,
        tool_resources: None,
        attachments: None,
        metadata: None,
        user: None,
    };

    let result = validate_request(&req);
    assert!(result.is_ok());

    req.temperature = Some(bits(2.5));
    let result = validate_request(&req);
    assert!(result.is_err());

    req.temperature = Some(bits(-0.1));
    let result = validate_request(&req);
    assert!(result.is_err());
}

#[test]
fn test_validate_request_top_p_range() {
    let mut req = ResponseRequest {
        model: "test_model".to_string(),
        input: "test input".to_string(),
        instructions: None,
        previous_response_id: None,
        modalities: None,
        response_format: None,
        reasoning: None,
        temperature: None,
        top_p: Some(bits(0.95)),
        max_output_tokens: None,
        stream: None,
        included: None,
        tools: None,
        tool_choice: None,
        tool_resources: None,
        attachments: None,
        metadata: None,
        user: None,
    };

    let result = validate_request(&req);
    assert!(result.is_ok());

    req.top_p = Some(bits(1.1));
    let result = validate_request(&req);
    assert!(result.is_err());

    req.top_p = Some(bits(-0.1));
    let result = validate_request(&req);
    assert!(result.is_err());
}

#[test]
fn test_validate_request_max_output_tokens() {
    let mut req = ResponseRequest {
        model: "test_model".to_string(),
        input: "test input".to_string(),
        instructions: None,
        previous_response_id: None,
        modalities: None,
        response_format: None,
        reasoning: None,
        temperature: None,
        top_p: None,
        max_output_tokens: Some(100),
        stream: None,
        included: None,
        tools: None,
        tool_choice: None,
        tool_resources: None,
        attachments: None,
        metadata: None,
        user: None,
    };

    let result = validate_request(&req);
    assert!(result.is_ok());

    req.max_output_tokens = Some(0);
    let result = validate_request(&req);
    assert!(result.is_err());
}

#[test]
fn test_validate_request_streaming_not_implemented() {
    let req = ResponseRequest {
        model: "test_model".to_string(),
        input: "test input".to_string(),
        instructions: None,
        previous_response_id: None,
        modalities: None,
        response_format: None,
        reasoning: None,
        temperature: None,
        top_p: None,
        max_output_tokens: None,
        stream: Some(true),
        included: None,
        tools: None,
        tool_choice: None,
        tool_resources: None,
        attachments: None,
        metadata: None,
        user: None,
    };

    let result = validate_request(&req);
    assert!(result.is_err());
    match result {
        Err(ResponseError::InvalidInput(msg)) => {
            assert!(msg.contains("Streaming not yet implemented"));
        }
        _ => panic!("Expected InvalidInput error"),
    }
}

#[test]
fn test_validate_request_warnings() {
    let req = ResponseRequest {
        model: "test_model".to_string(),
        input: "test input".to_string(),
        instructions: None,
        previous_response_id: None,
        modalities: Some(vec!["text".to_string(), "audio".to_string()]),
        response_format: None,
        reasoning: Some(ReasoningSettings {
            effort: "medium".to_string(),
            extra: TextMap::new(),
        }),
        temperature: None,
        top_p: None,
        max_output_tokens: None,
        stream: None,
        included: None,
        tools: None,
        tool_choice: None,
        tool_resources: None,
        attachments: None,
        metadata: None,
        user: None,
    };

    let result = validate_request(&req);
    assert!(result.is_ok());
    let warnings = result.unwrap();
    assert!(!warnings.is_empty());
    assert!(warnings.iter().any(|w| w.contains("modalities")));
    assert!(warnings.iter().any(|w| w.contains("Reasoning")));
}
