use llama_nexus::chat::message::ChatMessage;
use llama_nexus::chat::plan::is_retryable_error;
use llama_nexus::chat::planner::{SubTask, SubTaskStatus, ToolDescription};
use llama_nexus::chat::subtask::{build_context_for_react, build_tools_json};
use llama_nexus::chat::trace::{IterationTrace, PlanTrace, SubtaskTrace, TraceStatus};
use llama_nexus::error::ServerError;

#[test]
fn test_build_context_for_react_no_dependencies() {
    let subtask = SubTask::new(0, "Query weather".to_string());
    let previous_results: Vec<(usize, String)> = vec![];
    let available_tools = vec![ToolDescription {
        name: "weather---weather-server".to_string(),
        description: "Get weather information".to_string(),
    }];

    let messages = build_context_for_react(&subtask, &previous_results, &available_tools);

    // Should have system message + user message with task
    assert_eq!(messages.len(), 2);
}

#[test]
fn test_build_context_for_react_with_dependencies() {
    let subtask =
        SubTask::new(2, "Summarize results".to_string()).with_dependencies(vec![0, 1]);
    let previous_results = vec![
        (0, "Beijing: Sunny".to_string()),
        (1, "Shanghai: Rainy".to_string()),
    ];
    let available_tools = vec![];

    let messages = build_context_for_react(&subtask, &previous_results, &available_tools);

    // Should have system message + context message + task message
    assert_eq!(messages.len(), 3);
}

#[test]
fn test_build_tools_json() {
    let tools = vec![
        ToolDescription {
            name: "weather---weather-server".to_string(),
            description: "Get weather information".to_string(),
        },
        ToolDescription {
            name: "search---search-server".to_string(),
            description: "Search the web".to_string(),
        },
    ];

    let tools_json: serde_json::Value = serde_json::from_str(&build_tools_json(&tools)).unwrap();

    assert!(tools_json.is_array());
    assert_eq!(tools_json.as_array().unwrap().len(), 2);
    assert_eq!(
        tools_json[0]["function"]["name"],
        "weather---weather-server"
    );
    assert_eq!(tools_json[1]["function"]["name"], "search---search-server");
}

#[test]
fn plan_test_subtask_trace_lifecycle() {
    let mut trace = SubtaskTrace::new(0, "Test task".to_string());

    assert_eq!(trace.subtask_id, 0);
    assert_eq!(trace.description, "Test task");
    assert!(matches!(trace.status, SubTaskStatus::Pending));
    assert!(trace.react_iterations.is_empty());

    // Start the trace
    trace.start();
    assert!(trace.start_time.is_some());

    // Add an iteration
    let iter_trace = IterationTrace::new(1);
    trace.add_iteration(iter_trace);
    assert_eq!(trace.react_iterations.len(), 1);

    // Complete the trace
    trace.complete("Result".to_string());
    assert!(matches!(trace.status, SubTaskStatus::Completed));
    assert_eq!(trace.result, Some("Result".to_string()));
    assert!(trace.end_time.is_some());
    assert!(trace.duration.is_some());
}

#[test]
fn plan_test_subtask_trace_failure() {
    let mut trace = SubtaskTrace::new(1, "Test task".to_string());
    trace.start();

    trace.fail("Error occurred".to_string());

    assert!(matches!(trace.status, SubTaskStatus::Failed(_)));
    if let SubTaskStatus::Failed(msg) = &trace.status {
        assert_eq!(msg, "Error occurred");
    }
}

#[test]
fn plan_test_plan_trace_lifecycle() {
    let mut trace = PlanTrace::new(
        "plan-123".to_string(),
        "Test goal".to_string(),
        vec![0, 1, 2],
    );

    assert_eq!(trace.plan_id, "plan-123");
    assert_eq!(trace.original_goal, "Test goal");
    assert_eq!(trace.execution_order, vec![0, 1, 2]);
    assert_eq!(trace.subtask_count, 3);

    // Start the trace
    trace.start();
    assert!(trace.start_time.is_some());

    // Add subtask traces
    let subtask_trace = SubtaskTrace::new(0, "Task 0".to_string());
    trace.add_subtask_trace(subtask_trace);
    assert_eq!(trace.subtask_traces.len(), 1);

    // Finalize
    trace.finalize(TraceStatus::Success);
    assert!(matches!(trace.plan_status, TraceStatus::Success));
    assert!(trace.end_time.is_some());
}

#[test]
fn test_is_retryable_error_tool_call_retry_exhausted() {
    let error = ServerError::ToolCallRetryExhausted {
        tool_name: "test_tool".to_string(),
        attempts: 3,
        message: "Failed".to_string(),
    };
    assert!(is_retryable_error(&error));
}

#[test]
fn test_is_retryable_error_max_iterations_exceeded() {
    let error = ServerError::MaxIterationsExceeded(10);
    assert!(is_retryable_error(&error));
}

#[test]
fn test_is_retryable_error_subtask_timeout() {
    let error = ServerError::SubtaskTimeout {
        subtask_id: 1,
        timeout_secs: 60,
    };
    assert!(is_retryable_error(&error));
}

#[test]
fn test_is_retryable_error_mcp_operation() {
    let error = ServerError::McpOperation("Connection failed".to_string());
    assert!(is_retryable_error(&error));
}

#[test]
fn test_is_retryable_error_mcp_empty_content() {
    let error = ServerError::McpEmptyContent;
    assert!(is_retryable_error(&error));
}

#[test]
fn test_is_retryable_error_react_timeout() {
    let error = ServerError::ReactTimeout(300);
    assert!(is_retryable_error(&error));
}

#[test]
fn test_is_not_retryable_error_operation() {
    let error = ServerError::Operation("Client cancelled".to_string());
    assert!(!is_retryable_error(&error));
}

#[test]
fn test_is_not_retryable_error_plan_parse_error() {
    let error = ServerError::PlanParseError("Invalid XML".to_string());
    assert!(!is_retryable_error(&error));
}

#[test]
fn test_is_not_retryable_error_cyclic_dependency() {
    let error = ServerError::CyclicDependency;
    assert!(!is_retryable_error(&error));
}

#[test]
fn test_is_not_retryable_error_empty_plan() {
    let error = ServerError::EmptyPlan;
    assert!(!is_retryable_error(&error));
}

#[test]
fn test_build_context_for_react_partial_dependencies() {
    // Subtask depends on 0 and 1, but only 0 is available
    let subtask =
        SubTask::new(2, "Summarize results".to_string()).with_dependencies(vec![0, 1]);
    let previous_results = vec![(0, "Beijing: Sunny".to_string())];
    let available_tools = vec![];

    let messages = build_context_for_react(&subtask, &previous_results, &available_tools);

    // Should have system message + context message (with partial deps) + task message
    assert_eq!(messages.len(), 3);
}

#[test]
fn test_build_context_for_react_system_message_contains_task() {
    let subtask = SubTask::new(0, "Query weather for Beijing".to_string());
    let previous_results: Vec<(usize, String)> = vec![];
    let available_tools = vec![ToolDescription {
        name: "weather---weather-server".to_string(),
        description: "Get weather information".to_string(),
    }];

    let messages = build_context_for_react(&subtask, &previous_results, &available_tools);

    // Check system message contains task description
    if let ChatMessage::System { content, .. } = &messages[0] {
        assert!(content.contains("Query weather for Beijing"));
        assert!(content.contains("weather---weather-server"));
    } else {
        panic!("First message should be system message");
    }
}

#[test]
fn test_build_context_for_react_empty_tools() {
    let subtask = SubTask::new(0, "Simple task".to_string());
    let previous_results: Vec<(usize, String)> = vec![];
    let available_tools: Vec<ToolDescription> = vec![];

    let messages = build_context_for_react(&subtask, &previous_results, &available_tools);

    assert_eq!(messages.len(), 2);
    // System message should still exist even without tools
    assert!(matches!(
        &messages[0],
        ChatMessage::System { .. }
    ));
}

#[test]
fn test_build_tools_json_empty() {
    let tools: Vec<ToolDescription> = vec![];
    let tools_json: serde_json::Value = serde_json::from_str(&build_tools_json(&tools)).unwrap();

    assert!(tools_json.is_array());
    assert_eq!(tools_json.as_array().unwrap().len(), 0);
}

#[test]
fn test_build_tools_json_structure() {
    let tools = vec![ToolDescription {
        name: "test-tool---test-server".to_string(),
        description: "A test tool".to_string(),
    }];

    let tools_json: serde_json::Value = serde_json::from_str(&build_tools_json(&tools)).unwrap();

    let tool = &tools_json[0];
    assert_eq!(tool["type"], "function");
    assert_eq!(tool["function"]["name"], "test-tool---test-server");
    assert_eq!(tool["function"]["description"], "A test tool");
    assert!(tool["function"]["parameters"]["properties"]["query"].is_object());
    assert_eq!(tool["function"]["parameters"]["required"][0], "query");
}
