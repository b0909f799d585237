use llama_nexus::chat::planner::SubTaskStatus;
use llama_nexus::chat::trace::{
    DurationRepr, IterationTrace, PlanTrace, ReactTrace, SubtaskTrace, TokenUsage, ToolCallTrace,
    TraceStatus,
};
use llama_nexus::clock::{Elapsed, Timestamp};

#[test]
fn test_react_trace_creation() {
    let trace = ReactTrace::new("req-123".to_string(), Some("conv-456".to_string()));
    assert_eq!(trace.request_id, "req-123");
    assert_eq!(trace.conversation_id, Some("conv-456".to_string()));
    assert!(trace.iterations.is_empty());
}

#[test]
fn test_iteration_trace_creation() {
    let mut iter = IterationTrace::new(1);
    iter.thought = Some("I need to search for information".to_string());
    iter.action = Some("search".to_string());

    let tool_call = ToolCallTrace::new(
        "search".to_string(),
        "search-server".to_string(),
        "{\"query\":\"test\"}".to_string(),
    );
    iter.add_tool_call(tool_call);

    assert_eq!(iter.iteration, 1);
    assert_eq!(iter.tool_calls.len(), 1);
}

#[test]
fn test_trace_summary() {
    let mut trace = ReactTrace::new("req-123".to_string(), None);

    let mut iter1 = IterationTrace::new(1);
    iter1.llm_tokens = TokenUsage::new(100u64, 50u64);
    iter1.add_tool_call(ToolCallTrace::new(
        "tool1".to_string(),
        "server1".to_string(),
        "{}".to_string(),
    ));
    trace.add_iteration(iter1);

    let mut iter2 = IterationTrace::new(2);
    iter2.llm_tokens = TokenUsage::new(150u64, 75u64);
    trace.add_iteration(iter2);

    trace.finalize(Elapsed::from_secs(5), TraceStatus::Success);

    let summary = trace.summary();
    assert!(summary.contains("iterations=2"));
    assert!(summary.contains("tool_calls=1"));
    assert!(summary.contains("tokens=375"));
}

#[test]
fn test_subtask_trace_creation() {
    let trace = SubtaskTrace::new(1, "Test subtask".to_string());
    assert_eq!(trace.subtask_id, 1);
    assert_eq!(trace.description, "Test subtask");
    assert!(matches!(trace.status, SubTaskStatus::Pending));
    assert!(trace.react_iterations.is_empty());
}

#[test]
fn trace_test_subtask_trace_lifecycle() {
    let mut trace = SubtaskTrace::new(1, "Test subtask".to_string());

    // Start
    trace.start();
    assert!(matches!(trace.status, SubTaskStatus::InProgress));
    assert!(trace.start_time.is_some());

    // Add iterations
    let mut iter1 = IterationTrace::new(1);
    iter1.llm_tokens = TokenUsage::new(100, 50);
    trace.add_iteration(iter1);

    let mut iter2 = IterationTrace::new(2);
    iter2.llm_tokens = TokenUsage::new(80, 40);
    trace.add_iteration(iter2);

    // Complete
    trace.complete("Task completed successfully".to_string());
    assert!(matches!(trace.status, SubTaskStatus::Completed));
    assert!(trace.end_time.is_some());
    assert!(trace.duration.is_some());
    assert_eq!(
        trace.result,
        Some("Task completed successfully".to_string())
    );

    // Check token calculation
    let tokens = trace.total_tokens();
    assert_eq!(tokens.prompt_tokens, 180);
    assert_eq!(tokens.completion_tokens, 90);
    assert_eq!(tokens.total_tokens, 270);
}

#[test]
fn trace_test_subtask_trace_failure() {
    let mut trace = SubtaskTrace::new(1, "Test subtask".to_string());
    trace.start();
    trace.fail("Something went wrong".to_string());

    assert!(matches!(trace.status, SubTaskStatus::Failed(_)));
    assert!(matches!(trace.react_status, TraceStatus::Error(_)));
}

#[test]
fn test_subtask_trace_timeout() {
    let mut trace = SubtaskTrace::new(1, "Test subtask".to_string());
    trace.start();
    trace.timeout();

    assert!(matches!(trace.status, SubTaskStatus::Failed(_)));
    assert!(matches!(trace.react_status, TraceStatus::Timeout));
}

#[test]
fn test_plan_trace_creation() {
    let trace = PlanTrace::new(
        "plan-123".to_string(),
        "User goal".to_string(),
        vec![0, 1, 2],
    );
    assert_eq!(trace.plan_id, "plan-123");
    assert_eq!(trace.original_goal, "User goal");
    assert_eq!(trace.subtask_count, 3);
    assert_eq!(trace.execution_order, vec![0, 1, 2]);
    assert!(trace.subtask_traces.is_empty());
}

#[test]
fn trace_test_plan_trace_lifecycle() {
    let mut plan_trace =
        PlanTrace::new("plan-123".to_string(), "User goal".to_string(), vec![0, 1]);

    // Start
    plan_trace.start();
    assert!(plan_trace.start_time.is_some());

    // Add subtask traces
    let mut subtask1 = SubtaskTrace::new(0, "Subtask 1".to_string());
    subtask1.start();
    let mut iter = IterationTrace::new(1);
    iter.llm_tokens = TokenUsage::new(100, 50);
    subtask1.add_iteration(iter);
    subtask1.complete("Result 1".to_string());
    plan_trace.add_subtask_trace(subtask1);

    let mut subtask2 = SubtaskTrace::new(1, "Subtask 2".to_string());
    subtask2.start();
    let mut iter = IterationTrace::new(1);
    iter.llm_tokens = TokenUsage::new(80, 40);
    subtask2.add_iteration(iter);
    subtask2.complete("Result 2".to_string());
    plan_trace.add_subtask_trace(subtask2);

    // Finalize
    plan_trace.finalize(TraceStatus::Success);

    assert_eq!(plan_trace.completed_count(), 2);
    assert_eq!(plan_trace.failed_count(), 0);
    assert_eq!(plan_trace.total_tokens.prompt_tokens, 180);
    assert_eq!(plan_trace.total_tokens.completion_tokens, 90);
    assert!(plan_trace.end_time.is_some());
}

#[test]
fn summaries_tell_durations_and_status() {
    let mut trace = ReactTrace::new("r".to_string(), None);
    trace.finalize(
        Elapsed { secs: 1, nanos: 500_000_000 },
        TraceStatus::Error("bad \"luck\"\n".to_string()),
    );
    assert_eq!(
        trace.summary(),
        "ReactTrace[request_id=r, iterations=0, tool_calls=0, tokens=0, duration=1.5s, status=Error(\"bad \\\"luck\\\"\\n\")]"
    );
    let mut s = SubtaskTrace::new(3, "d".to_string());
    assert_eq!(
        s.summary(),
        "SubtaskTrace[id=3, iterations=0, tokens=0, retries=0, duration=None, status=Pending]"
    );
    s.start_at(Timestamp { secs: 100, nanos: 0 });
    s.fail_at("no".to_string(), Timestamp { secs: 102, nanos: 0 });
    assert_eq!(
        s.summary(),
        "SubtaskTrace[id=3, iterations=0, tokens=0, retries=0, duration=Some(2s), status=Failed(\"no\")]"
    );
    let mut p = PlanTrace::new("p".to_string(), "g".to_string(), vec![0]);
    p.add_subtask_trace(s);
    p.finalize(TraceStatus::Timeout);
    assert_eq!(
        p.summary(),
        "PlanTrace[plan_id=p, subtasks=0/1 completed, failed=1, tokens=0, duration=0ns, status=Timeout]"
    );
}

#[test]
fn time_that_runs_backwards_counts_as_none() {
    let mut s = SubtaskTrace::new(1, "d".to_string());
    s.start_at(Timestamp { secs: 100, nanos: 5 });
    s.complete_at("r".to_string(), Timestamp { secs: 100, nanos: 4 });
    assert_eq!(s.duration, Some(Elapsed::zero()));
    let mut s = SubtaskTrace::new(1, "d".to_string());
    s.start_at(Timestamp { secs: 99, nanos: 999_999_999 });
    s.complete_at("r".to_string(), Timestamp { secs: 101, nanos: 1 });
    assert_eq!(s.duration, Some(Elapsed { secs: 1, nanos: 2 }));
}

#[test]
fn durations_are_stored_in_milliseconds() {
    let d = Elapsed { secs: 3, nanos: 1_999_999 };
    let stored = DurationRepr::from_elapsed(&d);
    assert_eq!((stored.secs, stored.millis), (3, 1));
    assert_eq!(stored.to_elapsed(), Elapsed { secs: 3, nanos: 1_000_000 });
    let over = DurationRepr { secs: 1, millis: 2500 };
    assert_eq!(over.to_elapsed(), Elapsed { secs: 3, nanos: 500_000_000 });
}

#[test]
fn fresh_records_by_default() {
    let s = SubtaskTrace::default();
    assert_eq!(s.subtask_id, 0);
    assert!(s.description.is_empty());
    let p = PlanTrace::default();
    assert_eq!(p.subtask_count, 0);
    assert_eq!(p.total_tokens.total_tokens, 0);
}
