use llama_nexus::chat::message::{ChatMessage, Completion, ToolCall, ToolContent, ToolReply};
use llama_nexus::chat::plan::{
    final_response_messages, AttemptStep, Moment, PlanRun, PlanStep, SubtaskRun,
};
use llama_nexus::chat::planner::{SubTask, SubTaskStatus, TaskPlan};
use llama_nexus::chat::subtask::{
    end_iteration, get_available_tools, ServiceLookup, SubtaskDecision, SubtaskLoop, ToolCallRun,
    ToolStep,
};
use llama_nexus::chat::trace::{IterationTrace, SubtaskTrace, TokenUsage, TraceStatus};
use llama_nexus::clock::{Elapsed, Timestamp};
use llama_nexus::error::ServerError;
use llama_nexus::mcp::McpService;

fn at(secs: i64) -> Timestamp {
    Timestamp { secs, nanos: 0 }
}

fn moment() -> Moment {
    Moment {
        exhausted: false,
        elapsed_secs: 0,
        cancelled: false,
        allotted: Elapsed::from_secs(100),
        at: at(10),
    }
}

fn plan() -> TaskPlan {
    TaskPlan {
        original_goal: "goal".to_string(),
        subtasks: vec![
            SubTask::new(0, "zero".to_string()),
            SubTask::new(1, "one".to_string()).with_dependencies(vec![0]),
            SubTask::new(2, "two".to_string()),
        ],
        execution_order: vec![0, 9, 1, 2],
    }
}

fn run_of(step: PlanStep) -> SubtaskRun {
    match step {
        PlanStep::Run(run) => run,
        other => panic!("{other:?}"),
    }
}

#[test]
fn plan_runs_to_its_end() {
    let mut run = PlanRun::new("req", plan(), at(0));
    assert_eq!(run.pending, 4);
    let mut s = run_of(run.next(moment(), 30));
    assert_eq!(s.index, 0);
    assert_eq!(s.limit, Elapsed::from_secs(30));
    match s.begin_attempt(Elapsed::from_secs(80)) {
        AttemptStep::Execute(t) => assert_eq!(t, Elapsed::from_secs(20)),
        other => panic!("{other:?}"),
    }
    assert!(!s.end_attempt(&mut run, Ok("done 0".to_string()), 2, at(15)));
    run.finish_subtask(s, 2, at(15));
    assert_eq!(run.completed, vec![0]);
    assert!(matches!(run.next(moment(), 30), PlanStep::Passed));
    let mut s = run_of(run.next(moment(), 30));
    assert_eq!(s.index, 1);
    assert!(!s.end_attempt(&mut run, Ok("done 1".to_string()), 2, at(16)));
    run.finish_subtask(s, 2, at(16));
    let mut s = run_of(run.next(moment(), 30));
    assert!(!s.end_attempt(&mut run, Ok("done 2".to_string()), 2, at(17)));
    run.finish_subtask(s, 2, at(17));
    assert!(matches!(run.next(moment(), 30), PlanStep::Finished));
    run.finish(at(20));
    let recorded: Vec<usize> = run.trace.subtask_traces.iter().map(|t| t.subtask_id).collect();
    assert_eq!(recorded, vec![0, 1, 2]);
    assert_eq!(run.completed, vec![0, 1, 2]);
    assert_eq!(run.results.len(), 3);
    assert_eq!(run.trace.completed_count(), 3);
    assert_eq!(run.trace.total_duration, Elapsed::from_secs(20));
    assert_eq!(run.pending, 1);
    let messages = final_response_messages(&run.plan, &run.results);
    match &messages[0] {
        ChatMessage::User { content, .. } => {
            let text = format!("{content:?}");
            assert!(text.contains("Original Goal: goal"));
            assert!(text.contains("- Task 1: one\\n  Result: done 1"));
        }
        other => panic!("{other:?}"),
    }
}

#[test]
fn failed_subtask_is_retried_and_its_dependents_skipped() {
    let mut run = PlanRun::new("req", plan(), at(0));
    let mut s = run_of(run.next(moment(), 30));
    assert!(s.end_attempt(&mut run, Err(ServerError::McpEmptyContent), 1, at(11)));
    assert_eq!(s.attempt, 1);
    assert!(!s.end_attempt(&mut run, Err(ServerError::MaxIterationsExceeded(5)), 1, at(12)));
    assert_eq!(s.trace.retry_history.len(), 1);
    run.finish_subtask(s, 1, at(13));
    match &run.plan.subtasks[0].status {
        SubTaskStatus::Failed(m) => assert_eq!(
            m,
            "Subtask 0 failed after 2 attempts: Exceeded the maximum of 5 iterations"
        ),
        other => panic!("{other:?}"),
    }
    assert!(matches!(run.next(moment(), 30), PlanStep::Passed));
    assert!(matches!(run.next(moment(), 30), PlanStep::Passed));
    assert_eq!(run.plan.subtasks[1].status, SubTaskStatus::Skipped);
    // The plan goes on with what does not depend on it.
    let s = run_of(run.next(moment(), 30));
    assert_eq!(s.index, 2);
    assert_eq!(run.trace.failed_count(), 1);
    assert_eq!(run.trace.subtask_traces.len(), 2);
}

#[test]
fn error_that_no_retry_helps_ends_the_subtask() {
    let mut run = PlanRun::new("req", plan(), at(0));
    let mut s = run_of(run.next(moment(), 30));
    let e = ServerError::Operation("cancelled".to_string());
    assert!(!s.end_attempt(&mut run, Err(e), 3, at(11)));
    run.finish_subtask(s, 3, at(13));
    assert_eq!(
        run.plan.subtasks[0].status,
        SubTaskStatus::Failed("cancelled".to_string())
    );
}

#[test]
fn subtask_without_time_gives_up() {
    let mut run = PlanRun::new("req", plan(), at(0));
    let mut s = run_of(run.next(moment(), 30));
    assert!(matches!(s.begin_attempt(Elapsed::from_secs(100)), AttemptStep::GiveUp));
    assert_eq!(
        s.last_error,
        Some(ServerError::SubtaskTimeout { subtask_id: 0, timeout_secs: 100 })
    );
}

#[test]
fn plan_ends_when_its_time_is_used_up() {
    let mut run = PlanRun::new("req", plan(), at(0));
    let mut m = moment();
    m.exhausted = true;
    m.elapsed_secs = 7;
    m.cancelled = true;
    match run.next(m, 30) {
        PlanStep::Abort(e) => assert_eq!(e, ServerError::TimeBudgetExhausted { elapsed_secs: 7 }),
        other => panic!("{other:?}"),
    }
    assert_eq!(run.trace.plan_status, TraceStatus::Timeout);
    let mut run = PlanRun::new("req", plan(), at(0));
    m.exhausted = false;
    match run.next(m, 30) {
        PlanStep::Abort(e) => assert_eq!(
            e,
            ServerError::Operation("Request was cancelled by client".to_string())
        ),
        other => panic!("{other:?}"),
    }
}

fn looped(max_iterations: u32, max_tools: usize) -> SubtaskLoop {
    SubtaskLoop::new(
        &SubTask::new(4, "do it".to_string()),
        &Vec::new(),
        &Vec::new(),
        Elapsed::from_secs(10),
        max_iterations,
        max_tools,
    )
}

fn call(name: &str, arguments: &str) -> ToolCall {
    ToolCall {
        id: "id".to_string(),
        ty: "function".to_string(),
        name: name.to_string(),
        arguments: arguments.to_string(),
    }
}

fn completion(content: Option<&str>, calls: Vec<ToolCall>) -> Completion {
    Completion {
        content: content.map(|c| c.to_string()),
        tool_calls: calls,
        prompt_tokens: 10,
        completion_tokens: 5,
    }
}

#[test]
fn loop_has_its_limits() {
    let mut l = looped(1, 2);
    let mut trace = SubtaskTrace::new(4, "do it".to_string());
    let i = l.begin_iteration(Elapsed::from_secs(0), false, at(1), &mut trace).unwrap();
    assert_eq!(i.iteration, 1);
    assert_eq!(
        l.begin_iteration(Elapsed::from_secs(0), false, at(1), &mut trace).unwrap_err(),
        ServerError::MaxIterationsExceeded(1)
    );
    assert_eq!(trace.react_status, TraceStatus::MaxIterationsExceeded);

    let mut l = looped(5, 2);
    assert!(l.begin_iteration(Elapsed::from_secs(10), false, at(1), &mut trace).is_ok());
    assert_eq!(
        l.begin_iteration(Elapsed::from_secs(11), true, at(1), &mut trace).unwrap_err(),
        ServerError::SubtaskTimeout { subtask_id: 4, timeout_secs: 10 }
    );
    assert_eq!(trace.react_status, TraceStatus::Timeout);
    assert_eq!(
        l.begin_iteration(Elapsed::from_secs(1), true, at(1), &mut trace).unwrap_err(),
        ServerError::Operation("Request was cancelled by client".to_string())
    );
}

#[test]
fn loop_calls_tools_and_observes() {
    let mut l = looped(5, 1);
    let mut i = IterationTrace::new(1);
    let c = completion(
        Some("<thought>hm</thought><ACTION>search</ACTION>"),
        vec![call("a__s", "{}"), call("b__s", "{}")],
    );
    let d = l.digest(&c, &mut i);
    assert_eq!(i.thought, Some("hm".to_string()));
    assert_eq!(i.action, Some("search".to_string()));
    assert_eq!(i.llm_tokens.total_tokens, 15);
    match &d {
        SubtaskDecision::CallTools(v) => assert_eq!(v.len(), 1),
        other => panic!("{other:?}"),
    }
    let before = l.messages.len();
    l.observe(&c.content, &c.tool_calls[0], &"found".to_string(), &mut i);
    assert_eq!(l.messages.len(), before + 2);
    assert_eq!(i.observation, Some("found".to_string()));
    let mut trace = SubtaskTrace::new(4, "do it".to_string());
    assert!(end_iteration(d, i, Elapsed::from_secs(3), &mut trace).is_none());
    assert_eq!(trace.react_iterations[0].duration, Elapsed::from_secs(3));
}

#[test]
fn loop_ends_with_an_answer() {
    let l = looped(5, 1);
    let mut trace = SubtaskTrace::new(4, "do it".to_string());
    let answer = |content: Option<&str>, trace: &mut SubtaskTrace| {
        let mut i = IterationTrace::new(1);
        let d = l.digest(&completion(content, vec![]), &mut i);
        end_iteration(d, i, Elapsed::zero(), trace).unwrap()
    };
    assert_eq!(
        answer(Some("<final_answer> 42 </final_answer>"), &mut trace),
        Ok("42".to_string())
    );
    assert_eq!(answer(Some("no tags"), &mut trace), Ok("no tags".to_string()));
    assert_eq!(
        answer(None, &mut trace),
        Err(ServerError::Operation("LLM returned empty response".to_string()))
    );
    assert_eq!(trace.react_iterations.len(), 3);
}

#[test]
fn tool_call_is_retried_until_it_succeeds() {
    let service = McpService::new("s");
    let mut i = IterationTrace::new(1);
    let run = ToolCallRun::new(&call("t__s", "{ \"q\" : 1 }"), 2).unwrap();
    assert_eq!(run.trace.tool_name, "t");
    assert_eq!(run.trace.server_name, "s");
    assert_eq!(run.trace.arguments, "{\"q\":1}");
    let run = run.resolve(ServiceLookup::Found, Elapsed::zero(), &mut i).unwrap();
    let (run, step) =
        run.after_attempt(Err("down".to_string()), &service, Elapsed::zero(), &mut i);
    assert!(matches!(step, ToolStep::Retry));
    let bad = Ok(ToolReply { is_error: Some(true), content: vec![] });
    let (run, step) = run.after_attempt(bad, &service, Elapsed::zero(), &mut i);
    assert!(matches!(step, ToolStep::Retry));
    assert_eq!(run.attempt, 2);
    assert_eq!(run.last_error, Some("Tool returned error".to_string()));
    let good = Ok(ToolReply {
        is_error: None,
        content: vec![ToolContent::Text("ok".to_string())],
    });
    let (_, step) = run.after_attempt(good, &service, Elapsed::from_secs(2), &mut i);
    assert!(matches!(step, ToolStep::Done(Ok(t)) if t == "ok"));
    assert_eq!(i.tool_calls.len(), 1);
    assert_eq!(i.tool_calls[0].result, Some("ok".to_string()));
    assert_eq!(i.tool_calls[0].duration, Elapsed::from_secs(2));
}

#[test]
fn tool_call_fails_after_its_retries() {
    let service = McpService::new("s");
    let mut i = IterationTrace::new(1);
    let run = ToolCallRun::new(&call("t__s", "nonsense"), 0).unwrap();
    assert_eq!(run.trace.arguments, "{}");
    let (_, step) = run.after_attempt(Err("down".to_string()), &service, Elapsed::zero(), &mut i);
    match step {
        ToolStep::Done(Err(e)) => assert_eq!(
            e,
            ServerError::ToolCallRetryExhausted {
                tool_name: "t".to_string(),
                attempts: 1,
                message: "down".to_string(),
            }
        ),
        other => panic!("{other:?}"),
    }
    assert_eq!(i.tool_calls[0].error, Some("down".to_string()));
}

#[test]
fn tool_call_without_content_is_not_retried() {
    let service = McpService::new("s");
    let mut i = IterationTrace::new(1);
    let run = ToolCallRun::new(&call("t__s", "{}"), 5).unwrap();
    let reply = Ok(ToolReply { is_error: None, content: vec![ToolContent::Other] });
    let (_, step) = run.after_attempt(reply, &service, Elapsed::zero(), &mut i);
    assert!(matches!(step, ToolStep::Done(Err(ServerError::McpEmptyContent))));
    assert_eq!(i.tool_calls[0].error, Some("Tool returned empty content".to_string()));
}

#[test]
fn tool_call_needs_a_known_server() {
    let mut i = IterationTrace::new(1);
    assert_eq!(
        ToolCallRun::new(&call("plain", "{}"), 1).unwrap_err(),
        ServerError::Operation("Invalid tool name format: plain".to_string())
    );
    let run = ToolCallRun::new(&call("t__s", "{}"), 1).unwrap();
    assert_eq!(
        run.resolve(ServiceLookup::NotInitialized, Elapsed::zero(), &mut i).unwrap_err(),
        ServerError::Operation("MCP services not initialized".to_string())
    );
    assert!(i.tool_calls.is_empty());
    let run = ToolCallRun::new(&call("t__s", "{}"), 1).unwrap();
    assert_eq!(
        run.resolve(ServiceLookup::NotFound, Elapsed::zero(), &mut i).unwrap_err(),
        ServerError::McpOperation("MCP server 's' not found".to_string())
    );
    assert_eq!(i.tool_calls.len(), 1);
}

#[test]
fn tools_of_services_are_described() {
    let mut a = McpService::new("alpha");
    a.tools = vec!["x".to_string(), "y".to_string()];
    let tools = get_available_tools(&vec![a, McpService::new("beta")]);
    assert_eq!(tools.len(), 2);
    assert_eq!(tools[1].name, "y__alpha");
    assert_eq!(tools[1].description, "Tool y from alpha");
}

#[test]
fn retries_keep_the_tokens() {
    let mut t = SubtaskTrace::new(1, "t".to_string());
    let mut i = IterationTrace::new(1);
    i.llm_tokens = TokenUsage::new(7, 3);
    t.add_iteration(i);
    let before = t.total_tokens_with_retries().total_tokens;
    t.record_retry("again".to_string());
    assert_eq!(t.total_tokens_with_retries().total_tokens, before);
    assert_eq!(t.total_tokens().total_tokens, 0);
    assert_eq!(t.retry_history[0].attempt, 1);
    assert_eq!(t.retry_history[0].iterations.len(), 1);
    assert!(t.retry_history[0].timestamp.secs > 1_600_000_000);
}

#[test]
fn tokens_of_a_plan_are_those_of_its_subtasks() {
    let mut run = PlanRun::new("req", plan(), at(0));
    for retried in [true, false] {
        let mut s = loop {
            match run.next(moment(), 30) {
                PlanStep::Run(s) => break s,
                PlanStep::Passed => {}
                other => panic!("{other:?}"),
            }
        };
        if retried {
            let mut lost = IterationTrace::new(1);
            lost.llm_tokens = TokenUsage::new(100, 10);
            s.trace.add_iteration(lost);
            assert!(s.end_attempt(&mut run, Err(ServerError::McpEmptyContent), 1, at(11)));
        }
        let mut kept = IterationTrace::new(1);
        kept.llm_tokens = TokenUsage::new(7, 3);
        s.trace.add_iteration(kept);
        assert!(!s.end_attempt(&mut run, Ok("done".to_string()), 1, at(12)));
        run.finish_subtask(s, 1, at(13));
    }
    let total = &run.trace.total_tokens;
    assert_eq!((total.prompt_tokens, total.completion_tokens), (114, 16));
    assert_eq!(total.total_tokens, 130);
}
