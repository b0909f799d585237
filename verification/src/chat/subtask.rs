//! Execution of a subtask: a loop in which the model thinks, calls tools and
//! looks at their results until it has an answer.

use super::message::{
    copy_calls, ChatMessage, Completion, ToolCall, ToolContent, ToolReply, UserContent,
};
use super::planner::{SubTask, ToolDescription};
use super::subtask_laws::{is_first_of, law_dependency_results_told};
use super::trace::{IterationTrace, SubtaskTrace, TokenUsage, ToolCallTrace, TraceStatus};
use super::xml_parser::{
    extract_action, extract_final_answer, extract_thought, has_final_answer_tag, sanitized,
    tag_begins_in, trimmed_element,
};
use crate::clock::{Elapsed, Timestamp, NANOS_PER_SEC};
use crate::error::ServerError;
use crate::json::{compact, compact_json, json_or, json_string, string_to_json};
use crate::mcp::{tool_result_text, tool_text, McpService, MCP_SEPARATOR};
use crate::pattern::opt_text;
use crate::text::{
    decimal, decimal_text, has_text, join, join_text, lowered, slices, split, split_text, texts,
};
use vstd::prelude::*;
use vstd::string::*;

verus! {

// ---------------------------------------------------------------------------
// What the model is told
// ---------------------------------------------------------------------------

/// A tool in one line.
pub open spec fn tool_line(t: ToolDescription) -> Seq<char> {
    "- "@ + t.name@ + ": "@ + t.description@
}

/// The tools, one in a line.
pub open spec fn tool_lines(s: Seq<ToolDescription>) -> Seq<Seq<char>> {
    s.map_values(|t: ToolDescription| tool_line(t))
}

/// What the system prompt begins with.
pub const TASK_PROMPT_HEAD: &'static str =
    "You are an AI assistant executing a specific subtask as part of a larger plan.

## Your Task
";

/// What stands between the task and the tools.
pub const TASK_PROMPT_TOOLS: &'static str = "

## Available Tools
";

/// What the system prompt ends with.
pub const TASK_PROMPT_TAIL: &'static str = "

## Instructions
1. Analyze the task and think about how to accomplish it
2. Use the available tools as needed to complete the task
3. When you have completed the task, provide your final answer wrapped in <final_answer></final_answer> tags

## Response Format
- Use <thought></thought> tags to explain your reasoning
- Use <action></action> tags to describe what you're doing
- When done, use <final_answer></final_answer> tags for your final response

Remember: Focus only on this specific subtask. Use the context from previous results if needed.";

/// The system prompt for a task.
pub open spec fn task_prompt(description: Seq<char>, tools: Seq<ToolDescription>) -> Seq<char> {
    TASK_PROMPT_HEAD@ + description + TASK_PROMPT_TOOLS@ + join_text(tool_lines(tools), "\n"@)
        + TASK_PROMPT_TAIL@
}

/// The result of the subtask `id`: the first one of it in `results`.
pub open spec fn result_of(results: Seq<(usize, String)>, id: usize) -> Option<Seq<char>>
    decreases results.len(),
{
    if results.len() == 0 {
        None
    } else if results[0].0 == id {
        Some(results[0].1@)
    } else {
        result_of(results.drop_first(), id)
    }
}

/// The results of the subtasks `ids`, as far as there are any, each in words.
pub open spec fn results_told(ids: Seq<usize>, results: Seq<(usize, String)>) -> Seq<Seq<char>>
    decreases ids.len(),
{
    if ids.len() == 0 {
        Seq::empty()
    } else {
        let before = results_told(ids.drop_last(), results);
        match result_of(results, ids.last()) {
            Some(t) => before.push(
                "Result from subtask "@ + decimal(ids.last() as nat) + ": "@ + t,
            ),
            None => before,
        }
    }
}

/// `m` are the messages that the execution of the subtask begins with: what it is
/// about, the results that it depends on, where there are any, and the task.
pub open spec fn are_first_messages(
    subtask: SubTask,
    results: Seq<(usize, String)>,
    tools: Seq<ToolDescription>,
    m: Seq<ChatMessage>,
) -> bool {
    let told = results_told(subtask.dependencies@, results);
    &&& m.len() == if told.len() == 0 {
        2int
    } else {
        3int
    }
    &&& m[0].is_system(task_prompt(subtask.description@, tools))
    &&& told.len() > 0 ==> m[1].is_user_text(
        "Here are the results from previous subtasks that this "@ + "task depends on:\n\n"@
            + join_text(told, "\n\n"@),
    )
    &&& m.last().is_user_text("Please complete the following task: "@ + subtask.description@)
}

fn find_result(results: &Vec<(usize, String)>, id: usize) -> (r: Option<String>)
    ensures
        opt_text(r) == result_of(results@, id),
{
    let mut i: usize = 0;
    assert(results@.skip(0) =~= results@);
    while i < results.len()
        invariant
            i <= results@.len(),
            result_of(results@, id) == result_of(results@.skip(i as int), id),
        decreases results@.len() - i,
    {
        assert(results@.skip(i as int).drop_first() =~= results@.skip(i + 1));
        if results[i].0 == id {
            return Some(results[i].1.clone());
        }
        i = i + 1;
    }
    None
}

fn tool_list(tools: &Vec<ToolDescription>) -> (r: Vec<String>)
    ensures
        texts(r@) == tool_lines(tools@),
{
    let mut r: Vec<String> = Vec::new();
    let mut i: usize = 0;
    while i < tools.len()
        invariant
            i <= tools@.len(),
            r@.len() == i,
            forall|j: int| 0 <= j < i ==> (#[trigger] r@[j])@ == tool_line(tools@[j]),
        decreases tools@.len() - i,
    {
        let mut line = "- ".to_owned();
        line.append(tools[i].name.as_str());
        line.append(": ");
        line.append(tools[i].description.as_str());
        r.push(line);
        i = i + 1;
    }
    assert(texts(r@) =~= tool_lines(tools@));
    r
}

/// The messages that the execution of a subtask begins with.
pub fn build_context_for_react(
    subtask: &SubTask,
    previous_results: &Vec<(usize, String)>,
    available_tools: &Vec<ToolDescription>,
) -> (r: Vec<ChatMessage>)
    ensures
        are_first_messages(*subtask, previous_results@, available_tools@, r@),
        forall|k: int|
            #[trigger] is_first_of(previous_results@, k) && subtask.dependencies@.contains(
                previous_results@[k].0,
            ) ==> r@.len() == 3 && (r@[1] matches ChatMessage::User {
                content: UserContent::Text(t),
                name: None,
            } && has_text(
                t@,
                "Result from subtask "@ + decimal(previous_results@[k].0 as nat) + ": "@
                    + previous_results@[k].1@,
            )),
{
    let mut messages: Vec<ChatMessage> = Vec::new();
    let mut prompt = TASK_PROMPT_HEAD.to_owned();
    prompt.append(subtask.description.as_str());
    prompt.append(TASK_PROMPT_TOOLS);
    prompt.append(join(&tool_list(available_tools), "\n").as_str());
    prompt.append(TASK_PROMPT_TAIL);
    messages.push(ChatMessage::system(prompt));

    let mut told: Vec<String> = Vec::new();
    let mut i: usize = 0;
    assert(texts(told@) =~= results_told(subtask.dependencies@.take(0), previous_results@));
    while i < subtask.dependencies.len()
        invariant
            i <= subtask.dependencies@.len(),
            texts(told@) == results_told(subtask.dependencies@.take(i as int), previous_results@),
        decreases subtask.dependencies@.len() - i,
    {
        let id: usize = subtask.dependencies[i];
        let ghost before = told@;
        assert(subtask.dependencies@.take(i + 1).drop_last() =~= subtask.dependencies@.take(
            i as int,
        ));
        if let Some(result) = find_result(previous_results, id) {
            let mut line = "Result from subtask ".to_owned();
            line.append(decimal_text(id as u64).as_str());
            line.append(": ");
            line.append(result.as_str());
            told.push(line);
            assert(texts(told@) =~= texts(before).push(line@));
        }
        i = i + 1;
    }
    assert(subtask.dependencies@.take(subtask.dependencies@.len() as int)
        =~= subtask.dependencies@);
    assert(texts(told@).len() == told@.len());
    if told.len() > 0 {
        let mut context = "Here are the results from previous subtasks that this ".to_owned();
        context.append("task depends on:\n\n");
        context.append(join(&told, "\n\n").as_str());
        messages.push(ChatMessage::user(context));
    }
    let mut task = "Please complete the following task: ".to_owned();
    task.append(subtask.description.as_str());
    messages.push(ChatMessage::user(task));
    proof {
        assert forall|k: int|
            #[trigger] is_first_of(previous_results@, k) && subtask.dependencies@.contains(
                previous_results@[k].0,
            ) implies messages@.len() == 3 && (messages@[1] matches ChatMessage::User {
            content: UserContent::Text(t),
            name: None,
        } && has_text(
            t@,
            "Result from subtask "@ + decimal(previous_results@[k].0 as nat) + ": "@
                + previous_results@[k].1@,
        )) by {
            law_dependency_results_told(
                *subtask,
                previous_results@,
                available_tools@,
                messages@,
                k,
            );
        }
    }
    messages
}

/// What stands in the description of a tool behind its name.
pub const TOOL_JSON_TAIL: &'static str =
    ",\"parameters\":{\"properties\":{\"query\":{\"description\":\"The query or input for the tool\",\"type\":\"string\"}},\"required\":[\"query\"],\"type\":\"object\"}},\"type\":\"function\"}";

/// The description of a tool for the model, in JSON.
pub open spec fn tool_json(t: ToolDescription) -> Seq<char> {
    "{\"function\":{\"description\":"@ + json_string(t.description@) + ",\"name\":"@ + json_string(
        t.name@,
    ) + TOOL_JSON_TAIL@
}

/// The descriptions of the tools for the model, in JSON.
pub open spec fn tools_json(s: Seq<ToolDescription>) -> Seq<char> {
    "["@ + join_text(s.map_values(|t: ToolDescription| tool_json(t)), ","@) + "]"@
}

/// The descriptions of the tools for the model, in JSON: each is a function with
/// one argument, the query.
pub fn build_tools_json(available_tools: &Vec<ToolDescription>) -> (r: String)
    ensures
        r@ == tools_json(available_tools@),
{
    let mut parts: Vec<String> = Vec::new();
    let mut i: usize = 0;
    while i < available_tools.len()
        invariant
            i <= available_tools@.len(),
            parts@.len() == i,
            forall|j: int| 0 <= j < i ==> (#[trigger] parts@[j])@ == tool_json(available_tools@[j]),
        decreases available_tools@.len() - i,
    {
        let tool = &available_tools[i];
        let mut part = "{\"function\":{\"description\":".to_owned();
        part.append(string_to_json(tool.description.as_str()).as_str());
        part.append(",\"name\":");
        part.append(string_to_json(tool.name.as_str()).as_str());
        part.append(TOOL_JSON_TAIL);
        parts.push(part);
        i = i + 1;
    }
    assert(texts(parts@) =~= available_tools@.map_values(|t: ToolDescription| tool_json(t)));
    let mut r = "[".to_owned();
    r.append(join(&parts, ",").as_str());
    r.append("]");
    r
}

/// The tools of the services, as they are described to the model:
/// `{tool}__{server}` each.
pub open spec fn described(services: Seq<McpService>) -> Seq<(Seq<char>, Seq<char>)>
    decreases services.len(),
{
    if services.len() == 0 {
        Seq::empty()
    } else {
        let s = services.last();
        described(services.drop_last()) + s.tools@.map_values(
            |t: String|
                (
                    t@ + MCP_SEPARATOR@ + s.name@,
                    "Tool "@ + t@ + " from "@ + s.name@,
                ),
        )
    }
}

/// The names and descriptions of tools.
pub open spec fn descriptions(s: Seq<ToolDescription>) -> Seq<(Seq<char>, Seq<char>)> {
    s.map_values(|t: ToolDescription| (t.name@, t.description@))
}

/// The tools that the services offer.
pub fn get_available_tools(services: &Vec<McpService>) -> (r: Vec<ToolDescription>)
    ensures
        descriptions(r@) == described(services@),
{
    let mut r: Vec<ToolDescription> = Vec::new();
    let mut i: usize = 0;
    assert(descriptions(r@) =~= described(services@.take(0)));
    while i < services.len()
        invariant
            i <= services@.len(),
            descriptions(r@) == described(services@.take(i as int)),
        decreases services@.len() - i,
    {
        let s = &services[i];
        let ghost f = |t: String|
            (t@ + MCP_SEPARATOR@ + s.name@, "Tool "@ + t@ + " from "@ + s.name@);
        let ghost before = r@;
        let mut k: usize = 0;
        assert(descriptions(r@) =~= descriptions(before) + s.tools@.take(0).map_values(f));
        while k < s.tools.len()
            invariant
                k <= s.tools@.len(),
                f == (|t: String|
                    (t@ + MCP_SEPARATOR@ + s.name@, "Tool "@ + t@ + " from "@ + s.name@)),
                descriptions(r@) == descriptions(before) + s.tools@.take(k as int).map_values(f),
            decreases s.tools@.len() - k,
        {
            let ghost now = r@;
            let mut name = s.tools[k].clone();
            name.append(MCP_SEPARATOR);
            name.append(s.name.as_str());
            let mut description = "Tool ".to_owned();
            description.append(s.tools[k].as_str());
            description.append(" from ");
            description.append(s.name.as_str());
            r.push(ToolDescription { name, description });
            assert(descriptions(r@) =~= descriptions(now).push(f(s.tools@[k as int])));
            assert(s.tools@.take(k + 1).map_values(f) =~= s.tools@.take(k as int).map_values(f).push(
                f(s.tools@[k as int]),
            ));
            k = k + 1;
        }
        assert(s.tools@.take(s.tools@.len() as int) =~= s.tools@);
        assert(services@.take(i + 1).drop_last() =~= services@.take(i as int));
        i = i + 1;
    }
    assert(services@.take(services@.len() as int) =~= services@);
    r
}

// ---------------------------------------------------------------------------
// The loop
// ---------------------------------------------------------------------------

/// What a client that went away leaves behind.
pub const CANCELLED: &'static str = "Request was cancelled by client";

/// A subtask in execution.
#[derive(Debug, Clone)]
pub struct SubtaskLoop {
    /// Identifier of the subtask.
    pub subtask_id: usize,
    /// The messages so far.
    pub messages: Vec<ChatMessage>,
    /// The iterations begun so far.
    pub iteration_count: u32,
    /// The most iterations.
    pub max_iterations: u32,
    /// The most time.
    pub timeout: Elapsed,
    /// The most tool calls in one iteration.
    pub max_tools: usize,
}

/// What the model's answer asks for.
#[derive(Debug, Clone)]
pub enum SubtaskDecision {
    /// To call these tools.
    CallTools(Vec<ToolCall>),
    /// To end with this answer.
    Answer(String),
    /// Nothing: there was no content.
    Nothing,
}

/// What the model thought, by its content.
pub open spec fn thought_in(content: Option<String>) -> Option<Seq<char>> {
    match content {
        Some(c) => trimmed_element(sanitized(c@), "thought"@),
        None => None,
    }
}

/// What the model does, by its content.
pub open spec fn action_in(content: Option<String>) -> Option<Seq<char>> {
    match content {
        Some(c) => trimmed_element(sanitized(c@), "action"@),
        None => None,
    }
}

/// The answer in a content: what is tagged as the final answer, or else all of it.
pub open spec fn answer_in(content: Seq<char>) -> Seq<char> {
    answer_by(
        content,
        tag_begins_in(lowered(content), "final_answer"@),
        trimmed_element(sanitized(content), "final_answer"@),
    )
}

/// The answer in a content, by whether it has the tag and by what is tagged.
pub open spec fn answer_by(content: Seq<char>, has_tag: bool, tagged: Option<Seq<char>>) -> Seq<
    char,
> {
    match tagged {
        Some(t) if has_tag => t,
        _ => content,
    }
}

/// The answer in a content, by whether it has the tag and by what is tagged.
pub fn final_answer(content: &str, has_tag: bool, tagged: Option<String>) -> (r: String)
    ensures
        r@ == answer_by(content@, has_tag, opt_text(tagged)),
{
    match tagged {
        Some(t) => if has_tag {
            t
        } else {
            content.to_owned()
        },
        None => content.to_owned(),
    }
}

impl SubtaskLoop {
    /// The loop of a subtask, about to begin.
    pub fn new(
        subtask: &SubTask,
        previous_results: &Vec<(usize, String)>,
        available_tools: &Vec<ToolDescription>,
        timeout: Elapsed,
        max_iterations: u32,
        max_tools: usize,
    ) -> (r: SubtaskLoop)
        ensures
            r.subtask_id == subtask.id,
            are_first_messages(*subtask, previous_results@, available_tools@, r.messages@),
            r.iteration_count == 0,
            r.max_iterations == max_iterations,
            r.timeout == timeout,
            r.max_tools == max_tools,
    {
        SubtaskLoop {
            subtask_id: subtask.id,
            messages: build_context_for_react(subtask, previous_results, available_tools),
            iteration_count: 0,
            max_iterations,
            timeout,
            max_tools,
        }
    }

    /// Begins an iteration, unless there were too many, it took too long, or the
    /// client went away, in this order.
    pub fn begin_iteration(
        &mut self,
        elapsed: Elapsed,
        cancelled: bool,
        at: Timestamp,
        trace: &mut SubtaskTrace,
    ) -> (r: Result<IterationTrace, ServerError>)
        requires
            old(self).iteration_count < u32::MAX,
            old(self).timeout.wf(),
            elapsed.wf(),
            old(trace).timed(),
            at.nanos < NANOS_PER_SEC,
        ensures
            *final(self) == (SubtaskLoop {
                iteration_count: final(self).iteration_count,
                ..*old(self)
            }),
            final(self).iteration_count == old(self).iteration_count + 1,
            if final(self).iteration_count > old(self).max_iterations {
                &&& r == Err::<IterationTrace, ServerError>(
                    ServerError::MaxIterationsExceeded(old(self).max_iterations),
                )
                &&& *final(trace) == (SubtaskTrace {
                    react_status: TraceStatus::MaxIterationsExceeded,
                    ..*old(trace)
                })
            } else if elapsed.total() > old(self).timeout.total() {
                &&& r == Err::<IterationTrace, ServerError>(
                    ServerError::SubtaskTimeout {
                        subtask_id: old(self).subtask_id,
                        timeout_secs: old(self).timeout.secs,
                    },
                )
                &&& old(trace).timed_out(at, *final(trace))
            } else if cancelled {
                &&& r matches Err(e) && e.is_operation(CANCELLED@)
                &&& *final(trace) == *old(trace)
            } else {
                &&& r matches Ok(i) && i.iteration == final(self).iteration_count
                    && is_new_iteration(i)
                &&& *final(trace) == *old(trace)
            },
    {
        self.iteration_count = self.iteration_count + 1;
        if self.iteration_count > self.max_iterations {
            trace.set_react_status(TraceStatus::MaxIterationsExceeded);
            return Err(ServerError::MaxIterationsExceeded(self.max_iterations));
        }
        if self.timeout.is_less(&elapsed) {
            trace.timeout_at(at);
            return Err(
                ServerError::SubtaskTimeout {
                    subtask_id: self.subtask_id,
                    timeout_secs: self.timeout.secs,
                },
            );
        }
        if cancelled {
            return Err(ServerError::operation(CANCELLED));
        }
        Ok(IterationTrace::new(self.iteration_count))
    }

    /// What the model's answer asks for, and what is recorded of it: the tokens,
    /// the thought, and with tool calls the action. Of the tool calls the first
    /// ones count, as many as there may be.
    pub fn digest(&self, completion: &Completion, trace: &mut IterationTrace) -> (r: SubtaskDecision)
        requires
            completion.prompt_tokens + completion.completion_tokens <= u64::MAX,
            is_new_iteration(*old(trace)),
        ensures
            final(trace).llm_tokens.prompt_tokens == completion.prompt_tokens,
            final(trace).llm_tokens.completion_tokens == completion.completion_tokens,
            final(trace).llm_tokens.total_tokens == completion.prompt_tokens
                + completion.completion_tokens,
            opt_text(final(trace).thought) == thought_in(completion.content),
            opt_text(final(trace).action) == if completion.tool_calls@.len() > 0 {
                action_in(completion.content)
            } else {
                None
            },
            *final(trace) == (IterationTrace {
                llm_tokens: final(trace).llm_tokens,
                thought: final(trace).thought,
                action: final(trace).action,
                ..*old(trace)
            }),
            if completion.tool_calls@.len() > 0 {
                r matches SubtaskDecision::CallTools(v) && v@ == if completion.tool_calls@.len()
                    > self.max_tools {
                    completion.tool_calls@.take(self.max_tools as int)
                } else {
                    completion.tool_calls@
                }
            } else {
                match completion.content {
                    Some(c) => r matches SubtaskDecision::Answer(a) && a@ == answer_in(c@),
                    None => r is Nothing,
                }
            },
    {
        trace.llm_tokens = TokenUsage::new(completion.prompt_tokens, completion.completion_tokens);
        if let Some(content) = &completion.content {
            trace.thought = extract_thought(content.as_str());
            if completion.tool_calls.len() > 0 {
                trace.action = extract_action(content.as_str());
            }
        }
        if completion.tool_calls.len() > 0 {
            let n: usize = if completion.tool_calls.len() > self.max_tools {
                self.max_tools
            } else {
                completion.tool_calls.len()
            };
            assert(completion.tool_calls@.take(completion.tool_calls@.len() as int)
                =~= completion.tool_calls@);
            SubtaskDecision::CallTools(copy_calls(&completion.tool_calls, n))
        } else {
            match &completion.content {
                Some(content) => SubtaskDecision::Answer(
                    final_answer(
                        content.as_str(),
                        has_final_answer_tag(content.as_str()),
                        extract_final_answer(content.as_str()),
                    ),
                ),
                None => SubtaskDecision::Nothing,
            }
        }
    }

    /// Shows the model what a tool gave: the call and its result join the messages.
    pub fn observe(
        &mut self,
        content: &Option<String>,
        call: &ToolCall,
        result: &String,
        trace: &mut IterationTrace,
    )
        ensures
            final(self).messages@.len() == old(self).messages@.len() + 2,
            final(self).messages@.take(old(self).messages@.len() as int) == old(self).messages@,
            final(self).messages@[old(self).messages@.len() as int].is_assistant(
                *content,
                seq![*call],
            ),
            final(self).messages@.last().is_tool(
                "<observation>"@ + result@ + "</observation>"@,
                call.id@,
            ),
            *final(self) == (SubtaskLoop { messages: final(self).messages, ..*old(self) }),
            *final(trace) == (IterationTrace { observation: Some(*result), ..*old(trace) }),
    {
        let mut observation = "<observation>".to_owned();
        observation.append(result.as_str());
        observation.append("</observation>");
        trace.observation = Some(result.clone());
        let mut calls: Vec<ToolCall> = Vec::new();
        calls.push(call.copy());
        assert(calls@ =~= seq![*call]);
        let content = match content {
            Some(c) => Some(c.clone()),
            None => None,
        };
        self.messages.push(ChatMessage::Assistant { content, name: None, tool_calls: Some(calls) });
        self.messages.push(
            ChatMessage::Tool { content: observation, tool_call_id: call.id.clone() },
        );
        assert(self.messages@.take(old(self).messages@.len() as int) =~= old(self).messages@);
    }
}

/// `i` is the record of an iteration in which nothing has happened yet.
pub open spec fn is_new_iteration(i: IterationTrace) -> bool {
    &&& i.thought is None
    &&& i.action is None
    &&& i.tool_calls@ == Seq::<ToolCallTrace>::empty()
    &&& i.observation is None
    &&& i.duration == Elapsed::zero_spec()
    &&& i.llm_tokens == TokenUsage::none()
}

/// How an iteration that took `duration` ends: it is recorded, and the loop goes
/// on (`None`) or ends with an answer or an error.
pub fn end_iteration(
    decision: SubtaskDecision,
    iteration: IterationTrace,
    duration: Elapsed,
    trace: &mut SubtaskTrace,
) -> (r: Option<Result<String, ServerError>>)
    ensures
        final(trace).react_iterations@ == old(trace).react_iterations@.push(
            IterationTrace { duration, ..iteration },
        ),
        *final(trace) == (SubtaskTrace {
            react_iterations: final(trace).react_iterations,
            react_status: if decision is Answer {
                TraceStatus::Success
            } else {
                old(trace).react_status
            },
            ..*old(trace)
        }),
        match decision {
            SubtaskDecision::CallTools(_) => r is None,
            SubtaskDecision::Answer(a) => r == Some(Ok::<String, ServerError>(a)),
            SubtaskDecision::Nothing => r matches Some(Err(e)) && e.is_operation(
                "LLM returned empty response"@,
            ),
        },
{
    let mut iteration = iteration;
    iteration.duration = duration;
    trace.add_iteration(iteration);
    match decision {
        SubtaskDecision::CallTools(_) => None,
        SubtaskDecision::Answer(a) => {
            trace.set_react_status(TraceStatus::Success);
            Some(Ok(a))
        },
        SubtaskDecision::Nothing => Some(
            Err(ServerError::operation("LLM returned empty response")),
        ),
    }
}

// ---------------------------------------------------------------------------
// Tool calls
// ---------------------------------------------------------------------------

/// A tool call in execution.
#[derive(Debug, Clone)]
pub struct ToolCallRun {
    /// The record of the call.
    pub trace: ToolCallTrace,
    /// Attempts that failed so far.
    pub attempt: u32,
    /// The most retries.
    pub max_retries: u32,
    /// What the last attempt failed with.
    pub last_error: Option<String>,
}

/// Whether the server of a tool is known.
#[derive(Debug, Clone, Copy)]
pub enum ServiceLookup {
    /// There are no servers at all.
    NotInitialized,
    /// The server is not among them.
    NotFound,
    /// The server is known.
    Found,
}

/// The tool and the server in a name of the form `{tool}__{server}`.
pub open spec fn tool_and_server(name: Seq<char>) -> Option<(Seq<char>, Seq<char>)> {
    let parts = split_text(name, MCP_SEPARATOR@);
    if parts.len() == 2 {
        Some((parts[0], parts[1]))
    } else {
        None
    }
}

/// The tool and the server in a name of the form `{tool}__{server}`.
pub fn split_tool_name(name: &str) -> (r: Option<(String, String)>)
    ensures
        match r {
            Some((tool, server)) => tool_and_server(name@) == Some((tool@, server@)),
            None => tool_and_server(name@) is None,
        },
{
    proof {
        reveal_strlit("__");
    }
    let parts = split(name, MCP_SEPARATOR);
    proof {
        assert(slices(parts@).len() == parts@.len());
        assert(parts@.len() == 2 ==> slices(parts@)[0] == parts@[0]@ && slices(parts@)[1]
            == parts@[1]@);
    }
    if parts.len() == 2 {
        Some((parts[0].to_owned(), parts[1].to_owned()))
    } else {
        None
    }
}

/// What comes of an attempt: another one, or the end of the call.
#[derive(Debug)]
pub enum ToolStep {
    /// Another attempt is due.
    Retry,
    /// The call is over.
    Done(Result<String, ServerError>),
}

/// `step` is what comes of an attempt of the call `run` with this reply.
pub open spec fn is_tool_step(
    run: ToolCallRun,
    reply: Result<ToolReply, String>,
    fallback: Seq<char>,
    step: ToolStep,
) -> bool {
    match retryable_failure(reply) {
        Some(m) => if run.attempt < run.max_retries {
            step is Retry
        } else {
            step matches ToolStep::Done(Err(ServerError::ToolCallRetryExhausted {
                tool_name,
                attempts,
                message,
            })) && tool_name@ == run.trace.tool_name@ && attempts == run.max_retries + 1 && message@
                == m
        },
        None => match first_text(reply->Ok_0) {
            Some(t) => step matches ToolStep::Done(Ok(s)) && s@ == tool_text(
                run.trace.server_name@,
                fallback,
                t,
            ),
            None => step matches ToolStep::Done(Err(e)) && e is McpEmptyContent,
        },
    }
}

/// What an attempt failed with, where another attempt can help.
pub open spec fn retryable_failure(reply: Result<ToolReply, String>) -> Option<Seq<char>> {
    match reply {
        Ok(t) => if t.is_error == Some(true) {
            Some("Tool returned error"@)
        } else {
            None
        },
        Err(e) => Some(e@),
    }
}

/// The text that a tool gave, where it gave one first.
pub open spec fn first_text(reply: ToolReply) -> Option<Seq<char>> {
    if reply.content@.len() > 0 {
        match reply.content@[0] {
            ToolContent::Text(t) => Some(t@),
            ToolContent::Other => None,
        }
    } else {
        None
    }
}

impl ToolCallRun {
    /// A call that no attempt was made at yet. Arguments that are not JSON count
    /// as none.
    pub fn new(call: &ToolCall, max_retries: u32) -> (r: Result<ToolCallRun, ServerError>)
        ensures
            match r {
                Ok(run) => {
                    &&& tool_and_server(call.name@) == Some(
                        (run.trace.tool_name@, run.trace.server_name@),
                    )
                    &&& run.trace.arguments@ == json_or(compact_json(call.arguments@), "{}"@)
                    &&& run.trace.result is None
                    &&& run.trace.error is None
                    &&& run.trace.duration == Elapsed::zero_spec()
                    &&& run.attempt == 0
                    &&& run.max_retries == max_retries
                    &&& run.last_error is None
                },
                Err(e) => tool_and_server(call.name@) is None && e.is_operation(
                    "Invalid tool name format: "@ + call.name@,
                ),
            },
    {
        match split_tool_name(call.name.as_str()) {
            None => {
                let mut m = "Invalid tool name format: ".to_owned();
                m.append(call.name.as_str());
                Err(ServerError::Operation(m))
            },
            Some((tool, server)) => {
                let arguments = match compact(call.arguments.as_str()) {
                    Some(v) => v,
                    None => "{}".to_owned(),
                };
                Ok(
                    ToolCallRun {
                        trace: ToolCallTrace::new(tool, server, arguments),
                        attempt: 0,
                        max_retries,
                        last_error: None,
                    },
                )
            },
        }
    }

    /// Goes on with a call whose server is known; otherwise the call is over. A
    /// server that is missing among others is recorded.
    pub fn resolve(self, lookup: ServiceLookup, elapsed: Elapsed, iteration: &mut IterationTrace) -> (r:
        Result<ToolCallRun, ServerError>)
        ensures
            match lookup {
                ServiceLookup::Found => r == Ok::<ToolCallRun, ServerError>(self)
                    && *final(iteration) == *old(iteration),
                ServiceLookup::NotInitialized => r matches Err(e) && e.is_operation(
                    "MCP services not initialized"@,
                ) && *final(iteration) == *old(iteration),
                ServiceLookup::NotFound => {
                    let m = "MCP server '"@ + self.trace.server_name@ + "' not found"@;
                    &&& r matches Err(ServerError::McpOperation(t)) && t@ == m
                    &&& recorded(*old(iteration), *final(iteration))
                    &&& is_failed_call(self.trace, m, elapsed, final(iteration).tool_calls@.last())
                },
            },
    {
        match lookup {
            ServiceLookup::Found => Ok(self),
            ServiceLookup::NotInitialized => Err(
                ServerError::operation("MCP services not initialized"),
            ),
            ServiceLookup::NotFound => {
                let mut m = "MCP server '".to_owned();
                m.append(self.trace.server_name.as_str());
                m.append("' not found");
                let mut trace = self.trace;
                trace.set_error(m.clone(), elapsed);
                iteration.add_tool_call(trace);
                Err(ServerError::McpOperation(m))
            },
        }
    }

    /// Takes the reply to an attempt. A failure that another attempt can help is
    /// followed by one, as long as there may be one; the text of a reply ends the
    /// call with success, and any other reply without.
    pub fn after_attempt(
        self,
        reply: Result<ToolReply, String>,
        service: &McpService,
        elapsed: Elapsed,
        iteration: &mut IterationTrace,
    ) -> (r: (ToolCallRun, ToolStep))
        requires
            self.attempt <= self.max_retries < u32::MAX,
        ensures
            r.0.max_retries == self.max_retries,
            r.0.attempt <= r.0.max_retries,
            is_tool_step(self, reply, service.fallback(), r.1),
            match retryable_failure(reply) {
                Some(m) => if self.attempt < self.max_retries {
                    &&& r.1 is Retry
                    &&& r.0 == (ToolCallRun {
                        attempt: r.0.attempt,
                        last_error: r.0.last_error,
                        ..self
                    })
                    &&& r.0.attempt == self.attempt + 1
                    &&& opt_text(r.0.last_error) == Some(m)
                    &&& *final(iteration) == *old(iteration)
                } else {
                    &&& r.1 matches ToolStep::Done(Err(ServerError::ToolCallRetryExhausted {
                        tool_name,
                        attempts,
                        message,
                    })) && tool_name@ == self.trace.tool_name@ && attempts == self.max_retries + 1
                        && message@ == m
                    &&& recorded(*old(iteration), *final(iteration))
                    &&& is_failed_call(self.trace, m, elapsed, final(iteration).tool_calls@.last())
                },
                None => match first_text(reply->Ok_0) {
                    Some(t) => {
                        let text = tool_text(self.trace.server_name@, service.fallback(), t);
                        &&& r.1 matches ToolStep::Done(Ok(s)) && s@ == text
                        &&& recorded(*old(iteration), *final(iteration))
                        &&& is_good_call(
                            self.trace,
                            text,
                            elapsed,
                            final(iteration).tool_calls@.last(),
                        )
                    },
                    None => {
                        &&& r.1 == ToolStep::Done(Err(ServerError::McpEmptyContent))
                        &&& recorded(*old(iteration), *final(iteration))
                        &&& is_failed_call(
                            self.trace,
                            "Tool returned empty content"@,
                            elapsed,
                            final(iteration).tool_calls@.last(),
                        )
                    },
                },
            },
    {
        let mut run = self;
        let failure: String = match reply {
            Err(e) => e,
            Ok(reply) => {
                let failed = match reply.is_error {
                    Some(b) => b,
                    None => false,
                };
                if failed {
                    "Tool returned error".to_owned()
                } else {
                    let mut trace = run.trace.copy();
                    if reply.content.len() > 0 {
                        if let ToolContent::Text(t) = &reply.content[0] {
                            let text = tool_result_text(
                                run.trace.server_name.as_str(),
                                service,
                                t.as_str(),
                            );
                            trace.set_result(text.clone(), elapsed);
                            iteration.add_tool_call(trace);
                            return (run, ToolStep::Done(Ok(text)));
                        }
                    }
                    trace.set_error("Tool returned empty content".to_owned(), elapsed);
                    iteration.add_tool_call(trace);
                    return (run, ToolStep::Done(Err(ServerError::McpEmptyContent)));
                }
            },
        };
        if run.attempt < run.max_retries {
            run.attempt = run.attempt + 1;
            run.last_error = Some(failure);
            (run, ToolStep::Retry)
        } else {
            let mut trace = run.trace.copy();
            trace.set_error(failure.clone(), elapsed);
            iteration.add_tool_call(trace);
            let error = ServerError::ToolCallRetryExhausted {
                tool_name: run.trace.tool_name.clone(),
                attempts: run.max_retries + 1,
                message: failure,
            };
            (run, ToolStep::Done(Err(error)))
        }
    }
}

impl ToolCallTrace {
    /// The same record again.
    pub fn copy(&self) -> (r: ToolCallTrace)
        ensures
            r == *self,
    {
        ToolCallTrace {
            tool_name: self.tool_name.clone(),
            server_name: self.server_name.clone(),
            arguments: self.arguments.clone(),
            result: match &self.result {
                Some(t) => Some(t.clone()),
                None => None,
            },
            error: match &self.error {
                Some(t) => Some(t.clone()),
                None => None,
            },
            duration: self.duration,
        }
    }
}

/// `after` is `before` with one more tool call.
pub open spec fn recorded(before: IterationTrace, after: IterationTrace) -> bool {
    &&& after == (IterationTrace { tool_calls: after.tool_calls, ..before })
    &&& after.tool_calls@ == before.tool_calls@.push(after.tool_calls@.last())
}

/// `r` is the record `t` of a call that failed with `m`.
pub open spec fn is_failed_call(t: ToolCallTrace, m: Seq<char>, d: Elapsed, r: ToolCallTrace) -> bool {
    r == (ToolCallTrace { error: r.error, duration: d, ..t }) && opt_text(r.error) == Some(m)
}

/// `r` is the record `t` of a call that gave `m`.
pub open spec fn is_good_call(t: ToolCallTrace, m: Seq<char>, d: Elapsed, r: ToolCallTrace) -> bool {
    r == (ToolCallTrace { result: r.result, duration: d, ..t }) && opt_text(r.result) == Some(m)
}

} // verus!
