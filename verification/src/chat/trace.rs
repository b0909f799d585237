//! Records of how requests were executed.

use super::planner::SubTaskStatus;
use crate::clock::{between, now, span_between, Elapsed, Timestamp, NANOS_PER_SEC};
use crate::debug_text::{debug_duration, debug_str, duration_debug, str_debug};
use crate::sum::{lemma_sum_step, sum};
use crate::text::{decimal, decimal_text};
use vstd::prelude::*;
use vstd::string::*;

verus! {

// ---------------------------------------------------------------------------
// Tokens
// ---------------------------------------------------------------------------

/// Tokens that calls of a model took.
#[derive(Debug, Clone, Copy)]
pub struct TokenUsage {
    /// Tokens in the prompt.
    pub prompt_tokens: u64,
    /// Tokens in the completion.
    pub completion_tokens: u64,
    /// Tokens in all.
    pub total_tokens: u64,
}

impl TokenUsage {
    /// The usage of this many tokens in the prompt and in the completion.
    pub fn new(prompt_tokens: u64, completion_tokens: u64) -> (r: TokenUsage)
        requires
            prompt_tokens + completion_tokens <= u64::MAX,
        ensures
            r.prompt_tokens == prompt_tokens,
            r.completion_tokens == completion_tokens,
            r.total_tokens == prompt_tokens + completion_tokens,
    {
        TokenUsage {
            prompt_tokens,
            completion_tokens,
            total_tokens: prompt_tokens + completion_tokens,
        }
    }

    /// No tokens.
    pub open spec fn none() -> TokenUsage {
        TokenUsage { prompt_tokens: 0, completion_tokens: 0, total_tokens: 0 }
    }
}

impl Default for TokenUsage {
    fn default() -> (r: TokenUsage)
        ensures
            r == TokenUsage::none(),
    {
        TokenUsage { prompt_tokens: 0, completion_tokens: 0, total_tokens: 0 }
    }
}

// ---------------------------------------------------------------------------
// Status
// ---------------------------------------------------------------------------

/// How an execution ended.
#[derive(Debug, Clone, PartialEq)]
pub enum TraceStatus {
    /// With a final answer.
    Success,
    /// At the limit of iterations.
    MaxIterationsExceeded,
    /// At the limit of time.
    Timeout,
    /// With an error.
    Error(String),
}

impl TraceStatus {
    /// The status in words; `quoted` is the debug text of the error's message.
    pub open spec fn words(self) -> Seq<char> {
        match self {
            TraceStatus::Success => "Success"@,
            TraceStatus::MaxIterationsExceeded => "MaxIterationsExceeded"@,
            TraceStatus::Timeout => "Timeout"@,
            TraceStatus::Error(m) => "Error("@ + debug_str(m@) + ")"@,
        }
    }

    /// The status in words.
    pub fn text(&self) -> (r: String)
        ensures
            r@ == self.words(),
    {
        match self {
            TraceStatus::Success => "Success".to_owned(),
            TraceStatus::MaxIterationsExceeded => "MaxIterationsExceeded".to_owned(),
            TraceStatus::Timeout => "Timeout".to_owned(),
            TraceStatus::Error(m) => {
                let mut r = "Error(".to_owned();
                r.append(str_debug(m.as_str()).as_str());
                r.append(")");
                r
            },
        }
    }
}

impl SubTaskStatus {
    /// The status in words.
    pub open spec fn words(self) -> Seq<char> {
        match self {
            SubTaskStatus::Pending => "Pending"@,
            SubTaskStatus::InProgress => "InProgress"@,
            SubTaskStatus::Completed => "Completed"@,
            SubTaskStatus::Failed(m) => "Failed("@ + debug_str(m@) + ")"@,
            SubTaskStatus::Skipped => "Skipped"@,
        }
    }

    /// The status in words.
    pub fn text(&self) -> (r: String)
        ensures
            r@ == self.words(),
    {
        match self {
            SubTaskStatus::Pending => "Pending".to_owned(),
            SubTaskStatus::InProgress => "InProgress".to_owned(),
            SubTaskStatus::Completed => "Completed".to_owned(),
            SubTaskStatus::Failed(m) => {
                let mut r = "Failed(".to_owned();
                r.append(str_debug(m.as_str()).as_str());
                r.append(")");
                r
            },
            SubTaskStatus::Skipped => "Skipped".to_owned(),
        }
    }
}

// ---------------------------------------------------------------------------
// Tool calls and iterations
// ---------------------------------------------------------------------------

/// Record of a tool call.
#[derive(Debug, Clone)]
pub struct ToolCallTrace {
    /// Name of the tool.
    pub tool_name: String,
    /// Name of the MCP server that hosts it.
    pub server_name: String,
    /// Arguments, in JSON.
    pub arguments: String,
    /// Result, if the call succeeded.
    pub result: Option<String>,
    /// Error, if the call failed.
    pub error: Option<String>,
    /// How long the call took.
    pub duration: Elapsed,
}

impl ToolCallTrace {
    /// The record of a call that has not come back yet.
    pub fn new(tool_name: String, server_name: String, arguments: String) -> (r: ToolCallTrace)
        ensures
            r == (ToolCallTrace {
                tool_name,
                server_name,
                arguments,
                result: None,
                error: None,
                duration: Elapsed::zero_spec(),
            }),
    {
        ToolCallTrace {
            tool_name,
            server_name,
            arguments,
            result: None,
            error: None,
            duration: Elapsed::zero(),
        }
    }

    /// The call succeeded.
    pub fn set_result(&mut self, result: String, duration: Elapsed)
        ensures
            *final(self) == (ToolCallTrace { result: Some(result), duration, ..*old(self) }),
    {
        self.result = Some(result);
        self.duration = duration;
    }

    /// The call failed.
    pub fn set_error(&mut self, error: String, duration: Elapsed)
        ensures
            *final(self) == (ToolCallTrace { error: Some(error), duration, ..*old(self) }),
    {
        self.error = Some(error);
        self.duration = duration;
    }
}

/// Record of one iteration of a React loop.
#[derive(Debug, Clone)]
pub struct IterationTrace {
    /// Number of the iteration, from 1 on.
    pub iteration: u32,
    /// The model's thought, if any.
    pub thought: Option<String>,
    /// The model's action, if any.
    pub action: Option<String>,
    /// The tool calls made.
    pub tool_calls: Vec<ToolCallTrace>,
    /// What the tools gave, if any.
    pub observation: Option<String>,
    /// How long the iteration took.
    pub duration: Elapsed,
    /// Tokens that the model took.
    pub llm_tokens: TokenUsage,
}

impl IterationTrace {
    /// The record of an iteration in which nothing has happened yet.
    pub fn new(iteration: u32) -> (r: IterationTrace)
        ensures
            r.iteration == iteration,
            r.thought is None,
            r.action is None,
            r.tool_calls@ == Seq::<ToolCallTrace>::empty(),
            r.observation is None,
            r.duration == Elapsed::zero_spec(),
            r.llm_tokens == TokenUsage::none(),
    {
        IterationTrace {
            iteration,
            thought: None,
            action: None,
            tool_calls: Vec::new(),
            observation: None,
            duration: Elapsed::zero(),
            llm_tokens: TokenUsage::default(),
        }
    }

    /// Records one more tool call.
    pub fn add_tool_call(&mut self, tool_call: ToolCallTrace)
        ensures
            final(self).tool_calls@ == old(self).tool_calls@.push(tool_call),
            *final(self) == (IterationTrace { tool_calls: final(self).tool_calls, ..*old(self) }),
    {
        self.tool_calls.push(tool_call);
    }
}

/// The prompt tokens of each iteration.
pub open spec fn prompts(s: Seq<IterationTrace>) -> Seq<nat> {
    s.map_values(|i: IterationTrace| i.llm_tokens.prompt_tokens as nat)
}

/// The completion tokens of each iteration.
pub open spec fn completions(s: Seq<IterationTrace>) -> Seq<nat> {
    s.map_values(|i: IterationTrace| i.llm_tokens.completion_tokens as nat)
}

/// The total tokens of each iteration.
pub open spec fn totals(s: Seq<IterationTrace>) -> Seq<nat> {
    s.map_values(|i: IterationTrace| i.llm_tokens.total_tokens as nat)
}

/// The number of tool calls of each iteration.
pub open spec fn call_counts(s: Seq<IterationTrace>) -> Seq<nat> {
    s.map_values(|i: IterationTrace| i.tool_calls@.len())
}

fn prompt_sum(v: &Vec<IterationTrace>) -> (r: u64)
    requires
        sum(prompts(v@)) <= u64::MAX,
    ensures
        r == sum(prompts(v@)),
{
    let mut r: u64 = 0;
    let mut i: usize = 0;
    while i < v.len()
        invariant
            i <= v@.len(),
            sum(prompts(v@)) <= u64::MAX,
            r == sum(prompts(v@).take(i as int)),
        decreases v@.len() - i,
    {
        proof {
            lemma_sum_step(prompts(v@), i as int);
        }
        r = r + v[i].llm_tokens.prompt_tokens;
        i = i + 1;
    }
    assert(prompts(v@).take(v@.len() as int) =~= prompts(v@));
    r
}

fn completion_sum(v: &Vec<IterationTrace>) -> (r: u64)
    requires
        sum(completions(v@)) <= u64::MAX,
    ensures
        r == sum(completions(v@)),
{
    let mut r: u64 = 0;
    let mut i: usize = 0;
    while i < v.len()
        invariant
            i <= v@.len(),
            sum(completions(v@)) <= u64::MAX,
            r == sum(completions(v@).take(i as int)),
        decreases v@.len() - i,
    {
        proof {
            lemma_sum_step(completions(v@), i as int);
        }
        r = r + v[i].llm_tokens.completion_tokens;
        i = i + 1;
    }
    assert(completions(v@).take(v@.len() as int) =~= completions(v@));
    r
}

fn total_sum(v: &Vec<IterationTrace>) -> (r: u64)
    requires
        sum(totals(v@)) <= u64::MAX,
    ensures
        r == sum(totals(v@)),
{
    let mut r: u64 = 0;
    let mut i: usize = 0;
    while i < v.len()
        invariant
            i <= v@.len(),
            sum(totals(v@)) <= u64::MAX,
            r == sum(totals(v@).take(i as int)),
        decreases v@.len() - i,
    {
        proof {
            lemma_sum_step(totals(v@), i as int);
        }
        r = r + v[i].llm_tokens.total_tokens;
        i = i + 1;
    }
    assert(totals(v@).take(v@.len() as int) =~= totals(v@));
    r
}

fn call_sum(v: &Vec<IterationTrace>) -> (r: usize)
    requires
        sum(call_counts(v@)) <= usize::MAX,
    ensures
        r == sum(call_counts(v@)),
{
    let mut r: usize = 0;
    let mut i: usize = 0;
    while i < v.len()
        invariant
            i <= v@.len(),
            sum(call_counts(v@)) <= usize::MAX,
            r == sum(call_counts(v@).take(i as int)),
        decreases v@.len() - i,
    {
        proof {
            lemma_sum_step(call_counts(v@), i as int);
        }
        r = r + v[i].tool_calls.len();
        i = i + 1;
    }
    assert(call_counts(v@).take(v@.len() as int) =~= call_counts(v@));
    r
}

// ---------------------------------------------------------------------------
// React
// ---------------------------------------------------------------------------

/// Record of a React loop.
#[derive(Debug, Clone)]
pub struct ReactTrace {
    /// Identifier of the request.
    pub request_id: String,
    /// Identifier of the conversation, if one is kept.
    pub conversation_id: Option<String>,
    /// The iterations.
    pub iterations: Vec<IterationTrace>,
    /// How long the loop took.
    pub total_duration: Elapsed,
    /// How it ended.
    pub final_status: TraceStatus,
}

impl ReactTrace {
    /// The record of a loop that has not begun yet.
    pub fn new(request_id: String, conversation_id: Option<String>) -> (r: ReactTrace)
        ensures
            r.request_id == request_id,
            r.conversation_id == conversation_id,
            r.iterations@ == Seq::<IterationTrace>::empty(),
            r.total_duration == Elapsed::zero_spec(),
            r.final_status == TraceStatus::Success,
    {
        ReactTrace {
            request_id,
            conversation_id,
            iterations: Vec::new(),
            total_duration: Elapsed::zero(),
            final_status: TraceStatus::Success,
        }
    }

    /// Records one more iteration.
    pub fn add_iteration(&mut self, iteration: IterationTrace)
        ensures
            final(self).iterations@ == old(self).iterations@.push(iteration),
            *final(self) == (ReactTrace { iterations: final(self).iterations, ..*old(self) }),
    {
        self.iterations.push(iteration);
    }

    /// The loop took this long and ended this way.
    pub fn finalize(&mut self, total_duration: Elapsed, status: TraceStatus)
        ensures
            *final(self) == (ReactTrace { total_duration, final_status: status, ..*old(self) }),
    {
        self.total_duration = total_duration;
        self.final_status = status;
    }

    /// The sums that a summary tells can be held.
    pub open spec fn countable(self) -> bool {
        &&& sum(call_counts(self.iterations@)) <= usize::MAX
        &&& sum(totals(self.iterations@)) <= u64::MAX
    }

    /// The summary, with the duration and the status as these texts.
    pub open spec fn summary_spec(self, duration: Seq<char>, status: Seq<char>) -> Seq<char> {
        "ReactTrace[request_id="@ + self.request_id@ + ", iterations="@ + decimal(
            self.iterations@.len(),
        ) + ", tool_calls="@ + decimal(sum(call_counts(self.iterations@))) + ", tokens="@ + decimal(
            sum(totals(self.iterations@)),
        ) + ", duration="@ + duration + ", status="@ + status + "]"@
    }

    /// The summary, with the duration and the status as these texts.
    pub fn summary_with(&self, duration: &str, status: &str) -> (r: String)
        requires
            self.countable(),
        ensures
            r@ == self.summary_spec(duration@, status@),
    {
        let mut r = "ReactTrace[request_id=".to_owned();
        r.append(self.request_id.as_str());
        r.append(", iterations=");
        r.append(decimal_text(self.iterations.len() as u64).as_str());
        r.append(", tool_calls=");
        r.append(decimal_text(call_sum(&self.iterations) as u64).as_str());
        r.append(", tokens=");
        r.append(decimal_text(total_sum(&self.iterations)).as_str());
        r.append(", duration=");
        r.append(duration);
        r.append(", status=");
        r.append(status);
        r.append("]");
        r
    }

    /// A summary for logs.
    pub fn summary(&self) -> (r: String)
        requires
            self.countable(),
            self.total_duration.wf(),
        ensures
            r@ == self.summary_spec(
                debug_duration(self.total_duration.secs, self.total_duration.nanos),
                self.final_status.words(),
            ),
    {
        let duration = duration_debug(self.total_duration.secs, self.total_duration.nanos);
        self.summary_with(duration.as_str(), self.final_status.text().as_str())
    }
}

// ---------------------------------------------------------------------------
// Subtasks
// ---------------------------------------------------------------------------

/// Record of an attempt that failed and was followed by another.
#[derive(Debug, Clone)]
pub struct RetryAttempt {
    /// Number of the retry, from 1 on.
    pub attempt: u32,
    /// The error that led to it.
    pub error: String,
    /// When it was made.
    pub timestamp: Timestamp,
    /// The iterations of the attempt that failed.
    pub iterations: Vec<IterationTrace>,
}

/// Record of the execution of a subtask.
#[derive(Debug, Clone)]
pub struct SubtaskTrace {
    /// Identifier of the subtask.
    pub subtask_id: usize,
    /// What is to be done.
    pub description: String,
    /// Where the execution stands.
    pub status: SubTaskStatus,
    /// When it began.
    pub start_time: Option<Timestamp>,
    /// When it ended.
    pub end_time: Option<Timestamp>,
    /// How long it took.
    pub duration: Option<Elapsed>,
    /// The iterations of the present attempt.
    pub react_iterations: Vec<IterationTrace>,
    /// How the present attempt ended.
    pub react_status: TraceStatus,
    /// The result, if completed.
    pub result: Option<String>,
    /// How many retries were made.
    pub retry_count: u32,
    /// The attempts that failed.
    pub retry_history: Vec<RetryAttempt>,
}

/// The prompt tokens of each failed attempt.
pub open spec fn retry_prompts(s: Seq<RetryAttempt>) -> Seq<nat> {
    s.map_values(|a: RetryAttempt| sum(prompts(a.iterations@)))
}

/// The completion tokens of each failed attempt.
pub open spec fn retry_completions(s: Seq<RetryAttempt>) -> Seq<nat> {
    s.map_values(|a: RetryAttempt| sum(completions(a.iterations@)))
}

impl SubtaskTrace {
    /// A record in which nothing has happened yet.
    pub open spec fn is_fresh(self, subtask_id: usize) -> bool {
        &&& self.subtask_id == subtask_id
        &&& self.status == SubTaskStatus::Pending
        &&& self.start_time is None
        &&& self.end_time is None
        &&& self.duration is None
        &&& self.react_iterations@ == Seq::<IterationTrace>::empty()
        &&& self.react_status == TraceStatus::Success
        &&& self.result is None
        &&& self.retry_count == 0
        &&& self.retry_history@ == Seq::<RetryAttempt>::empty()
    }

    /// The record of a subtask whose execution has not begun yet.
    pub fn new(subtask_id: usize, description: String) -> (r: SubtaskTrace)
        ensures
            r.is_fresh(subtask_id),
            r.description == description,
    {
        SubtaskTrace {
            subtask_id,
            description,
            status: SubTaskStatus::Pending,
            start_time: None,
            end_time: None,
            duration: None,
            react_iterations: Vec::new(),
            react_status: TraceStatus::Success,
            result: None,
            retry_count: 0,
            retry_history: Vec::new(),
        }
    }

    /// The points in time are ones that a clock gives.
    pub open spec fn timed(self) -> bool {
        self.start_time matches Some(t) ==> t.nanos < NANOS_PER_SEC
    }

    /// This record, once the execution began at `at`.
    pub open spec fn started(self, at: Timestamp) -> SubtaskTrace {
        SubtaskTrace { start_time: Some(at), status: SubTaskStatus::InProgress, ..self }
    }

    /// This record, once the execution ended at `at`.
    pub open spec fn ended(self, at: Timestamp) -> SubtaskTrace {
        SubtaskTrace {
            end_time: Some(at),
            duration: match self.start_time {
                Some(start) => Some(span_between(start, at)),
                None => self.duration,
            },
            ..self
        }
    }

    /// This record, once the execution ended at `at` with a result.
    pub open spec fn completed(self, result: String, at: Timestamp) -> SubtaskTrace {
        SubtaskTrace { status: SubTaskStatus::Completed, result: Some(result), ..self.ended(at) }
    }

    /// This record, once the execution failed at `at`.
    pub open spec fn failed(self, error: String, at: Timestamp) -> SubtaskTrace {
        SubtaskTrace {
            status: SubTaskStatus::Failed(error),
            react_status: TraceStatus::Error(error),
            ..self.ended(at)
        }
    }

    /// `r` is this record, once the execution ran out of time at `at`.
    pub open spec fn timed_out(self, at: Timestamp, r: SubtaskTrace) -> bool {
        &&& r == (SubtaskTrace {
            status: r.status,
            react_status: TraceStatus::Timeout,
            ..self.ended(at)
        })
        &&& r.status matches SubTaskStatus::Failed(m) && m@ == "Timeout"@
    }

    /// The execution began at `at`.
    pub fn start_at(&mut self, at: Timestamp)
        ensures
            *final(self) == old(self).started(at),
    {
        self.start_time = Some(at);
        self.status = SubTaskStatus::InProgress;
    }

    /// The execution begins.
    pub fn start(&mut self)
        ensures
            final(self).start_time is Some,
            final(self).timed(),
            *final(self) == old(self).started(final(self).start_time->0),
    {
        self.start_at(now());
    }

    fn end_at(&mut self, at: Timestamp)
        requires
            old(self).timed(),
            at.nanos < NANOS_PER_SEC,
        ensures
            *final(self) == old(self).ended(at),
    {
        self.end_time = Some(at);
        if let Some(start) = self.start_time {
            self.duration = Some(between(start, at));
        }
    }

    /// The execution ended at `at` with a result.
    pub fn complete_at(&mut self, result: String, at: Timestamp)
        requires
            old(self).timed(),
            at.nanos < NANOS_PER_SEC,
        ensures
            *final(self) == old(self).completed(result, at),
    {
        self.end_at(at);
        self.status = SubTaskStatus::Completed;
        self.result = Some(result);
    }

    /// The execution ends with a result.
    pub fn complete(&mut self, result: String)
        requires
            old(self).timed(),
        ensures
            final(self).end_time is Some,
            *final(self) == old(self).completed(result, final(self).end_time->0),
    {
        self.complete_at(result, now());
    }

    /// The execution failed at `at`.
    pub fn fail_at(&mut self, error: String, at: Timestamp)
        requires
            old(self).timed(),
            at.nanos < NANOS_PER_SEC,
        ensures
            *final(self) == old(self).failed(error, at),
    {
        self.end_at(at);
        self.status = SubTaskStatus::Failed(error.clone());
        self.react_status = TraceStatus::Error(error);
    }

    /// The execution fails.
    pub fn fail(&mut self, error: String)
        requires
            old(self).timed(),
        ensures
            final(self).end_time is Some,
            *final(self) == old(self).failed(error, final(self).end_time->0),
    {
        self.fail_at(error, now());
    }

    /// The execution ran out of time at `at`.
    pub fn timeout_at(&mut self, at: Timestamp)
        requires
            old(self).timed(),
            at.nanos < NANOS_PER_SEC,
        ensures
            old(self).timed_out(at, *final(self)),
    {
        self.end_at(at);
        self.status = SubTaskStatus::Failed("Timeout".to_owned());
        self.react_status = TraceStatus::Timeout;
    }

    /// The execution runs out of time.
    pub fn timeout(&mut self)
        requires
            old(self).timed(),
        ensures
            final(self).end_time is Some,
            old(self).timed_out(final(self).end_time->0, *final(self)),
    {
        self.timeout_at(now());
    }

    /// Records one more iteration.
    pub fn add_iteration(&mut self, iteration: IterationTrace)
        ensures
            final(self).react_iterations@ == old(self).react_iterations@.push(iteration),
            *final(self) == (SubtaskTrace {
                react_iterations: final(self).react_iterations,
                ..*old(self)
            }),
    {
        self.react_iterations.push(iteration);
    }

    /// The present attempt ended this way.
    pub fn set_react_status(&mut self, status: TraceStatus)
        ensures
            *final(self) == (SubtaskTrace { react_status: status, ..*old(self) }),
    {
        self.react_status = status;
    }

    /// Prompt tokens of the present attempt.
    pub open spec fn prompt_tokens(self) -> nat {
        sum(prompts(self.react_iterations@))
    }

    /// Completion tokens of the present attempt.
    pub open spec fn completion_tokens(self) -> nat {
        sum(completions(self.react_iterations@))
    }

    /// Prompt tokens of all attempts.
    pub open spec fn all_prompt_tokens(self) -> nat {
        self.prompt_tokens() + sum(retry_prompts(self.retry_history@))
    }

    /// Completion tokens of all attempts.
    pub open spec fn all_completion_tokens(self) -> nat {
        self.completion_tokens() + sum(retry_completions(self.retry_history@))
    }

    /// The tokens of the present attempt.
    pub fn total_tokens(&self) -> (r: TokenUsage)
        requires
            self.prompt_tokens() + self.completion_tokens() <= u64::MAX,
        ensures
            r.prompt_tokens == self.prompt_tokens(),
            r.completion_tokens == self.completion_tokens(),
            r.total_tokens == self.prompt_tokens() + self.completion_tokens(),
    {
        TokenUsage::new(
            prompt_sum(&self.react_iterations),
            completion_sum(&self.react_iterations),
        )
    }

    /// The tokens of all attempts.
    pub fn total_tokens_with_retries(&self) -> (r: TokenUsage)
        requires
            self.all_prompt_tokens() + self.all_completion_tokens() <= u64::MAX,
        ensures
            r.prompt_tokens == self.all_prompt_tokens(),
            r.completion_tokens == self.all_completion_tokens(),
            r.total_tokens == self.all_prompt_tokens() + self.all_completion_tokens(),
    {
        let mut prompt_tokens: u64 = prompt_sum(&self.react_iterations);
        let mut completion_tokens: u64 = completion_sum(&self.react_iterations);
        let ghost ps = retry_prompts(self.retry_history@);
        let ghost cs = retry_completions(self.retry_history@);
        let mut i: usize = 0;
        while i < self.retry_history.len()
            invariant
                i <= self.retry_history@.len(),
                ps == retry_prompts(self.retry_history@),
                cs == retry_completions(self.retry_history@),
                self.all_prompt_tokens() + self.all_completion_tokens() <= u64::MAX,
                prompt_tokens == self.prompt_tokens() + sum(ps.take(i as int)),
                completion_tokens == self.completion_tokens() + sum(cs.take(i as int)),
            decreases self.retry_history@.len() - i,
        {
            proof {
                lemma_sum_step(ps, i as int);
                lemma_sum_step(cs, i as int);
            }
            prompt_tokens = prompt_tokens + prompt_sum(&self.retry_history[i].iterations);
            completion_tokens = completion_tokens + completion_sum(
                &self.retry_history[i].iterations,
            );
            i = i + 1;
        }
        assert(ps.take(ps.len() as int) =~= ps);
        assert(cs.take(cs.len() as int) =~= cs);
        TokenUsage::new(prompt_tokens, completion_tokens)
    }

    /// This record, once an attempt failed at `at` and another is to follow.
    pub open spec fn is_retried(self, error: String, at: Timestamp, r: SubtaskTrace) -> bool {
        &&& r.retry_count == self.retry_count + 1
        &&& r.retry_history@.len() == self.retry_history@.len() + 1
        &&& r.retry_history@.drop_last() == self.retry_history@
        &&& r.retry_history@.last().attempt == r.retry_count
        &&& r.retry_history@.last().error == error
        &&& r.retry_history@.last().timestamp == at
        &&& r.retry_history@.last().iterations@ == self.react_iterations@
        &&& r.react_iterations@ == Seq::<IterationTrace>::empty()
        &&& r == (SubtaskTrace {
            retry_count: r.retry_count,
            retry_history: r.retry_history,
            react_iterations: r.react_iterations,
            react_status: TraceStatus::Success,
            ..self
        })
    }

    /// The attempt failed at `at`, and another is to follow. Its iterations are
    /// kept in the history.
    pub fn record_retry_at(&mut self, error: String, at: Timestamp)
        requires
            old(self).retry_count < u32::MAX,
        ensures
            old(self).is_retried(error, at, *final(self)),
    {
        self.retry_count = self.retry_count + 1;
        let mut iterations: Vec<IterationTrace> = Vec::new();
        iterations.append(&mut self.react_iterations);
        let attempt = RetryAttempt { attempt: self.retry_count, error, timestamp: at, iterations };
        self.retry_history.push(attempt);
        self.react_status = TraceStatus::Success;
        assert(self.retry_history@.drop_last() =~= old(self).retry_history@);
    }

    /// The attempt failed, and another is to follow.
    pub fn record_retry(&mut self, error: String)
        requires
            old(self).retry_count < u32::MAX,
        ensures
            old(self).is_retried(
                error,
                final(self).retry_history@.last().timestamp,
                *final(self),
            ),
    {
        self.record_retry_at(error, now());
    }

    /// The summary, with the duration and the status as these texts.
    pub open spec fn summary_spec(self, duration: Seq<char>, status: Seq<char>) -> Seq<char> {
        "SubtaskTrace[id="@ + decimal(self.subtask_id as nat) + ", iterations="@ + decimal(
            self.react_iterations@.len(),
        ) + ", tokens="@ + decimal(self.prompt_tokens() + self.completion_tokens()) + ", retries="@
            + decimal(self.retry_count as nat) + ", duration="@ + duration + ", status="@ + status
            + "]"@
    }

    /// The summary, with the duration and the status as these texts.
    pub fn summary_with(&self, duration: &str, status: &str) -> (r: String)
        requires
            self.prompt_tokens() + self.completion_tokens() <= u64::MAX,
        ensures
            r@ == self.summary_spec(duration@, status@),
    {
        let tokens = self.total_tokens();
        let mut r = "SubtaskTrace[id=".to_owned();
        r.append(decimal_text(self.subtask_id as u64).as_str());
        r.append(", iterations=");
        r.append(decimal_text(self.react_iterations.len() as u64).as_str());
        r.append(", tokens=");
        r.append(decimal_text(tokens.total_tokens).as_str());
        r.append(", retries=");
        r.append(decimal_text(self.retry_count as u64).as_str());
        r.append(", duration=");
        r.append(duration);
        r.append(", status=");
        r.append(status);
        r.append("]");
        r
    }

    /// A summary for logs.
    pub fn summary(&self) -> (r: String)
        requires
            self.prompt_tokens() + self.completion_tokens() <= u64::MAX,
            self.duration matches Some(d) ==> d.wf(),
        ensures
            r@ == self.summary_spec(
                match self.duration {
                    Some(d) => "Some("@ + debug_duration(d.secs, d.nanos) + ")"@,
                    None => "None"@,
                },
                self.status.words(),
            ),
    {
        let duration = match self.duration {
            Some(d) => {
                let mut t = "Some(".to_owned();
                t.append(duration_debug(d.secs, d.nanos).as_str());
                t.append(")");
                t
            },
            None => "None".to_owned(),
        };
        self.summary_with(duration.as_str(), self.status.text().as_str())
    }
}

impl Default for SubtaskTrace {
    fn default() -> (r: SubtaskTrace)
        ensures
            r.is_fresh(0),
            r.description@ == Seq::<char>::empty(),
    {
        SubtaskTrace::new(0, String::new())
    }
}

// ---------------------------------------------------------------------------
// Plans
// ---------------------------------------------------------------------------

/// Record of the execution of a plan.
#[derive(Debug, Clone)]
pub struct PlanTrace {
    /// Identifier of the execution.
    pub plan_id: String,
    /// What is to be reached.
    pub original_goal: String,
    /// Number of subtasks to be executed.
    pub subtask_count: usize,
    /// The order of execution.
    pub execution_order: Vec<usize>,
    /// Records of the subtasks.
    pub subtask_traces: Vec<SubtaskTrace>,
    /// Tokens of all subtasks.
    pub total_tokens: TokenUsage,
    /// How the plan ended.
    pub plan_status: TraceStatus,
    /// How long it took.
    pub total_duration: Elapsed,
    /// When it began.
    pub start_time: Option<Timestamp>,
    /// When it ended.
    pub end_time: Option<Timestamp>,
}

/// The number of records whose subtask was completed.
pub open spec fn completed_in(s: Seq<SubtaskTrace>) -> nat {
    s.filter(|t: SubtaskTrace| t.status is Completed).len()
}

/// The number of records whose subtask failed.
pub open spec fn failed_in(s: Seq<SubtaskTrace>) -> nat {
    s.filter(|t: SubtaskTrace| t.status is Failed).len()
}

impl PlanTrace {
    /// A record in which nothing has happened yet.
    pub open spec fn is_fresh(self) -> bool {
        &&& self.subtask_traces@ == Seq::<SubtaskTrace>::empty()
        &&& self.total_tokens == TokenUsage::none()
        &&& self.plan_status == TraceStatus::Success
        &&& self.total_duration == Elapsed::zero_spec()
        &&& self.start_time is None
        &&& self.end_time is None
    }

    /// The record of a plan whose execution has not begun yet.
    pub fn new(plan_id: String, original_goal: String, execution_order: Vec<usize>) -> (r: PlanTrace)
        ensures
            r.is_fresh(),
            r.plan_id == plan_id,
            r.original_goal == original_goal,
            r.execution_order == execution_order,
            r.subtask_count == execution_order@.len(),
    {
        let subtask_count: usize = execution_order.len();
        PlanTrace {
            plan_id,
            original_goal,
            subtask_count,
            execution_order,
            subtask_traces: Vec::new(),
            total_tokens: TokenUsage::default(),
            plan_status: TraceStatus::Success,
            total_duration: Elapsed::zero(),
            start_time: None,
            end_time: None,
        }
    }

    /// The points in time are ones that a clock gives.
    pub open spec fn timed(self) -> bool {
        self.start_time matches Some(t) ==> t.nanos < NANOS_PER_SEC
    }

    /// The execution began at `at`.
    pub fn start_at(&mut self, at: Timestamp)
        ensures
            *final(self) == (PlanTrace { start_time: Some(at), ..*old(self) }),
    {
        self.start_time = Some(at);
    }

    /// The execution begins.
    pub fn start(&mut self)
        ensures
            final(self).start_time is Some,
            final(self).timed(),
            *final(self) == (PlanTrace { start_time: final(self).start_time, ..*old(self) }),
    {
        self.start_at(now());
    }

    /// The tokens of one more subtask can be added.
    pub open spec fn can_add(self, trace: SubtaskTrace) -> bool {
        &&& self.total_tokens.prompt_tokens + trace.all_prompt_tokens() <= u64::MAX
        &&& self.total_tokens.completion_tokens + trace.all_completion_tokens() <= u64::MAX
        &&& self.total_tokens.total_tokens + trace.all_prompt_tokens()
            + trace.all_completion_tokens() <= u64::MAX
    }

    /// The tokens of the plan are those of its subtasks, of all their attempts, and the
    /// total is that of prompts and completions together.
    pub open spec fn counted(self) -> bool {
        &&& self.total_tokens.prompt_tokens == sum(subtask_prompts(self.subtask_traces@))
        &&& self.total_tokens.completion_tokens == sum(subtask_completions(self.subtask_traces@))
        &&& self.total_tokens.total_tokens == self.total_tokens.prompt_tokens
            + self.total_tokens.completion_tokens
    }

    /// `r` is this record with one more subtask, whose tokens of all attempts are added.
    pub open spec fn is_added(self, trace: SubtaskTrace, r: PlanTrace) -> bool {
        &&& r.subtask_traces@ == self.subtask_traces@.push(trace)
        &&& r.total_tokens.prompt_tokens == self.total_tokens.prompt_tokens
            + trace.all_prompt_tokens()
        &&& r.total_tokens.completion_tokens == self.total_tokens.completion_tokens
            + trace.all_completion_tokens()
        &&& r.total_tokens.total_tokens == self.total_tokens.total_tokens
            + trace.all_prompt_tokens() + trace.all_completion_tokens()
        &&& r == (PlanTrace {
            subtask_traces: r.subtask_traces,
            total_tokens: r.total_tokens,
            ..self
        })
    }

    /// Records one more subtask, and adds its tokens, those of retries as well.
    pub fn add_subtask_trace(&mut self, trace: SubtaskTrace)
        requires
            old(self).can_add(trace),
        ensures
            old(self).is_added(trace, *final(self)),
    {
        let tokens = trace.total_tokens_with_retries();
        self.total_tokens.prompt_tokens = self.total_tokens.prompt_tokens + tokens.prompt_tokens;
        self.total_tokens.completion_tokens = self.total_tokens.completion_tokens
            + tokens.completion_tokens;
        self.total_tokens.total_tokens = self.total_tokens.total_tokens + tokens.total_tokens;
        self.subtask_traces.push(trace);
    }

    /// This record, once the execution ended at `at` in this way.
    pub open spec fn finalized(self, status: TraceStatus, at: Timestamp) -> PlanTrace {
        PlanTrace {
            end_time: Some(at),
            total_duration: match self.start_time {
                Some(start) => span_between(start, at),
                None => self.total_duration,
            },
            plan_status: status,
            ..self
        }
    }

    /// The execution ended at `at` in this way.
    pub fn finalize_at(&mut self, status: TraceStatus, at: Timestamp)
        requires
            old(self).timed(),
            at.nanos < NANOS_PER_SEC,
        ensures
            *final(self) == old(self).finalized(status, at),
    {
        self.end_time = Some(at);
        if let Some(start) = self.start_time {
            self.total_duration = between(start, at);
        }
        self.plan_status = status;
    }

    /// The execution ends in this way.
    pub fn finalize(&mut self, status: TraceStatus)
        requires
            old(self).timed(),
        ensures
            final(self).end_time is Some,
            *final(self) == old(self).finalized(status, final(self).end_time->0),
    {
        self.finalize_at(status, now());
    }

    /// The number of completed subtasks.
    pub fn completed_count(&self) -> (r: usize)
        ensures
            r == completed_in(self.subtask_traces@),
    {
        let ghost p = |t: SubtaskTrace| t.status is Completed;
        let mut n: usize = 0;
        let mut i: usize = 0;
        while i < self.subtask_traces.len()
            invariant
                n <= i <= self.subtask_traces@.len(),
                p == (|t: SubtaskTrace| t.status is Completed),
                n == self.subtask_traces@.take(i as int).filter(p).len(),
            decreases self.subtask_traces@.len() - i,
        {
            let done = matches!(self.subtask_traces[i].status, SubTaskStatus::Completed);
            proof {
                let s = self.subtask_traces@.take(i + 1);
                assert(s.drop_last() =~= self.subtask_traces@.take(i as int));
                reveal(Seq::filter);
            }
            if done {
                n = n + 1;
            }
            i = i + 1;
        }
        assert(self.subtask_traces@.take(self.subtask_traces@.len() as int)
            =~= self.subtask_traces@);
        n
    }

    /// The number of failed subtasks.
    pub fn failed_count(&self) -> (r: usize)
        ensures
            r == failed_in(self.subtask_traces@),
    {
        let ghost p = |t: SubtaskTrace| t.status is Failed;
        let mut n: usize = 0;
        let mut i: usize = 0;
        while i < self.subtask_traces.len()
            invariant
                n <= i <= self.subtask_traces@.len(),
                p == (|t: SubtaskTrace| t.status is Failed),
                n == self.subtask_traces@.take(i as int).filter(p).len(),
            decreases self.subtask_traces@.len() - i,
        {
            let failed = matches!(self.subtask_traces[i].status, SubTaskStatus::Failed(_));
            proof {
                let s = self.subtask_traces@.take(i + 1);
                assert(s.drop_last() =~= self.subtask_traces@.take(i as int));
                reveal(Seq::filter);
            }
            if failed {
                n = n + 1;
            }
            i = i + 1;
        }
        assert(self.subtask_traces@.take(self.subtask_traces@.len() as int)
            =~= self.subtask_traces@);
        n
    }

    /// The summary, with the duration and the status as these texts.
    pub open spec fn summary_spec(self, duration: Seq<char>, status: Seq<char>) -> Seq<char> {
        "PlanTrace[plan_id="@ + self.plan_id@ + ", subtasks="@ + decimal(
            completed_in(self.subtask_traces@),
        ) + "/"@ + decimal(self.subtask_count as nat) + " completed, failed="@ + decimal(
            failed_in(self.subtask_traces@),
        ) + ", tokens="@ + decimal(self.total_tokens.total_tokens as nat) + ", duration="@
            + duration + ", status="@ + status + "]"@
    }

    /// The summary, with the duration and the status as these texts.
    pub fn summary_with(&self, duration: &str, status: &str) -> (r: String)
        ensures
            r@ == self.summary_spec(duration@, status@),
    {
        let mut r = "PlanTrace[plan_id=".to_owned();
        r.append(self.plan_id.as_str());
        r.append(", subtasks=");
        r.append(decimal_text(self.completed_count() as u64).as_str());
        r.append("/");
        r.append(decimal_text(self.subtask_count as u64).as_str());
        r.append(" completed, failed=");
        r.append(decimal_text(self.failed_count() as u64).as_str());
        r.append(", tokens=");
        r.append(decimal_text(self.total_tokens.total_tokens).as_str());
        r.append(", duration=");
        r.append(duration);
        r.append(", status=");
        r.append(status);
        r.append("]");
        r
    }

    /// A summary for logs.
    pub fn summary(&self) -> (r: String)
        requires
            self.total_duration.wf(),
        ensures
            r@ == self.summary_spec(
                debug_duration(self.total_duration.secs, self.total_duration.nanos),
                self.plan_status.words(),
            ),
    {
        let duration = duration_debug(self.total_duration.secs, self.total_duration.nanos);
        self.summary_with(duration.as_str(), self.plan_status.text().as_str())
    }
}

impl Default for PlanTrace {
    fn default() -> (r: PlanTrace)
        ensures
            r.is_fresh(),
            r.plan_id@ == Seq::<char>::empty(),
            r.original_goal@ == Seq::<char>::empty(),
            r.execution_order@ == Seq::<usize>::empty(),
            r.subtask_count == 0,
    {
        PlanTrace::new(String::new(), String::new(), Vec::new())
    }
}

// ---------------------------------------------------------------------------
// Durations in stored records
// ---------------------------------------------------------------------------

/// A duration as it is stored: seconds and milliseconds.
#[derive(Debug, Clone, Copy)]
pub struct DurationRepr {
    pub secs: u64,
    pub millis: u32,
}

impl DurationRepr {
    /// How a duration is stored: whole milliseconds, rounded down.
    pub fn from_elapsed(d: &Elapsed) -> (r: DurationRepr)
        requires
            d.wf(),
        ensures
            r.secs == d.secs,
            r.millis == d.nanos / 1_000_000,
            r.millis < 1000,
    {
        DurationRepr { secs: d.secs, millis: d.nanos / 1_000_000 }
    }

    /// The duration that is stored so.
    pub fn to_elapsed(&self) -> (r: Elapsed)
        requires
            self.millis as int * 1_000_000 <= u32::MAX,
            self.secs + self.millis / 1000 <= u64::MAX,
        ensures
            r.wf(),
            r.total() == self.secs * 1_000_000_000 + self.millis * 1_000_000,
    {
        Elapsed {
            secs: self.secs + (self.millis / 1000) as u64,
            nanos: (self.millis % 1000) * 1_000_000,
        }
    }
}

// ---------------------------------------------------------------------------
// Laws
// ---------------------------------------------------------------------------

/// A retry loses no tokens: those of all attempts stay what they were.
pub proof fn law_retry_keeps_tokens(t: SubtaskTrace, error: String, at: Timestamp, r: SubtaskTrace)
    requires
        t.is_retried(error, at, r),
    ensures
        r.all_prompt_tokens() == t.all_prompt_tokens(),
        r.all_completion_tokens() == t.all_completion_tokens(),
{
    let last = r.retry_history@.last();
    assert(retry_prompts(r.retry_history@).drop_last() =~= retry_prompts(t.retry_history@));
    assert(retry_completions(r.retry_history@).drop_last() =~= retry_completions(t.retry_history@));
    assert(retry_prompts(r.retry_history@).last() == sum(prompts(last.iterations@)));
    assert(retry_completions(r.retry_history@).last() == sum(completions(last.iterations@)));
    assert(prompts(r.react_iterations@) =~= Seq::<nat>::empty());
    assert(completions(r.react_iterations@) =~= Seq::<nat>::empty());
}

/// The retry history keeps count: after a retry there are as many records in it
/// as the count says, if it was so before, and they are numbered from 1 on.
pub open spec fn history_counted(t: SubtaskTrace) -> bool {
    &&& t.retry_history@.len() == t.retry_count
    &&& forall|i: int|
        0 <= i < t.retry_history@.len() ==> (#[trigger] t.retry_history@[i]).attempt == i + 1
}

/// A fresh record's history is counted, and a retry keeps it so.
pub proof fn law_retry_history_counted(t: SubtaskTrace, error: String, at: Timestamp, r: SubtaskTrace)
    ensures
        t.is_fresh(t.subtask_id) ==> history_counted(t),
        history_counted(t) && t.is_retried(error, at, r) ==> history_counted(r),
{
    if !(history_counted(t) && t.is_retried(error, at, r)) {
        return;
    }
    assert forall|i: int| 0 <= i < r.retry_history@.len() implies (
    #[trigger] r.retry_history@[i]).attempt == i + 1 by {
        if i < t.retry_history@.len() {
            assert(r.retry_history@[i] == r.retry_history@.drop_last()[i]);
        }
    }
}

/// The prompt tokens of each subtask, those of all its attempts.
pub open spec fn subtask_prompts(s: Seq<SubtaskTrace>) -> Seq<nat> {
    s.map_values(|t: SubtaskTrace| t.all_prompt_tokens())
}

/// The completion tokens of each subtask, those of all its attempts.
pub open spec fn subtask_completions(s: Seq<SubtaskTrace>) -> Seq<nat> {
    s.map_values(|t: SubtaskTrace| t.all_completion_tokens())
}

/// The tokens of a plan are those of its subtasks, of all their attempts: it is so of a
/// fresh record, and adding a subtask keeps it so.
pub proof fn law_plan_total_is_sum(p: PlanTrace, trace: SubtaskTrace, r: PlanTrace)
    ensures
        p.is_fresh() ==> p.counted(),
        p.counted() && p.is_added(trace, r) ==> r.counted(),
{
    if p.is_fresh() {
        assert(subtask_prompts(p.subtask_traces@) =~= Seq::<nat>::empty());
        assert(subtask_completions(p.subtask_traces@) =~= Seq::<nat>::empty());
    }
    if p.is_added(trace, r) {
        assert(subtask_prompts(r.subtask_traces@).drop_last() =~= subtask_prompts(
            p.subtask_traces@,
        ));
        assert(subtask_completions(r.subtask_traces@).drop_last() =~= subtask_completions(
            p.subtask_traces@,
        ));
    }
}

/// No subtask counts both as completed and as failed, and none counts that has no record.
pub proof fn law_counts_within(s: Seq<SubtaskTrace>)
    ensures
        completed_in(s) + failed_in(s) <= s.len(),
    decreases s.len(),
{
    reveal(Seq::filter);
    if s.len() > 0 {
        law_counts_within(s.drop_last());
    }
}

/// What is stored of a duration is read back to the millisecond.
pub proof fn law_duration_round_trip(d: Elapsed, stored: DurationRepr, back: Elapsed)
    requires
        d.wf(),
        stored.secs == d.secs,
        stored.millis == d.nanos / 1_000_000,
        back.total() == stored.secs * 1_000_000_000 + stored.millis * 1_000_000,
    ensures
        back.total() <= d.total() < back.total() + 1_000_000,
{
}

} // verus!
