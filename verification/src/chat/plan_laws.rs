//! What holds of the execution of a plan: what the model is asked in the end, what the
//! client gets, and what the records tell.

use super::plan::{
    added_id, all_results_told, are_answer_chunks, begun_trace, description_of, failure_words,
    final_prompt, has_result, is_retryable, result_told, shorter, skipped_trace, takes_result,
    with_subtask, AnswerChunk, PlanRun,
};
use super::planner::{SubTask, SubTaskStatus, TaskPlan, ToolDescription};
use super::trace::{
    call_counts, completed_in, completions, failed_in, prompts, retry_completions, retry_prompts,
    subtask_completions, subtask_prompts, totals, IterationTrace, PlanTrace, ReactTrace,
    RetryAttempt, SubtaskTrace, TraceStatus,
};
use super::utils::{chunks_from, law_chunks_keep_text};
use crate::clock::{span_between, Elapsed, Timestamp};
use crate::error::ServerError;
use crate::sum::sum;
use crate::text::{
    decimal, has_text, join_text, lemma_has_end, lemma_has_middle, lemma_has_part, lemma_has_start,
    lemma_text_in_text,
};
use super::subtask::are_first_messages;
use super::subtask_laws::law_dependency_results_told;
use super::message::{ChatMessage, UserContent};
use vstd::prelude::*;
use vstd::string::*;

verus! {

// ---------------------------------------------------------------------------
// The answer to the goal
// ---------------------------------------------------------------------------

/// A subtask is described as the first one in the plan with its identifier is.
pub proof fn law_description_of_the_first(subtasks: Seq<SubTask>, k: int)
    requires
        0 <= k < subtasks.len(),
        forall|j: int| 0 <= j < k ==> (#[trigger] subtasks[j]).id != subtasks[k].id,
    ensures
        description_of(subtasks, subtasks[k].id) == subtasks[k].description@,
    decreases k,
{
    if k > 0 {
        assert(subtasks[0].id != subtasks[k].id);
        let rest = subtasks.drop_first();
        assert forall|j: int| 0 <= j < k - 1 implies (#[trigger] rest[j]).id != rest[k - 1].id by {
            assert(subtasks[j + 1].id != subtasks[k].id);
        }
        law_description_of_the_first(rest, k - 1);
    }
}

/// A subtask that is not in the plan is described as unknown.
pub proof fn law_unknown_subtask_described(subtasks: Seq<SubTask>, id: usize)
    requires
        forall|j: int| 0 <= j < subtasks.len() ==> (#[trigger] subtasks[j]).id != id,
    ensures
        description_of(subtasks, id) == "Unknown task"@,
    decreases subtasks.len(),
{
    if subtasks.len() > 0 {
        assert(subtasks[0].id != id);
        let rest = subtasks.drop_first();
        assert forall|j: int| 0 <= j < rest.len() implies (#[trigger] rest[j]).id != id by {
            assert(subtasks[j + 1].id != id);
        }
        law_unknown_subtask_described(rest, id);
    }
}

/// The request to put the results together holds every result, with the number of its
/// subtask and what that was about.
pub proof fn law_every_result_reaches_the_model(
    plan: TaskPlan,
    results: Seq<(usize, String)>,
    i: int,
    k: int,
)
    requires
        0 <= i < results.len(),
        0 <= k < plan.subtasks@.len(),
        plan.subtasks@[k].id == results[i].0,
        forall|j: int| 0 <= j < k ==> (#[trigger] plan.subtasks@[j]).id != results[i].0,
    ensures
        has_text(
            final_prompt(plan, results),
            "- Task "@ + decimal(results[i].0 as nat) + ": "@ + plan.subtasks@[k].description@
                + "\n  Result: "@ + results[i].1@,
        ),
{
    law_description_of_the_first(plan.subtasks@, k);
    let told = all_results_told(plan.subtasks@, results);
    assert(told[i] == result_told(plan.subtasks@, results[i]));
    lemma_has_part(told, "\n\n"@, i);
    lemma_prompt(plan, results);
    lemma_text_in_text(final_prompt(plan, results), join_text(told, "\n\n"@), told[i]);
}

proof fn lemma_prompt(plan: TaskPlan, results: Seq<(usize, String)>)
    ensures
        has_text(
            final_prompt(plan, results),
            join_text(all_results_told(plan.subtasks@, results), "\n\n"@),
        ),
{
    let head = "Based on the following task execution results, provide a comprehensive answer to the user's original request.\n\nOriginal Goal: "@
        + plan.original_goal@ + "\n\nExecution Results:\n"@;
    let all = join_text(all_results_told(plan.subtasks@, results), "\n\n"@);
    lemma_has_middle(
        head,
        all,
        "\n\nPlease synthesize these results into a clear, coherent response."@,
    );
}

/// The request to put the results together tells what was to be reached.
pub proof fn law_goal_reaches_the_model(plan: TaskPlan, results: Seq<(usize, String)>)
    ensures
        has_text(final_prompt(plan, results), "Original Goal: "@ + plan.original_goal@),
        has_text(final_prompt(plan, results), "Please synthesize these results"@),
{
    reveal_strlit(
        "Based on the following task execution results, provide a comprehensive answer to the user's original request.\n\nOriginal Goal: ",
    );
    reveal_strlit("Original Goal: ");
    reveal_strlit("\n\nPlease synthesize these results into a clear, coherent response.");
    reveal_strlit("Please synthesize these results");
    let lead = "Based on the following task execution results, provide a comprehensive answer to the user's original request.\n\nOriginal Goal: "@;
    let a = lead.take(lead.len() - 15);
    assert(lead.skip(lead.len() - 15) =~= "Original Goal: "@);
    assert(lead =~= a + "Original Goal: "@);
    let all = join_text(all_results_told(plan.subtasks@, results), "\n\n"@);
    let tail = "\n\nPlease synthesize these results into a clear, coherent response."@;
    let b = "\n\nExecution Results:\n"@ + all + tail;
    assert(final_prompt(plan, results) =~= a + ("Original Goal: "@ + plan.original_goal@) + b);
    lemma_has_middle(a, "Original Goal: "@ + plan.original_goal@, b);
    let p = "Please synthesize these results"@;
    assert(tail.take(2) + p + tail.skip(33) =~= tail);
    lemma_has_middle(tail.take(2), p, tail.skip(33));
    let front = lead + plan.original_goal@ + "\n\nExecution Results:\n"@ + all;
    assert(final_prompt(plan, results) =~= front + tail);
    lemma_has_end(front, tail);
    lemma_text_in_text(final_prompt(plan, results), tail, p);
}

/// The contents of pieces.
pub open spec fn contents(r: Seq<AnswerChunk>) -> Seq<Seq<char>> {
    r.map_values(|c: AnswerChunk| c.content@)
}

/// The pieces of an answer, one after the other, are the answer. They are numbered from 0
/// on, and exactly the last one says that it is the last.
pub proof fn law_pieces_make_the_answer(s: Seq<char>, r: Seq<AnswerChunk>)
    requires
        are_answer_chunks(chunks_from(s, 0, 10), r),
    ensures
        join_text(contents(r), Seq::empty()) == s,
        forall|i: int|
            0 <= i < r.len() ==> (#[trigger] r[i]).index == i && (r[i].last <==> i == r.len() - 1)
                && r[i].content@.len() > 0,
{
    let c = chunks_from(s, 0, 10);
    law_chunks_keep_text(s, 0, 10);
    assert(s.skip(0) =~= s);
    assert forall|i: int| 0 <= i < r.len() implies #[trigger] contents(r)[i] == c[i] by {
        assert(r[i].content@ == c[i]);
    }
    assert(contents(r) =~= c);
    assert forall|i: int| 0 <= i < r.len() implies (#[trigger] r[i]).index == i && (r[i].last <==> i
        == r.len() - 1) && r[i].content@.len() > 0 by {
        assert(c[i].len() > 0);
    }
}

// ---------------------------------------------------------------------------
// Failures
// ---------------------------------------------------------------------------

/// Another attempt is made after a failure of a tool and after a limit of a loop or a
/// subtask; not after anything else, among it a cancelled request and a bad plan.
pub proof fn law_what_is_tried_again(e: ServerError)
    ensures
        match e {
            ServerError::ToolCallRetryExhausted { .. } => is_retryable(e),
            ServerError::MaxIterationsExceeded(_) => is_retryable(e),
            ServerError::SubtaskTimeout { .. } => is_retryable(e),
            ServerError::McpOperation(_) => is_retryable(e),
            ServerError::McpEmptyContent => is_retryable(e),
            ServerError::ReactTimeout(_) => is_retryable(e),
            ServerError::Operation(_) => !is_retryable(e),
            ServerError::BadRequest(_) => !is_retryable(e),
            ServerError::McpNotFoundClient => !is_retryable(e),
            ServerError::SubtaskRetryExhausted { .. } => !is_retryable(e),
            ServerError::TimeBudgetExhausted { .. } => !is_retryable(e),
            ServerError::PlanParseError(_) => !is_retryable(e),
            ServerError::CyclicDependency => !is_retryable(e),
            ServerError::EmptyPlan => !is_retryable(e),
        },
{
}

/// A failure is told with the error; after the last retry also with the subtask and the
/// number of attempts, which is one more than that of retries.
pub proof fn law_failure_tells_the_error(e: ServerError, id: usize, retries: u32, max_retries: u32)
    ensures
        has_text(failure_words(e, id, retries, max_retries), e.words()),
        retries >= max_retries && max_retries > 0 ==> has_text(
            failure_words(e, id, retries, max_retries),
            "Subtask "@ + decimal(id as nat),
        ) && has_text(
            failure_words(e, id, retries, max_retries),
            " failed after "@ + decimal((retries + 1) as nat) + " attempts: "@,
        ),
        retries < max_retries || max_retries == 0 ==> failure_words(e, id, retries, max_retries)
            == e.words(),
{
    let w = failure_words(e, id, retries, max_retries);
    let a = "Subtask "@ + decimal(id as nat);
    let b = " failed after "@ + decimal((retries + 1) as nat) + " attempts: "@;
    if retries >= max_retries && max_retries > 0 {
        assert(w =~= a + b + e.words());
        lemma_has_end(a + b, e.words());
        lemma_has_middle(a, b, e.words());
        assert(w =~= a + (b + e.words()));
        lemma_has_start(a, b + e.words());
    } else {
        lemma_has_end(Seq::empty(), e.words());
        assert(Seq::<char>::empty() + e.words() =~= e.words());
    }
}

/// Of two stretches of time the shorter one is taken.
pub proof fn law_shorter_of_both(d: Elapsed, secs: u64)
    ensures
        shorter(d, secs).total() <= d.total(),
        shorter(d, secs).total() <= secs * 1_000_000_000,
        shorter(d, secs).total() == d.total() || shorter(d, secs).total() == secs * 1_000_000_000,
{
}

/// A completed subtask counts as such, once, and the others go on counting.
pub proof fn law_completed_is_added(before: Seq<usize>, id: usize, after: Seq<usize>)
    requires
        added_id(before, id, after),
    ensures
        after.contains(id),
        forall|x: usize| x != id ==> (#[trigger] after.contains(x) <==> before.contains(x)),
        before.no_duplicates() ==> after.no_duplicates(),
{
    if !before.contains(id) {
        assert(after[before.len() as int] == id);
        assert forall|x: usize| x != id implies (#[trigger] after.contains(x) <==> before.contains(
            x,
        )) by {
            if before.contains(x) {
                let i = choose|i: int| 0 <= i < before.len() && before[i] == x;
                assert(after[i] == x);
            }
            if after.contains(x) {
                let i = choose|i: int| 0 <= i < after.len() && after[i] == x;
                assert(before[i] == x);
            }
        }
        if before.no_duplicates() {
            assert forall|i: int, j: int|
                0 <= i < after.len() && 0 <= j < after.len() && i != j implies after[i]
                != after[j] by {
                if i < before.len() {
                    assert(before.contains(before[i]));
                }
                if j < before.len() {
                    assert(before.contains(before[j]));
                }
            }
        }
    }
}

// ---------------------------------------------------------------------------
// Records
// ---------------------------------------------------------------------------

/// A record says of a subtask in execution since when, and what it is about; of one that
/// was skipped, that it was, and that nothing was tried.
pub proof fn law_records_say_which_subtask(subtask: SubTask, at: Timestamp, t: SubtaskTrace)
    ensures
        begun_trace(subtask, at, t) ==> t.subtask_id == subtask.id && t.description@
            == subtask.description@ && t.status is InProgress && t.start_time == Some(at)
            && t.end_time is None && t.result is None && t.retry_count == 0,
        skipped_trace(subtask, t) ==> t.subtask_id == subtask.id && t.description@
            == subtask.description@ && t.status is Skipped && t.start_time is None && t.result
            is None && t.react_iterations@.len() == 0,
{
}

/// The time that lies between two points is what is to be added to the first one to get
/// the second; none, if the second comes first.
pub proof fn law_span_leads_from_start_to_end(start: Timestamp, end: Timestamp)
    requires
        start.nanos < 1_000_000_000,
        end.nanos < 1_000_000_000,
    ensures
        start.total() <= end.total() && end.secs - start.secs <= u64::MAX ==> start.total()
            + span_between(start, end).total() == end.total(),
        start.total() > end.total() ==> span_between(start, end).total() == 0,
        span_between(start, end).nanos < 1_000_000_000,
{
    let d = end.total() - start.total();
    if d > 0 {
        let q = d / 1_000_000_000;
        let m = d % 1_000_000_000;
        assert(d == q * 1_000_000_000 + m);
        assert(0 <= m < 1_000_000_000);
        if end.secs - start.secs <= u64::MAX {
            assert(q <= end.secs - start.secs);
        }
    }
}

/// The record of a completed subtask holds its result; that of a failed one the error; that
/// of one that ran out of time says so. Each says when it ended and how long it took, and
/// keeps everything else.
pub proof fn law_records_say_how_it_ended(
    t: SubtaskTrace,
    text: String,
    at: Timestamp,
    late: SubtaskTrace,
)
    ensures
        t.completed(text, at).status is Completed,
        t.completed(text, at).result matches Some(r) && r@ == text@,
        t.completed(text, at).end_time == Some(at),
        t.completed(text, at).react_iterations == t.react_iterations,
        t.completed(text, at).retry_history == t.retry_history,
        t.failed(text, at).status matches SubTaskStatus::Failed(m) && m@ == text@,
        t.failed(text, at).react_status matches TraceStatus::Error(m) && m@ == text@,
        t.failed(text, at).end_time == Some(at),
        t.failed(text, at).result == t.result,
        t.failed(text, at).react_iterations == t.react_iterations,
        t.start_time matches Some(s) ==> t.completed(text, at).duration == Some(span_between(s, at))
            && t.failed(text, at).duration == Some(span_between(s, at)),
        t.timed_out(at, late) ==> late.react_status is Timeout && late.end_time == Some(at) && (
        late.status matches SubTaskStatus::Failed(m) && m@ == "Timeout"@) && late.subtask_id
            == t.subtask_id,
{
}

/// A retry keeps what failed: the error and the iterations of the attempt; the next attempt
/// begins with none.
pub proof fn law_retry_keeps_what_failed(
    t: SubtaskTrace,
    error: String,
    at: Timestamp,
    r: SubtaskTrace,
)
    requires
        t.is_retried(error, at, r),
    ensures
        r.retry_count == t.retry_count + 1,
        r.retry_history@.len() > 0,
        r.retry_history@.last().error@ == error@,
        r.retry_history@.last().timestamp == at,
        r.retry_history@.last().iterations@ == t.react_iterations@,
        r.react_iterations@.len() == 0,
        forall|i: int|
            0 <= i < t.retry_history@.len() ==> #[trigger] t.retry_history@[i]
                == r.retry_history@[i],
        r.subtask_id == t.subtask_id,
        r.status == t.status,
        r.start_time == t.start_time,
{
    assert forall|i: int| 0 <= i < t.retry_history@.len() implies #[trigger] t.retry_history@[i]
        == r.retry_history@[i] by {
        assert(r.retry_history@.drop_last()[i] == t.retry_history@[i]);
    }
}

/// A record behind others adds one to the completed or to the failed ones if its subtask was
/// completed or failed.
pub proof fn law_counts_by_status(s: Seq<SubtaskTrace>, t: SubtaskTrace)
    ensures
        t.status is Completed ==> completed_in(s.push(t)) == completed_in(s) + 1,
        !(t.status is Completed) ==> completed_in(s.push(t)) == completed_in(s),
        t.status is Failed ==> failed_in(s.push(t)) == failed_in(s) + 1,
        !(t.status is Failed) ==> failed_in(s.push(t)) == failed_in(s),
        completed_in(Seq::empty()) == 0,
        failed_in(Seq::empty()) == 0,
{
    reveal(Seq::filter);
    assert(s.push(t).drop_last() =~= s);
}

/// A plan ends as it is said to, at the time that is said, and its records stay.
pub proof fn law_plan_ends_as_said(p: PlanTrace, status: TraceStatus, at: Timestamp)
    ensures
        p.finalized(status, at).plan_status == status,
        p.finalized(status, at).end_time == Some(at),
        p.finalized(status, at).subtask_traces == p.subtask_traces,
        p.finalized(status, at).total_tokens == p.total_tokens,
        p.start_time matches Some(s) ==> p.finalized(status, at).total_duration == span_between(
            s,
            at,
        ),
{
}

/// The summary of a plan tells its identifier, how many of how many subtasks were
/// completed, how many failed, the tokens and how it ended.
pub proof fn law_summary_of_a_plan(p: PlanTrace, duration: Seq<char>, status: Seq<char>)
    ensures
        has_text(p.summary_spec(duration, status), "plan_id="@ + p.plan_id@),
        has_text(
            p.summary_spec(duration, status),
            ", subtasks="@ + decimal(completed_in(p.subtask_traces@)) + "/"@ + decimal(
                p.subtask_count as nat,
            ) + " completed, failed="@ + decimal(failed_in(p.subtask_traces@)) + ", tokens="@
                + decimal(p.total_tokens.total_tokens as nat) + ", duration="@ + duration
                + ", status="@ + status + "]"@,
        ),
{
    reveal_strlit("PlanTrace[plan_id=");
    reveal_strlit("plan_id=");
    let s = p.summary_spec(duration, status);
    let rest = ", subtasks="@ + decimal(completed_in(p.subtask_traces@)) + "/"@ + decimal(
        p.subtask_count as nat,
    ) + " completed, failed="@ + decimal(failed_in(p.subtask_traces@)) + ", tokens="@ + decimal(
        p.total_tokens.total_tokens as nat,
    ) + ", duration="@ + duration + ", status="@ + status + "]"@;
    let a = "PlanTrace["@;
    reveal_strlit("PlanTrace[");
    assert("PlanTrace[plan_id="@ =~= a + "plan_id="@);
    assert(s =~= a + ("plan_id="@ + p.plan_id@) + rest);
    lemma_has_middle(a, "plan_id="@ + p.plan_id@, rest);
    lemma_has_end(a + ("plan_id="@ + p.plan_id@), rest);
}

/// The summary of a loop tells its request, and counts its iterations, its tool calls and
/// its tokens.
pub proof fn law_summary_of_a_loop(t: ReactTrace, duration: Seq<char>, status: Seq<char>)
    ensures
        has_text(
            t.summary_spec(duration, status),
            t.request_id@ + ", iterations="@ + decimal(t.iterations@.len()) + ", tool_calls="@
                + decimal(sum(call_counts(t.iterations@))) + ", tokens="@ + decimal(
                sum(totals(t.iterations@)),
            ) + ", duration="@ + duration + ", status="@ + status + "]"@,
        ),
{
    let rest = t.request_id@ + ", iterations="@ + decimal(t.iterations@.len()) + ", tool_calls="@
        + decimal(sum(call_counts(t.iterations@))) + ", tokens="@ + decimal(
        sum(totals(t.iterations@)),
    ) + ", duration="@ + duration + ", status="@ + status + "]"@;
    let a = "ReactTrace[request_id="@;
    assert(t.summary_spec(duration, status) =~= a + rest);
    lemma_has_end(a, rest);
}

/// The summary of a subtask tells which one it is, and counts its iterations, the tokens of
/// its present attempt and its retries.
pub proof fn law_summary_of_a_subtask(t: SubtaskTrace, duration: Seq<char>, status: Seq<char>)
    ensures
        has_text(
            t.summary_spec(duration, status),
            "id="@ + decimal(t.subtask_id as nat) + ", iterations="@ + decimal(
                t.react_iterations@.len(),
            ) + ", tokens="@ + decimal(t.prompt_tokens() + t.completion_tokens()) + ", retries="@
                + decimal(t.retry_count as nat) + ", duration="@ + duration + ", status="@ + status
                + "]"@,
        ),
{
    let rest = "id="@ + decimal(t.subtask_id as nat) + ", iterations="@ + decimal(
        t.react_iterations@.len(),
    ) + ", tokens="@ + decimal(t.prompt_tokens() + t.completion_tokens()) + ", retries="@ + decimal(
        t.retry_count as nat,
    ) + ", duration="@ + duration + ", status="@ + status + "]"@;
    reveal_strlit("SubtaskTrace[id=");
    reveal_strlit("SubtaskTrace[");
    reveal_strlit("id=");
    assert("SubtaskTrace[id="@ =~= "SubtaskTrace["@ + "id="@);
    assert(t.summary_spec(duration, status) =~= "SubtaskTrace["@ + rest);
    lemma_has_end("SubtaskTrace["@, rest);
}

/// The ways in which things end have their own words.
pub proof fn law_endings_in_words()
    ensures
        TraceStatus::Success.words() == "Success"@,
        TraceStatus::MaxIterationsExceeded.words() == "MaxIterationsExceeded"@,
        TraceStatus::Timeout.words() == "Timeout"@,
        SubTaskStatus::Pending.words() == "Pending"@,
        SubTaskStatus::InProgress.words() == "InProgress"@,
        SubTaskStatus::Completed.words() == "Completed"@,
        SubTaskStatus::Skipped.words() == "Skipped"@,
{
}

/// A change of one subtask leaves the other subtasks, the goal and the order as they are.
pub proof fn law_one_subtask_changes(before: TaskPlan, now: TaskPlan, i: int, s: SubTask)
    requires
        with_subtask(before, now, i, s),
        0 <= i < before.subtasks@.len(),
    ensures
        now.subtasks@.len() == before.subtasks@.len(),
        now.subtasks@[i] == s,
        forall|j: int|
            0 <= j < before.subtasks@.len() && j != i ==> #[trigger] now.subtasks@[j]
                == before.subtasks@[j],
        now.original_goal@ == before.original_goal@,
        now.execution_order@ == before.execution_order@,
{
}

/// Results and completed subtasks that are kept are the same ones.
pub proof fn law_results_are_kept(before: PlanRun, after: PlanRun)
    requires
        before.keeps_results(after),
    ensures
        after.results@ == before.results@,
        after.completed@ == before.completed@,
{
}

/// The tokens and the calls that are added up are those of each iteration, each attempt and
/// each subtask.
pub proof fn law_what_is_added_up(
    s: Seq<IterationTrace>,
    a: Seq<RetryAttempt>,
    t: Seq<SubtaskTrace>,
    i: int,
)
    ensures
        0 <= i < s.len() ==> prompts(s)[i] == s[i].llm_tokens.prompt_tokens && completions(s)[i]
            == s[i].llm_tokens.completion_tokens && totals(s)[i] == s[i].llm_tokens.total_tokens
            && call_counts(s)[i] == s[i].tool_calls@.len(),
        0 <= i < a.len() ==> retry_prompts(a)[i] == sum(prompts(a[i].iterations@))
            && retry_completions(a)[i] == sum(completions(a[i].iterations@)),
        0 <= i < t.len() ==> subtask_prompts(t)[i] == sum(prompts(t[i].react_iterations@)) + sum(
            retry_prompts(t[i].retry_history@),
        ) && subtask_completions(t)[i] == sum(completions(t[i].react_iterations@)) + sum(
            retry_completions(t[i].retry_history@),
        ),
        prompts(s).len() == s.len() && completions(s).len() == s.len() && totals(s).len() == s.len()
            && call_counts(s).len() == s.len(),
        retry_prompts(a).len() == a.len() && retry_completions(a).len() == a.len(),
        subtask_prompts(t).len() == t.len() && subtask_completions(t).len() == t.len(),
{
}

/// The result of a completed subtask is kept, with those that there were, and with the
/// subtask, which counts as completed from then on.
pub proof fn law_result_is_taken(before: PlanRun, i: int, text: String, after: PlanRun)
    requires
        takes_result(before, i, text, after),
        0 <= i < before.plan.subtasks@.len(),
    ensures
        after.results@.len() == before.results@.len() + 1,
        after.results@.last().0 == before.plan.subtasks@[i].id,
        after.results@.last().1@ == text@,
        forall|k: int|
            0 <= k < before.results@.len() ==> #[trigger] after.results@[k] == before.results@[k],
        after.completed@.contains(before.plan.subtasks@[i].id),
        after.plan.subtasks@[i].status is Completed,
        after.plan.subtasks@[i].result matches Some(r) && r@ == text@,
        after.plan.subtasks@[i].description == before.plan.subtasks@[i].description,
        after.plan.original_goal == before.plan.original_goal,
{
    law_completed_is_added(before.completed@, before.plan.subtasks@[i].id, after.completed@);
}

/// A result reaches every subtask that depends on it: the model is told it when that subtask
/// begins, whatever other results there are.
pub proof fn law_result_reaches_its_dependents(
    before: PlanRun,
    i: int,
    text: String,
    after: PlanRun,
    dependent: SubTask,
    tools: Seq<ToolDescription>,
    m: Seq<ChatMessage>,
)
    requires
        takes_result(before, i, text, after),
        0 <= i < before.plan.subtasks@.len(),
        !has_result(before.results@, before.plan.subtasks@[i].id),
        dependent.dependencies@.contains(before.plan.subtasks@[i].id),
        are_first_messages(dependent, after.results@, tools, m),
    ensures
        m.len() == 3,
        m[1] matches ChatMessage::User { content: UserContent::Text(t), name: None } && has_text(
            t@,
            "Result from subtask "@ + decimal(before.plan.subtasks@[i].id as nat) + ": "@ + text@,
        ),
{
    let k = before.results@.len() as int;
    let id = before.plan.subtasks@[i].id;
    assert(after.results@[k] == (id, text));
    assert forall|j: int| 0 <= j < k implies (#[trigger] after.results@[j]).0
        != after.results@[k].0 by {
        assert(before.results@[j].0 != id);
    }
    law_dependency_results_told(dependent, after.results@, tools, m, k);
}

/// The request to put the results together tells each of them once, in order, between what
/// was to be reached and what is asked.
pub proof fn law_results_reach_the_model_in_order(
    plan: TaskPlan,
    results: Seq<(usize, String)>,
    at: Seq<int>,
    lines: Seq<Seq<char>>,
)
    requires
        at.len() == results.len(),
        lines.len() == results.len(),
        forall|i: int|
            0 <= i < results.len() ==> 0 <= #[trigger] at[i] < plan.subtasks@.len()
                && plan.subtasks@[at[i]].id == results[i].0 && forall|j: int|
                0 <= j < at[i] ==> (#[trigger] plan.subtasks@[j]).id != results[i].0,
        forall|i: int|
            0 <= i < results.len() ==> #[trigger] lines[i] == "- Task "@ + decimal(
                results[i].0 as nat,
            ) + ": "@ + plan.subtasks@[at[i]].description@ + "\n  Result: "@ + results[i].1@,
    ensures
        ({
            let all = join_text(lines, "\n\n"@);
            let p = final_prompt(plan, results);
            &&& has_text(
                p,
                "Original Goal: "@ + plan.original_goal@ + "\n\nExecution Results:\n"@ + all
                    + "\n\nPlease synthesize these results"@,
            )
        }),
{
    let told = all_results_told(plan.subtasks@, results);
    assert forall|i: int| 0 <= i < results.len() implies #[trigger] told[i] == lines[i] by {
        assert(0 <= at[i] < plan.subtasks@.len());
        law_description_of_the_first(plan.subtasks@, at[i]);
        assert(told[i] == result_told(plan.subtasks@, results[i]));
    }
    assert(told =~= lines);
    lemma_prompt_ends(plan.original_goal@, join_text(lines, "\n\n"@));
}

proof fn lemma_prompt_ends(goal: Seq<char>, all: Seq<char>)
    ensures
        has_text(
            "Based on the following task execution results, provide a comprehensive answer to the user's original request.\n\nOriginal Goal: "@
                + goal + "\n\nExecution Results:\n"@ + all
                + "\n\nPlease synthesize these results into a clear, coherent response."@,
            "Original Goal: "@ + goal + "\n\nExecution Results:\n"@ + all
                + "\n\nPlease synthesize these results"@,
        ),
{
    let a = lemma_lead_end();
    let b = lemma_tail_start();
    let lead = "Based on the following task execution results, provide a comprehensive answer to the user's original request.\n\nOriginal Goal: "@;
    let tail = "\n\nPlease synthesize these results into a clear, coherent response."@;
    let mid = goal + "\n\nExecution Results:\n"@ + all;
    let p = "Original Goal: "@ + goal + "\n\nExecution Results:\n"@ + all
        + "\n\nPlease synthesize these results"@;
    assert(p =~= "Original Goal: "@ + mid + "\n\nPlease synthesize these results"@);
    assert(lead + goal + "\n\nExecution Results:\n"@ + all + tail =~= a + p + b);
    lemma_has_middle(a, p, b);
}

proof fn lemma_lead_end() -> (a: Seq<char>)
    ensures
        "Based on the following task execution results, provide a comprehensive answer to the user's original request.\n\nOriginal Goal: "@
            == a + "Original Goal: "@,
{
    reveal_strlit(
        "Based on the following task execution results, provide a comprehensive answer to the user's original request.\n\nOriginal Goal: ",
    );
    reveal_strlit("Original Goal: ");
    let lead = "Based on the following task execution results, provide a comprehensive answer to the user's original request.\n\nOriginal Goal: "@;
    let a = lead.take(lead.len() - 15);
    assert(lead =~= a + "Original Goal: "@);
    a
}

proof fn lemma_tail_start() -> (b: Seq<char>)
    ensures
        "\n\nPlease synthesize these results into a clear, coherent response."@
            == "\n\nPlease synthesize these results"@ + b,
{
    reveal_strlit("\n\nPlease synthesize these results into a clear, coherent response.");
    reveal_strlit("\n\nPlease synthesize these results");
    let tail = "\n\nPlease synthesize these results into a clear, coherent response."@;
    let b = tail.skip(33);
    assert(tail =~= "\n\nPlease synthesize these results"@ + b);
    b
}

} // verus!
