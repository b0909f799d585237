//! Plan mode: the subtasks of a plan are executed one after the other, each once
//! the subtasks that it depends on are completed.

use super::message::ChatMessage;
use super::planner::{has_id, SubTask, SubTaskStatus, TaskPlan};
use super::subtask::CANCELLED;
use super::trace::{law_plan_total_is_sum, PlanTrace, SubtaskTrace, TraceStatus};
use super::utils::{chunks_from, gen_chunks_with_formatting};
use crate::clock::{Elapsed, Timestamp, NANOS_PER_SEC};
use crate::error::ServerError;
use crate::ids::{is_uuid, new_uuid};
use crate::text::{decimal, decimal_text, join, join_text, texts};
use vstd::prelude::*;
use vstd::string::*;

verus! {

/// An error that another attempt at a subtask can help.
pub open spec fn is_retryable(e: ServerError) -> bool {
    ||| e is ToolCallRetryExhausted
    ||| e is MaxIterationsExceeded
    ||| e is SubtaskTimeout
    ||| e is McpOperation
    ||| e is McpEmptyContent
    ||| e is ReactTimeout
}

/// Whether another attempt at a subtask can help: after failures of tools and
/// after limits, but not after a cancelled request or a bad plan.
pub fn is_retryable_error(error: &ServerError) -> (r: bool)
    ensures
        r == is_retryable(*error),
{
    match error {
        ServerError::ToolCallRetryExhausted { .. } => true,
        ServerError::MaxIterationsExceeded(_) => true,
        ServerError::SubtaskTimeout { .. } => true,
        ServerError::McpOperation(_) => true,
        ServerError::McpEmptyContent => true,
        ServerError::ReactTimeout(_) => true,
        _ => false,
    }
}

// ---------------------------------------------------------------------------
// A plan in execution
// ---------------------------------------------------------------------------

/// A plan in execution.
#[derive(Debug, Clone)]
pub struct PlanRun {
    /// The plan.
    pub plan: TaskPlan,
    /// The record of the execution.
    pub trace: PlanTrace,
    /// Identifiers of the completed subtasks.
    pub completed: Vec<usize>,
    /// The results of the completed subtasks, with their identifiers.
    pub results: Vec<(usize, String)>,
    /// How many subtasks are still to be dealt with.
    pub pending: usize,
    /// How far the order of execution was followed.
    pub position: usize,
}

/// How things stand outside when the next subtask is due.
#[derive(Debug, Clone, Copy)]
pub struct Moment {
    /// The time for the plan is used up.
    pub exhausted: bool,
    /// Seconds since the plan began.
    pub elapsed_secs: u64,
    /// The client went away.
    pub cancelled: bool,
    /// The time that the next subtask is given, retries included.
    pub allotted: Elapsed,
    /// The present time.
    pub at: Timestamp,
}

/// What is due next.
#[derive(Debug)]
pub enum PlanStep {
    /// The results are to be put together: every subtask was dealt with.
    Finished,
    /// The request ends with an error.
    Abort(ServerError),
    /// The next subtask: this one cannot be executed.
    Passed,
    /// This subtask is to be executed.
    Run(SubtaskRun),
}

/// A subtask in execution.
#[derive(Debug, Clone)]
pub struct SubtaskRun {
    /// Position of the subtask in the plan.
    pub index: usize,
    /// The record of its execution.
    pub trace: SubtaskTrace,
    /// Attempts made before the present one.
    pub attempt: u32,
    /// The time for all attempts.
    pub budget: Elapsed,
    /// The time for one attempt.
    pub limit: Elapsed,
    /// What the last attempt failed with.
    pub last_error: Option<ServerError>,
}

/// Whether and how long an attempt may be made.
#[derive(Debug, Clone)]
pub enum AttemptStep {
    /// An attempt of at most this long is due.
    Execute(Elapsed),
    /// There is no time left.
    GiveUp,
}

fn copy_order(v: &Vec<usize>) -> (r: Vec<usize>)
    ensures
        r@ == v@,
{
    let mut r: Vec<usize> = Vec::new();
    let mut i: usize = 0;
    while i < v.len()
        invariant
            i <= v@.len(),
            r@ == v@.take(i as int),
        decreases v@.len() - i,
    {
        r.push(v[i]);
        i = i + 1;
    }
    assert(v@.take(v@.len() as int) =~= v@);
    r
}

/// The identifiers of the subtasks at the positions that `order` names, in order.
/// Positions without a subtask are left out.
pub open spec fn named_ids(order: Seq<usize>, subtasks: Seq<SubTask>) -> Seq<usize>
    decreases order.len(),
{
    if order.len() == 0 {
        Seq::empty()
    } else if order.last() < subtasks.len() {
        named_ids(order.drop_last(), subtasks).push(subtasks[order.last() as int].id)
    } else {
        named_ids(order.drop_last(), subtasks)
    }
}

proof fn lemma_named_len(order: Seq<usize>, subtasks: Seq<SubTask>)
    ensures
        named_ids(order, subtasks).len() <= order.len(),
    decreases order.len(),
{
    if order.len() > 0 {
        lemma_named_len(order.drop_last(), subtasks);
    }
}

proof fn lemma_named_same(order: Seq<usize>, a: Seq<SubTask>, b: Seq<SubTask>)
    requires
        a.len() == b.len(),
        forall|i: int| 0 <= i < a.len() ==> (#[trigger] a[i]).id == b[i].id,
    ensures
        named_ids(order, a) == named_ids(order, b),
    decreases order.len(),
{
    if order.len() > 0 {
        lemma_named_same(order.drop_last(), a, b);
        if order.last() < a.len() {
            assert(a[order.last() as int].id == b[order.last() as int].id);
        }
    }
}

/// The subtasks that there are records of.
pub open spec fn recorded_ids(traces: Seq<SubtaskTrace>) -> Seq<usize> {
    traces.map_values(|t: SubtaskTrace| t.subtask_id)
}

/// One of the results is that of the subtask `id`.
pub open spec fn has_result(results: Seq<(usize, String)>, id: usize) -> bool {
    exists|i: int| 0 <= i < results.len() && (#[trigger] results[i]).0 == id
}

/// `now` is `before` with the subtask at `i` in this state.
pub open spec fn with_subtask(before: TaskPlan, now: TaskPlan, i: int, s: SubTask) -> bool {
    &&& now.subtasks@ == before.subtasks@.update(i, s)
    &&& now == (TaskPlan { subtasks: now.subtasks, ..before })
}

impl PlanRun {
    /// The plan is followed within its order. There is a record of every subtask that
    /// was reached, in that order, but for the `open` ones. What is pending is the rest of
    /// the order. The completed subtasks are those that have a result. The tokens of the
    /// plan are those of its subtasks.
    pub open spec fn inv(self, open: Seq<usize>) -> bool {
        &&& self.position <= self.plan.execution_order@.len()
        &&& recorded_ids(self.trace.subtask_traces@) + open == named_ids(
            self.plan.execution_order@.take(self.position as int),
            self.plan.subtasks@,
        )
        &&& self.trace.subtask_traces@.len() + self.pending == self.plan.execution_order@.len()
        &&& self.trace.timed()
        &&& self.trace.counted()
        &&& forall|id: usize| #[trigger]
            self.completed@.contains(id) <==> has_result(self.results@, id)
    }

    /// The invariant while no subtask is being executed: every subtask that was
    /// reached has its record.
    pub open spec fn wf(self) -> bool {
        self.inv(Seq::empty())
    }

    /// A subtask is being executed: it is the one that has no record yet.
    pub open spec fn running(self, run: SubtaskRun) -> bool {
        &&& self.inv(seq![run.trace.subtask_id])
        &&& run.index < self.plan.subtasks@.len()
        &&& run.trace.timed()
        &&& run.trace.retry_count == run.attempt
        &&& run.trace.subtask_id == self.plan.subtasks@[run.index as int].id
        &&& run.budget.wf()
        &&& run.limit.wf()
    }

    /// The execution of a plan begins at `at`.
    pub fn new(request_id: &str, plan: TaskPlan, at: Timestamp) -> (r: PlanRun)
        requires
            at.nanos < NANOS_PER_SEC,
        ensures
            r.wf(),
            r.plan == plan,
            r.position == 0,
            r.pending == plan.execution_order@.len(),
            r.completed@ == Seq::<usize>::empty(),
            r.results@ == Seq::<(usize, String)>::empty(),
            r.trace.plan_id@ == request_id@,
            r.trace.original_goal@ == plan.original_goal@,
            r.trace.execution_order@ == plan.execution_order@,
            r.trace.subtask_count == plan.execution_order@.len(),
            r.trace.subtask_traces@ == Seq::<SubtaskTrace>::empty(),
            r.trace.start_time == Some(at),
            r.trace.end_time is None,
            r.trace.plan_status == TraceStatus::Success,
            r.trace.total_tokens == super::trace::TokenUsage::none(),
    {
        let mut trace = PlanTrace::new(
            request_id.to_owned(),
            plan.original_goal.clone(),
            copy_order(&plan.execution_order),
        );
        let ghost fresh = trace;
        trace.start_at(at);
        let pending: usize = plan.execution_order.len();
        proof {
            law_plan_total_is_sum(fresh, arbitrary(), fresh);
            assert(plan.execution_order@.take(0) =~= Seq::<usize>::empty());
            assert(recorded_ids(trace.subtask_traces@) + Seq::<usize>::empty() =~= Seq::<
                usize,
            >::empty());
        }
        PlanRun { plan, trace, completed: Vec::new(), results: Vec::new(), pending, position: 0 }
    }

    /// What `next` leaves alone, whatever is due.
    pub open spec fn keeps_results(self, after: PlanRun) -> bool {
        after.completed@ == self.completed@ && after.results@ == self.results@
    }

    /// What is due next. The time for the plan is looked at first, then whether
    /// the client went away. A position without a subtask is passed over; a
    /// subtask whose dependencies are not all completed is skipped; any other is
    /// to be executed.
    pub fn next(&mut self, moment: Moment, timeout_secs: u64) -> (r: PlanStep)
        requires
            old(self).wf(),
            moment.allotted.wf(),
            moment.at.nanos < NANOS_PER_SEC,
        ensures
            !(r is Run) ==> final(self).wf(),
            old(self).keeps_results(*final(self)),
            if old(self).position == old(self).plan.execution_order@.len() {
                r is Finished && *final(self) == *old(self)
            } else {
                let i = old(self).plan.execution_order@[old(self).position as int] as int;
                if moment.exhausted {
                    &&& final(self).position == old(self).position
                    &&& r == PlanStep::Abort(
                        ServerError::TimeBudgetExhausted { elapsed_secs: moment.elapsed_secs },
                    )
                    &&& final(self).trace == old(self).trace.finalized(
                        TraceStatus::Timeout,
                        moment.at,
                    )
                    &&& final(self).plan == old(self).plan
                    &&& final(self).pending == old(self).pending
                } else if moment.cancelled {
                    &&& final(self).position == old(self).position
                    &&& r matches PlanStep::Abort(e) && e.is_operation(CANCELLED@)
                    &&& final(self).trace.plan_status matches TraceStatus::Error(m) && m@
                        == CANCELLED@ && final(self).trace == old(self).trace.finalized(
                        TraceStatus::Error(m),
                        moment.at,
                    )
                    &&& final(self).plan == old(self).plan
                    &&& final(self).pending == old(self).pending
                } else if i >= old(self).plan.subtasks@.len() {
                    &&& r is Passed
                    &&& final(self).position == old(self).position + 1
                    &&& final(self).plan == old(self).plan
                    &&& final(self).trace == old(self).trace
                    &&& final(self).pending == old(self).pending
                } else {
                    let subtask = old(self).plan.subtasks@[i];
                    &&& final(self).position == old(self).position + 1
                    &&& if subtask.ready(old(self).completed@) {
                        &&& with_subtask(
                            old(self).plan,
                            final(self).plan,
                            i,
                            SubTask { status: SubTaskStatus::InProgress, ..subtask },
                        )
                        &&& final(self).trace == old(self).trace
                        &&& final(self).pending == old(self).pending
                        &&& r matches PlanStep::Run(run) && run.index == i && run.attempt == 0
                            && run.last_error is None && run.budget == moment.allotted
                            && run.limit == shorter(moment.allotted, timeout_secs)
                            && begun_trace(subtask, moment.at, run.trace) && final(self).running(
                            run,
                        )
                    } else {
                        &&& r is Passed
                        &&& with_subtask(
                            old(self).plan,
                            final(self).plan,
                            i,
                            SubTask { status: SubTaskStatus::Skipped, ..subtask },
                        )
                        &&& old(self).trace.is_added(
                            final(self).trace.subtask_traces@.last(),
                            final(self).trace,
                        )
                        &&& skipped_trace(subtask, final(self).trace.subtask_traces@.last())
                        &&& final(self).pending == old(self).pending - 1
                    }
                }
            },
    {
        if self.position >= self.plan.execution_order.len() {
            return PlanStep::Finished;
        }
        let i: usize = self.plan.execution_order[self.position];
        if moment.exhausted {
            self.trace.finalize_at(TraceStatus::Timeout, moment.at);
            return PlanStep::Abort(
                ServerError::TimeBudgetExhausted { elapsed_secs: moment.elapsed_secs },
            );
        }
        if moment.cancelled {
            self.trace.finalize_at(TraceStatus::Error(CANCELLED.to_owned()), moment.at);
            return PlanStep::Abort(ServerError::operation(CANCELLED));
        }
        proof {
            let order = self.plan.execution_order@;
            assert(order.take(self.position + 1).drop_last() =~= order.take(self.position as int));
            lemma_named_len(order.take(self.position + 1), self.plan.subtasks@);
            assert(recorded_ids(self.trace.subtask_traces@) + Seq::<usize>::empty()
                =~= recorded_ids(self.trace.subtask_traces@));
        }
        let ghost taken = self.plan.execution_order@.take(self.position + 1);
        let ghost subtasks = self.plan.subtasks@;
        self.position = self.position + 1;
        if i >= self.plan.subtasks.len() {
            return PlanStep::Passed;
        }
        let mut trace = SubtaskTrace::new(
            self.plan.subtasks[i].id,
            self.plan.subtasks[i].description.clone(),
        );
        if !self.plan.subtasks[i].is_ready(&self.completed) {
            self.plan.subtasks[i].skip();
            trace.status = SubTaskStatus::Skipped;
            proof {
                lemma_no_tokens(trace);
            }
            let ghost before = self.trace;
            self.trace.add_subtask_trace(trace);
            self.pending = self.pending - 1;
            proof {
                law_plan_total_is_sum(before, trace, self.trace);
                lemma_named_same(taken, subtasks, self.plan.subtasks@);
                assert(recorded_ids(self.trace.subtask_traces@) + Seq::<usize>::empty()
                    =~= recorded_ids(before.subtask_traces@).push(trace.subtask_id));
            }
            return PlanStep::Passed;
        }
        self.plan.subtasks[i].start();
        trace.start_at(moment.at);
        proof {
            lemma_named_same(taken, subtasks, self.plan.subtasks@);
            assert(recorded_ids(self.trace.subtask_traces@) + seq![trace.subtask_id]
                =~= recorded_ids(self.trace.subtask_traces@).push(trace.subtask_id));
        }
        PlanStep::Run(
            SubtaskRun {
                index: i,
                trace,
                attempt: 0,
                budget: moment.allotted,
                limit: moment.allotted.min(Elapsed::from_secs(timeout_secs)),
                last_error: None,
            },
        )
    }

    /// Takes the result of a completed subtask.
    fn complete(&mut self, index: usize, result: String, Ghost(open): Ghost<Seq<usize>>)
        requires
            old(self).inv(open),
            index < old(self).plan.subtasks@.len(),
        ensures
            final(self).inv(open),
            with_subtask(
                old(self).plan,
                final(self).plan,
                index as int,
                SubTask {
                    status: SubTaskStatus::Completed,
                    result: Some(result),
                    ..old(self).plan.subtasks@[index as int]
                },
            ),
            added_id(
                old(self).completed@,
                old(self).plan.subtasks@[index as int].id,
                final(self).completed@,
            ),
            final(self).results@ == old(self).results@.push(
                (old(self).plan.subtasks@[index as int].id, result),
            ),
            final(self).trace == old(self).trace,
            final(self).pending == old(self).pending,
            final(self).position == old(self).position,
    {
        let id: usize = self.plan.subtasks[index].id;
        self.plan.subtasks[index].complete(result.clone());
        let ghost before = self.completed@;
        if !has_id(&self.completed, id) {
            self.completed.push(id);
            assert(self.completed@[before.len() as int] == id);
            assert forall|x: usize| before.contains(x) implies self.completed@.contains(x) by {
                let k = choose|k: int| 0 <= k < before.len() && before[k] == x;
                assert(self.completed@[k] == x);
            }
        }
        let ghost results = self.results@;
        self.results.push((id, result));
        proof {
            lemma_named_same(
                self.plan.execution_order@.take(self.position as int),
                old(self).plan.subtasks@,
                self.plan.subtasks@,
            );
            assert(self.results@[results.len() as int].0 == id);
            assert forall|x: usize| #[trigger] self.completed@.contains(x) <==> has_result(
                self.results@,
                x,
            ) by {
                if self.completed@.contains(x) && x != id {
                    assert(before.contains(x));
                    assert(has_result(results, x));
                    let k = choose|k: int| 0 <= k < results.len() && (#[trigger] results[k]).0 == x;
                    assert(self.results@[k].0 == x);
                }
                if has_result(self.results@, x) && x != id {
                    let k = choose|k: int|
                        0 <= k < self.results@.len() && (#[trigger] self.results@[k]).0 == x;
                    assert(results[k].0 == x);
                    assert(has_result(results, x));
                    assert(before.contains(x));
                }
            }
        }
    }

    /// Ends the execution of a subtask at `at`. A subtask that failed is marked as
    /// failed, in words that tell whether all its retries were used up; the plan
    /// goes on either way.
    pub fn finish_subtask(&mut self, run: SubtaskRun, max_retries: u32, at: Timestamp)
        requires
            old(self).running(run),
            old(self).trace.can_add(run.trace),
            run.attempt <= max_retries < u32::MAX,
            at.nanos < NANOS_PER_SEC,
        ensures
            final(self).wf(),
            old(self).keeps_results(*final(self)),
            final(self).position == old(self).position,
            final(self).pending == old(self).pending - 1,
            old(self).trace.is_added(
                final(self).trace.subtask_traces@.last(),
                final(self).trace,
            ),
            match run.last_error {
                None => {
                    &&& final(self).plan == old(self).plan
                    &&& final(self).trace.subtask_traces@.last() == run.trace
                },
                Some(e) => {
                    let id = old(self).plan.subtasks@[run.index as int].id;
                    let last = final(self).trace.subtask_traces@.last();
                    &&& last.status matches SubTaskStatus::Failed(m) && m@ == failure_words(
                        e,
                        id,
                        run.trace.retry_count,
                        max_retries,
                    ) && last == run.trace.failed(m, at) && with_subtask(
                        old(self).plan,
                        final(self).plan,
                        run.index as int,
                        SubTask {
                            status: SubTaskStatus::Failed(m),
                            ..old(self).plan.subtasks@[run.index as int]
                        },
                    )
                },
            },
    {
        let mut trace = run.trace;
        if let Some(e) = run.last_error {
            let words = if trace.retry_count >= max_retries && max_retries > 0 {
                let exhausted = ServerError::SubtaskRetryExhausted {
                    subtask_id: self.plan.subtasks[run.index].id,
                    attempts: trace.retry_count + 1,
                    message: e.message(),
                };
                exhausted.message()
            } else {
                e.message()
            };
            self.plan.subtasks[run.index].fail(words.clone());
            trace.fail_at(words, at);
        }
        let ghost before = self.trace;
        let ghost order = self.plan.execution_order@.take(self.position as int);
        proof {
            lemma_named_len(order, self.plan.subtasks@);
            lemma_named_same(order, old(self).plan.subtasks@, self.plan.subtasks@);
        }
        self.trace.add_subtask_trace(trace);
        proof {
            law_plan_total_is_sum(before, trace, self.trace);
            assert(recorded_ids(self.trace.subtask_traces@) + Seq::<usize>::empty() =~= recorded_ids(
                before.subtask_traces@,
            ) + seq![trace.subtask_id]);
        }
        self.pending = self.pending - 1;
    }

    /// Ends the execution of the plan at `at`, once its results were put together.
    pub fn finish(&mut self, at: Timestamp)
        requires
            old(self).wf(),
            at.nanos < NANOS_PER_SEC,
        ensures
            final(self).wf(),
            *final(self) == (PlanRun {
                trace: old(self).trace.finalized(TraceStatus::Success, at),
                ..*old(self)
            }),
    {
        self.trace.finalize_at(TraceStatus::Success, at);
    }
}

/// The shorter of a stretch of time and a number of seconds.
pub open spec fn shorter(d: Elapsed, secs: u64) -> Elapsed {
    if (Elapsed { secs, nanos: 0 }).total() < d.total() {
        Elapsed { secs, nanos: 0 }
    } else {
        d
    }
}

/// `after` is the set `before` with `id` in it, listed without repetition.
pub open spec fn added_id(before: Seq<usize>, id: usize, after: Seq<usize>) -> bool {
    after == if before.contains(id) {
        before
    } else {
        before.push(id)
    }
}

/// `t` is the record of a subtask whose execution began at `at`.
pub open spec fn begun_trace(subtask: SubTask, at: Timestamp, t: SubtaskTrace) -> bool {
    exists|f: SubtaskTrace| #[trigger]
        f.is_fresh(subtask.id) && f.description == subtask.description && t == f.started(at)
}

/// `t` is the record of a subtask that was skipped.
pub open spec fn skipped_trace(subtask: SubTask, t: SubtaskTrace) -> bool {
    exists|f: SubtaskTrace| #[trigger]
        f.is_fresh(subtask.id) && f.description == subtask.description && t == (SubtaskTrace {
            status: SubTaskStatus::Skipped,
            ..f
        })
}

/// `after` is the execution `before` once the subtask at `i` was completed with this result.
pub open spec fn takes_result(before: PlanRun, i: int, text: String, after: PlanRun) -> bool {
    let subtask = before.plan.subtasks@[i];
    &&& with_subtask(
        before.plan,
        after.plan,
        i,
        SubTask { status: SubTaskStatus::Completed, result: Some(text), ..subtask },
    )
    &&& added_id(before.completed@, subtask.id, after.completed@)
    &&& after.results@ == before.results@.push((subtask.id, text))
}

/// How the failure of a subtask is told: with all retries used up, together with
/// their number; otherwise as the error itself.
pub open spec fn failure_words(e: ServerError, id: usize, retries: u32, max_retries: u32) -> Seq<char> {
    if retries >= max_retries && max_retries > 0 {
        "Subtask "@ + decimal(id as nat) + " failed after "@ + decimal((retries + 1) as nat)
            + " attempts: "@ + e.words()
    } else {
        e.words()
    }
}

proof fn lemma_no_tokens(t: SubtaskTrace)
    requires
        t.react_iterations@.len() == 0,
        t.retry_history@.len() == 0,
    ensures
        t.all_prompt_tokens() == 0,
        t.all_completion_tokens() == 0,
{
    assert(super::trace::prompts(t.react_iterations@).len() == 0);
    assert(super::trace::completions(t.react_iterations@).len() == 0);
    assert(super::trace::retry_prompts(t.retry_history@).len() == 0);
    assert(super::trace::retry_completions(t.retry_history@).len() == 0);
}

// ---------------------------------------------------------------------------
// A subtask in execution
// ---------------------------------------------------------------------------

impl SubtaskRun {
    /// Whether another attempt may be made when `elapsed` has passed since the
    /// first, and how long it may take: what is left of the time for all attempts,
    /// and no longer than one attempt may take.
    pub fn begin_attempt(&mut self, elapsed: Elapsed) -> (r: AttemptStep)
        requires
            old(self).budget.wf(),
            old(self).limit.wf(),
            elapsed.wf(),
        ensures
            if elapsed.total() >= old(self).budget.total() {
                &&& r is GiveUp
                &&& *final(self) == (SubtaskRun {
                    last_error: Some(
                        ServerError::SubtaskTimeout {
                            subtask_id: old(self).trace.subtask_id,
                            timeout_secs: old(self).budget.secs,
                        },
                    ),
                    ..*old(self)
                })
            } else {
                let left = old(self).budget.total() - elapsed.total();
                &&& *final(self) == *old(self)
                &&& r matches AttemptStep::Execute(t) && t.wf() && t.total() == if left
                    < old(self).limit.total() {
                    left
                } else {
                    old(self).limit.total()
                }
            },
    {
        if !elapsed.is_less(&self.budget) {
            self.last_error = Some(
                ServerError::SubtaskTimeout {
                    subtask_id: self.trace.subtask_id,
                    timeout_secs: self.budget.secs,
                },
            );
            return AttemptStep::GiveUp;
        }
        let left = self.budget.saturating_sub(elapsed);
        AttemptStep::Execute(left.min(self.limit))
    }

    /// Takes the outcome of an attempt that ended at `at`, and says whether another
    /// one follows. A result completes the subtask. An error that another attempt
    /// can help is followed by one, as long as there are retries left; any other
    /// ends the execution.
    pub fn end_attempt(
        &mut self,
        plan: &mut PlanRun,
        outcome: Result<String, ServerError>,
        max_retries: u32,
        at: Timestamp,
    ) -> (r: bool)
        requires
            old(plan).running(*old(self)),
            old(self).attempt <= max_retries < u32::MAX,
            at.nanos < NANOS_PER_SEC,
        ensures
            final(plan).running(*final(self)),
            final(self).attempt <= max_retries,
            final(self).index == old(self).index,
            final(self).budget == old(self).budget,
            final(self).limit == old(self).limit,
            match outcome {
                Ok(text) => {
                    let subtask = old(plan).plan.subtasks@[old(self).index as int];
                    &&& !r
                    &&& final(self).trace == old(self).trace.completed(text, at)
                    &&& final(self).attempt == old(self).attempt
                    &&& final(self).last_error is None
                    &&& with_subtask(
                        old(plan).plan,
                        final(plan).plan,
                        old(self).index as int,
                        SubTask {
                            status: SubTaskStatus::Completed,
                            result: Some(text),
                            ..subtask
                        },
                    )
                    &&& added_id(old(plan).completed@, subtask.id, final(plan).completed@)
                    &&& final(plan).results@ == old(plan).results@.push((subtask.id, text))
                    &&& final(plan).trace == old(plan).trace
                    &&& final(plan).pending == old(plan).pending
                    &&& final(plan).position == old(plan).position
                },
                Err(e) => {
                    &&& *final(plan) == *old(plan)
                    &&& final(self).last_error == Some(e)
                    &&& r == (is_retryable(e) && old(self).attempt < max_retries)
                    &&& if r {
                        &&& final(self).attempt == old(self).attempt + 1
                        &&& final(self).trace.retry_history@.last().error@ == e.words()
                        &&& old(self).trace.is_retried(
                            final(self).trace.retry_history@.last().error,
                            at,
                            final(self).trace,
                        )
                    } else {
                        final(self).attempt == old(self).attempt && final(self).trace == old(
                            self,
                        ).trace
                    }
                },
            },
            outcome matches Ok(text) ==> takes_result(
                *old(plan),
                old(self).index as int,
                text,
                *final(plan),
            ),
    {
        match outcome {
            Ok(text) => {
                let ghost open = seq![self.trace.subtask_id];
                plan.complete(self.index, text.clone(), Ghost(open));
                self.trace.complete_at(text, at);
                self.last_error = None;
                false
            },
            Err(e) => {
                if is_retryable_error(&e) && self.attempt < max_retries {
                    self.trace.record_retry_at(e.message(), at);
                    self.last_error = Some(e);
                    self.attempt = self.attempt + 1;
                    true
                } else {
                    self.last_error = Some(e);
                    false
                }
            },
        }
    }
}

// ---------------------------------------------------------------------------
// The final answer
// ---------------------------------------------------------------------------

/// What the subtask `id` is about: the first one in the plan that has the identifier.
pub open spec fn description_of(subtasks: Seq<SubTask>, id: usize) -> Seq<char>
    decreases subtasks.len(),
{
    if subtasks.len() == 0 {
        "Unknown task"@
    } else if subtasks[0].id == id {
        subtasks[0].description@
    } else {
        description_of(subtasks.drop_first(), id)
    }
}

/// A result, as it is told to the model.
pub open spec fn result_told(subtasks: Seq<SubTask>, r: (usize, String)) -> Seq<char> {
    "- Task "@ + decimal(r.0 as nat) + ": "@ + description_of(subtasks, r.0) + "\n  Result: "@ + r.1@
}

/// The results, as they are told to the model.
pub open spec fn all_results_told(subtasks: Seq<SubTask>, results: Seq<(usize, String)>) -> Seq<
    Seq<char>,
> {
    results.map_values(|r: (usize, String)| result_told(subtasks, r))
}

/// The request to put the results together.
pub open spec fn final_prompt(plan: TaskPlan, results: Seq<(usize, String)>) -> Seq<char> {
    "Based on the following task execution results, provide a comprehensive answer to the user's original request.\n\nOriginal Goal: "@
        + plan.original_goal@ + "\n\nExecution Results:\n"@ + join_text(
        all_results_told(plan.subtasks@, results),
        "\n\n"@,
    ) + "\n\nPlease synthesize these results into a clear, coherent response."@
}

fn find_description(subtasks: &Vec<SubTask>, id: usize) -> (r: String)
    ensures
        r@ == description_of(subtasks@, id),
{
    let mut i: usize = 0;
    assert(subtasks@.skip(0) =~= subtasks@);
    while i < subtasks.len()
        invariant
            i <= subtasks@.len(),
            description_of(subtasks@, id) == description_of(subtasks@.skip(i as int), id),
        decreases subtasks@.len() - i,
    {
        assert(subtasks@.skip(i as int).drop_first() =~= subtasks@.skip(i + 1));
        if subtasks[i].id == id {
            return subtasks[i].description.clone();
        }
        i = i + 1;
    }
    "Unknown task".to_owned()
}

/// The message that asks the model to put the results together.
pub fn final_response_messages(plan: &TaskPlan, results: &Vec<(usize, String)>) -> (r: Vec<ChatMessage>)
    ensures
        r@.len() == 1,
        r@[0].is_user_text(final_prompt(*plan, results@)),
{
    let mut parts: Vec<String> = Vec::new();
    let mut i: usize = 0;
    while i < results.len()
        invariant
            i <= results@.len(),
            parts@.len() == i,
            forall|j: int|
                0 <= j < i ==> (#[trigger] parts@[j])@ == result_told(plan.subtasks@, results@[j]),
        decreases results@.len() - i,
    {
        let mut part = "- Task ".to_owned();
        part.append(decimal_text(results[i].0 as u64).as_str());
        part.append(": ");
        part.append(find_description(&plan.subtasks, results[i].0).as_str());
        part.append("\n  Result: ");
        part.append(results[i].1.as_str());
        parts.push(part);
        i = i + 1;
    }
    assert(texts(parts@) =~= all_results_told(plan.subtasks@, results@));
    let mut prompt =
        "Based on the following task execution results, provide a comprehensive answer to the user's original request.\n\nOriginal Goal: ".to_owned();
    prompt.append(plan.original_goal.as_str());
    prompt.append("\n\nExecution Results:\n");
    prompt.append(join(&parts, "\n\n").as_str());
    prompt.append("\n\nPlease synthesize these results into a clear, coherent response.");
    let mut r: Vec<ChatMessage> = Vec::new();
    r.push(ChatMessage::user(prompt));
    r
}

/// A piece of an answer that is sent bit by bit.
#[derive(Debug, Clone)]
pub struct AnswerChunk {
    /// Position of the piece.
    pub index: usize,
    /// The piece.
    pub content: String,
    /// Whether it is the last one, which tells the end and the tokens.
    pub last: bool,
}

/// `r` are the pieces `s`, numbered, the last one marked.
pub open spec fn are_answer_chunks(s: Seq<Seq<char>>, r: Seq<AnswerChunk>) -> bool {
    &&& r.len() == s.len()
    &&& forall|i: int|
        0 <= i < s.len() ==> (#[trigger] r[i]).index == i && r[i].content@ == s[i] && r[i].last == (i
            == s.len() - 1)
}

/// The pieces, numbered, the last one marked.
pub fn number_chunks(pieces: Vec<String>) -> (r: Vec<AnswerChunk>)
    ensures
        are_answer_chunks(texts(pieces@), r@),
{
    let n: usize = pieces.len();
    let mut r: Vec<AnswerChunk> = Vec::new();
    let mut i: usize = 0;
    while i < n
        invariant
            n == pieces@.len(),
            i <= n,
            r@.len() == i,
            forall|j: int|
                0 <= j < i ==> (#[trigger] r@[j]).index == j && r@[j].content@ == pieces@[j]@
                    && r@[j].last == (j == n - 1),
        decreases n - i,
    {
        r.push(AnswerChunk { index: i, content: pieces[i].clone(), last: i == n - 1 });
        i = i + 1;
    }
    r
}

/// The pieces in which the final answer of a plan is sent, of about ten characters.
pub fn answer_chunks(final_content: &str) -> (r: Vec<AnswerChunk>)
    ensures
        are_answer_chunks(chunks_from(final_content@, 0, 10), r@),
{
    number_chunks(gen_chunks_with_formatting(final_content, 10))
}

/// An event of a stream, with this data.
pub fn sse_event(data: &str) -> (r: String)
    ensures
        r@ == "data: "@ + data@ + "\n\n"@,
{
    let mut r = "data: ".to_owned();
    r.append(data);
    r.append("\n\n");
    r
}

/// The identifier of an answer.
pub fn gen_chat_id() -> (r: String)
    ensures
        exists|id: Seq<char>| is_uuid(id) && r@ == "chatcmpl-"@ + id,
{
    let id = new_uuid();
    let mut r = "chatcmpl-".to_owned();
    r.append(id.as_str());
    r
}

// ---------------------------------------------------------------------------
// Laws
// ---------------------------------------------------------------------------

/// A failed subtask does not end the plan, but what depends on it is not
/// executed: as long as its identifier is not among the completed ones, no
/// subtask that depends on it is ready.
pub proof fn law_dependents_wait(subtask: SubTask, dependency: usize, completed: Seq<usize>)
    requires
        subtask.dependencies@.contains(dependency),
        !completed.contains(dependency),
    ensures
        !subtask.ready(completed),
{
    let i = choose|i: int|
        0 <= i < subtask.dependencies@.len() && subtask.dependencies@[i] == dependency;
    assert(subtask.dependencies@[i] == dependency);
}

/// Readiness is never lost: what is ready stays so when more is completed.
pub proof fn law_ready_stays(subtask: SubTask, before: Seq<usize>, id: usize, after: Seq<usize>)
    requires
        subtask.ready(before),
        added_id(before, id, after),
    ensures
        subtask.ready(after),
        after.contains(id),
{
    if !before.contains(id) {
        assert(after[before.len() as int] == id);
    }
    assert forall|i: int| 0 <= i < subtask.dependencies@.len() implies after.contains(
        #[trigger] subtask.dependencies@[i],
    ) by {
        let x = subtask.dependencies@[i];
        assert(before.contains(x));
        let k = choose|k: int| 0 <= k < before.len() && before[k] == x;
        assert(after[k] == x);
    }
}

/// When the order was followed to its end, every subtask that it names has a record, in
/// that order, whether it was completed, failed or skipped, and nothing else has one.
pub proof fn law_every_subtask_recorded(run: PlanRun)
    requires
        run.wf(),
        run.position == run.plan.execution_order@.len(),
    ensures
        recorded_ids(run.trace.subtask_traces@) == named_ids(
            run.plan.execution_order@,
            run.plan.subtasks@,
        ),
{
    assert(run.plan.execution_order@.take(run.position as int) =~= run.plan.execution_order@);
    assert(recorded_ids(run.trace.subtask_traces@) + Seq::<usize>::empty() =~= recorded_ids(
        run.trace.subtask_traces@,
    ));
}

/// The completed subtasks are those that have a result, at every step of a plan, and the
/// tokens of the plan are those of its subtasks, of all their attempts.
pub proof fn law_completed_have_results(run: PlanRun, id: usize)
    requires
        run.wf(),
    ensures
        run.completed@.contains(id) <==> has_result(run.results@, id),
        run.trace.counted(),
{
}

} // verus!
