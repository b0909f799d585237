//! What holds of the execution of a subtask, from what goes in to what the model gets.

use super::message::{ChatMessage, ToolContent, ToolReply, UserContent};
use super::planner::{SubTask, ToolDescription};
use super::subtask::{
    action_in, answer_by, answer_in, are_first_messages, described, descriptions, first_text,
    is_failed_call, is_good_call, is_new_iteration, is_tool_step, recorded, result_of, results_told,
    retryable_failure, task_prompt, thought_in, tool_and_server, tool_json, tool_line, tool_lines,
    tools_json, ToolCallRun, ToolStep, TASK_PROMPT_HEAD, TASK_PROMPT_TAIL, TASK_PROMPT_TOOLS,
    TOOL_JSON_TAIL,
};
use super::trace::{IterationTrace, ToolCallTrace};
use super::xml_parser::{sanitized, trimmed_element};
use crate::clock::Elapsed;
use crate::json::json_string;
use crate::mcp::{is_search_server_name, lemma_first_piece, separable, McpService, MCP_SEPARATOR};
use crate::text::{
    decimal, has_text, join_text, lemma_has_end, lemma_has_middle, lemma_has_part, lemma_has_within,
    lemma_join_injective, lemma_join_len_less, lemma_join_two, lowered, lemma_part_has, lemma_split_none,
    lemma_split_pieces, occurs_at, split_text,
};
use super::chat_laws::law_tool_text_reaches_the_model;
use crate::error::ServerError;
use vstd::prelude::*;
use vstd::string::*;

verus! {

/// The pair at `k` is the first one of its subtask.
pub open spec fn is_first_of(results: Seq<(usize, String)>, k: int) -> bool {
    &&& 0 <= k < results.len()
    &&& forall|j: int| 0 <= j < k ==> (#[trigger] results[j]).0 != results[k].0
}

/// What a result says of the subtask that it is of.
pub open spec fn result_line(id: usize, text: Seq<char>) -> Seq<char> {
    "Result from subtask "@ + decimal(id as nat) + ": "@ + text
}

proof fn lemma_result_of(results: Seq<(usize, String)>, k: int)
    requires
        is_first_of(results, k),
    ensures
        result_of(results, results[k].0) == Some(results[k].1@),
    decreases k,
{
    if k > 0 {
        assert(results[0].0 != results[k].0);
        let rest = results.drop_first();
        assert forall|j: int| 0 <= j < k - 1 implies (#[trigger] rest[j]).0 != rest[k - 1].0 by {
            assert(results[j + 1].0 != results[k].0);
        }
        lemma_result_of(rest, k - 1);
    }
}

proof fn lemma_no_result(results: Seq<(usize, String)>, id: usize)
    requires
        forall|j: int| 0 <= j < results.len() ==> (#[trigger] results[j]).0 != id,
    ensures
        result_of(results, id) is None,
    decreases results.len(),
{
    if results.len() > 0 {
        assert(results[0].0 != id);
        assert forall|j: int| 0 <= j < results.drop_first().len() implies (
        #[trigger] results.drop_first()[j]).0 != id by {
            assert(results[j + 1].0 != id);
        }
        lemma_no_result(results.drop_first(), id);
    }
}

proof fn lemma_told_at(ids: Seq<usize>, results: Seq<(usize, String)>, i: int, t: Seq<char>) -> (at:
    int)
    requires
        0 <= i < ids.len(),
        result_of(results, ids[i]) == Some(t),
    ensures
        0 <= at < results_told(ids, results).len(),
        results_told(ids, results)[at] == result_line(ids[i], t),
    decreases ids.len(),
{
    let before = results_told(ids.drop_last(), results);
    if i == ids.len() - 1 {
        before.len() as int
    } else {
        let at = lemma_told_at(ids.drop_last(), results, i, t);
        assert(results_told(ids, results)[at] == before[at]);
        at
    }
}

/// The result of every subtask that a subtask depends on reaches the model: where there is
/// one, the first of it stands in the message behind the system prompt, with the number of
/// the subtask that it is of.
pub proof fn law_dependency_results_told(
    subtask: SubTask,
    results: Seq<(usize, String)>,
    tools: Seq<ToolDescription>,
    m: Seq<ChatMessage>,
    k: int,
)
    requires
        are_first_messages(subtask, results, tools, m),
        is_first_of(results, k),
        subtask.dependencies@.contains(results[k].0),
    ensures
        m.len() == 3,
        m[1] matches ChatMessage::User { content: UserContent::Text(t), name: None } && has_text(
            t@,
            "Result from subtask "@ + decimal(results[k].0 as nat) + ": "@ + results[k].1@,
        ),
{
    let ids = subtask.dependencies@;
    let i = choose|i: int| 0 <= i < ids.len() && ids[i] == results[k].0;
    lemma_result_of(results, k);
    let at = lemma_told_at(ids, results, i, results[k].1@);
    let told = results_told(ids, results);
    let line = result_line(ids[i], results[k].1@);
    lemma_has_part(told, "\n\n"@, at);
    let head = "Here are the results from previous subtasks that this "@ + "task depends on:\n\n"@;
    let all = join_text(told, "\n\n"@);
    lemma_has_within(head, all, Seq::empty(), line);
    assert(head + all + Seq::<char>::empty() =~= head + all);
}

/// Where no subtask that a subtask depends on has a result, there is no such message.
pub proof fn law_nothing_told_without_results(
    subtask: SubTask,
    results: Seq<(usize, String)>,
    tools: Seq<ToolDescription>,
    m: Seq<ChatMessage>,
)
    requires
        are_first_messages(subtask, results, tools, m),
        forall|i: int, j: int|
            0 <= i < subtask.dependencies@.len() && 0 <= j < results.len() ==> (
            #[trigger] results[j]).0 != #[trigger] subtask.dependencies@[i],
    ensures
        m.len() == 2,
{
    lemma_told_none(subtask.dependencies@, results);
}

proof fn lemma_told_none(ids: Seq<usize>, results: Seq<(usize, String)>)
    requires
        forall|i: int, j: int|
            0 <= i < ids.len() && 0 <= j < results.len() ==> (#[trigger] results[j]).0
                != #[trigger] ids[i],
    ensures
        results_told(ids, results).len() == 0,
    decreases ids.len(),
{
    if ids.len() > 0 {
        let last = ids[ids.len() - 1];
        assert forall|j: int| 0 <= j < results.len() implies (#[trigger] results[j]).0 != last by {}
        lemma_no_result(results, last);
        assert forall|i: int, j: int|
            0 <= i < ids.drop_last().len() && 0 <= j < results.len() implies (
        #[trigger] results[j]).0 != #[trigger] ids.drop_last()[i] by {
            assert(ids.drop_last()[i] == ids[i]);
        }
        lemma_told_none(ids.drop_last(), results);
    }
}

proof fn lemma_update_elsewhere(
    r1: Seq<(usize, String)>,
    k: int,
    x: (usize, String),
    e: usize,
)
    requires
        0 <= k < r1.len(),
        r1[k].0 == x.0,
        e != x.0,
    ensures
        result_of(r1.update(k, x), e) == result_of(r1, e),
    decreases r1.len(),
{
    let r2 = r1.update(k, x);
    if k == 0 {
        assert(r2.drop_first() =~= r1.drop_first());
    } else {
        assert(r2.drop_first() =~= r1.drop_first().update(k - 1, x));
        if r1[0].0 != e {
            lemma_update_elsewhere(r1.drop_first(), k - 1, x, e);
        }
    }
}

proof fn lemma_told_parts(
    ids: Seq<usize>,
    r1: Seq<(usize, String)>,
    r2: Seq<(usize, String)>,
    d: usize,
    a: Seq<char>,
    b: Seq<char>,
)
    requires
        result_of(r1, d) == Some(a),
        result_of(r2, d) == Some(b),
        forall|e: usize| e != d ==> result_of(r1, e) == #[trigger] result_of(r2, e),
    ensures
        results_told(ids, r1).len() == results_told(ids, r2).len(),
        forall|i: int|
            0 <= i < results_told(ids, r1).len() ==> ((#[trigger] results_told(ids, r1)[i])
                == results_told(ids, r2)[i] || (results_told(ids, r1)[i] == result_line(d, a)
                && results_told(ids, r2)[i] == result_line(d, b))),
    decreases ids.len(),
{
    if ids.len() > 0 {
        lemma_told_parts(ids.drop_last(), r1, r2, d, a, b);
        let x = results_told(ids.drop_last(), r1);
        let y = results_told(ids.drop_last(), r2);
        assert(result_of(r1, ids.last()) == result_of(r2, ids.last()) || ids.last() == d);
        assert forall|i: int| 0 <= i < results_told(ids, r1).len() implies ((
        #[trigger] results_told(ids, r1)[i]) == results_told(ids, r2)[i] || (results_told(ids, r1)[i]
            == result_line(d, a) && results_told(ids, r2)[i] == result_line(d, b))) by {
            if i < x.len() {
                assert(results_told(ids, r1)[i] == x[i] && results_told(ids, r2)[i] == y[i]);
            }
        }
    }
}

/// What a dependency gave makes a difference: with another result of a subtask that the
/// subtask depends on, and all else the same, the model gets another message.
pub proof fn law_results_make_a_difference(
    subtask: SubTask,
    results: Seq<(usize, String)>,
    k: int,
    other: String,
    tools: Seq<ToolDescription>,
    m1: Seq<ChatMessage>,
    m2: Seq<ChatMessage>,
)
    requires
        is_first_of(results, k),
        subtask.dependencies@.contains(results[k].0),
        results[k].1@ != other@,
        are_first_messages(subtask, results, tools, m1),
        are_first_messages(subtask, results.update(k, (results[k].0, other)), tools, m2),
    ensures
        m1[1] != m2[1],
{
    let ids = subtask.dependencies@;
    let d = results[k].0;
    let r2 = results.update(k, (d, other));
    let a = results[k].1@;
    let b = other@;
    lemma_result_of(results, k);
    assert forall|j: int| 0 <= j < k implies (#[trigger] r2[j]).0 != r2[k].0 by {
        assert(results[j].0 != results[k].0);
    }
    lemma_result_of(r2, k);
    assert forall|e: usize| e != d implies result_of(results, e) == #[trigger] result_of(r2, e) by {
        lemma_update_elsewhere(results, k, (d, other), e);
    }
    lemma_told_parts(ids, results, r2, d, a, b);
    let x = results_told(ids, results);
    let y = results_told(ids, r2);
    let i = choose|i: int| 0 <= i < ids.len() && ids[i] == d;
    let jx = join_text(x, "\n\n"@);
    let jy = join_text(y, "\n\n"@);
    let head = "Here are the results from previous subtasks that this "@ + "task depends on:\n\n"@;
    let la = result_line(d, a);
    let lb = result_line(d, b);
    assert(la.len() - a.len() == lb.len() - b.len());
    assert(la != lb) by {
        let n = la.len() - a.len();
        assert(la.skip(n) =~= a);
        assert(lb.skip(n) =~= b);
    }
    assert(jx != jy) by {
        if jx == jy {
            lemma_different_somewhere(ids, results, r2, d, a, b, i);
            if a.len() < b.len() {
                lemma_join_len_less(x, y, "\n\n"@);
            } else if b.len() < a.len() {
                lemma_join_len_less(y, x, "\n\n"@);
            } else {
                lemma_join_injective(x, y, "\n\n"@);
            }
        }
    }
    assert((head + jx).skip(head.len() as int) =~= jx);
    assert((head + jy).skip(head.len() as int) =~= jy);
}

proof fn lemma_different_somewhere(
    ids: Seq<usize>,
    r1: Seq<(usize, String)>,
    r2: Seq<(usize, String)>,
    d: usize,
    a: Seq<char>,
    b: Seq<char>,
    i: int,
)
    requires
        result_of(r1, d) == Some(a),
        result_of(r2, d) == Some(b),
        forall|e: usize| e != d ==> result_of(r1, e) == #[trigger] result_of(r2, e),
        0 <= i < ids.len(),
        ids[i] == d,
    ensures
        exists|at: int|
            0 <= at < results_told(ids, r1).len() && (#[trigger] results_told(ids, r1)[at])
                == result_line(d, a) && results_told(ids, r2)[at] == result_line(d, b),
    decreases ids.len(),
{
    lemma_told_parts(ids.drop_last(), r1, r2, d, a, b);
    let x = results_told(ids.drop_last(), r1);
    if i == ids.len() - 1 {
        let at = x.len() as int;
        assert(results_told(ids, r1)[at] == result_line(d, a) && results_told(ids, r2)[at]
            == result_line(d, b));
    } else {
        lemma_different_somewhere(ids.drop_last(), r1, r2, d, a, b, i);
        let y = results_told(ids.drop_last(), r2);
        let at = choose|at: int|
            0 <= at < x.len() && (#[trigger] x[at]) == result_line(d, a) && y[at] == result_line(
                d,
                b,
            );
        assert(result_of(r1, ids.last()) == result_of(r2, ids.last()) || ids.last() == d);
        assert(results_told(ids, r1)[at] == x[at]);
        assert(results_told(ids, r2)[at] == y[at]);
    }
}

/// The model is told what it is to do: the description of the subtask stands in the system
/// prompt, and the last message asks for it. Every tool stands in the system prompt, with
/// its name and its description.
pub proof fn law_task_and_tools_told(
    subtask: SubTask,
    results: Seq<(usize, String)>,
    tools: Seq<ToolDescription>,
    m: Seq<ChatMessage>,
)
    requires
        are_first_messages(subtask, results, tools, m),
    ensures
        m[0] matches ChatMessage::System { content, name: None } && has_text(
            content@,
            "## Your Task\n"@ + subtask.description@,
        ) && forall|i: int|
            0 <= i < tools.len() ==> has_text(
                content@,
                (#[trigger] tools[i]).name@ + ": "@ + tools[i].description@,
            ),
        m.last() matches ChatMessage::User { content: UserContent::Text(t), name: None } && t@
            == "Please complete the following task: "@ + subtask.description@,
{
    let d = subtask.description@;
    lemma_prompt_has_task(d, tools);
    assert forall|i: int| 0 <= i < tools.len() implies has_text(
        task_prompt(d, tools),
        (#[trigger] tools[i]).name@ + ": "@ + tools[i].description@,
    ) by {
        lemma_prompt_has_tool(d, tools, i);
    }
}

proof fn lemma_prompt_head() -> (pre: Seq<char>)
    ensures
        TASK_PROMPT_HEAD@ == pre + "## Your Task\n"@,
{
    reveal_strlit(
        "You are an AI assistant executing a specific subtask as part of a larger plan.\n\n## Your Task\n",
    );
    reveal_strlit("## Your Task\n");
    let head = TASK_PROMPT_HEAD@;
    let pre = head.take(head.len() - 13);
    assert(head =~= pre + "## Your Task\n"@);
    pre
}

proof fn lemma_prompt_has_task(d: Seq<char>, tools: Seq<ToolDescription>)
    ensures
        has_text(task_prompt(d, tools), "## Your Task\n"@ + d),
{
    let pre = lemma_prompt_head();
    let mark = "## Your Task\n"@;
    let rest = TASK_PROMPT_TOOLS@ + join_text(tool_lines(tools), "\n"@) + TASK_PROMPT_TAIL@;
    lemma_has_middle(pre, mark + d, rest);
    assert(task_prompt(d, tools) =~= pre + (mark + d) + rest);
}

proof fn lemma_prompt_has_tool(d: Seq<char>, tools: Seq<ToolDescription>, i: int)
    requires
        0 <= i < tools.len(),
    ensures
        has_text(task_prompt(d, tools), tools[i].name@ + ": "@ + tools[i].description@),
{
    let p = tools[i].name@ + ": "@ + tools[i].description@;
    lemma_line_has_tool(tools[i]);
    assert(tool_lines(tools)[i] == tool_line(tools[i]));
    lemma_part_has(tool_lines(tools), "\n"@, i, p);
    lemma_has_within(
        TASK_PROMPT_HEAD@ + d + TASK_PROMPT_TOOLS@,
        join_text(tool_lines(tools), "\n"@),
        TASK_PROMPT_TAIL@,
        p,
    );
}

proof fn lemma_line_has_tool(t: ToolDescription)
    ensures
        has_text(tool_line(t), t.name@ + ": "@ + t.description@),
{
    let p = t.name@ + ": "@ + t.description@;
    assert(tool_line(t) =~= "- "@ + p);
    lemma_has_end("- "@, p);
}

/// The prompt tells the model the tags by which its answers are read.
pub proof fn law_prompt_shows_tags()
    ensures
        has_text(TASK_PROMPT_TAIL@, "wrapped in <final_answer></final_answer> tags"@),
        has_text(TASK_PROMPT_TAIL@, "- Use <thought></thought> tags"@),
        has_text(TASK_PROMPT_TAIL@, "- Use <action></action> tags"@),
        TASK_PROMPT_TOOLS@ == "\n\n## Available Tools\n"@,
{
    reveal_strlit("wrapped in <final_answer></final_answer> tags");
    reveal_strlit("- Use <thought></thought> tags");
    reveal_strlit("- Use <action></action> tags");
    reveal_strlit(
        "\n\n## Instructions\n1. Analyze the task and think about how to accomplish it\n2. Use the available tools as needed to complete the task\n3. When you have completed the task, provide your final answer wrapped in <final_answer></final_answer> tags\n\n## Response Format\n- Use <thought></thought> tags to explain your reasoning\n- Use <action></action> tags to describe what you're doing\n- When done, use <final_answer></final_answer> tags for your final response\n\nRemember: Focus only on this specific subtask. Use the context from previous results if needed.",
    );
    assert(TASK_PROMPT_TAIL@.subrange(196, 241) =~= "wrapped in <final_answer></final_answer> tags"@);
    assert(occurs_at(TASK_PROMPT_TAIL@, "wrapped in <final_answer></final_answer> tags"@, 196));
    assert(TASK_PROMPT_TAIL@.subrange(262, 292) =~= "- Use <thought></thought> tags"@);
    assert(occurs_at(TASK_PROMPT_TAIL@, "- Use <thought></thought> tags"@, 262));
    assert(TASK_PROMPT_TAIL@.subrange(319, 347) =~= "- Use <action></action> tags"@);
    assert(occurs_at(TASK_PROMPT_TAIL@, "- Use <action></action> tags"@, 319));
}

/// The description of every tool for the model has its name and what it does, as a
/// function with one required argument, the query.
pub proof fn law_tools_described_in_json(tools: Seq<ToolDescription>, i: int)
    requires
        0 <= i < tools.len(),
    ensures
        has_text(tools_json(tools), "\"name\":"@ + json_string(tools[i].name@)),
        has_text(tools_json(tools), "\"description\":"@ + json_string(tools[i].description@)),
        tools_json(tools)[0] == '[',
        tools_json(tools).last() == ']',
        has_text(TOOL_JSON_TAIL@, "\"properties\":{\"query\":"@),
        has_text(TOOL_JSON_TAIL@, "\"required\":[\"query\"]"@),
        has_text(TOOL_JSON_TAIL@, "\"type\":\"function\""@),
{
    let f = |t: ToolDescription| tool_json(t);
    let parts = tools.map_values(f);
    let all = join_text(parts, ","@);
    let x = tools[i];
    reveal_strlit("{\"function\":{\"description\":");
    reveal_strlit("\"description\":");
    reveal_strlit(",\"name\":");
    reveal_strlit("\"name\":");
    reveal_strlit("[");
    reveal_strlit("]");
    let open = "{\"function\":{\"description\":"@;
    let key = "\"description\":"@;
    let cut = (open.len() - key.len()) as int;
    assert(open.skip(cut) =~= key);
    let jd = json_string(x.description@);
    let jn = json_string(x.name@);
    let p = key + jd;
    let q = "\"name\":"@ + jn;
    lemma_has_middle(open.take(cut), p, ",\"name\":"@ + jn + TOOL_JSON_TAIL@);
    assert(open.take(cut) + p + (",\"name\":"@ + jn + TOOL_JSON_TAIL@) =~= tool_json(x));
    assert(",\"name\":"@.skip(1) =~= "\"name\":"@);
    lemma_has_middle(open + jd + ",\"name\":"@.take(1), q, TOOL_JSON_TAIL@);
    assert(open + jd + ",\"name\":"@.take(1) + q + TOOL_JSON_TAIL@ =~= tool_json(x));
    assert(parts[i] == tool_json(x));
    lemma_part_has(parts, ","@, i, p);
    lemma_part_has(parts, ","@, i, q);
    lemma_has_within("["@, all, "]"@, p);
    lemma_has_within("["@, all, "]"@, q);
    lemma_tool_tail();
}

proof fn lemma_tool_tail()
    ensures
        has_text(TOOL_JSON_TAIL@, "\"properties\":{\"query\":"@),
        has_text(TOOL_JSON_TAIL@, "\"required\":[\"query\"]"@),
        has_text(TOOL_JSON_TAIL@, "\"type\":\"function\""@),
{
    reveal_strlit("\"properties\":{\"query\":");
    reveal_strlit("\"required\":[\"query\"]");
    reveal_strlit("\"type\":\"function\"");
    reveal_strlit(
        ",\"parameters\":{\"properties\":{\"query\":{\"description\":\"The query or input for the tool\",\"type\":\"string\"}},\"required\":[\"query\"],\"type\":\"object\"}},\"type\":\"function\"}",
    );
    assert(TOOL_JSON_TAIL@.subrange(15, 37) =~= "\"properties\":{\"query\":"@);
    assert(occurs_at(TOOL_JSON_TAIL@, "\"properties\":{\"query\":"@, 15));
    assert(TOOL_JSON_TAIL@.subrange(104, 124) =~= "\"required\":[\"query\"]"@);
    assert(occurs_at(TOOL_JSON_TAIL@, "\"required\":[\"query\"]"@, 104));
    assert(TOOL_JSON_TAIL@.subrange(143, 160) =~= "\"type\":\"function\""@);
    assert(occurs_at(TOOL_JSON_TAIL@, "\"type\":\"function\""@, 143));
}

/// A name in two parts is the tool, the separator and the server, and neither part holds
/// the separator.
pub proof fn law_tool_name_made_of_parts(name: Seq<char>)
    requires
        tool_and_server(name) is Some,
    ensures
        ({
            let (tool, server) = tool_and_server(name)->0;
            &&& name == tool + "__"@ + server
            &&& !has_text(tool, "__"@)
            &&& !has_text(server, "__"@)
        }),
{
    reveal_strlit("__");
    lemma_split_pieces(name, "__"@);
    let parts = split_text(name, "__"@);
    assert(!has_text(parts[0], "__"@) && !has_text(parts[1], "__"@));
    lemma_join_two(parts, "__"@);
}

/// Every tool of every service is described to the model, under a name that is read back
/// as that tool and that server, where the two can be told apart.
pub proof fn law_described_tool_is_found(services: Seq<McpService>, i: int, j: int)
    requires
        0 <= i < services.len(),
        0 <= j < services[i].tools@.len(),
    ensures
        ({
            let tool = services[i].tools@[j]@;
            let server = services[i].name@;
            &&& exists|k: int|
                0 <= k < described(services).len() && (#[trigger] described(services)[k]).0 == tool
                    + "__"@ + server && described(services)[k].1 == "Tool "@ + tool + " from "@
                    + server
            &&& separable(tool, "__"@, '_') && !has_text(server, "__"@) ==> tool_and_server(
                tool + "__"@ + server,
            ) == Some((tool, server))
        }),
    decreases services.len(),
{
    reveal_strlit("__");
    let tool = services[i].tools@[j]@;
    let server = services[i].name@;
    let s = services.last();
    let before = described(services.drop_last());
    let f = |t: String| (t@ + MCP_SEPARATOR@ + s.name@, "Tool "@ + t@ + " from "@ + s.name@);
    let more = s.tools@.map_values(f);
    assert(described(services) =~= before + more);
    if i == services.len() - 1 {
        let k = before.len() + j;
        assert(more[j] == f(s.tools@[j]));
        assert(described(services)[k] == more[j]);
    } else {
        law_described_tool_is_found(services.drop_last(), i, j);
        let k = choose|k: int|
            0 <= k < before.len() && (#[trigger] before[k]).0 == tool + "__"@ + server
                && before[k].1 == "Tool "@ + tool + " from "@ + server;
        assert(described(services)[k] == before[k]);
    }
    if separable(tool, "__"@, '_') && !has_text(server, "__"@) {
        lemma_first_piece(tool, "__"@, server, '_');
        lemma_split_none(server, "__"@);
        assert(split_text(tool + "__"@ + server, "__"@) =~= seq![tool, server]);
    }
}

/// Nothing else is described: every description is that of a tool of some service.
pub proof fn law_described_is_offered(services: Seq<McpService>, k: int)
    requires
        0 <= k < described(services).len(),
    ensures
        exists|i: int, j: int|
            0 <= i < services.len() && 0 <= j < services[i].tools@.len() && described(
                services,
            )[k].0 == #[trigger] services[i].tools@[j]@ + "__"@ + services[i].name@,
    decreases services.len(),
{
    let s = services.last();
    let before = described(services.drop_last());
    let f = |t: String| (t@ + MCP_SEPARATOR@ + s.name@, "Tool "@ + t@ + " from "@ + s.name@);
    let more = s.tools@.map_values(f);
    assert(described(services) =~= before + more);
    if k < before.len() {
        law_described_is_offered(services.drop_last(), k);
        let (i, j) = choose|i: int, j: int|
            0 <= i < services.drop_last().len() && 0 <= j < services.drop_last()[i].tools@.len()
                && before[k].0 == #[trigger] services.drop_last()[i].tools@[j]@ + "__"@
                + services.drop_last()[i].name@;
        assert(services[i].tools@[j]@ == services.drop_last()[i].tools@[j]@);
    } else {
        let j = k - before.len();
        let i = services.len() - 1;
        assert(more[j] == f(s.tools@[j]));
        assert(services[i].tools@[j]@ == s.tools@[j]@);
    }
}

/// An answer that is tagged is what stands in the tags; without a tag, or with one that
/// holds nothing readable, it is all that the model said.
pub proof fn law_answer_is_the_tagged_part(content: Seq<char>, tagged: Seq<char>)
    ensures
        answer_by(content, true, Some(tagged)) == tagged,
        answer_by(content, true, None) == content,
        answer_by(content, false, Some(tagged)) == content,
        answer_by(content, false, None) == content,
{
}

/// Another attempt at a call is due exactly when it failed or the tool reported an error;
/// what failed is told as it was reported.
pub proof fn law_failed_calls_are_retried(reply: Result<ToolReply, String>)
    ensures
        match reply {
            Err(e) => retryable_failure(reply) == Some(e@),
            Ok(t) => retryable_failure(reply) is Some <==> t.is_error == Some(true),
        },
{
}

/// What a tool gave is the text of its first content, if that is a text.
pub proof fn law_first_text_counts(reply: ToolReply)
    ensures
        reply.content@.len() == 0 ==> first_text(reply) is None,
        reply.content@.len() > 0 ==> match reply.content@[0] {
            ToolContent::Text(t) => first_text(reply) == Some(t@),
            ToolContent::Other => first_text(reply) is None,
        },
{
}

/// The record of a call that ended says which tool of which server was called with what,
/// how long it took, and what it gave or why it failed, and not both.
pub proof fn law_calls_recorded(
    t: ToolCallTrace,
    m: Seq<char>,
    d: Elapsed,
    failed: ToolCallTrace,
    good: ToolCallTrace,
)
    requires
        t.result is None,
        t.error is None,
        is_failed_call(t, m, d, failed),
        is_good_call(t, m, d, good),
    ensures
        failed.error matches Some(e) && e@ == m,
        failed.result is None,
        good.result matches Some(r) && r@ == m,
        good.error is None,
        failed.tool_name == t.tool_name && good.tool_name == t.tool_name,
        failed.server_name == t.server_name && good.server_name == t.server_name,
        failed.arguments == t.arguments && good.arguments == t.arguments,
        failed.duration == d && good.duration == d,
{
}

/// The model's thought, its action and its final answer are what stands in the tags of
/// these names, once slips in the tags are corrected; without content there is neither
/// thought nor action.
pub proof fn law_parts_by_their_tags(content: String)
    ensures
        thought_in(Some(content)) == trimmed_element(sanitized(content@), "thought"@),
        action_in(Some(content)) == trimmed_element(sanitized(content@), "action"@),
        thought_in(None) is None,
        action_in(None) is None,
        has_text(lowered(content@), "<final_answer"@) ==> (trimmed_element(
            sanitized(content@),
            "final_answer"@,
        ) matches Some(t) ==> answer_in(content@) == t),
        !has_text(lowered(content@), "<final_answer"@) && !has_text(
            lowered(content@),
            "< final_answer"@,
        ) ==> answer_in(content@) == content@,
        trimmed_element(sanitized(content@), "final_answer"@) is None ==> answer_in(content@)
            == content@,
{
    reveal_strlit("<");
    reveal_strlit("< ");
    reveal_strlit("final_answer");
    reveal_strlit("<final_answer");
    reveal_strlit("< final_answer");
    assert("<"@ + "final_answer"@ =~= "<final_answer"@);
    assert("< "@ + "final_answer"@ =~= "< final_answer"@);
}

/// A call that is recorded stands behind those that were, which stay as they are, as does
/// everything else of the iteration.
pub proof fn law_one_more_call_is_recorded(before: IterationTrace, after: IterationTrace)
    requires
        recorded(before, after),
    ensures
        after.tool_calls@.len() == before.tool_calls@.len() + 1,
        forall|i: int|
            0 <= i < before.tool_calls@.len() ==> #[trigger] after.tool_calls@[i]
                == before.tool_calls@[i],
        after.iteration == before.iteration,
        after.thought == before.thought,
        after.action == before.action,
        after.observation == before.observation,
        after.llm_tokens == before.llm_tokens,
{
}

/// In a new iteration nothing was thought, done or observed, and no tokens were taken.
pub proof fn law_new_iteration_is_empty(i: IterationTrace)
    requires
        is_new_iteration(i),
    ensures
        i.thought is None && i.action is None && i.observation is None,
        i.tool_calls@.len() == 0,
        i.llm_tokens.prompt_tokens == 0 && i.llm_tokens.completion_tokens == 0
            && i.llm_tokens.total_tokens == 0,
{
}

/// What is told of tools are their names and their descriptions, in order.
pub proof fn law_descriptions_of_tools(s: Seq<ToolDescription>, i: int)
    requires
        0 <= i < s.len(),
    ensures
        descriptions(s).len() == s.len(),
        descriptions(s)[i] == (s[i].name@, s[i].description@),
{
}

/// A call gives the text of its tool; it is tried again as long as it may be where it failed
/// or the tool reported an error, and then ends with the error, the tool and the number of
/// attempts.
pub proof fn law_call_gives_what_the_tool_gave(
    run: ToolCallRun,
    reply: Result<ToolReply, String>,
    fallback: Seq<char>,
    step: ToolStep,
)
    requires
        is_tool_step(run, reply, fallback, step),
    ensures
        step matches ToolStep::Done(Ok(s)) ==> (reply matches Ok(t) && t.is_error != Some(true)
            && t.content@.len() > 0 && (t.content@[0] matches ToolContent::Text(x) && has_text(
            s@,
            x@,
        ) && (!is_search_server_name(run.trace.server_name@) ==> s@ == x@))),
        step is Retry <==> (reply is Err || (reply matches Ok(t) && t.is_error == Some(true)))
            && run.attempt < run.max_retries,
        reply matches Err(e) ==> run.attempt >= run.max_retries ==> (step matches ToolStep::Done(
            Err(ServerError::ToolCallRetryExhausted { tool_name, attempts, message }),
        ) && tool_name@ == run.trace.tool_name@ && attempts == run.max_retries + 1 && message@ == e@),
        reply matches Ok(t) ==> t.is_error != Some(true) && t.content@.len() == 0 ==> (
        step matches ToolStep::Done(Err(e)) && e is McpEmptyContent),
{
    if let Ok(t) = reply {
        if t.content@.len() > 0 {
            if let ToolContent::Text(x) = t.content@[0] {
                law_tool_text_reaches_the_model(run.trace.server_name@, fallback, x@);
            }
        }
    }
}

proof fn lemma_all_told(
    ids: Seq<usize>,
    results: Seq<(usize, String)>,
    at: Seq<int>,
    lines: Seq<Seq<char>>,
)
    requires
        at.len() == ids.len(),
        lines.len() == ids.len(),
        forall|i: int|
            0 <= i < ids.len() ==> is_first_of(results, #[trigger] at[i]) && results[at[i]].0
                == ids[i],
        forall|i: int|
            0 <= i < ids.len() ==> #[trigger] lines[i] == result_line(ids[i], results[at[i]].1@),
    ensures
        results_told(ids, results) == lines,
    decreases ids.len(),
{
    if ids.len() > 0 {
        let n = ids.len() - 1;
        let (a, b, c) = (ids.drop_last(), at.drop_last(), lines.drop_last());
        assert forall|i: int| 0 <= i < a.len() implies is_first_of(results, #[trigger] b[i])
            && results[b[i]].0 == a[i] by {
            assert(at[i] == b[i]);
        }
        assert forall|i: int| 0 <= i < a.len() implies #[trigger] c[i] == result_line(
            a[i],
            results[b[i]].1@,
        ) by {
            assert(lines[i] == c[i]);
            assert(at[i] == b[i]);
        }
        lemma_all_told(a, results, b, c);
        assert(is_first_of(results, at[n]));
        lemma_result_of(results, at[n]);
        assert(lines[n] == lines.last());
        assert(lines =~= c.push(lines.last()));
    } else {
        assert(results_told(ids, results) =~= lines);
    }
}

/// Where every subtask that a subtask depends on has a result, the message tells these, one
/// for each dependency and in their order, and nothing else.
pub proof fn law_dependency_results_in_order(
    subtask: SubTask,
    results: Seq<(usize, String)>,
    tools: Seq<ToolDescription>,
    m: Seq<ChatMessage>,
    at: Seq<int>,
    lines: Seq<Seq<char>>,
)
    requires
        are_first_messages(subtask, results, tools, m),
        subtask.dependencies@.len() > 0,
        at.len() == subtask.dependencies@.len(),
        lines.len() == subtask.dependencies@.len(),
        forall|i: int|
            0 <= i < at.len() ==> is_first_of(results, #[trigger] at[i]) && results[at[i]].0
                == subtask.dependencies@[i],
        forall|i: int|
            0 <= i < lines.len() ==> #[trigger] lines[i] == "Result from subtask "@ + decimal(
                subtask.dependencies@[i] as nat,
            ) + ": "@ + results[at[i]].1@,
    ensures
        m.len() == 3,
        m[1] matches ChatMessage::User { content: UserContent::Text(t), name: None } && t@
            == "Here are the results from previous subtasks that this "@
            + "task depends on:\n\n"@ + join_text(lines, "\n\n"@),
{
    lemma_all_told(subtask.dependencies@, results, at, lines);
}

} // verus!
