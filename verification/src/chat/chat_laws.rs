//! What holds of chats: what the model gets of messages, tools and memory, and what is made
//! of its answers.

use super::message::{ChatMessage, ChatRequest, Completion, ToolCall, ToolContent, ToolReply, UserContent};
use super::normal::{
    are_chat_calls, is_chat_form, is_chat_message, is_continued, is_passed_header, known_service, no_service,
    reply_told, text_or_empty,
};
use super::react::{is_observed, is_readable, is_step, no_tool_service, tool_service, ReactStep};
use super::utils::{
    are_results_added, are_stored_calls, first_system, is_stored_call, is_stored_result, last_said,
    said, written_parts,
};
use crate::error::ServerError;
use crate::json::{compact_json, json_string};
use crate::mcp::{
    is_search_server_name, search_prompt, tool_text, McpService, DEFAULT_SEARCH_FALLBACK_MESSAGE,
};
use crate::memory::manager::{are_model_calls, is_model_message};
use crate::memory::types::{
    MessageRole, ModelMessage, StoredMessage, StoredToolCall, StoredToolResult,
};
use crate::pattern::{line_element_content, line_element_from};
use crate::text::{
    has_text, is_space, join_text, lemma_find_from_is, lemma_has_end, lemma_has_middle,
    lemma_has_part, lemma_text_in_text, lemma_trim_front_len, lemma_word_len, occurs_at, trim_front,
    word_len, words,
};
use crate::text_map::TextMap;
use vstd::prelude::*;
use vstd::string::*;

verus! {

// ---------------------------------------------------------------------------
// What the model gets of a tool
// ---------------------------------------------------------------------------

/// What a tool gave reaches the model: as it is, or between the marks that the model is
/// told of, where the tool searches, and with the message for an empty search.
pub proof fn law_tool_text_reaches_the_model(server: Seq<char>, fallback: Seq<char>, text: Seq<char>)
    ensures
        has_text(tool_text(server, fallback, text), text),
        !is_search_server_name(server) ==> tool_text(server, fallback, text) == text,
        is_search_server_name(server) ==> has_text(
            tool_text(server, fallback, text),
            "---BEGIN CONTEXT---\n\n"@ + text + "\n\n---END CONTEXT---"@,
        ) && has_text(tool_text(server, fallback, text), "please respond with `"@ + fallback + "`"@),
{
    if is_search_server_name(server) {
        lemma_search_prompt(fallback, text);
        let p = "---BEGIN CONTEXT---\n\n"@ + text + "\n\n---END CONTEXT---"@;
        lemma_has_middle("---BEGIN CONTEXT---\n\n"@, text, "\n\n---END CONTEXT---"@);
        lemma_text_in_text(search_prompt(fallback, text), p, text);
    } else {
        lemma_has_end(Seq::empty(), text);
        assert(Seq::<char>::empty() + text =~= text);
    }
}

proof fn lemma_lead() -> (a: Seq<char>)
    ensures
        "Please answer the question based on the information between **---BEGIN CONTEXT---** and **---END CONTEXT---**. Do not use any external knowledge. If the information between **---BEGIN CONTEXT---** and **---END CONTEXT---** is empty, please respond with `"@
            == a + "please respond with `"@,
{
    reveal_strlit(
        "Please answer the question based on the information between **---BEGIN CONTEXT---** and **---END CONTEXT---**. Do not use any external knowledge. If the information between **---BEGIN CONTEXT---** and **---END CONTEXT---** is empty, please respond with `",
    );
    reveal_strlit("please respond with `");
    let lead = "Please answer the question based on the information between **---BEGIN CONTEXT---** and **---END CONTEXT---**. Do not use any external knowledge. If the information between **---BEGIN CONTEXT---** and **---END CONTEXT---** is empty, please respond with `"@;
    let n = lead.len() - 21;
    assert(lead.skip(n) =~= "please respond with `"@);
    assert(lead =~= lead.take(n) + "please respond with `"@);
    lead.take(n)
}

proof fn lemma_mid() -> (r: (Seq<char>, Seq<char>))
    ensures
        "`. Note that DO NOT use any tools if provided.\n\n---BEGIN CONTEXT---\n\n"@ == r.0
            + "---BEGIN CONTEXT---\n\n"@,
        "`. Note that DO NOT use any tools if provided.\n\n---BEGIN CONTEXT---\n\n"@ == "`"@
            + r.1,
{
    reveal_strlit("`. Note that DO NOT use any tools if provided.\n\n---BEGIN CONTEXT---\n\n");
    reveal_strlit("---BEGIN CONTEXT---\n\n");
    reveal_strlit("`");
    let mid = "`. Note that DO NOT use any tools if provided.\n\n---BEGIN CONTEXT---\n\n"@;
    let m = mid.len() - 21;
    assert(mid.skip(m) =~= "---BEGIN CONTEXT---\n\n"@);
    assert(mid =~= mid.take(m) + "---BEGIN CONTEXT---\n\n"@);
    assert(mid =~= "`"@ + mid.skip(1));
    (mid.take(m), mid.skip(1))
}

proof fn lemma_search_prompt(fallback: Seq<char>, text: Seq<char>)
    ensures
        has_text(
            search_prompt(fallback, text),
            "---BEGIN CONTEXT---\n\n"@ + text + "\n\n---END CONTEXT---"@,
        ),
        has_text(search_prompt(fallback, text), "please respond with `"@ + fallback + "`"@),
{
    let lead = "Please answer the question based on the information between **---BEGIN CONTEXT---** and **---END CONTEXT---**. Do not use any external knowledge. If the information between **---BEGIN CONTEXT---** and **---END CONTEXT---** is empty, please respond with `"@;
    let mid = "`. Note that DO NOT use any tools if provided.\n\n---BEGIN CONTEXT---\n\n"@;
    let end = "\n\n---END CONTEXT---"@;
    let x = lemma_lead();
    let (y, z) = lemma_mid();
    lemma_end_of(lead + fallback, mid, y, "---BEGIN CONTEXT---\n\n"@, text, end);
    lemma_start_of(lead, x, "please respond with `"@, fallback, mid, "`"@, z, text + end);
    assert(lead + fallback + mid + (text + end) =~= search_prompt(fallback, text));
}

proof fn lemma_end_of(
    front: Seq<char>,
    mid: Seq<char>,
    y: Seq<char>,
    mark: Seq<char>,
    text: Seq<char>,
    end: Seq<char>,
)
    requires
        mid == y + mark,
    ensures
        has_text(front + mid + text + end, mark + text + end),
{
    let p = mark + text + end;
    assert(front + mid + text + end =~= (front + y) + p);
    lemma_has_end(front + y, p);
}

proof fn lemma_start_of(
    lead: Seq<char>,
    x: Seq<char>,
    mark: Seq<char>,
    fallback: Seq<char>,
    mid: Seq<char>,
    tick: Seq<char>,
    z: Seq<char>,
    rest: Seq<char>,
)
    requires
        lead == x + mark,
        mid == tick + z,
    ensures
        has_text(lead + fallback + mid + rest, mark + fallback + tick),
{
    let q = mark + fallback + tick;
    assert(lead + fallback + mid + rest =~= x + q + (z + rest));
    lemma_has_middle(x, q, z + rest);
}

/// A search server has its own message for an empty search where one is set that says
/// something, and the one of all otherwise.
pub proof fn law_own_message_goes_first(s: McpService)
    ensures
        s.fallback_message matches Some(m) ==> m@.len() > 0 ==> s.fallback() == m@,
        s.fallback_message matches Some(m) ==> m@.len() == 0 ==> s.fallback()
            == DEFAULT_SEARCH_FALLBACK_MESSAGE@,
        s.fallback_message is None ==> s.fallback() == DEFAULT_SEARCH_FALLBACK_MESSAGE@,
{
}

/// The search servers are these six, and no others.
pub proof fn law_search_servers(name: Seq<char>)
    ensures
        is_search_server_name("cardea-agentic-search"@),
        is_search_server_name("cardea-agentic-search-mcp-server"@),
        is_search_server_name("cardea-tidb-mcp-server"@),
        is_search_server_name("cardea-qdrant-mcp-server"@),
        is_search_server_name("cardea-elastic-mcp-server"@),
        is_search_server_name("cardea-kwsearch-mcp-server"@),
        is_search_server_name(name) ==> name.len() >= 21 && name.take(7) == "cardea-"@,
{
    reveal_strlit("cardea-agentic-search");
    reveal_strlit("cardea-agentic-search-mcp-server");
    reveal_strlit("cardea-tidb-mcp-server");
    reveal_strlit("cardea-qdrant-mcp-server");
    reveal_strlit("cardea-elastic-mcp-server");
    reveal_strlit("cardea-kwsearch-mcp-server");
    reveal_strlit("cardea-");
    if is_search_server_name(name) {
        assert(name.take(7) =~= "cardea-"@);
    }
}

/// A reply reaches the model if the tool says that nothing went wrong and gave a text
/// first: that text is told. Otherwise there is an error: the one of the call, or one that
/// names the tool, or that there is no content or no text.
pub proof fn law_reply_reaches_the_model(
    reply: Result<ToolReply, String>,
    tool: Seq<char>,
    server: Seq<char>,
    fallback: Seq<char>,
    r: Result<String, ServerError>,
)
    requires
        reply_told(reply, tool, server, fallback, r),
    ensures
        r is Ok <==> (reply matches Ok(t) && t.is_error == Some(false) && t.content@.len() > 0
            && t.content@[0] is Text),
        r matches Ok(x) ==> (reply matches Ok(t) && (t.content@[0] matches ToolContent::Text(s)
            && has_text(x@, s@) && (!is_search_server_name(server) ==> x@ == s@))),
        reply matches Err(e) ==> (r matches Err(ServerError::Operation(m)) && m@ == e@),
        reply matches Ok(t) ==> t.is_error != Some(false) ==> (r matches Err(
            ServerError::Operation(m),
        ) && has_text(m@, tool)),
        reply matches Ok(t) ==> t.is_error == Some(false) && t.content@.len() == 0 ==> (r matches Err(
            ServerError::McpEmptyContent,
        )),
{
    lemma_has_end("Failed to call the tool: "@, tool);
    if let Ok(t) = reply {
        if t.content@.len() > 0 {
            if let ToolContent::Text(s) = t.content@[0] {
                law_tool_text_reaches_the_model(server, fallback, s@);
            }
        }
    }
}

/// A server that is known is the one of that name; one that is not is named in the error.
pub proof fn law_server_is_the_one_named(
    server: Seq<char>,
    services: Option<&TextMap<McpService>>,
    e: ServerError,
)
    ensures
        known_service(server, services) matches Some(s) ==> (services matches Some(m)
            && m@.dom().contains(server) && m@[server] == s),
        known_service(server, services) is None && services is Some ==> !(
        services->0)@.dom().contains(server),
        no_service(server, services, e) && services is Some ==> (e matches ServerError::McpOperation(m)
            && has_text(m@, server)),
{
    lemma_has_middle("Not found mcp client connected with "@, server, " mcp server"@);
}

/// The service that is called for a tool is that of the server that offers it; where there
/// is none, the error says whether no server offers it.
pub proof fn law_service_offers_the_tool(
    tool: Seq<char>,
    tools: Option<&TextMap<String>>,
    services: Option<&TextMap<McpService>>,
    e: ServerError,
)
    ensures
        tool_service(tool, tools, services) matches Some(s) ==> (tools matches Some(t)
            && services matches Some(m) && t@.dom().contains(tool) && m@.dom().contains(
            t@[tool]@,
        ) && m@[t@[tool]@] == s),
        no_tool_service(tool, tools, services, e) ==> (tools matches Some(t) ==> (
        !t@.dom().contains(tool) <==> e is McpNotFoundClient)),
{
}

// ---------------------------------------------------------------------------
// From the memory to the chat
// ---------------------------------------------------------------------------

/// A message of the memory becomes a message of the chat with the same text, by the same
/// role; the tool calls of an answer keep their identifiers, names and arguments, and a
/// tool's result the call that it answers.
pub proof fn law_memory_message_keeps_its_text(m: ModelMessage, r: ChatMessage)
    requires
        is_chat_message(m),
        is_chat_form(m, r),
    ensures
        m.role@ == "system"@ ==> (r matches ChatMessage::System { content, name: None } && content@
            == m.content@),
        m.role@ == "user"@ ==> (r matches ChatMessage::User {
            content: UserContent::Text(t),
            name: None,
        } && t@ == m.content@),
        m.role@ == "assistant"@ ==> (r matches ChatMessage::Assistant {
            content: Some(t),
            name: None,
            tool_calls,
        } && t@ == m.content@ && (m.tool_calls is None <==> tool_calls is None) && (
        m.tool_calls matches Some(v) ==> (tool_calls matches Some(w) && w@.len() == v@.len()
            && forall|i: int|
            0 <= i < v@.len() ==> (#[trigger] w@[i]).id@ == v@[i].id@ && w@[i].name@
                == v@[i].function.name@ && w@[i].arguments@ == v@[i].function.arguments@))),
        m.role@ == "tool"@ ==> (r matches ChatMessage::Tool { content, tool_call_id } && content@
            == m.content@ && (m.tool_call_id matches Some(id) && tool_call_id@ == id@)),
{
    lemma_roles();
}

proof fn lemma_roles()
    ensures
        "user"@ != "system"@,
        "user"@ != "assistant"@,
        "user"@ != "tool"@,
        "system"@ != "assistant"@,
        "system"@ != "tool"@,
        "assistant"@ != "tool"@,
{
    reveal_strlit("user");
    reveal_strlit("system");
    reveal_strlit("assistant");
    reveal_strlit("tool");
    assert("user"@[0] == 'u');
    assert("system"@[0] == 's');
    assert("assistant"@[0] == 'a');
    assert("tool"@[0] == 't');
}

/// What is kept of a message of the user, the system or the model reaches the chat: the
/// same text, and of an answer the same calls with the same arguments.
pub proof fn law_kept_message_reaches_the_chat(m: StoredMessage, x: ModelMessage, r: ChatMessage)
    requires
        is_model_message(m, x),
        is_chat_form(x, r),
        m.role != MessageRole::Tool,
    ensures
        m.role == MessageRole::User ==> (r matches ChatMessage::User {
            content: UserContent::Text(t),
            name: None,
        } && t@ == m.content@),
        m.role == MessageRole::System ==> (r matches ChatMessage::System { content, name: None }
            && content@ == m.content@),
        m.role == MessageRole::Assistant ==> (r matches ChatMessage::Assistant {
            content: Some(t),
            name: None,
            tool_calls,
        } && t@ == m.content@ && (m.tool_calls@.len() > 0 ==> (tool_calls matches Some(w)
            && w@.len() == m.tool_calls@.len() && forall|i: int|
            0 <= i < w@.len() ==> (#[trigger] w@[i]).id@ == m.tool_calls@[i].id@ && w@[i].name@
                == m.tool_calls@[i].name@ && w@[i].arguments@ == m.tool_calls@[i].arguments@))),
{
    lemma_roles();
    if m.role == MessageRole::Assistant && m.tool_calls@.len() > 0 {
        let v = x.tool_calls->0@;
        let w = r->tool_calls->0@;
        assert(are_model_calls(m.tool_calls@, v));
        assert(are_chat_calls(v, w));
        assert forall|i: int| 0 <= i < w.len() implies (#[trigger] w[i]).id@ == m.tool_calls@[i].id@
            && w[i].name@ == m.tool_calls@[i].name@ && w[i].arguments@
            == m.tool_calls@[i].arguments@ by {
            assert(v[i].id@ == m.tool_calls@[i].id@);
        }
    }
}

/// A call is kept with its identifier, its name and its position; its arguments as they are
/// in compact JSON, or as a JSON text where they are not JSON. Its result is not known yet.
pub proof fn law_call_is_kept(c: ToolCall, i: int, s: StoredToolCall)
    requires
        is_stored_call(c, i, s),
        0 <= i <= i32::MAX,
    ensures
        s.id@ == c.id@,
        s.name@ == c.name@,
        s.sequence == i,
        compact_json(c.arguments@) matches Some(v) ==> s.arguments@ == v,
        compact_json(c.arguments@) is None ==> s.arguments@ == json_string(c.arguments@),
        s.result is None,
{
}

/// A result is kept as a JSON text, as that of a call that succeeded.
pub proof fn law_result_is_kept(t: Seq<char>, s: StoredToolResult)
    requires
        is_stored_result(t, s),
    ensures
        s.content@ == json_string(t),
        s.success,
        s.error is None,
{
}

// ---------------------------------------------------------------------------
// What the user said
// ---------------------------------------------------------------------------

/// What counts is what the last user message says that says something: a text as it is,
/// whatever other messages stand behind it.
pub proof fn law_last_user_text_counts(
    before: Seq<ChatMessage>,
    m: ChatMessage,
    behind: Seq<ChatMessage>,
    text: Seq<char>,
)
    requires
        m matches ChatMessage::User { content: UserContent::Text(t), name } && t@ == text,
        forall|i: int| 0 <= i < behind.len() ==> !(#[trigger] behind[i] is User),
    ensures
        last_said(before.push(m) + behind) == Some(text),
    decreases behind.len(),
{
    let all = before.push(m) + behind;
    if behind.len() == 0 {
        assert(all =~= before.push(m));
        assert(all.last() == m);
    } else {
        assert(all.last() == behind[behind.len() - 1]);
        assert(all.drop_last() =~= before.push(m) + behind.drop_last());
        assert forall|i: int| 0 <= i < behind.drop_last().len() implies !(
        #[trigger] behind.drop_last()[i] is User) by {
            assert(behind[i] == behind.drop_last()[i]);
        }
        law_last_user_text_counts(before, m, behind.drop_last(), text);
    }
}

/// Without a user message nothing was said.
pub proof fn law_nothing_said_without_user(s: Seq<ChatMessage>)
    requires
        forall|i: int| 0 <= i < s.len() ==> !(#[trigger] s[i] is User),
    ensures
        last_said(s) is None,
    decreases s.len(),
{
    if s.len() > 0 {
        assert(s[s.len() - 1] == s.last());
        assert forall|i: int| 0 <= i < s.drop_last().len() implies !(
        #[trigger] s.drop_last()[i] is User) by {
            assert(s[i] == s.drop_last()[i]);
        }
        law_nothing_said_without_user(s.drop_last());
    }
}

/// Every part of a user message that can be written stands in what the message says.
pub proof fn law_parts_are_said(m: ChatMessage, parts: Seq<Option<String>>, i: int)
    requires
        m matches ChatMessage::User { content: UserContent::Parts(v), name } && v@ == parts,
        0 <= i < parts.len(),
        parts[i] is Some,
    ensures
        said(m) matches Some(t) && has_text(t, parts[i]->0@),
{
    let k = lemma_written(parts, i);
    lemma_has_part(written_parts(parts), " "@, k);
}

proof fn lemma_written(parts: Seq<Option<String>>, i: int) -> (k: int)
    requires
        0 <= i < parts.len(),
        parts[i] is Some,
    ensures
        0 <= k < written_parts(parts).len(),
        written_parts(parts)[k] == parts[i]->0@,
    decreases parts.len(),
{
    if i == parts.len() - 1 {
        written_parts(parts.drop_last()).len() as int
    } else {
        assert(parts.drop_last()[i] == parts[i]);
        lemma_written(parts.drop_last(), i)
    }
}

/// The first system message is the one that counts.
pub proof fn law_first_system_counts(s: Seq<ChatMessage>, k: int)
    requires
        0 <= k < s.len(),
        s[k] is System,
        forall|j: int| 0 <= j < k ==> !(#[trigger] s[j] is System),
    ensures
        s[k] matches ChatMessage::System { content, name } && first_system(s) == Some(content@),
    decreases k,
{
    if k > 0 {
        assert(!(s[0] is System));
        let rest = s.drop_first();
        assert(rest[k - 1] == s[k]);
        assert forall|j: int| 0 <= j < k - 1 implies !(#[trigger] rest[j] is System) by {
            assert(s[j + 1] == rest[j]);
        }
        law_first_system_counts(rest, k - 1);
    }
}

// ---------------------------------------------------------------------------
// What the model's answer asks for
// ---------------------------------------------------------------------------

/// There is no `<` in `s`.
pub open spec fn tagless(s: Seq<char>) -> bool {
    forall|i: int| 0 <= i < s.len() ==> #[trigger] s[i] != '<'
}

/// What is written between tags on one line is read back.
pub proof fn law_line_is_read_back(a: Seq<char>, word: Seq<char>, x: Seq<char>, b: Seq<char>)
    requires
        tagless(a),
        tagless(x),
        !x.contains('\n'),
    ensures
        line_element_content(a + "<"@ + word + ">"@ + x + "</"@ + word + ">"@ + b, word) == Some(x),
{
    let s = a + "<"@ + word + ">"@ + x + "</"@ + word + ">"@ + b;
    lemma_line(s, a, word, x, b, 0);
}

proof fn lemma_line(
    s: Seq<char>,
    a: Seq<char>,
    word: Seq<char>,
    x: Seq<char>,
    b: Seq<char>,
    from: int,
)
    requires
        s == a + "<"@ + word + ">"@ + x + "</"@ + word + ">"@ + b,
        tagless(a),
        tagless(x),
        !x.contains('\n'),
        0 <= from <= a.len(),
    ensures
        line_element_from(s, word, from) == Some(x),
    decreases a.len() - from,
{
    reveal_strlit("<");
    reveal_strlit(">");
    reveal_strlit("</");
    let open = "<"@ + word + ">"@;
    let close = "</"@ + word + ">"@;
    if from < a.len() {
        assert(s[from] == a[from]);
        assert(open[0] == '<');
        if occurs_at(s, open, from) {
            assert(s.subrange(from, from + open.len())[0] == s[from]);
        }
        lemma_line(s, a, word, x, b, from + 1);
    } else {
        let j = from + open.len();
        let k = j + x.len();
        assert(s.subrange(from, j) =~= open);
        assert(s.subrange(k, k + close.len()) =~= close);
        assert(s.subrange(j, k) =~= x);
        assert forall|p: int| j <= p < k implies !occurs_at(s, close, p) by {
            assert(s[p] == x[p - j]);
            assert(close[0] == '<');
            if occurs_at(s, close, p) {
                assert(s.subrange(p, p + close.len())[0] == s[p]);
            }
        }
        lemma_find_from_is(s, close, j, k);
    }
}

/// An answer without tool calls that has a final answer on one line ends the loop with
/// exactly that answer.
pub proof fn law_final_answer_is_given(
    completion: Completion,
    a: Seq<char>,
    x: Seq<char>,
    b: Seq<char>,
    r: ReactStep,
)
    requires
        completion.tool_calls@.len() == 0,
        completion.content matches Some(c) && c@ == a + "<"@ + "final_answer"@ + ">"@ + x + "</"@
            + "final_answer"@ + ">"@ + b,
        tagless(a),
        tagless(x),
        !x.contains('\n'),
        is_step(completion, r),
    ensures
        r matches ReactStep::Answer(t) && t@ == x,
{
    let s = completion.content->0@;
    reveal_strlit("<");
    reveal_strlit(">");
    reveal_strlit("final_answer");
    reveal_strlit("<final_answer>");
    let tag = "<final_answer>"@;
    assert(tag =~= "<"@ + "final_answer"@ + ">"@);
    let rest = x + "</"@ + "final_answer"@ + ">"@ + b;
    assert(s =~= a + tag + rest);
    lemma_has_middle(a, tag, rest);
    law_line_is_read_back(a, "final_answer"@, x, b);
}

/// An answer that calls tools, with an action in its content or without content, asks for
/// exactly these calls. One with content and no action is an error, unless it has a final
/// answer and calls no tools.
pub proof fn law_tool_calls_are_asked_for(completion: Completion, r: ReactStep)
    requires
        is_step(completion, r),
    ensures
        completion.content is None && completion.tool_calls@.len() > 0 ==> (
        r matches ReactStep::CallTool(v) && v@ == completion.tool_calls@),
        completion.content matches Some(c) ==> completion.tool_calls@.len() > 0
            && line_element_content(c@, "action"@) is Some ==> (r matches ReactStep::CallTool(v)
            && v@ == completion.tool_calls@),
        completion.content matches Some(c) ==> completion.tool_calls@.len() > 0
            && line_element_content(c@, "action"@) is None ==> r is Fail,
        completion.content matches Some(c) ==> completion.tool_calls@.len() == 0 && !has_text(
            c@,
            "<final_answer>"@,
        ) && line_element_content(c@, "action"@) is Some ==> r is Again,
        completion.content matches Some(c) ==> completion.tool_calls@.len() == 0 && !has_text(
            c@,
            "<final_answer>"@,
        ) && line_element_content(c@, "action"@) is None ==> r is Fail,
{
}

/// The text of an answer is its content; one without content is empty.
pub proof fn law_answer_is_its_content(c: Option<String>)
    ensures
        c matches Some(t) ==> text_or_empty(c) == t@,
        c is None ==> text_or_empty(c).len() == 0,
{
}

/// These headers of a model's answer reach the client.
pub proof fn law_passed_headers()
    ensures
        is_passed_header("access-control-allow-origin"@),
        is_passed_header("access-control-allow-headers"@),
        is_passed_header("access-control-allow-methods"@),
        is_passed_header("content-type"@),
        is_passed_header("content-length"@),
        is_passed_header("cache-control"@),
        is_passed_header("connection"@),
        is_passed_header("user"@),
        is_passed_header("date"@),
        is_passed_header("requires-tool-call"@),
        !is_passed_header("authorization"@),
        !is_passed_header("set-cookie"@),
{
    reveal_strlit("authorization");
    reveal_strlit("set-cookie");
    reveal_strlit("access-control-allow-origin");
    reveal_strlit("access-control-allow-headers");
    reveal_strlit("access-control-allow-methods");
    reveal_strlit("content-type");
    reveal_strlit("content-length");
    reveal_strlit("cache-control");
    reveal_strlit("connection");
    reveal_strlit("user");
    reveal_strlit("date");
    reveal_strlit("requires-tool-call");
    let a = "authorization"@;
    let c = "set-cookie"@;
    assert(a.len() == 13 && c.len() == 10);
    assert(a[0] == 'a' && c[0] == 's');
    assert("cache-control"@[0] == 'c');
    assert("connection"@[0] == 'c');
}

// ---------------------------------------------------------------------------
// An answer word by word
// ---------------------------------------------------------------------------

/// The characters of `s` that are no white space, in order.
pub open spec fn inked(s: Seq<char>) -> Seq<char>
    decreases s.len(),
{
    if s.len() == 0 {
        Seq::empty()
    } else if is_space(s[0]) {
        inked(s.drop_first())
    } else {
        seq![s[0]] + inked(s.drop_first())
    }
}

proof fn lemma_inked_trim(s: Seq<char>)
    ensures
        inked(trim_front(s)) == inked(s),
    decreases s.len(),
{
    if s.len() > 0 && is_space(s[0]) {
        lemma_inked_trim(s.drop_first());
    }
}

proof fn lemma_inked_word(s: Seq<char>)
    ensures
        inked(s) == s.take(word_len(s) as int) + inked(s.skip(word_len(s) as int)),
    decreases s.len(),
{
    if s.len() > 0 && !is_space(s[0]) {
        let t = s.drop_first();
        let n = word_len(s) as int;
        lemma_inked_word(t);
        lemma_word_len(t);
        assert(t.skip(n - 1) =~= s.skip(n));
        assert(s.take(n) =~= seq![s[0]] + t.take(n - 1));
        assert(inked(s) =~= s.take(n) + inked(s.skip(n)));
    } else {
        assert(s.take(0) + inked(s.skip(0)) =~= inked(s.skip(0)));
        assert(s.skip(0) =~= s);
    }
}

/// The words of a text are not empty and hold no white space, and one after the other they
/// are all that is no white space in the text.
pub proof fn law_words_make_the_text(s: Seq<char>)
    ensures
        join_text(words(s), Seq::empty()) == inked(s),
        forall|i: int|
            0 <= i < words(s).len() ==> (#[trigger] words(s)[i]).len() > 0 && forall|k: int|
                0 <= k < words(s)[i].len() ==> !is_space(#[trigger] words(s)[i][k]),
    decreases s.len(),
{
    let t = trim_front(s);
    lemma_inked_trim(s);
    lemma_trim_front_len(s);
    if t.len() > 0 {
        lemma_word_len(t);
        let n = word_len(t) as int;
        let w = t.take(n);
        let rest = words(t.skip(n));
        lemma_inked_word(t);
        assert(n > 0);
        law_words_make_the_text(t.skip(n));
        assert(words(s) =~= seq![w] + rest);
        assert(words(s).drop_first() =~= rest);
        assert forall|i: int| 0 <= i < words(s).len() implies (#[trigger] words(s)[i]).len() > 0
            && forall|k: int|
            0 <= k < words(s)[i].len() ==> !is_space(#[trigger] words(s)[i][k]) by {
            if i == 0 {
                assert forall|k: int| 0 <= k < w.len() implies !is_space(#[trigger] w[k]) by {
                    assert(w[k] == t[k]);
                }
            } else {
                assert(words(s)[i] == rest[i - 1]);
            }
        }
        if rest.len() == 0 {
            assert(join_text(words(s), Seq::empty()) =~= w + inked(t.skip(n)));
        } else {
            assert(join_text(words(s), Seq::empty()) =~= w + join_text(rest, Seq::empty()));
        }
    }
}

// ---------------------------------------------------------------------------
// Kinds of messages and errors
// ---------------------------------------------------------------------------

/// What is said of a message's kind tells its text, its calls and the call that it answers.
pub proof fn law_kinds_of_messages(
    m: ChatMessage,
    t: Seq<char>,
    c: Option<String>,
    calls: Seq<ToolCall>,
    id: Seq<char>,
)
    ensures
        m.is_system(t) <==> (m matches ChatMessage::System { content, name: None } && content@ == t),
        m.is_user_text(t) <==> (m matches ChatMessage::User {
            content: UserContent::Text(s),
            name: None,
        } && s@ == t),
        m.is_assistant(c, calls) <==> (m matches ChatMessage::Assistant {
            content,
            name: None,
            tool_calls: Some(v),
        } && content == c && v@ == calls),
        m.is_tool(t, id) <==> (m matches ChatMessage::Tool { content, tool_call_id } && content@
            == t && tool_call_id@ == id),
{
}

/// What is said of an error's kind tells its message.
pub proof fn law_kinds_of_errors(e: ServerError, m: Seq<char>)
    ensures
        e.is_operation(m) <==> (e matches ServerError::Operation(t) && t@ == m),
        e.is_bad_request(m) <==> (e matches ServerError::BadRequest(t) && t@ == m),
{
}

/// An answer cannot be read if it begins a thought, or a final answer without calling
/// tools, that does not end on the same line, or if it says and calls nothing.
pub proof fn law_unreadable_answers(completion: Completion)
    ensures
        completion.content is None ==> (is_readable(completion) <==> completion.tool_calls@.len()
            > 0),
        completion.content matches Some(c) ==> has_text(c@, "<thought>"@) && line_element_content(
            c@,
            "thought"@,
        ) is None ==> !is_readable(completion),
        completion.content matches Some(c) ==> completion.tool_calls@.len() == 0 && has_text(
            c@,
            "<final_answer>"@,
        ) && line_element_content(c@, "final_answer"@) is None ==> !is_readable(completion),
        completion.content matches Some(c) ==> !has_text(c@, "<thought>"@) && !has_text(
            c@,
            "<final_answer>"@,
        ) ==> is_readable(completion),
{
}

// ---------------------------------------------------------------------------
// Requests that go on
// ---------------------------------------------------------------------------

/// A request goes on with the messages that it had, the call that the model asked for, and
/// the call's result, which names the call.
pub proof fn law_result_goes_to_the_model(
    before: ChatRequest,
    call: ToolCall,
    content: Seq<char>,
    after: ChatRequest,
)
    requires
        is_continued(before, call, content, after),
    ensures
        after.messages@.len() == before.messages@.len() + 2,
        forall|i: int|
            0 <= i < before.messages@.len() ==> #[trigger] after.messages@[i]
                == before.messages@[i],
        after.messages@[before.messages@.len() as int] matches ChatMessage::Assistant {
            content: None,
            name: None,
            tool_calls: Some(v),
        } && v@.len() == 1 && v@[0] == call,
        after.messages@.last() matches ChatMessage::Tool { content: t, tool_call_id } && t@
            == content && tool_call_id@ == call.id@,
{
    let n = before.messages@.len() as int;
    assert forall|i: int| 0 <= i < n implies #[trigger] after.messages@[i]
        == before.messages@[i] by {
        assert(after.messages@.take(n)[i] == before.messages@[i]);
    }
}

/// What a tool gave is shown to the model as an observation that names the first call, behind
/// all the calls and the messages that there were.
pub proof fn law_observation_goes_to_the_model(
    before: ChatRequest,
    calls: Seq<ToolCall>,
    text: Seq<char>,
    after: ChatRequest,
)
    requires
        calls.len() > 0,
        is_observed(before, calls, text, after),
    ensures
        after.messages@.len() == before.messages@.len() + 2,
        forall|i: int|
            0 <= i < before.messages@.len() ==> #[trigger] after.messages@[i]
                == before.messages@[i],
        after.messages@[before.messages@.len() as int] matches ChatMessage::Assistant {
            content: None,
            name: None,
            tool_calls: Some(v),
        } && v@ == calls,
        after.messages@.last() matches ChatMessage::Tool { content: t, tool_call_id } && has_text(
            t@,
            text,
        ) && t@ == "<observation>"@ + text + "</observation>"@ && tool_call_id@ == calls[0].id@,
        after.model == before.model && after.tools == before.tools && after.user == before.user,
{
    let n = before.messages@.len() as int;
    assert forall|i: int| 0 <= i < n implies #[trigger] after.messages@[i]
        == before.messages@[i] by {
        assert(after.messages@.take(n)[i] == before.messages@[i]);
    }
    lemma_has_middle("<observation>"@, text, "</observation>"@);
}

/// Calls and their results are kept together: each call with its identifier and its name,
/// and the result at its place as its own; a call without a result stays without one.
pub proof fn law_results_stay_with_their_calls(
    calls: Seq<ToolCall>,
    stored: Seq<StoredToolCall>,
    results: Seq<String>,
    after: Seq<StoredToolCall>,
    i: int,
)
    requires
        are_stored_calls(calls, stored),
        are_results_added(stored, results, after),
        0 <= i < calls.len(),
    ensures
        after.len() == calls.len(),
        after[i].id@ == calls[i].id@,
        after[i].name@ == calls[i].name@,
        i < results.len() ==> (after[i].result matches Some(s) && s.content@ == json_string(
            results[i]@,
        ) && s.success),
        i >= results.len() ==> after[i].result is None,
        compact_json(calls[i].arguments@) matches Some(v) ==> after[i].arguments@ == v,
{
    assert(is_stored_call(calls[i], i, stored[i]));
    assert(after[i].id == stored[i].id);
}

} // verus!
