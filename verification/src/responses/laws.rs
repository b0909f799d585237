//! What holds of requests and replies as a whole.

use super::code_interpreter::{
    are_settings_of, at_least, idle_in, is_idle, is_install, is_python_run, is_run_result,
    is_sandbox_for, written_err, written_out, CodeInterpreterConfig, CodeInterpreterError,
    CodeInterpreterSettings, ExecutionResult, OutputPiece, RunEnd, SandboxEntry, SandboxPlan,
};
use super::db::{holds_reply, session_of};
use super::handlers::{
    all_warnings, answer, are_messages_of, backend_outcome, conflict, extended_entries, first_error, grown,
    is_backend_request, is_final_reply, is_message_of, is_tool_verdict, question, request_warnings,
    sendable, token_estimate, tools_warning, with_entry, BackendReply, BackendRequest, ExtendedData, ResponseError,
};
use super::models::{
    history, law_session_remembers, pair_views, token_sum, ResponseReply, ResponseRequest, Session,
    SessionMessage, ToolDefinition,
};
use crate::chat::message::{ChatMessage, UserContent};
use crate::clock::{Elapsed, Timestamp};
use crate::single::lemma_single_small;
use crate::text::{
    decimal, has_text, lemma_has_end, lemma_has_middle, lemma_has_start, lemma_text_in_text, texts,
    trimmed,
};
use vstd::prelude::*;
use vstd::string::*;
use vstd::utf8::encode_utf8;

verus! {

// ---------------------------------------------------------------------------
// What the model gets
// ---------------------------------------------------------------------------

/// The place in what the model gets of the entry at `i`.
pub open spec fn place_of(s: Seq<(Seq<char>, Seq<char>)>, i: int) -> int {
    sendable(s.take(i)).len() as int
}

/// `m` says `t` in the name of the role `role`.
pub open spec fn says(m: ChatMessage, role: Seq<char>, t: Seq<char>) -> bool {
    match m {
        ChatMessage::User { content: UserContent::Text(c), name: None } => role == "user"@ && c@
            == t,
        ChatMessage::System { content: c, name: None } => role == "system"@ && c@ == t,
        ChatMessage::Assistant { content: Some(c), name: None, tool_calls: None } => role
            == "assistant"@ && c@ == t,
        _ => false,
    }
}

proof fn lemma_sent(s: Seq<(Seq<char>, Seq<char>)>, i: int)
    requires
        0 <= i < s.len(),
        s[i].0 == "user"@ || s[i].0 == "system"@ || s[i].0 == "assistant"@,
    ensures
        0 <= place_of(s, i) < sendable(s).len(),
        sendable(s)[place_of(s, i)] == s[i],
        sendable(s.take(i + 1)).len() == place_of(s, i) + 1,
    decreases s.len(),
{
    reveal(Seq::filter);
    let before = s.drop_last();
    assert(s.take(i + 1).drop_last() =~= s.take(i));
    assert(s.take(i + 1).last() == s[i]);
    if i < before.len() {
        lemma_sent(before, i);
        assert(before.take(i) =~= s.take(i));
        assert(before[i] == s[i]);
    } else {
        assert(before =~= s.take(i));
    }
}

proof fn lemma_sent_more(s: Seq<(Seq<char>, Seq<char>)>, i: int, j: int)
    requires
        0 <= i <= j <= s.len(),
    ensures
        place_of(s, i) <= place_of(s, j),
    decreases j - i,
{
    reveal(Seq::filter);
    if i < j {
        lemma_sent_more(s, i, j - 1);
        assert(s.take(j).drop_last() =~= s.take(j - 1));
    }
}

proof fn lemma_names()
    ensures
        "user"@ != "system"@,
        "user"@ != "assistant"@,
        "system"@ != "assistant"@,
{
    reveal_strlit("user");
    reveal_strlit("system");
    reveal_strlit("assistant");
    assert("user"@[0] != "system"@[0]);
    assert("user"@.len() != "assistant"@.len());
    assert("system"@.len() != "assistant"@.len());
}

/// Every entry of a conversation that the user, the system or the assistant said reaches
/// the model: as a message of the same role, with exactly its text.
pub proof fn law_entries_reach_the_model(
    s: Seq<(Seq<char>, Seq<char>)>,
    r: Seq<ChatMessage>,
    i: int,
) -> (k: int)
    requires
        are_messages_of(s, r),
        0 <= i < s.len(),
        s[i].0 == "user"@ || s[i].0 == "system"@ || s[i].0 == "assistant"@,
    ensures
        k == place_of(s, i),
        0 <= k < r.len(),
        says(r[k], s[i].0, s[i].1),
{
    lemma_sent(s, i);
    lemma_names();
    let k = place_of(s, i);
    assert(is_message_of(sendable(s)[k], r[k]));
    k
}

/// Every user entry of a conversation reaches the model as a user message with its text.
pub proof fn law_user_entries_reach_the_model(
    s: Seq<(Seq<char>, Seq<char>)>,
    r: Seq<ChatMessage>,
    i: int,
)
    requires
        are_messages_of(s, r),
        0 <= i < s.len(),
        s[i].0 == "user"@,
    ensures
        0 <= place_of(s, i) < r.len(),
        r[place_of(s, i)] matches ChatMessage::User { content: UserContent::Text(t), name: None }
            && t@ == s[i].1,
{
    let k = law_entries_reach_the_model(s, r, i);
    lemma_names();
}

/// Entries reach the model in their order.
pub proof fn law_entries_keep_their_order(s: Seq<(Seq<char>, Seq<char>)>, i: int, j: int)
    requires
        0 <= i < j < s.len(),
        s[i].0 == "user"@ || s[i].0 == "system"@ || s[i].0 == "assistant"@,
    ensures
        place_of(s, i) < place_of(s, j),
{
    lemma_sent(s, i);
    lemma_sent_more(s, i + 1, j);
}

/// The model gets nothing but what stands in the conversation.
pub proof fn law_nothing_else_reaches_the_model(
    s: Seq<(Seq<char>, Seq<char>)>,
    r: Seq<ChatMessage>,
    k: int,
) -> (i: int)
    requires
        are_messages_of(s, r),
        0 <= k < r.len(),
    ensures
        0 <= i < s.len(),
        place_of(s, i) == k,
        says(r[k], s[i].0, s[i].1),
{
    let i = lemma_whence(s, k);
    lemma_names();
    assert(is_message_of(sendable(s)[k], r[k]));
    i
}

proof fn lemma_whence(s: Seq<(Seq<char>, Seq<char>)>, k: int) -> (i: int)
    requires
        0 <= k < sendable(s).len(),
    ensures
        0 <= i < s.len(),
        place_of(s, i) == k,
        sendable(s)[k] == s[i],
        s[i].0 == "user"@ || s[i].0 == "system"@ || s[i].0 == "assistant"@,
    decreases s.len(),
{
    reveal(Seq::filter);
    let before = s.drop_last();
    if k < sendable(before).len() {
        let i = lemma_whence(before, k);
        assert(before.take(i) =~= s.take(i));
        assert(before[i] == s[i]);
        i
    } else {
        let i = s.len() - 1;
        assert(before =~= s.take(i));
        i
    }
}

/// A user message that was put into a session is the last one that the model gets; in
/// front of it stands what the model got of the conversation before.
pub proof fn law_user_message_comes_last(
    before: Session,
    after: Session,
    m: SessionMessage,
    r: Seq<ChatMessage>,
)
    requires
        before.numbered(),
        after.messages@ == before.messages@.insert(decimal(before.messages@.dom().len()), m),
        m.role@ == "user"@,
        are_messages_of(after.conversation(), r),
    ensures
        r.len() > 0,
        r.last() matches ChatMessage::User { content: UserContent::Text(t), name: None } && t@
            == m.content@,
        are_messages_of(before.conversation(), r.drop_last()),
{
    law_session_remembers(before, after, m);
    let s = after.conversation();
    let i = s.len() - 1;
    assert(s[i] == ("user"@, m.content@));
    law_user_entries_reach_the_model(s, r, i);
    lemma_sent(s, i);
    assert(s.take(i + 1) =~= s);
    assert(s.take(i) =~= before.conversation());
    reveal(Seq::filter);
    assert(s.drop_last() =~= before.conversation());
    let d = r.drop_last();
    assert forall|k: int| 0 <= k < d.len() implies is_message_of(
        sendable(before.conversation())[k],
        #[trigger] d[k],
    ) by {
        assert(is_message_of(sendable(s)[k], r[k]));
    }
}

/// The last message that the model gets for a request is a user message whose text is
/// exactly the input of the request; in front of it stands what the model got of the
/// conversation before.
pub proof fn law_question_comes_last(
    req: ResponseRequest,
    at: i64,
    before: Session,
    after: Session,
    r: BackendRequest,
)
    requires
        before.numbered(),
        grown(before, after, |m: SessionMessage| question(req, at, m)),
        is_backend_request(req, after, r),
    ensures
        r.messages@.len() > 0,
        r.messages@.last() matches ChatMessage::User { content: UserContent::Text(t), name: None }
            && t@ == req.input@,
        are_messages_of(before.conversation(), r.messages@.drop_last()),
{
    let key = decimal(before.messages@.dom().len());
    law_user_message_comes_last(before, after, after.messages@[key], r.messages@);
}

/// What is asked makes a difference: requests with different inputs give requests to the
/// model that differ in their last message.
pub proof fn law_questions_make_a_difference(
    a: ResponseRequest,
    b: ResponseRequest,
    at: i64,
    before: Session,
    after_a: Session,
    after_b: Session,
    ra: BackendRequest,
    rb: BackendRequest,
)
    requires
        before.numbered(),
        grown(before, after_a, |m: SessionMessage| question(a, at, m)),
        grown(before, after_b, |m: SessionMessage| question(b, at, m)),
        is_backend_request(a, after_a, ra),
        is_backend_request(b, after_b, rb),
        a.input@ != b.input@,
    ensures
        ra.messages@.last() != rb.messages@.last(),
{
    law_question_comes_last(a, at, before, after_a, ra);
    law_question_comes_last(b, at, before, after_b, rb);
}

/// A request to the model has the settings of the request that it is made for.
pub proof fn law_settings_reach_the_model(req: ResponseRequest, session: Session, r: BackendRequest)
    requires
        is_backend_request(req, session, r),
    ensures
        r.model@ == req.model@,
        r.temperature == req.temperature,
        r.top_p == req.top_p,
        req.user matches Some(u) ==> r.user@ == u@,
        req.user is None ==> r.user@ == "responses-api"@,
        req.max_output_tokens is None ==> r.max_completion_tokens is None,
        req.max_output_tokens matches Some(n) ==> n <= i32::MAX ==> (r.max_completion_tokens matches Some(
            k,
        ) && k == n),
{
}

/// A new session holds its instructions as what the system says, and nothing else.
pub proof fn law_new_session_holds_instructions(
    s: Session,
    response_id: String,
    model: String,
    instructions: Option<String>,
    at: i64,
)
    requires
        s.is_new(response_id, model, instructions, at),
    ensures
        s.response_id@ == response_id@,
        s.model_used@ == model@,
        s.created == at,
        instructions matches Some(t) ==> s.conversation() == seq![("system"@, t@)],
        instructions is None ==> s.conversation().len() == 0,
{
    let m = s.messages@;
    match instructions {
        None => {
            assert(m.dom() =~= Set::<Seq<char>>::empty());
        },
        Some(t) => {
            let x = choose|x: SessionMessage|
                m == #[trigger] Map::<Seq<char>, SessionMessage>::empty().insert("0"@, x)
                    && x.role@ == "system"@ && x.content == t && x.tokens == 0 && x.created_at == at
                    && x.response_time is None && x.response_id is None;
            assert(m.dom() =~= Set::<Seq<char>>::empty().insert("0"@));
            assert(m.dom().len() == 1);
            reveal_strlit("0");
            assert(decimal(0) =~= "0"@);
            reveal_with_fuel(history, 2);
            assert(history(m, 1) =~= seq![("system"@, t@)]);
        },
    }
}

// ---------------------------------------------------------------------------
// What the client gets
// ---------------------------------------------------------------------------

/// A reply holds the text of the answer, once as its only item and once by itself, under
/// its identifier and with the model; its tokens add up.
pub proof fn law_reply_holds_the_answer(
    req: ResponseRequest,
    response_id: String,
    text: String,
    user_tokens: i32,
    warnings: Vec<String>,
    r: ResponseReply,
)
    requires
        is_final_reply(req, response_id, text, user_tokens, warnings, r),
    ensures
        r.id@ == response_id@,
        r.model@ == req.model@,
        r.status@ == "completed"@,
        r.object@ == "response"@,
        r.output@.len() == 1,
        r.output@[0].item_type@ == "message"@,
        r.output@[0].role@ == "assistant"@,
        r.output@[0].content@.len() == 1,
        r.output@[0].content@[0].content_type@ == "output_text"@,
        r.output@[0].content@[0].text@ == text@,
        r.output_text matches Some(t) && t@ == text@,
        r.usage.input_tokens == user_tokens,
        r.usage.total_tokens == r.usage.input_tokens + r.usage.output_tokens,
        r.previous_response_id == req.previous_response_id,
        r.metadata == req.metadata,
        r.instructions == req.instructions,
        r.modalities == req.modalities,
        r.response_format == req.response_format,
        r.error is None,
        warnings@.len() == 0 <==> r.warnings is None,
        r.warnings matches Some(w) ==> w == warnings,
{
}

/// Errors have the status of their kind, and tell their message.
pub proof fn law_errors_have_their_status(m: String)
    ensures
        ResponseError::InvalidInput(m).status() == 400,
        ResponseError::SessionNotFound(m).status() == 404,
        ResponseError::DatabaseError(m).status() == 500,
        ResponseError::ChatBackendError(m).status() == 502,
        ResponseError::InvalidInput(m).words() == m@,
        ResponseError::SessionNotFound(m).words() == m@,
        ResponseError::DatabaseError(m).words() == m@,
        ResponseError::ChatBackendError(m).words() == m@,
{
}

/// The client gets the text that the server answered with, and of a failure what the
/// server or the connection said.
pub proof fn law_outcome_tells_what_was_said(t: String)
    ensures
        backend_outcome(BackendReply::Answered(Some(t))) == Ok::<Seq<char>, Seq<char>>(t@),
        backend_outcome(BackendReply::Answered(None)) == Ok::<Seq<char>, Seq<char>>(
            "No response content"@,
        ),
        backend_outcome(BackendReply::NoServer) == Err::<Seq<char>, Seq<char>>(
            "No chat server available"@,
        ),
        backend_outcome(BackendReply::Unavailable(t)) matches Err(m) && has_text(m, t@),
        backend_outcome(BackendReply::NotSent(t)) matches Err(m) && has_text(m, t@) && has_text(
            m,
            "Request failed: "@,
        ),
        backend_outcome(BackendReply::Refused(Some(t))) matches Err(m) && has_text(m, t@)
            && has_text(m, "Chat API Error: "@),
        backend_outcome(BackendReply::Refused(None)) matches Err(m) && has_text(m, "Unknown error"@),
        backend_outcome(BackendReply::Unreadable(t)) matches Err(m) && has_text(m, t@) && has_text(
            m,
            "Failed to parse response: "@,
        ),
{
    lemma_has_end("Failed to get chat server: "@, t@);
    lemma_has_end("Request failed: "@, t@);
    lemma_has_start("Request failed: "@, t@);
    lemma_has_end("Chat API Error: "@, t@);
    lemma_has_start("Chat API Error: "@, t@);
    lemma_has_end("Chat API Error: "@, "Unknown error"@);
    lemma_has_end("Failed to parse response: "@, t@);
    lemma_has_start("Failed to parse response: "@, t@);
}

// ---------------------------------------------------------------------------
// Which requests are refused, and what is said of the others
// ---------------------------------------------------------------------------

/// A request is served if it names a model and asks something, its temperature is between
/// 0 and 2 and its `top_p` between 0 and 1 (as bits of single precision, minus zero among
/// them), it wants at least one token, and does not want a stream; and no other is.
pub proof fn law_requests_that_are_served(req: ResponseRequest)
    ensures
        first_error(req) is None <==> {
            &&& trimmed(req.model@).len() > 0
            &&& trimmed(req.input@).len() > 0
            &&& (req.temperature matches Some(t) ==> t <= 0x4000_0000 || t == 0x8000_0000)
            &&& (req.top_p matches Some(t) ==> t <= 0x3f80_0000 || t == 0x8000_0000)
            &&& (req.max_output_tokens matches Some(n) ==> n > 0)
            &&& (req.stream matches Some(b) ==> !b)
        },
        trimmed(req.model@).len() == 0 ==> first_error(req) == Some("Model name cannot be empty"@),
        trimmed(req.model@).len() > 0 && trimmed(req.input@).len() == 0 ==> first_error(req)
            == Some("Input message cannot be empty"@),
        trimmed(req.model@).len() > 0 && trimmed(req.input@).len() > 0 ==> {
            &&& (req.temperature matches Some(t) && 0x4000_0000 < t < 0x8000_0000 ==> first_error(req)
                == Some("Temperature must be between 0.0 and 2.0"@))
            &&& (req.temperature is None && (req.top_p matches Some(t) && 0x3f80_0000 < t
                < 0x8000_0000) ==> first_error(req) == Some("top_p must be between 0.0 and 1.0"@))
            &&& (req.temperature is None && req.top_p is None && req.max_output_tokens == Some(0u32)
                ==> first_error(req) == Some("max_output_tokens must be positive"@))
            &&& (req.temperature is None && req.top_p is None && req.max_output_tokens is None
                && req.stream == Some(true) ==> first_error(req) == Some(
                "Streaming not yet implemented"@,
            ))
        },
{
}

/// 1 where it holds, 0 where not.
pub open spec fn one_if(b: bool) -> nat {
    if b {
        1
    } else {
        0
    }
}

/// A request gets one warning for each thing in it that is not supported, and no other.
pub proof fn law_one_warning_each(req: ResponseRequest)
    ensures
        request_warnings(req).len() == one_if(req.modalities is Some) + one_if(
            req.reasoning is Some,
        ) + one_if(req.response_format is Some) + one_if(req.tool_resources is Some) + one_if(
            req.attachments is Some,
        ),
        req.modalities is Some ==> request_warnings(req).contains(
            "Multiple modalities not yet fully supported"@,
        ),
        req.reasoning is Some ==> request_warnings(req).contains(
            "Reasoning enhancements not yet supported by backend"@,
        ),
        req.response_format is Some ==> request_warnings(req).contains(
            "Custom response formats not yet fully supported"@,
        ),
        req.tool_resources is Some ==> request_warnings(req).contains(
            "Tool resources not yet fully supported"@,
        ),
        req.attachments is Some ==> request_warnings(req).contains(
            "Attachments not yet fully supported"@,
        ),
{
    let n0 = 0int;
    let n1 = n0 + one_if(req.modalities is Some);
    let n2 = n1 + one_if(req.reasoning is Some);
    let n3 = n2 + one_if(req.response_format is Some);
    let n4 = n3 + one_if(req.tool_resources is Some);
    let w = request_warnings(req);
    if req.modalities is Some {
        assert(w[n0] == "Multiple modalities not yet fully supported"@);
    }
    if req.reasoning is Some {
        assert(w[n1] == "Reasoning enhancements not yet supported by backend"@);
    }
    if req.response_format is Some {
        assert(w[n2] == "Custom response formats not yet fully supported"@);
    }
    if req.tool_resources is Some {
        assert(w[n3] == "Tool resources not yet fully supported"@);
    }
    if req.attachments is Some {
        assert(w[n4] == "Attachments not yet fully supported"@);
    }
}

/// The warnings of the check stay in front; tools give two more, of which the first says
/// how many there are, and the choice of a tool one more.
pub proof fn law_tools_are_warned_of(req: ResponseRequest)
    ensures
        ({
            let w = request_warnings(req);
            let all = all_warnings(req);
            let n = match req.tools {
                Some(t) => t@.len(),
                None => 0,
            };
            &&& all.len() == w.len() + 2 * one_if(n > 0) + one_if(req.tool_choice is Some)
            &&& all.take(w.len() as int) == w
            &&& n > 0 ==> has_text(all[w.len() as int], decimal(n)) && has_text(
                all[w.len() as int],
                "User-supplied tools ("@,
            ) && all[w.len() as int + 1]
                == "User-supplied tools are not yet fully integrated with chat backend"@
            &&& req.tool_choice is Some ==> all.last()
                == "Tool choice specification not yet fully supported"@
        }),
{
    let w = request_warnings(req);
    let n = match req.tools {
        Some(t) => t@.len(),
        None => 0,
    };
    assert(all_warnings(req).take(w.len() as int) =~= w);
    let head = "User-supplied tools ("@;
    let tail = ") will be appended after MCP tools"@;
    lemma_has_middle(head, decimal(n), tail);
    lemma_has_start(head, decimal(n));
    lemma_has_start(head + decimal(n), tail);
    lemma_text_in_text(tools_warning(n), head + decimal(n), head);
}

/// A conflict is a tool of the request that has the name of an MCP tool, the first such.
pub proof fn law_conflict_is_a_shared_name(tools: Seq<ToolDefinition>, names: Seq<String>)
    ensures
        match conflict(tools, names) {
            Some(n) => (exists|k: int| 0 <= k < names.len() && (#[trigger] names[k])@ == n)
                && exists|i: int|
                0 <= i < tools.len() && ((#[trigger] tools[i]).function matches Some(f) && f.name@
                    == n),
            None => forall|i: int, k: int|
                0 <= i < tools.len() && 0 <= k < names.len() ==> ((
                #[trigger] tools[i]).function matches Some(f) ==> f.name@ != (
                #[trigger] names[k])@),
        },
    decreases tools.len(),
{
    if tools.len() > 0 {
        let t = tools.drop_last();
        law_conflict_is_a_shared_name(t, names);
        match conflict(tools, names) {
            Some(n) => {
                if conflict(t, names) is Some {
                    let i = choose|i: int|
                        0 <= i < t.len() && ((#[trigger] t[i]).function matches Some(f) && f.name@
                            == n);
                    assert(tools[i] == t[i]);
                } else {
                    assert(tools[tools.len() - 1] == tools.last());
                }
            },
            None => {
                assert forall|i: int, k: int|
                    0 <= i < tools.len() && 0 <= k < names.len() implies ((
                #[trigger] tools[i]).function matches Some(f) ==> f.name@ != (
                #[trigger] names[k])@) by {
                    if i < t.len() {
                        assert(t[i] == tools[i]);
                    } else {
                        assert(tools[i] == tools.last());
                    }
                }
            },
        }
    }
}

/// A tool with the name of an MCP tool is refused, with its name in the message; without
/// such a tool nothing is.
pub proof fn law_shared_names_are_refused(
    tools: Vec<ToolDefinition>,
    names: Seq<String>,
    r: Result<Vec<String>, ResponseError>,
)
    requires
        is_tool_verdict(Some(tools), names, r),
    ensures
        r is Err <==> exists|i: int, k: int|
            0 <= i < tools@.len() && 0 <= k < names.len() && ((
            #[trigger] tools@[i]).function matches Some(f) && f.name@ == (#[trigger] names[k])@),
        r matches Err(e) ==> e.status() == 400 && exists|k: int|
            0 <= k < names.len() && has_text(e.words(), (#[trigger] names[k])@),
        r matches Ok(v) ==> v@.len() == one_if(tools@.len() > 0),
{
    law_conflict_is_a_shared_name(tools@, names);
    if let Some(n) = conflict(tools@, names) {
        let i = choose|i: int|
            0 <= i < tools@.len() && ((#[trigger] tools@[i]).function matches Some(f) && f.name@
                == n);
        let k = choose|k: int| 0 <= k < names.len() && (#[trigger] names[k])@ == n;
        assert(tools@[i].function matches Some(f) && f.name@ == names[k]@);
        lemma_has_middle("Tool name '"@, n, "' conflicts with existing MCP tool"@);
        assert(has_text((r->Err_0).words(), names[k]@));
    } else {
        if let Ok(v) = r {
            assert(texts(v@).len() == v@.len());
        }
    }
}

// ---------------------------------------------------------------------------
// What else is kept
// ---------------------------------------------------------------------------

proof fn lemma_entry_kept(s: Seq<char>, key: Seq<char>, v: Option<String>, p: Seq<char>)
    requires
        has_text(s, p),
    ensures
        has_text(with_entry(s, key, v), p),
{
    if let Some(t) = v {
        let rest = with_entry(s, key, v).skip(s.len() as int);
        assert(with_entry(s, key, v) =~= s + rest);
        lemma_has_start(s, rest);
        lemma_text_in_text(with_entry(s, key, v), s, p);
    }
}

proof fn lemma_entry_there(s: Seq<char>, key: Seq<char>, v: String)
    ensures
        has_text(with_entry(s, key, Some(v)), "\""@ + key + "\":"@ + v@),
{
    let head = if s.len() == 0 {
        s
    } else {
        s + ","@
    };
    let e = "\""@ + key + "\":"@ + v@;
    assert(with_entry(s, key, Some(v)) =~= head + e);
    lemma_has_end(head, e);
}

/// Each thing that is kept stands under its name.
pub proof fn law_extended_data_kept(d: ExtendedData)
    ensures
        d.attachments matches Some(v) ==> has_text(
            extended_entries(d),
            "\""@ + "attachments"@ + "\":"@ + v@,
        ),
        d.metadata matches Some(v) ==> has_text(
            extended_entries(d),
            "\""@ + "metadata"@ + "\":"@ + v@,
        ),
        d.tool_resources matches Some(v) ==> has_text(
            extended_entries(d),
            "\""@ + "tool_resources"@ + "\":"@ + v@,
        ),
{
    let a = with_entry(Seq::empty(), "attachments"@, d.attachments);
    let b = with_entry(a, "metadata"@, d.metadata);
    if let Some(v) = d.attachments {
        let p = "\""@ + "attachments"@ + "\":"@ + v@;
        lemma_entry_there(Seq::empty(), "attachments"@, v);
        lemma_entry_kept(a, "metadata"@, d.metadata, p);
        lemma_entry_kept(b, "tool_resources"@, d.tool_resources, p);
    }
    if let Some(v) = d.metadata {
        let p = "\""@ + "metadata"@ + "\":"@ + v@;
        lemma_entry_there(a, "metadata"@, v);
        lemma_entry_kept(b, "tool_resources"@, d.tool_resources, p);
    }
    if let Some(v) = d.tool_resources {
        lemma_entry_there(b, "tool_resources"@, v);
    }
}

// ---------------------------------------------------------------------------
// Sandboxes and stored sessions
// ---------------------------------------------------------------------------

/// What a command writes comes back in order, the output and the errors apart.
pub proof fn law_pieces_are_collected(s: Seq<OutputPiece>, t: String)
    ensures
        written_out(s.push(OutputPiece::StdOut(t))) == written_out(s) + t@,
        written_err(s.push(OutputPiece::StdOut(t))) == written_err(s),
        written_err(s.push(OutputPiece::StdErr(t))) == written_err(s) + t@,
        written_out(s.push(OutputPiece::StdErr(t))) == written_out(s),
        written_out(Seq::empty()).len() == 0,
        written_err(Seq::empty()).len() == 0,
{
    assert(s.push(OutputPiece::StdOut(t)).drop_last() =~= s);
    assert(s.push(OutputPiece::StdErr(t)).drop_last() =~= s);
}

/// A sandbox is idle once the time since its last use is at least the limit.
pub proof fn law_idle_by_the_clock(e: SandboxEntry, limit: Elapsed, at: Timestamp)
    requires
        e.last_used.nanos < 1_000_000_000,
        at.nanos < 1_000_000_000,
        limit.total() > 0,
        at.secs - e.last_used.secs <= u64::MAX,
    ensures
        is_idle(e, limit, at) <==> at.total() - e.last_used.total() >= limit.total(),
{
    crate::chat::plan_laws::law_span_leads_from_start_to_end(e.last_used, at);
}

/// The sessions that count as idle are those whose sandbox is, and no others.
pub proof fn law_idle_sessions_are_found(
    s: Seq<(String, SandboxEntry)>,
    limit: Elapsed,
    at: Timestamp,
    id: String,
)
    ensures
        idle_in(s, limit, at).contains(id) <==> exists|i: int|
            0 <= i < s.len() && (#[trigger] s[i]).0 == id && is_idle(s[i].1, limit, at),
    decreases s.len(),
{
    if s.len() > 0 {
        let t = s.drop_last();
        law_idle_sessions_are_found(t, limit, at, id);
        let all = idle_in(s, limit, at);
        let before = idle_in(t, limit, at);
        let n = s.len() - 1;
        assert(s[n] == s.last());
        if all.contains(id) {
            let k = choose|k: int| 0 <= k < all.len() && all[k] == id;
            if k < before.len() {
                assert(before[k] == id);
                let i = choose|i: int|
                    0 <= i < t.len() && (#[trigger] t[i]).0 == id && is_idle(t[i].1, limit, at);
                assert(s[i] == t[i]);
            }
        }
        if exists|i: int|
            0 <= i < s.len() && (#[trigger] s[i]).0 == id && is_idle(s[i].1, limit, at) {
            let i = choose|i: int|
                0 <= i < s.len() && (#[trigger] s[i]).0 == id && is_idle(s[i].1, limit, at);
            if i < n {
                assert(t[i] == s[i]);
                let k = choose|k: int| 0 <= k < before.len() && before[k] == id;
                assert(all[k] == id);
            } else {
                assert(all[before.len() as int] == id);
            }
        }
    }
}

/// Of two numbers the greater one is taken.
pub proof fn law_at_least_the_least(n: u64, least: u64)
    ensures
        at_least(n, least) >= n,
        at_least(n, least) >= least,
        at_least(n, least) == n || at_least(n, least) == least,
{
}

/// An error of the interpreter tells what went wrong.
pub proof fn law_interpreter_errors_tell(m: String)
    ensures
        CodeInterpreterError::DockerUnavailable(m).words() == "Docker is unavailable: "@ + m@,
        CodeInterpreterError::Sandbox(m).words() == "Failed to manage sandbox: "@ + m@,
        CodeInterpreterError::Execution(m).words() == "Failed to execute code: "@ + m@,
        CodeInterpreterError::Timeout.words() == "Code execution timed out"@,
        CodeInterpreterError::Pool(m).words() == "Failed to acquire sandbox slot: "@ + m@,
{
}

/// The session of a reply is the first one that holds the reply, if there is one.
pub proof fn law_session_of_a_reply(s: Seq<Session>, id: Seq<char>)
    ensures
        match session_of(s, id) {
            Some(i) => 0 <= i < s.len() && holds_reply(s[i], id) && forall|j: int|
                0 <= j < i ==> !holds_reply(#[trigger] s[j], id),
            None => forall|j: int| 0 <= j < s.len() ==> !holds_reply(#[trigger] s[j], id),
        },
    decreases s.len(),
{
    if s.len() > 0 {
        let t = s.drop_last();
        law_session_of_a_reply(t, id);
        assert(s[s.len() - 1] == s.last());
        assert forall|j: int| 0 <= j < t.len() implies #[trigger] s[j] == t[j] by {}
    }
}

/// The tokens of messages are added up.
pub proof fn law_tokens_are_added_up(s: Seq<(String, SessionMessage)>, e: (String, SessionMessage))
    ensures
        token_sum(s.push(e)) == token_sum(s) + e.1.tokens,
        token_sum(Seq::empty()) == 0,
{
    assert(s.push(e).drop_last() =~= s);
}

/// A question and an answer are kept with their time and an estimate of their tokens; an
/// answer also with the reply that it belongs to, a question with none.
pub proof fn law_messages_are_dated(
    req: ResponseRequest,
    text: Seq<char>,
    id: Seq<char>,
    at: i64,
    m: SessionMessage,
)
    ensures
        question(req, at, m) ==> m.created_at == at && m.tokens == token_estimate(req.input@)
            && m.response_id is None && m.role@ == "user"@ && m.content@ == req.input@,
        answer(text, id, at, m) ==> m.created_at == at && m.tokens == token_estimate(text) && (
        m.response_id matches Some(r) && r@ == id) && m.role@ == "assistant"@ && m.content@ == text,
{
}

/// The tokens of a reply are those estimated of its text.
pub proof fn law_reply_counts_its_text(
    req: ResponseRequest,
    response_id: String,
    text: String,
    user_tokens: i32,
    warnings: Vec<String>,
    r: ResponseReply,
)
    requires
        is_final_reply(req, response_id, text, user_tokens, warnings, r),
        encode_utf8(text@).len() <= 16_777_216,
    ensures
        4 * (r.usage.output_tokens - 1) < encode_utf8(text@).len() <= 4 * r.usage.output_tokens,
{
    lemma_single_small(encode_utf8(text@).len());
}

/// Code is handed to Python as it is, as the last word of the command.
pub proof fn law_code_is_run_as_it_is(code: Seq<char>, cmd: Seq<String>)
    requires
        is_python_run(code, cmd),
    ensures
        cmd.len() == 4,
        cmd[0]@ == "python3"@,
        cmd[1]@ == "-u"@,
        cmd[2]@ == "-c"@,
        cmd.last()@ == code,
{
    let t = texts(cmd);
    assert(t.len() == cmd.len());
    assert(t[0] == cmd[0]@ && t[1] == cmd[1]@ && t[2] == cmd[2]@ && t[3] == cmd[3]@);
}

/// All the packages are installed, by their names.
pub proof fn law_all_packages_are_installed(packages: Seq<String>, cmd: Seq<String>)
    requires
        is_install(packages, cmd),
    ensures
        cmd.len() == packages.len() + 3,
        cmd[0]@ == "pip"@,
        cmd[1]@ == "install"@,
        forall|i: int| 0 <= i < packages.len() ==> (#[trigger] cmd[i + 3])@ == packages[i]@,
{
    let t = texts(cmd);
    assert(t.len() == cmd.len());
    assert(texts(packages).len() == packages.len());
    assert(t[0] == cmd[0]@ && t[1] == cmd[1]@);
    assert forall|i: int| 0 <= i < packages.len() implies (#[trigger] cmd[i + 3])@
        == packages[i]@ by {
        assert(t[i + 3] == cmd[i + 3]@);
        assert(texts(packages)[i] == packages[i]@);
    }
}

/// The container of a session has its name, no network, and the limits of the settings.
pub proof fn law_sandbox_is_closed(s: CodeInterpreterSettings, id: Seq<char>, p: SandboxPlan)
    requires
        is_sandbox_for(s, id, p),
        s.memory_limit_mb * 1024 * 1024 <= i64::MAX,
    ensures
        p.name@ == "nexus-ci-"@ + id,
        p.image@ == s.docker_image@,
        p.network_mode@ == "none"@,
        p.memory == s.memory_limit_mb * 1_048_576,
        p.nano_cpus * 100 == s.cpu_percent * 1_000_000_000,
        p.auto_remove,
{
}

/// A run that ended gives what it wrote and its exit code, 0 where none is known; one that
/// took too long or failed gives the error.
pub proof fn law_run_gives_what_it_wrote(
    end: RunEnd,
    r: Result<ExecutionResult, CodeInterpreterError>,
)
    requires
        is_run_result(end, r),
    ensures
        end is TimedOut ==> (r matches Err(e) && e is Timeout),
        end matches RunEnd::Failed(m) ==> (r matches Err(CodeInterpreterError::Execution(t)) && t@
            == m@),
        end matches RunEnd::Ended(p, c) ==> (r matches Ok(x) && x.stdout@ == written_out(p@)
            && x.stderr@ == written_err(p@) && (c matches Some(n) ==> x.exit_code == n) && (c is None
            ==> x.exit_code == 0)),
{
}

/// Settings are within their bounds, and where a configuration is within them, they are what
/// it says.
pub proof fn law_settings_are_within_bounds(
    config: CodeInterpreterConfig,
    r: CodeInterpreterSettings,
)
    requires
        are_settings_of(config, r),
    ensures
        r.execution_timeout.secs >= 1,
        r.memory_limit_mb >= 64,
        1 <= r.cpu_percent <= 100,
        r.max_sessions >= 1,
        config.execution_timeout_secs >= 1 ==> r.execution_timeout.secs
            == config.execution_timeout_secs,
        config.memory_limit_mb >= 64 ==> r.memory_limit_mb == config.memory_limit_mb,
        1 <= config.cpu_percent <= 100 ==> r.cpu_percent == config.cpu_percent,
        config.max_sessions >= 1 ==> r.max_sessions == config.max_sessions,
        r.idle_timeout.secs == config.idle_timeout_secs,
        r.docker_image@ == config.docker_image@,
        r.preload_packages@ == config.preload_packages@,
{
}

/// Pairs are told as they are: who spoke, and what was said.
pub proof fn law_pairs_are_told_as_they_are(s: Seq<(String, String)>, i: int)
    requires
        0 <= i < s.len(),
    ensures
        pair_views(s).len() == s.len(),
        pair_views(s)[i].0 == s[i].0@,
        pair_views(s)[i].1 == s[i].1@,
{
}

} // verus!
