//! What holds of conversations in memory, from what goes in to what the model gets.

use super::manager::{
    are_model_calls, are_model_messages, fitting, is_kept_message, is_later, is_model_message, is_new_conversation, is_of_user, kept,
    latest, lemma_estimates_skip, leaves, message_tokens, over_limit, staying, token_estimates,
    updated, with_message, CompleteChatMemory, ContextModel, MemoryConfig,
};
use super::summarizer::{
    all_lines, call_line, call_lines, match_count, message_lines, prompt_head, summary_prompt,
    summary_spec, SUMMARY_REQUEST,
};
use super::types::{
    ContextMemory, MemoryError, MessageRole, ModelMessage, ModelToolCall, StoredConversation,
    StoredMessage, StoredToolCall,
};
use crate::clock::Timestamp;
use crate::gateway_laws::law_single_is_close;
use crate::pattern::opt_text;
use crate::single::single;
use crate::sum::sum;
use crate::text::{
    begins_with, decimal, has_text, lemma_has_end, lemma_has_middle, lemma_has_start,
    lemma_has_within, lemma_text_in_text, occurs_at,
};
use vstd::prelude::*;
use vstd::string::*;
use vstd::utf8::encode_utf8;

verus! {

// ---------------------------------------------------------------------------
// From memory to the model
// ---------------------------------------------------------------------------

/// Tool calls survive the way from memory to the model: as many as were stored, each with
/// its identifier, its name and its arguments.
pub proof fn law_calls_reach_the_model(s: Seq<StoredToolCall>, r: Seq<ModelToolCall>, i: int)
    requires
        are_model_calls(s, r),
        0 <= i < s.len(),
    ensures
        r.len() == s.len(),
        r[i].id@ == s[i].id@,
        r[i].ty@ == "function"@,
        r[i].function.name@ == s[i].name@,
        r[i].function.arguments@ == s[i].arguments@,
{
}

/// What a tool was asked makes a difference: stored calls that differ in their identifier,
/// their name or their arguments give calls that differ in the same.
pub proof fn law_calls_make_a_difference(
    s1: Seq<StoredToolCall>,
    r1: Seq<ModelToolCall>,
    s2: Seq<StoredToolCall>,
    r2: Seq<ModelToolCall>,
    i: int,
)
    requires
        are_model_calls(s1, r1),
        are_model_calls(s2, r2),
        0 <= i < s1.len(),
        0 <= i < s2.len(),
    ensures
        s1[i].arguments@ != s2[i].arguments@ ==> r1[i].function.arguments@
            != r2[i].function.arguments@,
        s1[i].name@ != s2[i].name@ ==> r1[i].function.name@ != r2[i].function.name@,
        s1[i].id@ != s2[i].id@ ==> r1[i].id@ != r2[i].id@,
{
    assert(r1[i].id@ == s1[i].id@);
    assert(r2[i].id@ == s2[i].id@);
}

/// The name by which a model knows a role.
pub open spec fn model_role(role: MessageRole) -> Seq<char> {
    if role == MessageRole::User {
        "user"@
    } else if role == MessageRole::Assistant {
        "assistant"@
    } else if role == MessageRole::System {
        "system"@
    } else {
        "tool"@
    }
}

/// Every working message reaches the model, in order and last: who said it, what was said,
/// and the tool calls in it, of which each keeps its name and its arguments.
pub proof fn law_messages_reach_the_model(c: ContextMemory, r: Seq<ModelMessage>, j: int)
    requires
        are_model_messages(c, r),
        0 <= j < c.working_messages@.len(),
    ensures
        ({
            let m = c.working_messages@[j];
            let x = r[r.len() - c.working_messages@.len() + j];
            &&& x.role@ == model_role(m.role)
            &&& x.content@ == m.content@
            &&& x.tool_call_id is None
            &&& m.tool_calls@.len() == 0 ==> x.tool_calls is None
            &&& m.tool_calls@.len() > 0 ==> x.tool_calls is Some && x.tool_calls->0@.len()
                == m.tool_calls@.len() && forall|i: int|
                0 <= i < m.tool_calls@.len() ==> (#[trigger] x.tool_calls->0@[i]).function.name@
                    == m.tool_calls@[i].name@ && x.tool_calls->0@[i].function.arguments@
                    == m.tool_calls@[i].arguments@ && x.tool_calls->0@[i].id@
                    == m.tool_calls@[i].id@
        }),
{
}

/// A summary reaches the model in front, as a system message that holds it; without one,
/// the model gets the working messages and nothing else.
pub proof fn law_summary_reaches_the_model(c: ContextMemory, r: Seq<ModelMessage>)
    requires
        are_model_messages(c, r),
    ensures
        match c.summary {
            Some(s) => r.len() == c.working_messages@.len() + 1 && r[0].role@ == "system"@
                && has_text(r[0].content@, s@) && begins_with(
                r[0].content@,
                "Previous conversation summary: "@,
            ) && r[0].content@.len() == 31 + s@.len(),
            None => r.len() == c.working_messages@.len(),
        },
{
    reveal_strlit("Previous conversation summary: ");
    if let Some(s) = c.summary {
        let head = "Previous conversation summary: "@;
        lemma_has_end(head, s@);
        assert((head + s@).subrange(0, head.len() as int) =~= head);
    }
}

// ---------------------------------------------------------------------------
// What stays at hand
// ---------------------------------------------------------------------------

/// The estimate for a message is a quarter of its bytes, rounded down, and a hundred for
/// each tool call.
pub proof fn law_tokens_of_a_message(m: StoredMessage)
    requires
        encode_utf8(m.content@).len() <= usize::MAX,
    ensures
        ({
            let t = message_tokens(m) - 100 * m.tool_calls@.len();
            4 * t <= encode_utf8(m.content@).len() < 4 * t + 4
        }),
{
}

/// What may stay of a context is a fifth of its window, but for the roundings of single
/// precision, each of at most one part in 2 to the 24th, and of the division.
pub proof fn law_a_fifth_may_stay(config: MemoryConfig)
    ensures
        16_777_216 * (5 * config.target()) <= 16_777_217 * config.context_window,
        16_777_213 * config.context_window <= 16_777_216 * (5 * (config.target() + 1)),
{
    let w = config.context_window as nat;
    let s = single(w);
    let p = single(s * 3_355_443);
    law_single_is_close(w);
    law_single_is_close(s * 3_355_443);
    let t = config.target();
    assert(t == p / 16_777_216);
    assert(16_777_216 * t <= p < 16_777_216 * (t + 1));
}

/// Within its limits a context keeps all its messages and its summary, and the new message
/// comes last.
pub proof fn law_nothing_leaves_within_limits(c: ContextModel, m: StoredMessage, config: MemoryConfig)
    requires
        sum(token_estimates(c.messages.push(m))) <= c.max_context_tokens,
        c.messages.len() + 1 <= config.max_stored_messages,
    ensures
        updated(c, m, config).messages == c.messages.push(m),
        updated(c, m, config).summary == c.summary,
{
}

/// Without summaries nothing ever leaves.
pub proof fn law_nothing_leaves_without_summaries(
    c: ContextModel,
    m: StoredMessage,
    config: MemoryConfig,
)
    requires
        !config.auto_summarize,
    ensures
        updated(c, m, config).messages == c.messages.push(m),
        updated(c, m, config).summary == c.summary,
{
}

/// Over a limit a context that is summarised holds its last messages and none of the
/// others, and where some left, a summary of those.
pub proof fn law_last_messages_stay(c: ContextModel, m: StoredMessage, config: MemoryConfig)
    ensures
        ({
            let all = c.messages.push(m);
            let left = updated(c, m, config).messages;
            &&& left.len() <= all.len()
            &&& left == all.skip(all.len() - left.len())
            &&& left.len() < all.len() ==> updated(c, m, config).summary == Some(
                summary_spec(all.take(all.len() - left.len()), None),
            )
            &&& left.len() == all.len() ==> updated(c, m, config).summary == c.summary
        }),
{
    let d = with_message(c, m);
    super::manager::law_recent_messages_stay(d, config);
    let all = c.messages.push(m);
    if over_limit(d, config) && leaves(d, config) {
        assert(staying(d, config).len() == kept(all, config));
    } else {
        assert(all.skip(0) =~= all);
    }
}

/// As many messages stay as fit: where more than the least number stay, or fewer than all,
/// the next older one would go beyond the tokens that may stay or the number of messages.
pub proof fn law_as_many_as_fit_stay(s: Seq<StoredMessage>, config: MemoryConfig)
    requires
        kept(s, config) < s.len(),
    ensures
        ({
            let k = kept(s, config) as int;
            ||| sum(token_estimates(s.skip(s.len() - k - 1))) > config.target()
            ||| k >= config.max_stored_messages
        }),
{
    let n = s.len() as int;
    let fit = fitting(s, config.target(), config.max_stored_messages as nat, 0, 0);
    lemma_fitting_stops(s, config.target(), config.max_stored_messages as nat, 0, 0);
    let k = kept(s, config) as int;
    if fit < config.max_stored_messages {
        let a = s.skip(n - fit - 1);
        let b = s.skip(n - k - 1);
        assert(b =~= s.subrange(n - k - 1, n - fit - 1) + a);
        lemma_estimates_skip(b, k - fit);
        assert(b.skip(k - fit) =~= a);
    }
}

proof fn lemma_fitting_stops(s: Seq<StoredMessage>, target: nat, max: nat, used: nat, count: nat)
    ensures
        ({
            let f = fitting(s, target, max, used, count) - count;
            &&& 0 <= f <= s.len()
            &&& f < s.len() ==> used + sum(token_estimates(s.skip(s.len() - f - 1))) > target
                || count + f >= max
        }),
    decreases s.len(),
{
    if s.len() > 0 {
        let x = message_tokens(s.last());
        let t = s.drop_last();
        if used + x <= target && count < max {
            lemma_fitting_stops(t, target, max, used + x, count + 1);
            let f = fitting(t, target, max, used + x, count + 1) - (count + 1);
            if f < t.len() {
                let a = s.skip(s.len() - (f + 1) - 1);
                let b = t.skip(t.len() - f - 1);
                assert(a.drop_last() =~= b);
                assert(token_estimates(a).drop_last() =~= token_estimates(b));
                assert(a.last() == s.last());
            }
        } else {
            let a = s.skip(s.len() - 1);
            assert(a =~= seq![s.last()]);
            assert(token_estimates(a) =~= seq![x]);
            assert(seq![x].drop_last() =~= Seq::<nat>::empty());
            reveal_with_fuel(sum, 2);
        }
    }
}

/// What is recalled of a stored conversation are its last messages, as many as may be at
/// hand, in order.
pub proof fn law_latest_are_the_last(s: Seq<StoredMessage>, most: nat)
    ensures
        latest(s, most).len() == if s.len() < most {
            s.len()
        } else {
            most
        },
        latest(s, most) == s.skip(s.len() - latest(s, most).len()),
{
    assert(s.skip(0) =~= s);
}

/// A new conversation has nothing in its context, and a stored one what is recalled of it;
/// the contexts of other conversations stay as they are.
pub proof fn law_contexts_begin_and_return(
    before: CompleteChatMemory,
    begun: CompleteChatMemory,
    recalled: CompleteChatMemory,
    id: Seq<char>,
    summary: Option<Seq<char>>,
    messages: Seq<StoredMessage>,
    other: Seq<char>,
)
    requires
        begun.begun(before, id),
        recalled.recalled(before, id, summary, messages),
        other != id,
    ensures
        begun.context_cache@.dom().contains(id),
        begun.context_cache@[id].working_messages@.len() == 0,
        begun.context_cache@[id].summary is None,
        begun.context_cache@[id].max_context_tokens == before.config.context_window,
        recalled.context_cache@.dom().contains(id),
        before.context_cache@.dom().contains(id) ==> recalled.context_cache@[id]
            == before.context_cache@[id],
        !before.context_cache@.dom().contains(id) ==> recalled.context_cache@[id].working_messages@
            == messages && opt_text(recalled.context_cache@[id].summary) == summary
            && recalled.context_cache@[id].max_context_tokens == before.config.context_window,
        begun.context_cache@.dom().contains(other) <==> before.context_cache@.dom().contains(other),
        recalled.context_cache@.dom().contains(other) <==> before.context_cache@.dom().contains(
            other,
        ),
        before.context_cache@.dom().contains(other) ==> begun.context_cache@[other]
            == before.context_cache@[other] && recalled.context_cache@[other]
            == before.context_cache@[other],
{
    let c = choose|c: ContextMemory|
        begun.context_cache@ == #[trigger] before.context_cache@.insert(id, c) && c.model() == (
        ContextModel {
            conversation_id: id,
            messages: Seq::empty(),
            summary: None,
            total_tokens: 0,
            max_context_tokens: before.config.context_window as nat,
        });
    assert(begun.context_cache@[id] == c);
    assert(c.working_messages@ == c.model().messages);
    assert(opt_text(c.summary) == c.model().summary);
    assert(c.max_context_tokens as nat == c.model().max_context_tokens);
    if !before.context_cache@.dom().contains(id) {
        let d = choose|d: ContextMemory|
            recalled.context_cache@ == #[trigger] before.context_cache@.insert(id, d) && d.model()
                == (ContextModel {
                conversation_id: id,
                messages,
                summary,
                total_tokens: 0,
                max_context_tokens: before.config.context_window as nat,
            });
        assert(recalled.context_cache@[id] == d);
        assert(d.working_messages@ == d.model().messages);
        assert(opt_text(d.summary) == d.model().summary);
        assert(d.max_context_tokens as nat == d.model().max_context_tokens);
    }
}

/// The record of a new conversation names its user, its model and its title, and says that
/// nothing was said yet.
pub proof fn law_new_conversation_is_of_its_user(
    r: StoredConversation,
    id: Seq<char>,
    model_name: Seq<char>,
    user_id: Option<String>,
    title: Option<String>,
    at: Timestamp,
)
    requires
        is_new_conversation(r, id, model_name, user_id, title, at),
    ensures
        r.id@ == id,
        r.user_id == user_id,
        r.title == title,
        r.model_name@ == model_name,
        r.created_at == at && r.updated_at == at,
        r.message_count == 0 && r.total_tokens == 0,
        r.summary is None && r.last_summary_sequence is None,
{
}

/// Points in time are later as they are more nanoseconds away from the same beginning.
pub proof fn law_later_by_the_clock(a: Timestamp, b: Timestamp)
    requires
        a.nanos < 1_000_000_000,
        b.nanos < 1_000_000_000,
    ensures
        is_later(a, b) <==> a.secs * 1_000_000_000 + a.nanos > b.secs * 1_000_000_000 + b.nanos,
{
}

// ---------------------------------------------------------------------------
// What a summary is asked of, and what it says
// ---------------------------------------------------------------------------

proof fn lemma_line_of_message(s: Seq<StoredMessage>, j: int)
    requires
        0 <= j < s.len(),
    ensures
        has_text(all_lines(s), message_lines(s[j])),
    decreases s.len(),
{
    let before = all_lines(s.drop_last());
    if j == s.len() - 1 {
        lemma_has_end(before, message_lines(s.last()));
    } else {
        lemma_line_of_message(s.drop_last(), j);
        assert(s.drop_last()[j] == s[j]);
        lemma_has_start(before, message_lines(s.last()));
        lemma_text_in_text(all_lines(s), before, message_lines(s[j]));
    }
}

proof fn lemma_line_of_call(s: Seq<StoredToolCall>, i: int)
    requires
        0 <= i < s.len(),
    ensures
        has_text(call_lines(s), call_line(s[i])),
    decreases s.len(),
{
    let before = call_lines(s.drop_last());
    if i == s.len() - 1 {
        lemma_has_end(before, call_line(s.last()));
    } else {
        lemma_line_of_call(s.drop_last(), i);
        assert(s.drop_last()[i] == s[i]);
        lemma_has_start(before, call_line(s.last()));
        lemma_text_in_text(call_lines(s), before, call_line(s[i]));
    }
}

proof fn lemma_prompt_has_lines(s: Seq<StoredMessage>, existing: Option<Seq<char>>, j: int, p: Seq<char>)
    requires
        0 <= j < s.len(),
        has_text(message_lines(s[j]), p),
    ensures
        has_text(summary_prompt(s, existing), p),
{
    lemma_line_of_message(s, j);
    lemma_text_in_text(all_lines(s), message_lines(s[j]), p);
    lemma_has_within(prompt_head(existing), all_lines(s), SUMMARY_REQUEST@, p);
}

proof fn lemma_message_has_calls(m: StoredMessage)
    ensures
        has_text(message_lines(m), call_lines(m.tool_calls@)),
        has_text(
            message_lines(m),
            "**"@ + model_role(m.role) + ":** "@ + m.content@ + "\\n"@,
        ),
{
    let head = "**"@ + m.role.name() + ":** "@ + m.content@ + "\\n"@;
    lemma_has_middle(head, call_lines(m.tool_calls@), seq!['\n']);
    lemma_has_start(head, call_lines(m.tool_calls@));
    lemma_has_start(head + call_lines(m.tool_calls@), seq!['\n']);
    lemma_text_in_text(message_lines(m), head + call_lines(m.tool_calls@), head);
}

/// A prompt for a summary holds every message with who said it, and what came before;
/// it ends with what is asked.
pub proof fn law_prompt_holds_messages(s: Seq<StoredMessage>, existing: Option<Seq<char>>, j: int)
    requires
        0 <= j < s.len(),
    ensures
        has_text(
            summary_prompt(s, existing),
            "**"@ + model_role(s[j].role) + ":** "@ + s[j].content@ + "\\n"@,
        ),
        existing matches Some(t) ==> has_text(
            summary_prompt(s, existing),
            "Previous conversation summary:\\n"@ + t,
        ),
        existing is None ==> has_text(
            summary_prompt(s, existing),
            "Please summarize the following conversation:"@,
        ),
{
    lemma_message_has_calls(s[j]);
    lemma_prompt_has_lines(
        s,
        existing,
        j,
        "**"@ + model_role(s[j].role) + ":** "@ + s[j].content@ + "\\n"@,
    );
    lemma_has_start(prompt_head(existing), all_lines(s));
    lemma_has_start(prompt_head(existing) + all_lines(s), SUMMARY_REQUEST@);
    lemma_text_in_text(
        summary_prompt(s, existing),
        prompt_head(existing) + all_lines(s),
        prompt_head(existing),
    );
    match existing {
        Some(t) => {
            let p = "Previous conversation summary:\\n"@ + t;
            lemma_has_start(p, "\\n\\nNew messages to incorporate:\\n\\n"@);
            lemma_text_in_text(summary_prompt(s, existing), prompt_head(existing), p);
        },
        None => {
            let h = "Please summarize the following conversation:\\n\\n"@;
            reveal_strlit("Please summarize the following conversation:\\n\\n");
            reveal_strlit("Please summarize the following conversation:");
            let p = "Please summarize the following conversation:"@;
            assert(h.subrange(0, p.len() as int) =~= p);
            assert(occurs_at(h, p, 0));
            lemma_text_in_text(summary_prompt(s, existing), h, p);
        },
    }
}

/// A prompt for a summary tells of every tool that was called, and of one that failed, why.
pub proof fn law_prompt_holds_tool_calls(
    s: Seq<StoredMessage>,
    existing: Option<Seq<char>>,
    j: int,
    i: int,
)
    requires
        0 <= j < s.len(),
        0 <= i < s[j].tool_calls@.len(),
    ensures
        ({
            let c = s[j].tool_calls@[i];
            &&& has_text(summary_prompt(s, existing), "  Used tool: "@ + c.name@)
            &&& c.result matches Some(r) ==> r.success ==> has_text(
                summary_prompt(s, existing),
                "  Used tool: "@ + c.name@ + " (successful)\\n"@,
            )
            &&& c.result matches Some(r) ==> !r.success ==> (r.error matches Some(e) ==> has_text(
                summary_prompt(s, existing),
                " (failed: "@ + e@ + ")\\n"@,
            ))
        }),
{
    let c = s[j].tool_calls@[i];
    let calls = s[j].tool_calls@;
    lemma_line_of_call(calls, i);
    lemma_message_has_calls(s[j]);
    lemma_text_in_text(message_lines(s[j]), call_lines(calls), call_line(c));
    lemma_prompt_has_lines(s, existing, j, call_line(c));
    let head = "  Used tool: "@ + c.name@;
    let rest = call_line(c).skip(head.len() as int);
    assert(call_line(c) =~= head + rest);
    lemma_has_start(head, rest);
    lemma_text_in_text(summary_prompt(s, existing), call_line(c), head);
    if let Some(r) = c.result {
        if !r.success {
            if let Some(e) = r.error {
                lemma_has_end(head, " (failed: "@ + e@ + ")\\n"@);
                lemma_text_in_text(
                    summary_prompt(s, existing),
                    call_line(c),
                    " (failed: "@ + e@ + ")\\n"@,
                );
            }
        }
    }
}

/// A summary of messages in which a tool was called says so.
pub proof fn law_summary_tells_of_tools(
    s: Seq<StoredMessage>,
    existing: Option<Seq<char>>,
    j: int,
    i: int,
)
    requires
        0 <= j < s.len(),
        0 <= i < s[j].tool_calls@.len(),
    ensures
        has_text(summary_spec(s, existing), " involving tool usage"@),
        begins_with(summary_spec(s, existing), "Conversation with "@),
{
    let prompt = summary_prompt(s, existing);
    let c = s[j].tool_calls@[i];
    law_prompt_holds_tool_calls(s, existing, j, i);
    reveal_strlit("  Used tool: ");
    reveal_strlit("Used tool:");
    assert("  Used tool: "@.subrange(2, 12) =~= "Used tool:"@);
    assert(occurs_at("  Used tool: "@, "Used tool:"@, 2));
    lemma_has_start("  Used tool: "@, c.name@);
    lemma_text_in_text(prompt, "  Used tool: "@ + c.name@, "  Used tool: "@);
    lemma_text_in_text(prompt, "  Used tool: "@, "Used tool:"@);
    let n = decimal((match_count(prompt, "**"@) / 2) as nat);
    let head = "Conversation with "@ + n + " messages"@;
    lemma_has_middle(head, " involving tool usage"@, seq!['.']);
    let r = summary_spec(s, existing);
    assert(r.subrange(0, "Conversation with "@.len() as int) =~= "Conversation with "@);
}

/// A summary in which no tool was called, and no text speaks of one, does not say so; and
/// where nothing is to be summed up, what there was stays.
pub proof fn law_summary_without_tools(s: Seq<StoredMessage>, existing: Option<Seq<char>>)
    ensures
        s.len() == 0 ==> summary_spec(s, existing) == (match existing {
            Some(t) => t,
            None => ""@,
        }),
        s.len() > 0 && !has_text(summary_prompt(s, existing), "Used tool:"@) ==> exists|n: nat|
            summary_spec(s, existing) == "Conversation with "@ + #[trigger] decimal(n)
                + " messages."@,
{
    reveal_strlit("");
    reveal_strlit(" messages");
    reveal_strlit(" messages.");
    if s.len() == 0 {
        assert(""@ =~= Seq::<char>::empty());
    } else if !has_text(summary_prompt(s, existing), "Used tool:"@) {
        let n = (match_count(summary_prompt(s, existing), "**"@) / 2) as nat;
        assert(summary_spec(s, existing) =~= "Conversation with "@ + decimal(n) + " messages."@);
    }
}

// ---------------------------------------------------------------------------
// Errors
// ---------------------------------------------------------------------------

/// An error tells what kind it is of and what it speaks of.
pub proof fn law_errors_tell_their_kind(m: String)
    ensures
        MemoryError::Database(m).parts() == ("Database error: "@, m@),
        MemoryError::Serialization(m).parts() == ("Serialization error: "@, m@),
        MemoryError::Io(m).parts() == ("IO error: "@, m@),
        MemoryError::ConversationNotFound(m).parts() == ("Conversation not found: "@, m@),
        MemoryError::MessageNotFound(m).parts() == ("Message not found: "@, m@),
        MemoryError::InvalidConfig(m).parts() == ("Invalid configuration: "@, m@),
        MemoryError::SummarizationFailed(m).parts() == ("Summarization failed: "@, m@),
        MemoryError::InvalidData(m).parts() == ("Invalid data: "@, m@),
{
}

/// A conversation is one of a user if it says so by the user's identifier.
pub proof fn law_conversation_of_a_user(c: StoredConversation, user_id: Seq<char>)
    ensures
        is_of_user(c, user_id) <==> (c.user_id matches Some(u) && u@ == user_id),
{
}

/// Over a limit of tokens or of messages a context that is summarised gives up its older
/// messages: exactly those stay that may, and the tokens are those of what stays.
pub proof fn law_over_a_limit_older_leave(c: ContextModel, m: StoredMessage, config: MemoryConfig)
    requires
        config.auto_summarize,
        sum(token_estimates(c.messages.push(m))) > c.max_context_tokens || c.messages.len() + 1
            > config.max_stored_messages,
        kept(c.messages.push(m), config) < c.messages.len() + 1,
    ensures
        updated(c, m, config).messages.len() == kept(c.messages.push(m), config),
        updated(c, m, config).summary is Some,
        updated(c, m, config).total_tokens == sum(
            token_estimates(updated(c, m, config).messages),
        ),
        updated(c, m, config).conversation_id == c.conversation_id,
{
    super::manager::law_recent_messages_stay(with_message(c, m), config);
}

/// What a context holds is told as it is.
pub proof fn law_context_is_told_as_it_is(c: ContextMemory)
    ensures
        c.model().conversation_id == c.conversation_id@,
        c.model().messages == c.working_messages@,
        c.summary matches Some(s) ==> c.model().summary == Some(s@),
        c.summary is None ==> c.model().summary is None,
        c.model().total_tokens == c.total_tokens,
        c.model().max_context_tokens == c.max_context_tokens,
{
}

/// What is stored of a message reaches the model as it was said: the text under the name of
/// its role, and the calls with their arguments.
pub proof fn law_said_is_what_the_model_gets(
    m: StoredMessage,
    conv_id: Seq<char>,
    role: MessageRole,
    content: Seq<char>,
    calls: Seq<StoredToolCall>,
    sequence: i64,
    x: ModelMessage,
)
    requires
        is_kept_message(m, conv_id, role, content, calls, sequence),
        is_model_message(m, x),
    ensures
        m.conversation_id@ == conv_id,
        m.sequence == sequence,
        x.role@ == model_role(role),
        x.content@ == content,
        calls.len() == 0 <==> x.tool_calls is None,
        x.tool_calls matches Some(v) ==> v@.len() == calls.len() && forall|i: int|
            0 <= i < calls.len() ==> (#[trigger] v@[i]).function.arguments@ == calls[i].arguments@
                && v@[i].function.name@ == calls[i].name@ && v@[i].id@ == calls[i].id@,
{
}

/// Messages are told in order: first those in front, then those behind; and a message
/// without tool calls alone as who said it and what was said, and nothing else.
pub proof fn law_messages_are_told_in_order(
    a: Seq<StoredMessage>,
    b: Seq<StoredMessage>,
    m: StoredMessage,
)
    ensures
        all_lines(a + b) == all_lines(a) + all_lines(b),
        m.tool_calls@.len() == 0 ==> all_lines(seq![m]) == "**"@ + model_role(m.role) + ":** "@
            + m.content@ + "\\n"@ + seq!['\n'],
        all_lines(Seq::empty()).len() == 0,
    decreases b.len(),
{
    reveal_with_fuel(all_lines, 2);
    assert(seq![m].drop_last() =~= Seq::<StoredMessage>::empty());
    if m.tool_calls@.len() == 0 {
        assert(all_lines(seq![m]) =~= "**"@ + model_role(m.role) + ":** "@ + m.content@ + "\\n"@
            + seq!['\n']);
    }
    if b.len() == 0 {
        assert(a + b =~= a);
        assert(all_lines(a) + all_lines(b) =~= all_lines(a));
    } else {
        assert((a + b).drop_last() =~= a + b.drop_last());
        law_messages_are_told_in_order(a, b.drop_last(), m);
        assert(all_lines(a + b) =~= all_lines(a) + all_lines(b));
    }
}

} // verus!
