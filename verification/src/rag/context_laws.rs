//! What holds of the questions that a search is made for, and of the messages that the
//! context of an answer goes into.

use super::answer::{context_of, is_augmented};
use super::laws::law_every_source_is_told;
use super::merge::{framed, framed_question, MergeRagContextPolicy, PromptError, CONTEXT_HEAD};
use super::query::{gather, is_query_of, recent_texts, user_text};
use super::rerank::RagScoredPoint;
use crate::chat::message::{ChatMessage, UserContent};
use crate::text::{
    begins_with, finishes_with, has_text, is_space, lemma_has_end, lemma_has_part, lemma_has_start,
    lemma_text_in_text, trim_back, without_suffixes,
};
use vstd::prelude::*;
use vstd::string::*;

verus! {

// ---------------------------------------------------------------------------
// The context in the messages
// ---------------------------------------------------------------------------

/// The context between the marks that the model is told of.
pub open spec fn between_marks(context: Seq<char>) -> Seq<char> {
    "---BEGIN CONTEXT---\n\n"@ + trim_back(context) + "\n\n---END CONTEXT---"@
}

proof fn lemma_framed(context: Seq<char>)
    ensures
        has_text(framed(context), between_marks(context)),
        finishes_with(framed(context), between_marks(context)),
        begins_with(framed(context), "You are a helpful AI assistant."@),
{
    reveal_strlit(
        "You are a helpful AI assistant. Please answer the user question based on the information between **---BEGIN CONTEXT---** and **---END CONTEXT---**. Do not use any external knowledge. If the information between **---BEGIN CONTEXT---** and **---END CONTEXT---** is empty, please respond with `No relevant information found in the current knowledge base`.\n\n---BEGIN CONTEXT---\n\n",
    );
    reveal_strlit("---BEGIN CONTEXT---\n\n");
    reveal_strlit("\n\n---END CONTEXT---");
    reveal_strlit("You are a helpful AI assistant.");
    let n = CONTEXT_HEAD@.len() - 21;
    let a = CONTEXT_HEAD@.take(n);
    let mark = "---BEGIN CONTEXT---\n\n"@;
    assert(CONTEXT_HEAD@.skip(n) =~= mark);
    assert(CONTEXT_HEAD@ =~= a + mark);
    assert(framed(context) =~= a + between_marks(context));
    lemma_has_end(a, between_marks(context));
    let s = framed(context);
    let p = between_marks(context);
    assert(s.subrange(s.len() - p.len(), s.len() as int) =~= p);
    assert(s.subrange(0, 31) =~= "You are a helpful AI assistant."@);
}

/// What is trimmed of a context is white space at its end and nothing else.
pub proof fn law_only_white_space_is_trimmed(s: Seq<char>)
    ensures
        trim_back(s).len() <= s.len(),
        trim_back(s) == s.take(trim_back(s).len() as int),
        forall|i: int| trim_back(s).len() <= i < s.len() ==> is_space(#[trigger] s[i]),
        trim_back(s).len() > 0 ==> !is_space(trim_back(s).last()),
    decreases s.len(),
{
    if s.len() > 0 && is_space(s.last()) {
        let t = s.drop_last();
        law_only_white_space_is_trimmed(t);
        assert(t.take(trim_back(t).len() as int) =~= s.take(trim_back(s).len() as int));
        assert forall|i: int| trim_back(s).len() <= i < s.len() implies is_space(
            #[trigger] s[i],
        ) by {
            if i < t.len() {
                assert(t[i] == s[i]);
            }
        }
    } else {
        assert(s.take(s.len() as int) =~= s);
    }
}

/// A context that goes into the system message stands there between its marks. A system
/// message that was there gives way to it; all other messages stay as they are.
pub proof fn law_context_reaches_the_system_message(
    before: Seq<ChatMessage>,
    context: Seq<char>,
    after: Seq<ChatMessage>,
)
    requires
        before.len() > 0,
        is_augmented(before, context, true, MergeRagContextPolicy::SystemMessage, after),
    ensures
        after.len() > 0,
        after[0] matches ChatMessage::System { content, name } && has_text(
            content@,
            between_marks(context),
        ) && begins_with(content@, "You are a helpful AI assistant."@),
        before[0] is System ==> after.len() == before.len() && forall|i: int|
            1 <= i < before.len() ==> #[trigger] after[i] == before[i],
        !(before[0] is System) ==> after.len() == before.len() + 1 && forall|i: int|
            0 <= i < before.len() ==> #[trigger] before[i] == after[i + 1],
{
    lemma_framed(context);
}

/// A context that goes into the last message, a question of the user, stands there between
/// its marks, and the question is the end of the message; all other messages stay as they
/// are. So it is where a chat model takes no system messages, whatever the policy.
pub proof fn law_context_reaches_the_question(
    before: Seq<ChatMessage>,
    context: Seq<char>,
    takes_system: bool,
    policy: MergeRagContextPolicy,
    after: Seq<ChatMessage>,
    question: Seq<char>,
)
    requires
        before.len() > 0,
        !takes_system || policy == MergeRagContextPolicy::LastUserMessage,
        is_augmented(before, context, takes_system, policy, after),
        before.last() matches ChatMessage::User { content: UserContent::Text(q), name } && q@
            == question,
    ensures
        after.len() == before.len(),
        forall|i: int| 0 <= i < before.len() - 1 ==> #[trigger] after[i] == before[i],
        after.last() matches ChatMessage::User { content: UserContent::Text(t), name } && has_text(
            t@,
            between_marks(context),
        ) && finishes_with(t@, "\n\nThe question is:\n"@ + question),
{
    lemma_framed(context);
    let head = framed(context);
    let tail = "\n\nThe question is:\n"@ + question;
    let t = framed_question(context, question);
    assert(t =~= head + tail);
    lemma_has_start(head, tail);
    lemma_text_in_text(t, head, between_marks(context));
    assert(t.subrange(t.len() - tail.len(), t.len() as int) =~= tail);
}

/// What was found makes a difference: contexts that differ in more than white space at
/// their ends give messages that differ.
pub proof fn law_contexts_make_a_difference(a: Seq<char>, b: Seq<char>, question: Seq<char>)
    requires
        trim_back(a) != trim_back(b),
    ensures
        framed(a) != framed(b),
        framed_question(a, question) != framed_question(b, question),
{
    let n = CONTEXT_HEAD@.len() as int;
    if framed(a) == framed(b) {
        assert(framed(a).subrange(n, n + trim_back(a).len()) =~= trim_back(a));
        assert(framed(b).subrange(n, n + trim_back(b).len()) =~= trim_back(b));
    }
    if framed_question(a, question) == framed_question(b, question) {
        let k = framed(a).len() as int;
        let sep = "\n\nThe question is:\n"@;
        assert(framed_question(a, question).len() == framed(a).len() + sep.len() + question.len());
        assert(framed_question(b, question).len() == framed(b).len() + sep.len() + question.len());
        assert(framed_question(a, question).take(k) =~= framed(a));
        assert(framed_question(b, question).take(k) =~= framed(b));
    }
}

/// The sources of all points that were found stand in the context; without points it says
/// that there are none.
pub proof fn law_context_holds_the_sources(points: Option<Vec<RagScoredPoint>>, i: int)
    ensures
        points matches Some(v) ==> 0 <= i < v@.len() ==> has_text(
            context_of(points),
            v@[i].source@,
        ),
        points is None ==> context_of(points) == "No context retrieved"@,
{
    if let Some(v) = points {
        if 0 <= i < v@.len() {
            law_every_source_is_told(v@, i);
            lemma_has_start(v@[i].source@, "\n\n"@);
            lemma_text_in_text(context_of(points), v@[i].source@ + "\n\n"@, v@[i].source@);
        }
    }
}

/// Errors tell what is wrong.
pub proof fn law_prompt_errors_tell(m: String)
    ensures
        PromptError::BadMessages(m).words() == "Bad messages. "@ + m@,
        PromptError::Operation(m).words() == "Failed to build prompt. Reason: "@ + m@,
        PromptError::NoMessages.words()
            == "There must be at least one user message to create a prompt from."@,
{
}

// ---------------------------------------------------------------------------
// The question of a chat
// ---------------------------------------------------------------------------

/// The texts of the user in a chat, in order.
pub open spec fn asked_in(s: Seq<ChatMessage>) -> Seq<Seq<char>>
    decreases s.len(),
{
    if s.len() == 0 {
        Seq::empty()
    } else {
        match s.last() {
            ChatMessage::User { content: UserContent::Text(t), name } => asked_in(
                s.drop_last(),
            ).push(t@),
            _ => asked_in(s.drop_last()),
        }
    }
}

/// No text of the user ends with the mark of a message that asks how the server is.
pub open spec fn unmarked(s: Seq<ChatMessage>) -> bool {
    forall|i: int|
        0 <= i < s.len() ==> ((#[trigger] s[i]) matches ChatMessage::User {
            content: UserContent::Text(t),
            name,
        } ==> !finishes_with(t@, "<server-health>"@))
}

proof fn lemma_gathered(s: Seq<ChatMessage>, window: nat, found: Seq<Seq<char>>, at_end: bool)
    requires
        unmarked(s),
        found.len() < window,
    ensures
        ({
            let all = asked_in(s);
            let n: int = if all.len() < window - found.len() {
                all.len() as int
            } else {
                window - found.len()
            };
            gather(s, window, found, at_end) == found + all.skip(all.len() - n).reverse()
        }),
    decreases s.len(),
{
    let all = asked_in(s);
    if s.len() == 0 {
        assert(found + all.skip(0).reverse() =~= found);
    } else {
        let t = s.drop_last();
        assert(s[s.len() - 1] == s.last());
        assert forall|i: int| 0 <= i < t.len() implies ((#[trigger] t[i]) matches ChatMessage::User {
            content: UserContent::Text(t),
            name,
        } ==> !finishes_with(t@, "<server-health>"@)) by {
            assert(t[i] == s[i]);
        }
        let n: int = if all.len() < window - found.len() {
            all.len() as int
        } else {
            window - found.len()
        };
        match user_text(s.last()) {
            Some(x) => {
                let next = found.push(x);
                assert(all == asked_in(t).push(x));
                if next.len() == window {
                    assert(found + all.skip(all.len() - 1).reverse() =~= next);
                } else {
                    lemma_gathered(t, window, next, false);
                    let m = n - 1;
                    assert(found + all.skip(all.len() - n).reverse() =~= next + asked_in(t).skip(
                        asked_in(t).len() - m,
                    ).reverse());
                }
            },
            None => {
                assert(all == asked_in(t));
                lemma_gathered(t, window, found, false);
            },
        }
    }
}

/// What a search is made for are the last texts of the user, as many as the window takes,
/// in the order of the chat.
pub proof fn law_last_questions_count(s: Seq<ChatMessage>, window: nat)
    requires
        unmarked(s),
        window > 0,
    ensures
        ({
            let all = asked_in(s);
            let n: int = if all.len() < window {
                all.len() as int
            } else {
                window as int
            };
            recent_texts(s, window) == all.skip(all.len() - n)
        }),
{
    lemma_gathered(s, window, Seq::empty(), true);
    let all = asked_in(s);
    let n: int = if all.len() < window {
        all.len() as int
    } else {
        window as int
    };
    let x = all.skip(all.len() - n);
    assert((Seq::<Seq<char>>::empty() + x.reverse()).reverse() =~= x);
}

/// A message that asks how the server is, as the last of a chat, is all that counts, and
/// without its mark.
pub proof fn law_health_question_counts_alone(s: Seq<ChatMessage>, window: nat, text: Seq<char>)
    requires
        s.len() > 0,
        s.last() matches ChatMessage::User { content: UserContent::Text(t), name } && t@ == text
            + "<server-health>"@,
        !finishes_with(text, "<server-health>"@),
    ensures
        recent_texts(s, window) == seq![text],
{
    let mark = "<server-health>"@;
    reveal_strlit("<server-health>");
    let x = text + mark;
    assert(x.subrange(x.len() - mark.len(), x.len() as int) =~= mark);
    assert(x.take(x.len() - mark.len()) =~= text);
    reveal_with_fuel(without_suffixes, 2);
    assert(without_suffixes(x, mark) == text);
    assert(seq![text].reverse() =~= seq![text]);
    assert(gather(s, window, Seq::empty(), true) =~= seq![text]);
}

/// What a search asks for holds the text of every user message that counts; with a window
/// of one it is the last text of the user.
pub proof fn law_query_holds_the_questions(s: Seq<ChatMessage>, window: nat, q: Seq<char>, i: int)
    requires
        is_query_of(s, window, q),
        unmarked(s),
        window > 0,
    ensures
        ({
            let all = asked_in(s);
            &&& all.len() > 0
            &&& all.len() - window <= i < all.len() && 0 <= i ==> has_text(q, all[i])
            &&& window == 1 ==> q == all.last()
        }),
{
    law_last_questions_count(s, window);
    let all = asked_in(s);
    let n: int = if all.len() < window {
        all.len() as int
    } else {
        window as int
    };
    let r = recent_texts(s, window);
    if all.len() - window <= i < all.len() && 0 <= i {
        let k = i - (all.len() - n);
        assert(r[k] == all[i]);
        lemma_has_part(r, "\n"@, k);
    }
    if window == 1 {
        assert(r.len() == 1);
        assert(r[0] == all.last());
    }
}

} // verus!
