//! A chat that rests on what searches found.

use super::merge::{
    effective, merged_into_system, merged_into_user, MergeRagContextPolicy, RagPromptBuilder,
};
use super::rerank::{context_text, is_number, is_reranked, rerank, sources_text, RagScoredPoint};
use crate::chat::message::ChatMessage;
use crate::error::ServerError;
use vstd::prelude::*;
use vstd::string::*;

verus! {

/// The context of what was found.
pub open spec fn context_of(points: Option<Vec<RagScoredPoint>>) -> Seq<char> {
    match points {
        Some(v) => sources_text(v@),
        None => "No context retrieved"@,
    }
}

/// `after` are the messages `before` with the context in them.
pub open spec fn is_augmented(
    before: Seq<ChatMessage>,
    context: Seq<char>,
    has_system_prompt: bool,
    policy: MergeRagContextPolicy,
    after: Seq<ChatMessage>,
) -> bool {
    match effective(policy, has_system_prompt) {
        MergeRagContextPolicy::SystemMessage => merged_into_system(before, context, after),
        MergeRagContextPolicy::LastUserMessage => merged_into_user(before, context, after),
    }
}

/// Whether the prompt template of this name, as it is written in JSON, takes a system
/// message; nothing where there is no template of that name.
pub uninterp spec fn template_system(template: Seq<char>) -> Option<bool>;

/// `chat_prompts::PromptTemplateType::has_system_prompt`, on the template that the type's
/// own reading from JSON finds under a name: whether that template takes a system message,
/// or `None` where the name is that of no template.
#[verifier::external_body]
pub(crate) fn template_takes_system(template: &str) -> (r: Option<bool>)
    ensures
        r == template_system(template@),
{
    let name = serde_json::Value::String(template.to_string());
    serde_json::from_value::<chat_prompts::PromptTemplateType>(name)
        .ok()
        .map(|t| t.has_system_prompt())
}

/// Puts what two searches found into a chat: the hits are ranked by their fused scores,
/// and their texts go into the messages by the policy. `has_system_prompt` tells whether
/// the chat model takes system messages; `None` where there is no chat server.
pub fn augment_chat(
    messages: &mut Vec<ChatMessage>,
    fused: &Vec<(u64, u64)>,
    kw_texts: &Vec<String>,
    vector_texts: &Vec<String>,
    has_system_prompt: Option<bool>,
    policy: MergeRagContextPolicy,
) -> (r: Result<(), ServerError>)
    requires
        forall|i: int| 0 <= i < fused@.len() ==> is_number((#[trigger] fused@[i]).1),
    ensures
        if old(messages)@.len() == 0 {
            (r matches Err(e) && e.is_bad_request("Found empty chat messages"@))
                && final(messages)@ == old(messages)@
        } else {
            match has_system_prompt {
                None => (r matches Err(e) && e.is_operation("No chat server available"@))
                    && final(messages)@ == old(messages)@,
                Some(sys) => if effective(policy, sys) == MergeRagContextPolicy::SystemMessage
                    || old(messages)@.last() is User {
                    r is Ok && exists|points: Option<Vec<RagScoredPoint>>| #[trigger]
                        is_reranked(fused@, kw_texts@, vector_texts@, points) && is_augmented(
                            old(messages)@,
                            context_of(points),
                            sys,
                            policy,
                            final(messages)@,
                        )
                } else {
                    (r matches Err(e) && e.is_operation(
                        "Bad messages. The last message in the chat request should be a user message."@,
                    )) && final(messages)@ == old(messages)@
                },
            }
        },
{
    let points = rerank(fused, kw_texts, vector_texts);
    let ghost found = points;
    assert(is_reranked(fused@, kw_texts@, vector_texts@, found));
    let context = context_text(&points);
    if messages.len() == 0 {
        return Err(ServerError::bad_request("Found empty chat messages"));
    }
    let sys = match has_system_prompt {
        None => return Err(ServerError::operation("No chat server available")),
        Some(b) => b,
    };
    let mut contexts: Vec<String> = Vec::new();
    contexts.push(context);
    match RagPromptBuilder::build(messages, &contexts, sys, policy) {
        Ok(()) => Ok(()),
        Err(e) => {
            proof {
                reveal_strlit("Bad messages. ");
                reveal_strlit("The last message in the chat request should be a user message.");
                reveal_strlit(
                    "Bad messages. The last message in the chat request should be a user message.",
                );
                assert("Bad messages. "@
                    + "The last message in the chat request should be a user message."@
                    =~= "Bad messages. The last message in the chat request should be a user message."@);
            }
            Err(ServerError::Operation(e.message()))
        },
    }
}

/// Puts what two searches found into a chat, as `augment_chat` does, for a chat model with
/// this prompt template (`None` where there is no chat server). Nothing is done, and nothing
/// given (`None`), where a chat server names no template that is known.
pub fn augment_chat_for(
    messages: &mut Vec<ChatMessage>,
    fused: &Vec<(u64, u64)>,
    kw_texts: &Vec<String>,
    vector_texts: &Vec<String>,
    template: Option<&str>,
    policy: MergeRagContextPolicy,
) -> (r: Option<Result<(), ServerError>>)
    requires
        forall|i: int| 0 <= i < fused@.len() ==> is_number((#[trigger] fused@[i]).1),
    ensures
        if old(messages)@.len() == 0 {
            (r matches Some(Err(e)) && e.is_bad_request("Found empty chat messages"@))
                && final(messages)@ == old(messages)@
        } else {
            match template {
                None => (r matches Some(Err(e)) && e.is_operation("No chat server available"@))
                    && final(messages)@ == old(messages)@,
                Some(t) => match template_system(t@) {
                    None => r is None && final(messages)@ == old(messages)@,
                    Some(sys) => if effective(policy, sys) == MergeRagContextPolicy::SystemMessage
                        || old(messages)@.last() is User {
                        (r matches Some(x) && x is Ok) && exists|
                            points: Option<Vec<RagScoredPoint>>,
                        | #[trigger]
                            is_reranked(fused@, kw_texts@, vector_texts@, points) && is_augmented(
                                old(messages)@,
                                context_of(points),
                                sys,
                                policy,
                                final(messages)@,
                            )
                    } else {
                        (r matches Some(Err(e)) && e.is_operation(
                            "Bad messages. The last message in the chat request should be a user message."@,
                        )) && final(messages)@ == old(messages)@
                    },
                },
            }
        },
{
    let takes_system: Option<bool> = match template {
        None => None,
        Some(t) => {
            let known = template_takes_system(t);
            if known.is_none() && messages.len() > 0 {
                return None;
            }
            known
        },
    };
    Some(augment_chat(messages, fused, kw_texts, vector_texts, takes_system, policy))
}

} // verus!
