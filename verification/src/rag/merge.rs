//! Putting retrieved text into a chat.

use crate::chat::message::{copy_opt, ChatMessage, UserContent};
use crate::text::{trim_back, trim_end};
use vstd::prelude::*;
use vstd::string::*;

verus! {

/// Where retrieved text goes.
#[derive(Debug, Clone, Copy, PartialEq, Eq, Structural)]
pub enum MergeRagContextPolicy {
    /// Into the system message.
    SystemMessage,
    /// Into the last user message.
    LastUserMessage,
}

/// What can go wrong when retrieved text is put into a chat.
#[derive(Debug, Clone)]
pub enum PromptError {
    /// There are no messages.
    NoMessages,
    /// The messages are not of the right kind.
    BadMessages(String),
    /// The operation failed.
    Operation(String),
}

impl PromptError {
    /// The error in words.
    pub open spec fn words(self) -> Seq<char> {
        match self {
            PromptError::NoMessages =>
                "There must be at least one user message to create a prompt from."@,
            PromptError::BadMessages(m) => "Bad messages. "@ + m@,
            PromptError::Operation(m) => "Failed to build prompt. Reason: "@ + m@,
        }
    }

    /// The error in words.
    pub fn message(&self) -> (r: String)
        ensures
            r@ == self.words(),
    {
        match self {
            PromptError::NoMessages =>
                "There must be at least one user message to create a prompt from.".to_owned(),
            PromptError::BadMessages(m) => {
                let mut r = "Bad messages. ".to_owned();
                r.append(m.as_str());
                r
            },
            PromptError::Operation(m) => {
                let mut r = "Failed to build prompt. Reason: ".to_owned();
                r.append(m.as_str());
                r
            },
        }
    }
}

/// What the model is told before the context.
pub const CONTEXT_HEAD: &'static str =
    "You are a helpful AI assistant. Please answer the user question based on the information between **---BEGIN CONTEXT---** and **---END CONTEXT---**. Do not use any external knowledge. If the information between **---BEGIN CONTEXT---** and **---END CONTEXT---** is empty, please respond with `No relevant information found in the current knowledge base`.\n\n---BEGIN CONTEXT---\n\n";

/// What stands behind the context.
pub const CONTEXT_TAIL: &'static str = "\n\n---END CONTEXT---";

/// The context with what the model is told about it.
pub open spec fn framed(context: Seq<char>) -> Seq<char> {
    CONTEXT_HEAD@ + trim_back(context) + CONTEXT_TAIL@
}

/// The context in front of a question.
pub open spec fn framed_question(context: Seq<char>, question: Seq<char>) -> Seq<char> {
    framed(context) + "\n\nThe question is:\n"@ + question
}

/// The policy that is followed: without system messages, the other one.
pub open spec fn effective(policy: MergeRagContextPolicy, has_system_prompt: bool) -> MergeRagContextPolicy {
    if has_system_prompt {
        policy
    } else {
        MergeRagContextPolicy::LastUserMessage
    }
}

/// The name of a message.
pub open spec fn name_of(m: ChatMessage) -> Option<String> {
    match m {
        ChatMessage::System { content, name } => name,
        ChatMessage::User { content, name } => name,
        _ => None,
    }
}

/// `after` is `before` with the context in a system message at the front, which
/// takes the place of the one that was there.
pub open spec fn merged_into_system(before: Seq<ChatMessage>, context: Seq<char>, after: Seq<ChatMessage>) -> bool {
    let m = after[0];
    &&& m matches ChatMessage::System { content, name } && content@ == framed(context) && name == (
    if before[0] is System {
        name_of(before[0])
    } else {
        None
    })
    &&& after == if before[0] is System {
        before.update(0, m)
    } else {
        before.insert(0, m)
    }
}

/// `after` is `before` with the context in front of the question in the last
/// message; a question that is not a text stays as it is.
pub open spec fn merged_into_user(before: Seq<ChatMessage>, context: Seq<char>, after: Seq<ChatMessage>) -> bool {
    let m = after.last();
    match before.last() {
        ChatMessage::User { content: UserContent::Text(question), name } => {
            &&& m matches ChatMessage::User { content: UserContent::Text(t), name: n } && t@
                == framed_question(context, question@) && n == name
            &&& after == before.update(before.len() - 1, m)
        },
        _ => after == before,
    }
}

fn frame(context: &str) -> (r: String)
    ensures
        r@ == framed(context@),
{
    let mut r = CONTEXT_HEAD.to_owned();
    r.append(trim_end(context));
    r.append(CONTEXT_TAIL);
    r
}

/// Puts retrieved text into chats.
#[derive(Debug)]
pub struct RagPromptBuilder;

impl RagPromptBuilder {
    /// Puts the first of `context` into the messages, by the policy.
    pub fn build(
        messages: &mut Vec<ChatMessage>,
        context: &Vec<String>,
        has_system_prompt: bool,
        policy: MergeRagContextPolicy,
    ) -> (r: Result<(), PromptError>)
        ensures
            if old(messages)@.len() == 0 {
                r == Err::<(), PromptError>(PromptError::NoMessages) && final(messages)@ == old(
                    messages,
                )@
            } else if context@.len() == 0 {
                (r matches Err(PromptError::Operation(m)) && m@ == "No context provided."@)
                    && final(messages)@ == old(messages)@
            } else {
                match effective(policy, has_system_prompt) {
                    MergeRagContextPolicy::SystemMessage => r is Ok && merged_into_system(
                        old(messages)@,
                        context@[0]@,
                        final(messages)@,
                    ),
                    MergeRagContextPolicy::LastUserMessage => if old(messages)@.last() is User {
                        r is Ok && merged_into_user(
                            old(messages)@,
                            context@[0]@,
                            final(messages)@,
                        )
                    } else {
                        (r matches Err(PromptError::BadMessages(m)) && m@
                            == "The last message in the chat request should be a user message."@)
                            && final(messages)@ == old(messages)@
                    },
                }
            },
    {
        if messages.len() == 0 {
            return Err(PromptError::NoMessages);
        }
        if context.len() == 0 {
            return Err(PromptError::Operation("No context provided.".to_owned()));
        }
        let into_system = has_system_prompt && matches!(policy, MergeRagContextPolicy::SystemMessage);
        if into_system {
            let content = frame(context[0].as_str());
            if let ChatMessage::System { name, .. } = &messages[0] {
                let name = copy_opt(name);
                messages.set(0, ChatMessage::System { content, name });
            } else {
                messages.insert(0, ChatMessage::System { content, name: None });
            }
            Ok(())
        } else {
            let last: usize = messages.len() - 1;
            if let ChatMessage::User { content, name } = &messages[last] {
                if let UserContent::Text(question) = content {
                    let mut text = frame(context[0].as_str());
                    text.append("\n\nThe question is:\n");
                    text.append(question.as_str());
                    let name = copy_opt(name);
                    messages.set(
                        last,
                        ChatMessage::User { content: UserContent::Text(text), name },
                    );
                }
                Ok(())
            } else {
                Err(
                    PromptError::BadMessages(
                        "The last message in the chat request should be a user message.".to_owned(),
                    ),
                )
            }
        }
    }
}

} // verus!
