//! Conversations at hand, and how they are kept within their limits.
//!
//! Each conversation has a working context: its latest messages and a summary of
//! what came before. When the context grows beyond its limits, the older
//! messages leave it and a summary takes their place.

use crate::clock::{now, Timestamp};
use crate::ids::{is_uuid, new_uuid};
use crate::memory::summarizer::{summary_spec, MessageSummarizer};
use crate::memory::types::{
    ContextMemory, MemoryError, MessageRole, ModelMessage, ModelToolCall, ModelToolFunction,
    StoredConversation, StoredMessage, StoredToolCall,
};
use crate::pattern::opt_text;
use crate::single::{single, to_single};
use crate::sum::{lemma_sum_step, lemma_sum_take, sum};
use crate::text::same_text;
use crate::text_map::TextMap;
use vstd::prelude::*;
use vstd::string::*;
use vstd::utf8::encode_utf8;

verus! {

/// Limits of the memory.
#[derive(Debug, Clone)]
pub struct MemoryConfig {
    /// Where the database is.
    pub database_path: String,
    /// Tokens that a context may hold.
    pub context_window: usize,
    /// Messages that a context may hold.
    pub max_stored_messages: usize,
    /// Whether contexts are summarised.
    pub auto_summarize: bool,
    /// Half of this many messages stay at least.
    pub summarize_threshold: usize,
}

impl MemoryConfig {
    /// The tokens that may stay when a context is summarised: a fifth of the
    /// window, in single precision.
    pub open spec fn target(self) -> nat {
        single(single(self.context_window as nat) * 3_355_443) / 16_777_216
    }
}

/// An estimate of the tokens of a message.
pub open spec fn message_tokens(m: StoredMessage) -> nat {
    (encode_utf8(m.content@).len() as usize / 4 + m.tool_calls@.len() * 100) as nat
}

/// Estimates of the tokens of messages.
pub open spec fn token_estimates(s: Seq<StoredMessage>) -> Seq<nat> {
    s.map_values(|m: StoredMessage| message_tokens(m))
}

/// How many messages at the end of `s` can stay: as many as fit into `target`
/// tokens together with the `used` ones, and `max` messages together with the
/// `count` ones.
pub open spec fn fitting(s: Seq<StoredMessage>, target: nat, max: nat, used: nat, count: nat) -> nat
    decreases s.len(),
{
    if s.len() > 0 && used + message_tokens(s.last()) <= target && count < max {
        fitting(s.drop_last(), target, max, used + message_tokens(s.last()), count + 1)
    } else {
        count
    }
}

/// How many of the messages `s` stay when their context is summarised.
pub open spec fn kept(s: Seq<StoredMessage>, config: MemoryConfig) -> nat {
    let fit = fitting(s, config.target(), config.max_stored_messages as nat, 0, 0);
    let least = if config.summarize_threshold / 2 < s.len() {
        (config.summarize_threshold / 2) as nat
    } else {
        s.len()
    };
    if fit < least {
        least
    } else {
        fit
    }
}

/// What a context holds.
pub ghost struct ContextModel {
    pub conversation_id: Seq<char>,
    pub messages: Seq<StoredMessage>,
    pub summary: Option<Seq<char>>,
    pub total_tokens: nat,
    pub max_context_tokens: nat,
}

impl ContextMemory {
    /// What the context holds.
    pub open spec fn model(self) -> ContextModel {
        ContextModel {
            conversation_id: self.conversation_id@,
            messages: self.working_messages@,
            summary: opt_text(self.summary),
            total_tokens: self.total_tokens as nat,
            max_context_tokens: self.max_context_tokens as nat,
        }
    }
}

/// The context with one more message.
pub open spec fn with_message(c: ContextModel, m: StoredMessage) -> ContextModel {
    ContextModel {
        messages: c.messages.push(m),
        total_tokens: sum(token_estimates(c.messages.push(m))),
        ..c
    }
}

/// The context is over a limit.
pub open spec fn over_limit(c: ContextModel, config: MemoryConfig) -> bool {
    c.total_tokens > c.max_context_tokens || c.messages.len() > config.max_stored_messages
}

/// The older messages leave the context: those of `c` that do not stay.
pub open spec fn leaves(c: ContextModel, config: MemoryConfig) -> bool {
    config.auto_summarize && kept(c.messages, config) < c.messages.len()
}

/// The messages that leave.
pub open spec fn leaving(c: ContextModel, config: MemoryConfig) -> Seq<StoredMessage> {
    c.messages.take(c.messages.len() - kept(c.messages, config))
}

/// The messages that stay.
pub open spec fn staying(c: ContextModel, config: MemoryConfig) -> Seq<StoredMessage> {
    c.messages.skip(c.messages.len() - kept(c.messages, config))
}

/// The context after the older messages left it.
pub open spec fn summarized(c: ContextModel, config: MemoryConfig) -> ContextModel {
    ContextModel {
        messages: staying(c, config),
        summary: Some(summary_spec(leaving(c, config), None)),
        total_tokens: sum(token_estimates(staying(c, config))),
        ..c
    }
}

/// The context after a message came in: over a limit, the older messages leave it.
pub open spec fn updated(c: ContextModel, m: StoredMessage, config: MemoryConfig) -> ContextModel {
    let d = with_message(c, m);
    if over_limit(d, config) && leaves(d, config) {
        summarized(d, config)
    } else {
        d
    }
}

/// A summary that is to be kept with its conversation.
#[derive(Debug, Clone)]
pub struct SummaryUpdate {
    /// The summary.
    pub summary: String,
    /// The sequence number of the last message that it sums up.
    pub last_sequence: Option<i64>,
}

/// `r` is the record of a conversation in which nothing was said yet.
pub open spec fn is_new_conversation(
    r: StoredConversation,
    id: Seq<char>,
    model_name: Seq<char>,
    user_id: Option<String>,
    title: Option<String>,
    at: Timestamp,
) -> bool {
    &&& r.id@ == id
    &&& r.user_id == user_id
    &&& r.title == title
    &&& r.model_name@ == model_name
    &&& r.created_at == at
    &&& r.updated_at == at
    &&& r.message_count == 0
    &&& r.total_tokens == 0
    &&& r.summary is None
    &&& r.last_summary_sequence is None
}

/// The last messages of `s`, `most` of them at most.
pub open spec fn latest(s: Seq<StoredMessage>, most: nat) -> Seq<StoredMessage> {
    if s.len() > most {
        s.skip(s.len() - most)
    } else {
        s
    }
}

/// `r` is a message of a conversation, as it is stored.
pub open spec fn is_kept_message(
    r: StoredMessage,
    conv_id: Seq<char>,
    role: MessageRole,
    content: Seq<char>,
    calls: Seq<StoredToolCall>,
    sequence: i64,
) -> bool {
    &&& r.conversation_id@ == conv_id
    &&& r.role == role
    &&& r.content@ == content
    &&& r.tool_calls@ == calls
    &&& r.sequence == sequence
}

/// The conversation is one of the user.
pub open spec fn is_of_user(c: StoredConversation, user_id: Seq<char>) -> bool {
    opt_text(c.user_id) == Some(user_id)
}

/// `a` is a later point in time than `b`.
pub open spec fn is_later(a: Timestamp, b: Timestamp) -> bool {
    a.secs > b.secs || (a.secs == b.secs && a.nanos > b.nanos)
}

fn belongs_to(c: &StoredConversation, user_id: &str) -> (r: bool)
    ensures
        r == is_of_user(*c, user_id@),
{
    match &c.user_id {
        Some(u) => same_text(u.as_str(), user_id),
        None => false,
    }
}

/// Which of the conversations is the most recent one of a user, whatever its model: none of
/// the user's was changed later.
pub fn recent_conversation(conversations: &Vec<StoredConversation>, user_id: &str) -> (r: Option<
    usize,
>)
    ensures
        match r {
            Some(i) => i < conversations@.len() && is_of_user(conversations@[i as int], user_id@)
                && forall|j: int|
                0 <= j < conversations@.len() && is_of_user(#[trigger] conversations@[j], user_id@)
                    ==> !is_later(conversations@[j].updated_at, conversations@[i as int].updated_at),
            None => forall|j: int|
                0 <= j < conversations@.len() ==> !is_of_user(
                    #[trigger] conversations@[j],
                    user_id@,
                ),
        },
{
    let mut best: Option<usize> = None;
    let mut k: usize = 0;
    while k < conversations.len()
        invariant
            k <= conversations@.len(),
            match best {
                Some(i) => i < k && is_of_user(conversations@[i as int], user_id@) && forall|j: int|
                    0 <= j < k && is_of_user(#[trigger] conversations@[j], user_id@) ==> !is_later(
                        conversations@[j].updated_at,
                        conversations@[i as int].updated_at,
                    ),
                None => forall|j: int|
                    0 <= j < k ==> !is_of_user(#[trigger] conversations@[j], user_id@),
            },
        decreases conversations@.len() - k,
    {
        if belongs_to(&conversations[k], user_id) {
            match best {
                None => {
                    best = Some(k);
                },
                Some(i) => {
                    let a = conversations[k].updated_at;
                    let b = conversations[i].updated_at;
                    if a.secs > b.secs || (a.secs == b.secs && a.nanos > b.nanos) {
                        best = Some(k);
                    }
                },
            }
        }
        k = k + 1;
    }
    best
}

/// Memory of the conversations at hand.
#[derive(Debug)]
pub struct CompleteChatMemory {
    /// The contexts, by the identifier of their conversation.
    pub context_cache: TextMap<ContextMemory>,
    /// Makes the summaries.
    pub summarizer: MessageSummarizer,
    /// The limits.
    pub config: MemoryConfig,
}

impl CompleteChatMemory {
    /// A memory without conversations.
    pub fn new(config: MemoryConfig) -> (r: CompleteChatMemory)
        ensures
            r.context_cache@ == Map::<Seq<char>, ContextMemory>::empty(),
            r.summarizer.model_name is None,
            r.config == config,
    {
        CompleteChatMemory {
            context_cache: TextMap::new(),
            summarizer: MessageSummarizer::new(None),
            config,
        }
    }

    /// Begins a conversation with an empty context, and gives the record that is
    /// to be stored.
    pub fn create_conversation(
        &mut self,
        model_name: &str,
        user_id: Option<String>,
        title: Option<String>,
    ) -> (r: StoredConversation)
        ensures
            is_uuid(r.id@),
            r.created_at == r.updated_at,
            is_new_conversation(r, r.id@, model_name@, user_id, title, r.created_at),
            final(self).begun(*old(self), r.id@),
    {
        self.create_conversation_as(new_uuid(), model_name, user_id, title, now())
    }

    /// This memory is `before` with one more conversation, `id`, whose context is empty.
    pub open spec fn begun(self, before: CompleteChatMemory, id: Seq<char>) -> bool {
        &&& self.summarizer == before.summarizer
        &&& self.config == before.config
        &&& exists|c: ContextMemory|
            self.context_cache@ == #[trigger] before.context_cache@.insert(id, c) && c.model() == (
            ContextModel {
                conversation_id: id,
                messages: Seq::empty(),
                summary: None,
                total_tokens: 0,
                max_context_tokens: before.config.context_window as nat,
            })
    }

    /// Begins the conversation `conv_id` with an empty context, and gives the
    /// record that is to be stored.
    pub fn create_conversation_as(
        &mut self,
        conv_id: String,
        model_name: &str,
        user_id: Option<String>,
        title: Option<String>,
        at: Timestamp,
    ) -> (r: StoredConversation)
        ensures
            is_new_conversation(r, conv_id@, model_name@, user_id, title, at),
            final(self).begun(*old(self), conv_id@),
    {
        let context = ContextMemory {
            conversation_id: conv_id.clone(),
            working_messages: Vec::new(),
            summary: None,
            total_tokens: 0,
            max_context_tokens: self.config.context_window,
        };
        self.context_cache.insert(conv_id.clone(), context);
        StoredConversation {
            id: conv_id,
            user_id,
            title,
            model_name: model_name.to_owned(),
            created_at: at,
            updated_at: at,
            message_count: 0,
            total_tokens: 0,
            summary: None,
            last_summary_sequence: None,
        }
    }

    /// Whether the conversation has a context at hand.
    pub fn is_cached(&self, conv_id: &str) -> (r: bool)
        ensures
            r == self.context_cache@.dom().contains(conv_id@),
    {
        self.context_cache.contains_key(conv_id)
    }

    /// This memory is `before` with a context of the conversation `id` at hand: the one that
    /// it had, or else one of these messages and this summary.
    pub open spec fn recalled(
        self,
        before: CompleteChatMemory,
        id: Seq<char>,
        summary: Option<Seq<char>>,
        messages: Seq<StoredMessage>,
    ) -> bool {
        &&& self.summarizer == before.summarizer
        &&& self.config == before.config
        &&& if before.context_cache@.dom().contains(id) {
            self.context_cache@ == before.context_cache@
        } else {
            exists|c: ContextMemory|
                self.context_cache@ == #[trigger] before.context_cache@.insert(id, c) && c.model()
                    == (ContextModel {
                    conversation_id: id,
                    messages,
                    summary,
                    total_tokens: 0,
                    max_context_tokens: before.config.context_window as nat,
                })
        }
    }

    /// Makes sure that the conversation has a context at hand: where it has none,
    /// one is made of what was stored of it.
    pub fn ensure_conversation_in_cache(
        &mut self,
        conv_id: &str,
        summary: Option<String>,
        recent_messages: Vec<StoredMessage>,
    )
        ensures
            final(self).recalled(*old(self), conv_id@, opt_text(summary), recent_messages@),
    {
        if !self.context_cache.contains_key(conv_id) {
            let context = ContextMemory {
                conversation_id: conv_id.to_owned(),
                working_messages: recent_messages,
                summary,
                total_tokens: 0,
                max_context_tokens: self.config.context_window,
            };
            self.context_cache.insert(conv_id.to_owned(), context);
        }
    }

    /// The conversation of a user. `found` is the one that is stored, with its messages in
    /// order: it is carried on, whichever model it was held with, with the latest of its
    /// messages as its context. Where none is stored, one begins, whose record is to be
    /// stored.
    pub fn get_or_create_user_conversation(
        &mut self,
        user_id: &str,
        model_name: &str,
        found: Option<(StoredConversation, Vec<StoredMessage>)>,
    ) -> (r: (String, Option<StoredConversation>))
        ensures
            match found {
                Some((c, history)) => {
                    &&& r.0 == c.id
                    &&& r.1 is None
                    &&& final(self).recalled(
                        *old(self),
                        c.id@,
                        opt_text(c.summary),
                        latest(history@, old(self).config.max_stored_messages as nat),
                    )
                },
                None => {
                    &&& r.1 matches Some(n) && n.id == r.0 && is_uuid(n.id@) && opt_text(n.user_id)
                        == Some(user_id@) && is_new_conversation(
                        n,
                        n.id@,
                        model_name@,
                        n.user_id,
                        None,
                        n.created_at,
                    )
                    &&& final(self).begun(*old(self), r.0@)
                },
            },
    {
        match found {
            Some((c, history)) => {
                let ghost all = history@;
                let mut history = history;
                let n: usize = history.len();
                let most: usize = self.config.max_stored_messages;
                if n > most {
                    let recent = history.split_off(n - most);
                    assert(recent@ =~= latest(all, most as nat));
                    self.ensure_conversation_in_cache(c.id.as_str(), c.summary, recent);
                } else {
                    self.ensure_conversation_in_cache(c.id.as_str(), c.summary, history);
                }
                (c.id, None)
            },
            None => {
                let stored = self.create_conversation(model_name, Some(user_id.to_owned()), None);
                (stored.id.clone(), Some(stored))
            },
        }
    }

    /// The message of a user, as it is to be stored.
    pub fn user_message(conv_id: &str, content: String, sequence: i64) -> (r: StoredMessage)
        ensures
            is_uuid(r.id@),
            r.conversation_id@ == conv_id@,
            r.role == MessageRole::User,
            r.content == content,
            r.sequence == sequence,
            r.tokens is None,
            r.tool_calls@ == Seq::<StoredToolCall>::empty(),
            is_kept_message(r, conv_id@, MessageRole::User, content@, Seq::empty(), sequence),
    {
        StoredMessage {
            id: new_uuid(),
            conversation_id: conv_id.to_owned(),
            role: MessageRole::User,
            content,
            timestamp: now(),
            sequence,
            tokens: None,
            tool_calls: Vec::new(),
        }
    }

    /// The message of a model, as it is to be stored.
    pub fn assistant_message(
        conv_id: &str,
        content: &str,
        tool_calls: Vec<StoredToolCall>,
        sequence: i64,
    ) -> (r: StoredMessage)
        ensures
            is_uuid(r.id@),
            r.conversation_id@ == conv_id@,
            r.role == MessageRole::Assistant,
            r.content@ == content@,
            r.sequence == sequence,
            r.tokens is None,
            r.tool_calls == tool_calls,
            is_kept_message(
                r,
                conv_id@,
                MessageRole::Assistant,
                content@,
                tool_calls@,
                sequence,
            ),
    {
        StoredMessage {
            id: new_uuid(),
            conversation_id: conv_id.to_owned(),
            role: MessageRole::Assistant,
            content: content.to_owned(),
            timestamp: now(),
            sequence,
            tokens: None,
            tool_calls,
        }
    }

    /// An estimate of the tokens of a message.
    pub fn estimate_message_tokens(message: &StoredMessage) -> (r: usize)
        requires
            message_tokens(*message) <= usize::MAX,
        ensures
            r == message_tokens(*message),
    {
        let content_tokens: usize = message.content.as_str().len() / 4;
        let tool_tokens: usize = message.tool_calls.len() * 100;
        content_tokens + tool_tokens
    }

    /// An estimate of the tokens of messages.
    pub fn calculate_total_tokens(messages: &Vec<StoredMessage>) -> (r: usize)
        requires
            sum(token_estimates(messages@)) <= usize::MAX,
        ensures
            r == sum(token_estimates(messages@)),
    {
        let ghost s = token_estimates(messages@);
        let mut r: usize = 0;
        let mut i: usize = 0;
        while i < messages.len()
            invariant
                i <= messages@.len(),
                s == token_estimates(messages@),
                sum(s) <= usize::MAX,
                r == sum(s.take(i as int)),
            decreases messages@.len() - i,
        {
            proof {
                lemma_sum_step(s, i as int);
                assert(s[i as int] == message_tokens(messages@[i as int]));
            }
            r = r + Self::estimate_message_tokens(&messages[i]);
            i = i + 1;
        }
        assert(s.take(messages@.len() as int) =~= s);
        r
    }

    /// How many of the messages stay when their context is summarised.
    pub fn calculate_keep_count(&self, messages: &Vec<StoredMessage>) -> (r: usize)
        requires
            sum(token_estimates(messages@)) <= usize::MAX,
        ensures
            r == kept(messages@, self.config),
            r <= messages@.len(),
    {
        let window: u128 = to_single(self.config.context_window as u128);
        let product: u128 = to_single(window * 3_355_443);
        let target: u128 = product / 16_777_216;
        let mut used: usize = 0;
        let mut count: usize = 0;
        let ghost s = token_estimates(messages@);
        let ghost all = fitting(
            messages@,
            self.config.target(),
            self.config.max_stored_messages as nat,
            0,
            0,
        );
        let mut i: usize = messages.len();
        assert(messages@.take(i as int) =~= messages@);
        assert(s.take(i as int) =~= s);
        while i > 0
            invariant_except_break
                i <= messages@.len(),
                count == messages@.len() - i,
                s == token_estimates(messages@),
                sum(s) <= usize::MAX,
                target == self.config.target(),
                used + sum(s.take(i as int)) <= sum(s),
                fitting(
                    messages@.take(i as int),
                    self.config.target(),
                    self.config.max_stored_messages as nat,
                    used as nat,
                    count as nat,
                ) == all,
            ensures
                count == all,
                count <= messages@.len(),
            decreases i,
        {
            let ghost t = messages@.take(i as int);
            proof {
                lemma_sum_step(s, i - 1);
                lemma_sum_take(s, i as int);
                assert(s[i - 1] == message_tokens(messages@[i - 1]));
                assert(t.last() == messages@[i - 1]);
                assert(t.drop_last() =~= messages@.take(i - 1));
            }
            let tokens: usize = Self::estimate_message_tokens(&messages[i - 1]);
            if (used + tokens) as u128 <= target && count < self.config.max_stored_messages {
                used = used + tokens;
                count = count + 1;
            } else {
                break;
            }
            i = i - 1;
        }
        let half: usize = self.config.summarize_threshold / 2;
        let least: usize = if half < messages.len() {
            half
        } else {
            messages.len()
        };
        if count < least {
            least
        } else {
            count
        }
    }

    /// The older messages leave the context, and their summary takes their place.
    /// Gives the summary, where there is a new one.
    pub fn truncate_and_summarize(&self, context: &mut ContextMemory) -> (r: Option<SummaryUpdate>)
        requires
            sum(token_estimates(old(context).working_messages@)) <= usize::MAX,
        ensures
            leaves(old(context).model(), self.config) ==> {
                &&& final(context).model() == summarized(old(context).model(), self.config)
                &&& r matches Some(u) && Some(u.summary@) == final(context).model().summary
                    && u.last_sequence == Some(
                    leaving(old(context).model(), self.config).last().sequence,
                )
            },
            !leaves(old(context).model(), self.config) ==> r is None && *final(context) == *old(
                context,
            ),
    {
        if !self.config.auto_summarize {
            return None;
        }
        let keep_count: usize = self.calculate_keep_count(&context.working_messages);
        let len: usize = context.working_messages.len();
        if keep_count < len {
            let ghost all = context.working_messages@;
            let rest = context.working_messages.split_off(len - keep_count);
            let mut to_summarize = rest;
            std::mem::swap(&mut context.working_messages, &mut to_summarize);
            assert(to_summarize@ =~= all.take(len - keep_count));
            assert(context.working_messages@ =~= all.skip(len - keep_count));
            let new_summary = self.summarizer.summarize_stored_messages(&to_summarize, None);
            context.summary = Some(new_summary.clone());
            proof {
                lemma_estimates_skip(all, len - keep_count);
            }
            context.total_tokens = Self::calculate_total_tokens(&context.working_messages);
            let last_sequence = Some(to_summarize[to_summarize.len() - 1].sequence);
            Some(SummaryUpdate { summary: new_summary, last_sequence })
        } else {
            None
        }
    }

    /// Takes a message into the context of its conversation. Gives the summary
    /// that is to be stored, where there is a new one.
    pub fn update_working_context(&mut self, conv_id: &str, new_message: StoredMessage) -> (r: Result<
        Option<SummaryUpdate>,
        MemoryError,
    >)
        requires
            old(self).context_cache@.dom().contains(conv_id@) ==> sum(
                token_estimates(
                    old(self).context_cache@[conv_id@].working_messages@.push(new_message),
                ),
            ) <= usize::MAX,
        ensures
            final(self).summarizer == old(self).summarizer,
            final(self).config == old(self).config,
            r is Ok <==> old(self).context_cache@.dom().contains(conv_id@),
            match r {
                Ok(update) => {
                    let before = old(self).context_cache@[conv_id@].model();
                    let full = with_message(before, new_message);
                    let after = final(self).context_cache@[conv_id@].model();
                    &&& final(self).context_cache@.dom().contains(conv_id@)
                    &&& final(self).context_cache@ == old(self).context_cache@.insert(
                        conv_id@,
                        final(self).context_cache@[conv_id@],
                    )
                    &&& after == updated(before, new_message, old(self).config)
                    &&& update is Some <==> over_limit(full, old(self).config) && leaves(
                        full,
                        old(self).config,
                    )
                    &&& update matches Some(u) ==> Some(u.summary@) == after.summary
                        && u.last_sequence == Some(
                        leaving(full, old(self).config).last().sequence,
                    )
                },
                Err(e) => e matches MemoryError::ConversationNotFound(id) && id@ == conv_id@
                    && final(self).context_cache@ == old(self).context_cache@,
            },
    {
        match self.context_cache.remove(conv_id) {
            None => {
                assert(self.context_cache@ =~= old(self).context_cache@);
                Err(MemoryError::ConversationNotFound(conv_id.to_owned()))
            },
            Some(c) => {
                let mut context = c;
                context.working_messages.push(new_message);
                context.total_tokens = Self::calculate_total_tokens(&context.working_messages);
                let update = if context.total_tokens > context.max_context_tokens
                    || context.working_messages.len() > self.config.max_stored_messages {
                    self.truncate_and_summarize(&mut context)
                } else {
                    None
                };
                self.context_cache.insert(conv_id.to_owned(), context);
                assert(self.context_cache@ =~= old(self).context_cache@.insert(conv_id@, context));
                Ok(update)
            },
        }
    }

    /// Forgets the context of a conversation.
    pub fn delete_conversation(&mut self, conv_id: &str)
        ensures
            final(self).context_cache@ == old(self).context_cache@.remove(conv_id@),
            final(self).summarizer == old(self).summarizer,
            final(self).config == old(self).config,
    {
        let _ = self.context_cache.remove(conv_id);
    }

    /// Tool calls, as they are sent to a model.
    pub fn convert_to_model_tool_calls(tool_calls: &Vec<StoredToolCall>) -> (r: Vec<ModelToolCall>)
        ensures
            are_model_calls(tool_calls@, r@),
            forall|i: int|
                0 <= i < r@.len() ==> (#[trigger] r@[i]).id@ == tool_calls@[i].id@
                    && r@[i].function.name@ == tool_calls@[i].name@ && r@[i].function.arguments@
                    == tool_calls@[i].arguments@,
    {
        let mut r: Vec<ModelToolCall> = Vec::new();
        let mut i: usize = 0;
        while i < tool_calls.len()
            invariant
                i <= tool_calls@.len(),
                are_model_calls(tool_calls@.take(i as int), r@),
            decreases tool_calls@.len() - i,
        {
            let c = &tool_calls[i];
            r.push(
                ModelToolCall {
                    id: c.id.clone(),
                    ty: "function".to_owned(),
                    function: ModelToolFunction {
                        name: c.name.clone(),
                        arguments: c.arguments.clone(),
                    },
                },
            );
            i = i + 1;
        }
        assert(tool_calls@.take(tool_calls@.len() as int) =~= tool_calls@);
        r
    }

    /// The messages of a context, as they are sent to a model: the summary, where
    /// there is one, as a system message, then the working messages.
    pub fn model_messages(context: &ContextMemory) -> (r: Vec<ModelMessage>)
        ensures
            are_model_messages(*context, r@),
    {
        let mut r: Vec<ModelMessage> = Vec::new();
        if let Some(summary) = &context.summary {
            let mut content = "Previous conversation summary: ".to_owned();
            content.append(summary.as_str());
            r.push(
                ModelMessage {
                    role: "system".to_owned(),
                    content,
                    tool_calls: None,
                    tool_call_id: None,
                },
            );
        }
        let ghost head = r@;
        let ghost n: int = if context.summary is Some {
            1
        } else {
            0
        };
        assert(head.len() == n);
        let mut i: usize = 0;
        while i < context.working_messages.len()
            invariant
                i <= context.working_messages@.len(),
                r@.len() == head.len() + i,
                forall|j: int| 0 <= j < head.len() ==> r@[j] == head[j],
                forall|j: int|
                    0 <= j < i ==> is_model_message(
                        context.working_messages@[j],
                        #[trigger] r@[head.len() + j],
                    ),
            decreases context.working_messages@.len() - i,
        {
            let m = &context.working_messages[i];
            let tool_calls = if m.tool_calls.len() > 0 {
                Some(Self::convert_to_model_tool_calls(&m.tool_calls))
            } else {
                None
            };
            let ghost before = r@;
            r.push(
                ModelMessage {
                    role: m.role.to_text().to_owned(),
                    content: m.content.clone(),
                    tool_calls,
                    tool_call_id: None,
                },
            );
            assert forall|j: int| 0 <= j < i + 1 implies is_model_message(
                context.working_messages@[j],
                #[trigger] r@[head.len() + j],
            ) by {
                if j < i {
                    assert(r@[head.len() + j] == before[head.len() + j]);
                }
            }
            i = i + 1;
        }
        assert forall|k: int| n <= k < r@.len() implies is_model_message(
            context.working_messages@[k - n],
            #[trigger] r@[k],
        ) by {
            assert(r@[k] == r@[head.len() + (k - n)]);
        }
        assert(context.summary is Some ==> r@[0] == head[0]);
        r
    }

    /// The messages of a conversation at hand, as they are sent to a model.
    pub fn get_model_context(&self, conv_id: &str) -> (r: Result<Vec<ModelMessage>, MemoryError>)
        ensures
            r is Ok <==> self.context_cache@.dom().contains(conv_id@),
            match r {
                Ok(v) => are_model_messages(self.context_cache@[conv_id@], v@),
                Err(e) => e matches MemoryError::ConversationNotFound(id) && id@ == conv_id@,
            },
    {
        match self.context_cache.get(conv_id) {
            Some(context) => Ok(Self::model_messages(context)),
            None => Err(MemoryError::ConversationNotFound(conv_id.to_owned())),
        }
    }
}

pub proof fn lemma_estimates_skip(s: Seq<StoredMessage>, n: int)
    requires
        0 <= n <= s.len(),
    ensures
        sum(token_estimates(s.skip(n))) <= sum(token_estimates(s)),
    decreases s.len(),
{
    if n < s.len() {
        assert(s.skip(n).drop_last() =~= s.drop_last().skip(n));
        assert(token_estimates(s).drop_last() =~= token_estimates(s.drop_last()));
        assert(token_estimates(s.skip(n)).drop_last() =~= token_estimates(s.skip(n).drop_last()));
        lemma_estimates_skip(s.drop_last(), n);
    }
}

/// `r` are the tool calls `s`, as they are sent to a model.
pub open spec fn are_model_calls(s: Seq<StoredToolCall>, r: Seq<ModelToolCall>) -> bool {
    &&& r.len() == s.len()
    &&& forall|i: int|
        0 <= i < s.len() ==> (#[trigger] r[i]).id@ == s[i].id@ && r[i].ty@ == "function"@
            && r[i].function.name@ == s[i].name@ && r[i].function.arguments@ == s[i].arguments@
}

/// `r` is the message `m`, as it is sent to a model.
pub open spec fn is_model_message(m: StoredMessage, r: ModelMessage) -> bool {
    &&& r.role@ == m.role.name()
    &&& r.content@ == m.content@
    &&& r.tool_call_id is None
    &&& match r.tool_calls {
        Some(v) => m.tool_calls@.len() > 0 && are_model_calls(m.tool_calls@, v@),
        None => m.tool_calls@.len() == 0,
    }
}

/// `r` are the messages of the context, as they are sent to a model.
pub open spec fn are_model_messages(c: ContextMemory, r: Seq<ModelMessage>) -> bool {
    let n: int = if c.summary is Some {
        1
    } else {
        0
    };
    &&& r.len() == n + c.working_messages@.len()
    &&& c.summary matches Some(s) ==> r[0].role@ == "system"@ && r[0].content@
        == "Previous conversation summary: "@ + s@ && r[0].tool_calls is None
        && r[0].tool_call_id is None
    &&& forall|k: int|
        n <= k < r.len() ==> is_model_message(c.working_messages@[k - n], #[trigger] r[k])
}

// ---------------------------------------------------------------------------
// Laws
// ---------------------------------------------------------------------------

proof fn lemma_fitting(s: Seq<StoredMessage>, target: nat, max: nat, used: nat, count: nat)
    ensures
        count <= fitting(s, target, max, used, count) <= count + s.len(),
        fitting(s, target, max, used, count) <= max || fitting(s, target, max, used, count)
            == count,
        used + sum(
            token_estimates(s.skip(s.len() - (fitting(s, target, max, used, count) - count))),
        ) <= target || fitting(s, target, max, used, count) == count,
    decreases s.len(),
{
    if s.len() > 0 && used + message_tokens(s.last()) <= target && count < max {
        let t = s.drop_last();
        let used2 = used + message_tokens(s.last());
        let k = (fitting(s, target, max, used, count) - count) as nat;
        lemma_fitting(t, target, max, used2, count + 1);
        let tail = s.skip(s.len() - k);
        assert(tail.drop_last() =~= t.skip(t.len() - (k - 1)));
        assert(token_estimates(tail).drop_last() =~= token_estimates(tail.drop_last()));
        if k == 1 {
            assert(tail.drop_last() =~= Seq::empty());
            assert(token_estimates(tail.drop_last()) =~= Seq::empty());
        }
    }
}

/// What stays of a context is its most recent part, and nothing is lost: the
/// messages that leave and those that stay make up the context again. At least
/// half the threshold of messages stay, where there are that many. Beyond that
/// least number, what stays fits into the target and the limit of messages.
pub proof fn law_recent_messages_stay(c: ContextModel, config: MemoryConfig)
    ensures
        kept(c.messages, config) <= c.messages.len(),
        leaving(c, config) + staying(c, config) == c.messages,
        staying(c, config).len() == kept(c.messages, config),
        staying(c, config).len() >= config.summarize_threshold / 2 || staying(c, config)
            == c.messages,
        staying(c, config).len() > config.summarize_threshold / 2 ==> sum(
            token_estimates(staying(c, config)),
        ) <= config.target() && staying(c, config).len() <= config.max_stored_messages,
{
    let s = c.messages;
    lemma_fitting(s, config.target(), config.max_stored_messages as nat, 0, 0);
    assert(leaving(c, config) + staying(c, config) =~= s);
    if kept(s, config) == s.len() {
        assert(staying(c, config) =~= s);
    }
}

/// A context does not lose the message that came in last, unless it is summarised, the
/// threshold keeps no message and the new one does not fit.
pub proof fn law_new_message_stays(c: ContextModel, m: StoredMessage, config: MemoryConfig)
    requires
        config.summarize_threshold >= 2 || !config.auto_summarize || !over_limit(
            with_message(c, m),
            config,
        ) || (message_tokens(m) <= config.target() && config.max_stored_messages > 0),
    ensures
        updated(c, m, config).messages.len() > 0,
        updated(c, m, config).messages.last() == m,
{
    let d = with_message(c, m);
    law_recent_messages_stay(d, config);
    if message_tokens(m) <= config.target() && config.max_stored_messages > 0 {
        assert(d.messages.last() == m);
        lemma_fitting(
            d.messages.drop_last(),
            config.target(),
            config.max_stored_messages as nat,
            message_tokens(m),
            1,
        );
    }
}

/// The token count of a context is that of the messages in it.
pub proof fn law_tokens_counted(c: ContextModel, m: StoredMessage, config: MemoryConfig)
    ensures
        updated(c, m, config).total_tokens == sum(
            token_estimates(updated(c, m, config).messages),
        ),
        updated(c, m, config).conversation_id == c.conversation_id,
        updated(c, m, config).max_context_tokens == c.max_context_tokens,
{
}

} // verus!
