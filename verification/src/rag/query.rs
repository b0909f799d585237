//! What is looked for, and within which limits.

use crate::chat::message::{ChatMessage, UserContent};
use crate::error::ServerError;
use crate::text::{
    ends_with, finishes_with, join, join_text, texts, trim_end_matches, without_suffixes,
};
use vstd::prelude::*;
use vstd::string::*;

verus! {

/// Limits of a search. Floating-point numbers stand as their bits (IEEE 754).
#[derive(Debug, Clone, Copy)]
pub struct SearchFilter {
    /// The most hits.
    pub limit: u64,
    /// The least score, in single precision.
    pub score_threshold: u32,
    /// The weight of keyword hits against vector hits, in double precision.
    pub weighted_alpha: u64,
}

/// The most hits where a request does not say.
pub const DEFAULT_FILTER_LIMIT: u64 = 10;

/// The least score where a request does not say: 0.5.
pub const DEFAULT_FILTER_SCORE_THRESHOLD: u32 = 0x3f00_0000;

/// The weight of keyword hits where a request does not say: 0.5.
pub const DEFAULT_FILTER_WEIGHTED_ALPHA: u64 = 0x3fe0_0000_0000_0000;

/// The limits of a search: what the request says, and the defaults where it does not.
pub fn search_filter(limit: Option<u64>, score_threshold: Option<u32>, weighted_alpha: Option<u64>) -> (r:
    SearchFilter)
    ensures
        r.limit == match limit {
            Some(n) => n,
            None => DEFAULT_FILTER_LIMIT,
        },
        r.score_threshold == match score_threshold {
            Some(n) => n,
            None => DEFAULT_FILTER_SCORE_THRESHOLD,
        },
        r.weighted_alpha == match weighted_alpha {
            Some(n) => n,
            None => DEFAULT_FILTER_WEIGHTED_ALPHA,
        },
{
    SearchFilter {
        limit: match limit {
            Some(n) => n,
            None => DEFAULT_FILTER_LIMIT,
        },
        score_threshold: match score_threshold {
            Some(n) => n,
            None => DEFAULT_FILTER_SCORE_THRESHOLD,
        },
        weighted_alpha: match weighted_alpha {
            Some(n) => n,
            None => DEFAULT_FILTER_WEIGHTED_ALPHA,
        },
    }
}

impl ServerError {
    /// This is a `BadRequest` error with the message `m`.
    pub open spec fn is_bad_request(self, m: Seq<char>) -> bool {
        match self {
            ServerError::BadRequest(t) => t@ == m,
            _ => false,
        }
    }

    /// A `BadRequest` error with the message `m`.
    pub fn bad_request(m: &str) -> (r: ServerError)
        ensures
            r.is_bad_request(m@),
    {
        ServerError::BadRequest(m.to_owned())
    }
}

/// What a chat asks for: the text of its last message, which has to be a user's.
pub fn query_text(messages: &Vec<ChatMessage>) -> (r: Result<String, ServerError>)
    ensures
        if messages@.len() > 0 && messages@.last() is User {
            match messages@.last() {
                ChatMessage::User { content: UserContent::Text(t), name } => r matches Ok(q) && q@
                    == t@,
                _ => r matches Err(e) && e.is_bad_request(
                    "The last message in the request is not a text-only user message"@,
                ),
            }
        } else {
            r matches Err(e) && e.is_bad_request(
                "The last message in the request is not a user message"@,
            )
        },
{
    if messages.len() > 0 {
        if let ChatMessage::User { content, .. } = &messages[messages.len() - 1] {
            return match content {
                UserContent::Text(t) => Ok(t.clone()),
                _ => Err(
                    ServerError::bad_request(
                        "The last message in the request is not a text-only user message",
                    ),
                ),
            };
        }
    }
    Err(ServerError::bad_request("The last message in the request is not a user message"))
}

// ---------------------------------------------------------------------------
// The last user messages
// ---------------------------------------------------------------------------

/// What marks a message that asks how the server is.
pub const HEALTH_MARK: &'static str = "<server-health>";

/// The text of a user message.
pub open spec fn user_text(m: ChatMessage) -> Option<Seq<char>> {
    match m {
        ChatMessage::User { content: UserContent::Text(t), name } => Some(t@),
        _ => None,
    }
}

/// The texts of the last user messages, from the last one backwards: behind those
/// in `found` come the ones in `s`. A message with the mark counts only as the very
/// last of the chat, without the mark, and then it alone. After each message the
/// search ends when there are `window` of them.
pub open spec fn gather(s: Seq<ChatMessage>, window: nat, found: Seq<Seq<char>>, at_end: bool) -> Seq<
    Seq<char>,
>
    decreases s.len(),
{
    if s.len() == 0 {
        found
    } else {
        let t = user_text(s.last());
        let marked = t matches Some(x) && finishes_with(x, HEALTH_MARK@);
        if marked && at_end {
            found.push(without_suffixes(t->0, HEALTH_MARK@))
        } else {
            let next = if t is Some && !marked {
                found.push(t->0)
            } else {
                found
            };
            if next.len() == window {
                next
            } else {
                gather(s.drop_last(), window, next, false)
            }
        }
    }
}

/// The texts of the last user messages, in the order of the chat.
pub open spec fn recent_texts(s: Seq<ChatMessage>, window: nat) -> Seq<Seq<char>> {
    gather(s, window, Seq::empty(), true).reverse()
}

/// `q` is what a chat asks for in its last user messages: their texts, a line each.
pub open spec fn is_query_of(messages: Seq<ChatMessage>, window: nat, q: Seq<char>) -> bool {
    recent_texts(messages, window).len() > 0 && q == join_text(
        recent_texts(messages, window),
        "\n"@,
    )
}

/// What a chat asks for in its last user messages, as many as `window` says.
pub fn context_query(messages: &Vec<ChatMessage>, window: usize) -> (r: Result<String, ServerError>)
    ensures
        if messages@.len() == 0 {
            r matches Err(e) && e.is_bad_request("Found empty chat messages"@)
        } else if recent_texts(messages@, window as nat).len() == 0 {
            r matches Err(e) && e.is_bad_request("No user messages found."@)
        } else {
            r matches Ok(q) && q@ == join_text(recent_texts(messages@, window as nat), "\n"@)
        },
        r matches Ok(q) ==> is_query_of(messages@, window as nat, q@),
{
    if messages.len() == 0 {
        return Err(ServerError::bad_request("Found empty chat messages"));
    }
    proof {
        reveal_strlit("<server-health>");
    }
    let ghost all = gather(messages@, window as nat, Seq::empty(), true);
    let mut found: Vec<String> = Vec::new();
    let n: usize = messages.len();
    let mut i: usize = n;
    assert(messages@.take(n as int) =~= messages@);
    assert(texts(found@) =~= Seq::empty());
    while i > 0
        invariant_except_break
            n == messages@.len(),
            i <= n,
            HEALTH_MARK@.len() > 0,
            gather(messages@.take(i as int), window as nat, texts(found@), i == n) == all,
        ensures
            texts(found@) == all,
        decreases i,
    {
        let ghost before = found@;
        let ghost s = messages@.take(i as int);
        assert(s.last() == messages@[i - 1]);
        assert(s.drop_last() =~= messages@.take(i - 1));
        assert(texts(found@).len() == found@.len());
        if let ChatMessage::User { content, .. } = &messages[i - 1] {
            if let UserContent::Text(t) = content {
                if !ends_with(t.as_str(), HEALTH_MARK) {
                    found.push(t.clone());
                    assert(texts(found@) =~= texts(before).push(t@));
                } else if i == n {
                    let text = trim_end_matches(t.as_str(), HEALTH_MARK);
                    found.push(text);
                    assert(texts(found@) =~= texts(before).push(text@));
                    break ;
                }
            }
        }
        assert(texts(found@).len() == found@.len());
        if found.len() == window {
            break ;
        }
        i = i - 1;
    }
    assert(texts(found@).len() == found@.len());
    if found.len() == 0 {
        return Err(ServerError::bad_request("No user messages found."));
    }
    let mut ordered: Vec<String> = Vec::new();
    let mut k: usize = found.len();
    while k > 0
        invariant
            k <= found@.len(),
            ordered@.len() == found@.len() - k,
            forall|j: int|
                0 <= j < ordered@.len() ==> (#[trigger] ordered@[j])@ == found@[found@.len() - 1
                    - j]@,
        decreases k,
    {
        ordered.push(found[k - 1].clone());
        k = k - 1;
    }
    assert(texts(ordered@) =~= recent_texts(messages@, window as nat));
    Ok(join(&ordered, "\n"))
}

/// The number of user messages that count: what the request says, or what is configured.
pub fn context_window(requested: Option<u64>, configured: u64) -> (r: u64)
    ensures
        r == match requested {
            Some(n) => n,
            None => configured,
        },
{
    match requested {
        Some(n) => n,
        None => configured,
    }
}

// ---------------------------------------------------------------------------
// Collections
// ---------------------------------------------------------------------------

/// A collection that is searched, and the limits of the search.
#[derive(Debug, Clone)]
pub struct QdrantConfig {
    pub collection_name: String,
    pub limit: u64,
    /// The least score, in single precision, as its bits.
    pub score_threshold: u32,
}

/// The collections that a request names.
pub fn get_qdrant_configs(names: &Option<Vec<String>>, limit: u64, score_threshold: u32) -> (r: Result<
    Vec<QdrantConfig>,
    ServerError,
>)
    ensures
        match *names {
            Some(v) if v@.len() > 0 => r matches Ok(c) && c@.len() == v@.len() && forall|i: int|
                0 <= i < v@.len() ==> #[trigger] c@[i] == (QdrantConfig {
                    collection_name: v@[i],
                    limit,
                    score_threshold,
                }),
            _ => r matches Err(e) && e.is_operation(
                "The settings for vector search in the request are not correct. The `vdb_collection_name` field in the request should be provided."@,
            ),
        },
{
    if let Some(v) = names {
        if v.len() > 0 {
            let mut c: Vec<QdrantConfig> = Vec::new();
            let mut i: usize = 0;
            while i < v.len()
                invariant
                    i <= v@.len(),
                    c@.len() == i,
                    forall|j: int|
                        0 <= j < i ==> #[trigger] c@[j] == (QdrantConfig {
                            collection_name: v@[j],
                            limit,
                            score_threshold,
                        }),
                decreases v@.len() - i,
            {
                c.push(QdrantConfig { collection_name: v[i].clone(), limit, score_threshold });
                i = i + 1;
            }
            return Ok(c);
        }
    }
    Err(
        ServerError::operation(
            "The settings for vector search in the request are not correct. The `vdb_collection_name` field in the request should be provided.",
        ),
    )
}

/// The collections that a chat searches: those that its request names. A chat that names
/// none is told so.
pub fn chat_collections(names: &Option<Vec<String>>, limit: u64, score_threshold: u32) -> (r: Result<
    Vec<QdrantConfig>,
    ServerError,
>)
    ensures
        match *names {
            Some(v) if v@.len() > 0 => r matches Ok(c) && c@.len() == v@.len() && forall|i: int|
                0 <= i < v@.len() ==> #[trigger] c@[i] == (QdrantConfig {
                    collection_name: v@[i],
                    limit,
                    score_threshold,
                }),
            _ => r matches Err(e) && exists|cause: ServerError| #[trigger]
                cause.is_operation(
                    "The settings for vector search in the request are not correct. The `vdb_collection_name` field in the request should be provided."@,
                ) && e.is_operation("Failed to get the VectorDB config: "@ + cause.words()),
        },
{
    match get_qdrant_configs(names, limit, score_threshold) {
        Ok(c) => Ok(c),
        Err(e) => {
            let mut m = "Failed to get the VectorDB config: ".to_owned();
            m.append(e.message().as_str());
            Err(ServerError::Operation(m))
        },
    }
}

} // verus!
