//! Helpers for chat processing.

use super::message::{ChatMessage, ToolCall, UserContent};
use crate::clock::now;
use crate::json::{compact, compact_json, json_or, json_string, string_to_json};
use crate::memory::types::{StoredToolCall, StoredToolResult};
use crate::pattern::opt_text;
use crate::text::{chars_of, is_space, is_whitespace, join, join_text, texts};
use vstd::prelude::*;
use vstd::string::*;

verus! {

// ---------------------------------------------------------------------------
// Messages of a request
// ---------------------------------------------------------------------------

/// The parts that can be written in JSON, in order.
pub open spec fn written_parts(parts: Seq<Option<String>>) -> Seq<Seq<char>>
    decreases parts.len(),
{
    if parts.len() == 0 {
        Seq::empty()
    } else {
        match parts.last() {
            Some(t) => written_parts(parts.drop_last()).push(t@),
            None => written_parts(parts.drop_last()),
        }
    }
}

/// What a user message says: its text, or its parts with blanks between them.
pub open spec fn said(m: ChatMessage) -> Option<Seq<char>> {
    match m {
        ChatMessage::User { content: UserContent::Text(t), name } => Some(t@),
        ChatMessage::User { content: UserContent::Parts(parts), name } => if written_parts(
            parts@,
        ).len() == 0 {
            None
        } else {
            Some(join_text(written_parts(parts@), " "@))
        },
        _ => None,
    }
}

/// What the last user message that says something says.
pub open spec fn last_said(messages: Seq<ChatMessage>) -> Option<Seq<char>>
    decreases messages.len(),
{
    if messages.len() == 0 {
        None
    } else if said(messages.last()) is Some {
        said(messages.last())
    } else {
        last_said(messages.drop_last())
    }
}

/// What the first system message says.
pub open spec fn first_system(messages: Seq<ChatMessage>) -> Option<Seq<char>>
    decreases messages.len(),
{
    if messages.len() == 0 {
        None
    } else {
        match messages[0] {
            ChatMessage::System { content, name } => Some(content@),
            _ => first_system(messages.drop_first()),
        }
    }
}

fn message_said(m: &ChatMessage) -> (r: Option<String>)
    ensures
        opt_text(r) == said(*m),
{
    match m {
        ChatMessage::User { content, .. } => match content {
            UserContent::Text(t) => Some(t.clone()),
            UserContent::Parts(parts) => {
                let mut written: Vec<String> = Vec::new();
                let mut i: usize = 0;
                assert(texts(written@) =~= written_parts(parts@.take(0)));
                while i < parts.len()
                    invariant
                        i <= parts@.len(),
                        texts(written@) == written_parts(parts@.take(i as int)),
                    decreases parts@.len() - i,
                {
                    assert(parts@.take(i + 1).drop_last() =~= parts@.take(i as int));
                    let ghost before = written@;
                    if let Some(t) = &parts[i] {
                        written.push(t.clone());
                        assert(texts(written@) =~= texts(before).push(t@));
                    }
                    i = i + 1;
                }
                assert(parts@.take(parts@.len() as int) =~= parts@);
                assert(texts(written@).len() == written@.len());
                if written.len() == 0 {
                    None
                } else {
                    Some(join(&written, " "))
                }
            },
        },
        _ => None,
    }
}

/// What the user says in a request: what the last user message that says
/// something says.
pub fn extract_user_message(messages: &Vec<ChatMessage>) -> (r: Option<String>)
    ensures
        opt_text(r) == last_said(messages@),
{
    let mut i: usize = messages.len();
    assert(messages@.take(i as int) =~= messages@);
    while i > 0
        invariant
            i <= messages@.len(),
            last_said(messages@) == last_said(messages@.take(i as int)),
        decreases i,
    {
        assert(messages@.take(i as int).drop_last() =~= messages@.take(i - 1));
        let r = message_said(&messages[i - 1]);
        if r.is_some() {
            return r;
        }
        i = i - 1;
    }
    None
}

/// What the first system message of a request says.
pub fn extract_system_message(messages: &Vec<ChatMessage>) -> (r: Option<String>)
    ensures
        opt_text(r) == first_system(messages@),
{
    let mut i: usize = 0;
    assert(messages@.skip(0) =~= messages@);
    while i < messages.len()
        invariant
            i <= messages@.len(),
            first_system(messages@) == first_system(messages@.skip(i as int)),
        decreases messages@.len() - i,
    {
        assert(messages@.skip(i as int).drop_first() =~= messages@.skip(i + 1));
        if let ChatMessage::System { content, .. } = &messages[i] {
            return Some(content.clone());
        }
        i = i + 1;
    }
    None
}

// ---------------------------------------------------------------------------
// Tool calls in memory
// ---------------------------------------------------------------------------

/// `s` is the call `c` at position `i`, as it is kept before its result is known.
/// Arguments that are not JSON are kept as a JSON string.
pub open spec fn is_stored_call(c: ToolCall, i: int, s: StoredToolCall) -> bool {
    &&& s.id@ == c.id@
    &&& s.name@ == c.name@
    &&& s.arguments@ == json_or(compact_json(c.arguments@), json_string(c.arguments@))
    &&& s.result is None
    &&& s.sequence == i as i32
}

/// How arguments are kept, where `parsed` is their value in compact JSON: a text
/// without a value is kept as a JSON string.
pub fn stored_arguments(raw: &str, parsed: Option<String>) -> (r: String)
    ensures
        r@ == json_or(opt_text(parsed), json_string(raw@)),
{
    match parsed {
        Some(v) => v,
        None => string_to_json(raw),
    }
}

/// `r` are the calls `s`, as they are kept.
pub open spec fn are_stored_calls(s: Seq<ToolCall>, r: Seq<StoredToolCall>) -> bool {
    &&& r.len() == s.len()
    &&& forall|i: int| 0 <= i < r.len() ==> is_stored_call(s[i], i, #[trigger] r[i])
}

/// Tool calls, as they are kept.
pub fn convert_tool_calls_to_stored(tool_calls: &Vec<ToolCall>) -> (r: Vec<StoredToolCall>)
    ensures
        r@.len() == tool_calls@.len(),
        forall|i: int| 0 <= i < r@.len() ==> is_stored_call(tool_calls@[i], i, #[trigger] r@[i]),
        are_stored_calls(tool_calls@, r@),
{
    let mut r: Vec<StoredToolCall> = Vec::new();
    let mut i: usize = 0;
    while i < tool_calls.len()
        invariant
            i <= tool_calls@.len(),
            r@.len() == i,
            forall|j: int| 0 <= j < i ==> is_stored_call(tool_calls@[j], j, #[trigger] r@[j]),
        decreases tool_calls@.len() - i,
    {
        let c = &tool_calls[i];
        let arguments = stored_arguments(c.arguments.as_str(), compact(c.arguments.as_str()));
        let sequence: i32 = sequence_number(i);
        r.push(
            StoredToolCall {
                id: c.id.clone(),
                name: c.name.clone(),
                arguments,
                result: None,
                sequence,
            },
        );
        i = i + 1;
    }
    r
}

#[verifier::truncate]
fn sequence_number(i: usize) -> (r: i32)
    ensures
        r == i as i32,
{
    i as i32
}

/// `s` is the result `t` of a call that succeeded, as it is kept.
pub open spec fn is_stored_result(t: Seq<char>, s: StoredToolResult) -> bool {
    &&& s.content@ == json_string(t)
    &&& s.success
    &&& s.error is None
    &&& s.execution_time_ms is None
}

/// `after` are the calls `before` with these results, one by one as far as both go.
pub open spec fn are_results_added(
    before: Seq<StoredToolCall>,
    results: Seq<String>,
    after: Seq<StoredToolCall>,
) -> bool {
    &&& after.len() == before.len()
    &&& forall|i: int|
        0 <= i < before.len() ==> if i < results.len() {
            &&& (#[trigger] after[i]) == (StoredToolCall { result: after[i].result, ..before[i] })
            &&& after[i].result matches Some(s) && is_stored_result(results[i]@, s)
        } else {
            after[i] == before[i]
        }
}

/// Puts results to the calls that they belong to, one by one as far as both go.
pub fn add_tool_results_to_stored(
    stored_tool_calls: &mut Vec<StoredToolCall>,
    tool_results: &Vec<String>,
)
    ensures
        final(stored_tool_calls)@.len() == old(stored_tool_calls)@.len(),
        forall|i: int|
            0 <= i < old(stored_tool_calls)@.len() ==> {
                let before = old(stored_tool_calls)@[i];
                let after = #[trigger] final(stored_tool_calls)@[i];
                if i < tool_results@.len() {
                    &&& after == (StoredToolCall { result: after.result, ..before })
                    &&& after.result matches Some(s) && is_stored_result(tool_results@[i]@, s)
                } else {
                    after == before
                }
            },
        are_results_added(
            old(stored_tool_calls)@,
            tool_results@,
            final(stored_tool_calls)@,
        ),
{
    let ghost before = stored_tool_calls@;
    let mut i: usize = 0;
    while i < stored_tool_calls.len() && i < tool_results.len()
        invariant
            stored_tool_calls@.len() == before.len(),
            i <= before.len(),
            i <= tool_results@.len(),
            forall|j: int|
                0 <= j < before.len() ==> {
                    let after = #[trigger] stored_tool_calls@[j];
                    if j < i {
                        &&& after == (StoredToolCall { result: after.result, ..before[j] })
                        &&& after.result matches Some(s) && is_stored_result(tool_results@[j]@, s)
                    } else {
                        after == before[j]
                    }
                },
        decreases before.len() - i,
    {
        let result = StoredToolResult {
            content: string_to_json(tool_results[i].as_str()),
            success: true,
            error: None,
            execution_time_ms: None,
            timestamp: now(),
        };
        stored_tool_calls[i].result = Some(result);
        i = i + 1;
    }
}

// ---------------------------------------------------------------------------
// Chunks
// ---------------------------------------------------------------------------

/// Where the characters from `from` on are `size` in number, or the end.
pub open spec fn fill_end(s: Seq<char>, from: int, size: nat) -> int {
    if from + size < s.len() {
        from + size
    } else {
        s.len() as int
    }
}

/// The first position from `k` on with white space, or the end.
pub open spec fn word_end(s: Seq<char>, k: int) -> int
    decreases s.len() - k,
{
    if 0 <= k < s.len() && !is_space(s[k]) {
        word_end(s, k + 1)
    } else {
        k
    }
}

/// The first position from `k` on without white space or with a line break, or the end.
pub open spec fn gap_end(s: Seq<char>, k: int) -> int
    decreases s.len() - k,
{
    if 0 <= k < s.len() && is_space(s[k]) && s[k] != '\n' {
        gap_end(s, k + 1)
    } else {
        k
    }
}

/// Where the chunk that begins at `from` ends: once it is full, behind the word
/// that it reached, the white space behind that, and one line break.
pub open spec fn chunk_end(s: Seq<char>, from: int, size: nat) -> int {
    let a = fill_end(s, from, size);
    let c = gap_end(s, word_end(s, a));
    if a >= s.len() {
        a
    } else if c < s.len() && s[c] == '\n' {
        c + 1
    } else {
        c
    }
}

/// The chunks of `s` from `from` on.
pub open spec fn chunks_from(s: Seq<char>, from: int, size: nat) -> Seq<Seq<char>>
    decreases s.len() - from,
{
    let end = chunk_end(s, from, size);
    if 0 <= from < end <= s.len() {
        seq![s.subrange(from, end)] + chunks_from(s, end, size)
    } else {
        Seq::empty()
    }
}

proof fn lemma_word_end(s: Seq<char>, k: int)
    requires
        0 <= k <= s.len(),
    ensures
        k <= word_end(s, k) <= s.len(),
        word_end(s, k) < s.len() ==> is_space(s[word_end(s, k)]),
    decreases s.len() - k,
{
    if k < s.len() && !is_space(s[k]) {
        lemma_word_end(s, k + 1);
    }
}

proof fn lemma_gap_end(s: Seq<char>, k: int)
    requires
        0 <= k <= s.len(),
    ensures
        k <= gap_end(s, k) <= s.len(),
        k < s.len() && is_space(s[k]) && s[k] != '\n' ==> k < gap_end(s, k),
    decreases s.len() - k,
{
    if k < s.len() && is_space(s[k]) && s[k] != '\n' {
        lemma_gap_end(s, k + 1);
    }
}

/// A chunk ends behind its beginning and within the text.
pub proof fn lemma_chunk_end(s: Seq<char>, from: int, size: nat)
    requires
        0 <= from < s.len(),
    ensures
        from < chunk_end(s, from, size) <= s.len(),
{
    let a = fill_end(s, from, size);
    if a < s.len() {
        lemma_word_end(s, a);
        lemma_gap_end(s, word_end(s, a));
    }
}

/// Cuts a text into chunks of about `chunk_size` characters, without cutting words.
pub fn gen_chunks_with_formatting(text: &str, chunk_size: usize) -> (r: Vec<String>)
    ensures
        texts(r@) == chunks_from(text@, 0, chunk_size as nat),
{
    let chars = chars_of(text);
    let n: usize = chars.len();
    let ghost s = text@;
    let ghost size = chunk_size as nat;
    let mut chunks: Vec<String> = Vec::new();
    let mut i: usize = 0;
    assert(texts(chunks@) =~= Seq::empty());
    assert(texts(chunks@) + chunks_from(s, 0, size) =~= chunks_from(s, 0, size));
    while i < n
        invariant
            chars@ == s,
            n == s.len(),
            size == chunk_size,
            i <= n,
            texts(chunks@) + chunks_from(s, i as int, size) == chunks_from(s, 0, size),
        decreases n - i,
    {
        let first: usize = i;
        let ghost from = first as int;
        let mut chunk = String::new();
        assert(chunk@ =~= s.subrange(from, from));
        while i < n && i - first < chunk_size
            invariant
                chars@ == s,
                n == s.len(),
                size == chunk_size,
                from == first,
                first <= i <= n,
                i - first <= chunk_size,
                chunk@ == s.subrange(from, i as int),
            decreases n - i,
        {
            chunk.push(chars[i]);
            assert(s.subrange(from, i + 1) =~= s.subrange(from, i as int).push(s[i as int]));
            i = i + 1;
        }
        if i < n {
            let ghost a = i as int;
            while i < n && !is_whitespace(chars[i])
                invariant
                    chars@ == s,
                    n == s.len(),
                    0 <= from <= a <= i <= n,
                    chunk@ == s.subrange(from, i as int),
                    word_end(s, a) == word_end(s, i as int),
                decreases n - i,
            {
                chunk.push(chars[i]);
                assert(s.subrange(from, i + 1) =~= s.subrange(from, i as int).push(s[i as int]));
                i = i + 1;
            }
            let ghost b = i as int;
            while i < n && is_whitespace(chars[i]) && chars[i] != '\n'
                invariant
                    chars@ == s,
                    n == s.len(),
                    0 <= from <= b <= i <= n,
                    chunk@ == s.subrange(from, i as int),
                    gap_end(s, b) == gap_end(s, i as int),
                decreases n - i,
            {
                chunk.push(chars[i]);
                assert(s.subrange(from, i + 1) =~= s.subrange(from, i as int).push(s[i as int]));
                i = i + 1;
            }
            if i < n && chars[i] == '\n' {
                chunk.push(chars[i]);
                assert(s.subrange(from, i + 1) =~= s.subrange(from, i as int).push(s[i as int]));
                i = i + 1;
            }
        }
        assert(i == chunk_end(s, from, size));
        proof {
            lemma_chunk_end(s, from, size);
        }
        let ghost before = chunks@;
        if !chunk.as_str().is_empty() {
            chunks.push(chunk);
        }
        assert(texts(chunks@) =~= texts(before) + seq![s.subrange(from, i as int)]);
        assert(texts(chunks@) + chunks_from(s, i as int, size) =~= texts(before) + chunks_from(
            s,
            from,
            size,
        ));
    }
    assert(texts(chunks@) + chunks_from(s, i as int, size) =~= texts(chunks@));
    chunks
}

// ---------------------------------------------------------------------------
// Laws
// ---------------------------------------------------------------------------

/// The chunks of a text, one after the other, are the text: nothing is lost,
/// neither words nor formatting, and no chunk is empty.
pub proof fn law_chunks_keep_text(s: Seq<char>, from: int, size: nat)
    requires
        0 <= from <= s.len(),
    ensures
        join_text(chunks_from(s, from, size), Seq::empty()) == s.skip(from),
        forall|i: int|
            0 <= i < chunks_from(s, from, size).len() ==> (#[trigger] chunks_from(
                s,
                from,
                size,
            )[i]).len() > 0,
    decreases s.len() - from,
{
    if from < s.len() {
        lemma_chunk_end(s, from, size);
        let end = chunk_end(s, from, size);
        law_chunks_keep_text(s, end, size);
        let rest = chunks_from(s, end, size);
        let all = chunks_from(s, from, size);
        assert(all.drop_first() =~= rest);
        assert(s.skip(from) =~= s.subrange(from, end) + s.skip(end));
        if rest.len() == 0 {
            assert(join_text(rest, Seq::empty()) =~= Seq::empty());
            assert(s.skip(end) =~= Seq::empty());
            assert(s.subrange(from, end) =~= s.skip(from));
        } else {
            assert(s.subrange(from, end) + Seq::<char>::empty() + s.skip(end) =~= s.skip(from));
        }
        assert forall|i: int| 0 <= i < all.len() implies (#[trigger] all[i]).len() > 0 by {
            if i > 0 {
                assert(all[i] == rest[i - 1]);
            }
        }
    } else {
        assert(chunks_from(s, from, size) =~= Seq::empty());
        assert(s.skip(from) =~= Seq::empty());
    }
}

/// A chunk that is not the last ends with white space, so no word is cut.
pub proof fn law_chunks_keep_words(s: Seq<char>, from: int, size: nat)
    requires
        0 <= from < s.len(),
        chunk_end(s, from, size) < s.len(),
    ensures
        from < chunk_end(s, from, size),
        is_space(s[chunk_end(s, from, size) - 1]),
{
    lemma_chunk_end(s, from, size);
    let a = fill_end(s, from, size);
    lemma_word_end(s, a);
    let b = word_end(s, a);
    lemma_gap_end(s, b);
    lemma_gap_space(s, b);
}

/// A chunk that is not the last has at least `size` characters, and what it has beyond
/// them is the rest of a word and the white space behind it.
pub proof fn law_chunks_are_full(s: Seq<char>, from: int, size: nat)
    requires
        0 <= from < s.len(),
        chunk_end(s, from, size) < s.len(),
    ensures
        from + size <= word_end(s, from + size) <= chunk_end(s, from, size),
        forall|i: int|
            from + size <= i < word_end(s, from + size) ==> !is_space(#[trigger] s[i]),
        forall|i: int|
            word_end(s, from + size) <= i < chunk_end(s, from, size) ==> is_space(#[trigger] s[i]),
{
    let a = from + size;
    lemma_chunk_end(s, from, size);
    lemma_word_end(s, a);
    let b = word_end(s, a);
    lemma_gap_end(s, b);
    lemma_word_chars(s, a);
    lemma_gap_chars(s, b);
}

proof fn lemma_word_chars(s: Seq<char>, k: int)
    requires
        0 <= k,
    ensures
        forall|i: int| k <= i < word_end(s, k) ==> !is_space(#[trigger] s[i]),
    decreases s.len() - k,
{
    if k < s.len() && !is_space(s[k]) {
        lemma_word_chars(s, k + 1);
    }
}

proof fn lemma_gap_chars(s: Seq<char>, k: int)
    requires
        0 <= k,
    ensures
        forall|i: int| k <= i < gap_end(s, k) ==> is_space(#[trigger] s[i]),
    decreases s.len() - k,
{
    if k < s.len() && is_space(s[k]) && s[k] != '\n' {
        lemma_gap_chars(s, k + 1);
    }
}

proof fn lemma_gap_space(s: Seq<char>, k: int)
    requires
        0 <= k <= s.len(),
    ensures
        k <= gap_end(s, k) <= s.len(),
        gap_end(s, k) > k ==> is_space(s[gap_end(s, k) - 1]),
    decreases s.len() - k,
{
    if k < s.len() && is_space(s[k]) && s[k] != '\n' {
        lemma_gap_space(s, k + 1);
    }
}

} // verus!
