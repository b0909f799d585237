//! Summaries of messages.

use crate::memory::types::{StoredMessage, StoredToolCall};
use crate::text::{
    begins_with, contains, decimal, decimal_text, find_from, has_text, lemma_find_from,
    lemma_find_from_is, lemma_find_from_none, lemma_split_first, lemma_split_none, occurs_at,
    slices, split, split_text,
};
use vstd::prelude::*;
use vstd::string::*;

verus! {

/// Makes summaries of messages.
#[derive(Debug, Clone)]
pub struct MessageSummarizer {
    /// The model that summarises, if one is set.
    pub model_name: Option<String>,
}

/// What a prompt asks for at its end.
pub const SUMMARY_REQUEST: &'static str = "\\nProvide a concise summary that captures:\\n\\
             1. Main topics discussed\\n\\
             2. Key decisions or conclusions\\n\\
             3. Tools used and their purposes\\n\\
             4. Any unresolved issues\\n\\n\\
             Summary:";

/// How a tool call is told of in a prompt.
pub open spec fn call_line(c: StoredToolCall) -> Seq<char> {
    "  Used tool: "@ + c.name@ + match c.result {
        None => "\\n"@,
        Some(r) => if r.success {
            " (successful)\\n"@
        } else {
            " (failed: "@ + (match r.error {
                Some(e) => e@,
                None => "unknown error"@,
            }) + ")\\n"@
        },
    }
}

/// How tool calls are told of in a prompt.
pub open spec fn call_lines(s: Seq<StoredToolCall>) -> Seq<char>
    decreases s.len(),
{
    if s.len() == 0 {
        Seq::empty()
    } else {
        call_lines(s.drop_last()) + call_line(s.last())
    }
}

/// How a message is told of in a prompt.
pub open spec fn message_lines(m: StoredMessage) -> Seq<char> {
    "**"@ + m.role.name() + ":** "@ + m.content@ + "\\n"@ + call_lines(m.tool_calls@) + seq!['\n']
}

/// How messages are told of in a prompt.
pub open spec fn all_lines(s: Seq<StoredMessage>) -> Seq<char>
    decreases s.len(),
{
    if s.len() == 0 {
        Seq::empty()
    } else {
        all_lines(s.drop_last()) + message_lines(s.last())
    }
}

/// What a prompt begins with.
pub open spec fn prompt_head(existing: Option<Seq<char>>) -> Seq<char> {
    match existing {
        Some(s) => "Previous conversation summary:\\n"@ + s
            + "\\n\\nNew messages to incorporate:\\n\\n"@,
        None => "Please summarize the following conversation:\\n\\n"@,
    }
}

/// The prompt for a summary of `s`.
pub open spec fn summary_prompt(s: Seq<StoredMessage>, existing: Option<Seq<char>>) -> Seq<char> {
    prompt_head(existing) + all_lines(s) + SUMMARY_REQUEST@
}

/// The number of places at which `pat` stands in `s`, without overlap.
pub open spec fn match_count(s: Seq<char>, pat: Seq<char>) -> int {
    split_text(s, pat).len() - 1
}

/// The summary that a prompt gives.
pub open spec fn summary_of_prompt(prompt: Seq<char>) -> Seq<char> {
    "Conversation with "@ + decimal((match_count(prompt, "**"@) / 2) as nat) + " messages"@ + (
    if has_text(prompt, "Used tool:"@) {
        " involving tool usage"@
    } else {
        Seq::empty()
    }) + seq!['.']
}

/// The summary of the messages `s`, of which `existing` sums up what came before.
pub open spec fn summary_spec(s: Seq<StoredMessage>, existing: Option<Seq<char>>) -> Seq<char> {
    if s.len() == 0 {
        match existing {
            Some(t) => t,
            None => Seq::empty(),
        }
    } else {
        summary_of_prompt(summary_prompt(s, existing))
    }
}

/// The text of a value that may be missing.
pub open spec fn opt_str(s: Option<&str>) -> Option<Seq<char>> {
    match s {
        Some(s) => Some(s@),
        None => None,
    }
}

impl MessageSummarizer {
    /// A summarizer that uses this model.
    pub fn new(model_name: Option<String>) -> (r: MessageSummarizer)
        ensures
            r.model_name == model_name,
    {
        MessageSummarizer { model_name }
    }

    /// The prompt for a summary.
    pub fn build_summary_prompt(
        &self,
        messages: &Vec<StoredMessage>,
        existing_summary: Option<&str>,
    ) -> (r: String)
        ensures
            r@ == summary_prompt(messages@, opt_str(existing_summary)),
    {
        let mut prompt = match existing_summary {
            Some(s) => {
                let mut p = "Previous conversation summary:\\n".to_owned();
                p.append(s);
                p.append("\\n\\nNew messages to incorporate:\\n\\n");
                p
            },
            None => "Please summarize the following conversation:\\n\\n".to_owned(),
        };
        let ghost head = prompt_head(opt_str(existing_summary));
        let mut i: usize = 0;
        assert(prompt@ =~= head + all_lines(messages@.take(0)));
        while i < messages.len()
            invariant
                i <= messages@.len(),
                prompt@ == head + all_lines(messages@.take(i as int)),
            decreases messages@.len() - i,
        {
            let m = &messages[i];
            let ghost before = prompt@;
            prompt.append("**");
            prompt.append(m.role.to_text());
            prompt.append(":** ");
            prompt.append(m.content.as_str());
            prompt.append("\\n");
            append_calls(&mut prompt, &m.tool_calls);
            prompt.push('\n');
            assert(prompt@ =~= before + message_lines(*m));
            assert(messages@.take(i + 1).drop_last() =~= messages@.take(i as int));
            assert(prompt@ =~= head + all_lines(messages@.take(i + 1)));
            i = i + 1;
        }
        assert(messages@.take(messages@.len() as int) =~= messages@);
        prompt.append(SUMMARY_REQUEST);
        prompt
    }

    /// The summary that a prompt gives: how many messages it holds, and whether tools were used.
    pub fn generate_summary_via_llm(&self, prompt: &str) -> (r: String)
        ensures
            r@ == summary_of_prompt(prompt@),
    {
        proof {
            reveal_strlit("**");
        }
        let pieces = split(prompt, "**");
        proof {
            assert(slices(pieces@).len() == pieces@.len());
            crate::text::lemma_split_nonempty(prompt@, "**"@);
        }
        let message_count: usize = (pieces.len() - 1) / 2;
        let mut summary = "Conversation with ".to_owned();
        summary.append(decimal_text(message_count as u64).as_str());
        summary.append(" messages");
        if contains(prompt, "Used tool:") {
            summary.append(" involving tool usage");
        }
        summary.push('.');
        summary
    }

    /// The summary of messages; without messages, the existing summary.
    pub fn summarize_stored_messages(
        &self,
        messages: &Vec<StoredMessage>,
        existing_summary: Option<&str>,
    ) -> (r: String)
        ensures
            r@ == summary_spec(messages@, opt_str(existing_summary)),
    {
        if messages.len() == 0 {
            return match existing_summary {
                Some(s) => s.to_owned(),
                None => String::new(),
            };
        }
        let prompt = self.build_summary_prompt(messages, existing_summary);
        self.generate_summary_via_llm(prompt.as_str())
    }
}

fn append_calls(prompt: &mut String, calls: &Vec<StoredToolCall>)
    ensures
        final(prompt)@ == old(prompt)@ + call_lines(calls@),
{
    let ghost head = prompt@;
    let mut i: usize = 0;
    assert(prompt@ =~= head + call_lines(calls@.take(0)));
    while i < calls.len()
        invariant
            i <= calls@.len(),
            prompt@ == head + call_lines(calls@.take(i as int)),
        decreases calls@.len() - i,
    {
        let c = &calls[i];
        let ghost before = prompt@;
        prompt.append("  Used tool: ");
        prompt.append(c.name.as_str());
        match &c.result {
            Some(r) => {
                if r.success {
                    prompt.append(" (successful)\\n");
                } else {
                    prompt.append(" (failed: ");
                    match &r.error {
                        Some(e) => prompt.append(e.as_str()),
                        None => prompt.append("unknown error"),
                    }
                    prompt.append(")\\n");
                }
            },
            None => prompt.append("\\n"),
        }
        assert(prompt@ =~= before + call_line(*c));
        assert(calls@.take(i + 1).drop_last() =~= calls@.take(i as int));
        assert(prompt@ =~= head + call_lines(calls@.take(i + 1)));
        i = i + 1;
    }
    assert(calls@.take(calls@.len() as int) =~= calls@);
}

// ---------------------------------------------------------------------------
// Laws
// ---------------------------------------------------------------------------

/// There is no star in `s`.
pub open spec fn starless(s: Seq<char>) -> bool {
    forall|i: int| 0 <= i < s.len() ==> #[trigger] s[i] != '*'
}

/// There is no star in what is told of a tool call.
pub open spec fn starless_call(c: StoredToolCall) -> bool {
    starless(c.name@) && (c.result matches Some(r) ==> (r.error matches Some(e) ==> starless(e@)))
}

/// There is no star in what is told of a message.
pub open spec fn starless_message(m: StoredMessage) -> bool {
    &&& starless(m.content@)
    &&& forall|i: int| 0 <= i < m.tool_calls@.len() ==> starless_call(#[trigger] m.tool_calls@[i])
}

/// A text without stars in front changes nothing in the count.
proof fn lemma_count_behind(a: Seq<char>, b: Seq<char>)
    requires
        starless(a),
    ensures
        match_count(a + b, "**"@) == match_count(b, "**"@),
{
    reveal_strlit("**");
    let p = "**"@;
    let s = a + b;
    lemma_find_from(b, p, 0);
    lemma_find_from(s, p, 0);
    assert forall|j: int| 0 <= j < a.len() implies !occurs_at(s, p, j) by {
        if occurs_at(s, p, j) {
            assert(s.subrange(j, j + 2)[0] == p[0]);
            assert(s[j] == a[j]);
        }
    }
    assert forall|j: int| 0 <= j implies occurs_at(s, p, a.len() + j) == #[trigger] occurs_at(b, p, j) by {
        if j + 2 <= b.len() {
            assert(s.subrange(a.len() + j, a.len() + j + 2) =~= b.subrange(j, j + 2));
        }
    }
    match find_from(b, p, 0) {
        Some(i) => {
            assert forall|j: int| 0 <= j < a.len() + i implies !occurs_at(s, p, j) by {
                if j >= a.len() {
                    assert(!occurs_at(b, p, j - a.len()));
                    assert(occurs_at(s, p, a.len() + (j - a.len())) == occurs_at(b, p, j - a.len()));
                }
            }
            assert(occurs_at(s, p, a.len() + i));
            lemma_find_from_is(s, p, 0, a.len() + i);
            assert(s.subrange(a.len() + i + 2, s.len() as int) =~= b.subrange(i + 2, b.len() as int));
        },
        None => {
            assert forall|j: int| 0 <= j implies !occurs_at(s, p, j) by {
                if j >= a.len() {
                    assert(!occurs_at(b, p, j - a.len()));
                    assert(occurs_at(s, p, a.len() + (j - a.len())) == occurs_at(b, p, j - a.len()));
                }
            }
            lemma_find_from_none(s, p, 0);
        },
    }
}

/// Two stars in front count once.
proof fn lemma_count_stars(b: Seq<char>)
    ensures
        match_count("**"@ + b, "**"@) == 1 + match_count(b, "**"@),
{
    reveal_strlit("**");
    let p = "**"@;
    let s = p + b;
    assert(Seq::<char>::empty() + p + b =~= s);
    lemma_split_first(Seq::empty(), p, b);
}

proof fn lemma_starless_concat(a: Seq<char>, b: Seq<char>)
    requires
        starless(a),
        starless(b),
    ensures
        starless(a + b),
{
    assert forall|i: int| 0 <= i < (a + b).len() implies #[trigger] (a + b)[i] != '*' by {
        if i < a.len() {
            assert((a + b)[i] == a[i]);
        } else {
            assert((a + b)[i] == b[i - a.len()]);
        }
    }
}

proof fn lemma_call_line_starless(c: StoredToolCall)
    requires
        starless_call(c),
    ensures
        starless(call_line(c)),
{
    reveal_strlit("  Used tool: ");
    reveal_strlit("\\n");
    reveal_strlit(" (successful)\\n");
    reveal_strlit(" (failed: ");
    reveal_strlit("unknown error");
    reveal_strlit(")\\n");
    lemma_starless_concat("  Used tool: "@, c.name@);
    match c.result {
        None => {
            lemma_starless_concat("  Used tool: "@ + c.name@, "\\n"@);
        },
        Some(r) => {
            if r.success {
                lemma_starless_concat("  Used tool: "@ + c.name@, " (successful)\\n"@);
            } else {
                let e = match r.error {
                    Some(e) => e@,
                    None => "unknown error"@,
                };
                lemma_starless_concat(" (failed: "@, e);
                lemma_starless_concat(" (failed: "@ + e, ")\\n"@);
                lemma_starless_concat(
                    "  Used tool: "@ + c.name@,
                    " (failed: "@ + e + ")\\n"@,
                );
            }
        },
    }
}

proof fn lemma_call_lines_starless(s: Seq<StoredToolCall>)
    requires
        forall|i: int| 0 <= i < s.len() ==> starless_call(#[trigger] s[i]),
    ensures
        starless(call_lines(s)),
    decreases s.len(),
{
    if s.len() > 0 {
        assert forall|i: int| 0 <= i < s.drop_last().len() implies starless_call(
            #[trigger] s.drop_last()[i],
        ) by {
            assert(s.drop_last()[i] == s[i]);
        }
        lemma_call_lines_starless(s.drop_last());
        assert(starless_call(s[s.len() - 1]));
        lemma_call_line_starless(s.last());
        lemma_starless_concat(call_lines(s.drop_last()), call_line(s.last()));
    }
}

/// A message counts twice, before its role and behind it.
proof fn lemma_count_message(m: StoredMessage, rest: Seq<char>)
    requires
        starless_message(m),
    ensures
        match_count(message_lines(m) + rest, "**"@) == 2 + match_count(rest, "**"@),
{
    reveal_strlit("**");
    reveal_strlit(":** ");
    reveal_strlit("user");
    reveal_strlit("assistant");
    reveal_strlit("system");
    reveal_strlit("tool");
    reveal_strlit("\\n");
    let p = "**"@;
    let role = m.role.name();
    lemma_call_lines_starless(m.tool_calls@);
    let tail = m.content@ + "\\n"@ + call_lines(m.tool_calls@) + seq!['\n'];
    lemma_starless_concat(m.content@, "\\n"@);
    lemma_starless_concat(m.content@ + "\\n"@, call_lines(m.tool_calls@));
    lemma_starless_concat(
        m.content@ + "\\n"@ + call_lines(m.tool_calls@),
        seq!['\n'],
    );
    let blank = seq![' '] + tail;
    lemma_starless_concat(seq![' '], tail);
    let head = role + seq![':'];
    lemma_starless_concat(role, seq![':']);
    let after = blank + rest;
    assert(message_lines(m) + rest =~= p + (head + (p + after)));
    lemma_count_stars(head + (p + after));
    lemma_count_behind(head, p + after);
    lemma_count_stars(after);
    lemma_count_behind(blank, rest);
}

proof fn lemma_count_messages(s: Seq<StoredMessage>, rest: Seq<char>)
    requires
        forall|i: int| 0 <= i < s.len() ==> starless_message(#[trigger] s[i]),
    ensures
        match_count(all_lines(s) + rest, "**"@) == 2 * s.len() + match_count(rest, "**"@),
    decreases s.len(),
{
    if s.len() == 0 {
        assert(all_lines(s) + rest =~= rest);
    } else {
        let t = s.drop_last();
        assert forall|i: int| 0 <= i < t.len() implies starless_message(#[trigger] t[i]) by {
            assert(t[i] == s[i]);
        }
        assert(starless_message(s[s.len() - 1]));
        assert(all_lines(s) + rest =~= all_lines(t) + (message_lines(s.last()) + rest));
        lemma_count_messages(t, message_lines(s.last()) + rest);
        lemma_count_message(s.last(), rest);
    }
}

/// A summary tells how many messages it sums up, as long as none of them, nor the summary
/// before it, has a star in its text.
pub proof fn law_summary_counts_messages(s: Seq<StoredMessage>, existing: Option<Seq<char>>)
    requires
        s.len() > 0,
        forall|i: int| 0 <= i < s.len() ==> starless_message(#[trigger] s[i]),
        existing matches Some(t) ==> starless(t),
    ensures
        begins_with(
            summary_spec(s, existing),
            "Conversation with "@ + decimal(s.len()) + " messages"@,
        ),
{
    reveal_strlit("Previous conversation summary:\\n");
    reveal_strlit("\\n\\nNew messages to incorporate:\\n\\n");
    reveal_strlit("Please summarize the following conversation:\\n\\n");
    let head = prompt_head(existing);
    if let Some(t) = existing {
        lemma_starless_concat("Previous conversation summary:\\n"@, t);
        lemma_starless_concat(
            "Previous conversation summary:\\n"@ + t,
            "\\n\\nNew messages to incorporate:\\n\\n"@,
        );
    }
    let prompt = summary_prompt(s, existing);
    assert(prompt =~= head + (all_lines(s) + SUMMARY_REQUEST@));
    lemma_count_behind(head, all_lines(s) + SUMMARY_REQUEST@);
    lemma_count_messages(s, SUMMARY_REQUEST@);
    lemma_request_starless();
    lemma_count_none(SUMMARY_REQUEST@);
    let begin = "Conversation with "@ + decimal(s.len()) + " messages"@;
    assert(match_count(prompt, "**"@) / 2 == s.len());
    assert(summary_spec(s, existing).subrange(0, begin.len() as int) =~= begin);
}

proof fn lemma_count_none(s: Seq<char>)
    requires
        starless(s),
    ensures
        match_count(s, "**"@) == 0,
{
    lemma_count_behind(s, Seq::empty());
    assert(s + Seq::<char>::empty() =~= s);
    reveal_strlit("**");
    assert(!has_text(Seq::<char>::empty(), "**"@));
    lemma_split_none(Seq::empty(), "**"@);
}

proof fn lemma_request_starless()
    ensures
        starless(SUMMARY_REQUEST@),
{
    reveal_strlit(
        "\\nProvide a concise summary that captures:\\n\\
             1. Main topics discussed\\n\\
             2. Key decisions or conclusions\\n\\
             3. Tools used and their purposes\\n\\
             4. Any unresolved issues\\n\\n\\
             Summary:",
    );
}

} // verus!
