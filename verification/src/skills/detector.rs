//! Detection of skill requests in model output.
//!
//! A model asks for a skill by writing `<use_skill>skill-name</use_skill>`.

use crate::pattern::{
    all_groups, all_space, first_group, is_match, is_name_char, is_requestable, lemma_request_before,
    lemma_requests_shift, lemma_skip_name_is, lemma_skip_space_is, opt_text, request_at, requests,
    requests_from, unrequested, unrequested_from, without_matches, USE_SKILL_PATTERN,
};
use crate::text::is_space;
use crate::text::texts;
use vstd::prelude::*;

verus! {

/// Finds the skill requests in a text.
pub struct SkillDetector;

impl SkillDetector {
    /// The names of all the skills requested in `text`, in order.
    pub fn detect(text: &str) -> (r: Vec<String>)
        ensures
            texts(r@) == requests(text@),
    {
        all_groups(USE_SKILL_PATTERN, text)
    }

    /// The name of the first skill requested in `text`, if any.
    pub fn detect_first(text: &str) -> (r: Option<String>)
        ensures
            opt_text(r) == (if requests(text@).len() > 0 {
                Some(requests(text@)[0])
            } else {
                None
            }),
    {
        first_group(USE_SKILL_PATTERN, text)
    }

    /// Whether `text` requests any skill.
    pub fn has_skill_request(text: &str) -> (r: bool)
        ensures
            r == (requests(text@).len() > 0),
    {
        is_match(USE_SKILL_PATTERN, text)
    }

    /// `text` without its skill requests.
    pub fn strip_tags(text: &str) -> (r: String)
        ensures
            r@ == unrequested(text@),
    {
        without_matches(USE_SKILL_PATTERN, text)
    }

    /// The names of the requested skills, and the text without the requests.
    pub fn extract_and_clean(text: &str) -> (r: (Vec<String>, String))
        ensures
            texts(r.0@) == requests(text@),
            r.1@ == unrequested(text@),
    {
        let skills = Self::detect(text);
        let cleaned = Self::strip_tags(text);
        (skills, cleaned)
    }
}

// ---------------------------------------------------------------------------
// Laws
// ---------------------------------------------------------------------------

/// A request for a skill, with white space around the name.
pub open spec fn request_text(before: Seq<char>, name: Seq<char>, behind: Seq<char>) -> Seq<char> {
    "<use_skill>"@ + before + name + behind + "</use_skill>"@
}

proof fn lemma_request_read(p: Seq<char>, w1: Seq<char>, name: Seq<char>, w2: Seq<char>, q: Seq<char>)
    requires
        is_requestable(name),
        all_space(w1),
        all_space(w2),
    ensures
        request_at(p + request_text(w1, name, w2) + q, p.len() as int) == Some(
            (name, (p.len() + request_text(w1, name, w2).len()) as int),
        ),
{
    reveal_strlit("<use_skill>");
    reveal_strlit("</use_skill>");
    let open = "<use_skill>"@;
    let close = "</use_skill>"@;
    let t = request_text(w1, name, w2);
    let s = p + t + q;
    let i = p.len() as int;
    let a = i + 11 + w1.len();
    let b = a + name.len();
    let c = b + w2.len();
    assert(s.subrange(i, i + 11) =~= open);
    assert(s.subrange(a, b) =~= name);
    assert(s.subrange(c, c + 12) =~= close);
    assert(s[c] == close[0]);
    assert forall|j: int| i + 11 <= j < a implies is_space(#[trigger] s[j]) by {
        assert(s[j] == w1[j - (i + 11)]);
    }
    assert(s[a] == name[0]);
    lemma_skip_space_is(s, i + 11, a);
    assert forall|j: int| a <= j < b implies is_name_char(#[trigger] s[j]) by {
        assert(s[j] == name[j - a]);
    }
    assert(!is_name_char(s[b])) by {
        if w2.len() > 0 {
            assert(s[b] == w2[0]);
        } else {
            assert(s[b] == close[0]);
        }
    }
    lemma_skip_name_is(s, a, b);
    assert forall|j: int| b <= j < c implies is_space(#[trigger] s[j]) by {
        assert(s[j] == w2[j - b]);
    }
    lemma_skip_space_is(s, b, c);
}

proof fn lemma_requests_around(
    p: Seq<char>,
    w1: Seq<char>,
    name: Seq<char>,
    w2: Seq<char>,
    q: Seq<char>,
    i: int,
)
    requires
        is_requestable(name),
        all_space(w1),
        all_space(w2),
        0 <= i <= p.len(),
    ensures
        requests_from(p + request_text(w1, name, w2) + q, i) == requests_from(p, i).push(name)
            + requests(q),
        unrequested_from(p + request_text(w1, name, w2) + q, i) == unrequested_from(p, i)
            + unrequested(q),
    decreases p.len() - i,
{
    reveal_strlit("<use_skill>");
    let t = request_text(w1, name, w2);
    let s = p + t + q;
    if i == p.len() {
        lemma_request_read(p, w1, name, w2, q);
        let end = (p.len() + t.len()) as int;
        assert(s.skip(end) =~= q);
        lemma_requests_shift(s, end, 0);
        assert(requests_from(s, i) =~= requests_from(p, i).push(name) + requests(q));
        assert(unrequested_from(s, i) =~= unrequested_from(p, i) + unrequested(q));
    } else {
        let rest = t + q;
        assert(s =~= p + rest);
        assert(rest[0] == "<use_skill>"@[0]);
        assert(rest[1] == "<use_skill>"@[1]);
        lemma_request_before(p, rest, i);
        match request_at(p, i) {
            Some((n, end)) if i < end => {
                lemma_requests_around(p, w1, name, w2, q, end);
                assert(requests_from(s, i) =~= requests_from(p, i).push(name) + requests(q));
            },
            _ => {
                lemma_requests_around(p, w1, name, w2, q, i + 1);
                assert(s[i] == p[i]);
                assert(unrequested_from(s, i) =~= unrequested_from(p, i) + unrequested(q));
            },
        }
    }
}

/// A skill that is asked for is detected, wherever in a text: the names requested are
/// those before it, its own, and those behind it. Cleaning takes out the request and
/// leaves the rest as cleaning leaves it.
pub proof fn law_request_detected(
    p: Seq<char>,
    w1: Seq<char>,
    name: Seq<char>,
    w2: Seq<char>,
    q: Seq<char>,
)
    requires
        is_requestable(name),
        all_space(w1),
        all_space(w2),
    ensures
        requests(p + request_text(w1, name, w2) + q) == requests(p).push(name) + requests(q),
        unrequested(p + request_text(w1, name, w2) + q) == unrequested(p) + unrequested(q),
{
    lemma_requests_around(p, w1, name, w2, q, 0);
}

proof fn lemma_nothing_requested(s: Seq<char>, i: int)
    requires
        0 <= i <= s.len(),
        requests_from(s, i).len() == 0,
    ensures
        unrequested_from(s, i) == s.skip(i),
    decreases s.len() - i,
{
    if i < s.len() {
        match request_at(s, i) {
            Some((n, end)) if i < end => {
                assert(requests_from(s, i).len() > 0);
            },
            _ => {
                lemma_nothing_requested(s, i + 1);
                assert(s.skip(i) =~= seq![s[i]] + s.skip(i + 1));
            },
        }
    } else {
        assert(s.skip(i) =~= Seq::empty());
    }
}

proof fn lemma_cleaned_len(s: Seq<char>, i: int)
    requires
        0 <= i <= s.len(),
    ensures
        unrequested_from(s, i).len() <= s.len() - i,
        requests_from(s, i).len() > 0 ==> unrequested_from(s, i).len() < s.len() - i,
    decreases s.len() - i,
{
    if i < s.len() {
        match request_at(s, i) {
            Some((n, end)) if i < end => {
                lemma_cleaned_len(s, end);
            },
            _ => {
                lemma_cleaned_len(s, i + 1);
            },
        }
    }
}

/// Cleaning changes a text if and only if something is requested in it, and then makes it
/// shorter.
pub proof fn law_cleaned_iff_requested(s: Seq<char>)
    ensures
        unrequested(s) == s <==> requests(s).len() == 0,
        requests(s).len() > 0 ==> unrequested(s).len() < s.len(),
{
    lemma_cleaned_len(s, 0);
    if requests(s).len() == 0 {
        lemma_nothing_requested(s, 0);
        assert(s.skip(0) =~= s);
    }
}

proof fn lemma_requested_names(s: Seq<char>, from: int)
    ensures
        forall|i: int|
            0 <= i < requests_from(s, from).len() ==> is_requestable(
                #[trigger] requests_from(s, from)[i],
            ),
    decreases s.len() - from,
{
    if 0 <= from < s.len() {
        match request_at(s, from) {
            Some((n, end)) if from < end => {
                lemma_requested_names(s, end);
                let rest = requests_from(s, end);
                assert forall|i: int| 0 <= i < requests_from(s, from).len() implies is_requestable(
                    #[trigger] requests_from(s, from)[i],
                ) by {
                    if i > 0 {
                        assert(requests_from(s, from)[i] == rest[i - 1]);
                    }
                }
            },
            _ => {
                lemma_requested_names(s, from + 1);
                assert(requests_from(s, from) == requests_from(s, from + 1));
            },
        }
    } else {
        assert(requests_from(s, from).len() == 0);
    }
}

/// What is detected are names of the form that can be requested.
pub proof fn law_detected_names_requestable(s: Seq<char>)
    ensures
        forall|i: int|
            0 <= i < requests(s).len() ==> is_requestable(#[trigger] requests(s)[i]),
{
    lemma_requested_names(s, 0);
}

} // verus!
