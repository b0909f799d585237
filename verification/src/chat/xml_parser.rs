//! Extraction of the tagged parts of a model's answer.
//!
//! The tags may be written in any letter case and with white space inside. Text
//! with escaped characters, missing closing tags or misspelt tags is repaired
//! before it is read.

use crate::pattern::{
    all_space, element_content, element_from, element_pattern, find_close_tag, first_group,
    is_close_tag, is_element_word, lemma_skip_space_is, open_tag_end, opt_text, same_letter,
    tag_rest_end, word_at,
};
use crate::text::{
    contains, has_text, is_space, lemma_lowers_once, lemma_split_none, lowered, lowers_to, replace,
    replace_text, same_text, to_lowercase, trim, trimmed,
};
use vstd::prelude::*;
use vstd::string::*;

verus! {

// ---------------------------------------------------------------------------
// Repair
// ---------------------------------------------------------------------------

/// `s` with the character escapes undone.
pub open spec fn unescaped(s: Seq<char>) -> Seq<char> {
    let s = replace_text(s, "&lt;"@, "<"@);
    let s = replace_text(s, "&gt;"@, ">"@);
    let s = replace_text(s, "&amp;"@, "&"@);
    let s = replace_text(s, "&quot;"@, "\""@);
    replace_text(s, "&apos;"@, "'"@)
}

/// `lower`, a text in lower case, holds an opening tag of `tag` but no closing one.
pub open spec fn lacks_close(lower: Seq<char>, tag: Seq<char>) -> bool {
    has_text(lower, "<"@ + tag) && !has_text(lower, "</"@ + tag)
}

/// `s` with the closing tag of `tag` at its end, where `lower` lacks one.
pub open spec fn closed_by(s: Seq<char>, lower: Seq<char>, lower_tag: Seq<char>, tag: Seq<char>) -> Seq<char> {
    if lacks_close(lower, lower_tag) {
        s + "</"@ + tag + ">"@
    } else {
        s
    }
}

/// `s` with the closing tag of `tag` at its end, where it is missing.
pub open spec fn closed(s: Seq<char>, tag: Seq<char>) -> Seq<char> {
    closed_by(s, lowered(s), lowered(tag), tag)
}

/// `s` with the closing tags that are missing.
pub open spec fn all_closed(s: Seq<char>) -> Seq<char> {
    closed(closed(closed(closed(s, "thought"@), "action"@), "final_answer"@), "observation"@)
}

/// `s` with the common misspellings of tags corrected.
pub open spec fn respelt(s: Seq<char>) -> Seq<char> {
    let s = replace_text(s, "<thougt>"@, "<thought>"@);
    let s = replace_text(s, "</thougt>"@, "</thought>"@);
    let s = replace_text(s, "<thougth>"@, "<thought>"@);
    let s = replace_text(s, "</thougth>"@, "</thought>"@);
    let s = replace_text(s, "<tought>"@, "<thought>"@);
    let s = replace_text(s, "</tought>"@, "</thought>"@);
    let s = replace_text(s, "<acton>"@, "<action>"@);
    let s = replace_text(s, "</acton>"@, "</action>"@);
    let s = replace_text(s, "<acion>"@, "<action>"@);
    let s = replace_text(s, "</acion>"@, "</action>"@);
    let s = replace_text(s, "<finalanswer>"@, "<final_answer>"@);
    let s = replace_text(s, "</finalanswer>"@, "</final_answer>"@);
    let s = replace_text(s, "<final-answer>"@, "<final_answer>"@);
    let s = replace_text(s, "</final-answer>"@, "</final_answer>"@);
    let s = replace_text(s, "<FinalAnswer>"@, "<final_answer>"@);
    replace_text(s, "</FinalAnswer>"@, "</final_answer>"@)
}

/// `s` repaired.
pub open spec fn sanitized(s: Seq<char>) -> Seq<char> {
    respelt(all_closed(unescaped(s)))
}

fn unescape(content: &str) -> (r: String)
    ensures
        r@ == unescaped(content@),
{
    proof {
        reveal_strlit("&lt;");
        reveal_strlit("&gt;");
        reveal_strlit("&amp;");
        reveal_strlit("&quot;");
        reveal_strlit("&apos;");
    }
    let s = replace(content, "&lt;", "<");
    let s = replace(s.as_str(), "&gt;", ">");
    let s = replace(s.as_str(), "&amp;", "&");
    let s = replace(s.as_str(), "&quot;", "\"");
    replace(s.as_str(), "&apos;", "'")
}

/// `content` with a closing tag of `tag_name` at its end, where `lower` (the
/// content in lower case) has an opening tag and no closing one.
pub fn append_missing_close(content: &str, lower: &str, lower_tag: &str, tag_name: &str) -> (r: String)
    ensures
        r@ == closed_by(content@, lower@, lower_tag@, tag_name@),
{
    let mut open = "<".to_owned();
    open.append(lower_tag);
    let mut close = "</".to_owned();
    close.append(lower_tag);
    let mut r = content.to_owned();
    if contains(lower, open.as_str()) && !contains(lower, close.as_str()) {
        r.append("</");
        r.append(tag_name);
        r.append(">");
    }
    r
}

/// `content` with a closing tag of `tag_name` at its end, where it is missing.
pub fn fix_missing_closing_tag(content: &str, tag_name: &str) -> (r: String)
    ensures
        r@ == closed(content@, tag_name@),
        forall|l: Seq<char>, t: Seq<char>| #[trigger]
            lowers_to(content@, l) && #[trigger] lowers_to(tag_name@, t) ==> r@ == closed_by(
                content@,
                l,
                t,
                tag_name@,
            ),
{
    let lower = to_lowercase(content);
    let lower_tag = to_lowercase(tag_name);
    proof {
        assert forall|l: Seq<char>, t: Seq<char>| #[trigger]
            lowers_to(content@, l) && #[trigger] lowers_to(tag_name@, t) implies l == lower@ && t
            == lower_tag@ by {
            lemma_lowers_once(content@, l, lower@);
            lemma_lowers_once(tag_name@, t, lower_tag@);
        }
    }
    append_missing_close(content, lower.as_str(), lower_tag.as_str(), tag_name)
}

/// `content` with the common misspellings of tags corrected.
pub fn fix_common_typos(content: &str) -> (r: String)
    ensures
        r@ == respelt(content@),
{
    proof {
        reveal_strlit("<thougt>");
        reveal_strlit("</thougt>");
        reveal_strlit("<thougth>");
        reveal_strlit("</thougth>");
        reveal_strlit("<tought>");
        reveal_strlit("</tought>");
        reveal_strlit("<acton>");
        reveal_strlit("</acton>");
        reveal_strlit("<acion>");
        reveal_strlit("</acion>");
        reveal_strlit("<finalanswer>");
        reveal_strlit("</finalanswer>");
        reveal_strlit("<final-answer>");
        reveal_strlit("</final-answer>");
        reveal_strlit("<FinalAnswer>");
        reveal_strlit("</FinalAnswer>");
    }
    let s = replace(content, "<thougt>", "<thought>");
    let s = replace(s.as_str(), "</thougt>", "</thought>");
    let s = replace(s.as_str(), "<thougth>", "<thought>");
    let s = replace(s.as_str(), "</thougth>", "</thought>");
    let s = replace(s.as_str(), "<tought>", "<thought>");
    let s = replace(s.as_str(), "</tought>", "</thought>");
    let s = replace(s.as_str(), "<acton>", "<action>");
    let s = replace(s.as_str(), "</acton>", "</action>");
    let s = replace(s.as_str(), "<acion>", "<action>");
    let s = replace(s.as_str(), "</acion>", "</action>");
    let s = replace(s.as_str(), "<finalanswer>", "<final_answer>");
    let s = replace(s.as_str(), "</finalanswer>", "</final_answer>");
    let s = replace(s.as_str(), "<final-answer>", "<final_answer>");
    let s = replace(s.as_str(), "</final-answer>", "</final_answer>");
    let s = replace(s.as_str(), "<FinalAnswer>", "<final_answer>");
    replace(s.as_str(), "</FinalAnswer>", "</final_answer>")
}

/// `content` repaired: character escapes undone, missing closing tags added,
/// common misspellings of tags corrected.
pub fn sanitize_xml_content(content: &str) -> (r: String)
    ensures
        r@ == sanitized(content@),
{
    let s = unescape(content);
    let s = fix_missing_closing_tag(s.as_str(), "thought");
    let s = fix_missing_closing_tag(s.as_str(), "action");
    let s = fix_missing_closing_tag(s.as_str(), "final_answer");
    let s = fix_missing_closing_tag(s.as_str(), "observation");
    fix_common_typos(s.as_str())
}

// ---------------------------------------------------------------------------
// Extraction
// ---------------------------------------------------------------------------

/// The content of the first element named `word` in `s`, trimmed.
pub open spec fn trimmed_element(s: Seq<char>, word: Seq<char>) -> Option<Seq<char>> {
    match element_content(s, word) {
        Some(c) => Some(trimmed(c)),
        None => None,
    }
}

fn element_in(content: &str, word: &str) -> (r: Option<String>)
    requires
        is_element_word(word@),
    ensures
        opt_text(r) == trimmed_element(content@, word@),
{
    let mut pattern = "(?si)<\\s*".to_owned();
    pattern.append(word);
    pattern.append("\\s*>(.*?)<\\s*/\\s*");
    pattern.append(word);
    pattern.append("\\s*>");
    assert(pattern@ == element_pattern(word@));
    match first_group(pattern.as_str(), content) {
        Some(c) => Some(trim(c.as_str()).to_owned()),
        None => None,
    }
}

/// The content of the `<thought>` element of the repaired text.
pub fn extract_thought(content: &str) -> (r: Option<String>)
    ensures
        opt_text(r) == trimmed_element(sanitized(content@), "thought"@),
{
    element_in(sanitize_xml_content(content).as_str(), "thought")
}

/// The content of the `<action>` element of the repaired text.
pub fn extract_action(content: &str) -> (r: Option<String>)
    ensures
        opt_text(r) == trimmed_element(sanitized(content@), "action"@),
{
    element_in(sanitize_xml_content(content).as_str(), "action")
}

/// The content of the `<final_answer>` element of the repaired text.
pub fn extract_final_answer(content: &str) -> (r: Option<String>)
    ensures
        opt_text(r) == trimmed_element(sanitized(content@), "final_answer"@),
{
    element_in(sanitize_xml_content(content).as_str(), "final_answer")
}

/// `lower`, a text in lower case, holds the beginning of a tag named `word`.
pub open spec fn tag_begins_in(lower: Seq<char>, word: Seq<char>) -> bool {
    has_text(lower, "<"@ + word) || has_text(lower, "< "@ + word)
}

/// Whether `lower`, a text in lower case, holds the beginning of a tag named `word`.
pub fn has_tag(lower: &str, word: &str) -> (r: bool)
    ensures
        r == tag_begins_in(lower@, word@),
{
    let mut tight = "<".to_owned();
    tight.append(word);
    let mut loose = "< ".to_owned();
    loose.append(word);
    contains(lower, tight.as_str()) || contains(lower, loose.as_str())
}

/// Whether `content` holds the beginning of a `<thought>` tag.
pub fn has_thought_tag(content: &str) -> (r: bool)
    ensures
        r == tag_begins_in(lowered(content@), "thought"@),
        forall|l: Seq<char>| #[trigger]
            lowers_to(content@, l) ==> r == tag_begins_in(l, "thought"@),
{
    let lower = to_lowercase(content);
    proof {
        assert forall|l: Seq<char>| #[trigger] lowers_to(content@, l) implies l == lower@ by {
            lemma_lowers_once(content@, l, lower@);
        }
    }
    has_tag(lower.as_str(), "thought")
}

/// Whether `content` holds the beginning of an `<action>` tag.
pub fn has_action_tag(content: &str) -> (r: bool)
    ensures
        r == tag_begins_in(lowered(content@), "action"@),
        forall|l: Seq<char>| #[trigger]
            lowers_to(content@, l) ==> r == tag_begins_in(l, "action"@),
{
    let lower = to_lowercase(content);
    proof {
        assert forall|l: Seq<char>| #[trigger] lowers_to(content@, l) implies l == lower@ by {
            lemma_lowers_once(content@, l, lower@);
        }
    }
    has_tag(lower.as_str(), "action")
}

/// Whether `content` holds the beginning of a `<final_answer>` tag.
pub fn has_final_answer_tag(content: &str) -> (r: bool)
    ensures
        r == tag_begins_in(lowered(content@), "final_answer"@),
        forall|l: Seq<char>| #[trigger]
            lowers_to(content@, l) ==> r == tag_begins_in(l, "final_answer"@),
{
    let lower = to_lowercase(content);
    proof {
        assert forall|l: Seq<char>| #[trigger] lowers_to(content@, l) implies l == lower@ by {
            lemma_lowers_once(content@, l, lower@);
        }
    }
    has_tag(lower.as_str(), "final_answer")
}

// ---------------------------------------------------------------------------
// Extraction with an account of repairs
// ---------------------------------------------------------------------------

/// What was extracted, and whether the text had to be repaired for it.
#[derive(Debug, Clone)]
pub struct ExtractionResult {
    /// The extracted content, if any.
    pub content: Option<String>,
    /// Whether the text was repaired.
    pub was_repaired: bool,
    /// What was repaired, if anything.
    pub repair_notes: Option<String>,
}

impl ExtractionResult {
    /// The content, whether it was repaired, and the notes.
    pub open spec fn model(self) -> (Option<Seq<char>>, bool, Option<Seq<char>>) {
        (opt_text(self.content), self.was_repaired, opt_text(self.repair_notes))
    }

    /// Content found without repair.
    pub fn success(content: String) -> (r: Self)
        ensures
            r.model() == (Some(content@), false, None::<Seq<char>>),
    {
        ExtractionResult { content: Some(content), was_repaired: false, repair_notes: None }
    }

    /// Content found after repair.
    pub fn repaired(content: String, notes: String) -> (r: Self)
        ensures
            r.model() == (Some(content@), true, Some(notes@)),
    {
        ExtractionResult { content: Some(content), was_repaired: true, repair_notes: Some(notes) }
    }

    /// Nothing found.
    pub fn failed() -> (r: Self)
        ensures
            r.model() == (None::<Seq<char>>, false, None::<Seq<char>>),
    {
        ExtractionResult { content: None, was_repaired: false, repair_notes: None }
    }
}

/// What a detailed extraction of the element named `word` gives: the content in the
/// text as it is; failing that, the content in the repaired text; failing that, nothing.
pub open spec fn detailed(s: Seq<char>, word: Seq<char>) -> (
    Option<Seq<char>>,
    bool,
    Option<Seq<char>>,
) {
    if trimmed_element(s, word) is Some {
        (trimmed_element(s, word), false, None)
    } else if trimmed_element(sanitized(s), word) is Some {
        (trimmed_element(sanitized(s), word), true, Some("Content was sanitized"@))
    } else {
        (None, false, None)
    }
}

fn element_detailed(content: &str, word: &str) -> (r: ExtractionResult)
    requires
        is_element_word(word@),
    ensures
        r.model() == detailed(content@, word@),
{
    if let Some(found) = element_in(content, word) {
        return ExtractionResult::success(found);
    }
    let sanitized = sanitize_xml_content(content);
    if !same_text(sanitized.as_str(), content) {
        if let Some(found) = element_in(sanitized.as_str(), word) {
            return ExtractionResult::repaired(found, "Content was sanitized".to_owned());
        }
    }
    ExtractionResult::failed()
}

/// The content of the `<thought>` element, with an account of repairs.
pub fn extract_thought_detailed(content: &str) -> (r: ExtractionResult)
    ensures
        r.model() == detailed(content@, "thought"@),
{
    element_detailed(content, "thought")
}

/// The content of the `<action>` element, with an account of repairs.
pub fn extract_action_detailed(content: &str) -> (r: ExtractionResult)
    ensures
        r.model() == detailed(content@, "action"@),
{
    element_detailed(content, "action")
}

/// The content of the `<final_answer>` element, with an account of repairs.
pub fn extract_final_answer_detailed(content: &str) -> (r: ExtractionResult)
    ensures
        r.model() == detailed(content@, "final_answer"@),
{
    element_detailed(content, "final_answer")
}

// ---------------------------------------------------------------------------
// Laws
// ---------------------------------------------------------------------------

/// `w` is `word`, in any letter case.
pub open spec fn is_cased(w: Seq<char>, word: Seq<char>) -> bool {
    &&& w.len() == word.len()
    &&& forall|i: int| 0 <= i < w.len() ==> same_letter(#[trigger] w[i], word[i])
}

/// An opening tag: a word with white space around it.
pub open spec fn open_tag(a: Seq<char>, w: Seq<char>, b: Seq<char>) -> Seq<char> {
    seq!['<'] + a + w + b + seq!['>']
}

/// A closing tag: a slash and a word with white space around them.
pub open spec fn close_tag(a: Seq<char>, b: Seq<char>, w: Seq<char>, c: Seq<char>) -> Seq<char> {
    seq!['<'] + a + seq!['/'] + b + w + c + seq!['>']
}

proof fn lemma_word_first(w: Seq<char>, word: Seq<char>)
    requires
        is_element_word(word),
        is_cased(w, word),
    ensures
        w.len() > 0,
        !is_space(w[0]),
{
    reveal_strlit("thought");
    reveal_strlit("action");
    reveal_strlit("final_answer");
    assert("thought"@[0] == 't' && "action"@[0] == 'a' && "final_answer"@[0] == 'f');
    assert(same_letter(w[0], word[0]));
}

pub proof fn lemma_tag_rest(s: Seq<char>, word: Seq<char>, i: int, a: Seq<char>, w: Seq<char>, b: Seq<char>)
    requires
        is_element_word(word),
        is_cased(w, word),
        all_space(a),
        all_space(b),
        0 <= i,
        i + a.len() + w.len() + b.len() + 1 <= s.len(),
        s.subrange(i, i + a.len() + w.len() + b.len() + 1) == a + w + b + seq!['>'],
    ensures
        tag_rest_end(s, word, i) == Some((i + a.len() + w.len() + b.len() + 1) as int),
{
    let n = a.len() + w.len() + b.len() + 1;
    let t = a + w + b + seq!['>'];
    let x = (i + a.len()) as int;
    let y = (x + w.len()) as int;
    let z = (y + b.len()) as int;
    assert forall|k: int| 0 <= k < n implies #[trigger] s[i + k] == t[k] by {
        assert(s.subrange(i, i + n)[k] == s[i + k]);
    }
    lemma_word_first(w, word);
    assert forall|j: int| i <= j < x implies is_space(#[trigger] s[j]) by {
        assert(s[i + (j - i)] == t[j - i]);
        assert(t[j - i] == a[j - i]);
    }
    assert(s[i + a.len()] == t[a.len() as int]);
    assert(s[x] == w[0]);
    lemma_skip_space_is(s, i, x);
    assert(word_at(s, word, x)) by {
        assert forall|k: int| 0 <= k < word.len() implies same_letter(#[trigger] s[x + k], word[k]) by {
            assert(s[i + (a.len() + k)] == t[a.len() + k]);
            assert(t[a.len() + k] == w[k]);
            assert(same_letter(w[k], word[k]));
        }
    }
    assert forall|j: int| y <= j < z implies is_space(#[trigger] s[j]) by {
        assert(s[i + (j - i)] == t[j - i]);
        assert(t[j - i] == b[j - y]);
    }
    assert(s[i + (n - 1)] == t[n - 1]);
    assert(s[z] == '>');
    lemma_skip_space_is(s, y, z);
}

proof fn lemma_close_found(s: Seq<char>, word: Seq<char>, from: int, k: int)
    requires
        0 <= from <= k < s.len(),
        forall|j: int| from <= j < k ==> !#[trigger] is_close_tag(s, word, j),
        is_close_tag(s, word, k),
    ensures
        find_close_tag(s, word, from) == Some(k),
    decreases k - from,
{
    if from < k {
        assert(!is_close_tag(s, word, from));
        lemma_close_found(s, word, from + 1, k);
    }
}

proof fn lemma_element_found(s: Seq<char>, word: Seq<char>, from: int, at: int)
    requires
        0 <= from <= at < s.len(),
        forall|j: int| from <= j < at ==> #[trigger] open_tag_end(s, word, j) is None,
    ensures
        element_from(s, word, from) == element_from(s, word, at),
    decreases at - from,
{
    if from < at {
        assert(open_tag_end(s, word, from) is None);
        lemma_element_found(s, word, from + 1, at);
    }
}

/// Content between an opening and a closing tag is extracted as it is, whatever stands
/// behind: the tags may be written in any letter case and with white space inside, and
/// other tags may stand before and between them, as long as no opening tag of the same
/// name begins before and no closing one within the content.
pub proof fn law_tagged_content_found(
    word: Seq<char>,
    pre: Seq<char>,
    a: Seq<char>,
    w: Seq<char>,
    b: Seq<char>,
    content: Seq<char>,
    c: Seq<char>,
    d: Seq<char>,
    v: Seq<char>,
    e: Seq<char>,
    post: Seq<char>,
)
    requires
        is_element_word(word),
        is_cased(w, word),
        is_cased(v, word),
        all_space(a),
        all_space(b),
        all_space(c),
        all_space(d),
        all_space(e),
        forall|j: int|
            0 <= j < pre.len() ==> #[trigger] open_tag_end(
                pre + open_tag(a, w, b) + content + close_tag(c, d, v, e) + post,
                word,
                j,
            ) is None,
        forall|j: int|
            pre.len() + open_tag(a, w, b).len() <= j < pre.len() + open_tag(a, w, b).len()
                + content.len() ==> !#[trigger] is_close_tag(
                pre + open_tag(a, w, b) + content + close_tag(c, d, v, e) + post,
                word,
                j,
            ),
    ensures
        element_content(
            pre + open_tag(a, w, b) + content + close_tag(c, d, v, e) + post,
            word,
        ) == Some(content),
        detailed(pre + open_tag(a, w, b) + content + close_tag(c, d, v, e) + post, word) == (
            Some(trimmed(content)),
            false,
            None::<Seq<char>>,
        ),
{
    let o = open_tag(a, w, b);
    let l = close_tag(c, d, v, e);
    let s = pre + o + content + l + post;
    let i = pre.len() as int;
    let j = (i + o.len()) as int;
    let k = (j + content.len()) as int;
    let slash = (k + 1 + c.len()) as int;
    lemma_element_found(s, word, 0, i);
    assert(s[i] == o[0]);
    assert(s.subrange(i + 1, i + 1 + a.len() + w.len() + b.len() + 1) =~= a + w + b + seq!['>']);
    lemma_tag_rest(s, word, i + 1, a, w, b);
    assert(open_tag_end(s, word, i) == Some(j));
    assert(s[k] == l[0]);
    assert forall|x: int| k + 1 <= x < slash implies is_space(#[trigger] s[x]) by {
        assert(s[x] == c[x - (k + 1)]);
    }
    assert(s[slash] == '/');
    lemma_skip_space_is(s, k + 1, slash);
    assert(s.subrange(slash + 1, slash + 1 + d.len() + v.len() + e.len() + 1) =~= d + v + e + seq![
        '>',
    ]);
    lemma_tag_rest(s, word, slash + 1, d, v, e);
    assert(is_close_tag(s, word, k));
    lemma_close_found(s, word, j, k);
    assert(s.subrange(j, k) =~= content);
}

/// `s` needs no repair: it holds no escaped character, no opening tag without a closing
/// one, and no misspelt tag.
pub open spec fn is_sound(s: Seq<char>) -> bool {
    &&& !has_text(s, "&lt;"@)
    &&& !has_text(s, "&gt;"@)
    &&& !has_text(s, "&amp;"@)
    &&& !has_text(s, "&quot;"@)
    &&& !has_text(s, "&apos;"@)
    &&& !lacks_close(lowered(s), lowered("thought"@))
    &&& !lacks_close(lowered(s), lowered("action"@))
    &&& !lacks_close(lowered(s), lowered("final_answer"@))
    &&& !lacks_close(lowered(s), lowered("observation"@))
    &&& !has_text(s, "<thougt>"@)
    &&& !has_text(s, "</thougt>"@)
    &&& !has_text(s, "<thougth>"@)
    &&& !has_text(s, "</thougth>"@)
    &&& !has_text(s, "<tought>"@)
    &&& !has_text(s, "</tought>"@)
    &&& !has_text(s, "<acton>"@)
    &&& !has_text(s, "</acton>"@)
    &&& !has_text(s, "<acion>"@)
    &&& !has_text(s, "</acion>"@)
    &&& !has_text(s, "<finalanswer>"@)
    &&& !has_text(s, "</finalanswer>"@)
    &&& !has_text(s, "<final-answer>"@)
    &&& !has_text(s, "</final-answer>"@)
    &&& !has_text(s, "<FinalAnswer>"@)
    &&& !has_text(s, "</FinalAnswer>"@)
}

proof fn lemma_nothing_replaced(s: Seq<char>)
    ensures
        forall|pat: Seq<char>, with: Seq<char>|
            !has_text(s, pat) ==> #[trigger] replace_text(s, pat, with) == s,
{
    assert forall|pat: Seq<char>, with: Seq<char>| !has_text(s, pat) implies #[trigger] replace_text(
        s,
        pat,
        with,
    ) == s by {
        lemma_split_none(s, pat);
    }
}

/// A text that needs no repair is left as it is, and is read alike with and without an
/// account of repairs.
pub proof fn law_sound_text_kept(s: Seq<char>, word: Seq<char>)
    requires
        is_sound(s),
    ensures
        sanitized(s) == s,
        detailed(s, word) == (trimmed_element(sanitized(s), word), false, None::<Seq<char>>),
{
    lemma_nothing_replaced(s);
    assert(unescaped(s) == s);
    assert(all_closed(s) == s);
    assert(respelt(s) == s);
}

/// A text with an opening tag and no closing one gets a closing one; a text with a
/// closing one, or without either, stays as it is.
pub proof fn law_close_added_when_missing(s: Seq<char>, lower: Seq<char>, tag: Seq<char>)
    ensures
        lacks_close(lower, tag) ==> closed_by(s, lower, tag, tag) == s + "</"@ + tag + ">"@,
        has_text(lower, "</"@ + tag) ==> closed_by(s, lower, tag, tag) == s,
        !has_text(lower, "<"@ + tag) ==> closed_by(s, lower, tag, tag) == s,
{
}

} // verus!
