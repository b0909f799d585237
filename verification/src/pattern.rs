//! Patterns looked for in model output, and the regular expressions that find them.
//!
//! The specification functions say what a pattern finds in a text. The
//! searching itself is done by the `regex` crate, through the functions at the
//! end of this file.

use crate::text::{find_from, is_space, occurs_at};
use vstd::prelude::*;
use vstd::string::*;

verus! {

// ---------------------------------------------------------------------------
// Elements: <word> content </word>
// ---------------------------------------------------------------------------

/// The words that an element can be named by.
pub open spec fn is_element_word(word: Seq<char>) -> bool {
    word == "thought"@ || word == "action"@ || word == "final_answer"@
}

/// The regular expression for an element in any letter case, with white space
/// allowed inside its tags and any content.
pub open spec fn element_pattern(word: Seq<char>) -> Seq<char> {
    "(?si)<\\s*"@ + word + "\\s*>(.*?)<\\s*/\\s*"@ + word + "\\s*>"@
}

/// The regular expression for an element written exactly, on one line.
pub open spec fn line_element_pattern(word: Seq<char>) -> Seq<char> {
    "<"@ + word + ">(.*?)</"@ + word + ">"@
}

/// `c` is the letter `l` of an element word, in either case. The letter s has a
/// third form, the long s.
pub open spec fn same_letter(c: char, l: char) -> bool {
    ||| c == l
    ||| 'a' <= l <= 'z' && c as u32 == l as u32 - 32
    ||| l == 's' && c == '\u{17f}'
}

/// `word` stands in `s` at `i`, in any letter case.
pub open spec fn word_at(s: Seq<char>, word: Seq<char>, i: int) -> bool {
    &&& 0 <= i
    &&& i + word.len() <= s.len()
    &&& forall|k: int| 0 <= k < word.len() ==> same_letter(#[trigger] s[i + k], word[k])
}

/// The first position from `i` on without white space (or the end).
pub open spec fn skip_space(s: Seq<char>, i: int) -> int
    decreases s.len() - i,
{
    if 0 <= i < s.len() && is_space(s[i]) {
        skip_space(s, i + 1)
    } else {
        i
    }
}

/// `c` stands in `s` at `i`.
pub open spec fn char_at(s: Seq<char>, c: char, i: int) -> bool {
    0 <= i < s.len() && s[i] == c
}

/// Where the rest of a tag (the word, white space, `>`) that begins at `i` ends.
pub open spec fn tag_rest_end(s: Seq<char>, word: Seq<char>, i: int) -> Option<int> {
    let a = skip_space(s, i);
    let b = skip_space(s, a + word.len());
    if word_at(s, word, a) && char_at(s, '>', b) {
        Some(b + 1)
    } else {
        None
    }
}

/// Where the opening tag that begins at `i` ends.
pub open spec fn open_tag_end(s: Seq<char>, word: Seq<char>, i: int) -> Option<int> {
    if char_at(s, '<', i) {
        tag_rest_end(s, word, i + 1)
    } else {
        None
    }
}

/// A closing tag begins at `i`.
pub open spec fn is_close_tag(s: Seq<char>, word: Seq<char>, i: int) -> bool {
    let slash = skip_space(s, i + 1);
    char_at(s, '<', i) && char_at(s, '/', slash) && tag_rest_end(s, word, slash + 1) is Some
}

/// The first position from `from` on at which a closing tag begins.
pub open spec fn find_close_tag(s: Seq<char>, word: Seq<char>, from: int) -> Option<int>
    decreases s.len() - from,
{
    if !(0 <= from < s.len()) {
        None
    } else if is_close_tag(s, word, from) {
        Some(from)
    } else {
        find_close_tag(s, word, from + 1)
    }
}

/// The content of the first element named `word` that begins at `from` or behind it:
/// what stands between its opening tag and the closest closing tag.
pub open spec fn element_from(s: Seq<char>, word: Seq<char>, from: int) -> Option<Seq<char>>
    decreases s.len() - from,
{
    if !(0 <= from < s.len()) {
        None
    } else {
        match open_tag_end(s, word, from) {
            Some(j) if find_close_tag(s, word, j) is Some => Some(
                s.subrange(j, find_close_tag(s, word, j)->0),
            ),
            _ => element_from(s, word, from + 1),
        }
    }
}

/// The content of the first element named `word`.
pub open spec fn element_content(s: Seq<char>, word: Seq<char>) -> Option<Seq<char>> {
    element_from(s, word, 0)
}

/// The content of the first element named `word` from `from` on that is
/// written exactly and holds no line break.
pub open spec fn line_element_from(s: Seq<char>, word: Seq<char>, from: int) -> Option<Seq<char>>
    decreases s.len() - from,
{
    let open = "<"@ + word + ">"@;
    let close = "</"@ + word + ">"@;
    if !(0 <= from < s.len()) {
        None
    } else {
        let j = from + open.len();
        match find_from(s, close, j) {
            Some(k) if occurs_at(s, open, from) && !s.subrange(j, k).contains('\n') => Some(
                s.subrange(j, k),
            ),
            _ => line_element_from(s, word, from + 1),
        }
    }
}

/// The content of the first element named `word` that is written exactly on one line.
pub open spec fn line_element_content(s: Seq<char>, word: Seq<char>) -> Option<Seq<char>> {
    line_element_from(s, word, 0)
}

// ---------------------------------------------------------------------------
// Skill requests: <use_skill> name </use_skill>
// ---------------------------------------------------------------------------

/// The regular expression for a skill request.
pub const USE_SKILL_PATTERN: &'static str =
    "<use_skill>\\s*([a-z0-9][a-z0-9-]*[a-z0-9]|[a-z0-9])\\s*</use_skill>";

/// A lower-case letter or a digit.
pub open spec fn is_lower_alnum(c: char) -> bool {
    'a' <= c <= 'z' || '0' <= c <= '9'
}

/// A character of a skill name.
pub open spec fn is_name_char(c: char) -> bool {
    is_lower_alnum(c) || c == '-'
}

/// Lower-case letters, digits and hyphens, with no hyphen at either end.
pub open spec fn is_requestable(name: Seq<char>) -> bool {
    &&& name.len() > 0
    &&& is_lower_alnum(name[0])
    &&& is_lower_alnum(name.last())
    &&& forall|i: int| 0 <= i < name.len() ==> is_name_char(#[trigger] name[i])
}

/// The first position from `i` on that holds no character of a name.
pub open spec fn skip_name(s: Seq<char>, i: int) -> int
    decreases s.len() - i,
{
    if 0 <= i < s.len() && is_name_char(s[i]) {
        skip_name(s, i + 1)
    } else {
        i
    }
}

/// The name in the request that begins at `i`, and where the request ends.
pub open spec fn request_at(s: Seq<char>, i: int) -> Option<(Seq<char>, int)> {
    let a = skip_space(s, i + "<use_skill>"@.len());
    let b = skip_name(s, a);
    let c = skip_space(s, b);
    if occurs_at(s, "<use_skill>"@, i) && a < b && is_requestable(s.subrange(a, b)) && occurs_at(
        s,
        "</use_skill>"@,
        c,
    ) {
        Some((s.subrange(a, b), (c + "</use_skill>"@.len()) as int))
    } else {
        None
    }
}

/// The names requested in `s` from position `from` on, in order.
pub open spec fn requests_from(s: Seq<char>, from: int) -> Seq<Seq<char>>
    decreases s.len() - from,
{
    if !(0 <= from < s.len()) {
        Seq::empty()
    } else {
        match request_at(s, from) {
            Some((name, end)) if from < end => seq![name] + requests_from(s, end),
            _ => requests_from(s, from + 1),
        }
    }
}

/// The names requested in `s`, in order.
pub open spec fn requests(s: Seq<char>) -> Seq<Seq<char>> {
    requests_from(s, 0)
}

/// `s` from position `from` on, without its requests.
pub open spec fn unrequested_from(s: Seq<char>, from: int) -> Seq<char>
    decreases s.len() - from,
{
    if !(0 <= from < s.len()) {
        Seq::empty()
    } else {
        match request_at(s, from) {
            Some((name, end)) if from < end => unrequested_from(s, end),
            _ => seq![s[from]] + unrequested_from(s, from + 1),
        }
    }
}

/// `s` without its requests.
pub open spec fn unrequested(s: Seq<char>) -> Seq<char> {
    unrequested_from(s, 0)
}

// ---------------------------------------------------------------------------
// How the specification functions look at a text
// ---------------------------------------------------------------------------

/// Every character is white space.
pub open spec fn all_space(s: Seq<char>) -> bool {
    forall|i: int| 0 <= i < s.len() ==> is_space(#[trigger] s[i])
}

/// What `skip_space` skips is white space, and it stops at none.
pub proof fn lemma_skip_space(s: Seq<char>, i: int)
    requires
        0 <= i,
    ensures
        i <= skip_space(s, i),
        i <= s.len() ==> skip_space(s, i) <= s.len(),
        forall|j: int| i <= j < skip_space(s, i) ==> j < s.len() && is_space(#[trigger] s[j]),
        skip_space(s, i) < s.len() ==> !is_space(s[skip_space(s, i)]),
    decreases s.len() - i,
{
    if i < s.len() && is_space(s[i]) {
        lemma_skip_space(s, i + 1);
    }
}

/// Where `skip_space` ends is known by what it skips and where it stops.
pub proof fn lemma_skip_space_is(s: Seq<char>, i: int, k: int)
    requires
        0 <= i <= k < s.len(),
        forall|j: int| i <= j < k ==> is_space(#[trigger] s[j]),
        !is_space(s[k]),
    ensures
        skip_space(s, i) == k,
    decreases k - i,
{
    if i < k {
        assert(is_space(s[i]));
        lemma_skip_space_is(s, i + 1, k);
    }
}

/// What `skip_name` skips are characters of a name, and it stops at none.
pub proof fn lemma_skip_name(s: Seq<char>, i: int)
    requires
        0 <= i,
    ensures
        i <= skip_name(s, i),
        i <= s.len() ==> skip_name(s, i) <= s.len(),
        forall|j: int| i <= j < skip_name(s, i) ==> j < s.len() && is_name_char(#[trigger] s[j]),
        skip_name(s, i) < s.len() ==> !is_name_char(s[skip_name(s, i)]),
    decreases s.len() - i,
{
    if i < s.len() && is_name_char(s[i]) {
        lemma_skip_name(s, i + 1);
    }
}

/// Where `skip_name` ends is known by what it skips and where it stops.
pub proof fn lemma_skip_name_is(s: Seq<char>, i: int, k: int)
    requires
        0 <= i <= k < s.len(),
        forall|j: int| i <= j < k ==> is_name_char(#[trigger] s[j]),
        !is_name_char(s[k]),
    ensures
        skip_name(s, i) == k,
    decreases k - i,
{
    if i < k {
        assert(is_name_char(s[i]));
        lemma_skip_name_is(s, i + 1, k);
    }
}

/// The rest of a text is skipped as it is skipped in the text.
proof fn lemma_skip_shift(s: Seq<char>, off: int, i: int)
    requires
        0 <= off <= s.len(),
        0 <= i,
    ensures
        skip_space(s, off + i) == off + skip_space(s.skip(off), i),
        skip_name(s, off + i) == off + skip_name(s.skip(off), i),
    decreases s.len() - off - i,
{
    let t = s.skip(off);
    if off + i < s.len() {
        assert(t[i] == s[off + i]);
        lemma_skip_shift(s, off, i + 1);
    }
}

/// A request in the rest of a text is one in the text.
proof fn lemma_request_shift(s: Seq<char>, off: int, i: int)
    requires
        0 <= off <= s.len(),
        0 <= i,
    ensures
        request_at(s, off + i) == match request_at(s.skip(off), i) {
            Some((name, end)) => Some((name, off + end)),
            None => None,
        },
{
    let t = s.skip(off);
    let open = "<use_skill>"@;
    let close = "</use_skill>"@;
    lemma_occurs_shift(s, open, off, i);
    let a = skip_space(t, i + open.len());
    lemma_skip_shift(s, off, (i + open.len()) as int);
    lemma_skip_space(t, (i + open.len()) as int);
    let b = skip_name(t, a);
    lemma_skip_shift(s, off, a);
    lemma_skip_name(t, a);
    let c = skip_space(t, b);
    lemma_skip_shift(s, off, b);
    lemma_skip_space(t, b);
    lemma_occurs_shift(s, close, off, c);
    if b <= t.len() {
        assert(s.subrange(off + a, off + b) =~= t.subrange(a, b));
    }
}

proof fn lemma_occurs_shift(s: Seq<char>, pat: Seq<char>, off: int, i: int)
    requires
        0 <= off <= s.len(),
        0 <= i,
    ensures
        occurs_at(s, pat, off + i) == occurs_at(s.skip(off), pat, i),
{
    let t = s.skip(off);
    if i + pat.len() <= t.len() {
        assert(t.subrange(i, i + pat.len()) =~= s.subrange(off + i, off + i + pat.len()));
    }
}

/// The requests in the rest of a text are those in the text from there on.
pub proof fn lemma_requests_shift(s: Seq<char>, off: int, i: int)
    requires
        0 <= off <= s.len(),
        0 <= i,
    ensures
        requests_from(s, off + i) == requests_from(s.skip(off), i),
        unrequested_from(s, off + i) == unrequested_from(s.skip(off), i),
    decreases s.len() - off - i,
{
    let t = s.skip(off);
    if off + i < s.len() {
        lemma_request_shift(s, off, i);
        match request_at(t, i) {
            Some((name, end)) if i < end => {
                lemma_requests_shift(s, off, end);
            },
            _ => {
                assert(t[i] == s[off + i]);
                lemma_requests_shift(s, off, i + 1);
            },
        }
    }
}

/// What a request is made of: its parts follow each other.
proof fn lemma_request_parts(s: Seq<char>, i: int)
    requires
        0 <= i,
        request_at(s, i) is Some,
    ensures
        ({
            let a = skip_space(s, i + "<use_skill>"@.len());
            let b = skip_name(s, a);
            let c = skip_space(s, b);
            let end = (request_at(s, i)->0).1;
            &&& i + 11 <= a < b <= c < end <= s.len()
            &&& end == c + 12
            &&& s[c] == '<'
            &&& s[c + 1] == '/'
            &&& forall|j: int| i < j < c ==> #[trigger] s[j] != '<'
            &&& forall|j: int| c < j < end ==> #[trigger] s[j] != '<'
        }),
{
    reveal_strlit("<use_skill>");
    reveal_strlit("</use_skill>");
    let open = "<use_skill>"@;
    let close = "</use_skill>"@;
    let a = skip_space(s, i + open.len());
    let b = skip_name(s, a);
    let c = skip_space(s, b);
    lemma_skip_space(s, (i + open.len()) as int);
    lemma_skip_name(s, a);
    lemma_skip_space(s, b);
    assert forall|k: int| 0 <= k < 12 implies s[c + k] == close[k] by {
        assert(s.subrange(c, c + close.len())[k] == s[c + k]);
    }
    assert(s[c + 0] == close[0]);
    assert(s[c + 1] == close[1]);
    assert forall|k: int| 0 <= k < 11 implies s[i + k] == open[k] by {
        assert(s.subrange(i, i + open.len())[k] == s[i + k]);
    }
    assert forall|j: int| i < j < c implies #[trigger] s[j] != '<' by {
        if j < i + 11 {
            assert(s[i + (j - i)] == open[j - i]);
        } else if j < a {
            assert(is_space(s[j]));
        } else if j < b {
            assert(is_name_char(s[j]));
        } else {
            assert(is_space(s[j]));
        }
    }
    assert forall|j: int| c < j < c + 12 implies #[trigger] s[j] != '<' by {
        assert(s[c + (j - c)] == close[j - c]);
    }
}

/// A text that begins with `<u` behind `p` takes no part in requests that begin in `p`.
pub proof fn lemma_request_before(p: Seq<char>, rest: Seq<char>, i: int)
    requires
        0 <= i < p.len(),
        rest.len() >= 2,
        rest[0] == '<',
        rest[1] != '/',
    ensures
        request_at(p + rest, i) == request_at(p, i),
        request_at(p, i) matches Some((name, end)) ==> end <= p.len(),
{
    reveal_strlit("<use_skill>");
    reveal_strlit("</use_skill>");
    let s = p + rest;
    let open = "<use_skill>"@;
    let close = "</use_skill>"@;
    if request_at(p, i) is Some {
        lemma_request_parts(p, i);
        let a = skip_space(p, i + 11);
        let b = skip_name(p, a);
        let c = skip_space(p, b);
        lemma_skip_space(p, i + 11);
        lemma_skip_name(p, a);
        lemma_skip_space(p, b);
        lemma_skip_space_is(s, i + 11, a);
        lemma_skip_name_is(s, a, b);
        lemma_skip_space_is(s, b, c);
        assert(s.subrange(i, i + 11) =~= p.subrange(i, i + 11));
        assert(s.subrange(a, b) =~= p.subrange(a, b));
        assert(s.subrange(c, c + 12) =~= p.subrange(c, c + 12));
    }
    if request_at(s, i) is Some {
        lemma_request_parts(s, i);
        let a = skip_space(s, i + 11);
        let b = skip_name(s, a);
        let c = skip_space(s, b);
        let end = c + 12;
        assert(s[p.len() as int] == '<');
        assert(s[p.len() + 1int] != '/');
        assert(end <= p.len()) by {
            if end > p.len() {
                if p.len() < c {
                    assert(s[p.len() as int] != '<');
                } else if p.len() == c {
                    assert(s[c + 1] == '/');
                } else {
                    assert(s[p.len() as int] != '<');
                }
            }
        }
        lemma_skip_space(s, i + 11);
        lemma_skip_name(s, a);
        lemma_skip_space(s, b);
        assert forall|j: int| i + 11 <= j < a implies is_space(#[trigger] p[j]) by {
            assert(s[j] == p[j]);
        }
        assert(p[a] == s[a]);
        lemma_skip_space_is(p, i + 11, a);
        assert forall|j: int| a <= j < b implies is_name_char(#[trigger] p[j]) by {
            assert(s[j] == p[j]);
        }
        assert(p[b] == s[b]);
        lemma_skip_name_is(p, a, b);
        assert forall|j: int| b <= j < c implies is_space(#[trigger] p[j]) by {
            assert(s[j] == p[j]);
        }
        assert(p[c] == s[c]);
        lemma_skip_space_is(p, b, c);
        assert(s.subrange(i, i + 11) =~= p.subrange(i, i + 11));
        assert(s.subrange(a, b) =~= p.subrange(a, b));
        assert(s.subrange(c, c + 12) =~= p.subrange(c, c + 12));
    }
}

// ---------------------------------------------------------------------------
// Searching
// ---------------------------------------------------------------------------

/// The patterns that are searched with.
pub open spec fn is_known_pattern(pattern: Seq<char>) -> bool {
    ||| pattern == USE_SKILL_PATTERN@
    ||| exists|word: Seq<char>|
        is_element_word(word) && (pattern == #[trigger] element_pattern(word) || pattern
            == line_element_pattern(word))
}

/// The text of a value that may be missing.
pub open spec fn opt_text(s: Option<String>) -> Option<Seq<char>> {
    match s {
        Some(s) => Some(s@),
        None => None,
    }
}

/// `regex::Regex::captures`, and the text of group 1 of the match. By the
/// syntax of the crate, `\s` is Unicode white space, `i` ignores case by simple
/// folding, `s` lets a dot match a line break, and `*?` takes as little as it
/// can. So the element patterns find the leftmost opening tag that some closing
/// tag follows, with the content up to the closest one, and the skill pattern
/// finds the leftmost request.
#[verifier::external_body]
pub(crate) fn first_group(pattern: &str, text: &str) -> (r: Option<String>)
    requires
        is_known_pattern(pattern@),
    ensures
        forall|word: Seq<char>|
            is_element_word(word) && pattern@ == #[trigger] element_pattern(word) ==> opt_text(r)
                == element_content(text@, word),
        forall|word: Seq<char>|
            is_element_word(word) && pattern@ == #[trigger] line_element_pattern(word)
                ==> opt_text(r) == line_element_content(text@, word),
        pattern@ == USE_SKILL_PATTERN@ ==> opt_text(r) == (if requests(text@).len() > 0 {
            Some(requests(text@)[0])
        } else {
            None
        }),
{
    let re = regex::Regex::new(pattern).unwrap();
    re.captures(text).map(|c| c[1].to_string())
}

/// `regex::Regex::captures_iter`, and the text of group 1 of each match: the
/// crate yields the matches from left to right, each search beginning where the
/// match before it ended.
#[verifier::external_body]
pub(crate) fn all_groups(pattern: &str, text: &str) -> (r: Vec<String>)
    requires
        pattern@ == USE_SKILL_PATTERN@,
    ensures
        crate::text::texts(r@) == requests(text@),
{
    let re = regex::Regex::new(pattern).unwrap();
    re.captures_iter(text).map(|c| c[1].to_string()).collect()
}

/// `regex::Regex::is_match`: whether there is a match anywhere.
#[verifier::external_body]
pub(crate) fn is_match(pattern: &str, text: &str) -> (r: bool)
    requires
        pattern@ == USE_SKILL_PATTERN@,
    ensures
        r == (requests(text@).len() > 0),
{
    regex::Regex::new(pattern).unwrap().is_match(text)
}

/// `regex::Regex::replace_all` with an empty replacement: the text with every
/// match taken out.
#[verifier::external_body]
pub(crate) fn without_matches(pattern: &str, text: &str) -> (r: String)
    requires
        pattern@ == USE_SKILL_PATTERN@,
    ensures
        r@ == unrequested(text@),
{
    regex::Regex::new(pattern).unwrap().replace_all(text, "").to_string()
}

} // verus!
