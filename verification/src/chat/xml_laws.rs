//! What the repair and the extraction of tagged parts promise together.

use super::xml_parser::{
    all_closed, close_tag, closed, detailed, is_cased, lemma_tag_rest, open_tag, respelt, sanitized,
    trimmed_element, unescaped,
};
use crate::pattern::{
    all_space, element_content, element_from, find_close_tag, is_close_tag, is_element_word,
    lemma_skip_space, lemma_skip_space_is, open_tag_end, same_letter, skip_space, tag_rest_end,
};
use crate::text::{
    find_from, has_text, is_space, lemma_find_from, lemma_replace_around, lemma_replace_first,
    lemma_split_none, occurs_at, replace_text,
};
use vstd::prelude::*;
use vstd::string::*;

verus! {

// ---------------------------------------------------------------------------
// Tags
// ---------------------------------------------------------------------------

/// A text from `<` to `>`, with neither of them within.
pub open spec fn is_tag(t: Seq<char>) -> bool {
    &&& t.len() >= 2
    &&& t[0] == '<'
    &&& t.last() == '>'
    &&& forall|i: int| 0 < i < t.len() - 1 ==> #[trigger] t[i] != '<' && t[i] != '>'
}

/// Two tags in a text do not overlap, unless they are the same.
proof fn lemma_tags_meet(s: Seq<char>, p: Seq<char>, i: int, q: Seq<char>, j: int)
    requires
        is_tag(p),
        is_tag(q),
        occurs_at(s, p, i),
        occurs_at(s, q, j),
        i < j + q.len(),
        j < i + p.len(),
    ensures
        i == j,
        p == q,
{
    assert forall|k: int| 0 <= k < p.len() implies #[trigger] p[k] == s[i + k] by {
        assert(s.subrange(i, i + p.len())[k] == s[i + k]);
    }
    assert forall|k: int| 0 <= k < q.len() implies #[trigger] q[k] == s[j + k] by {
        assert(s.subrange(j, j + q.len())[k] == s[j + k]);
    }
    assert(q[0] == s[j]);
    assert(p[0] == s[i]);
    if i < j {
        assert(p[j - i] == s[j]);
    } else if j < i {
        assert(q[i - j] == s[i]);
    } else {
        let m = p.len() - 1;
        let n = q.len() - 1;
        assert(p[m] == s[i + m]);
        assert(q[n] == s[j + n]);
        if m < n {
            assert(q[m] == s[i + m]);
        } else if n < m {
            assert(p[n] == s[j + n]);
        }
        assert(p =~= q);
    }
}

// ---------------------------------------------------------------------------
// Misspelt tags
// ---------------------------------------------------------------------------

/// A tag that is corrected.
pub open spec fn is_misspelt(p: Seq<char>) -> bool {
    ||| p == "<thougt>"@
    ||| p == "</thougt>"@
    ||| p == "<thougth>"@
    ||| p == "</thougth>"@
    ||| p == "<tought>"@
    ||| p == "</tought>"@
    ||| p == "<acton>"@
    ||| p == "</acton>"@
    ||| p == "<acion>"@
    ||| p == "</acion>"@
    ||| p == "<finalanswer>"@
    ||| p == "</finalanswer>"@
    ||| p == "<final-answer>"@
    ||| p == "</final-answer>"@
    ||| p == "<FinalAnswer>"@
    ||| p == "</FinalAnswer>"@
}

/// A tag that takes the place of misspelt ones.
pub open spec fn is_well_spelt(p: Seq<char>) -> bool {
    ||| p == "<thought>"@
    ||| p == "</thought>"@
    ||| p == "<action>"@
    ||| p == "</action>"@
    ||| p == "<final_answer>"@
    ||| p == "</final_answer>"@
}

/// A character of a misspelt tag between its ends.
spec fn is_inner(c: char) -> bool {
    'a' <= c <= 'z' || 'A' <= c <= 'Z' || c == '/' || c == '-' || c == '_'
}

spec fn all_inner(t: Seq<char>) -> bool {
    &&& t.len() >= 2
    &&& t[0] == '<'
    &&& t.last() == '>'
    &&& forall|i: int| 0 < i < t.len() - 1 ==> is_inner(#[trigger] t[i])
}

proof fn lemma_misspelt(p: Seq<char>)
    requires
        is_misspelt(p),
    ensures
        is_tag(p),
        all_inner(p),
        !is_well_spelt(p),
{
    reveal_strlit("<thougt>");
    reveal_strlit("</thougt>");
    reveal_strlit("<thougth>");
    reveal_strlit("</thougth>");
    reveal_strlit("<tought>");
    reveal_strlit("</tought>");
    reveal_strlit("<acton>");
    reveal_strlit("</acton>");
    reveal_strlit("<acion>");
    reveal_strlit("</acion>");
    reveal_strlit("<finalanswer>");
    reveal_strlit("</finalanswer>");
    reveal_strlit("<final-answer>");
    reveal_strlit("</final-answer>");
    reveal_strlit("<FinalAnswer>");
    reveal_strlit("</FinalAnswer>");
    reveal_strlit("<thought>");
    reveal_strlit("</thought>");
    reveal_strlit("<action>");
    reveal_strlit("</action>");
    reveal_strlit("<final_answer>");
    reveal_strlit("</final_answer>");
    assert(all_inner(p));
    assert("<thought>"@[1] == 't' && "<thought>"@[6] == 'h');
    assert("</thought>"@[7] == 'h');
    assert("<action>"@[1] == 'a');
    assert("</action>"@[1] == '/' && "</action>"@[2] == 'a');
    assert("<final_answer>"@[1] == 'f' && "<final_answer>"@[6] == '_');
    assert("</final_answer>"@[7] == '_');
    assert("<thougth>"@[1] == 't' && "<thougth>"@[6] == 't');
    assert("</thougth>"@[7] == 't');
    assert("<thougt>"@[1] == 't' && "<tought>"@[1] == 't');
    assert("</thougt>"@[1] == '/' && "</thougt>"@[2] == 't');
    assert("</tought>"@[1] == '/' && "</tought>"@[2] == 't');
    assert("<final-answer>"@[6] == '-' && "</final-answer>"@[7] == '-');
    assert("</finalanswer>"@[1] == '/' && "</FinalAnswer>"@[1] == '/');
}

proof fn lemma_well_spelt(p: Seq<char>)
    requires
        is_well_spelt(p),
    ensures
        is_tag(p),
{
    reveal_strlit("<thought>");
    reveal_strlit("</thought>");
    reveal_strlit("<action>");
    reveal_strlit("</action>");
    reveal_strlit("<final_answer>");
    reveal_strlit("</final_answer>");
    assert(all_inner(p));
}

/// Putting one tag in the place of another leaves none of the other, and brings in no
/// third one.
proof fn lemma_tag_gone(s: Seq<char>, pat: Seq<char>, with: Seq<char>, p: Seq<char>)
    requires
        is_tag(pat),
        is_tag(with),
        is_tag(p),
        p != with,
        p == pat || !has_text(s, p),
    ensures
        !has_text(replace_text(s, pat, with), p),
    decreases s.len(),
{
    lemma_replace_first(s, pat, with);
    lemma_find_from(s, pat, 0);
    if let Some(i) = find_from(s, pat, 0) {
        let head = s.subrange(0, i);
        let rest = s.subrange(i + pat.len(), s.len() as int);
        let tail = replace_text(rest, pat, with);
        let r = head + with + tail;
        if has_text(rest, p) {
            let k = choose|k: int| occurs_at(rest, p, k);
            assert(rest.subrange(k, k + p.len()) =~= s.subrange(
                i + pat.len() + k,
                i + pat.len() + k + p.len(),
            ));
            assert(occurs_at(s, p, i + pat.len() + k));
        }
        lemma_tag_gone(rest, pat, with, p);
        assert(r.subrange(i, i + with.len()) =~= with);
        assert(occurs_at(r, with, i));
        assert forall|k: int| !occurs_at(r, p, k) by {
            if occurs_at(r, p, k) {
                if k + p.len() <= i {
                    assert(r.subrange(k, k + p.len()) =~= s.subrange(k, k + p.len()));
                    assert(occurs_at(s, p, k));
                } else if k >= i + with.len() {
                    let m = k - i - with.len();
                    assert(r.subrange(k, k + p.len()) =~= tail.subrange(m, m + p.len()));
                    assert(occurs_at(tail, p, m));
                } else {
                    lemma_tags_meet(r, p, k, with, i);
                }
            }
        }
    }
}

/// Correcting one misspelling leaves none of it, and brings in no other.
proof fn lemma_corrected(s: Seq<char>, pat: Seq<char>, with: Seq<char>)
    requires
        is_misspelt(pat),
        is_well_spelt(with),
    ensures
        forall|p: Seq<char>|
            is_misspelt(p) && (p == pat || !has_text(s, p)) ==> !#[trigger] has_text(
                replace_text(s, pat, with),
                p,
            ),
{
    lemma_misspelt(pat);
    lemma_well_spelt(with);
    assert forall|p: Seq<char>|
        is_misspelt(p) && (p == pat || !has_text(s, p)) implies !#[trigger] has_text(
        replace_text(s, pat, with),
        p,
    ) by {
        lemma_misspelt(p);
        lemma_tag_gone(s, pat, with, p);
    }
}

/// After misspelt tags were corrected none of them is left, and correcting them again
/// changes nothing.
pub proof fn law_typos_corrected_once(s: Seq<char>)
    ensures
        forall|p: Seq<char>| is_misspelt(p) ==> !#[trigger] has_text(respelt(s), p),
        respelt(respelt(s)) == respelt(s),
{
    let s1 = replace_text(s, "<thougt>"@, "<thought>"@);
    let s2 = replace_text(s1, "</thougt>"@, "</thought>"@);
    let s3 = replace_text(s2, "<thougth>"@, "<thought>"@);
    let s4 = replace_text(s3, "</thougth>"@, "</thought>"@);
    let s5 = replace_text(s4, "<tought>"@, "<thought>"@);
    let s6 = replace_text(s5, "</tought>"@, "</thought>"@);
    let s7 = replace_text(s6, "<acton>"@, "<action>"@);
    let s8 = replace_text(s7, "</acton>"@, "</action>"@);
    let s9 = replace_text(s8, "<acion>"@, "<action>"@);
    let s10 = replace_text(s9, "</acion>"@, "</action>"@);
    let s11 = replace_text(s10, "<finalanswer>"@, "<final_answer>"@);
    let s12 = replace_text(s11, "</finalanswer>"@, "</final_answer>"@);
    let s13 = replace_text(s12, "<final-answer>"@, "<final_answer>"@);
    let s14 = replace_text(s13, "</final-answer>"@, "</final_answer>"@);
    let s15 = replace_text(s14, "<FinalAnswer>"@, "<final_answer>"@);
    lemma_corrected(s, "<thougt>"@, "<thought>"@);
    lemma_corrected(s1, "</thougt>"@, "</thought>"@);
    lemma_corrected(s2, "<thougth>"@, "<thought>"@);
    lemma_corrected(s3, "</thougth>"@, "</thought>"@);
    lemma_corrected(s4, "<tought>"@, "<thought>"@);
    lemma_corrected(s5, "</tought>"@, "</thought>"@);
    lemma_corrected(s6, "<acton>"@, "<action>"@);
    lemma_corrected(s7, "</acton>"@, "</action>"@);
    lemma_corrected(s8, "<acion>"@, "<action>"@);
    lemma_corrected(s9, "</acion>"@, "</action>"@);
    lemma_corrected(s10, "<finalanswer>"@, "<final_answer>"@);
    lemma_corrected(s11, "</finalanswer>"@, "</final_answer>"@);
    lemma_corrected(s12, "<final-answer>"@, "<final_answer>"@);
    lemma_corrected(s13, "</final-answer>"@, "</final_answer>"@);
    lemma_corrected(s14, "<FinalAnswer>"@, "<final_answer>"@);
    lemma_corrected(s15, "</FinalAnswer>"@, "</final_answer>"@);
    let r = respelt(s);
    assert(r == replace_text(s15, "</FinalAnswer>"@, "</final_answer>"@));
    assert(forall|p: Seq<char>| is_misspelt(p) ==> !#[trigger] has_text(r, p));
    assert forall|pat: Seq<char>, with: Seq<char>| is_misspelt(pat) implies #[trigger] replace_text(
        r,
        pat,
        with,
    ) == r by {
        assert(!has_text(r, pat));
        lemma_split_none(r, pat);
    }
}

// ---------------------------------------------------------------------------
// Elements
// ---------------------------------------------------------------------------

/// `t` is an opening tag named `word`.
pub open spec fn is_open_text(t: Seq<char>, word: Seq<char>) -> bool {
    exists|a: Seq<char>, w: Seq<char>, b: Seq<char>| #[trigger]
        open_tag(a, w, b) == t && all_space(a) && all_space(b) && is_cased(w, word)
}

/// `t` is a closing tag named `word`.
pub open spec fn is_close_text(t: Seq<char>, word: Seq<char>) -> bool {
    exists|a: Seq<char>, b: Seq<char>, w: Seq<char>, c: Seq<char>| #[trigger]
        close_tag(a, b, w, c) == t && all_space(a) && all_space(b) && all_space(c) && is_cased(
            w,
            word,
        )
}

/// `s` is an opening tag and, behind it, a closing one, with anything around them.
pub open spec fn is_pair(
    s: Seq<char>,
    word: Seq<char>,
    a: Seq<char>,
    t: Seq<char>,
    b: Seq<char>,
    u: Seq<char>,
    c: Seq<char>,
) -> bool {
    is_open_text(t, word) && is_close_text(u, word) && s == a + t + b + u + c
}

/// An opening tag stands in `s` and, behind it, a closing one.
pub open spec fn has_pair(s: Seq<char>, word: Seq<char>) -> bool {
    exists|a: Seq<char>, t: Seq<char>, b: Seq<char>, u: Seq<char>, c: Seq<char>|
        is_pair(s, word, a, t, b, u, c)
}

proof fn lemma_rest_parts(s: Seq<char>, word: Seq<char>, i: int)
    requires
        0 <= i,
        tag_rest_end(s, word, i) is Some,
    ensures
        ({
            let x = skip_space(s, i);
            let y = x + word.len();
            let z = skip_space(s, y as int);
            &&& i <= x <= y <= z < s.len()
            &&& tag_rest_end(s, word, i) == Some(z + 1)
            &&& all_space(s.subrange(i, x))
            &&& is_cased(s.subrange(x, y as int), word)
            &&& all_space(s.subrange(y as int, z))
            &&& s[z] == '>'
        }),
{
    let x = skip_space(s, i);
    let y = (x + word.len()) as int;
    lemma_skip_space(s, i);
    lemma_skip_space(s, y);
    let w = s.subrange(x, y);
    assert forall|k: int| 0 <= k < w.len() implies same_letter(#[trigger] w[k], word[k]) by {
        assert(same_letter(s[x + k], word[k]));
    }
}

proof fn lemma_open_parts(s: Seq<char>, word: Seq<char>, i: int)
    requires
        0 <= i,
        open_tag_end(s, word, i) is Some,
    ensures
        i < open_tag_end(s, word, i)->0 <= s.len(),
        is_open_text(s.subrange(i, open_tag_end(s, word, i)->0), word),
{
    lemma_rest_parts(s, word, i + 1);
    let x = skip_space(s, i + 1);
    let y = (x + word.len()) as int;
    let z = skip_space(s, y);
    let t = s.subrange(i, z + 1);
    let o = open_tag(s.subrange(i + 1, x), s.subrange(x, y), s.subrange(y, z));
    assert(o =~= t);
}

proof fn lemma_close_parts(s: Seq<char>, word: Seq<char>, i: int) -> (end: int)
    requires
        0 <= i,
        is_close_tag(s, word, i),
    ensures
        i < end <= s.len(),
        is_close_text(s.subrange(i, end), word),
{
    lemma_skip_space(s, i + 1);
    let slash = skip_space(s, i + 1);
    lemma_rest_parts(s, word, slash + 1);
    let x = skip_space(s, slash + 1);
    let y = (x + word.len()) as int;
    let z = skip_space(s, y);
    let t = s.subrange(i, z + 1);
    let o = close_tag(
        s.subrange(i + 1, slash),
        s.subrange(slash + 1, x),
        s.subrange(x, y),
        s.subrange(y, z),
    );
    assert(o =~= t);
    z + 1
}

proof fn lemma_found_close(s: Seq<char>, word: Seq<char>, from: int)
    requires
        find_close_tag(s, word, from) is Some,
    ensures
        0 <= from <= find_close_tag(s, word, from)->0 < s.len(),
        is_close_tag(s, word, find_close_tag(s, word, from)->0),
    decreases s.len() - from,
{
    if !is_close_tag(s, word, from) {
        lemma_found_close(s, word, from + 1);
    }
}

/// Where an element is found, its tags stand.
proof fn lemma_element_is_pair(s: Seq<char>, word: Seq<char>, from: int)
    requires
        element_from(s, word, from) is Some,
    ensures
        has_pair(s, word),
    decreases s.len() - from,
{
    match open_tag_end(s, word, from) {
        Some(j) if find_close_tag(s, word, j) is Some => {
            let k = find_close_tag(s, word, j)->0;
            lemma_open_parts(s, word, from);
            lemma_found_close(s, word, j);
            let end = lemma_close_parts(s, word, k);
            let a = s.subrange(0, from);
            let t = s.subrange(from, j);
            let b = s.subrange(j, k);
            let u = s.subrange(k, end);
            let c = s.subrange(end, s.len() as int);
            assert(s =~= a + t + b + u + c);
            assert(is_pair(s, word, a, t, b, u, c));
        },
        _ => {
            lemma_element_is_pair(s, word, from + 1);
        },
    }
}

proof fn lemma_close_is_found(s: Seq<char>, word: Seq<char>, from: int, k: int)
    requires
        0 <= from <= k < s.len(),
        is_close_tag(s, word, k),
    ensures
        find_close_tag(s, word, from) is Some,
    decreases k - from,
{
    if from < k {
        lemma_close_is_found(s, word, from + 1, k);
    }
}

proof fn lemma_element_is_found(s: Seq<char>, word: Seq<char>, from: int, i: int)
    requires
        0 <= from <= i < s.len(),
        open_tag_end(s, word, i) matches Some(j) && find_close_tag(s, word, j) is Some,
    ensures
        element_from(s, word, from) is Some,
    decreases i - from,
{
    if from < i {
        lemma_element_is_found(s, word, from + 1, i);
    }
}

/// Where an opening tag stands, and behind it a closing one, an element is found.
proof fn lemma_pair_is_element(s: Seq<char>, word: Seq<char>)
    requires
        is_element_word(word),
        has_pair(s, word),
    ensures
        element_content(s, word) is Some,
{
    let (a, t, b, u, c) = choose|
        a: Seq<char>,
        t: Seq<char>,
        b: Seq<char>,
        u: Seq<char>,
        c: Seq<char>,
    |
        is_pair(s, word, a, t, b, u, c);
    let (a1, w1, b1) = choose|a1: Seq<char>, w1: Seq<char>, b1: Seq<char>| #[trigger]
        open_tag(a1, w1, b1) == t && all_space(a1) && all_space(b1) && is_cased(w1, word);
    let (a2, b2, w2, c2) = choose|a2: Seq<char>, b2: Seq<char>, w2: Seq<char>, c2: Seq<char>|
        #[trigger]
        close_tag(a2, b2, w2, c2) == u && all_space(a2) && all_space(b2) && all_space(c2)
            && is_cased(w2, word);
    let i = a.len() as int;
    let j = (i + t.len()) as int;
    let k = (j + b.len()) as int;
    let slash = (k + 1 + a2.len()) as int;
    assert(s[i] == t[0]);
    assert(s.subrange(i + 1, i + 1 + a1.len() + w1.len() + b1.len() + 1) =~= a1 + w1 + b1 + seq![
        '>',
    ]);
    lemma_tag_rest(s, word, i + 1, a1, w1, b1);
    assert(s[k] == u[0]);
    assert forall|x: int| k + 1 <= x < slash implies is_space(#[trigger] s[x]) by {
        assert(s[x] == a2[x - (k + 1)]);
    }
    assert(s[slash] == '/');
    lemma_skip_space_is(s, k + 1, slash);
    assert(s.subrange(slash + 1, slash + 1 + b2.len() + w2.len() + c2.len() + 1) =~= b2 + w2 + c2
        + seq!['>']);
    lemma_tag_rest(s, word, slash + 1, b2, w2, c2);
    assert(is_close_tag(s, word, k));
    lemma_close_is_found(s, word, j, k);
    lemma_element_is_found(s, word, 0, i);
}

/// The letters of an element word.
proof fn lemma_word_letters(word: Seq<char>)
    requires
        is_element_word(word),
    ensures
        forall|i: int| 0 <= i < word.len() ==> 'a' <= #[trigger] word[i] <= 'z' || word[i] == '_',
{
    reveal_strlit("thought");
    reveal_strlit("action");
    reveal_strlit("final_answer");
}

/// A character that a tag of an element can hold between its ends.
spec fn is_plain(c: char) -> bool {
    c != '<' && c != '>' && c != '&' && c != ';'
}

proof fn lemma_cased_plain(w: Seq<char>, word: Seq<char>)
    requires
        is_element_word(word),
        is_cased(w, word),
    ensures
        forall|i: int| 0 <= i < w.len() ==> is_plain(#[trigger] w[i]),
{
    lemma_word_letters(word);
    assert forall|i: int| 0 <= i < w.len() implies is_plain(#[trigger] w[i]) by {
        assert(same_letter(w[i], word[i]));
        assert('a' <= word[i] <= 'z' || word[i] == '_');
    }
}

/// A tag of an element is a tag, and holds neither the beginning nor the end of an escape.
proof fn lemma_element_text(t: Seq<char>, word: Seq<char>)
    requires
        is_element_word(word),
        is_open_text(t, word) || is_close_text(t, word),
    ensures
        is_tag(t),
        !t.contains('&'),
        !t.contains(';'),
{
    assert forall|i: int| 0 < i < t.len() - 1 implies is_plain(#[trigger] t[i]) by {
        if is_open_text(t, word) {
            let (a, w, b) = choose|a: Seq<char>, w: Seq<char>, b: Seq<char>| #[trigger]
                open_tag(a, w, b) == t && all_space(a) && all_space(b) && is_cased(w, word);
            lemma_cased_plain(w, word);
            if i < 1 + a.len() {
                assert(t[i] == a[i - 1]);
            } else if i < 1 + a.len() + w.len() {
                assert(t[i] == w[i - 1 - a.len()]);
            } else {
                assert(t[i] == b[i - 1 - a.len() - w.len()]);
            }
        } else {
            let (a, b, w, c) = choose|a: Seq<char>, b: Seq<char>, w: Seq<char>, c: Seq<char>|
                #[trigger]
                close_tag(a, b, w, c) == t && all_space(a) && all_space(b) && all_space(c)
                    && is_cased(w, word);
            lemma_cased_plain(w, word);
            if i < 1 + a.len() {
                assert(t[i] == a[i - 1]);
            } else if i == 1 + a.len() {
                assert(t[i] == '/');
            } else if i < 2 + a.len() + b.len() {
                assert(t[i] == b[i - 2 - a.len()]);
            } else if i < 2 + a.len() + b.len() + w.len() {
                assert(t[i] == w[i - 2 - a.len() - b.len()]);
            } else {
                assert(t[i] == c[i - 2 - a.len() - b.len() - w.len()]);
            }
        }
    }
    assert(t[0] == '<' && t.last() == '>' && t.len() >= 2);
    assert forall|i: int| 0 <= i < t.len() implies #[trigger] t[i] != '&' && t[i] != ';' by {
        if 0 < i < t.len() - 1 {
            assert(is_plain(t[i]));
        }
    }
    assert forall|i: int| 0 < i < t.len() - 1 implies #[trigger] t[i] != '<' && t[i] != '>' by {
        assert(is_plain(t[i]));
    }
}

/// A tag of an element is not misspelt.
proof fn lemma_element_well_spelt(t: Seq<char>, word: Seq<char>)
    requires
        is_element_word(word),
        is_open_text(t, word) || is_close_text(t, word),
    ensures
        !is_misspelt(t),
{
    if is_misspelt(t) {
        lemma_misspelt(t);
        lemma_word_letters(word);
        if is_open_text(t, word) {
            let (a, w1, b) = choose|a: Seq<char>, w1: Seq<char>, b: Seq<char>| #[trigger]
                open_tag(a, w1, b) == t && all_space(a) && all_space(b) && is_cased(w1, word);
            if a.len() > 0 {
                assert(t[1] == a[0]);
                assert(is_inner(t[1]));
            }
            if b.len() > 0 {
                let k = 1 + a.len() + w1.len();
                assert(t[k as int] == b[0]);
                assert(is_inner(t[k as int]));
            }
            assert(t =~= seq!['<'] + w1 + seq!['>']);
            lemma_letters_differ(t, w1, word, 1);
        } else {
            let (a, b, w1, c) = choose|a: Seq<char>, b: Seq<char>, w1: Seq<char>, c: Seq<char>|
                #[trigger]
                close_tag(a, b, w1, c) == t && all_space(a) && all_space(b) && all_space(c)
                    && is_cased(w1, word);
            if a.len() > 0 {
                assert(t[1] == a[0]);
                assert(is_inner(t[1]));
            }
            if b.len() > 0 {
                let k = 2 + a.len();
                assert(t[k as int] == b[0]);
                assert(is_inner(t[k as int]));
            }
            if c.len() > 0 {
                let k = 2 + a.len() + b.len() + w1.len();
                assert(t[k as int] == c[0]);
                assert(is_inner(t[k as int]));
            }
            assert(t =~= seq!['<', '/'] + w1 + seq!['>']);
            lemma_letters_differ(t, w1, word, 2);
        }
    }
}

/// No misspelt tag has the letters of an element word behind its beginning of `from`
/// characters.
proof fn lemma_letters_differ(t: Seq<char>, w: Seq<char>, word: Seq<char>, from: int)
    requires
        is_element_word(word),
        is_cased(w, word),
        from == 1 && t == seq!['<'] + w + seq!['>'] || from == 2 && t == seq!['<', '/'] + w + seq![
            '>',
        ],
    ensures
        !is_misspelt(t),
{
    reveal_strlit("thought");
    reveal_strlit("action");
    reveal_strlit("final_answer");
    reveal_strlit("<thougt>");
    reveal_strlit("</thougt>");
    reveal_strlit("<thougth>");
    reveal_strlit("</thougth>");
    reveal_strlit("<tought>");
    reveal_strlit("</tought>");
    reveal_strlit("<acton>");
    reveal_strlit("</acton>");
    reveal_strlit("<acion>");
    reveal_strlit("</acion>");
    reveal_strlit("<finalanswer>");
    reveal_strlit("</finalanswer>");
    reveal_strlit("<final-answer>");
    reveal_strlit("</final-answer>");
    reveal_strlit("<FinalAnswer>");
    reveal_strlit("</FinalAnswer>");
    assert(t.len() == word.len() + from + 1);
    assert(t[from] == w[0] && same_letter(w[0], word[0]));
    assert(t[from + 5] == w[5] && same_letter(w[5], word[5]));
    if from == 2 {
        assert(t[1] == '/');
    }
}

// ---------------------------------------------------------------------------
// What repairs leave alone
// ---------------------------------------------------------------------------

/// No occurrence of `pat` touches one of `t`.
pub open spec fn spares(pat: Seq<char>, t: Seq<char>) -> bool {
    forall|s: Seq<char>, k: int, p: int| #[trigger]
        occurs_at(s, pat, k) && #[trigger] occurs_at(s, t, p) ==> k + pat.len() <= p || k >= p
            + t.len()
}

proof fn lemma_escape_spares(pat: Seq<char>, t: Seq<char>)
    requires
        pat.len() > 0,
        pat[0] == '&',
        pat.last() == ';',
        !pat.contains('<'),
        is_tag(t),
        !t.contains('&'),
        !t.contains(';'),
    ensures
        spares(pat, t),
{
    assert forall|s: Seq<char>, k: int, p: int| #[trigger]
        occurs_at(s, pat, k) && #[trigger] occurs_at(s, t, p) implies k + pat.len() <= p || k >= p
        + t.len() by {
        let e = k + pat.len() - 1;
        assert(s.subrange(k, k + pat.len())[0] == s[k]);
        assert(s.subrange(k, k + pat.len())[pat.len() - 1] == s[e]);
        assert(s.subrange(p, p + t.len())[0] == s[p]);
        if p <= k < p + t.len() {
            assert(s.subrange(p, p + t.len())[k - p] == s[k]);
            assert(t.contains('&'));
        } else if p <= e < p + t.len() {
            assert(s.subrange(p, p + t.len())[e - p] == s[e]);
            assert(t.contains(';'));
        } else if k < p && p + t.len() <= e {
            assert(s.subrange(k, k + pat.len())[p - k] == s[p]);
            assert(pat.contains('<'));
        }
    }
}

proof fn lemma_tag_spares(pat: Seq<char>, t: Seq<char>)
    requires
        is_tag(pat),
        is_tag(t),
        pat != t,
    ensures
        spares(pat, t),
{
    assert forall|s: Seq<char>, k: int, p: int| #[trigger]
        occurs_at(s, pat, k) && #[trigger] occurs_at(s, t, p) implies k + pat.len() <= p || k >= p
        + t.len() by {
        if k < p + t.len() && p < k + pat.len() {
            lemma_tags_meet(s, pat, k, t, p);
        }
    }
}

/// The tags of an element survive a replacement that spares them.
proof fn lemma_pair_survives(s: Seq<char>, word: Seq<char>, pat: Seq<char>, with: Seq<char>)
    requires
        pat.len() > 0,
        has_pair(s, word),
        forall|t: Seq<char>|
            is_open_text(t, word) || is_close_text(t, word) ==> t.len() > 0 && #[trigger] spares(
                pat,
                t,
            ),
    ensures
        has_pair(replace_text(s, pat, with), word),
{
    let (a, t, b, u, c) = choose|
        a: Seq<char>,
        t: Seq<char>,
        b: Seq<char>,
        u: Seq<char>,
        c: Seq<char>,
    |
        is_pair(s, word, a, t, b, u, c);
    assert(spares(pat, t) && spares(pat, u));
    let rest = b + u + c;
    assert(s =~= a + t + rest);
    assert(s.subrange(a.len() as int, (a.len() + t.len()) as int) =~= t);
    assert(occurs_at(a + t + rest, t, a.len() as int));
    lemma_replace_around(a, t, rest, pat, with);
    assert(rest.subrange(b.len() as int, (b.len() + u.len()) as int) =~= u);
    assert(occurs_at(b + u + c, u, b.len() as int));
    lemma_replace_around(b, u, c, pat, with);
    let a2 = replace_text(a, pat, with);
    let b2 = replace_text(b, pat, with);
    let c2 = replace_text(c, pat, with);
    let r = replace_text(s, pat, with);
    assert(r =~= a2 + t + b2 + u + c2);
    assert(is_pair(r, word, a2, t, b2, u, c2));
}

proof fn lemma_escape_undone(s: Seq<char>, word: Seq<char>, pat: Seq<char>, with: Seq<char>)
    requires
        is_element_word(word),
        has_pair(s, word),
        pat.len() > 0,
        pat[0] == '&',
        pat.last() == ';',
        !pat.contains('<'),
    ensures
        has_pair(replace_text(s, pat, with), word),
{
    assert forall|t: Seq<char>|
        is_open_text(t, word) || is_close_text(t, word) implies t.len() > 0 && #[trigger] spares(
        pat,
        t,
    ) by {
        lemma_element_text(t, word);
        lemma_escape_spares(pat, t);
    }
    lemma_pair_survives(s, word, pat, with);
}

proof fn lemma_typo_corrected(s: Seq<char>, word: Seq<char>, pat: Seq<char>, with: Seq<char>)
    requires
        is_element_word(word),
        has_pair(s, word),
        is_misspelt(pat),
    ensures
        has_pair(replace_text(s, pat, with), word),
{
    lemma_misspelt(pat);
    assert forall|t: Seq<char>|
        is_open_text(t, word) || is_close_text(t, word) implies t.len() > 0 && #[trigger] spares(
        pat,
        t,
    ) by {
        lemma_element_text(t, word);
        lemma_element_well_spelt(t, word);
        lemma_tag_spares(pat, t);
    }
    lemma_pair_survives(s, word, pat, with);
}

proof fn lemma_closed_keeps(s: Seq<char>, word: Seq<char>, tag: Seq<char>)
    requires
        has_pair(s, word),
    ensures
        has_pair(closed(s, tag), word),
{
    let (a, t, b, u, c) = choose|
        a: Seq<char>,
        t: Seq<char>,
        b: Seq<char>,
        u: Seq<char>,
        c: Seq<char>,
    |
        is_pair(s, word, a, t, b, u, c);
    let r = s + "</"@ + tag + ">"@;
    let d = c + "</"@ + tag + ">"@;
    assert(r =~= a + t + b + u + d);
    assert(is_pair(r, word, a, t, b, u, d));
}

/// Where a text has an element, the repaired text has one too.
proof fn lemma_repair_keeps(s: Seq<char>, word: Seq<char>)
    requires
        is_element_word(word),
        element_content(s, word) is Some,
    ensures
        element_content(sanitized(s), word) is Some,
{
    reveal_strlit("&lt;");
    reveal_strlit("&gt;");
    reveal_strlit("&amp;");
    reveal_strlit("&quot;");
    reveal_strlit("&apos;");
    lemma_element_is_pair(s, word, 0);
    lemma_escape_undone(s, word, "&lt;"@, "<"@);
    let s1 = replace_text(s, "&lt;"@, "<"@);
    lemma_escape_undone(s1, word, "&gt;"@, ">"@);
    let s2 = replace_text(s1, "&gt;"@, ">"@);
    lemma_escape_undone(s2, word, "&amp;"@, "&"@);
    let s3 = replace_text(s2, "&amp;"@, "&"@);
    lemma_escape_undone(s3, word, "&quot;"@, "\""@);
    let s4 = replace_text(s3, "&quot;"@, "\""@);
    lemma_escape_undone(s4, word, "&apos;"@, "'"@);
    let u = unescaped(s);
    assert(has_pair(u, word));
    lemma_closed_keeps(u, word, "thought"@);
    let c1 = closed(u, "thought"@);
    lemma_closed_keeps(c1, word, "action"@);
    let c2 = closed(c1, "action"@);
    lemma_closed_keeps(c2, word, "final_answer"@);
    let c3 = closed(c2, "final_answer"@);
    lemma_closed_keeps(c3, word, "observation"@);
    lemma_respelt_keeps(all_closed(u), word);
    lemma_pair_is_element(sanitized(s), word);
}

proof fn lemma_respelt_keeps(s: Seq<char>, word: Seq<char>)
    requires
        is_element_word(word),
        has_pair(s, word),
    ensures
        has_pair(respelt(s), word),
{
    lemma_typo_corrected(s, word, "<thougt>"@, "<thought>"@);
    let s = replace_text(s, "<thougt>"@, "<thought>"@);
    lemma_typo_corrected(s, word, "</thougt>"@, "</thought>"@);
    let s = replace_text(s, "</thougt>"@, "</thought>"@);
    lemma_typo_corrected(s, word, "<thougth>"@, "<thought>"@);
    let s = replace_text(s, "<thougth>"@, "<thought>"@);
    lemma_typo_corrected(s, word, "</thougth>"@, "</thought>"@);
    let s = replace_text(s, "</thougth>"@, "</thought>"@);
    lemma_typo_corrected(s, word, "<tought>"@, "<thought>"@);
    let s = replace_text(s, "<tought>"@, "<thought>"@);
    lemma_typo_corrected(s, word, "</tought>"@, "</thought>"@);
    let s = replace_text(s, "</tought>"@, "</thought>"@);
    lemma_typo_corrected(s, word, "<acton>"@, "<action>"@);
    let s = replace_text(s, "<acton>"@, "<action>"@);
    lemma_typo_corrected(s, word, "</acton>"@, "</action>"@);
    let s = replace_text(s, "</acton>"@, "</action>"@);
    lemma_typo_corrected(s, word, "<acion>"@, "<action>"@);
    let s = replace_text(s, "<acion>"@, "<action>"@);
    lemma_typo_corrected(s, word, "</acion>"@, "</action>"@);
    let s = replace_text(s, "</acion>"@, "</action>"@);
    lemma_typo_corrected(s, word, "<finalanswer>"@, "<final_answer>"@);
    let s = replace_text(s, "<finalanswer>"@, "<final_answer>"@);
    lemma_typo_corrected(s, word, "</finalanswer>"@, "</final_answer>"@);
    let s = replace_text(s, "</finalanswer>"@, "</final_answer>"@);
    lemma_typo_corrected(s, word, "<final-answer>"@, "<final_answer>"@);
    let s = replace_text(s, "<final-answer>"@, "<final_answer>"@);
    lemma_typo_corrected(s, word, "</final-answer>"@, "</final_answer>"@);
    let s = replace_text(s, "</final-answer>"@, "</final_answer>"@);
    lemma_typo_corrected(s, word, "<FinalAnswer>"@, "<final_answer>"@);
    let s = replace_text(s, "<FinalAnswer>"@, "<final_answer>"@);
    lemma_typo_corrected(s, word, "</FinalAnswer>"@, "</final_answer>"@);
}

/// Extraction with and without an account of repairs agree. Both find content or neither
/// does. A repair is told if and only if content is found and the text as it is has no
/// complete element; what is found then is what is extracted without the account. There
/// are notes if and only if a repair is told.
pub proof fn law_detailed_agrees(s: Seq<char>, word: Seq<char>)
    requires
        is_element_word(word),
    ensures
        detailed(s, word).0 is Some <==> trimmed_element(sanitized(s), word) is Some,
        detailed(s, word).1 <==> detailed(s, word).0 is Some && element_content(s, word) is None,
        detailed(s, word).1 ==> detailed(s, word).0 == trimmed_element(sanitized(s), word),
        detailed(s, word).2 is Some <==> detailed(s, word).1,
{
    if element_content(s, word) is Some {
        lemma_repair_keeps(s, word);
    }
}

} // verus!
