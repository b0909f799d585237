//! Text as a sequence of characters.
//!
//! Every function works on the characters of a string. The specification
//! functions say what an operation gives in terms of `Seq<char>`.

use vstd::prelude::*;
use vstd::string::*;

verus! {

// ---------------------------------------------------------------------------
// Occurrences of one text in another
// ---------------------------------------------------------------------------

/// `pat` stands in `s` at character position `i`.
pub open spec fn occurs_at(s: Seq<char>, pat: Seq<char>, i: int) -> bool {
    0 <= i && i + pat.len() <= s.len() && s.subrange(i, i + pat.len()) == pat
}

/// `pat` stands somewhere in `s`.
pub open spec fn has_text(s: Seq<char>, pat: Seq<char>) -> bool {
    exists|i: int| occurs_at(s, pat, i)
}

/// The first position from `from` on at which `pat` stands in `s`.
pub open spec fn find_from(s: Seq<char>, pat: Seq<char>, from: int) -> Option<int>
    decreases s.len() - from + 1,
{
    if from < 0 || from + pat.len() > s.len() {
        None
    } else if occurs_at(s, pat, from) {
        Some(from)
    } else {
        find_from(s, pat, from + 1)
    }
}

/// `s` begins with `pat`.
pub open spec fn begins_with(s: Seq<char>, pat: Seq<char>) -> bool {
    occurs_at(s, pat, 0)
}

/// `s` ends with `pat`.
pub open spec fn finishes_with(s: Seq<char>, pat: Seq<char>) -> bool {
    occurs_at(s, pat, s.len() - pat.len())
}

/// `s` cut at every occurrence of `sep`, taken from the left without overlap.
pub open spec fn split_text(s: Seq<char>, sep: Seq<char>) -> Seq<Seq<char>>
    decreases s.len(),
{
    match find_from(s, sep, 0) {
        Some(i) if sep.len() > 0 && occurs_at(s, sep, i) => seq![s.subrange(0, i)] + split_text(
            s.subrange(i + sep.len(), s.len() as int),
            sep,
        ),
        _ => seq![s],
    }
}

/// `parts` one after the other, with `sep` between neighbours.
pub open spec fn join_text(parts: Seq<Seq<char>>, sep: Seq<char>) -> Seq<char>
    decreases parts.len(),
{
    if parts.len() == 0 {
        Seq::empty()
    } else if parts.len() == 1 {
        parts[0]
    } else {
        parts[0] + sep + join_text(parts.drop_first(), sep)
    }
}

/// `s` with every occurrence of `pat` (from the left, without overlap) replaced by `with`.
pub open spec fn replace_text(s: Seq<char>, pat: Seq<char>, with: Seq<char>) -> Seq<char> {
    join_text(split_text(s, pat), with)
}

/// What `find_from` gives is an occurrence, and there is none before it.
pub proof fn lemma_find_from(s: Seq<char>, pat: Seq<char>, from: int)
    requires
        0 <= from,
    ensures
        match find_from(s, pat, from) {
            Some(i) => from <= i && occurs_at(s, pat, i) && forall|j: int|
                from <= j < i ==> !occurs_at(s, pat, j),
            None => forall|j: int| from <= j ==> !occurs_at(s, pat, j),
        },
    decreases s.len() - from + 1,
{
    if from + pat.len() > s.len() {
    } else if occurs_at(s, pat, from) {
    } else {
        lemma_find_from(s, pat, from + 1);
    }
}

/// An occurrence with none before it is the one that `find_from` gives.
pub proof fn lemma_find_from_is(s: Seq<char>, pat: Seq<char>, from: int, i: int)
    requires
        0 <= from <= i,
        occurs_at(s, pat, i),
        forall|j: int| from <= j < i ==> !occurs_at(s, pat, j),
    ensures
        find_from(s, pat, from) == Some(i),
{
    lemma_find_from(s, pat, from);
}

/// Where nothing occurs, `find_from` gives nothing.
pub proof fn lemma_find_from_none(s: Seq<char>, pat: Seq<char>, from: int)
    requires
        0 <= from,
        forall|j: int| from <= j ==> !occurs_at(s, pat, j),
    ensures
        find_from(s, pat, from) is None,
{
    lemma_find_from(s, pat, from);
}

// ---------------------------------------------------------------------------
// White space
// ---------------------------------------------------------------------------

/// The characters with the Unicode property White_Space.
pub open spec fn is_space(c: char) -> bool {
    ||| '\u{9}' <= c <= '\u{d}'
    ||| c == '\u{20}'
    ||| c == '\u{85}'
    ||| c == '\u{a0}'
    ||| c == '\u{1680}'
    ||| '\u{2000}' <= c <= '\u{200a}'
    ||| c == '\u{2028}'
    ||| c == '\u{2029}'
    ||| c == '\u{202f}'
    ||| c == '\u{205f}'
    ||| c == '\u{3000}'
}

/// `s` without the white space that it begins with.
pub open spec fn trim_front(s: Seq<char>) -> Seq<char>
    decreases s.len(),
{
    if s.len() > 0 && is_space(s[0]) {
        trim_front(s.drop_first())
    } else {
        s
    }
}

/// `s` without the white space that it ends with.
pub open spec fn trim_back(s: Seq<char>) -> Seq<char>
    decreases s.len(),
{
    if s.len() > 0 && is_space(s.last()) {
        trim_back(s.drop_last())
    } else {
        s
    }
}

/// `s` without white space at either end.
pub open spec fn trimmed(s: Seq<char>) -> Seq<char> {
    trim_back(trim_front(s))
}

/// Whether `c` is white space.
pub fn is_whitespace(c: char) -> (r: bool)
    ensures
        r == is_space(c),
{
    ('\u{9}' <= c && c <= '\u{d}') || c == '\u{20}' || c == '\u{85}' || c == '\u{a0}' || c
        == '\u{1680}' || ('\u{2000}' <= c && c <= '\u{200a}') || c == '\u{2028}' || c == '\u{2029}'
        || c == '\u{202f}' || c == '\u{205f}' || c == '\u{3000}'
}

// ---------------------------------------------------------------------------
// Strings and vectors of characters
// ---------------------------------------------------------------------------

/// `String::push` puts one character behind the others.
pub assume_specification[ std::string::String::push ](s: &mut std::string::String, c: char)
    ensures
        final(s)@ == old(s)@.push(c),
;

/// The characters of `s`.
pub fn chars_of(s: &str) -> (r: Vec<char>)
    ensures
        r@ == s@,
{
    let mut r: Vec<char> = Vec::new();
    for c in iter: s.chars()
        invariant
            iter.seq() == s@,
            r@ == s@.take(iter.index() as int),
    {
        r.push(c);
    }
    assert(s@.take(s@.len() as int) == s@);
    r
}

/// The string of the characters `from..to` of `v`.
pub fn string_of(v: &Vec<char>, from: usize, to: usize) -> (r: String)
    requires
        from <= to <= v@.len(),
    ensures
        r@ == v@.subrange(from as int, to as int),
{
    let mut r = String::new();
    let mut i: usize = from;
    while i < to
        invariant
            from <= i <= to <= v@.len(),
            r@ == v@.subrange(from as int, i as int),
        decreases to - i,
    {
        r.push(v[i]);
        i = i + 1;
    }
    r
}

/// The texts of `v`.
pub open spec fn texts(v: Seq<String>) -> Seq<Seq<char>> {
    v.map_values(|s: String| s@)
}

/// The texts of `v`.
pub open spec fn slices(v: Seq<&str>) -> Seq<Seq<char>> {
    v.map_values(|s: &str| s@)
}

/// Whether `a` and `b` hold the same characters.
pub fn same_text(a: &str, b: &str) -> (r: bool)
    ensures
        r == (a@ == b@),
{
    let x = chars_of(a);
    let y = chars_of(b);
    if x.len() != y.len() {
        return false;
    }
    let mut i: usize = 0;
    while i < x.len()
        invariant
            i <= x@.len(),
            x@.len() == y@.len(),
            x@ == a@,
            y@ == b@,
            forall|j: int| 0 <= j < i ==> x@[j] == y@[j],
        decreases x@.len() - i,
    {
        if x[i] != y[i] {
            return false;
        }
        i = i + 1;
    }
    assert(x@ =~= y@);
    true
}

/// One of `v` is the text `t`.
pub open spec fn is_listed(v: Seq<String>, t: Seq<char>) -> bool {
    exists|i: int| 0 <= i < v.len() && (#[trigger] v[i])@ == t
}

/// Whether one of `v` is the text `t`.
pub fn list_has(v: &Vec<String>, t: &str) -> (r: bool)
    ensures
        r == is_listed(v@, t@),
{
    let mut i: usize = 0;
    while i < v.len()
        invariant
            i <= v@.len(),
            forall|j: int| 0 <= j < i ==> (#[trigger] v@[j])@ != t@,
        decreases v@.len() - i,
    {
        if same_text(v[i].as_str(), t) {
            assert(v@[i as int]@ == t@);
            return true;
        }
        i = i + 1;
    }
    false
}

/// Whether `pat` stands in `s` at position `i`.
pub fn stands_at(s: &Vec<char>, pat: &Vec<char>, i: usize) -> (r: bool)
    ensures
        r == occurs_at(s@, pat@, i as int),
{
    let n: usize = s.len();
    if i > n || pat.len() > n - i {
        return false;
    }
    let mut k: usize = 0;
    while k < pat.len()
        invariant
            k <= pat@.len(),
            n == s@.len(),
            i + pat@.len() <= n,
            forall|j: int| 0 <= j < k ==> s@[i + j] == pat@[j],
        decreases pat@.len() - k,
    {
        if s[i + k] != pat[k] {
            assert(s@.subrange(i as int, i + pat@.len())[k as int] != pat@[k as int]);
            return false;
        }
        k = k + 1;
    }
    assert(s@.subrange(i as int, i + pat@.len()) =~= pat@);
    true
}

/// The first position from `from` on at which `pat` stands in `s`.
pub fn find_chars(s: &Vec<char>, pat: &Vec<char>, from: usize) -> (r: Option<usize>)
    ensures
        match r {
            Some(i) => find_from(s@, pat@, from as int) == Some(i as int),
            None => find_from(s@, pat@, from as int) is None,
        },
{
    if from > s.len() || pat.len() > s.len() - from {
        return None;
    }
    let last: usize = s.len() - pat.len();
    let mut i: usize = from;
    while i <= last
        invariant
            from <= i <= last + 1,
            last + pat@.len() == s@.len(),
            find_from(s@, pat@, from as int) == find_from(s@, pat@, i as int),
        decreases last + 1 - i,
    {
        if stands_at(s, pat, i) {
            return Some(i);
        }
        if i == last {
            assert(find_from(s@, pat@, i + 1) is None);
            return None;
        }
        i = i + 1;
    }
    None
}

/// The first character position at which `pat` stands in `s`.
pub fn find(s: &str, pat: &str) -> (r: Option<usize>)
    ensures
        match r {
            Some(i) => find_from(s@, pat@, 0) == Some(i as int),
            None => find_from(s@, pat@, 0) is None,
        },
{
    find_chars(&chars_of(s), &chars_of(pat), 0)
}

/// Whether `pat` stands in `s`.
pub fn contains(s: &str, pat: &str) -> (r: bool)
    ensures
        r == has_text(s@, pat@),
{
    let r = find(s, pat);
    proof {
        lemma_find_from(s@, pat@, 0);
        if r is None {
            assert forall|i: int| !occurs_at(s@, pat@, i) by {
                if i >= 0 {
                }
            }
        }
    }
    r.is_some()
}

/// Whether `s` begins with `pat`.
pub fn starts_with(s: &str, pat: &str) -> (r: bool)
    ensures
        r == begins_with(s@, pat@),
{
    stands_at(&chars_of(s), &chars_of(pat), 0)
}

/// Whether `s` ends with `pat`.
pub fn ends_with(s: &str, pat: &str) -> (r: bool)
    ensures
        r == finishes_with(s@, pat@),
{
    let x = chars_of(s);
    let y = chars_of(pat);
    y.len() <= x.len() && stands_at(&x, &y, x.len() - y.len())
}

/// Looking in the rest of a text finds what looking from there on in the text finds.
pub proof fn lemma_find_in_rest(s: Seq<char>, pat: Seq<char>, from: int, at: int)
    requires
        0 <= from <= at <= s.len(),
    ensures
        match find_from(s, pat, at) {
            Some(i) => find_from(s.subrange(from, s.len() as int), pat, at - from) == Some(
                i - from,
            ),
            None => find_from(s.subrange(from, s.len() as int), pat, at - from) is None,
        },
    decreases s.len() - at + 1,
{
    let rest = s.subrange(from, s.len() as int);
    if at + pat.len() <= s.len() {
        assert(rest.subrange(at - from, at - from + pat.len()) =~= s.subrange(
            at,
            at + pat.len(),
        ));
        if at == s.len() {
            assert(s.subrange(at, at + pat.len()) =~= pat);
        } else if !occurs_at(s, pat, at) {
            lemma_find_in_rest(s, pat, from, at + 1);
        }
    }
}

/// Cutting at a found occurrence.
proof fn lemma_split_step(s: Seq<char>, sep: Seq<char>, from: int)
    requires
        0 <= from <= s.len(),
        sep.len() > 0,
    ensures
        match find_from(s, sep, from) {
            Some(i) => from <= i && i + sep.len() <= s.len() && split_text(
                s.subrange(from, s.len() as int),
                sep,
            ) == seq![s.subrange(from, i)] + split_text(
                s.subrange(i + sep.len(), s.len() as int),
                sep,
            ),
            None => split_text(s.subrange(from, s.len() as int), sep) == seq![
                s.subrange(from, s.len() as int),
            ],
        },
{
    let rest = s.subrange(from, s.len() as int);
    lemma_find_in_rest(s, sep, from, from);
    lemma_find_from(s, sep, from);
    lemma_find_from(rest, sep, 0);
    match find_from(s, sep, from) {
        Some(i) => {
            assert(rest.subrange(0, i - from) =~= s.subrange(from, i));
            assert(rest.subrange(i - from + sep.len(), rest.len() as int) =~= s.subrange(
                i + sep.len(),
                s.len() as int,
            ));
        },
        None => {},
    }
}

/// There is always at least one piece.
pub proof fn lemma_split_nonempty(s: Seq<char>, sep: Seq<char>)
    ensures
        split_text(s, sep).len() > 0,
{
}

/// The pieces of `s` between the occurrences of `sep`.
pub fn split<'a>(s: &'a str, sep: &str) -> (r: Vec<&'a str>)
    requires
        sep@.len() > 0,
    ensures
        slices(r@) == split_text(s@, sep@),
{
    let x = chars_of(s);
    let y = chars_of(sep);
    let n: usize = x.len();
    let mut r: Vec<&'a str> = Vec::new();
    let mut from: usize = 0;
    assert(x@.subrange(0, x@.len() as int) =~= x@);
    loop
        invariant
            x@ == s@,
            y@ == sep@,
            y@.len() > 0,
            n == x@.len(),
            from <= x@.len(),
            slices(r@) + split_text(x@.subrange(from as int, x@.len() as int), y@) == split_text(
                s@,
                sep@,
            ),
        decreases x@.len() - from,
    {
        proof {
            lemma_split_step(x@, y@, from as int);
        }
        let ghost before = r@;
        match find_chars(&x, &y, from) {
            Some(i) => {
                r.push(s.substring_char(from, i));
                assert(slices(r@) =~= slices(before) + seq![x@.subrange(from as int, i as int)]);
                assert(slices(r@) + split_text(
                    x@.subrange(i + y@.len(), x@.len() as int),
                    y@,
                ) =~= slices(before) + split_text(
                    x@.subrange(from as int, x@.len() as int),
                    y@,
                ));
                from = i + y.len();
            },
            None => {
                r.push(s.substring_char(from, x.len()));
                assert(slices(r@) =~= slices(before) + split_text(
                    x@.subrange(from as int, x@.len() as int),
                    y@,
                ));
                return r;
            },
        }
    }
}

/// The pieces of `s` between the occurrences of `sep`, as strings.
fn split_owned(s: &str, sep: &str) -> (r: Vec<String>)
    requires
        sep@.len() > 0,
    ensures
        texts(r@) == split_text(s@, sep@),
{
    let x = chars_of(s);
    let y = chars_of(sep);
    let n: usize = x.len();
    let mut r: Vec<String> = Vec::new();
    let mut from: usize = 0;
    assert(x@.subrange(0, x@.len() as int) =~= x@);
    loop
        invariant
            x@ == s@,
            y@ == sep@,
            y@.len() > 0,
            n == x@.len(),
            from <= x@.len(),
            texts(r@) + split_text(x@.subrange(from as int, x@.len() as int), y@) == split_text(
                s@,
                sep@,
            ),
        decreases x@.len() - from,
    {
        proof {
            lemma_split_step(x@, y@, from as int);
        }
        let ghost before = r@;
        match find_chars(&x, &y, from) {
            Some(i) => {
                r.push(string_of(&x, from, i));
                assert(texts(r@) =~= texts(before) + seq![x@.subrange(from as int, i as int)]);
                assert(texts(r@) + split_text(
                    x@.subrange(i + y@.len(), x@.len() as int),
                    y@,
                ) =~= texts(before) + split_text(
                    x@.subrange(from as int, x@.len() as int),
                    y@,
                ));
                from = i + y.len();
            },
            None => {
                r.push(string_of(&x, from, x.len()));
                assert(texts(r@) =~= texts(before) + split_text(
                    x@.subrange(from as int, x@.len() as int),
                    y@,
                ));
                return r;
            },
        }
    }
}

/// A text without the separator is one piece.
pub proof fn lemma_split_none(s: Seq<char>, sep: Seq<char>)
    requires
        !has_text(s, sep),
    ensures
        split_text(s, sep) == seq![s],
{
    lemma_find_from_none(s, sep, 0);
}

/// No piece holds the separator, and the pieces joined by it are the text.
pub proof fn lemma_split_pieces(s: Seq<char>, sep: Seq<char>)
    requires
        sep.len() > 0,
    ensures
        forall|i: int|
            0 <= i < split_text(s, sep).len() ==> !has_text(#[trigger] split_text(s, sep)[i], sep),
        join_text(split_text(s, sep), sep) == s,
    decreases s.len(),
{
    lemma_find_from(s, sep, 0);
    let parts = split_text(s, sep);
    match find_from(s, sep, 0) {
        Some(i) => {
            let head = s.subrange(0, i);
            let rest = s.subrange(i + sep.len(), s.len() as int);
            lemma_split_pieces(rest, sep);
            lemma_split_nonempty(rest, sep);
            let more = split_text(rest, sep);
            assert(parts.drop_first() =~= more);
            assert forall|k: int| 0 <= k < parts.len() implies !has_text(
                #[trigger] parts[k],
                sep,
            ) by {
                if k > 0 {
                    assert(parts[k] == more[k - 1]);
                } else if has_text(head, sep) {
                    let j = choose|j: int| occurs_at(head, sep, j);
                    assert(head.subrange(j, j + sep.len()) =~= s.subrange(j, j + sep.len()));
                    assert(occurs_at(s, sep, j));
                }
            }
            assert(head + sep + rest =~= s);
        },
        None => {
            assert(!has_text(s, sep));
        },
    }
}

/// A separator with none before it cuts off the first piece.
pub proof fn lemma_split_first(a: Seq<char>, sep: Seq<char>, b: Seq<char>)
    requires
        sep.len() > 0,
        forall|j: int| 0 <= j < a.len() ==> !occurs_at(a + sep + b, sep, j),
    ensures
        split_text(a + sep + b, sep) == seq![a] + split_text(b, sep),
{
    let s = a + sep + b;
    assert(s.subrange(a.len() as int, (a.len() + sep.len()) as int) =~= sep);
    lemma_find_from_is(s, sep, 0, a.len() as int);
    assert(s.subrange(0, a.len() as int) =~= a);
    assert(s.subrange((a.len() + sep.len()) as int, s.len() as int) =~= b);
}

/// What stands in the middle of a text stands in it.
pub proof fn lemma_has_middle(a: Seq<char>, p: Seq<char>, b: Seq<char>)
    ensures
        has_text(a + p + b, p),
{
    let s = a + p + b;
    assert(s.subrange(a.len() as int, (a.len() + p.len()) as int) =~= p);
    assert(occurs_at(s, p, a.len() as int));
}

/// What a text ends with stands in it.
pub proof fn lemma_has_end(a: Seq<char>, p: Seq<char>)
    ensures
        has_text(a + p, p),
{
    let s = a + p;
    assert(s.subrange(a.len() as int, s.len() as int) =~= p);
    assert(occurs_at(s, p, a.len() as int));
}

/// What a text begins with stands in it.
pub proof fn lemma_has_start(p: Seq<char>, b: Seq<char>)
    ensures
        has_text(p + b, p),
{
    let s = p + b;
    assert(s.subrange(0, p.len() as int) =~= p);
    assert(occurs_at(s, p, 0));
}

/// What stands in a part of a text stands in the text.
pub proof fn lemma_has_within(a: Seq<char>, s: Seq<char>, b: Seq<char>, p: Seq<char>)
    requires
        has_text(s, p),
    ensures
        has_text(a + s + b, p),
{
    let i = choose|i: int| occurs_at(s, p, i);
    let t = a + s + b;
    let k = a.len() + i;
    assert(t.subrange(k, k + p.len()) =~= s.subrange(i, i + p.len()));
    assert(occurs_at(t, p, k));
}

/// Each part stands in what is joined.
pub proof fn lemma_has_part(parts: Seq<Seq<char>>, sep: Seq<char>, i: int)
    requires
        0 <= i < parts.len(),
    ensures
        has_text(join_text(parts, sep), parts[i]),
    decreases parts.len(),
{
    if parts.len() == 1 {
        lemma_has_middle(Seq::empty(), parts[0], Seq::empty());
        assert(Seq::<char>::empty() + parts[0] + Seq::<char>::empty() =~= parts[0]);
    } else {
        let rest = join_text(parts.drop_first(), sep);
        if i == 0 {
            lemma_has_middle(Seq::empty(), parts[0], sep + rest);
            assert(Seq::<char>::empty() + parts[0] + (sep + rest) =~= parts[0] + sep + rest);
        } else {
            lemma_has_part(parts.drop_first(), sep, i - 1);
            lemma_has_within(parts[0] + sep, rest, Seq::empty(), parts[i]);
            assert(parts[0] + sep + rest + Seq::<char>::empty() =~= parts[0] + sep + rest);
        }
    }
}

/// What stands in what stands in a text stands in it.
pub proof fn lemma_text_in_text(s: Seq<char>, t: Seq<char>, p: Seq<char>)
    requires
        has_text(s, t),
        has_text(t, p),
    ensures
        has_text(s, p),
{
    let i = choose|i: int| occurs_at(s, t, i);
    let a = s.subrange(0, i);
    let b = s.subrange(i + t.len(), s.len() as int);
    assert(s =~= a + t + b);
    lemma_has_within(a, t, b, p);
}

/// What stands in a part stands in what is joined.
pub proof fn lemma_part_has(parts: Seq<Seq<char>>, sep: Seq<char>, i: int, p: Seq<char>)
    requires
        0 <= i < parts.len(),
        has_text(parts[i], p),
    ensures
        has_text(join_text(parts, sep), p),
{
    lemma_has_part(parts, sep, i);
    lemma_text_in_text(join_text(parts, sep), parts[i], p);
}

/// Parts of the same lengths that differ are different joined.
pub proof fn lemma_join_injective(a: Seq<Seq<char>>, b: Seq<Seq<char>>, sep: Seq<char>)
    requires
        a.len() == b.len(),
        forall|i: int| 0 <= i < a.len() ==> (#[trigger] a[i]).len() == b[i].len(),
        join_text(a, sep) == join_text(b, sep),
    ensures
        a == b,
    decreases a.len(),
{
    if a.len() == 0 {
        assert(a =~= b);
    } else if a.len() == 1 {
        assert(a =~= b);
    } else {
        let s = join_text(a, sep);
        let n = a[0].len() as int;
        let ra = join_text(a.drop_first(), sep);
        let rb = join_text(b.drop_first(), sep);
        assert(a[0].len() == b[0].len());
        assert(s.subrange(0, n) =~= a[0]);
        assert(s.subrange(0, n) =~= b[0]);
        assert(s.skip(n + sep.len()) =~= ra);
        assert(s.skip(n + sep.len()) =~= rb);
        assert forall|i: int| 0 <= i < a.drop_first().len() implies (
        #[trigger] a.drop_first()[i]).len() == b.drop_first()[i].len() by {
            assert(a[i + 1].len() == b[i + 1].len());
        }
        lemma_join_injective(a.drop_first(), b.drop_first(), sep);
        assert forall|i: int| 0 <= i < a.len() implies a[i] == b[i] by {
            if i > 0 {
                assert(a.drop_first()[i - 1] == b.drop_first()[i - 1]);
            }
        }
        assert(a =~= b);
    }
}

/// The length of what is joined grows with the lengths of its parts.
pub proof fn lemma_join_len_less(a: Seq<Seq<char>>, b: Seq<Seq<char>>, sep: Seq<char>)
    requires
        a.len() == b.len(),
        forall|i: int| 0 <= i < a.len() ==> (#[trigger] a[i]).len() <= b[i].len(),
    ensures
        join_text(a, sep).len() <= join_text(b, sep).len(),
        (exists|i: int| 0 <= i < a.len() && (#[trigger] a[i]).len() < b[i].len()) ==> join_text(
            a,
            sep,
        ).len() < join_text(b, sep).len(),
    decreases a.len(),
{
    if a.len() > 1 {
        assert forall|i: int| 0 <= i < a.drop_first().len() implies (
        #[trigger] a.drop_first()[i]).len() <= b.drop_first()[i].len() by {
            assert(a[i + 1].len() <= b[i + 1].len());
        }
        lemma_join_len_less(a.drop_first(), b.drop_first(), sep);
        assert(a[0].len() <= b[0].len());
        if exists|i: int| 0 <= i < a.len() && (#[trigger] a[i]).len() < b[i].len() {
            let i = choose|i: int| 0 <= i < a.len() && (#[trigger] a[i]).len() < b[i].len();
            if i > 0 {
                assert(a.drop_first()[i - 1].len() < b.drop_first()[i - 1].len());
            }
        }
    } else if a.len() == 1 {
        assert(a[0].len() <= b[0].len());
    }
}

/// Two parts joined.
pub proof fn lemma_join_two(parts: Seq<Seq<char>>, sep: Seq<char>)
    requires
        parts.len() == 2,
    ensures
        join_text(parts, sep) == parts[0] + sep + parts[1],
{
    let last = parts.drop_first();
    assert(last.len() == 1);
    assert(join_text(last, sep) == last[0]);
}

/// Appending one more part at the end of a join.
pub proof fn lemma_join_push(parts: Seq<Seq<char>>, sep: Seq<char>, last: Seq<char>)
    ensures
        join_text(parts.push(last), sep) == if parts.len() == 0 {
            last
        } else {
            join_text(parts, sep) + sep + last
        },
    decreases parts.len(),
{
    if parts.len() > 0 {
        assert(parts.push(last).drop_first() =~= parts.drop_first().push(last));
        lemma_join_push(parts.drop_first(), sep, last);
        if parts.len() == 1 {
            assert(parts.push(last).drop_first().drop_first() =~= Seq::empty());
        }
        assert(join_text(parts.push(last), sep) =~= if parts.len() == 0 {
            last
        } else {
            join_text(parts, sep) + sep + last
        });
    }
}

/// Where `pat` first stands in `s`, it is replaced, and so is what follows; where it does
/// not stand in `s`, nothing is.
pub proof fn lemma_replace_first(s: Seq<char>, pat: Seq<char>, with: Seq<char>)
    requires
        pat.len() > 0,
    ensures
        match find_from(s, pat, 0) {
            Some(i) => occurs_at(s, pat, i) && replace_text(s, pat, with) == s.subrange(0, i)
                + with + replace_text(s.subrange(i + pat.len(), s.len() as int), pat, with),
            None => !has_text(s, pat) && replace_text(s, pat, with) == s,
        },
{
    lemma_find_from(s, pat, 0);
    if let Some(i) = find_from(s, pat, 0) {
        let rest = s.subrange(i + pat.len(), s.len() as int);
        let parts = split_text(s, pat);
        lemma_split_nonempty(rest, pat);
        assert(parts.drop_first() =~= split_text(rest, pat));
        assert(parts[0] == s.subrange(0, i));
    }
}

/// What no occurrence of `pat` touches stays, between what is made of its surroundings.
pub proof fn lemma_replace_around(
    a: Seq<char>,
    t: Seq<char>,
    b: Seq<char>,
    pat: Seq<char>,
    with: Seq<char>,
)
    requires
        pat.len() > 0,
        t.len() > 0,
        forall|k: int| #[trigger]
            occurs_at(a + t + b, pat, k) ==> k + pat.len() <= a.len() || k >= a.len() + t.len(),
    ensures
        replace_text(a + t + b, pat, with) == replace_text(a, pat, with) + t + replace_text(
            b,
            pat,
            with,
        ),
    decreases a.len(),
{
    let s = a + t + b;
    let n = pat.len();
    lemma_replace_first(s, pat, with);
    lemma_replace_first(a, pat, with);
    lemma_replace_first(b, pat, with);
    lemma_find_from(s, pat, 0);
    lemma_find_from(a, pat, 0);
    lemma_find_from(b, pat, 0);
    assert forall|k: int| 0 <= k && k + n <= a.len() implies occurs_at(s, pat, k) == occurs_at(
        a,
        pat,
        k,
    ) by {
        assert(s.subrange(k, k + n) =~= a.subrange(k, k + n));
    }
    assert forall|k: int| 0 <= k implies occurs_at(s, pat, a.len() + t.len() + k) == #[trigger] occurs_at(
        b,
        pat,
        k,
    ) by {
        if k + n <= b.len() {
            assert(s.subrange(a.len() + t.len() + k, a.len() + t.len() + k + n) =~= b.subrange(
                k,
                k + n,
            ));
        }
    }
    match find_from(a, pat, 0) {
        Some(i) => {
            assert(occurs_at(s, pat, i));
            assert forall|j: int| 0 <= j < i implies !occurs_at(s, pat, j) by {
                if occurs_at(s, pat, j) {
                    assert(occurs_at(a, pat, j));
                }
            }
            lemma_find_from_is(s, pat, 0, i);
            let rest = a.subrange(i + n, a.len() as int);
            assert(s.subrange(i + n, s.len() as int) =~= rest + t + b);
            assert(s.subrange(0, i) =~= a.subrange(0, i));
            assert forall|k: int| #[trigger] occurs_at(rest + t + b, pat, k) implies k + n
                <= rest.len() || k >= rest.len() + t.len() by {
                assert(s.subrange(i + n + k, i + n + k + n) =~= (rest + t + b).subrange(k, k + n));
                assert(occurs_at(s, pat, i + n + k));
            }
            lemma_replace_around(rest, t, b, pat, with);
            assert(replace_text(s, pat, with) =~= replace_text(a, pat, with) + t + replace_text(
                b,
                pat,
                with,
            ));
        },
        None => match find_from(b, pat, 0) {
            Some(j) => {
                let i = (a.len() + t.len() + j) as int;
                assert(occurs_at(b, pat, j));
                assert(occurs_at(s, pat, i));
                assert forall|k: int| 0 <= k < i implies !occurs_at(s, pat, k) by {
                    if occurs_at(s, pat, k) {
                        if k + n <= a.len() {
                            assert(occurs_at(a, pat, k));
                        } else {
                            assert(occurs_at(b, pat, k - a.len() - t.len()));
                        }
                    }
                }
                lemma_find_from_is(s, pat, 0, i);
                assert(s.subrange(i + n, s.len() as int) =~= b.subrange(j + n, b.len() as int));
                assert(s.subrange(0, i) =~= a + t + b.subrange(0, j));
                assert(replace_text(s, pat, with) =~= replace_text(a, pat, with) + t
                    + replace_text(b, pat, with));
            },
            None => {
                assert forall|k: int| 0 <= k implies !occurs_at(s, pat, k) by {
                    if occurs_at(s, pat, k) {
                        if k + n <= a.len() {
                            assert(occurs_at(a, pat, k));
                        } else {
                            assert(occurs_at(b, pat, k - a.len() - t.len()));
                        }
                    }
                }
                lemma_find_from_none(s, pat, 0);
            },
        },
    }
}

/// `parts` one after the other, with `sep` between neighbours.
pub fn join(parts: &Vec<String>, sep: &str) -> (r: String)
    ensures
        r@ == join_text(texts(parts@), sep@),
{
    let mut r = String::new();
    let mut i: usize = 0;
    while i < parts.len()
        invariant
            i <= parts@.len(),
            r@ == join_text(texts(parts@.take(i as int)), sep@),
        decreases parts@.len() - i,
    {
        proof {
            lemma_join_push(texts(parts@.take(i as int)), sep@, parts@[i as int]@);
            assert(texts(parts@.take(i + 1)) =~= texts(parts@.take(i as int)).push(
                parts@[i as int]@,
            ));
        }
        if i > 0 {
            r.append(sep);
        }
        r.append(parts[i].as_str());
        i = i + 1;
    }
    assert(parts@.take(parts@.len() as int) =~= parts@);
    r
}

/// `s` with every occurrence of `pat` replaced by `with`.
pub fn replace(s: &str, pat: &str, with: &str) -> (r: String)
    requires
        pat@.len() > 0,
    ensures
        r@ == replace_text(s@, pat@, with@),
{
    join(&split_owned(s, pat), with)
}

// ---------------------------------------------------------------------------
// Trimming and words
// ---------------------------------------------------------------------------

/// `s` without white space at either end.
pub fn trim<'a>(s: &'a str) -> (r: &'a str)
    ensures
        r@ == trimmed(s@),
{
    let x = chars_of(s);
    let mut from: usize = 0;
    assert(x@.subrange(0, x@.len() as int) =~= x@);
    while from < x.len() && is_whitespace(x[from])
        invariant
            x@ == s@,
            from <= x@.len(),
            trim_front(x@.subrange(from as int, x@.len() as int)) == trim_front(s@),
        decreases x@.len() - from,
    {
        assert(x@.subrange(from as int, x@.len() as int).drop_first() =~= x@.subrange(
            from + 1,
            x@.len() as int,
        ));
        from = from + 1;
    }
    let ghost front = x@.subrange(from as int, x@.len() as int);
    assert(front == trim_front(s@));
    let mut to: usize = x.len();
    while to > from && is_whitespace(x[to - 1])
        invariant
            x@ == s@,
            from <= to <= x@.len(),
            trim_back(x@.subrange(from as int, to as int)) == trimmed(s@),
        decreases to,
    {
        assert(x@.subrange(from as int, to as int).drop_last() =~= x@.subrange(
            from as int,
            to - 1,
        ));
        to = to - 1;
    }
    s.substring_char(from, to)
}

/// `s` without white space at its end.
pub fn trim_end<'a>(s: &'a str) -> (r: &'a str)
    ensures
        r@ == trim_back(s@),
{
    let x = chars_of(s);
    let mut to: usize = x.len();
    assert(x@.take(to as int) =~= x@);
    while to > 0 && is_whitespace(x[to - 1])
        invariant
            x@ == s@,
            to <= x@.len(),
            trim_back(x@.take(to as int)) == trim_back(s@),
        decreases to,
    {
        assert(x@.take(to as int).drop_last() =~= x@.take(to - 1));
        to = to - 1;
    }
    assert(x@.take(to as int) =~= s@.subrange(0, to as int));
    s.substring_char(0, to)
}

/// `s` without the occurrences of `suffix` that it ends with.
pub open spec fn without_suffixes(s: Seq<char>, suffix: Seq<char>) -> Seq<char>
    decreases s.len(),
{
    if suffix.len() > 0 && finishes_with(s, suffix) {
        without_suffixes(s.take(s.len() - suffix.len()), suffix)
    } else {
        s
    }
}

/// `s` without the occurrences of `suffix` that it ends with.
pub fn trim_end_matches(s: &str, suffix: &str) -> (r: String)
    requires
        suffix@.len() > 0,
    ensures
        r@ == without_suffixes(s@, suffix@),
{
    let x = chars_of(s);
    let y = chars_of(suffix);
    let m: usize = y.len();
    let mut to: usize = x.len();
    assert(x@.take(to as int) =~= x@);
    loop
        invariant
            x@ == s@,
            y@ == suffix@,
            m == y@.len(),
            m > 0,
            to <= x@.len(),
            without_suffixes(x@.take(to as int), suffix@) == without_suffixes(s@, suffix@),
        decreases to,
    {
        let ghost t = x@.take(to as int);
        if m > to || !stands_at(&x, &y, to - m) {
            proof {
                if m <= to && finishes_with(t, suffix@) {
                    assert(t.subrange(to - m, to as int) =~= x@.subrange(to - m, to as int));
                    assert(occurs_at(x@, y@, to - m));
                }
            }
            return string_of(&x, 0, to);
        }
        assert(t.subrange(to - m, to as int) =~= x@.subrange(to - m, to as int));
        assert(finishes_with(t, suffix@));
        assert(t.take(to - m) =~= x@.take(to - m));
        to = to - m;
    }
}

/// The length of the longest beginning of `s` without white space.
pub open spec fn word_len(s: Seq<char>) -> nat
    decreases s.len(),
{
    if s.len() > 0 && !is_space(s[0]) {
        1 + word_len(s.drop_first())
    } else {
        0
    }
}

pub proof fn lemma_word_len(s: Seq<char>)
    ensures
        word_len(s) <= s.len(),
        forall|i: int| 0 <= i < word_len(s) ==> !is_space(s[i]),
        word_len(s) < s.len() ==> is_space(s[word_len(s) as int]),
    decreases s.len(),
{
    if s.len() > 0 && !is_space(s[0]) {
        lemma_word_len(s.drop_first());
        assert forall|i: int| 0 <= i < word_len(s) implies !is_space(s[i]) by {
            if i > 0 {
                assert(!is_space(s.drop_first()[i - 1]));
            }
        }
    }
}

pub proof fn lemma_trim_front_len(s: Seq<char>)
    ensures
        trim_front(s).len() <= s.len(),
        trim_front(s).len() > 0 ==> !is_space(trim_front(s)[0]),
    decreases s.len(),
{
    if s.len() > 0 && is_space(s[0]) {
        lemma_trim_front_len(s.drop_first());
    }
}

/// The words of `s`: its longest pieces without white space, in order.
pub open spec fn words(s: Seq<char>) -> Seq<Seq<char>>
    decreases s.len(),
    via words_decreases
{
    let t = trim_front(s);
    if t.len() == 0 {
        Seq::empty()
    } else {
        seq![t.take(word_len(t) as int)] + words(t.skip(word_len(t) as int))
    }
}

#[via_fn]
proof fn words_decreases(s: Seq<char>) {
    lemma_trim_front_len(s);
    lemma_word_len(trim_front(s));
}

/// The words of `s`.
pub fn split_whitespace(s: &str) -> (r: Vec<String>)
    ensures
        texts(r@) == words(s@),
{
    let x = chars_of(s);
    let mut r: Vec<String> = Vec::new();
    let mut at: usize = 0;
    assert(x@.skip(0) =~= x@);
    loop
        invariant
            x@ == s@,
            at <= x@.len(),
            texts(r@) + words(x@.skip(at as int)) == words(s@),
        decreases x@.len() - at,
    {
        let ghost start = at;
        while at < x.len() && is_whitespace(x[at])
            invariant
                x@ == s@,
                start <= at <= x@.len(),
                trim_front(x@.skip(start as int)) == trim_front(x@.skip(at as int)),
            decreases x@.len() - at,
        {
            assert(x@.skip(at as int).drop_first() =~= x@.skip(at + 1));
            at = at + 1;
        }
        assert(trim_front(x@.skip(start as int)) == x@.skip(at as int));
        if at == x.len() {
            assert(texts(r@) + words(x@.skip(start as int)) =~= texts(r@));
            return r;
        }
        let begin: usize = at;
        while at < x.len() && !is_whitespace(x[at])
            invariant
                x@ == s@,
                begin <= at <= x@.len(),
                word_len(x@.skip(begin as int)) == (at - begin) + word_len(x@.skip(at as int)),
            decreases x@.len() - at,
        {
            assert(x@.skip(at as int).drop_first() =~= x@.skip(at + 1));
            at = at + 1;
        }
        let ghost before = r@;
        r.push(string_of(&x, begin, at));
        proof {
            let t = x@.skip(begin as int);
            assert(t.take(word_len(t) as int) =~= x@.subrange(begin as int, at as int));
            assert(t.skip(word_len(t) as int) =~= x@.skip(at as int));
            assert(texts(r@) =~= texts(before) + seq![x@.subrange(begin as int, at as int)]);
            assert(texts(r@) + words(x@.skip(at as int)) =~= texts(before) + words(
                x@.skip(start as int),
            ));
        }
    }
}

// ---------------------------------------------------------------------------
// Letter case
// ---------------------------------------------------------------------------

/// What `str::to_lowercase` gives for a text.
pub uninterp spec fn lowered(s: Seq<char>) -> Seq<char>;

/// An ASCII character.
pub open spec fn is_ascii_char(c: char) -> bool {
    (c as u32) < 128
}

/// Every character is an ASCII character.
pub open spec fn all_ascii(s: Seq<char>) -> bool {
    forall|i: int| 0 <= i < s.len() ==> is_ascii_char(#[trigger] s[i])
}

/// `l` is `s` with the letters A to Z as a to z.
pub open spec fn is_ascii_lowered(s: Seq<char>, l: Seq<char>) -> bool {
    &&& l.len() == s.len()
    &&& forall|i: int|
        0 <= i < s.len() ==> if 'A' <= s[i] <= 'Z' {
            #[trigger] l[i] as u32 == s[i] as u32 + 32
        } else {
            l[i] == s[i]
        }
}

/// `s` is ASCII text, and `l` is it in lower case.
pub open spec fn lowers_to(s: Seq<char>, l: Seq<char>) -> bool {
    all_ascii(s) && is_ascii_lowered(s, l)
}

proof fn lemma_same_code(a: char, b: char)
    requires
        a as u32 == b as u32,
    ensures
        a == b,
{
}

/// There is one text in lower case for an ASCII text.
pub proof fn lemma_lowers_once(s: Seq<char>, a: Seq<char>, b: Seq<char>)
    requires
        is_ascii_lowered(s, a),
        is_ascii_lowered(s, b),
    ensures
        a == b,
{
    assert forall|i: int| 0 <= i < a.len() implies #[trigger] a[i] == b[i] by {
        lemma_same_code(a[i], b[i]);
    }
    assert(a =~= b);
}

/// `str::to_lowercase`: the text in lower case by the Unicode mapping, which on
/// ASCII text takes A to Z to a to z and changes nothing else.
#[verifier::external_body]
pub(crate) fn to_lowercase(s: &str) -> (r: String)
    ensures
        r@ == lowered(s@),
        all_ascii(s@) ==> is_ascii_lowered(s@, r@),
{
    s.to_lowercase()
}

// ---------------------------------------------------------------------------
// Numbers
// ---------------------------------------------------------------------------

/// The character of a decimal digit.
pub open spec fn digit_char(d: int) -> char {
    if d == 0 {
        '0'
    } else if d == 1 {
        '1'
    } else if d == 2 {
        '2'
    } else if d == 3 {
        '3'
    } else if d == 4 {
        '4'
    } else if d == 5 {
        '5'
    } else if d == 6 {
        '6'
    } else if d == 7 {
        '7'
    } else if d == 8 {
        '8'
    } else {
        '9'
    }
}

/// `n` in decimal digits, without leading zeros.
pub open spec fn decimal(n: nat) -> Seq<char>
    decreases n,
{
    if n < 10 {
        seq![digit_char(n as int)]
    } else {
        decimal(n / 10).push(digit_char((n % 10) as int))
    }
}

fn digit(d: u64) -> (r: char)
    requires
        d < 10,
    ensures
        r == digit_char(d as int),
{
    match d {
        0 => '0',
        1 => '1',
        2 => '2',
        3 => '3',
        4 => '4',
        5 => '5',
        6 => '6',
        7 => '7',
        8 => '8',
        _ => '9',
    }
}

/// `n` in decimal digits.
pub fn decimal_text(n: u64) -> (r: String)
    ensures
        r@ == decimal(n as nat),
    decreases n,
{
    if n < 10 {
        let mut r = String::new();
        r.push(digit(n));
        r
    } else {
        let mut r = decimal_text(n / 10);
        r.push(digit(n % 10));
        r
    }
}

// ---------------------------------------------------------------------------
// Laws
// ---------------------------------------------------------------------------

/// The number that digits write down.
pub open spec fn number_of(s: Seq<char>) -> int
    decreases s.len(),
{
    if s.len() == 0 {
        0
    } else {
        10 * number_of(s.drop_last()) + (s.last() as u32 - 48)
    }
}

/// The decimal text of a number is made of digits, writes that number down, and has no
/// needless zero in front.
pub proof fn law_decimal_reads_back(n: nat)
    ensures
        number_of(decimal(n)) == n,
        decimal(n).len() > 0,
        forall|i: int| 0 <= i < decimal(n).len() ==> '0' <= #[trigger] decimal(n)[i] <= '9',
        n > 0 ==> decimal(n)[0] != '0',
        n == 0 ==> decimal(n) == seq!['0'],
    decreases n,
{
    if n < 10 {
        assert(decimal(n).drop_last() =~= Seq::empty());
        assert(number_of(Seq::<char>::empty()) == 0);
    } else {
        law_decimal_reads_back(n / 10);
        assert(decimal(n).drop_last() =~= decimal(n / 10));
        assert(decimal(n)[0] == decimal(n / 10)[0]);
        assert forall|i: int| 0 <= i < decimal(n).len() implies '0' <= #[trigger] decimal(n)[i]
            <= '9' by {
            if i < decimal(n / 10).len() {
                assert(decimal(n)[i] == decimal(n / 10)[i]);
            }
        }
    }
}

} // verus!
