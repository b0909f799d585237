//! What holds of what the command line shows of skills.

use super::skill::{
    are_rows, info_told, is_by_name, is_named, is_row, is_shortened, not_after, padded, row,
    skills_directory, with_name,
};
use crate::skills::types::LoadedSkill;
use crate::text::{begins_with, has_text, lemma_has_end, lemma_has_part, lemma_text_in_text};
use vstd::prelude::*;
use vstd::string::*;
use vstd::utf8::encode_utf8;

verus! {

/// The directory of skills is the one that is given, or else the configured one, or else
/// one below the home directory.
pub proof fn law_given_directory_goes_first(
    given: Option<String>,
    configured: Option<String>,
    home: Option<String>,
)
    ensures
        given matches Some(d) ==> skills_directory(given, configured, home) == d@,
        given is None ==> (configured matches Some(d) ==> skills_directory(given, configured, home)
            == d@),
        given is None && configured is None ==> (home matches Some(h) ==> skills_directory(
            given,
            configured,
            home,
        ) == h@ + "/.llama-nexus/skills"@),
        given is None && configured is None && home is None ==> skills_directory(
            given,
            configured,
            home,
        ) == "."@ + "/.llama-nexus/skills"@,
{
}

/// A text is padded with blanks behind it up to the width, and never cut.
pub proof fn law_padding_adds_blanks(s: Seq<char>, width: nat)
    ensures
        padded(s, width).len() >= width,
        padded(s, width).len() >= s.len(),
        padded(s, width).len() == width || padded(s, width) == s,
        padded(s, width).take(s.len() as int) == s,
        forall|i: int| s.len() <= i < padded(s, width).len() ==> #[trigger] padded(s, width)[i] == ' ',
{
    assert(padded(s, width).take(s.len() as int) =~= s);
}

/// A row shows the name of a skill at its beginning, and its description behind it: all of
/// it, where it has at most 47 bytes.
pub proof fn law_rows_show_their_skills(
    skills: Seq<(String, String)>,
    width: nat,
    r: Seq<String>,
    i: int,
)
    requires
        are_rows(skills, width, r),
        0 <= i < skills.len(),
    ensures
        r.len() == skills.len(),
        r[i]@.len() >= skills[i].0@.len(),
        r[i]@.take(skills[i].0@.len() as int) == skills[i].0@,
        encode_utf8(skills[i].1@).len() <= 47 ==> has_text(r[i]@, skills[i].1@),
        47 < encode_utf8(skills[i].1@).len() <= usize::MAX ==> has_text(r[i]@, "..."@),
{
    let (name, text) = (skills[i].0@, skills[i].1@);
    assert(is_row(skills[i], width, r[i]@));
    let d = choose|d: Seq<char>| #[trigger] is_shortened(text, d) && r[i]@ == row(name, width, d);
    let p = padded(name, width);
    let q = padded(d, 50);
    law_padding_adds_blanks(name, width);
    law_padding_adds_blanks(d, 50);
    assert(row(name, width, d).take(name.len() as int) =~= p.take(name.len() as int));
    lemma_has_end(p + " "@, q);
    assert(q =~= d + q.skip(d.len() as int));
    crate::text::lemma_has_start(d, q.skip(d.len() as int));
    lemma_text_in_text(r[i]@, q, d);
    if 47 < encode_utf8(text).len() <= usize::MAX {
        let head = choose|head: Seq<char>| #[trigger]
            encode_utf8(head) == encode_utf8(text).subrange(0, 47) && d == head + "..."@;
        lemma_has_end(head, "..."@);
        lemma_text_in_text(r[i]@, d, "..."@);
    }
}

/// The order of names is one: every name stands to every other one way round or the other,
/// both ways round only to itself, and what holds of neighbours holds further on.
pub proof fn law_names_are_ordered(a: Seq<char>, b: Seq<char>, c: Seq<char>)
    ensures
        not_after(a, b) || not_after(b, a),
        not_after(a, b) && not_after(b, a) ==> a == b,
        not_after(a, b) && not_after(b, c) ==> not_after(a, c),
        not_after(a, a),
    decreases a.len() + b.len() + c.len(),
{
    if a.len() > 0 && b.len() > 0 && c.len() > 0 {
        law_names_are_ordered(a.drop_first(), b.drop_first(), c.drop_first());
        if a.drop_first() == b.drop_first() && a[0] == b[0] {
            assert(a =~= seq![a[0]] + a.drop_first());
            assert(b =~= seq![b[0]] + b.drop_first());
        }
    } else {
        lemma_pair(a, b);
        lemma_pair(a, a);
    }
}

proof fn lemma_pair(a: Seq<char>, b: Seq<char>)
    ensures
        not_after(a, b) || not_after(b, a),
        not_after(a, b) && not_after(b, a) ==> a == b,
    decreases a.len(),
{
    if a.len() > 0 && b.len() > 0 {
        lemma_pair(a.drop_first(), b.drop_first());
        if a.drop_first() == b.drop_first() && a[0] == b[0] {
            assert(a =~= seq![a[0]] + a.drop_first());
            assert(b =~= seq![b[0]] + b.drop_first());
        }
    } else if a.len() == 0 && b.len() == 0 {
        assert(a =~= b);
    }
}

/// A name comes before those that it begins, and before those with a higher character at
/// the first place where they differ.
pub proof fn law_names_ordered_by_characters(p: Seq<char>, x: char, y: char, a: Seq<char>, b: Seq<char>)
    requires
        x < y,
    ensures
        not_after(p, p + a),
        not_after(p.push(x) + a, p.push(y) + b),
        !not_after(p.push(y) + b, p.push(x) + a),
    decreases p.len(),
{
    let s = p.push(x) + a;
    let t = p.push(y) + b;
    if p.len() > 0 {
        let q = p.drop_first();
        law_names_ordered_by_characters(q, x, y, a, b);
        assert((p + a).drop_first() =~= q + a);
        assert(s.drop_first() =~= q.push(x) + a);
        assert(t.drop_first() =~= q.push(y) + b);
    } else {
        assert(s[0] == x);
        assert(t[0] == y);
    }
}

/// What is told of a skill holds its name, its description, whether it is enabled, and
/// where it lies; and its license, its tools and its scripts, where there are any.
pub proof fn law_info_tells_of_the_skill(s: LoadedSkill, path: Seq<char>)
    ensures
        info_told(s, path).len() >= 4,
        info_told(s, path)[0] == "Name:        "@ + s.metadata.name@,
        info_told(s, path)[1] == "Description: "@ + s.metadata.description@,
        s.enabled ==> info_told(s, path)[2] == "Enabled:     "@ + "true"@,
        !s.enabled ==> info_told(s, path)[2] == "Enabled:     "@ + "false"@,
        info_told(s, path).last() == "Path:        "@ + path,
        s.metadata.license matches Some(l) ==> info_told(s, path)[3] == "License:     "@ + l@,
{
}

/// The scripts of a skill are told by their names.
pub proof fn law_info_tells_of_scripts(s: LoadedSkill, path: Seq<char>, k: int)
    requires
        0 <= k < s.scripts@.len(),
    ensures
        ({
            let t = info_told(s, path);
            t.len() >= 5 && begins_with(t[t.len() - 2], "Available:   "@) && has_text(
                t[t.len() - 2],
                s.scripts@[k].name@,
            )
        }),
{
    let names = s.scripts@.map_values(|x: crate::skills::types::ScriptInfo| x.name@);
    assert(names[k] == s.scripts@[k].name@);
    lemma_has_part(names, ", "@, k);
    let all = crate::text::join_text(names, ", "@);
    let t = info_told(s, path);
    let line = t[t.len() - 2];
    assert(line == "Available:   "@ + all);
    lemma_has_end("Available:   "@, all);
    lemma_text_in_text(line, all, names[k]);
    assert(line.subrange(0, "Available:   "@.len() as int) =~= "Available:   "@);
}

/// Skills that are sorted stand in the order of their names, and those of one name in the
/// order in which they were.
pub proof fn law_sorted_by_name(
    before: Seq<(String, String)>,
    s: Seq<(String, String)>,
    i: int,
    j: int,
)
    requires
        is_by_name(s),
        0 <= i < j < s.len(),
        forall|n: Seq<char>| #[trigger] with_name(s, n) == with_name(before, n),
    ensures
        not_after(s[i].0@, s[j].0@),
        s[i].0@ == s[j].0@ || !not_after(s[j].0@, s[i].0@),
        s.filter(is_named(s[i].0@)) == before.filter(is_named(s[i].0@)),
        is_named(s[i].0@)(s[i]),
        is_named(s[i].0@)(s[j]) <==> s[j].0@ == s[i].0@,
{
    lemma_pair(s[i].0@, s[j].0@);
    assert(with_name(s, s[i].0@) == with_name(before, s[i].0@));
}

} // verus!
