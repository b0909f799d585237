//! Commands about skills: installing them, listing them, telling about one.

use crate::skills::types::LoadedSkill;
use crate::sorted::{lemma_filter_insert, lemma_insert_multiset};
use crate::text::{chars_of, decimal, decimal_text, join, join_text, string_of, texts};
use vstd::prelude::*;
use vstd::string::*;
use vstd::utf8::{encode_utf8, is_char_boundary};

verus! {

/// A command about skills.
#[derive(Debug, Clone)]
pub enum SkillCommand {
    /// Install a skill from a source, into a directory, and say whether it is enabled.
    Install { source: String, dir: Option<String>, enable: bool },
    /// List the skills that are installed, or those of the marketplace.
    List { remote: bool, category: Option<String>, limit: usize },
    /// Tell about a skill.
    Info { name: String },
}

// ---------------------------------------------------------------------------
// Directories and names
// ---------------------------------------------------------------------------

/// The directory of skills: the one that is given, the one that is configured, or the
/// one in the home directory.
pub open spec fn skills_directory(given: Option<String>, configured: Option<String>, home: Option<String>) -> Seq<
    char,
> {
    match (given, configured) {
        (Some(d), _) => d@,
        (None, Some(d)) => d@,
        (None, None) => (match home {
            Some(h) => h@,
            None => "."@,
        }) + "/.llama-nexus/skills"@,
    }
}

/// The directory of skills.
pub fn skills_dir(given: &Option<String>, configured: &Option<String>, home: &Option<String>) -> (r: String)
    ensures
        r@ == skills_directory(*given, *configured, *home),
{
    if let Some(d) = given {
        return d.clone();
    }
    if let Some(d) = configured {
        return d.clone();
    }
    let mut r = match home {
        Some(h) => h.clone(),
        None => ".".to_owned(),
    };
    r.append("/.llama-nexus/skills");
    r
}

/// A skill that is asked about.
#[derive(Debug, Clone)]
pub enum InfoTarget {
    /// One of the marketplace.
    Remote(String),
    /// One that is installed.
    Local(String),
}

/// The skill that is asked about: with `skillsmp:` in front, one of the marketplace.
pub fn info_target(name: &str) -> (r: InfoTarget)
    ensures
        if crate::text::begins_with(name@, "skillsmp:"@) {
            r matches InfoTarget::Remote(n) && n@ == name@.skip("skillsmp:"@.len() as int)
        } else {
            r matches InfoTarget::Local(n) && n@ == name@
        },
{
    if crate::text::starts_with(name, "skillsmp:") {
        proof {
            reveal_strlit("skillsmp:");
        }
        let x = chars_of(name);
        let n: usize = x.len();
        assert(name@.skip(9) =~= x@.subrange(9, n as int));
        InfoTarget::Remote(string_of(&x, 9, n))
    } else {
        InfoTarget::Local(name.to_owned())
    }
}

// ---------------------------------------------------------------------------
// Tables
// ---------------------------------------------------------------------------

/// The number of bytes of a text.
pub open spec fn byte_len(s: Seq<char>) -> usize {
    encode_utf8(s).len() as usize
}

/// A description that can be cut: it is short, or its first 47 bytes are characters.
pub open spec fn can_shorten(s: Seq<char>) -> bool {
    byte_len(s) > 47 ==> is_char_boundary(encode_utf8(s), 47)
}

/// `r` is the description, and where it is longer than 47 bytes, those and dots.
pub open spec fn is_shortened(s: Seq<char>, r: Seq<char>) -> bool {
    if byte_len(s) > 47 {
        exists|head: Seq<char>| #[trigger]
            encode_utf8(head) == encode_utf8(s).subrange(0, 47) && r == head + "..."@
    } else {
        r == s
    }
}

/// A description as a table shows it.
pub fn shorten(description: &str) -> (r: String)
    requires
        can_shorten(description@),
    ensures
        is_shortened(description@, r@),
{
    if description.len() > 47 {
        let (head, _rest) = description.split_at(47);
        let mut r = head.to_owned();
        r.append("...");
        assert(encode_utf8(head@) == encode_utf8(description@).subrange(0, 47));
        r
    } else {
        description.to_owned()
    }
}

/// `s` with blanks behind it, `width` characters at least.
pub open spec fn padded(s: Seq<char>, width: nat) -> Seq<char> {
    if s.len() < width {
        s + Seq::new((width - s.len()) as nat, |i: int| ' ')
    } else {
        s
    }
}

/// `s` with blanks behind it, `width` characters at least.
pub fn pad(s: &str, width: usize) -> (r: String)
    ensures
        r@ == padded(s@, width as nat),
{
    let mut r = s.to_owned();
    let len: usize = s.unicode_len();
    let mut i: usize = len;
    while i < width
        invariant
            len == s@.len(),
            len <= i,
            i <= width || i == len,
            r@ == s@ + Seq::new((i - len) as nat, |k: int| ' '),
        decreases width - i,
    {
        r.push(' ');
        assert(r@ =~= s@ + Seq::new((i + 1 - len) as nat, |k: int| ' '));
        i = i + 1;
    }
    assert(len >= width ==> r@ =~= s@);
    r
}

/// `n` hyphens.
pub fn rule(n: usize) -> (r: String)
    ensures
        r@ == Seq::new(n as nat, |i: int| '-'),
{
    let mut r = String::new();
    let mut i: usize = 0;
    assert(r@ =~= Seq::new(0, |k: int| '-'));
    while i < n
        invariant
            i <= n,
            r@ == Seq::new(i as nat, |k: int| '-'),
        decreases n - i,
    {
        r.push('-');
        assert(r@ =~= Seq::new((i + 1) as nat, |k: int| '-'));
        i = i + 1;
    }
    r
}

/// A row of a table of names and descriptions.
pub open spec fn row(name: Seq<char>, width: nat, description: Seq<char>) -> Seq<char> {
    padded(name, width) + " "@ + padded(description, 50)
}

/// A row of a table of names and descriptions.
pub fn table_row(name: &str, width: usize, description: &str) -> (r: String)
    ensures
        r@ == row(name@, width as nat, description@),
{
    let mut r = pad(name, width);
    r.append(" ");
    r.append(pad(description, 50).as_str());
    r
}

/// `r` is the row of a skill.
pub open spec fn is_row(skill: (String, String), width: nat, r: Seq<char>) -> bool {
    exists|d: Seq<char>| #[trigger] is_shortened(skill.1@, d) && r == row(skill.0@, width, d)
}

/// `r` are the rows of a table of skills.
pub open spec fn are_rows(skills: Seq<(String, String)>, width: nat, r: Seq<String>) -> bool {
    &&& r.len() == skills.len()
    &&& forall|i: int| 0 <= i < skills.len() ==> is_row(skills[i], width, (#[trigger] r[i])@)
}

/// The rows of a table of skills.
pub fn skill_rows(skills: &Vec<(String, String)>, width: usize) -> (r: Vec<String>)
    requires
        forall|i: int| 0 <= i < skills@.len() ==> can_shorten((#[trigger] skills@[i]).1@),
    ensures
        are_rows(skills@, width as nat, r@),
{
    let mut r: Vec<String> = Vec::new();
    let mut i: usize = 0;
    while i < skills.len()
        invariant
            i <= skills@.len(),
            forall|k: int| 0 <= k < skills@.len() ==> can_shorten((#[trigger] skills@[k]).1@),
            r@.len() == i,
            forall|k: int| 0 <= k < i ==> is_row(skills@[k], width as nat, (#[trigger] r@[k])@),
        decreases skills@.len() - i,
    {
        assert(can_shorten(skills@[i as int].1@));
        let d = shorten(skills[i].1.as_str());
        let line = table_row(skills[i].0.as_str(), width, d.as_str());
        assert(is_shortened(skills@[i as int].1@, d@));
        assert(is_row(skills@[i as int], width as nat, line@));
        r.push(line);
        i = i + 1;
    }
    r
}

// ---------------------------------------------------------------------------
// Order
// ---------------------------------------------------------------------------

/// `a` comes before `b` or is the same: where they first differ the character of `a` is
/// the lower one, or `a` ends there.
pub open spec fn not_after(a: Seq<char>, b: Seq<char>) -> bool
    decreases a.len(),
{
    if a.len() == 0 {
        true
    } else if b.len() == 0 {
        false
    } else if a[0] == b[0] {
        not_after(a.drop_first(), b.drop_first())
    } else {
        a[0] < b[0]
    }
}

proof fn lemma_not_after_total(a: Seq<char>, b: Seq<char>)
    ensures
        not_after(a, b) || not_after(b, a),
    decreases a.len(),
{
    if a.len() > 0 && b.len() > 0 && a[0] == b[0] {
        lemma_not_after_total(a.drop_first(), b.drop_first());
    }
}

proof fn lemma_not_after_trans(a: Seq<char>, b: Seq<char>, c: Seq<char>)
    requires
        not_after(a, b),
        not_after(b, c),
    ensures
        not_after(a, c),
    decreases a.len(),
{
    if a.len() > 0 && b.len() > 0 && c.len() > 0 {
        if a[0] == b[0] && b[0] == c[0] {
            lemma_not_after_trans(a.drop_first(), b.drop_first(), c.drop_first());
        }
    }
}

fn goes_first(a: &str, b: &str) -> (r: bool)
    ensures
        r == not_after(a@, b@),
{
    let x = chars_of(a);
    let y = chars_of(b);
    let mut i: usize = 0;
    assert(x@.skip(0) =~= x@);
    assert(y@.skip(0) =~= y@);
    loop
        invariant
            x@ == a@,
            y@ == b@,
            i <= x@.len(),
            i <= y@.len(),
            not_after(a@, b@) == not_after(x@.skip(i as int), y@.skip(i as int)),
        decreases x@.len() - i,
    {
        if i == x.len() {
            return true;
        }
        if i == y.len() {
            return false;
        }
        let c = x[i];
        let d = y[i];
        assert(x@.skip(i as int)[0] == c);
        assert(y@.skip(i as int)[0] == d);
        if c != d {
            return c < d;
        }
        assert(x@.skip(i as int).drop_first() =~= x@.skip(i + 1));
        assert(y@.skip(i as int).drop_first() =~= y@.skip(i + 1));
        i = i + 1;
    }
}

/// By name, from first to last.
pub open spec fn is_by_name(s: Seq<(String, String)>) -> bool {
    forall|i: int, j: int|
        0 <= i < j < s.len() ==> not_after((#[trigger] s[i]).0@, (#[trigger] s[j]).0@)
}

/// The property of having the name `n`.
pub open spec fn is_named(n: Seq<char>) -> spec_fn((String, String)) -> bool {
    |e: (String, String)| e.0@ == n
}

/// The skills with the name `n`, in order.
pub open spec fn with_name(s: Seq<(String, String)>, n: Seq<char>) -> Seq<(String, String)> {
    s.filter(is_named(n))
}

/// The skills by name. Those with the same name stay in the order in which they were.
pub fn sort_by_name(skills: &Vec<(String, String)>) -> (r: Vec<(String, String)>)
    ensures
        is_by_name(r@),
        r@.to_multiset() == skills@.to_multiset(),
        forall|n: Seq<char>| #[trigger] with_name(r@, n) == with_name(skills@, n),
{
    let mut r: Vec<(String, String)> = Vec::new();
    let mut i: usize = 0;
    assert(r@ =~= skills@.take(0));
    while i < skills.len()
        invariant
            i <= skills@.len(),
            r@.to_multiset() == skills@.take(i as int).to_multiset(),
            is_by_name(r@),
            forall|n: Seq<char>| #[trigger]
                with_name(r@, n) == with_name(skills@.take(i as int), n),
        decreases skills@.len() - i,
    {
        let x = (skills[i].0.clone(), skills[i].1.clone());
        let mut k: usize = 0;
        while k < r.len() && goes_first(r[k].0.as_str(), x.0.as_str())
            invariant
                k <= r@.len(),
                forall|j: int| 0 <= j < k ==> not_after((#[trigger] r@[j]).0@, x.0@),
            decreases r@.len() - k,
        {
            k = k + 1;
        }
        let ghost before = r@;
        proof {
            lemma_insert_multiset(before, k as int, x);
            let t = skills@.take(i as int);
            assert(skills@.take(i + 1) =~= t.push(x));
            t.to_multiset_ensures();
            let after = before.insert(k as int, x);
            if k < before.len() {
                lemma_not_after_total(before[k as int].0@, x.0@);
            }
            assert forall|j: int| k <= j < before.len() implies (#[trigger] before[j]).0@
                != x.0@ by {
                if j > k {
                    assert(not_after(before[k as int].0@, before[j].0@));
                }
            }
            assert forall|n: Seq<char>| #[trigger] with_name(after, n) == with_name(
                t.push(x),
                n,
            ) by {
                lemma_filter_insert(before, k as int, x, is_named(n));
                lemma_filter_insert(t, t.len() as int, x, is_named(n));
                assert(t.insert(t.len() as int, x) =~= t.push(x));
                assert(with_name(before, n) == with_name(t, n));
            }
            assert forall|a: int, b: int| 0 <= a < b < after.len() implies not_after(
                (#[trigger] after[a]).0@,
                (#[trigger] after[b]).0@,
            ) by {
                let a0 = if a < k { a } else { a - 1 };
                let b0 = if b < k { b } else { b - 1 };
                if a == k {
                    if b0 > k {
                        assert(not_after(before[k as int].0@, before[b0].0@));
                        lemma_not_after_trans(x.0@, before[k as int].0@, before[b0].0@);
                    }
                } else if b == k {
                    assert(not_after(before[a0].0@, x.0@));
                } else {
                    assert(not_after(before[a0].0@, before[b0].0@));
                }
            }
        }
        r.insert(k, x);
        i = i + 1;
    }
    assert(skills@.take(skills@.len() as int) =~= skills@);
    r
}

// ---------------------------------------------------------------------------
// Telling about a skill
// ---------------------------------------------------------------------------

/// What is told of a skill that is installed, a line each.
pub open spec fn info_told(s: LoadedSkill, path: Seq<char>) -> Seq<Seq<char>> {
    let head = seq![
        "Name:        "@ + s.metadata.name@,
        "Description: "@ + s.metadata.description@,
        "Enabled:     "@ + (if s.enabled {
            "true"@
        } else {
            "false"@
        }),
    ];
    let license = match s.metadata.license {
        Some(l) => head.push("License:     "@ + l@),
        None => head,
    };
    let tools = if s.metadata.tools().len() > 0 {
        license.push("Tools:       "@ + join_text(s.metadata.tools(), ", "@))
    } else {
        license
    };
    let scripts = if s.scripts@.len() > 0 {
        tools.push(
            "Available:   "@ + join_text(
                s.scripts@.map_values(|x: crate::skills::types::ScriptInfo| x.name@),
                ", "@,
            ),
        )
    } else {
        tools
    };
    scripts.push("Path:        "@ + path)
}

fn tell(lines: &mut Vec<String>, head: &str, rest: &str)
    ensures
        texts(final(lines)@) == texts(old(lines)@).push(head@ + rest@),
{
    let mut line = head.to_owned();
    line.append(rest);
    lines.push(line);
    assert(texts(lines@) =~= texts(old(lines)@).push(head@ + rest@));
}

/// What is told of a skill that is installed.
pub fn local_info(skill: &LoadedSkill, path: &str) -> (r: Vec<String>)
    ensures
        texts(r@) == info_told(*skill, path@),
{
    let mut lines: Vec<String> = Vec::new();
    tell(&mut lines, "Name:        ", skill.metadata.name.as_str());
    tell(&mut lines, "Description: ", skill.metadata.description.as_str());
    tell(
        &mut lines,
        "Enabled:     ",
        if skill.enabled {
            "true"
        } else {
            "false"
        },
    );
    assert(texts(lines@) =~= seq![
        "Name:        "@ + skill.metadata.name@,
        "Description: "@ + skill.metadata.description@,
        "Enabled:     "@ + (if skill.enabled {
            "true"@
        } else {
            "false"@
        }),
    ]);
    if let Some(license) = &skill.metadata.license {
        tell(&mut lines, "License:     ", license.as_str());
    }
    let tools = skill.metadata.get_allowed_tools();
    assert(texts(tools@).len() == tools@.len());
    if tools.len() > 0 {
        tell(&mut lines, "Tools:       ", join(&tools, ", ").as_str());
    }
    if skill.scripts.len() > 0 {
        let mut names: Vec<String> = Vec::new();
        let mut i: usize = 0;
        while i < skill.scripts.len()
            invariant
                i <= skill.scripts@.len(),
                names@.len() == i,
                forall|j: int| 0 <= j < i ==> (#[trigger] names@[j])@ == skill.scripts@[j].name@,
            decreases skill.scripts@.len() - i,
        {
            names.push(skill.scripts[i].name.clone());
            i = i + 1;
        }
        assert(texts(names@) =~= skill.scripts@.map_values(
            |x: crate::skills::types::ScriptInfo| x.name@,
        ));
        tell(&mut lines, "Available:   ", join(&names, ", ").as_str());
    }
    tell(&mut lines, "Path:        ", path);
    lines
}

/// How many skills there are, in words.
pub fn total_line(n: usize) -> (r: String)
    ensures
        r@ == "\nTotal: "@ + decimal(n as nat) + " skill(s)"@,
{
    let mut r = "\nTotal: ".to_owned();
    r.append(decimal_text(n as u64).as_str());
    r.append(" skill(s)");
    r
}

} // verus!
