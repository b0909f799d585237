//! What holds of skills, from their files to what the model is told.

use super::error::SkillError;
use super::injector::{
    each_told, is_prompt_with, skill_told, skills_told, table_row, table_rows, ACTIVE_SKILL_HEAD, ACTIVE_SKILL_RULE,
    SKILLS_HEAD, SKILLS_TABLE, SKILLS_TAIL,
};
use super::loader::{
    has_execute_bit, is_executable_extension, is_reference, reference_contents, ReferenceFile,
};
use super::parser::{body_of, field_error, form_error, front_of, is_parsed, valid_fields};
use super::registry::{are_summaries, loaded, readable};
use super::types::{
    is_script_run, lemma_script_at, script_at, script_env, text_values, tools_in, trimmed_pieces,
    LoadedSkill, ScriptInfo, ScriptRun, SkillMetadata, SkillSummary,
};
use super::validator::{is_name_verdict, is_skill_name};
use crate::clock::Timestamp;
use crate::paths::{extension_in, last_dot, last_part, name_in, path_join};
use crate::text::{
    has_text, join_text, lemma_find_from_is, lemma_has_end, lemma_has_middle, lemma_has_part,
    lemma_has_start, lemma_join_push, lemma_split_first, lemma_split_none, lemma_split_pieces, lemma_text_in_text, occurs_at, split_text,
    texts, trimmed,
};
use vstd::prelude::*;
use vstd::string::*;

verus! {

// ---------------------------------------------------------------------------
// What the model is told
// ---------------------------------------------------------------------------

/// The model is told of every skill in a row of its own: its name and its description.
pub proof fn law_every_skill_is_told(s: Seq<SkillSummary>, i: int)
    requires
        0 <= i < s.len(),
    ensures
        has_text(skills_told(s), "| "@ + s[i].name@ + " | "@ + s[i].description@ + " |"@),
        has_text(skills_told(s), SKILLS_TAIL@),
{
    let rows = table_rows(s);
    assert(rows[i] == table_row(s[i]));
    lemma_has_part(rows, "\n"@, i);
    let all = join_text(rows, "\n"@);
    lemma_has_middle(SKILLS_HEAD@ + SKILLS_TABLE@, all, SKILLS_TAIL@);
    lemma_text_in_text(skills_told(s), all, rows[i]);
    lemma_has_end(SKILLS_HEAD@ + SKILLS_TABLE@ + all, SKILLS_TAIL@);
}

/// The model is told how to ask for a skill.
pub proof fn law_model_is_told_how_to_ask(s: Seq<SkillSummary>)
    requires
        s.len() > 0,
    ensures
        has_text(skills_told(s), "wrap the skill name in <use_skill></use_skill> tags"@),
{
    reveal_strlit(
        "

If you need to use a skill, wrap the skill name in <use_skill></use_skill> tags at the beginning of your response.
Example: <use_skill>skill-name</use_skill>

",
    );
    let p = "wrap the skill name in <use_skill></use_skill> tags"@;
    reveal_strlit("wrap the skill name in <use_skill></use_skill> tags");
    assert(SKILLS_TAIL@.subrange(30, 30 + p.len() as int) =~= p);
    assert(occurs_at(SKILLS_TAIL@, p, 30));
    law_every_skill_is_told(s, 0);
    lemma_text_in_text(skills_told(s), SKILLS_TAIL@, p);
}

/// A skill that the model asked for is told with its name and all of its text.
pub proof fn law_text_of_a_skill_is_told(name: Seq<char>, content: Seq<char>)
    ensures
        has_text(skill_told(name, content), "## Active Skill: "@ + name),
        has_text(skill_told(name, content), content + "\n---"@),
{
    let a = "## Active Skill: "@ + name;
    let b = ACTIVE_SKILL_HEAD@ + ACTIVE_SKILL_RULE@ + content + "\n---"@;
    assert(skill_told(name, content) =~= a + b);
    lemma_has_start(a, b);
    let c = a + ACTIVE_SKILL_HEAD@ + ACTIVE_SKILL_RULE@;
    assert(skill_told(name, content) =~= c + (content + "\n---"@));
    lemma_has_end(c, content + "\n---"@);
}

/// Skills with different texts are told differently.
pub proof fn law_texts_make_a_difference(name: Seq<char>, a: Seq<char>, b: Seq<char>)
    requires
        a != b,
    ensures
        skill_told(name, a) != skill_told(name, b),
{
    let head = "## Active Skill: "@ + name + ACTIVE_SKILL_HEAD@ + ACTIVE_SKILL_RULE@;
    let n = head.len() as int;
    if skill_told(name, a) == skill_told(name, b) {
        assert(skill_told(name, a).len() == n + a.len() + "\n---"@.len());
        assert(skill_told(name, b).len() == n + b.len() + "\n---"@.len());
        assert(skill_told(name, a).subrange(n, n + a.len()) =~= a);
        assert(skill_told(name, b).subrange(n, n + b.len()) =~= b);
    }
}

/// Of several skills that the model asked for, each is told.
pub proof fn law_each_skill_is_told(s: Seq<LoadedSkill>, i: int)
    requires
        0 <= i < s.len(),
    ensures
        has_text(each_told(s), skill_told(s[i].metadata.name@, s[i].content@)),
    decreases s.len(),
{
    let t = s.drop_last();
    let last = skill_told(s.last().metadata.name@, s.last().content@);
    if i < t.len() {
        law_each_skill_is_told(t, i);
        assert(t[i] == s[i]);
        assert(each_told(s) =~= each_told(t) + (last + "\n\n"@));
        lemma_has_start(each_told(t), last + "\n\n"@);
        lemma_text_in_text(
            each_told(s),
            each_told(t),
            skill_told(s[i].metadata.name@, s[i].content@),
        );
    } else {
        lemma_has_middle(each_told(t), last, "\n\n"@);
    }
}

/// A summary has the name and the description of its skill, and the tools that it may use.
pub proof fn law_summaries_are_of_their_skills(s: Seq<LoadedSkill>, r: Seq<SkillSummary>, i: int)
    requires
        are_summaries(s, r),
        0 <= i < s.len(),
    ensures
        r.len() == s.len(),
        r[i].name@ == s[i].metadata.name@,
        r[i].description@ == s[i].metadata.description@,
        s[i].metadata.allowed_tools matches Some(t) ==> texts(r[i].allowed_tools@) == tools_in(t@),
        s[i].metadata.allowed_tools is None ==> r[i].allowed_tools@.len() == 0,
{
    assert(r[i].sums_up(s[i].metadata));
    assert(texts(r[i].allowed_tools@).len() == r[i].allowed_tools@.len());
}

// ---------------------------------------------------------------------------
// Files
// ---------------------------------------------------------------------------

/// A file made of front matter between two marks and a text is read back as these.
pub proof fn law_file_is_read_back(front: Seq<char>, body: Seq<char>)
    requires
        trimmed("---"@ + front + "---"@ + body) == "---"@ + front + "---"@ + body,
        forall|j: int|
            3 <= j < 3 + front.len() ==> !#[trigger] occurs_at(
                "---"@ + front + "---"@ + body,
                "---"@,
                j,
            ),
    ensures
        trimmed(front).len() > 0 ==> form_error("---"@ + front + "---"@ + body) is None,
        trimmed(front).len() == 0 ==> form_error("---"@ + front + "---"@ + body) == Some(
            "YAML front matter cannot be empty"@,
        ),
        front_of("---"@ + front + "---"@ + body) == trimmed(front),
        body_of("---"@ + front + "---"@ + body) == trimmed(body),
{
    reveal_strlit("---");
    let s = "---"@ + front + "---"@ + body;
    let k = 3 + front.len() as int;
    assert(s.subrange(0, 3) =~= "---"@);
    assert(s.subrange(k, k + 3) =~= "---"@);
    lemma_find_from_is(s, "---"@, 3, k);
    assert(s.subrange(3, k) =~= front);
    assert(s.subrange(k + 3, s.len() as int) =~= body);
}

/// A file that does not begin with the mark, or has no second one, is refused.
pub proof fn law_file_without_marks_is_refused(s: Seq<char>)
    ensures
        !occurs_at(s, "---"@, 0) ==> form_error(s) == Some(
            "SKILL.md must start with YAML front matter (---)"@,
        ),
        occurs_at(s, "---"@, 0) && (forall|j: int| 3 <= j ==> !occurs_at(s, "---"@, j))
            ==> form_error(s) == Some(
            "SKILL.md front matter not properly closed (missing ---)"@,
        ),
{
    if forall|j: int| 3 <= j ==> !occurs_at(s, "---"@, j) {
        crate::text::lemma_find_from_none(s, "---"@, 3);
    }
}

/// A skill that is read keeps what its file says: the front matter, the text behind it, the
/// whole file, where it lies and its scripts; and it is offered.
pub proof fn law_skill_keeps_its_file(
    content: Seq<char>,
    skill_dir: Seq<char>,
    dir_name: Option<Seq<char>>,
    metadata: SkillMetadata,
    scripts: Vec<ScriptInfo>,
    at: Timestamp,
    skill: LoadedSkill,
)
    requires
        is_parsed(content, skill_dir, dir_name, Ok(metadata), scripts, at, Ok(skill)),
    ensures
        skill.metadata == metadata,
        skill.raw_content@ == content,
        skill.content@ == body_of(trimmed(content)),
        skill.skill_dir@ == skill_dir,
        skill.scripts == scripts,
        skill.enabled,
        skill.loaded_at == at,
        skill_dir.len() > 0 && skill_dir.last() != '/' ==> skill.file_path@ == skill_dir
            + "/SKILL.md"@,
{
    reveal_strlit("SKILL.md");
    reveal_strlit("/SKILL.md");
    reveal_strlit("/");
    if skill_dir.len() > 0 && skill_dir.last() != '/' {
        assert(skill_dir + "/"@ + "SKILL.md"@ =~= skill_dir + "/SKILL.md"@);
    }
}

/// A file is read as a skill if and only if its form is right, its front matter could be
/// read, its name has 1 to 64 lower-case letters, digits and hyphens and is that of the
/// directory, its description has 1 to 1024 characters and its compatibility note up to
/// 500.
pub proof fn law_which_files_are_skills(
    content: Seq<char>,
    skill_dir: Seq<char>,
    dir_name: Option<Seq<char>>,
    metadata: Result<SkillMetadata, String>,
    scripts: Vec<ScriptInfo>,
    at: Timestamp,
    r: Result<LoadedSkill, SkillError>,
)
    requires
        is_parsed(content, skill_dir, dir_name, metadata, scripts, at, r),
    ensures
        r is Ok <==> form_error(trimmed(content)) is None && (metadata matches Ok(m) && 1
            <= m.name@.len() <= 64 && (forall|i: int|
            0 <= i < m.name@.len() ==> 'a' <= #[trigger] m.name@[i] <= 'z' || '0' <= m.name@[i]
                <= '9' || m.name@[i] == '-') && (dir_name matches Some(d) ==> d == m.name@) && 1
            <= m.description@.len() <= 1024 && (m.compatibility matches Some(c) ==> c@.len()
            <= 500)),
        r matches Err(e) ==> form_error(trimmed(content)) is Some ==> e is ParseError,
        r matches Err(e) ==> form_error(trimmed(content)) is None && metadata is Err ==> e
            is YamlError,
{
}

/// What is wrong with a skill is told by its kind, with the name that is wrong.
pub proof fn law_wrong_field_is_told(m: SkillMetadata, dir: Option<Seq<char>>, e: SkillError)
    requires
        !valid_fields(m, dir),
        field_error(m, dir, e),
    ensures
        !is_skill_name(m.name@) ==> (e matches SkillError::InvalidName { name } && name@ == m.name@),
        is_skill_name(m.name@) && (dir matches Some(d) && d != m.name@) ==> (
        e matches SkillError::NameDirectoryMismatch { name, directory } && name@ == m.name@
            && dir == Some(directory@)),
        is_skill_name(m.name@) && !(dir matches Some(d) && d != m.name@) && !(1
            <= m.description@.len() <= 1024) ==> e is InvalidDescription,
        is_skill_name(m.name@) && !(dir matches Some(d) && d != m.name@) && 1
            <= m.description@.len() <= 1024 ==> e is InvalidCompatibility,
{
}

/// A name is accepted if and only if it is one that a skill can have, and that of its
/// directory, where it has one.
pub proof fn law_name_is_that_of_the_directory(
    name: Seq<char>,
    dir: Option<Seq<char>>,
    r: Result<(), SkillError>,
)
    requires
        is_name_verdict(name, dir, r),
    ensures
        r is Ok <==> 1 <= name.len() <= 64 && (forall|i: int|
            0 <= i < name.len() ==> 'a' <= #[trigger] name[i] <= 'z' || '0' <= name[i] <= '9'
                || name[i] == '-') && (dir matches Some(d) ==> d == name),
{
}

/// Errors tell what they speak of.
pub proof fn law_skill_errors_tell(m: String, d: String)
    ensures
        SkillError::ParseError(m).words() == "Failed to parse the skill: "@ + m@,
        SkillError::YamlError(m).words() == "Failed to read the front matter: "@ + m@,
        (SkillError::InvalidName { name: m }).words() == "Invalid skill name: "@ + m@,
        has_text((SkillError::NameDirectoryMismatch { name: m, directory: d }).words(), m@),
        has_text((SkillError::NameDirectoryMismatch { name: m, directory: d }).words(), d@),
        SkillError::InvalidDescription(m).words() == "Invalid description: "@ + m@,
        SkillError::InvalidCompatibility(m).words() == "Invalid compatibility: "@ + m@,
        SkillError::NotFound(m).words() == "Skill not found: "@ + m@,
        SkillError::Io(m).words() == "IO error: "@ + m@,
{
    let w = (SkillError::NameDirectoryMismatch { name: m, directory: d }).words();
    let b = "' does not match its directory '"@ + d@ + "'"@;
    assert(w =~= "Skill name '"@ + m@ + b);
    lemma_has_middle("Skill name '"@, m@, b);
    let a = "Skill name '"@ + m@ + "' does not match its directory '"@;
    lemma_has_middle(a, d@, "'"@);
}

// ---------------------------------------------------------------------------
// Tools of a skill
// ---------------------------------------------------------------------------

/// No text holds a comma or is empty, and none has white space at its ends.
pub open spec fn plain_tools(t: Seq<Seq<char>>) -> bool {
    forall|i: int|
        0 <= i < t.len() ==> (#[trigger] t[i]).len() > 0 && !t[i].contains(',') && trimmed(t[i])
            == t[i]
}

/// Tools that are written with commas between them are read back.
pub proof fn law_tools_are_read_back(t: Seq<Seq<char>>)
    requires
        t.len() >= 2,
        plain_tools(t),
    ensures
        tools_in(join_text(t, ","@)) == t,
{
    reveal_strlit(",");
    lemma_split_joined(t);
    lemma_pieces_kept(t);
    let rest = join_text(t.drop_first(), ","@);
    lemma_has_middle(t[0], ","@, rest);
    assert(join_text(t, ","@) == t[0] + ","@ + rest);
}

proof fn lemma_split_joined(t: Seq<Seq<char>>)
    requires
        t.len() >= 1,
        plain_tools(t),
    ensures
        split_text(join_text(t, ","@), ","@) == t,
    decreases t.len(),
{
    reveal_strlit(",");
    let a = t[0];
    if t.len() == 1 {
        if has_text(a, ","@) {
            let i = choose|i: int| occurs_at(a, ","@, i);
            assert(a.subrange(i, i + 1)[0] == ',');
            assert(a.contains(a[i]));
        }
        lemma_split_none(a, ","@);
        assert(t =~= seq![a]);
    } else {
        let rest = t.drop_first();
        assert forall|i: int| 0 <= i < rest.len() implies (#[trigger] rest[i]).len() > 0
            && !rest[i].contains(',') && trimmed(rest[i]) == rest[i] by {
            assert(t[i + 1] == rest[i]);
        }
        lemma_split_joined(rest);
        let b = join_text(rest, ","@);
        assert forall|j: int| 0 <= j < a.len() implies !occurs_at(a + ","@ + b, ","@, j) by {
            let s = a + ","@ + b;
            assert(s[j] == a[j]);
            assert(a.contains(a[j]));
            if occurs_at(s, ","@, j) {
                assert(s.subrange(j, j + 1)[0] == s[j]);
            }
        }
        lemma_split_first(a, ","@, b);
        assert(t =~= seq![a] + rest);
    }
}

proof fn lemma_pieces_kept(t: Seq<Seq<char>>)
    requires
        plain_tools(t),
    ensures
        trimmed_pieces(t) == t,
    decreases t.len(),
{
    if t.len() > 0 {
        let u = t.drop_last();
        assert forall|i: int| 0 <= i < u.len() implies (#[trigger] u[i]).len() > 0
            && !u[i].contains(',') && trimmed(u[i]) == u[i] by {
            assert(t[i] == u[i]);
        }
        lemma_pieces_kept(u);
        assert(t[t.len() - 1] == t.last());
        assert(trimmed_pieces(t) =~= t);
    }
}

// ---------------------------------------------------------------------------
// Scripts and documents of a skill
// ---------------------------------------------------------------------------

/// A script finds the directories and the name of its skill in its variables.
pub proof fn law_script_knows_its_skill(skill: LoadedSkill)
    ensures
        script_env(skill).dom().contains("SKILL_DIR"@),
        script_env(skill)["SKILL_DIR"@] == skill.skill_dir@,
        script_env(skill).dom().contains("SKILL_NAME"@),
        script_env(skill)["SKILL_NAME"@] == skill.metadata.name@,
        script_env(skill).dom().contains("SKILL_ASSETS"@),
        script_env(skill)["SKILL_ASSETS"@] == path_join(skill.skill_dir@, "assets"@),
        script_env(skill).dom().contains("SKILL_REFERENCES"@),
        script_env(skill)["SKILL_REFERENCES"@] == path_join(skill.skill_dir@, "references"@),
        forall|k: Seq<char>| #[trigger]
            script_env(skill).dom().contains(k) ==> k == "SKILL_DIR"@ || k == "SKILL_NAME"@ || k
                == "SKILL_ASSETS"@ || k == "SKILL_REFERENCES"@,
{
    reveal_strlit("SKILL_DIR");
    reveal_strlit("SKILL_NAME");
    reveal_strlit("SKILL_ASSETS");
    reveal_strlit("SKILL_REFERENCES");
    assert("SKILL_DIR"@[6] == 'D');
    assert("SKILL_NAME"@[6] == 'N');
    assert("SKILL_ASSETS"@[6] == 'A');
    assert("SKILL_REFERENCES"@[6] == 'R');
}

/// The script of a name is the first one of that name, if there is one.
pub proof fn law_first_script_of_a_name(s: Seq<ScriptInfo>, name: Seq<char>)
    ensures
        script_at(s, name) matches Some(i) ==> 0 <= i < s.len() && s[i].name@ == name && forall|
            j: int,
        |
            0 <= j < i ==> (#[trigger] s[j]).name@ != name,
        script_at(s, name) is None ==> forall|j: int|
            0 <= j < s.len() ==> (#[trigger] s[j]).name@ != name,
{
    lemma_script_at(s, name);
}

/// The document at `i` is one that is read: markdown or plain text, and readable.
pub open spec fn is_read(f: ReferenceFile) -> bool {
    (f.extension@ == "md"@ || f.extension@ == "txt"@) && f.content is Some
}

/// Where what is read of the file at `i` stands.
pub open spec fn read_before(s: Seq<ReferenceFile>, i: int) -> int
    decreases i,
{
    if i <= 0 {
        0
    } else if is_read(s[i - 1]) {
        read_before(s, i - 1) + 1
    } else {
        read_before(s, i - 1)
    }
}

/// Every reference document that can be read is read, whole and in order, and nothing else.
pub proof fn law_documents_are_read(s: Seq<ReferenceFile>, i: int)
    requires
        0 <= i < s.len(),
    ensures
        reference_contents(s).len() == read_before(s, s.len() as int),
        is_read(s[i]) ==> 0 <= read_before(s, i) < reference_contents(s).len()
            && s[i].content == Some(reference_contents(s)[read_before(s, i)]),
    decreases s.len(),
{
    let t = s.drop_last();
    lemma_read_same(s, t, s.len() - 1);
    if t.len() > 0 {
        law_documents_are_read(t, if i < t.len() {
            i
        } else {
            0
        });
        if i < t.len() {
            assert(t[i] == s[i]);
            lemma_read_same(s, t, i);
        }
    } else {
        assert(reference_contents(t).len() == 0);
    }
}

proof fn lemma_read_same(s: Seq<ReferenceFile>, t: Seq<ReferenceFile>, i: int)
    requires
        s.len() > 0,
        t == s.drop_last(),
        0 <= i <= t.len(),
    ensures
        read_before(s, i) == read_before(t, i),
        read_before(s, i) >= 0,
    decreases i,
{
    if i > 0 {
        lemma_read_same(s, t, i - 1);
        assert(t[i - 1] == s[i - 1]);
    }
}

/// Files of four kinds are executable by their names; and by its mode a file is that anyone
/// may execute.
pub proof fn law_executable_files(mode: u32)
    ensures
        is_executable_extension("exe"@),
        is_executable_extension("bat"@),
        is_executable_extension("cmd"@),
        is_executable_extension("ps1"@),
        is_reference("md"@),
        is_reference("txt"@),
        !is_executable_extension("md"@),
        !is_executable_extension("txt"@),
        has_execute_bit(mode) <==> mode & 0o100 != 0 || mode & 0o010 != 0 || mode & 0o001 != 0,
{
    assert((mode & 0o111 != 0) <==> (mode & 0o100 != 0 || mode & 0o010 != 0 || mode & 0o001 != 0))
        by (bit_vector);
    reveal_strlit("exe");
    reveal_strlit("bat");
    reveal_strlit("cmd");
    reveal_strlit("ps1");
    reveal_strlit("md");
    reveal_strlit("txt");
    assert("txt"@[0] == 't');
    assert("exe"@[0] == 'e');
    assert("bat"@[0] == 'b');
    assert("cmd"@[0] == 'c');
    assert("ps1"@[0] == 'p');
}

// ---------------------------------------------------------------------------
// The registry
// ---------------------------------------------------------------------------

/// Of the skills that are found, the last one of a name that could be read is the one that
/// counts; a name of which none was found keeps what it had.
pub proof fn law_last_skill_of_a_name_counts(
    m: Map<Seq<char>, LoadedSkill>,
    found: Seq<Result<LoadedSkill, SkillError>>,
    name: Seq<char>,
    i: int,
)
    ensures
        0 <= i < found.len() && (found[i] matches Ok(s) && s.metadata.name@ == name) && (forall|
            j: int,
        |
            i < j < found.len() ==> ((#[trigger] found[j]) matches Ok(s) ==> s.metadata.name@
                != name)) ==> loaded(m, found).dom().contains(name) && found[i] == Ok::<
            LoadedSkill,
            SkillError,
        >(loaded(m, found)[name]),
        (forall|j: int|
            0 <= j < found.len() ==> ((#[trigger] found[j]) matches Ok(s) ==> s.metadata.name@
                != name)) ==> (loaded(m, found).dom().contains(name) <==> m.dom().contains(name)) && (
        m.dom().contains(name) ==> loaded(m, found)[name] == m[name]),
    decreases found.len(),
{
    if found.len() > 0 {
        let t = found.drop_last();
        let n = found.len() - 1;
        assert(found[n] == found.last());
        assert forall|j: int| 0 <= j < t.len() implies #[trigger] t[j] == found[j] by {}
        law_last_skill_of_a_name_counts(m, t, name, i);
        let none = forall|j: int|
            0 <= j < found.len() ==> ((#[trigger] found[j]) matches Ok(s) ==> s.metadata.name@
                != name);
        if none {
            assert forall|j: int| 0 <= j < t.len() implies ((#[trigger] t[j]) matches Ok(s)
                ==> s.metadata.name@ != name) by {
                assert(found[j] == t[j]);
            }
        }
        let is_last = 0 <= i < found.len() && (found[i] matches Ok(s) && s.metadata.name@ == name)
            && (forall|j: int|
            i < j < found.len() ==> ((#[trigger] found[j]) matches Ok(s) ==> s.metadata.name@
                != name));
        if is_last && i < n {
            assert forall|j: int| i < j < t.len() implies ((#[trigger] t[j]) matches Ok(s)
                ==> s.metadata.name@ != name) by {
                assert(found[j] == t[j]);
            }
            assert(found[n] matches Ok(s) ==> s.metadata.name@ != name);
        }
    }
}

/// One more that could be read counts one more.
pub proof fn law_readable_are_counted(
    found: Seq<Result<LoadedSkill, SkillError>>,
    next: Result<LoadedSkill, SkillError>,
)
    ensures
        readable(found) <= found.len(),
        next is Ok ==> readable(found.push(next)) == readable(found) + 1,
        next is Err ==> readable(found.push(next)) == readable(found),
        readable(Seq::empty()) == 0,
    decreases found.len(),
{
    assert(found.push(next).drop_last() =~= found);
    if found.len() > 0 {
        law_readable_are_counted(found.drop_last(), next);
    }
}

// ---------------------------------------------------------------------------
// Paths
// ---------------------------------------------------------------------------

/// A path below another one is made of both, with one slash between them; one that begins
/// with a slash stands for itself.
pub proof fn law_paths_are_joined(base: Seq<char>, rel: Seq<char>)
    ensures
        rel.len() > 0 && rel[0] == '/' ==> path_join(base, rel) == rel,
        base.len() > 0 && !(rel.len() > 0 && rel[0] == '/') && base.last() != '/' ==> path_join(
            base,
            rel,
        ) == base + seq!['/'] + rel,
        base.len() > 0 && !(rel.len() > 0 && rel[0] == '/') && base.last() == '/' ==> path_join(
            base,
            rel,
        ) == base + rel,
        base.len() == 0 ==> path_join(base, rel) == rel,
{
    reveal_strlit("/");
    assert("/"@ =~= seq!['/']);
}

proof fn lemma_last_dot(name: Seq<char>)
    ensures
        -1 <= last_dot(name) < name.len(),
        last_dot(name) >= 0 ==> name[last_dot(name)] == '.',
        forall|i: int| last_dot(name) < i < name.len() ==> #[trigger] name[i] != '.',
    decreases name.len(),
{
    if name.len() > 0 && name.last() != '.' {
        let t = name.drop_last();
        lemma_last_dot(t);
        assert forall|i: int| last_dot(name) < i < name.len() implies #[trigger] name[i] != '.' by {
            if i < t.len() {
                assert(t[i] == name[i]);
            }
        }
    }
}

/// The name of a file in the directory `dir` is read back from its path, and what stands
/// behind its last dot is its extension.
pub proof fn law_name_and_extension_are_read_back(stem: Seq<char>, ext: Seq<char>)
    requires
        stem.len() > 0,
        !stem.contains('/'),
        !ext.contains('/'),
        !ext.contains('.'),
        ext.len() > 0,
    ensures
        name_in(stem + seq!['.'] + ext) == Some(stem + seq!['.'] + ext),
        extension_in(stem + seq!['.'] + ext) == Some(ext),
{
    let name = stem + seq!['.'] + ext;
    let n = stem.len() as int;
    reveal_strlit("/");
    reveal_strlit("");
    reveal_strlit(".");
    reveal_strlit("..");
    assert forall|i: int| 0 <= i < name.len() implies #[trigger] name[i] != '/' by {
        if i < n {
            assert(stem.contains(stem[i]));
        } else if i > n {
            assert(ext.contains(ext[i - n - 1]));
        }
    }
    if has_text(name, "/"@) {
        let i = choose|i: int| occurs_at(name, "/"@, i);
        assert(name.subrange(i, i + 1)[0] == name[i]);
    }
    lemma_split_none(name, "/"@);
    assert(name.len() >= 3);
    reveal_with_fuel(last_part, 2);
    assert(last_part(seq![name]) == Some(name));
    lemma_last_dot(name);
    assert(name[n] == '.');
    let d = last_dot(name);
    if d > n {
        assert(name[d] == ext[d - n - 1]);
        assert(ext.contains(ext[d - n - 1]));
    }
    assert(name.skip(n + 1) =~= ext);
}

/// The values of a map are told by their texts, under the same keys.
pub proof fn law_values_by_their_texts(m: Map<Seq<char>, String>, k: Seq<char>)
    ensures
        text_values(m).dom().contains(k) <==> m.dom().contains(k),
        m.dom().contains(k) ==> text_values(m)[k] == m[k]@,
{
}

proof fn lemma_last_piece(dir: Seq<char>, name: Seq<char>)
    requires
        !name.contains('/'),
    ensures
        split_text(dir + seq!['/'] + name, "/"@).len() > 0,
        split_text(dir + seq!['/'] + name, "/"@).last() == name,
{
    reveal_strlit("/");
    let s = dir + seq!['/'] + name;
    let parts = split_text(s, "/"@);
    lemma_split_pieces(s, "/"@);
    crate::text::lemma_split_nonempty(s, "/"@);
    let p = parts.last();
    let init = parts.drop_last();
    assert(parts =~= init.push(p));
    lemma_join_push(init, "/"@, p);
    let n = dir.len() as int;
    assert(s[n] == '/');
    assert(!has_text(parts[parts.len() - 1], "/"@));
    assert forall|i: int| 0 <= i < p.len() implies #[trigger] p[i] != '/' by {
        if p[i] == '/' {
            assert(p.subrange(i, i + 1) =~= "/"@);
            assert(occurs_at(p, "/"@, i));
        }
    }
    if init.len() == 0 {
        assert(s == p);
        assert(p[n] == '/');
    } else {
        let k = s.len() - p.len() - 1;
        assert(s == join_text(init, "/"@) + "/"@ + p);
        assert(s[k] == '/');
        if k < n {
            assert(p[n - k - 1] == s[n]);
        } else if k > n {
            assert(name[k - n - 1] == s[k]);
            assert(name.contains(name[k - n - 1]));
        }
        assert(s.skip(n + 1) =~= name);
        assert(s.skip(k + 1) =~= p);
    }
}

/// The name of a file is read back from its path, whatever directory it lies in.
pub proof fn law_name_behind_the_directory(dir: Seq<char>, name: Seq<char>)
    requires
        !name.contains('/'),
        name.len() > 2,
    ensures
        name_in(dir + seq!['/'] + name) == Some(name),
{
    reveal_strlit("");
    reveal_strlit(".");
    reveal_strlit("..");
    lemma_last_piece(dir, name);
}

/// A system prompt stays at the beginning, and all that is told of skills comes behind it.
pub proof fn law_prompt_tells_of_skills(prompt: Seq<char>, told: Seq<char>, r: Seq<char>)
    requires
        is_prompt_with(prompt, told, r),
    ensures
        r.len() >= prompt.len() && r.take(prompt.len() as int) == prompt,
        told.len() == 0 ==> r == prompt,
        told.len() > 0 ==> r.len() == prompt.len() + 1 + told.len() && r.skip(
            prompt.len() as int + 1,
        ) == told && r[prompt.len() as int] == '\n',
{
    reveal_strlit("\n");
    assert(r.take(prompt.len() as int) =~= prompt);
    if told.len() > 0 {
        assert(r.skip(prompt.len() as int + 1) =~= told);
    }
}

/// A script runs that has the name that was asked for. It finds its own name and that of its
/// skill in its variables, unless others are given, and all that are given as they are.
pub proof fn law_script_runs_with_its_variables(
    skill: LoadedSkill,
    name: Seq<char>,
    more: Map<Seq<char>, Seq<char>>,
    run: ScriptRun,
    k: Seq<char>,
)
    requires
        is_script_run(skill, name, more, run),
    ensures
        run.script.name@ == name,
        skill.scripts@.contains(run.script),
        more.dom().contains(k) ==> text_values(run.env@).dom().contains(k) && text_values(
            run.env@,
        )[k] == more[k],
        !more.dom().contains("SCRIPT_NAME"@) ==> text_values(run.env@).dom().contains(
            "SCRIPT_NAME"@,
        ) && text_values(run.env@)["SCRIPT_NAME"@] == name,
        !more.dom().contains("SKILL_DIR"@) ==> text_values(run.env@)["SKILL_DIR"@]
            == skill.skill_dir@,
        !more.dom().contains("SKILL_NAME"@) ==> text_values(run.env@)["SKILL_NAME"@]
            == skill.metadata.name@,
{
    law_script_knows_its_skill(skill);
    lemma_script_at(skill.scripts@, name);
    reveal_strlit("SCRIPT_NAME");
    reveal_strlit("SKILL_DIR");
    reveal_strlit("SKILL_NAME");
    assert("SCRIPT_NAME"@[1] == 'C');
    assert("SKILL_DIR"@[1] == 'K');
    assert("SKILL_NAME"@[1] == 'K');
}

/// The tools in a list with commas are what stands between these, without white space at
/// its ends, and without what is nothing else.
pub proof fn law_tools_between_commas(s: Seq<char>, i: int)
    requires
        has_text(s, ","@),
    ensures
        0 <= i < tools_in(s).len() ==> tools_in(s)[i].len() > 0 && exists|k: int|
            0 <= k < split_text(s, ","@).len() && tools_in(s)[i] == trimmed(
                #[trigger] split_text(s, ","@)[k],
            ),
        0 <= i < split_text(s, ","@).len() && trimmed(split_text(s, ","@)[i]).len() > 0
            ==> tools_in(s).contains(trimmed(split_text(s, ","@)[i])),
{
    let p = split_text(s, ","@);
    if 0 <= i < trimmed_pieces(p).len() {
        lemma_piece_of(p, i);
    }
    if 0 <= i < p.len() && trimmed(p[i]).len() > 0 {
        lemma_piece_there(p, i);
    }
}

proof fn lemma_piece_of(p: Seq<Seq<char>>, i: int)
    requires
        0 <= i < trimmed_pieces(p).len(),
    ensures
        trimmed_pieces(p)[i].len() > 0,
        exists|k: int| 0 <= k < p.len() && trimmed_pieces(p)[i] == trimmed(#[trigger] p[k]),
    decreases p.len(),
{
    let t = p.drop_last();
    if i < trimmed_pieces(t).len() {
        lemma_piece_of(t, i);
        let k = choose|k: int| 0 <= k < t.len() && trimmed_pieces(t)[i] == trimmed(#[trigger] t[k]);
        assert(p[k] == t[k]);
    } else {
        assert(p[p.len() - 1] == p.last());
    }
}

proof fn lemma_piece_there(p: Seq<Seq<char>>, i: int)
    requires
        0 <= i < p.len(),
        trimmed(p[i]).len() > 0,
    ensures
        trimmed_pieces(p).contains(trimmed(p[i])),
    decreases p.len(),
{
    let t = p.drop_last();
    let before = trimmed_pieces(t);
    if i < t.len() {
        assert(t[i] == p[i]);
        lemma_piece_there(t, i);
        let k = choose|k: int| 0 <= k < before.len() && before[k] == trimmed(p[i]);
        assert(trimmed_pieces(p)[k] == trimmed(p[i]));
    } else {
        assert(trimmed_pieces(p)[before.len() as int] == trimmed(p[i]));
    }
}

/// Skills that the model asked for are told in order: first those in front, then those
/// behind; and each as it is told alone.
pub proof fn law_skills_are_told_in_order(a: Seq<LoadedSkill>, b: Seq<LoadedSkill>, s: LoadedSkill)
    ensures
        each_told(a + b) == each_told(a) + each_told(b),
        each_told(seq![s]) == skill_told(s.metadata.name@, s.content@) + "\n\n"@,
        each_told(Seq::empty()).len() == 0,
    decreases b.len(),
{
    reveal_with_fuel(each_told, 2);
    assert(seq![s].drop_last() =~= Seq::<LoadedSkill>::empty());
    assert(each_told(seq![s]) =~= skill_told(s.metadata.name@, s.content@) + "\n\n"@);
    if b.len() == 0 {
        assert(a + b =~= a);
        assert(each_told(a) + each_told(b) =~= each_told(a));
    } else {
        assert((a + b).drop_last() =~= a + b.drop_last());
        law_skills_are_told_in_order(a, b.drop_last(), s);
        assert(each_told(a + b) =~= each_told(a) + each_told(b));
    }
}

} // verus!
