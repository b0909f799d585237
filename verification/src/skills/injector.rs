//! Telling the model about skills.

use super::types::{LoadedSkill, SkillSummary};
use super::detector::{law_request_detected, request_text};
use crate::pattern::{is_requestable, requests, unrequested};
use crate::text::{begins_with, join, join_text, texts};
use vstd::prelude::*;
use vstd::string::*;

verus! {

/// What stands before the table of skills; the table's head ends the sentence.
pub const SKILLS_HEAD: &'static str = "

## Available Skills

The following skills are available to help you complete this ";

/// The head of the table of skills.
pub const SKILLS_TABLE: &'static str = "task:

| Skill | Description |
|-------|-------------|
";

/// What stands behind the table of skills.
pub const SKILLS_TAIL: &'static str = "

If you need to use a skill, wrap the skill name in <use_skill></use_skill> tags at the beginning of your response.
Example: <use_skill>skill-name</use_skill>

";

/// What stands between the name of a skill and its text.
pub const ACTIVE_SKILL_HEAD: &'static str = "

The following skill instructions guide how to complete this ";

/// What stands right before the text of a skill.
pub const ACTIVE_SKILL_RULE: &'static str = "task:

---
";

/// A skill in the table.
pub open spec fn table_row(s: SkillSummary) -> Seq<char> {
    "| "@ + s.name@ + " | "@ + s.description@ + " |"@
}

/// The skills in the table.
pub open spec fn table_rows(s: Seq<SkillSummary>) -> Seq<Seq<char>> {
    s.map_values(|x: SkillSummary| table_row(x))
}

/// What the model is told of the skills at first.
pub open spec fn skills_told(s: Seq<SkillSummary>) -> Seq<char> {
    if s.len() == 0 {
        Seq::empty()
    } else {
        SKILLS_HEAD@ + SKILLS_TABLE@ + join_text(table_rows(s), "\n"@) + SKILLS_TAIL@
    }
}

/// What the model is told of a skill that it asked for.
pub open spec fn skill_told(name: Seq<char>, content: Seq<char>) -> Seq<char> {
    "## Active Skill: "@ + name + ACTIVE_SKILL_HEAD@ + ACTIVE_SKILL_RULE@ + content + "\n---"@
}

/// What the model is told of several skills, one after the other.
pub open spec fn each_told(s: Seq<LoadedSkill>) -> Seq<char>
    decreases s.len(),
{
    if s.len() == 0 {
        Seq::empty()
    } else {
        each_told(s.drop_last()) + skill_told(s.last().metadata.name@, s.last().content@) + "\n\n"@
    }
}

/// `r` is the system prompt with what is told behind it, on a line of its own; without
/// anything to tell, the prompt alone.
pub open spec fn is_prompt_with(prompt: Seq<char>, told: Seq<char>, r: Seq<char>) -> bool {
    r == if told.len() == 0 {
        prompt
    } else {
        prompt + "\n"@ + told
    }
}

/// Tells the model about skills.
pub struct SkillInjector;

impl SkillInjector {
    /// What the model is told of the skills at first: a table of names and
    /// descriptions, and how to ask for one. Nothing where there are none.
    pub fn phase1_injection(summaries: &[SkillSummary]) -> (r: String)
        ensures
            r@ == skills_told(summaries@),
    {
        if summaries.len() == 0 {
            return String::new();
        }
        let mut rows: Vec<String> = Vec::new();
        let mut i: usize = 0;
        while i < summaries.len()
            invariant
                i <= summaries@.len(),
                rows@.len() == i,
                forall|j: int| 0 <= j < i ==> (#[trigger] rows@[j])@ == table_row(summaries@[j]),
            decreases summaries@.len() - i,
        {
            let mut row = "| ".to_owned();
            row.append(summaries[i].name.as_str());
            row.append(" | ");
            row.append(summaries[i].description.as_str());
            row.append(" |");
            rows.push(row);
            i = i + 1;
        }
        assert(texts(rows@) =~= table_rows(summaries@));
        let mut r = SKILLS_HEAD.to_owned();
        r.append(SKILLS_TABLE);
        r.append(join(&rows, "\n").as_str());
        r.append(SKILLS_TAIL);
        r
    }

    /// What the model is told of a skill that it asked for: all of its text.
    pub fn phase2_injection(skill: &LoadedSkill) -> (r: String)
        ensures
            r@ == skill_told(skill.metadata.name@, skill.content@),
    {
        let mut r = "## Active Skill: ".to_owned();
        r.append(skill.metadata.name.as_str());
        r.append(ACTIVE_SKILL_HEAD);
        r.append(ACTIVE_SKILL_RULE);
        r.append(skill.content.as_str());
        r.append("\n---");
        r
    }

    /// What the model is told of several skills that it asked for.
    pub fn multi_skill_injection(skills: &[LoadedSkill]) -> (r: String)
        ensures
            r@ == if skills@.len() == 0 {
                Seq::empty()
            } else {
                "\n## Active Skills\n\n"@ + each_told(skills@)
            },
    {
        if skills.len() == 0 {
            return String::new();
        }
        let mut r = "\n## Active Skills\n\n".to_owned();
        let ghost head = r@;
        let mut i: usize = 0;
        assert(r@ =~= head + each_told(skills@.take(0)));
        while i < skills.len()
            invariant
                i <= skills@.len(),
                r@ == head + each_told(skills@.take(i as int)),
            decreases skills@.len() - i,
        {
            assert(skills@.take(i + 1).drop_last() =~= skills@.take(i as int));
            r.append(Self::phase2_injection(&skills[i]).as_str());
            r.append("\n\n");
            assert(r@ =~= head + each_told(skills@.take(i + 1)));
            i = i + 1;
        }
        assert(skills@.take(skills@.len() as int) =~= skills@);
        r
    }

    /// A system prompt with what the model is told of the skills at first.
    pub fn inject_summaries(system_prompt: &str, summaries: &[SkillSummary]) -> (r: String)
        ensures
            r@ == if summaries@.len() == 0 {
                system_prompt@
            } else {
                system_prompt@ + "\n"@ + skills_told(summaries@)
            },
            is_prompt_with(system_prompt@, skills_told(summaries@), r@),
    {
        proof {
            reveal_strlit("task:\n\n| Skill | Description |\n|-------|-------------|\n");
        }
        let injection = Self::phase1_injection(summaries);
        if summaries.len() == 0 {
            return system_prompt.to_owned();
        }
        let mut r = system_prompt.to_owned();
        r.append("\n");
        r.append(injection.as_str());
        r
    }

    /// A system prompt with the text of a skill.
    pub fn inject_skill(system_prompt: &str, skill: &LoadedSkill) -> (r: String)
        ensures
            r@ == system_prompt@ + "\n"@ + skill_told(skill.metadata.name@, skill.content@),
            is_prompt_with(
                system_prompt@,
                skill_told(skill.metadata.name@, skill.content@),
                r@,
            ),
    {
        proof {
            reveal_strlit("\n---");
        }
        let mut r = system_prompt.to_owned();
        r.append("\n");
        r.append(Self::phase2_injection(skill).as_str());
        r
    }
}

// ---------------------------------------------------------------------------
// Laws
// ---------------------------------------------------------------------------

/// What is told of skills goes behind the system prompt, which stays as it is.
pub proof fn law_prompt_kept(system_prompt: Seq<char>, told: Seq<char>)
    ensures
        begins_with(system_prompt + "\n"@ + told, system_prompt),
{
    assert((system_prompt + "\n"@ + told).subrange(0, system_prompt.len() as int)
        =~= system_prompt);
}

/// A model that answers as it is told is understood: the name of a skill, wrapped in the
/// tags that it is shown, is a request for that skill.
pub proof fn law_told_form_is_understood(name: Seq<char>)
    requires
        is_requestable(name),
    ensures
        requests("<use_skill>"@ + name + "</use_skill>"@) == seq![name],
        unrequested("<use_skill>"@ + name + "</use_skill>"@) == Seq::<char>::empty(),
{
    let none = Seq::<char>::empty();
    law_request_detected(none, none, name, none, none);
    assert(none + request_text(none, name, none) + none =~= "<use_skill>"@ + name
        + "</use_skill>"@);
    assert(requests(none) == Seq::<Seq<char>>::empty());
    assert(unrequested(none) == none);
    assert(Seq::<Seq<char>>::empty().push(name) + Seq::<Seq<char>>::empty() =~= seq![name]);
    assert(none + none =~= none);
}

} // verus!
