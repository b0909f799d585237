//! Reading `SKILL.md` files: YAML front matter between lines of `---`, then markdown.

use super::error::SkillError;
use super::types::{LoadedSkill, ScriptInfo, SkillMetadata};
use super::validator::{
    is_compatibility, is_description, is_skill_name, validate_compatibility, validate_description,
    validate_skill_name,
};
use crate::clock::{now, Timestamp};
use crate::paths::{join_path, path_join};
use crate::text::{
    begins_with, chars_of, find_chars, find_from, lemma_find_from, starts_with,
    string_of, trim, trimmed,
};
use vstd::prelude::*;
use vstd::string::*;

verus! {

/// Reads `SKILL.md` files.
pub struct SkillParser;

/// What `---` at the beginning and the next `---` behind it cut out of a trimmed file.
pub open spec fn front_end(s: Seq<char>) -> Option<int> {
    find_from(s, "---"@, 3)
}

/// The front matter of a trimmed file.
pub open spec fn front_of(s: Seq<char>) -> Seq<char> {
    trimmed(s.subrange(3, front_end(s)->0))
}

/// The markdown of a trimmed file.
pub open spec fn body_of(s: Seq<char>) -> Seq<char> {
    trimmed(s.subrange(front_end(s)->0 + 3, s.len() as int))
}

/// What is wrong with the form of a trimmed file, if anything.
pub open spec fn form_error(s: Seq<char>) -> Option<Seq<char>> {
    if !begins_with(s, "---"@) {
        Some("SKILL.md must start with YAML front matter (---)"@)
    } else if front_end(s) is None {
        Some("SKILL.md front matter not properly closed (missing ---)"@)
    } else if front_of(s).len() == 0 {
        Some("YAML front matter cannot be empty"@)
    } else {
        None
    }
}

/// `e` is the first thing that is wrong with the fields of a skill: its name, that the
/// name is not that of the directory, its description, its compatibility note.
pub open spec fn field_error(m: SkillMetadata, dir: Option<Seq<char>>, e: SkillError) -> bool {
    if !is_skill_name(m.name@) {
        e matches SkillError::InvalidName { name } && name@ == m.name@
    } else if dir matches Some(d) && d != m.name@ {
        e matches SkillError::NameDirectoryMismatch { name, directory } && name@ == m.name@
            && Some(directory@) == dir
    } else if !is_description(m.description@) {
        e matches SkillError::InvalidDescription(t) && t@
            == "description must have 1 to 1024 characters"@
    } else {
        (e matches SkillError::InvalidCompatibility(t) && t@
            == "compatibility must have up to 500 characters"@) && !valid_fields(m, dir)
    }
}

/// The fields of a skill hold what they may hold.
pub open spec fn valid_fields(m: SkillMetadata, dir: Option<Seq<char>>) -> bool {
    &&& is_skill_name(m.name@)
    &&& (dir matches Some(d) ==> d == m.name@)
    &&& is_description(m.description@)
    &&& (m.compatibility matches Some(c) ==> is_compatibility(c@))
}

/// The text of a value that may be missing.
pub open spec fn text_of(s: Option<&str>) -> Option<Seq<char>> {
    match s {
        Some(t) => Some(t@),
        None => None,
    }
}

impl SkillParser {
    /// Cuts a file into its front matter and its markdown.
    pub fn split_front_matter(content: &str) -> (r: Result<(String, String), SkillError>)
        ensures
            match form_error(trimmed(content@)) {
                Some(m) => r matches Err(SkillError::ParseError(t)) && t@ == m,
                None => r matches Ok((front, body)) && front@ == front_of(trimmed(content@))
                    && body@ == body_of(trimmed(content@)),
            },
    {
        let content = trim(content);
        proof {
            reveal_strlit("---");
            lemma_find_from(content@, "---"@, 3);
        }
        if !starts_with(content, "---") {
            return Err(
                SkillError::ParseError(
                    "SKILL.md must start with YAML front matter (---)".to_owned(),
                ),
            );
        }
        let x = chars_of(content);
        match find_chars(&x, &chars_of("---"), 3) {
            None => Err(
                SkillError::ParseError(
                    "SKILL.md front matter not properly closed (missing ---)".to_owned(),
                ),
            ),
            Some(end) => {
                let n: usize = x.len();
                let front = trim(string_of(&x, 3, end).as_str()).to_owned();
                let body = trim(string_of(&x, end + 3, n).as_str()).to_owned();
                if front.as_str().is_empty() {
                    return Err(
                        SkillError::ParseError("YAML front matter cannot be empty".to_owned()),
                    );
                }
                Ok((front, body))
            },
        }
    }

    /// Makes a skill of a file in the directory `skill_dir`, whose name is `dir_name`.
    /// `metadata` is what its front matter was read as, or why it could not be read.
    pub fn parse_at(
        content: &str,
        skill_dir: &str,
        dir_name: Option<&str>,
        metadata: Result<SkillMetadata, String>,
        scripts: Vec<ScriptInfo>,
        at: Timestamp,
    ) -> (r: Result<LoadedSkill, SkillError>)
        ensures
            is_parsed(content@, skill_dir@, text_of(dir_name), metadata, scripts, at, r),
    {
        let (_front, markdown) = match Self::split_front_matter(content) {
            Ok(parts) => parts,
            Err(e) => return Err(e),
        };
        let metadata = match metadata {
            Ok(m) => m,
            Err(e) => return Err(SkillError::YamlError(e)),
        };
        if let Err(e) = validate_skill_name(metadata.name.as_str(), dir_name) {
            return Err(e);
        }
        if let Err(e) = validate_description(metadata.description.as_str()) {
            return Err(e);
        }
        if let Some(c) = &metadata.compatibility {
            if let Err(e) = validate_compatibility(c.as_str()) {
                return Err(e);
            }
        }
        Ok(
            LoadedSkill {
                metadata,
                content: markdown,
                raw_content: content.to_owned(),
                skill_dir: skill_dir.to_owned(),
                file_path: join_path(skill_dir, "SKILL.md"),
                enabled: true,
                loaded_at: at,
                scripts,
            },
        )
    }

    /// Makes a skill of a file, now.
    pub fn parse(
        content: &str,
        skill_dir: &str,
        dir_name: Option<&str>,
        metadata: Result<SkillMetadata, String>,
        scripts: Vec<ScriptInfo>,
    ) -> (r: Result<LoadedSkill, SkillError>)
        ensures
            exists|at: Timestamp|
                is_parsed(content@, skill_dir@, text_of(dir_name), metadata, scripts, at, r),
    {
        Self::parse_at(content, skill_dir, dir_name, metadata, scripts, now())
    }
}

/// `r` is the skill of a file, or what is wrong with it: its form, its front matter, or
/// its fields, in this order.
pub open spec fn is_parsed(
    content: Seq<char>,
    skill_dir: Seq<char>,
    dir_name: Option<Seq<char>>,
    metadata: Result<SkillMetadata, String>,
    scripts: Vec<ScriptInfo>,
    at: Timestamp,
    r: Result<LoadedSkill, SkillError>,
) -> bool {
    match (form_error(trimmed(content)), metadata) {
        (Some(m), _) => r matches Err(SkillError::ParseError(t)) && t@ == m,
        (None, Err(y)) => r == Err::<LoadedSkill, SkillError>(SkillError::YamlError(y)),
        (None, Ok(m)) => if valid_fields(m, dir_name) {
            r matches Ok(s) && s.metadata == m && s.content@ == body_of(trimmed(content))
                && s.raw_content@ == content && s.skill_dir@ == skill_dir && s.file_path@
                == path_join(skill_dir, "SKILL.md"@) && s.enabled && s.loaded_at == at && s.scripts
                == scripts
        } else {
            r matches Err(e) && field_error(m, dir_name, e)
        },
    }
}

// ---------------------------------------------------------------------------
// Laws
// ---------------------------------------------------------------------------

/// A skill that is read has a name that a skill can have, the same as its directory's.
pub proof fn law_parsed_skill_is_valid(
    content: Seq<char>,
    skill_dir: Seq<char>,
    dir_name: Option<Seq<char>>,
    metadata: Result<SkillMetadata, String>,
    scripts: Vec<ScriptInfo>,
    at: Timestamp,
    skill: LoadedSkill,
)
    requires
        is_parsed(content, skill_dir, dir_name, metadata, scripts, at, Ok(skill)),
    ensures
        valid_fields(skill.metadata, dir_name),
        metadata == Ok::<SkillMetadata, String>(skill.metadata),
        form_error(trimmed(content)) is None,
{
}

} // verus!
