//! Errors about skills.

use vstd::prelude::*;
use vstd::string::*;

verus! {

/// What can go wrong with a skill.
#[derive(Debug, Clone)]
pub enum SkillError {
    /// The file has the wrong form.
    ParseError(String),
    /// The front matter cannot be read.
    YamlError(String),
    /// The name is not one that a skill can have.
    InvalidName { name: String },
    /// The name is not that of the directory.
    NameDirectoryMismatch { name: String, directory: String },
    /// The description is not one that a skill can have.
    InvalidDescription(String),
    /// The compatibility note is not one that a skill can have.
    InvalidCompatibility(String),
    /// There is no such skill.
    NotFound(String),
    /// There is no registry, or there is one already.
    RegistryNotInitialized,
    /// A file could not be read.
    Io(String),
}

impl SkillError {
    /// The error in words.
    pub open spec fn words(self) -> Seq<char> {
        match self {
            SkillError::ParseError(m) => "Failed to parse the skill: "@ + m@,
            SkillError::YamlError(m) => "Failed to read the front matter: "@ + m@,
            SkillError::InvalidName { name } => "Invalid skill name: "@ + name@,
            SkillError::NameDirectoryMismatch { name, directory } => "Skill name '"@ + name@
                + "' does not match its directory '"@ + directory@ + "'"@,
            SkillError::InvalidDescription(m) => "Invalid description: "@ + m@,
            SkillError::InvalidCompatibility(m) => "Invalid compatibility: "@ + m@,
            SkillError::NotFound(m) => "Skill not found: "@ + m@,
            SkillError::RegistryNotInitialized => "Skill registry not initialized"@,
            SkillError::Io(m) => "IO error: "@ + m@,
        }
    }

    /// The error in words.
    pub fn message(&self) -> (r: String)
        ensures
            r@ == self.words(),
    {
        match self {
            SkillError::ParseError(m) => behind("Failed to parse the skill: ", m),
            SkillError::YamlError(m) => behind("Failed to read the front matter: ", m),
            SkillError::InvalidName { name } => behind("Invalid skill name: ", name),
            SkillError::NameDirectoryMismatch { name, directory } => {
                let mut r = behind("Skill name '", name);
                r.append("' does not match its directory '");
                r.append(directory.as_str());
                r.append("'");
                r
            },
            SkillError::InvalidDescription(m) => behind("Invalid description: ", m),
            SkillError::InvalidCompatibility(m) => behind("Invalid compatibility: ", m),
            SkillError::NotFound(m) => behind("Skill not found: ", m),
            SkillError::RegistryNotInitialized => "Skill registry not initialized".to_owned(),
            SkillError::Io(m) => behind("IO error: ", m),
        }
    }
}

fn behind(head: &str, rest: &String) -> (r: String)
    ensures
        r@ == head@ + rest@,
{
    let mut r = head.to_owned();
    r.append(rest.as_str());
    r
}

} // verus!
