//! What the fields of a skill may hold.

use super::error::SkillError;
use crate::pattern::{is_name_char, is_requestable};
use crate::text::{chars_of, same_text};
use vstd::prelude::*;
use vstd::string::*;

verus! {

/// The most characters of a name.
pub const MAX_NAME_LEN: usize = 64;

/// The most characters of a description.
pub const MAX_DESCRIPTION_LEN: usize = 1024;

/// The most characters of a compatibility note.
pub const MAX_COMPATIBILITY_LEN: usize = 500;

/// A name that a skill can have: 1 to 64 lower-case letters, digits and hyphens.
pub open spec fn is_skill_name(name: Seq<char>) -> bool {
    &&& 1 <= name.len() <= MAX_NAME_LEN
    &&& forall|i: int| 0 <= i < name.len() ==> is_name_char(#[trigger] name[i])
}

fn well_named(name: &str) -> (r: bool)
    ensures
        r == is_skill_name(name@),
{
    let x = chars_of(name);
    if x.len() == 0 || x.len() > MAX_NAME_LEN {
        return false;
    }
    let mut i: usize = 0;
    while i < x.len()
        invariant
            x@ == name@,
            i <= x@.len(),
            forall|j: int| 0 <= j < i ==> is_name_char(#[trigger] name@[j]),
        decreases x@.len() - i,
    {
        let c = x[i];
        if !(('a' <= c && c <= 'z') || ('0' <= c && c <= '9') || c == '-') {
            assert(!is_name_char(name@[i as int]));
            return false;
        }
        i = i + 1;
    }
    true
}

/// `r` tells whether the name is one that a skill can have, and that of its directory,
/// where it has one.
pub open spec fn is_name_verdict(name: Seq<char>, dir: Option<Seq<char>>, r: Result<(), SkillError>) -> bool {
    if !is_skill_name(name) {
        r matches Err(SkillError::InvalidName { name: n }) && n@ == name
    } else {
        match dir {
            Some(d) if d != name => r matches Err(
                SkillError::NameDirectoryMismatch { name: n, directory },
            ) && n@ == name && directory@ == d,
            _ => r is Ok,
        }
    }
}

/// Whether the name is one that a skill can have, and that of its directory.
pub fn validate_skill_name(name: &str, dir_name: Option<&str>) -> (r: Result<(), SkillError>)
    ensures
        is_name_verdict(
            name@,
            match dir_name {
                Some(d) => Some(d@),
                None => None,
            },
            r,
        ),
{
    if !well_named(name) {
        return Err(SkillError::InvalidName { name: name.to_owned() });
    }
    if let Some(d) = dir_name {
        if !same_text(d, name) {
            return Err(
                SkillError::NameDirectoryMismatch {
                    name: name.to_owned(),
                    directory: d.to_owned(),
                },
            );
        }
    }
    Ok(())
}

/// A description that a skill can have: 1 to 1024 characters.
pub open spec fn is_description(s: Seq<char>) -> bool {
    1 <= s.len() <= MAX_DESCRIPTION_LEN
}

/// Whether the description is one that a skill can have.
pub fn validate_description(description: &str) -> (r: Result<(), SkillError>)
    ensures
        r is Ok <==> is_description(description@),
        r matches Err(e) ==> (e matches SkillError::InvalidDescription(m) && m@
            == "description must have 1 to 1024 characters"@),
{
    let n: usize = description.unicode_len();
    if n == 0 || n > MAX_DESCRIPTION_LEN {
        Err(
            SkillError::InvalidDescription("description must have 1 to 1024 characters".to_owned()),
        )
    } else {
        Ok(())
    }
}

/// A compatibility note that a skill can have: up to 500 characters.
pub open spec fn is_compatibility(s: Seq<char>) -> bool {
    s.len() <= MAX_COMPATIBILITY_LEN
}

/// Whether the compatibility note is one that a skill can have.
pub fn validate_compatibility(compatibility: &str) -> (r: Result<(), SkillError>)
    ensures
        r is Ok <==> is_compatibility(compatibility@),
        r matches Err(e) ==> (e matches SkillError::InvalidCompatibility(m) && m@
            == "compatibility must have up to 500 characters"@),
{
    if compatibility.unicode_len() > MAX_COMPATIBILITY_LEN {
        Err(
            SkillError::InvalidCompatibility(
                "compatibility must have up to 500 characters".to_owned(),
            ),
        )
    } else {
        Ok(())
    }
}

// ---------------------------------------------------------------------------
// Laws
// ---------------------------------------------------------------------------

/// A skill can be asked for by its name if and only if no hyphen stands at either end of it.
pub proof fn law_skill_name_requestable(name: Seq<char>)
    requires
        is_skill_name(name),
    ensures
        is_requestable(name) <==> name[0] != '-' && name.last() != '-',
{
    assert(is_name_char(name[0]));
    assert(is_name_char(name[name.len() - 1]));
}

} // verus!
