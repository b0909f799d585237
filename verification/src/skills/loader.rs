//! The files that come with a skill: references, scripts and assets.

use super::types::ScriptInfo;
use crate::paths::{join_path, path_join};
use crate::text::{lemma_lowers_once, lowered, lowers_to, same_text, to_lowercase};
use vstd::prelude::*;
use vstd::string::*;

verus! {

/// Knows the files that come with a skill.
pub struct SkillLoader;

/// A file of the references directory, and what it holds.
#[derive(Debug, Clone)]
pub struct ReferenceFile {
    /// The extension of its name, empty where there is none.
    pub extension: String,
    /// What it holds, if it could be read.
    pub content: Option<String>,
}

/// A reference document: markdown or plain text, by its extension.
pub open spec fn is_reference(extension: Seq<char>) -> bool {
    extension == "md"@ || extension == "txt"@
}

/// What the reference documents among the files hold.
pub open spec fn reference_contents(s: Seq<ReferenceFile>) -> Seq<String>
    decreases s.len(),
{
    if s.len() == 0 {
        Seq::empty()
    } else {
        let before = reference_contents(s.drop_last());
        match s.last().content {
            Some(c) if is_reference(s.last().extension@) => before.push(c),
            _ => before,
        }
    }
}

/// The extension, in lower case, of a file that is executable by it.
pub open spec fn is_executable_extension(lower: Seq<char>) -> bool {
    lower == "exe"@ || lower == "bat"@ || lower == "cmd"@ || lower == "ps1"@
}

/// Some execute bit is set in the mode of a file.
pub open spec fn has_execute_bit(mode: u32) -> bool {
    mode & 0o111 != 0
}

impl SkillLoader {
    /// Whether a file with this extension is a reference document.
    pub fn is_reference_file(extension: &str) -> (r: bool)
        ensures
            r == is_reference(extension@),
    {
        same_text(extension, "md") || same_text(extension, "txt")
    }

    /// What the reference documents among the files of the directory hold, in order.
    pub fn load_references(files: &Vec<ReferenceFile>) -> (r: Vec<String>)
        ensures
            r@ == reference_contents(files@),
    {
        let mut r: Vec<String> = Vec::new();
        let mut i: usize = 0;
        assert(r@ =~= reference_contents(files@.take(0)));
        while i < files.len()
            invariant
                i <= files@.len(),
                r@ == reference_contents(files@.take(i as int)),
            decreases files@.len() - i,
        {
            assert(files@.take(i + 1).drop_last() =~= files@.take(i as int));
            if Self::is_reference_file(files[i].extension.as_str()) {
                if let Some(c) = &files[i].content {
                    r.push(c.clone());
                }
            }
            i = i + 1;
        }
        assert(files@.take(files@.len() as int) =~= files@);
        r
    }

    /// A file of the scripts directory. A name that is not text counts as empty.
    pub fn script_info(name: Option<String>, path: String, executable: bool) -> (r: ScriptInfo)
        ensures
            r.name@ == match name {
                Some(n) => n@,
                None => Seq::empty(),
            },
            r.path == path,
            r.executable == executable,
    {
        let name = match name {
            Some(n) => n,
            None => String::new(),
        };
        ScriptInfo { name, path, executable }
    }

    /// The path of an asset.
    pub fn asset_path(skill_dir: &str, asset_name: &str) -> (r: String)
        ensures
            r@ == path_join(path_join(skill_dir@, "assets"@), asset_name@),
    {
        join_path(join_path(skill_dir, "assets").as_str(), asset_name)
    }

    /// Whether the skill has more than its text: scripts, references or assets.
    pub fn has_resources(scripts: bool, references: bool, assets: bool) -> (r: bool)
        ensures
            r == (scripts || references || assets),
    {
        scripts || references || assets
    }

    /// Whether a file is executable, by its mode, if it is known.
    pub fn is_executable(mode: Option<u32>) -> (r: bool)
        ensures
            r == (mode matches Some(m) && has_execute_bit(m)),
    {
        match mode {
            Some(m) => m & 0o111 != 0,
            None => false,
        }
    }

    /// Whether a file is executable by its extension, in any letter case, where files have
    /// no modes. A file without an extension is not.
    pub fn is_executable_by_extension(extension: Option<&str>) -> (r: bool)
        ensures
            r == match extension {
                Some(e) => is_executable_extension(lowered(e@)),
                None => false,
            },
            forall|l: Seq<char>|
                extension is Some && #[trigger] lowers_to(extension->0@, l) ==> r
                    == is_executable_extension(l),
    {
        match extension {
            Some(e) => {
                let lower = to_lowercase(e);
                proof {
                    assert forall|l: Seq<char>| #[trigger] lowers_to(e@, l) implies l == lower@ by {
                        lemma_lowers_once(e@, l, lower@);
                    }
                }
                same_text(lower.as_str(), "exe") || same_text(lower.as_str(), "bat") || same_text(
                    lower.as_str(),
                    "cmd",
                ) || same_text(lower.as_str(), "ps1")
            },
            None => false,
        }
    }
}

} // verus!
