//! Skills and what is known of them.

use crate::clock::Timestamp;
use crate::executor::types::ExecutionError;
use crate::paths::{extension, extension_in, join_path, path_join};
use crate::text::{
    contains, has_text, is_listed, list_has, same_text, slices, split, split_text, split_whitespace,
    texts, trim, trimmed, words,
};
use crate::text_map::TextMap;
use vstd::prelude::*;
use vstd::string::*;

verus! {

/// What the front matter of a skill says.
#[derive(Debug)]
pub struct SkillMetadata {
    /// Name: 1 to 64 lower-case letters, digits and hyphens, the same as that of the
    /// directory.
    pub name: String,
    /// When and how to use the skill: 1 to 1024 characters.
    pub description: String,
    /// License, if any.
    pub license: Option<String>,
    /// What the skill needs: up to 500 characters, if any.
    pub compatibility: Option<String>,
    /// More, by keys.
    pub metadata: Option<TextMap<String>>,
    /// The tools that the skill may use, with blanks or commas between them.
    pub allowed_tools: Option<String>,
    /// The model that is recommended, if any.
    pub model: Option<String>,
}

/// The pieces trimmed, without the empty ones.
pub open spec fn trimmed_pieces(s: Seq<Seq<char>>) -> Seq<Seq<char>>
    decreases s.len(),
{
    if s.len() == 0 {
        Seq::empty()
    } else {
        let before = trimmed_pieces(s.drop_last());
        if trimmed(s.last()).len() > 0 {
            before.push(trimmed(s.last()))
        } else {
            before
        }
    }
}

/// The tools in a list: with a comma in it, what stands between commas; otherwise the words.
pub open spec fn tools_in(s: Seq<char>) -> Seq<Seq<char>> {
    if has_text(s, ","@) {
        trimmed_pieces(split_text(s, ","@))
    } else {
        words(s)
    }
}

impl SkillMetadata {
    /// The tools that the skill may use.
    pub open spec fn tools(self) -> Seq<Seq<char>> {
        match self.allowed_tools {
            Some(s) => tools_in(s@),
            None => Seq::empty(),
        }
    }

    /// The tools that the skill may use.
    pub fn get_allowed_tools(&self) -> (r: Vec<String>)
        ensures
            texts(r@) == self.tools(),
    {
        match &self.allowed_tools {
            None => {
                let r: Vec<String> = Vec::new();
                assert(texts(r@) =~= Seq::empty());
                r
            },
            Some(s) => {
                proof {
                    reveal_strlit(",");
                }
                if contains(s.as_str(), ",") {
                    let pieces = split(s.as_str(), ",");
                    let ghost all = slices(pieces@);
                    let mut r: Vec<String> = Vec::new();
                    let mut i: usize = 0;
                    assert(texts(r@) =~= trimmed_pieces(all.take(0)));
                    while i < pieces.len()
                        invariant
                            i <= pieces@.len(),
                            all == slices(pieces@),
                            texts(r@) == trimmed_pieces(all.take(i as int)),
                        decreases pieces@.len() - i,
                    {
                        let t = trim(pieces[i]);
                        assert(all.take(i + 1).drop_last() =~= all.take(i as int));
                        assert(all.take(i + 1).last() == pieces@[i as int]@);
                        let ghost before = r@;
                        if !t.is_empty() {
                            r.push(t.to_owned());
                            assert(texts(r@) =~= texts(before).push(t@));
                        }
                        i = i + 1;
                    }
                    assert(all.take(pieces@.len() as int) =~= all);
                    r
                } else {
                    split_whitespace(s.as_str())
                }
            },
        }
    }
}

/// A script of a skill.
#[derive(Debug, Clone)]
pub struct ScriptInfo {
    /// Name of the file.
    pub name: String,
    /// Path of the file.
    pub path: String,
    /// Whether it is executable.
    pub executable: bool,
}

impl ScriptInfo {
    /// The same again.
    pub fn copy(&self) -> (r: ScriptInfo)
        ensures
            r == *self,
    {
        ScriptInfo {
            name: self.name.clone(),
            path: self.path.clone(),
            executable: self.executable,
        }
    }
}

/// A skill with its text.
#[derive(Debug)]
pub struct LoadedSkill {
    /// What its front matter says.
    pub metadata: SkillMetadata,
    /// Its text, behind the front matter.
    pub content: String,
    /// The whole file.
    pub raw_content: String,
    /// The directory.
    pub skill_dir: String,
    /// The path of the file.
    pub file_path: String,
    /// Whether it is offered to the model.
    pub enabled: bool,
    /// When it was loaded.
    pub loaded_at: Timestamp,
    /// Its scripts.
    pub scripts: Vec<ScriptInfo>,
}

/// The position of the first script with this name.
pub open spec fn script_at(s: Seq<ScriptInfo>, name: Seq<char>) -> Option<int>
    decreases s.len(),
{
    if s.len() == 0 {
        None
    } else if script_at(s.drop_last(), name) is Some {
        script_at(s.drop_last(), name)
    } else if s.last().name@ == name {
        Some(s.len() - 1)
    } else {
        None
    }
}

/// What is found is a script with the name.
pub proof fn lemma_script_at(s: Seq<ScriptInfo>, name: Seq<char>)
    ensures
        match script_at(s, name) {
            Some(i) => 0 <= i < s.len() && s[i].name@ == name && forall|j: int|
                0 <= j < i ==> (#[trigger] s[j]).name@ != name,
            None => forall|j: int| 0 <= j < s.len() ==> (#[trigger] s[j]).name@ != name,
        },
    decreases s.len(),
{
    if s.len() > 0 {
        lemma_script_at(s.drop_last(), name);
        assert forall|j: int| 0 <= j < s.len() - 1 implies s.drop_last()[j] == s[j] by {}
        match script_at(s, name) {
            Some(i) => {
                assert forall|j: int| 0 <= j < i implies (#[trigger] s[j]).name@ != name by {
                    assert(s.drop_last()[j] == s[j]);
                }
            },
            None => {
                assert forall|j: int| 0 <= j < s.len() implies (#[trigger] s[j]).name@ != name by {
                    if j < s.len() - 1 {
                        assert(s.drop_last()[j] == s[j]);
                    }
                }
            },
        }
    }
}

/// The variables that a script of a skill runs with.
pub open spec fn script_env(skill: LoadedSkill) -> Map<Seq<char>, Seq<char>> {
    Map::<Seq<char>, Seq<char>>::empty().insert("SKILL_DIR"@, skill.skill_dir@).insert(
        "SKILL_NAME"@,
        skill.metadata.name@,
    ).insert("SKILL_ASSETS"@, path_join(skill.skill_dir@, "assets"@)).insert(
        "SKILL_REFERENCES"@,
        path_join(skill.skill_dir@, "references"@),
    )
}

/// `run` runs the script with this name of the skill, with the skill's variables and more.
pub open spec fn is_script_run(
    skill: LoadedSkill,
    name: Seq<char>,
    more: Map<Seq<char>, Seq<char>>,
    run: ScriptRun,
) -> bool {
    &&& script_at(skill.scripts@, name) matches Some(i) && run.script == skill.scripts@[i]
    &&& text_values(run.env@) == script_env(skill).insert("SCRIPT_NAME"@, name).union_prefer_right(
        more,
    )
}

/// The texts of the values of a map.
pub open spec fn text_values(m: Map<Seq<char>, String>) -> Map<Seq<char>, Seq<char>> {
    Map::new(|k: Seq<char>| m.dom().contains(k), |k: Seq<char>| m[k]@)
}

fn set(env: &mut TextMap<String>, key: &str, value: String)
    ensures
        text_values(final(env)@) == text_values(old(env)@).insert(key@, value@),
{
    env.insert(key.to_owned(), value);
    assert(text_values(env@) =~= text_values(old(env)@).insert(key@, value@));
}

/// A script that is to be run, with the variables that it runs with.
#[derive(Debug)]
pub struct ScriptRun {
    pub script: ScriptInfo,
    pub env: TextMap<String>,
}

impl LoadedSkill {
    /// The first script with this name.
    pub fn get_script(&self, script_name: &str) -> (r: Option<&ScriptInfo>)
        ensures
            match r {
                Some(s) => script_at(self.scripts@, script_name@) is Some && *s
                    == self.scripts@[script_at(self.scripts@, script_name@)->0],
                None => script_at(self.scripts@, script_name@) is None,
            },
    {
        proof {
            lemma_script_at(self.scripts@, script_name@);
        }
        let mut i: usize = 0;
        while i < self.scripts.len()
            invariant
                i <= self.scripts@.len(),
                forall|j: int| 0 <= j < i ==> (#[trigger] self.scripts@[j]).name@ != script_name@,
                match script_at(self.scripts@, script_name@) {
                    Some(k) => 0 <= k < self.scripts@.len() && self.scripts@[k].name@
                        == script_name@ && forall|j: int|
                        0 <= j < k ==> (#[trigger] self.scripts@[j]).name@ != script_name@,
                    None => forall|j: int|
                        0 <= j < self.scripts@.len() ==> (#[trigger] self.scripts@[j]).name@
                            != script_name@,
                },
            decreases self.scripts@.len() - i,
        {
            if same_text(self.scripts[i].name.as_str(), script_name) {
                assert(self.scripts@[i as int].name@ == script_name@);
                return Some(&self.scripts[i]);
            }
            i = i + 1;
        }
        None
    }

    /// Whether there is a script with this name.
    pub fn has_script(&self, script_name: &str) -> (r: bool)
        ensures
            r == (script_at(self.scripts@, script_name@) is Some),
    {
        self.get_script(script_name).is_some()
    }

    /// The directory of templates and the like.
    pub fn assets_dir(&self) -> (r: String)
        ensures
            r@ == path_join(self.skill_dir@, "assets"@),
    {
        join_path(self.skill_dir.as_str(), "assets")
    }

    /// The directory of reference documents.
    pub fn references_dir(&self) -> (r: String)
        ensures
            r@ == path_join(self.skill_dir@, "references"@),
    {
        join_path(self.skill_dir.as_str(), "references")
    }

    /// The directory of scripts.
    pub fn scripts_dir(&self) -> (r: String)
        ensures
            r@ == path_join(self.skill_dir@, "scripts"@),
    {
        join_path(self.skill_dir.as_str(), "scripts")
    }

    /// The variables that the scripts of this skill run with.
    pub fn build_script_env(&self) -> (r: TextMap<String>)
        ensures
            text_values(r@) == script_env(*self),
    {
        let mut env: TextMap<String> = TextMap::new();
        assert(text_values(env@) =~= Map::<Seq<char>, Seq<char>>::empty());
        set(&mut env, "SKILL_DIR", self.skill_dir.clone());
        set(&mut env, "SKILL_NAME", self.metadata.name.clone());
        set(&mut env, "SKILL_ASSETS", self.assets_dir());
        set(&mut env, "SKILL_REFERENCES", self.references_dir());
        env
    }

    /// What is needed to run a script of this skill: the script, and its variables, to
    /// which the name of the script and `additional_env` are added, the latter with
    /// precedence. `manager_ready` tells whether there is anything to run scripts with.
    pub fn prepare_script(
        &self,
        script_name: &str,
        additional_env: &TextMap<String>,
        manager_ready: bool,
    ) -> (r: Result<ScriptRun, ExecutionError>)
        ensures
            match script_at(self.scripts@, script_name@) {
                None => r matches Err(ExecutionError::ScriptNotFound(p)) && p@ == path_join(
                    path_join(self.skill_dir@, "scripts"@),
                    script_name@,
                ),
                Some(i) => if !manager_ready {
                    r matches Err(ExecutionError::ConfigError(m)) && m@
                        == "Executor manager not initialized"@
                } else {
                    r matches Ok(run) && run.script == self.scripts@[i] && text_values(run.env@)
                        == script_env(*self).insert(
                        "SCRIPT_NAME"@,
                        script_name@,
                    ).union_prefer_right(text_values(additional_env@))
                },
            },
            r matches Ok(run) ==> is_script_run(
                *self,
                script_name@,
                text_values(additional_env@),
                run,
            ),
    {
        match self.get_script(script_name) {
            None => Err(
                ExecutionError::ScriptNotFound(join_path(self.scripts_dir().as_str(), script_name)),
            ),
            Some(script) => {
                if !manager_ready {
                    return Err(
                        ExecutionError::ConfigError("Executor manager not initialized".to_owned()),
                    );
                }
                let mut env = self.build_script_env();
                set(&mut env, "SCRIPT_NAME", script_name.to_owned());
                let ghost base = text_values(env@);
                let ghost more = additional_env.listed();
                let n: usize = additional_env.len();
                let mut i: usize = 0;
                while i < n
                    invariant
                        n == more.len(),
                        more == additional_env.listed(),
                        i <= n,
                        crate::text_map::distinct_keys(more),
                        forall|k: Seq<char>| #[trigger]
                            text_values(env@).dom().contains(k) <==> base.dom().contains(k) || exists|
                                j: int,
                            |
                                0 <= j < i && #[trigger] more[j].0@ == k,
                        forall|j: int|
                            0 <= j < i ==> text_values(env@).dom().contains(#[trigger] more[j].0@)
                                && text_values(env@)[more[j].0@] == more[j].1@,
                        forall|k: Seq<char>|
                            base.dom().contains(k) && (forall|j: int|
                                0 <= j < i ==> #[trigger] more[j].0@ != k)
                                ==> #[trigger] text_values(env@)[k] == base[k],
                    decreases n - i,
                {
                    let ghost before = text_values(env@);
                    let key = additional_env.key_at(i);
                    let value = additional_env.value_at(i);
                    set(&mut env, key.as_str(), value.clone());
                    let ghost after = text_values(env@);
                    proof {
                        assert(after == before.insert(more[i as int].0@, more[i as int].1@));
                        assert forall|k: Seq<char>| #[trigger]
                            after.dom().contains(k) <==> base.dom().contains(k) || exists|j: int|
                                0 <= j < i + 1 && #[trigger] more[j].0@ == k by {
                            if after.dom().contains(k) {
                                if k == more[i as int].0@ {
                                } else {
                                    assert(before.dom().contains(k));
                                    if !base.dom().contains(k) {
                                        let j = choose|j: int|
                                            0 <= j < i && #[trigger] more[j].0@ == k;
                                        assert(more[j].0@ == k);
                                    }
                                }
                            } else {
                                assert(!before.dom().contains(k));
                                if exists|j: int| 0 <= j < i + 1 && #[trigger] more[j].0@ == k {
                                    let j = choose|j: int|
                                        0 <= j < i + 1 && #[trigger] more[j].0@ == k;
                                    assert(j < i);
                                    assert(more[j].0@ == k);
                                }
                            }
                        }
                        assert forall|j: int| 0 <= j < i + 1 implies after.dom().contains(
                            #[trigger] more[j].0@,
                        ) && after[more[j].0@] == more[j].1@ by {
                            if j < i {
                                assert(more[j].0@ != more[i as int].0@);
                            }
                        }
                        assert forall|k: Seq<char>|
                            base.dom().contains(k) && (forall|j: int|
                                0 <= j < i + 1 ==> #[trigger] more[j].0@ != k) implies #[trigger] after[k]
                            == base[k] by {
                            assert(more[i as int].0@ != k);
                            assert(forall|j: int| 0 <= j < i ==> #[trigger] more[j].0@ != k);
                            assert(before[k] == base[k]);
                        }
                    }
                    i = i + 1;
                }
                proof {
                    let all = base.union_prefer_right(text_values(additional_env@));
                    assert forall|k: Seq<char>| #[trigger]
                        text_values(env@).dom().contains(k) <==> all.dom().contains(k) by {
                        if additional_env@.dom().contains(k) {
                            let j = choose|j: int|
                                0 <= j < more.len() && #[trigger] more[j].0@ == k;
                            assert(more[j].0@ == k);
                        } else if exists|j: int| 0 <= j < n && #[trigger] more[j].0@ == k {
                            let j = choose|j: int| 0 <= j < n && #[trigger] more[j].0@ == k;
                            assert(additional_env@.dom().contains(more[j].0@));
                        }
                    }
                    assert forall|k: Seq<char>| #[trigger]
                        text_values(env@).dom().contains(k) implies text_values(env@)[k] == all[k] by {
                        if additional_env@.dom().contains(k) {
                            let j = choose|j: int|
                                0 <= j < more.len() && #[trigger] more[j].0@ == k;
                            assert(text_values(env@)[more[j].0@] == more[j].1@);
                        } else {
                            assert forall|j: int| 0 <= j < n implies #[trigger] more[j].0@ != k by {
                                assert(additional_env@.dom().contains(more[j].0@));
                            }
                            assert(text_values(env@)[k] == base[k]);
                        }
                    }
                    assert(text_values(env@) =~= all);
                }
                Ok(ScriptRun { script: script.copy(), env })
            },
        }
    }

    /// The names of the scripts.
    pub fn list_scripts(&self) -> (r: Vec<&str>)
        ensures
            slices(r@) == self.scripts@.map_values(|s: ScriptInfo| s.name@),
    {
        let mut r: Vec<&str> = Vec::new();
        let mut i: usize = 0;
        while i < self.scripts.len()
            invariant
                i <= self.scripts@.len(),
                r@.len() == i,
                forall|j: int| 0 <= j < i ==> (#[trigger] r@[j])@ == self.scripts@[j].name@,
            decreases self.scripts@.len() - i,
        {
            r.push(self.scripts[i].name.as_str());
            i = i + 1;
        }
        assert(slices(r@) =~= self.scripts@.map_values(|s: ScriptInfo| s.name@));
        r
    }

    /// Whether a script of this skill can be run: it is there, and its file has an
    /// extension for which an executor is registered. `registered` are those extensions,
    /// `None` where no executors are set up.
    pub fn is_script_supported(&self, script_name: &str, registered: Option<&Vec<String>>) -> (r:
        bool)
        ensures
            r == match (script_at(self.scripts@, script_name@), registered) {
                (Some(k), Some(v)) => match extension_in(self.scripts@[k].path@) {
                    Some(e) => is_listed(v@, e),
                    None => false,
                },
                _ => false,
            },
    {
        match (self.get_script(script_name), registered) {
            (Some(script), Some(v)) => match extension(script.path.as_str()) {
                Some(e) => list_has(v, e.as_str()),
                None => false,
            },
            _ => false,
        }
    }
}

/// What the model is told of a skill at first.
#[derive(Debug, Clone)]
pub struct SkillSummary {
    /// Name.
    pub name: String,
    /// Description.
    pub description: String,
    /// The tools that come with the skill, which are not offered by themselves.
    pub allowed_tools: Vec<String>,
}

impl SkillSummary {
    /// This is the summary of a skill with this front matter.
    pub open spec fn sums_up(self, m: SkillMetadata) -> bool {
        &&& self.name@ == m.name@
        &&& self.description@ == m.description@
        &&& texts(self.allowed_tools@) == m.tools()
    }

    /// The summary of a skill.
    pub fn from_skill(skill: &LoadedSkill) -> (r: SkillSummary)
        ensures
            r.sums_up(skill.metadata),
    {
        SkillSummary::from_metadata(&skill.metadata)
    }

    /// The summary of a skill with this front matter.
    pub fn from_metadata(metadata: &SkillMetadata) -> (r: SkillSummary)
        ensures
            r.sums_up(*metadata),
    {
        SkillSummary {
            name: metadata.name.clone(),
            description: metadata.description.clone(),
            allowed_tools: metadata.get_allowed_tools(),
        }
    }
}

} // verus!
