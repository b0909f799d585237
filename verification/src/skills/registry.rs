//! The skills that are loaded.

use super::error::SkillError;
use super::types::{LoadedSkill, SkillSummary};
use crate::paths::{join_path, path_join};
use crate::text::texts;
use crate::text_map::TextMap;
use vstd::prelude::*;
use vstd::string::*;

verus! {

/// The skills that are loaded, by their names.
#[derive(Debug)]
pub struct SkillRegistry {
    /// The skills.
    pub skills: TextMap<LoadedSkill>,
    /// The directory that they are loaded from.
    pub skills_dir: String,
}

/// The skills `m` with those that could be read from a list, later ones in place of
/// earlier ones of the same name.
pub open spec fn loaded(m: Map<Seq<char>, LoadedSkill>, found: Seq<Result<LoadedSkill, SkillError>>) -> Map<
    Seq<char>,
    LoadedSkill,
>
    decreases found.len(),
{
    if found.len() == 0 {
        m
    } else {
        let before = loaded(m, found.drop_last());
        match found.last() {
            Ok(s) => before.insert(s.metadata.name@, s),
            Err(_) => before,
        }
    }
}

/// How many of a list could be read.
pub open spec fn readable(found: Seq<Result<LoadedSkill, SkillError>>) -> nat
    decreases found.len(),
{
    if found.len() == 0 {
        0
    } else if found.last() is Ok {
        readable(found.drop_last()) + 1
    } else {
        readable(found.drop_last())
    }
}

/// The skills that are offered, in order.
pub open spec fn offered(s: Seq<(String, LoadedSkill)>) -> Seq<LoadedSkill>
    decreases s.len(),
{
    if s.len() == 0 {
        Seq::empty()
    } else if s.last().1.enabled {
        offered(s.drop_last()).push(s.last().1)
    } else {
        offered(s.drop_last())
    }
}

/// `r` are the summaries of `s`.
pub open spec fn are_summaries(s: Seq<LoadedSkill>, r: Seq<SkillSummary>) -> bool {
    &&& r.len() == s.len()
    &&& forall|i: int| 0 <= i < s.len() ==> (#[trigger] r[i]).sums_up(s[i].metadata)
}

/// Every skill stands under its own name.
pub open spec fn own_names(m: Map<Seq<char>, LoadedSkill>) -> bool {
    forall|k: Seq<char>| #[trigger] m.dom().contains(k) ==> m[k].metadata.name@ == k
}

/// One of the summaries is that of a skill with the name `n`.
pub open spec fn tells_of(r: Seq<SkillSummary>, n: Seq<char>) -> bool {
    exists|i: int| 0 <= i < r.len() && (#[trigger] r[i]).name@ == n
}

/// The summaries tell of a name if and only if it is that of a skill that is enabled.
pub open spec fn tells_enabled(m: Map<Seq<char>, LoadedSkill>, r: Seq<SkillSummary>) -> bool {
    forall|n: Seq<char>| #[trigger]
        tells_of(r, n) <==> m.dom().contains(n) && m[n].enabled
}

impl SkillRegistry {
    /// A registry without skills.
    pub fn new(skills_dir: String) -> (r: SkillRegistry)
        ensures
            r.skills@ == Map::<Seq<char>, LoadedSkill>::empty(),
            r.skills_dir == skills_dir,
            own_names(r.skills@),
    {
        SkillRegistry { skills: TextMap::new(), skills_dir }
    }

    /// Takes in the skills that were found in the directory, and says how many could be
    /// read. Those that could not are left out.
    pub fn load_all(&mut self, found: Vec<Result<LoadedSkill, SkillError>>) -> (r: usize)
        ensures
            final(self).skills@ == loaded(old(self).skills@, found@),
            final(self).skills_dir == old(self).skills_dir,
            r == readable(found@),
            own_names(old(self).skills@) ==> own_names(final(self).skills@),
    {
        let ghost all = found@;
        let ghost before = self.skills@;
        let mut rest = found;
        let n: usize = rest.len();
        let mut backwards: Vec<Result<LoadedSkill, SkillError>> = Vec::new();
        let mut k: usize = n;
        while k > 0
            invariant
                k <= n,
                n == all.len(),
                rest@ == all.take(k as int),
                backwards@.len() == n - k,
                forall|j: int| 0 <= j < n - k ==> #[trigger] backwards@[j] == all[n - 1 - j],
            decreases k,
        {
            if let Some(x) = rest.pop() {
                backwards.push(x);
            }
            k = k - 1;
            assert(rest@ =~= all.take(k as int));
        }
        let mut count: usize = 0;
        let mut i: usize = 0;
        assert(loaded(before, all.take(0)) == before);
        while i < n
            invariant
                i <= n,
                n == all.len(),
                backwards@.len() == n - i,
                forall|j: int|
                    0 <= j < n - i ==> #[trigger] backwards@[j] == all[n - 1 - j],
                self.skills@ == loaded(before, all.take(i as int)),
                self.skills_dir == old(self).skills_dir,
                count == readable(all.take(i as int)),
                count <= i,
            decreases n - i,
        {
            assert(backwards@[n - i - 1] == all[i as int]);
            assert(all.take(i + 1).drop_last() =~= all.take(i as int));
            assert(all.take(i + 1).last() == all[i as int]);
            if let Some(x) = backwards.pop() {
                if let Ok(skill) = x {
                    self.skills.insert(skill.metadata.name.clone(), skill);
                    count = count + 1;
                }
            }
            i = i + 1;
        }
        assert(all.take(n as int) =~= all);
        proof {
            if own_names(before) {
                law_loaded_under_own_name(before, all);
            }
        }
        count
    }

    /// The skill with this name.
    pub fn get(&self, name: &str) -> (r: Option<&LoadedSkill>)
        ensures
            match r {
                Some(s) => self.skills@.dom().contains(name@) && *s == self.skills@[name@],
                None => !self.skills@.dom().contains(name@),
            },
    {
        self.skills.get(name)
    }

    /// Whether there is a skill with this name.
    pub fn contains(&self, name: &str) -> (r: bool)
        ensures
            r == self.skills@.dom().contains(name@),
    {
        self.skills.contains_key(name)
    }

    /// The summaries of the skills that are offered.
    pub fn get_summaries(&self) -> (r: Vec<SkillSummary>)
        ensures
            are_summaries(offered(self.skills.listed()), r@),
            own_names(self.skills@) ==> tells_enabled(self.skills@, r@),
    {
        let ghost all = self.skills.listed();
        let n: usize = self.skills.len();
        let mut r: Vec<SkillSummary> = Vec::new();
        let mut i: usize = 0;
        while i < n
            invariant
                i <= n,
                n == all.len(),
                all == self.skills.listed(),
                are_summaries(offered(all.take(i as int)), r@),
            decreases n - i,
        {
            assert(all.take(i + 1).drop_last() =~= all.take(i as int));
            assert(all.take(i + 1).last() == all[i as int]);
            let skill = self.skills.value_at(i);
            if skill.enabled {
                r.push(SkillSummary::from_skill(skill));
            }
            i = i + 1;
        }
        assert(all.take(n as int) =~= all);
        proof {
            law_only_enabled_offered(all);
            if own_names(self.skills@) {
                assert forall|k: Seq<char>| #[trigger]
                    tells_of(r@, k) <==> self.skills@.dom().contains(k)
                        && self.skills@[k].enabled by {
                    let o = offered(all);
                    if tells_of(r@, k) {
                        let a = choose|a: int| 0 <= a < r@.len() && (#[trigger] r@[a]).name@ == k;
                        assert(r@[a].sums_up(o[a].metadata));
                        let j = choose|j: int| 0 <= j < all.len() && (#[trigger] all[j]).1 == o[a];
                        assert(self.skills@.dom().contains(all[j].0@));
                    }
                    if self.skills@.dom().contains(k) && self.skills@[k].enabled {
                        let j = choose|j: int| 0 <= j < all.len() && #[trigger] all[j].0@ == k;
                        assert(all[j].1.enabled);
                        let a = choose|a: int| 0 <= a < o.len() && o[a] == all[j].1;
                        assert(r@[a].sums_up(o[a].metadata));
                    }
                }
            }
        }
        r
    }

    /// The names of the skills.
    pub fn list_names(&self) -> (r: Vec<String>)
        ensures
            texts(r@) == self.skills.listed().map_values(|e: (String, LoadedSkill)| e.0@),
            forall|k: Seq<char>| #[trigger]
                self.skills@.dom().contains(k) <==> crate::text::is_listed(r@, k),
    {
        let ghost all = self.skills.listed();
        let n: usize = self.skills.len();
        let mut r: Vec<String> = Vec::new();
        let mut i: usize = 0;
        while i < n
            invariant
                i <= n,
                n == all.len(),
                all == self.skills.listed(),
                r@.len() == i,
                forall|j: int| 0 <= j < i ==> (#[trigger] r@[j])@ == all[j].0@,
            decreases n - i,
        {
            r.push(self.skills.key_at(i).clone());
            i = i + 1;
        }
        assert(texts(r@) =~= all.map_values(|e: (String, LoadedSkill)| e.0@));
        assert forall|k: Seq<char>| #[trigger]
            self.skills@.dom().contains(k) <==> crate::text::is_listed(r@, k) by {
            if self.skills@.dom().contains(k) {
                let j = choose|j: int| 0 <= j < all.len() && #[trigger] all[j].0@ == k;
                assert(r@[j]@ == k);
            }
            if crate::text::is_listed(r@, k) {
                let j = choose|j: int| 0 <= j < r@.len() && (#[trigger] r@[j])@ == k;
                assert(all[j].0@ == k);
            }
        }
        r
    }

    /// The number of skills.
    pub fn count(&self) -> (r: usize)
        ensures
            r == self.skills@.dom().len(),
    {
        self.skills.len()
    }

    /// Says whether a skill is offered.
    pub fn set_enabled(&mut self, name: &str, enabled: bool) -> (r: Result<(), SkillError>)
        ensures
            final(self).skills_dir == old(self).skills_dir,
            r is Ok <==> old(self).skills@.dom().contains(name@),
            match r {
                Ok(_) => final(self).skills@ == old(self).skills@.insert(
                    name@,
                    LoadedSkill { enabled, ..old(self).skills@[name@] },
                ),
                Err(e) => (e matches SkillError::NotFound(n) && n@ == name@)
                    && final(self).skills@ == old(self).skills@,
            },
            own_names(old(self).skills@) ==> own_names(final(self).skills@),
    {
        match self.skills.remove(name) {
            Some(s) => {
                let mut skill = s;
                skill.enabled = enabled;
                self.skills.insert(name.to_owned(), skill);
                assert(self.skills@ =~= old(self).skills@.insert(
                    name@,
                    LoadedSkill { enabled, ..old(self).skills@[name@] },
                ));
                Ok(())
            },
            None => {
                assert(self.skills@ =~= old(self).skills@);
                Err(SkillError::NotFound(name.to_owned()))
            },
        }
    }

    /// Where a skill is loaded from.
    pub fn skill_path(&self, name: &str) -> (r: String)
        ensures
            r@ == path_join(self.skills_dir@, name@),
    {
        join_path(self.skills_dir.as_str(), name)
    }

    /// Takes in a skill that was read again; `None` where its directory is gone.
    pub fn reload(&mut self, name: &str, found: Option<Result<LoadedSkill, SkillError>>) -> (r: Result<
        (),
        SkillError,
    >)
        ensures
            final(self).skills_dir == old(self).skills_dir,
            match found {
                None => (r matches Err(SkillError::NotFound(n)) && n@ == name@)
                    && final(self).skills@ == old(self).skills@,
                Some(Err(e)) => r == Err::<(), SkillError>(e) && final(self).skills@ == old(
                    self,
                ).skills@,
                Some(Ok(s)) => r is Ok && final(self).skills@ == old(self).skills@.insert(name@, s),
            },
            own_names(old(self).skills@) && (found matches Some(Ok(s)) ==> s.metadata.name@
                == name@) ==> own_names(final(self).skills@),
    {
        match found {
            None => Err(SkillError::NotFound(name.to_owned())),
            Some(Err(e)) => Err(e),
            Some(Ok(skill)) => {
                self.skills.insert(name.to_owned(), skill);
                Ok(())
            },
        }
    }

    /// Takes in the skills that were found in the directory in place of all that there were.
    pub fn reload_all(&mut self, found: Vec<Result<LoadedSkill, SkillError>>) -> (r: usize)
        ensures
            final(self).skills@ == loaded(Map::empty(), found@),
            final(self).skills_dir == old(self).skills_dir,
            r == readable(found@),
            own_names(final(self).skills@),
    {
        self.skills = TextMap::new();
        self.load_all(found)
    }
}

// ---------------------------------------------------------------------------
// Laws
// ---------------------------------------------------------------------------

/// The skills that are offered are those of the list that are enabled: no other, and all
/// of them.
pub proof fn law_only_enabled_offered(s: Seq<(String, LoadedSkill)>)
    ensures
        offered(s).len() <= s.len(),
        forall|i: int|
            0 <= i < offered(s).len() ==> (#[trigger] offered(s)[i]).enabled && exists|j: int|
                0 <= j < s.len() && (#[trigger] s[j]).1 == offered(s)[i],
        forall|i: int|
            0 <= i < s.len() && (#[trigger] s[i]).1.enabled ==> offered(s).contains(s[i].1),
    decreases s.len(),
{
    if s.len() > 0 {
        let t = s.drop_last();
        let before = offered(t);
        law_only_enabled_offered(t);
        assert forall|i: int| 0 <= i < offered(s).len() implies (#[trigger] offered(s)[i]).enabled
            && exists|j: int| 0 <= j < s.len() && (#[trigger] s[j]).1 == offered(s)[i] by {
            if i < before.len() {
                assert(before[i].enabled);
                let j = choose|j: int| 0 <= j < t.len() && (#[trigger] t[j]).1 == before[i];
                assert(s[j].1 == offered(s)[i]);
            } else {
                assert(s[s.len() - 1].1 == offered(s)[i]);
            }
        }
        assert forall|i: int| 0 <= i < s.len() && (#[trigger] s[i]).1.enabled implies offered(
            s,
        ).contains(s[i].1) by {
            if i < s.len() - 1 {
                assert(t[i] == s[i]);
                let k = choose|k: int| 0 <= k < before.len() && before[k] == s[i].1;
                assert(offered(s)[k] == s[i].1);
            } else {
                assert(offered(s)[before.len() as int] == s[i].1);
            }
        }
    }
}

/// After a skill is switched on or off, it is what it was but for that, every other skill
/// is as it was, each still stands under its own name, and the summaries `r` of the
/// registry tell of the skill if and only if it was switched on.
pub proof fn law_switched_skill_shows(
    before: Map<Seq<char>, LoadedSkill>,
    name: Seq<char>,
    enabled: bool,
    after: Map<Seq<char>, LoadedSkill>,
    r: Seq<SkillSummary>,
)
    requires
        own_names(before),
        before.dom().contains(name),
        after == before.insert(name, LoadedSkill { enabled, ..before[name] }),
        own_names(after) ==> tells_enabled(after, r),
    ensures
        own_names(after),
        after.dom() == before.dom(),
        after[name] == (LoadedSkill { enabled, ..before[name] }),
        forall|k: Seq<char>| k != name ==> #[trigger] after[k] == before[k],
        tells_of(r, name) <==> enabled,
        forall|k: Seq<char>|
            k != name ==> (#[trigger] tells_of(r, k) <==> before.dom().contains(k)
                && before[k].enabled),
{
    assert(after.dom() =~= before.dom());
    assert(own_names(after));
}

/// Switching a skill off and on again brings it back as it was.
pub proof fn law_enable_round_trip(m: Map<Seq<char>, LoadedSkill>, name: Seq<char>)
    requires
        m.dom().contains(name),
        m[name].enabled,
    ensures
        ({
            let off = m.insert(name, LoadedSkill { enabled: false, ..m[name] });
            off.insert(name, LoadedSkill { enabled: true, ..off[name] }) == m
        }),
{
    let off = m.insert(name, LoadedSkill { enabled: false, ..m[name] });
    assert(off.insert(name, LoadedSkill { enabled: true, ..off[name] }) =~= m);
}

/// Where every skill stands under its own name, it is so too after more are loaded.
pub proof fn law_loaded_under_own_name(
    m: Map<Seq<char>, LoadedSkill>,
    found: Seq<Result<LoadedSkill, SkillError>>,
)
    requires
        own_names(m),
    ensures
        own_names(loaded(m, found)),
    decreases found.len(),
{
    if found.len() > 0 {
        law_loaded_under_own_name(m, found.drop_last());
    }
}

} // verus!
