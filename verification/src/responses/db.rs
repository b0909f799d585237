//! Finding sessions among those that are stored.

use super::models::{Session, SessionMessage};
use crate::text::same_text;
use vstd::prelude::*;
use vstd::string::*;

verus! {

/// A message of the session is the one that the reply `id` gave.
pub open spec fn holds_reply(s: Session, id: Seq<char>) -> bool {
    exists|k: Seq<char>| #[trigger]
        s.messages@.dom().contains(k) && (s.messages@[k].response_id matches Some(t) && t@ == id)
}

impl Session {
    /// Whether a message of the session is the one that the reply `id` gave.
    pub fn has_response_id(&self, id: &str) -> (r: bool)
        ensures
            r == holds_reply(*self, id@),
    {
        let ghost all = self.messages.listed();
        let n: usize = self.messages.len();
        let ghost m = self.messages@;
        let mut i: usize = 0;
        while i < n
            invariant
                i <= n,
                n == all.len(),
                all == self.messages.listed(),
                m == self.messages@,
                forall|j: int|
                    0 <= j < all.len() ==> m.dom().contains(#[trigger] all[j].0@) && m[all[j].0@]
                        == all[j].1,
                forall|j: int|
                    0 <= j < i ==> !((#[trigger] all[j]).1.response_id matches Some(t) && t@ == id@),
            decreases n - i,
        {
            if let Some(t) = &self.messages.value_at(i).response_id {
                if same_text(t.as_str(), id) {
                    assert(m.dom().contains(all[i as int].0@));
                    return true;
                }
            }
            i = i + 1;
        }
        proof {
            assert forall|k: Seq<char>| #[trigger] m.dom().contains(k) implies !(
            m[k].response_id matches Some(t) && t@ == id@) by {
                let j = choose|j: int| 0 <= j < all.len() && #[trigger] all[j].0@ == k;
                assert(m[all[j].0@] == all[j].1);
            }
        }
        false
    }
}

/// The position of the first session that the reply `id` belongs to.
pub open spec fn session_of(s: Seq<Session>, id: Seq<char>) -> Option<int>
    decreases s.len(),
{
    if s.len() == 0 {
        None
    } else if session_of(s.drop_last(), id) is Some {
        session_of(s.drop_last(), id)
    } else if holds_reply(s.last(), id) {
        Some(s.len() - 1)
    } else {
        None
    }
}

/// The position of the first session that the reply `id` belongs to.
pub fn find_session_by_response_id(sessions: &Vec<Session>, id: &str) -> (r: Option<usize>)
    ensures
        match r {
            Some(i) => session_of(sessions@, id@) == Some(i as int) && i < sessions@.len(),
            None => session_of(sessions@, id@) is None,
        },
{
    let mut i: usize = 0;
    while i < sessions.len()
        invariant
            i <= sessions@.len(),
            session_of(sessions@.take(i as int), id@) is None,
        decreases sessions@.len() - i,
    {
        assert(sessions@.take(i + 1).drop_last() =~= sessions@.take(i as int));
        assert(sessions@.take(i + 1).last() == sessions@[i as int]);
        if sessions[i].has_response_id(id) {
            proof {
                lemma_session_stays(sessions@, id@, i + 1);
            }
            return Some(i);
        }
        i = i + 1;
    }
    assert(sessions@.take(sessions@.len() as int) =~= sessions@);
    None
}

proof fn lemma_session_stays(s: Seq<Session>, id: Seq<char>, n: int)
    requires
        0 <= n <= s.len(),
        session_of(s.take(n), id) is Some,
    ensures
        session_of(s, id) == session_of(s.take(n), id),
    decreases s.len() - n,
{
    if n == s.len() {
        assert(s.take(n) =~= s);
    } else {
        assert(s.take(n + 1).drop_last() =~= s.take(n));
        lemma_session_stays(s, id, n + 1);
    }
}

// ---------------------------------------------------------------------------
// Laws
// ---------------------------------------------------------------------------

/// A reply finds the session that it was added to: a message added with a reply's
/// identifier makes the session hold that reply, and it keeps the replies that it held
/// before.
pub proof fn law_added_reply_found(before: Session, after: Session, key: Seq<char>, m: SessionMessage, id: Seq<char>)
    requires
        !before.messages@.dom().contains(key),
        after.messages@ == before.messages@.insert(key, m),
    ensures
        (m.response_id matches Some(t) && t@ == id) ==> holds_reply(after, id),
        holds_reply(before, id) ==> holds_reply(after, id),
{
    if m.response_id matches Some(t) && t@ == id {
        assert(after.messages@.dom().contains(key));
    }
    if holds_reply(before, id) {
        let k = choose|k: Seq<char>| #[trigger]
            before.messages@.dom().contains(k) && (before.messages@[k].response_id matches Some(t)
                && t@ == id);
        assert(after.messages@.dom().contains(k));
    }
}

} // verus!
