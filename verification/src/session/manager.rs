//! The sessions that are open, by id.

use crate::error::AcpxError;
use crate::text;
use vstd::prelude::*;
use vstd::string::*;

verus! {

/// The session with an id, if it is open.
pub open spec fn registered(s: Seq<(Seq<char>, u64)>, id: Seq<char>) -> Option<u64>
    decreases s.len(),
{
    if s.len() == 0 {
        None
    } else if s.last().0 == id {
        Some(s.last().1)
    } else {
        registered(s.drop_last(), id)
    }
}

/// The sessions but the one with this id.
pub open spec fn others(s: Seq<(Seq<char>, u64)>, id: Seq<char>) -> Seq<(Seq<char>, u64)>
    decreases s.len(),
{
    if s.len() == 0 {
        Seq::empty()
    } else if s.last().0 == id {
        others(s.drop_last(), id)
    } else {
        others(s.drop_last(), id).push(s.last())
    }
}

/// The sessions with this id.
pub open spec fn only(s: Seq<(Seq<char>, u64)>, id: Seq<char>) -> Seq<(Seq<char>, u64)>
    decreases s.len(),
{
    if s.len() == 0 {
        Seq::empty()
    } else if s.last().0 == id {
        only(s.drop_last(), id).push(s.last())
    } else {
        only(s.drop_last(), id)
    }
}

/// No id occurs twice.
pub open spec fn distinct_ids(s: Seq<(Seq<char>, u64)>) -> bool {
    forall|i: int, j: int| 0 <= i < j < s.len() ==> (#[trigger] s[i]).0 != (#[trigger] s[j]).0
}

/// The open sessions. A session is known by the number of its instance: two
/// sessions that were opened under one id are two instances.
#[derive(Debug)]
pub struct SessionManager {
    sessions: Vec<(String, u64)>,
}

spec fn pairs(v: Seq<(String, u64)>) -> Seq<(Seq<char>, u64)> {
    v.map_values(|e: (String, u64)| (e.0@, e.1))
}

impl View for SessionManager {
    type V = Seq<(Seq<char>, u64)>;

    closed spec fn view(&self) -> Seq<(Seq<char>, u64)> {
        pairs(self.sessions@)
    }
}

/// The instances of a list of sessions.
pub open spec fn instances(s: Seq<(Seq<char>, u64)>) -> Seq<u64> {
    s.map_values(|e: (Seq<char>, u64)| e.1)
}

/// Dropping an id leaves only sessions that were there under another id.
proof fn others_are_others(s: Seq<(Seq<char>, u64)>, id: Seq<char>)
    ensures
        forall|i: int|
            0 <= i < others(s, id).len() ==> (#[trigger] others(s, id)[i]).0 != id && s.contains(
                others(s, id)[i],
            ),
    decreases s.len(),
{
    if s.len() > 0 {
        others_are_others(s.drop_last(), id);
        let o = others(s, id);
        let p = others(s.drop_last(), id);
        assert forall|i: int| 0 <= i < o.len() implies (#[trigger] o[i]).0 != id && s.contains(
            o[i],
        ) by {
            if i < p.len() {
                assert(o[i] == p[i]);
                let k = choose|k: int| 0 <= k < s.drop_last().len() && s.drop_last()[k] == p[i];
                assert(s[k] == o[i]);
            } else {
                assert(o[i] == s[s.len() - 1]);
            }
        }
    }
}

/// Dropping an id keeps the ids distinct.
proof fn others_stay_distinct(s: Seq<(Seq<char>, u64)>, id: Seq<char>)
    requires
        distinct_ids(s),
    ensures
        distinct_ids(others(s, id)),
    decreases s.len(),
{
    if s.len() > 0 {
        let front = s.drop_last();
        others_stay_distinct(front, id);
        others_are_others(front, id);
        let o = others(s, id);
        let p = others(front, id);
        assert forall|i: int, j: int| 0 <= i < j < o.len() implies (#[trigger] o[i]).0 != (
        #[trigger] o[j]).0 by {
            if j < p.len() {
                assert(o[i] == p[i] && o[j] == p[j]);
            } else {
                assert(o[i] == p[i]);
                let k = choose|k: int| 0 <= k < front.len() && front[k] == p[i];
                assert(s[k] == p[i]);
                assert(o[j] == s[s.len() - 1]);
            }
        }
    }
}

impl SessionManager {
    /// No session is open.
    pub fn new() -> (r: SessionManager)
        ensures
            r@ == Seq::<(Seq<char>, u64)>::empty(),
    {
        let r = SessionManager { sessions: Vec::new() };
        assert(r@ =~= Seq::<(Seq<char>, u64)>::empty());
        r
    }

    /// The session with an id, if it is open.
    pub fn maybe_get(&self, session_id: &str) -> (r: Option<u64>)
        ensures
            r == registered(self@, session_id@),
    {
        let mut i: usize = self.sessions.len();
        assert(self@.take(self.sessions@.len() as int) =~= self@);
        while i > 0
            invariant
                i <= self.sessions@.len(),
                self@.len() == self.sessions@.len(),
                registered(self@, session_id@) == registered(self@.take(i as int), session_id@),
            decreases i,
        {
            i -= 1;
            proof {
                assert(self@.take(i + 1).drop_last() =~= self@.take(i as int));
                assert(self@.take(i + 1).last() == self@[i as int]);
            }
            if text::same(self.sessions[i].0.as_str(), session_id) {
                return Some(self.sessions[i].1);
            }
        }
        None
    }

    /// The session with an id; an error when it is not open.
    pub fn get(&self, session_id: &str) -> (r: Result<u64, AcpxError>)
        ensures
            match r {
                Ok(n) => registered(self@, session_id@) == Some(n),
                Err(e) => registered(self@, session_id@) is None && e@
                    == AcpxError::UnknownSession(session_id@),
            },
    {
        match self.maybe_get(session_id) {
            Some(n) => Ok(n),
            None => Err(AcpxError::UnknownSession(session_id.to_owned())),
        }
    }

    /// Parts the sessions with an id from the others.
    fn part(&self, session_id: &str) -> (r: (Vec<(String, u64)>, Vec<(String, u64)>))
        ensures
            pairs(r.0@) == others(self@, session_id@),
            pairs(r.1@) == only(self@, session_id@),
    {
        let mut rest: Vec<(String, u64)> = Vec::new();
        let mut hits: Vec<(String, u64)> = Vec::new();
        let mut i: usize = 0;
        proof {
            assert(pairs(rest@) =~= Seq::<(Seq<char>, u64)>::empty());
            assert(pairs(hits@) =~= Seq::<(Seq<char>, u64)>::empty());
            assert(self@.take(0) =~= Seq::<(Seq<char>, u64)>::empty());
        }
        while i < self.sessions.len()
            invariant
                i <= self.sessions@.len(),
                self@ == pairs(self.sessions@),
                pairs(rest@) == others(self@.take(i as int), session_id@),
                pairs(hits@) == only(self@.take(i as int), session_id@),
            decreases self.sessions.len() - i,
        {
            proof {
                assert(self@.take(i + 1).drop_last() =~= self@.take(i as int));
                assert(self@.take(i + 1).last() == self@[i as int]);
            }
            let ghost r0 = pairs(rest@);
            let ghost h0 = pairs(hits@);
            let e = (self.sessions[i].0.clone(), self.sessions[i].1);
            if text::same(self.sessions[i].0.as_str(), session_id) {
                hits.push(e);
                assert(pairs(hits@) =~= h0.push((e.0@, e.1)));
            } else {
                rest.push(e);
                assert(pairs(rest@) =~= r0.push((e.0@, e.1)));
            }
            i += 1;
        }
        assert(self@.take(i as int) =~= self@);
        (rest, hits)
    }

    /// Registers a session. An instance that had the id before and is another
    /// one is handed out, to be disposed.
    pub fn insert(&mut self, session_id: &str, instance: u64) -> (r: Option<u64>)
        ensures
            final(self)@ == others(old(self)@, session_id@).push((session_id@, instance)),
            r == (match registered(old(self)@, session_id@) {
                Some(n) => if n == instance {
                    None
                } else {
                    Some(n)
                },
                None => None,
            }),
    {
        let before = self.maybe_get(session_id);
        let (mut rest, _hits) = self.part(session_id);
        let ghost kept = pairs(rest@);
        rest.push((session_id.to_owned(), instance));
        assert(pairs(rest@) =~= kept.push((session_id@, instance)));
        self.sessions = rest;
        match before {
            Some(n) => {
                if n == instance {
                    None
                } else {
                    Some(n)
                }
            },
            None => None,
        }
    }

    /// Takes a session out and hands it out, to be disposed; nothing happens
    /// when it is not open.
    pub fn close(&mut self, session_id: &str) -> (r: Option<u64>)
        ensures
            final(self)@ == others(old(self)@, session_id@),
            r == registered(old(self)@, session_id@),
    {
        let instance = self.maybe_get(session_id);
        let (rest, _hits) = self.part(session_id);
        self.sessions = rest;
        instance
    }

    /// Takes all sessions but one out and hands them out, to be disposed.
    pub fn close_all_except(&mut self, keep: &str) -> (r: Vec<u64>)
        ensures
            final(self)@ == only(old(self)@, keep@),
            r@ == instances(others(old(self)@, keep@)),
    {
        let (rest, hits) = self.part(keep);
        self.sessions = hits;
        instance_list(&rest)
    }

    /// Takes all sessions out and hands them out, to be disposed.
    pub fn dispose_all(&mut self) -> (r: Vec<u64>)
        ensures
            final(self)@ == Seq::<(Seq<char>, u64)>::empty(),
            r@ == instances(old(self)@),
    {
        let r = instance_list(&self.sessions);
        self.sessions = Vec::new();
        assert(self@ =~= Seq::<(Seq<char>, u64)>::empty());
        r
    }
}

fn instance_list(v: &Vec<(String, u64)>) -> (r: Vec<u64>)
    ensures
        r@ == instances(pairs(v@)),
{
    let mut out: Vec<u64> = Vec::new();
    let mut i: usize = 0;
    while i < v.len()
        invariant
            i <= v@.len(),
            out@.len() == i,
            forall|k: int| 0 <= k < i ==> #[trigger] out@[k] == v@[k].1,
        decreases v.len() - i,
    {
        out.push(v[i].1);
        i += 1;
    }
    assert(out@ =~= instances(pairs(v@)));
    out
}

impl Default for SessionManager {
    fn default() -> (r: SessionManager)
        ensures
            r@ == Seq::<(Seq<char>, u64)>::empty(),
    {
        SessionManager::new()
    }
}

// ---------------------------------------------------------------------------
// Laws
// ---------------------------------------------------------------------------

/// Registering and closing keep the ids distinct.
pub proof fn ids_stay_distinct(s: Seq<(Seq<char>, u64)>, id: Seq<char>, instance: u64)
    requires
        distinct_ids(s),
    ensures
        distinct_ids(others(s, id)),
        distinct_ids(others(s, id).push((id, instance))),
{
    others_stay_distinct(s, id);
    others_are_others(s, id);
}

/// A session is found under its id once it is registered, and no other one
/// changes.
pub proof fn a_registered_session_is_found(
    s: Seq<(Seq<char>, u64)>,
    id: Seq<char>,
    instance: u64,
    other: Seq<char>,
)
    ensures
        registered(others(s, id).push((id, instance)), id) == Some(instance),
        other != id ==> registered(others(s, id).push((id, instance)), other) == registered(
            s,
            other,
        ),
{
    let r = others(s, id).push((id, instance));
    assert(r.drop_last() =~= others(s, id));
    a_closed_session_is_gone(s, id, other);
}

/// A session is not found once it is closed, and no other one changes.
pub proof fn a_closed_session_is_gone(s: Seq<(Seq<char>, u64)>, id: Seq<char>, other: Seq<char>)
    ensures
        registered(others(s, id), id) is None,
        other != id ==> registered(others(s, id), other) == registered(s, other),
    decreases s.len(),
{
    if s.len() > 0 {
        a_closed_session_is_gone(s.drop_last(), id, other);
        if s.last().0 != id {
            assert(others(s, id).drop_last() =~= others(s.drop_last(), id));
        }
    }
}

/// When all others are closed the kept session stays as it was and no other
/// one is open.
pub proof fn the_kept_session_stays(s: Seq<(Seq<char>, u64)>, keep: Seq<char>, other: Seq<char>)
    ensures
        registered(only(s, keep), keep) == registered(s, keep),
        other != keep ==> registered(only(s, keep), other) is None,
    decreases s.len(),
{
    if s.len() > 0 {
        the_kept_session_stays(s.drop_last(), keep, other);
        if s.last().0 == keep {
            assert(only(s, keep).drop_last() =~= only(s.drop_last(), keep));
        }
    }
}

} // verus!
