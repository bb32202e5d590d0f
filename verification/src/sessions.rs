//! Worker process sessions that were replaced and may not return.

use vstd::hash_set::StringHashSet;
use vstd::prelude::*;

use crate::ids::IdMap;

verus! {

/// The retired sessions of every worker id.
pub struct RetiredSessions {
    by_worker: IdMap<StringHashSet>,
}

impl View for RetiredSessions {
    type V = Set<(u32, Seq<char>)>;

    /// The retired sessions as pairs of worker id and session.
    closed spec fn view(&self) -> Set<(u32, Seq<char>)> {
        Set::new(
            |p: (u32, Seq<char>)|
                self.by_worker@.contains_key(p.0) && self.by_worker@[p.0].contains(p.1),
        )
    }
}

impl RetiredSessions {
    pub fn new() -> (r: Self)
        ensures
            r@ == Set::<(u32, Seq<char>)>::empty(),
    {
        let r = RetiredSessions { by_worker: IdMap::new() };
        assert(r@ =~= Set::<(u32, Seq<char>)>::empty());
        r
    }

    pub fn contains(&self, worker_id: u32, session: &str) -> (r: bool)
        ensures
            r == self@.contains((worker_id, session@)),
    {
        match self.by_worker.get(worker_id) {
            Some(sessions) => sessions.contains(session),
            None => false,
        }
    }

    /// Retires a session. An empty session is kept usable: workers that send
    /// none cannot be told apart from their successors.
    pub fn retire(&mut self, worker_id: u32, session: &str)
        ensures
            final(self)@ == (if session@.len() == 0 {
                old(self)@
            } else {
                old(self)@.insert((worker_id, session@))
            }),
    {
        if session.is_empty() {
            return;
        }
        let mut sessions: StringHashSet = match self.by_worker.remove(worker_id) {
            Some(sessions) => sessions,
            None => StringHashSet::new(),
        };
        sessions.insert(session.to_owned());
        self.by_worker.insert(worker_id, sessions);
        assert(self@ =~= old(self)@.insert((worker_id, session@)));
    }
}

} // verus!
