//! Blocks held alive by search sessions.

use crate::common::SessionId;
use crate::engine::matches::MatchedBlock;
use crate::table::SessionTable;
use vstd::prelude::*;

verus! {

/// The blocks that one session holds.
#[derive(Debug)]
pub struct SessionState {
    pub session_id: SessionId,
    pub matched_g2_blocks: Vec<MatchedBlock>,
    pub matched_g3_blocks: Vec<MatchedBlock>,
}

/// The states of all sessions that hold blocks. The table gives a session's
/// place in the list; places of released sessions are used again.
pub struct HeldSessions {
    places: SessionTable,
    states: Vec<Option<SessionState>>,
    free: Vec<usize>,
}

impl View for HeldSessions {
    type V = Map<SessionId, SessionState>;

    closed spec fn view(&self) -> Map<SessionId, SessionState> {
        Map::new(
            |id: SessionId| self.places@.contains_key(id),
            |id: SessionId| self.states@[self.places@[id] as int]->0,
        )
    }
}

impl HeldSessions {
    /// Every place in the table holds the state of its session.
    pub closed spec fn wf(self) -> bool {
        forall|id: SessionId| #[trigger]
            self.places@.contains_key(id) ==> {
                &&& self.places@[id] < self.states@.len()
                &&& self.states@[self.places@[id] as int] is Some
                &&& self.states@[self.places@[id] as int]->0.session_id == id
            }
    }

    /// No session holds anything.
    pub fn new() -> (held: Self)
        ensures
            held.wf(),
            held@ == Map::<SessionId, SessionState>::empty(),
    {
        let held = HeldSessions { places: SessionTable::new(), states: Vec::new(), free: Vec::new() };
        assert(held@ =~= Map::<SessionId, SessionState>::empty());
        held
    }

    /// Whether the session holds blocks.
    pub fn contains(&self, session_id: SessionId) -> (found: bool)
        ensures
            found == self@.contains_key(session_id),
    {
        self.places.get(session_id).is_some()
    }

    /// Holds a session's blocks, replacing what it held before.
    pub fn store(&mut self, state: SessionState)
        requires
            old(self).wf(),
        ensures
            final(self).wf(),
            final(self)@ == old(self)@.insert(state.session_id, state),
    {
        let session_id: SessionId = state.session_id;
        let _replaced = self.take(session_id);
        let ghost before = *self;
        assert(!before@.contains_key(session_id));
        let reused: Option<usize> = match self.free.pop() {
            Some(place) => {
                if place < self.states.len() && self.states[place].is_none() {
                    Some(place)
                } else {
                    None
                }
            },
            None => None,
        };
        let place: usize = match reused {
            Some(place) => {
                self.states.set(place, Some(state));
                place
            },
            None => {
                self.states.push(Some(state));
                self.states.len() - 1
            },
        };
        self.places.insert(session_id, place);
        proof {
            assert forall|id: SessionId| #[trigger] self.places@.contains_key(id) implies {
                &&& self.places@[id] < self.states@.len()
                &&& self.states@[self.places@[id] as int] is Some
                &&& self.states@[self.places@[id] as int]->0.session_id == id
            } by {
                if id != session_id {
                    assert(before.places@.contains_key(id));
                }
            }
            let expected = old(self)@.insert(session_id, state);
            assert forall|id: SessionId| #[trigger]
                self@.contains_key(id) implies expected.contains_key(id) && self@[id]
                == expected[id] by {
                if id != session_id {
                    assert(before.places@.contains_key(id));
                    assert(before@.contains_key(id));
                    assert(self@[id] == before@[id]);
                } else {
                    assert(self.states@[place as int] == Some(state));
                }
            }
            assert forall|id: SessionId| #[trigger]
                expected.contains_key(id) implies self@.contains_key(id) by {
                if id != session_id {
                    assert(before@.contains_key(id));
                }
            }
            assert(self@ =~= old(self)@.insert(session_id, state));
        }
    }

    /// Releases a session's blocks to the caller.
    pub fn take(&mut self, session_id: SessionId) -> (state: Option<SessionState>)
        requires
            old(self).wf(),
        ensures
            final(self).wf(),
            final(self)@ == old(self)@.remove(session_id),
            state == (if old(self)@.contains_key(session_id) {
                Some(old(self)@[session_id])
            } else {
                None
            }),
    {
        match self.places.remove(session_id) {
            Some(place) => {
                assert(old(self).places@.contains_key(session_id));
                let mut state: Option<SessionState> = None;
                std::mem::swap(&mut self.states[place], &mut state);
                self.free.push(place);
                proof {
                    assert forall|id: SessionId| #[trigger] self.places@.contains_key(id) implies {
                        &&& self.places@[id] < self.states@.len()
                        &&& self.states@[self.places@[id] as int] is Some
                        &&& self.states@[self.places@[id] as int]->0.session_id == id
                    } by {
                        assert(old(self).places@.contains_key(id));
                    }
                    assert forall|id: SessionId| #[trigger]
                        self.places@.contains_key(id) implies self@[id] == old(self)@[id] by {
                        assert(old(self).places@.contains_key(id));
                    }
                    assert(self@ =~= old(self)@.remove(session_id));
                }
                state
            },
            None => {
                assert(self@ =~= old(self)@.remove(session_id));
                None
            },
        }
    }
}

} // verus!
