//! The state store: the latest state that each identity has reported.

use std::collections::HashMap;
use vstd::prelude::*;
use vstd::std_specs::hash::*;
use vstd::std_specs::iter::IteratorSpec;
use crate::identity::UserId;
use crate::message::RemoteState;

verus! {

broadcast use vstd::std_specs::hash::group_hash_axioms;

/// Whether `snapshot` lists exactly the states held in `states`, each once,
/// in some order, and each is held under the identity it names.
pub open spec fn lists(snapshot: Seq<RemoteState>, states: Map<UserId, RemoteState>) -> bool {
    &&& forall|i: int, j: int|
        0 <= i < j < snapshot.len() ==> (#[trigger] snapshot[i]).id != (#[trigger] snapshot[j]).id
    &&& forall|i: int|
        0 <= i < snapshot.len() ==> states.contains_key((#[trigger] snapshot[i]).id)
            && states[snapshot[i].id] == snapshot[i]
    &&& forall|id: UserId| #[trigger]
        states.contains_key(id) ==> states[id].id == id && snapshot.contains(states[id])
}

/// A listing is as long as the store is large; in particular the listing of an
/// empty store is empty, and no other is.
pub proof fn lemma_listing_length(snapshot: Seq<RemoteState>, states: Map<UserId, RemoteState>)
    requires
        lists(snapshot, states),
    ensures
        states.dom().finite(),
        snapshot.len() == states.len(),
{
    let ids = snapshot.map_values(|state: RemoteState| state.id);
    assert(ids.no_duplicates());
    assert(ids.to_set() =~= states.dom()) by {
        assert forall|id: UserId| states.dom().contains(id) implies ids.to_set().contains(id) by {
            let i = choose|i: int| 0 <= i < snapshot.len() && snapshot[i] == states[id];
            assert(ids[i] == id);
        }
    }
    ids.unique_seq_to_set();
    vstd::seq_lib::seq_to_set_is_finite(ids);
}

/// Holds, for each identity that has reported since it connected, the state
/// it reported last. No history is kept.
pub struct StateStore {
    states: HashMap<usize, RemoteState>,
}

impl View for StateStore {
    type V = Map<UserId, RemoteState>;

    closed spec fn view(&self) -> Map<UserId, RemoteState> {
        Map::new(
            |id: UserId| self.states@.contains_key(id@) && self.states@[id@].id == id,
            |id: UserId| self.states@[id@],
        )
    }
}

impl StateStore {
    /// Every state is filed under the identity it names.
    #[verifier::type_invariant]
    spec fn filed_by_identity(self) -> bool {
        forall|key: usize| #[trigger]
            self.states@.contains_key(key) ==> self.states@[key].id == UserId(key)
    }

    /// A store that holds nothing.
    pub fn new() -> (store: Self)
        ensures
            store@ == Map::<UserId, RemoteState>::empty(),
    {
        let store = StateStore { states: HashMap::new() };
        assert(store@ =~= Map::<UserId, RemoteState>::empty());
        store
    }

    /// Files `state` under the identity it names, in place of what that
    /// identity reported before.
    pub fn insert(&mut self, state: RemoteState)
        ensures
            final(self)@ == old(self)@.insert(state.id, state),
    {
        proof {
            use_type_invariant(&*self);
        }
        let mut states = HashMap::new();
        std::mem::swap(&mut states, &mut self.states);
        states.insert(state.id.0, state);
        self.states = states;
        assert(self@ =~= old(self)@.insert(state.id, state));
    }

    /// Takes out what `id` reported last, if anything; an identity that is
    /// not in the store leaves it unchanged.
    pub fn remove(&mut self, id: UserId) -> (removed: Option<RemoteState>)
        ensures
            final(self)@ == old(self)@.remove(id),
            removed == if old(self)@.contains_key(id) {
                Some(old(self)@[id])
            } else {
                None
            },
    {
        proof {
            use_type_invariant(&*self);
        }
        let mut states = HashMap::new();
        std::mem::swap(&mut states, &mut self.states);
        let removed = states.remove(&id.0);
        self.states = states;
        assert(self@ =~= old(self)@.remove(id));
        removed
    }

    /// What `id` reported last, if anything.
    pub fn get(&self, id: UserId) -> (found: Option<RemoteState>)
        ensures
            found == if self@.contains_key(id) {
                Some(self@[id])
            } else {
                None
            },
    {
        proof {
            use_type_invariant(self);
        }
        match self.states.get(&id.0) {
            Some(state) => Some(*state),
            None => None,
        }
    }

    /// Whether no identity has a state on file.
    pub fn is_empty(&self) -> (empty: bool)
        ensures
            empty == (self@ == Map::<UserId, RemoteState>::empty()),
    {
        proof {
            use_type_invariant(self);
        }
        let empty = self.states.is_empty();
        proof {
            if empty {
                assert(self@ =~= Map::<UserId, RemoteState>::empty());
            } else {
                let key = choose|key: usize| self.states@.contains_key(key);
                assert(self.states@.contains_key(key));
                assert(self@.contains_key(UserId(key)));
            }
        }
        empty
    }

    /// A copy of every state on file, in no particular order.
    pub fn snapshot(&self) -> (snapshot: Vec<RemoteState>)
        ensures
            lists(snapshot@, self@),
    {
        proof {
            use_type_invariant(self);
        }
        let ghost entries = spec_hash_map_iter(&self.states).remaining();
        let mut snapshot: Vec<RemoteState> = Vec::new();
        for entry in it: self.states.iter()
            invariant
                it.seq() == entries,
                snapshot@.len() == it.index(),
                forall|i: int| 0 <= i < snapshot@.len() ==> snapshot@[i] == *entries[i].1,
        {
            snapshot.push(*entry.1);
        }
        proof {
            assert forall|i: int, j: int| 0 <= i < j < snapshot@.len() implies (
            #[trigger] snapshot@[i]).id != (#[trigger] snapshot@[j]).id by {
                assert(self.states@.contains_key(*entries[i].0));
                assert(self.states@.contains_key(*entries[j].0));
                assert(entries[i] != entries[j]);
            }
            assert forall|i: int| 0 <= i < snapshot@.len() implies self@.contains_key(
                (#[trigger] snapshot@[i]).id,
            ) && self@[snapshot@[i].id] == snapshot@[i] by {
                assert(self.states@.contains_key(*entries[i].0));
            }
            assert forall|id: UserId| #[trigger] self@.contains_key(id) implies snapshot@.contains(
                self@[id],
            ) by {
                let key = id@;
                assert(self.states@.contains_key(key));
                assert(entries.contains((&key, &self.states@[key])));
                let i = choose|i: int| 0 <= i < entries.len() && entries[i] == (&key, &self.states@[key]);
                assert(snapshot@[i] == self@[id]);
            }
        }
        snapshot
    }
}

} // verus!
