//! The connection registry: who is connected, and how to reach them.

use std::collections::HashMap;
use vstd::prelude::*;
use vstd::std_specs::hash::*;
use vstd::std_specs::iter::IteratorSpec;
use crate::identity::UserId;

verus! {

broadcast use vstd::std_specs::hash::group_hash_axioms;

/// Whether `ids` names exactly the identities in `connected`, each once, in
/// some order.
pub open spec fn enumerates(ids: Seq<UserId>, connected: Set<UserId>) -> bool {
    &&& ids.no_duplicates()
    &&& forall|id: UserId| ids.contains(id) <==> connected.contains(id)
}

/// Maps the identity of each connected peer to the handle of its outbound
/// queue. The registry never looks inside a handle.
pub struct Registry<H> {
    handles: HashMap<usize, H>,
}

impl<H> View for Registry<H> {
    type V = Map<UserId, H>;

    closed spec fn view(&self) -> Map<UserId, H> {
        Map::new(|id: UserId| self.handles@.contains_key(id@), |id: UserId| self.handles@[id@])
    }
}

impl<H> Registry<H> {
    /// A registry without entries.
    pub fn new() -> (registry: Self)
        ensures
            registry@ == Map::<UserId, H>::empty(),
    {
        let registry = Registry { handles: HashMap::new() };
        assert(registry@ =~= Map::<UserId, H>::empty());
        registry
    }

    /// Enters `handle` under `id` and returns the handle that it replaces,
    /// if there was one.
    pub fn insert(&mut self, id: UserId, handle: H) -> (replaced: Option<H>)
        ensures
            final(self)@ == old(self)@.insert(id, handle),
            replaced == if old(self)@.contains_key(id) {
                Some(old(self)@[id])
            } else {
                None
            },
    {
        let replaced = self.handles.insert(id.0, handle);
        assert(self@ =~= old(self)@.insert(id, handle));
        replaced
    }

    /// Takes out the entry of `id` and returns its handle; an identity that
    /// is not registered leaves the registry unchanged.
    pub fn remove(&mut self, id: UserId) -> (removed: Option<H>)
        ensures
            final(self)@ == old(self)@.remove(id),
            removed == if old(self)@.contains_key(id) {
                Some(old(self)@[id])
            } else {
                None
            },
    {
        let removed = self.handles.remove(&id.0);
        assert(self@ =~= old(self)@.remove(id));
        removed
    }

    /// The handle registered under `id`, if any.
    pub fn get(&self, id: UserId) -> (found: Option<&H>)
        ensures
            found == if self@.contains_key(id) {
                Some(&self@[id])
            } else {
                None
            },
    {
        self.handles.get(&id.0)
    }

    /// Whether `id` is registered.
    pub fn contains(&self, id: UserId) -> (registered: bool)
        ensures
            registered == self@.contains_key(id),
    {
        self.handles.contains_key(&id.0)
    }

    /// Whether nobody is registered.
    pub fn is_empty(&self) -> (empty: bool)
        ensures
            empty == (self@ == Map::<UserId, H>::empty()),
    {
        let empty = self.handles.is_empty();
        proof {
            if empty {
                assert(self@ =~= Map::<UserId, H>::empty());
            } else {
                let key = choose|key: usize| self.handles@.contains_key(key);
                assert(self@.contains_key(UserId(key)));
            }
        }
        empty
    }

    /// The registered identities, in no particular order.
    pub fn ids(&self) -> (ids: Vec<UserId>)
        ensures
            enumerates(ids@, self@.dom()),
    {
        let ghost keys = spec_keys_iter(&self.handles).remaining();
        let mut ids: Vec<UserId> = Vec::new();
        for key in it: self.handles.keys()
            invariant
                it.seq() == keys,
                ids@.len() == it.index(),
                forall|i: int| 0 <= i < ids@.len() ==> ids@[i] == UserId(*keys[i]),
        {
            ids.push(UserId(*key));
        }
        proof {
            assert forall|i: int, j: int| 0 <= i < ids@.len() && 0 <= j < ids@.len() && i
                != j implies ids@[i] != ids@[j] by {
                assert(keys[i] != keys[j]);
            }
            assert forall|id: UserId| ids@.contains(id) <==> self@.dom().contains(id) by {
                if ids@.contains(id) {
                    let i = choose|i: int| 0 <= i < ids@.len() && ids@[i] == id;
                    assert(keys.unref()[i] == id@);
                    assert(keys.unref().to_set().contains(id@));
                }
                if self@.dom().contains(id) {
                    assert(keys.unref().to_set().contains(id@));
                    let i = choose|i: int| 0 <= i < keys.unref().len() && keys.unref()[i] == id@;
                    assert(ids@[i] == id);
                }
            }
        }
        ids
    }
}

} // verus!
