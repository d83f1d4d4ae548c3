//! The connection registry: which connections are live, and which of them
//! hold the admin capability.

use std::collections::HashMap;
use vstd::prelude::*;
use vstd::std_specs::iter::IteratorSpec;

verus! {

broadcast use vstd::std_specs::hash::group_hash_axioms;

/// The id that the first connection of a process gets.
pub const FIRST_ID: usize = 1;

/// The filter of a fan-out.
#[derive(Clone, Copy, Debug, PartialEq, Eq)]
pub enum Audience {
    /// Every live connection.
    Everyone,
    /// The live connections that hold the admin capability.
    Admins,
}

/// The registry as a mathematical value.
pub struct RegistryView {
    /// The live connections, each with its admin flag.
    pub members: Map<usize, bool>,
    /// The id that the next connection will get.
    pub next_id: usize,
}

impl RegistryView {
    /// Ids are handed out in increasing order, so every live connection has
    /// an id below the next one.
    pub open spec fn wf(self) -> bool {
        &&& self.members.dom().finite()
        &&& FIRST_ID <= self.next_id
        &&& forall|id: usize| self.members.contains_key(id) ==> FIRST_ID <= id < self.next_id
    }

    /// The registry of a process that has accepted no connection yet.
    pub open spec fn empty() -> RegistryView {
        RegistryView { members: Map::empty(), next_id: FIRST_ID }
    }

    /// The registry after a connection with the given capability was
    /// accepted: it gets the next id.
    pub open spec fn register(self, admin: bool) -> RegistryView {
        RegistryView {
            members: self.members.insert(self.next_id, admin),
            next_id: (self.next_id + 1) as usize,
        }
    }

    /// The registry after connection `id` has gone.
    pub open spec fn deregister(self, id: usize) -> RegistryView {
        RegistryView { members: self.members.remove(id), next_id: self.next_id }
    }

    /// The connections that a fan-out with the given filter reaches.
    pub open spec fn reached(self, audience: Audience) -> Set<usize> {
        self.members.dom().filter(|id: usize| audience == Audience::Admins ==> self.members[id])
    }
}

/// The set of live connections.
pub struct Registry {
    members: HashMap<usize, bool>,
    next_id: usize,
}

impl View for Registry {
    type V = RegistryView;

    closed spec fn view(&self) -> RegistryView {
        RegistryView { members: self.members@, next_id: self.next_id }
    }
}

impl Registry {
    /// Whether the registry is in a state that its own operations produce.
    pub open spec fn wf(&self) -> bool {
        self@.wf()
    }

    /// A registry with no connection.
    pub fn new() -> (registry: Registry)
        ensures
            registry@ == RegistryView::empty(),
            registry.wf(),
    {
        Registry { members: HashMap::new(), next_id: FIRST_ID }
    }

    /// The id that the next connection will get.
    pub fn next_id(&self) -> (id: usize)
        ensures
            id == self@.next_id,
    {
        self.next_id
    }

    /// Whether an id is left for one more connection.
    pub fn has_free_id(&self) -> (free: bool)
        ensures
            free == (self@.next_id < usize::MAX),
    {
        self.next_id < usize::MAX
    }

    /// Adds a connection with the given capability and returns its id, which
    /// no connection had before.
    pub fn register(&mut self, admin: bool) -> (id: usize)
        requires
            old(self).wf(),
            old(self)@.next_id < usize::MAX,
        ensures
            final(self).wf(),
            id == old(self)@.next_id,
            !old(self)@.members.contains_key(id),
            final(self)@ == old(self)@.register(admin),
    {
        let id = self.next_id;
        self.next_id = id + 1;
        self.members.insert(id, admin);
        id
    }

    /// Removes connection `id`; an id that is not registered changes
    /// nothing.
    pub fn deregister(&mut self, id: usize)
        requires
            old(self).wf(),
        ensures
            final(self).wf(),
            final(self)@ == old(self)@.deregister(id),
    {
        self.members.remove(&id);
    }

    /// Number of live connections.
    pub fn count(&self) -> (n: usize)
        ensures
            n == self@.members.len(),
    {
        self.members.len()
    }

    /// The admin flag of connection `id`, if it is live.
    pub fn admin_flag(&self, id: usize) -> (flag: Option<bool>)
        ensures
            flag == if self@.members.contains_key(id) {
                Some(self@.members[id])
            } else {
                None
            },
    {
        match self.members.get(&id) {
            Some(admin) => Some(*admin),
            None => None,
        }
    }

    /// Whether connection `id` is live.
    pub fn contains(&self, id: usize) -> (live: bool)
        ensures
            live == self@.members.contains_key(id),
    {
        self.members.contains_key(&id)
    }

    /// The connections that a fan-out with the given filter reaches, each
    /// once, in no particular order.
    pub fn recipients(&self, audience: Audience) -> (ids: Vec<usize>)
        ensures
            ids@.no_duplicates(),
            ids@.to_set() == self@.reached(audience),
    {
        let admins_only = match audience {
            Audience::Everyone => false,
            Audience::Admins => true,
        };
        let mut ids: Vec<usize> = Vec::new();
        let ghost mut origin: Seq<int> = Seq::empty();
        for entry in it: self.members.iter()
            invariant
                admins_only == (audience == Audience::Admins),
                it.seq() == self.members.iter().remaining(),
                it.seq().no_duplicates(),
                ids@.no_duplicates(),
                origin.len() == ids@.len(),
                forall|k: int|
                    0 <= k < ids@.len() ==> 0 <= #[trigger] origin[k] < it.index()
                        && *it.seq()[origin[k]].0 == ids@[k]
                        && (admins_only ==> *it.seq()[origin[k]].1),
                forall|i: int|
                    0 <= i < it.index() && (admins_only ==> *(#[trigger] it.seq()[i]).1)
                        ==> ids@.contains(*it.seq()[i].0),
        {
            let ghost at = it.index();
            if !admins_only || *entry.1 {
                proof {
                    assert forall|k: int| 0 <= k < ids@.len() implies ids@[k] != *entry.0 by {
                        let i = origin[k];
                        assert(self.members@.contains_key(*it.seq()[i].0));
                        assert(self.members@.contains_key(*it.seq()[at].0));
                        assert(it.seq()[i] != it.seq()[at]);
                    }
                }
                let ghost before = ids@;
                ids.push(*entry.0);
                proof {
                    origin = origin.push(at);
                    assert forall|i: int|
                        0 <= i <= at && (admins_only ==> *(#[trigger] it.seq()[i]).1)
                        implies ids@.contains(*it.seq()[i].0) by {
                        if i < at {
                            let k = choose|k: int|
                                0 <= k < before.len() && before[k] == *it.seq()[i].0;
                            assert(ids@[k] == *it.seq()[i].0);
                        } else {
                            assert(ids@[before.len() as int] == *it.seq()[i].0);
                        }
                    }
                }
            }
        }
        proof {
            let listed = self.members.iter().remaining();
            assert forall|id: usize| ids@.to_set().contains(id) implies self@.reached(
                audience,
            ).contains(id) by {
                let k = choose|k: int| 0 <= k < ids@.len() && ids@[k] == id;
                assert(self.members@.contains_key(*listed[origin[k]].0));
            }
            assert forall|id: usize|
                self@.reached(audience).contains(id) implies ids@.to_set().contains(id) by {
                let pair = (id, self.members@[id]);
                assert(self.members@.kv_pairs().contains(pair));
                assert(listed.unref().to_set().contains(pair));
                let i = choose|i: int| 0 <= i < listed.unref().len() && listed.unref()[i] == pair;
                assert(*listed[i].0 == id);
            }
            assert(ids@.to_set() =~= self@.reached(audience));
        }
        ids
    }
}

} // verus!
