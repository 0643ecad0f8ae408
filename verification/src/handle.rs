//! Opaque, unforgeable handles for plugin components.
//!
//! Handles are the only way to reference registered components (triggers,
//! sources, actions). Their constructors are private: only a registry creates
//! them. Each registry numbers its entries with a generation counter, so a
//! handle is never reused and a stale handle finds nothing.

use std::collections::HashMap;
use vstd::prelude::*;

use crate::text::{lemma_filter_all, lemma_filter_none, lemma_filter_partition_len, lemma_filter_members, lemma_filter_no_duplicates, lemma_filter_push, lemma_take_succ, owned, str_equal};

verus! {

broadcast use vstd::std_specs::hash::group_hash_axioms;

// =============================================================================
// Opaque handle types
// =============================================================================

/// Opaque handle to a registered trigger.
#[derive(Debug, Clone, Copy, PartialEq, Eq, Hash, Structural)]
pub struct TriggerHandle(u64);

impl TriggerHandle {
    /// The number the registry gave this handle.
    pub closed spec fn id_spec(self) -> u64 {
        self.0
    }

    fn new(id: u64) -> (h: Self)
        ensures
            h.id_spec() == id,
    {
        TriggerHandle(id)
    }

    fn id(&self) -> (r: u64)
        ensures
            r == self.id_spec(),
    {
        self.0
    }
}

/// Opaque handle to a registered source.
#[derive(Debug, Clone, Copy, PartialEq, Eq, Hash, Structural)]
pub struct SourceHandle(u64);

impl SourceHandle {
    /// The number the registry gave this handle.
    pub closed spec fn id_spec(self) -> u64 {
        self.0
    }

    fn new(id: u64) -> (h: Self)
        ensures
            h.id_spec() == id,
    {
        SourceHandle(id)
    }

    fn id(&self) -> (r: u64)
        ensures
            r == self.id_spec(),
    {
        self.0
    }
}

/// Opaque handle to a registered action.
#[derive(Debug, Clone, Copy, PartialEq, Eq, Hash, Structural)]
pub struct ActionHandle(u64);

impl ActionHandle {
    /// The number the registry gave this handle.
    pub closed spec fn id_spec(self) -> u64 {
        self.0
    }

    fn new(id: u64) -> (h: Self)
        ensures
            h.id_spec() == id,
    {
        ActionHandle(id)
    }

    fn id(&self) -> (r: u64)
        ensures
            r == self.id_spec(),
    {
        self.0
    }
}

// =============================================================================
// Generation-counted table shared by the three registries
// =============================================================================

/// A table of `(plugin name, value)` entries keyed by generation-counted ids,
/// with the order in which they were registered.
pub struct HandleTable<T> {
    items: HashMap<u64, (String, T)>,
    order: Vec<u64>,
    generation: u64,
}

/// The predicate "registered by this plugin" over ids of a table.
pub open spec fn by_plugin<T>(entries: Map<u64, (Seq<char>, T)>, name: Seq<char>) -> spec_fn(u64) -> bool {
    |id: u64| entries[id].0 == name
}

/// The predicate "not registered by this plugin" over ids of a table.
pub open spec fn not_by_plugin<T>(entries: Map<u64, (Seq<char>, T)>, name: Seq<char>) -> spec_fn(u64) -> bool {
    |id: u64| entries[id].0 != name
}

/// The predicate "is not this id".
pub open spec fn other_than(id: u64) -> spec_fn(u64) -> bool {
    |x: u64| x != id
}

/// The entries of a table that were not registered by the given plugin.
pub open spec fn without_plugin<T>(entries: Map<u64, (Seq<char>, T)>, name: Seq<char>) -> Map<u64, (Seq<char>, T)> {
    Map::new(|k: u64| entries.contains_key(k) && entries[k].0 != name, |k: u64| entries[k])
}

impl<T> HandleTable<T> {
    /// The registered entries: id to (plugin name, value).
    pub closed spec fn entries(&self) -> Map<u64, (Seq<char>, T)> {
        Map::new(
            |k: u64| self.items@.contains_key(k),
            |k: u64| (self.items@[k].0@, self.items@[k].1),
        )
    }

    /// The ids of the entries in registration order.
    pub closed spec fn order(&self) -> Seq<u64> {
        self.order@
    }

    /// The last id handed out (0 before the first insert).
    pub closed spec fn generation(&self) -> nat {
        self.generation as nat
    }

    /// The table's invariant: the order lists each registered id once, and
    /// every id is at most the generation counter.
    pub closed spec fn wf(&self) -> bool {
        &&& self.order@.no_duplicates()
        &&& forall|i: int| 0 <= i < self.order@.len() ==> self.items@.contains_key(#[trigger] self.order@[i])
        &&& forall|k: u64| #[trigger] self.items@.contains_key(k) ==> self.order@.contains(k)
        &&& forall|k: u64| #[trigger] self.items@.contains_key(k) ==> 1 <= k <= self.generation
    }

    /// Facts that follow from the invariant.
    pub proof fn lemma_wf(&self)
        requires
            self.wf(),
        ensures
            self.entries().dom().finite(),
            forall|k: u64| #[trigger] self.entries().contains_key(k) ==> self.order().contains(k),
            forall|i: int| 0 <= i < self.order().len() ==> self.entries().contains_key(#[trigger] self.order()[i]),
            forall|k: u64| #[trigger] self.entries().contains_key(k) ==> 1 <= k <= self.generation(),
            self.order().no_duplicates(),
            self.order().len() == self.entries().len(),
    {
        assert(self.entries().dom() =~= self.items@.dom());
        assert(self.order@.to_set() =~= self.items@.dom());
        self.order@.unique_seq_to_set();
    }

    /// Creates an empty table.
    pub fn new() -> (r: Self)
        ensures
            r.wf(),
            r.entries() == Map::<u64, (Seq<char>, T)>::empty(),
            r.order() == Seq::<u64>::empty(),
            r.generation() == 0,
    {
        let r = HandleTable { items: HashMap::new(), order: Vec::new(), generation: 0 };
        assert(r.entries() =~= Map::<u64, (Seq<char>, T)>::empty());
        r
    }

    /// Inserts an entry under a fresh id and returns the id.
    pub fn insert(&mut self, plugin_name: &str, item: T) -> (id: u64)
        requires
            old(self).wf(),
            old(self).generation() < u64::MAX,
        ensures
            final(self).wf(),
            id == old(self).generation() + 1,
            final(self).generation() == id,
            !old(self).entries().contains_key(id),
            final(self).entries() == old(self).entries().insert(id, (plugin_name@, item)),
            final(self).order() == old(self).order().push(id),
    {
        self.generation = self.generation + 1;
        let id = self.generation;
        let name = owned(plugin_name);
        self.items.insert(id, (name, item));
        self.order.push(id);
        proof {
            assert(!old(self).items@.contains_key(id));
            assert(self.entries() =~= old(self).entries().insert(id, (plugin_name@, item)));
            assert forall|k: u64| #[trigger] self.items@.contains_key(k) implies self.order@.contains(k) by {
                if k == id {
                    assert(self.order@[self.order@.len() - 1] == id);
                } else {
                    let j = choose|j: int| 0 <= j < old(self).order@.len() && old(self).order@[j] == k;
                    assert(self.order@[j] == k);
                }
            }
            assert forall|i: int| 0 <= i < self.order@.len() implies self.items@.contains_key(#[trigger] self.order@[i]) by {
                if i < old(self).order@.len() {
                    assert(self.order@[i] == old(self).order@[i]);
                }
            }
        }
        id
    }

    /// The value registered under an id, if any.
    pub fn get(&self, id: u64) -> (r: Option<&T>)
        ensures
            match r {
                Some(t) => self.entries().contains_key(id) && *t == self.entries()[id].1,
                None => !self.entries().contains_key(id),
            },
    {
        match self.items.get(&id) {
            Some(pair) => Some(&pair.1),
            None => None,
        }
    }

    /// The plugin name and value registered under an id, if any.
    pub fn get_with_plugin(&self, id: u64) -> (r: Option<(&str, &T)>)
        ensures
            match r {
                Some(pair) => self.entries().contains_key(id) && pair.0@ == self.entries()[id].0 && *pair.1
                    == self.entries()[id].1,
                None => !self.entries().contains_key(id),
            },
    {
        match self.items.get(&id) {
            Some(pair) => Some((pair.0.as_str(), &pair.1)),
            None => None,
        }
    }

    /// Removes the entry under an id and returns its value.
    pub fn remove(&mut self, id: u64) -> (r: Option<T>)
        requires
            old(self).wf(),
        ensures
            final(self).wf(),
            final(self).entries() == old(self).entries().remove(id),
            final(self).order() == old(self).order().filter(other_than(id)),
            final(self).generation() == old(self).generation(),
            match r {
                Some(t) => old(self).entries().contains_key(id) && t == old(self).entries()[id].1,
                None => !old(self).entries().contains_key(id),
            },
    {
        let ghost old_order = self.order@;
        let ghost pred = other_than(id);
        let mut kept: Vec<u64> = Vec::new();
        let mut i: usize = 0;
        while i < self.order.len()
            invariant
                0 <= i <= self.order@.len(),
                self.order@ == old_order,
                pred == other_than(id),
                kept@ == old_order.take(i as int).filter(pred),
            decreases self.order@.len() - i,
        {
            let x = self.order[i];
            proof {
                lemma_take_succ(old_order, i as int);
                lemma_filter_push(old_order.take(i as int), x, pred);
            }
            if x != id {
                kept.push(x);
            }
            i = i + 1;
        }
        proof {
            assert(old_order.take(old_order.len() as int) =~= old_order);
            lemma_filter_members(old_order, pred);
            lemma_filter_no_duplicates(old_order, pred);
        }
        self.order = kept;
        let removed = self.items.remove(&id);
        proof {
            assert(self.entries() =~= old(self).entries().remove(id));
            assert forall|k: u64| #[trigger] self.items@.contains_key(k) implies self.order@.contains(k) by {
                assert(old(self).items@.contains_key(k));
                let j = choose|j: int| 0 <= j < old_order.len() && old_order[j] == k;
                assert(pred(old_order[j]));
            }
        }
        match removed {
            Some(pair) => Some(pair.1),
            None => None,
        }
    }

    /// The ids registered by a plugin, in registration order.
    pub fn ids_for_plugin(&self, plugin_name: &str) -> (r: Vec<u64>)
        requires
            self.wf(),
        ensures
            r@ == self.order().filter(by_plugin(self.entries(), plugin_name@)),
    {
        let ghost pred = by_plugin(self.entries(), plugin_name@);
        let mut out: Vec<u64> = Vec::new();
        let mut i: usize = 0;
        while i < self.order.len()
            invariant
                self.wf(),
                0 <= i <= self.order@.len(),
                pred == by_plugin(self.entries(), plugin_name@),
                out@ == self.order@.take(i as int).filter(pred),
            decreases self.order@.len() - i,
        {
            let id = self.order[i];
            proof {
                lemma_take_succ(self.order@, i as int);
                lemma_filter_push(self.order@.take(i as int), id, pred);
            }
            match self.items.get(&id) {
                Some(pair) => {
                    if str_equal(pair.0.as_str(), plugin_name) {
                        out.push(id);
                    }
                },
                None => {},
            }
            i = i + 1;
        }
        proof {
            assert(self.order@.take(self.order@.len() as int) =~= self.order@);
        }
        out
    }

    /// Removes every entry registered by a plugin and returns their values in
    /// registration order.
    pub fn remove_plugin(&mut self, plugin_name: &str) -> (r: Vec<T>)
        requires
            old(self).wf(),
        ensures
            final(self).wf(),
            r@ == old(self).order().filter(by_plugin(old(self).entries(), plugin_name@)).map_values(
                |id: u64| old(self).entries()[id].1,
            ),
            final(self).entries() == without_plugin(old(self).entries(), plugin_name@),
            final(self).order() == old(self).order().filter(not_by_plugin(old(self).entries(), plugin_name@)),
            final(self).generation() == old(self).generation(),
    {
        let ghost old_entries = old(self).entries();
        let ghost old_items = old(self).items@;
        let ghost old_order = old(self).order@;
        let ghost pred = by_plugin(old_entries, plugin_name@);
        let ghost npred = not_by_plugin(old_entries, plugin_name@);
        let ghost val = |id: u64| old_entries[id].1;
        let mut order: Vec<u64> = Vec::new();
        std::mem::swap(&mut order, &mut self.order);
        let mut kept: Vec<u64> = Vec::new();
        let mut removed: Vec<T> = Vec::new();
        let mut i: usize = 0;
        while i < order.len()
            invariant
                0 <= i <= order@.len(),
                order@ == old_order,
                self.generation == old(self).generation,
                forall|k: u64| #[trigger] old_items.contains_key(k) ==> 1 <= k <= self.generation,
                old_order.no_duplicates(),
                forall|j: int| 0 <= j < old_order.len() ==> old_items.contains_key(#[trigger] old_order[j]),
                old_entries == Map::new(|k: u64| old_items.contains_key(k), |k: u64| (old_items[k].0@, old_items[k].1)),
                pred == by_plugin(old_entries, plugin_name@),
                npred == not_by_plugin(old_entries, plugin_name@),
                val == (|id: u64| old_entries[id].1),
                kept@ == old_order.take(i as int).filter(npred),
                removed@ == old_order.take(i as int).filter(pred).map_values(val),
                forall|k: u64| #[trigger] self.items@.contains_key(k) <==> (old_items.contains_key(k) && !(
                    old_order.take(i as int).contains(k) && pred(k))),
                forall|k: u64| #[trigger] self.items@.contains_key(k) ==> self.items@[k] == old_items[k],
            decreases order@.len() - i,
        {
            let id = order[i];
            proof {
                lemma_take_succ(old_order, i as int);
                lemma_filter_push(old_order.take(i as int), id, pred);
                lemma_filter_push(old_order.take(i as int), id, npred);
                assert(!old_order.take(i as int).contains(id)) by {
                    if old_order.take(i as int).contains(id) {
                        let j = choose|j: int| 0 <= j < i && #[trigger] old_order.take(i as int)[j] == id;
                        assert(old_order[j] == old_order[i as int]);
                    }
                }
                assert(self.items@.contains_key(id));
            }
            let matches = match self.items.get(&id) {
                Some(pair) => str_equal(pair.0.as_str(), plugin_name),
                None => false,
            };
            proof {
                assert(matches == pred(id));
                assert(old_order.take(i as int + 1)[i as int] == id);
            }
            if matches {
                let taken = self.items.remove(&id);
                match taken {
                    Some(pair) => {
                        removed.push(pair.1);
                    },
                    None => {},
                }
                proof {
                    assert(removed@ =~= old_order.take(i as int + 1).filter(pred).map_values(val));
                }
            } else {
                kept.push(id);
                proof {
                    assert(removed@ =~= old_order.take(i as int + 1).filter(pred).map_values(val));
                }
            }
            proof {
                assert forall|k: u64| #[trigger] self.items@.contains_key(k) <==> (old_items.contains_key(k) && !(
                    old_order.take(i as int + 1).contains(k) && pred(k))) by {
                    if k == id {
                    } else {
                        if old_order.take(i as int + 1).contains(k) {
                            let j = choose|j: int| 0 <= j < i + 1 && #[trigger] old_order.take(i as int + 1)[j] == k;
                            assert(old_order.take(i as int)[j] == k);
                        }
                        if old_order.take(i as int).contains(k) {
                            let j = choose|j: int| 0 <= j < i && #[trigger] old_order.take(i as int)[j] == k;
                            assert(old_order.take(i as int + 1)[j] == k);
                        }
                    }
                }
            }
            i = i + 1;
        }
        proof {
            assert(old_order.take(old_order.len() as int) =~= old_order);
            lemma_filter_members(old_order, npred);
            lemma_filter_no_duplicates(old_order, npred);
        }
        self.order = kept;
        proof {
            assert(self.entries() =~= without_plugin(old_entries, plugin_name@)) by {
                assert forall|k: u64| self.items@.contains_key(k) <==> (old_entries.contains_key(k) && old_entries[k].0 != plugin_name@) by {
                    if old_items.contains_key(k) {
                        assert(old_order.contains(k));
                    }
                }
            }
            assert forall|k: u64| #[trigger] self.items@.contains_key(k) implies self.order@.contains(k) by {
                let j = choose|j: int| 0 <= j < old_order.len() && old_order[j] == k;
                assert(npred(old_order[j]));
            }
            assert forall|i: int| 0 <= i < self.order@.len() implies self.items@.contains_key(#[trigger] self.order@[i]) by {
                let k = self.order@[i];
                assert(npred(k));
                assert(old_order.contains(k));
            }
        }
        removed
    }

    /// The entries in registration order, with their ids and plugin names.
    pub fn ordered(&self) -> (r: Vec<(u64, &str, &T)>)
        requires
            self.wf(),
        ensures
            r@.len() == self.order().len(),
            forall|i: int| 0 <= i < r@.len() ==> {
                let id = #[trigger] self.order()[i];
                &&& r@[i].0 == id
                &&& r@[i].1@ == self.entries()[id].0
                &&& *r@[i].2 == self.entries()[id].1
            },
    {
        let mut out: Vec<(u64, &str, &T)> = Vec::new();
        let mut i: usize = 0;
        while i < self.order.len()
            invariant
                self.wf(),
                0 <= i <= self.order@.len(),
                out@.len() == i,
                forall|j: int| 0 <= j < i ==> {
                    let id = #[trigger] self.order@[j];
                    &&& out@[j].0 == id
                    &&& out@[j].1@ == self.entries()[id].0
                    &&& *out@[j].2 == self.entries()[id].1
                },
            decreases self.order@.len() - i,
        {
            let id = self.order[i];
            assert(self.items@.contains_key(id));
            match self.items.get(&id) {
                Some(pair) => {
                    out.push((id, pair.0.as_str(), &pair.1));
                },
                None => {},
            }
            i = i + 1;
        }
        out
    }

    /// Whether the table is empty.
    pub fn is_empty(&self) -> (r: bool)
        ensures
            r == (self.entries().len() == 0),
    {
        proof {
            assert(self.entries().dom() =~= self.items@.dom());
        }
        self.items.is_empty()
    }

    /// The number of entries.
    pub fn len(&self) -> (r: usize)
        ensures
            r == self.entries().len(),
    {
        proof {
            assert(self.entries().dom() =~= self.items@.dom());
        }
        self.items.len()
    }
}

// =============================================================================
// Transitions of the registry model
// =============================================================================

/// The invariant of the registry model: the order lists every registered id
/// exactly once, and every id is between 1 and the generation counter.
pub open spec fn model_wf<T>(entries: Map<u64, (Seq<char>, T)>, order: Seq<u64>, generation: nat) -> bool {
    &&& entries.dom().finite()
    &&& order.no_duplicates()
    &&& forall|k: u64| #[trigger] entries.contains_key(k) ==> order.contains(k)
    &&& forall|i: int| 0 <= i < order.len() ==> entries.contains_key(#[trigger] order[i])
    &&& forall|k: u64| #[trigger] entries.contains_key(k) ==> 1 <= k <= generation
    &&& order.len() == entries.len()
}

/// `insert(name, item)` took the model from state 0 to state 1 and returned `id`.
pub open spec fn insert_step<T>(
    e0: Map<u64, (Seq<char>, T)>, o0: Seq<u64>, g0: nat,
    e1: Map<u64, (Seq<char>, T)>, o1: Seq<u64>, g1: nat,
    id: u64, name: Seq<char>, item: T,
) -> bool {
    &&& id == g0 + 1
    &&& g1 == id
    &&& !e0.contains_key(id)
    &&& e1 == e0.insert(id, (name, item))
    &&& o1 == o0.push(id)
}

/// `remove(id)` took the model from state 0 to state 1.
pub open spec fn remove_step<T>(
    e0: Map<u64, (Seq<char>, T)>, o0: Seq<u64>, g0: nat,
    e1: Map<u64, (Seq<char>, T)>, o1: Seq<u64>, g1: nat,
    id: u64,
) -> bool {
    &&& e1 == e0.remove(id)
    &&& o1 == o0.filter(other_than(id))
    &&& g1 == g0
}

/// `remove_plugin(name)` took the model from state 0 to state 1 and returned `removed`.
pub open spec fn remove_plugin_step<T>(
    e0: Map<u64, (Seq<char>, T)>, o0: Seq<u64>, g0: nat,
    e1: Map<u64, (Seq<char>, T)>, o1: Seq<u64>, g1: nat,
    name: Seq<char>, removed: Seq<T>,
) -> bool {
    &&& removed == o0.filter(by_plugin(e0, name)).map_values(|id: u64| e0[id].1)
    &&& e1 == without_plugin(e0, name)
    &&& o1 == o0.filter(not_by_plugin(e0, name))
    &&& g1 == g0
}

/// Registry for triggers with generation-counted handles.
pub struct TriggerRegistry<T> {
    table: HandleTable<T>,
}

impl<T> TriggerRegistry<T> {
    /// The registry's model: entries, registration order and generation.
    pub open spec fn model(&self) -> RegistryModel<T> {
        RegistryModel { entries: self.entries(), order: self.order(), generation: self.generation() }
    }

    /// The registered triggers: handle id to (plugin name, trigger).
    pub closed spec fn entries(&self) -> Map<u64, (Seq<char>, T)> {
        self.table.entries()
    }

    /// Handle ids in registration order.
    pub closed spec fn order(&self) -> Seq<u64> {
        self.table.order()
    }

    /// The last id handed out.
    pub closed spec fn generation(&self) -> nat {
        self.table.generation()
    }

    /// The registry's invariant.
    pub closed spec fn wf(&self) -> bool {
        self.table.wf()
    }

    /// The invariant, read on the model.
    pub proof fn lemma_wf(&self)
        requires
            self.wf(),
        ensures
            model_wf(self.entries(), self.order(), self.generation()),
    {
        self.table.lemma_wf();
    }

    /// Create an empty registry.
    pub fn new() -> (r: Self)
        ensures
            r.wf(),
            r.entries() == Map::<u64, (Seq<char>, T)>::empty(),
            r.order() == Seq::<u64>::empty(),
            r.generation() == 0,
    {
        TriggerRegistry { table: HandleTable::new() }
    }

    /// Insert a trigger and return its handle.
    pub fn insert(&mut self, plugin_name: &str, item: T) -> (h: TriggerHandle)
        requires
            old(self).wf(),
            old(self).generation() < u64::MAX,
        ensures
            final(self).wf(),
            insert_step(
                old(self).entries(), old(self).order(), old(self).generation(),
                final(self).entries(), final(self).order(), final(self).generation(),
                h.id_spec(), plugin_name@, item,
            ),
    {
        let id = self.table.insert(plugin_name, item);
        TriggerHandle::new(id)
    }

    /// Get a trigger by handle.
    pub fn get(&self, handle: TriggerHandle) -> (r: Option<&T>)
        ensures
            match r {
                Some(t) => self.entries().contains_key(handle.id_spec()) && *t == self.entries()[handle.id_spec()].1,
                None => !self.entries().contains_key(handle.id_spec()),
            },
    {
        self.table.get(handle.id())
    }

    /// Get a trigger and its plugin name by handle.
    pub fn get_with_plugin(&self, handle: TriggerHandle) -> (r: Option<(&str, &T)>)
        ensures
            match r {
                Some(pair) => self.entries().contains_key(handle.id_spec()) && pair.0@ == self.entries()[handle.id_spec()].0
                    && *pair.1 == self.entries()[handle.id_spec()].1,
                None => !self.entries().contains_key(handle.id_spec()),
            },
    {
        self.table.get_with_plugin(handle.id())
    }

    /// Remove a trigger by handle.
    pub fn remove(&mut self, handle: TriggerHandle) -> (r: Option<T>)
        requires
            old(self).wf(),
        ensures
            final(self).wf(),
            remove_step(
                old(self).entries(), old(self).order(), old(self).generation(),
                final(self).entries(), final(self).order(), final(self).generation(),
                handle.id_spec(),
            ),
            match r {
                Some(t) => old(self).entries().contains_key(handle.id_spec()) && t == old(self).entries()[handle.id_spec()].1,
                None => !old(self).entries().contains_key(handle.id_spec()),
            },
    {
        self.table.remove(handle.id())
    }

    /// All triggers in registration order, with their handles and plugin names.
    pub fn iter(&self) -> (r: Vec<(TriggerHandle, &str, &T)>)
        requires
            self.wf(),
        ensures
            r@.len() == self.order().len(),
            forall|i: int| 0 <= i < r@.len() ==> {
                let id = #[trigger] self.order()[i];
                &&& r@[i].0.id_spec() == id
                &&& r@[i].1@ == self.entries()[id].0
                &&& *r@[i].2 == self.entries()[id].1
            },
    {
        let rows = self.table.ordered();
        let mut out: Vec<(TriggerHandle, &str, &T)> = Vec::new();
        let mut i: usize = 0;
        while i < rows.len()
            invariant
                0 <= i <= rows@.len(),
                rows@.len() == self.order().len(),
                forall|j: int| 0 <= j < rows@.len() ==> {
                    let id = #[trigger] self.order()[j];
                    &&& rows@[j].0 == id
                    &&& rows@[j].1@ == self.entries()[id].0
                    &&& *rows@[j].2 == self.entries()[id].1
                },
                out@.len() == i,
                forall|j: int| 0 <= j < i ==> {
                    let id = #[trigger] self.order()[j];
                    &&& out@[j].0.id_spec() == id
                    &&& out@[j].1@ == self.entries()[id].0
                    &&& *out@[j].2 == self.entries()[id].1
                },
            decreases rows@.len() - i,
        {
            let row = rows[i];
            out.push((TriggerHandle::new(row.0), row.1, row.2));
            i = i + 1;
        }
        out
    }

    /// Get all handles for a plugin, in registration order.
    pub fn handles_for_plugin(&self, plugin_name: &str) -> (r: Vec<TriggerHandle>)
        requires
            self.wf(),
        ensures
            r@.map_values(|h: TriggerHandle| h.id_spec()) == self.order().filter(by_plugin(self.entries(), plugin_name@)),
    {
        let ids = self.table.ids_for_plugin(plugin_name);
        let mut out: Vec<TriggerHandle> = Vec::new();
        let mut i: usize = 0;
        while i < ids.len()
            invariant
                0 <= i <= ids@.len(),
                out@.len() == i,
                forall|j: int| 0 <= j < i ==> (#[trigger] out@[j]).id_spec() == ids@[j],
            decreases ids@.len() - i,
        {
            out.push(TriggerHandle::new(ids[i]));
            i = i + 1;
        }
        proof {
            assert(out@.map_values(|h: TriggerHandle| h.id_spec()) =~= ids@);
        }
        out
    }

    /// Remove all triggers of a plugin; returns them in registration order.
    pub fn remove_plugin(&mut self, plugin_name: &str) -> (r: Vec<T>)
        requires
            old(self).wf(),
        ensures
            final(self).wf(),
            remove_plugin_step(
                old(self).entries(), old(self).order(), old(self).generation(),
                final(self).entries(), final(self).order(), final(self).generation(),
                plugin_name@, r@,
            ),
    {
        self.table.remove_plugin(plugin_name)
    }

    /// Check if empty.
    pub fn is_empty(&self) -> (r: bool)
        ensures
            r == (self.entries().len() == 0),
    {
        self.table.is_empty()
    }

    /// Get the number of registered triggers.
    pub fn len(&self) -> (r: usize)
        ensures
            r == self.entries().len(),
    {
        self.table.len()
    }
}

impl<T> Default for TriggerRegistry<T> {
    fn default() -> (r: Self)
        ensures
            r.wf(),
            r.entries() == Map::<u64, (Seq<char>, T)>::empty(),
            r.order() == Seq::<u64>::empty(),
            r.generation() == 0,
    {
        Self::new()
    }
}

/// Registry for sources with generation-counted handles.
pub struct SourceRegistry<T> {
    table: HandleTable<T>,
}

impl<T> SourceRegistry<T> {
    /// The registry's model: entries, registration order and generation.
    pub open spec fn model(&self) -> RegistryModel<T> {
        RegistryModel { entries: self.entries(), order: self.order(), generation: self.generation() }
    }

    /// The registered sources: handle id to (plugin name, source).
    pub closed spec fn entries(&self) -> Map<u64, (Seq<char>, T)> {
        self.table.entries()
    }

    /// Handle ids in registration order.
    pub closed spec fn order(&self) -> Seq<u64> {
        self.table.order()
    }

    /// The last id handed out.
    pub closed spec fn generation(&self) -> nat {
        self.table.generation()
    }

    /// The registry's invariant.
    pub closed spec fn wf(&self) -> bool {
        self.table.wf()
    }

    /// The invariant, read on the model.
    pub proof fn lemma_wf(&self)
        requires
            self.wf(),
        ensures
            model_wf(self.entries(), self.order(), self.generation()),
    {
        self.table.lemma_wf();
    }

    /// Create an empty registry.
    pub fn new() -> (r: Self)
        ensures
            r.wf(),
            r.entries() == Map::<u64, (Seq<char>, T)>::empty(),
            r.order() == Seq::<u64>::empty(),
            r.generation() == 0,
    {
        SourceRegistry { table: HandleTable::new() }
    }

    /// Insert a source and return its handle.
    pub fn insert(&mut self, plugin_name: &str, item: T) -> (h: SourceHandle)
        requires
            old(self).wf(),
            old(self).generation() < u64::MAX,
        ensures
            final(self).wf(),
            insert_step(
                old(self).entries(), old(self).order(), old(self).generation(),
                final(self).entries(), final(self).order(), final(self).generation(),
                h.id_spec(), plugin_name@, item,
            ),
    {
        let id = self.table.insert(plugin_name, item);
        SourceHandle::new(id)
    }

    /// Get a source by handle.
    pub fn get(&self, handle: SourceHandle) -> (r: Option<&T>)
        ensures
            match r {
                Some(t) => self.entries().contains_key(handle.id_spec()) && *t == self.entries()[handle.id_spec()].1,
                None => !self.entries().contains_key(handle.id_spec()),
            },
    {
        self.table.get(handle.id())
    }

    /// Get a source and its plugin name by handle.
    pub fn get_with_plugin(&self, handle: SourceHandle) -> (r: Option<(&str, &T)>)
        ensures
            match r {
                Some(pair) => self.entries().contains_key(handle.id_spec()) && pair.0@ == self.entries()[handle.id_spec()].0
                    && *pair.1 == self.entries()[handle.id_spec()].1,
                None => !self.entries().contains_key(handle.id_spec()),
            },
    {
        self.table.get_with_plugin(handle.id())
    }

    /// Remove a source by handle.
    pub fn remove(&mut self, handle: SourceHandle) -> (r: Option<T>)
        requires
            old(self).wf(),
        ensures
            final(self).wf(),
            remove_step(
                old(self).entries(), old(self).order(), old(self).generation(),
                final(self).entries(), final(self).order(), final(self).generation(),
                handle.id_spec(),
            ),
            match r {
                Some(t) => old(self).entries().contains_key(handle.id_spec()) && t == old(self).entries()[handle.id_spec()].1,
                None => !old(self).entries().contains_key(handle.id_spec()),
            },
    {
        self.table.remove(handle.id())
    }

    /// All sources in registration order, with their handles and plugin names.
    pub fn iter(&self) -> (r: Vec<(SourceHandle, &str, &T)>)
        requires
            self.wf(),
        ensures
            r@.len() == self.order().len(),
            forall|i: int| 0 <= i < r@.len() ==> {
                let id = #[trigger] self.order()[i];
                &&& r@[i].0.id_spec() == id
                &&& r@[i].1@ == self.entries()[id].0
                &&& *r@[i].2 == self.entries()[id].1
            },
    {
        let rows = self.table.ordered();
        let mut out: Vec<(SourceHandle, &str, &T)> = Vec::new();
        let mut i: usize = 0;
        while i < rows.len()
            invariant
                0 <= i <= rows@.len(),
                rows@.len() == self.order().len(),
                forall|j: int| 0 <= j < rows@.len() ==> {
                    let id = #[trigger] self.order()[j];
                    &&& rows@[j].0 == id
                    &&& rows@[j].1@ == self.entries()[id].0
                    &&& *rows@[j].2 == self.entries()[id].1
                },
                out@.len() == i,
                forall|j: int| 0 <= j < i ==> {
                    let id = #[trigger] self.order()[j];
                    &&& out@[j].0.id_spec() == id
                    &&& out@[j].1@ == self.entries()[id].0
                    &&& *out@[j].2 == self.entries()[id].1
                },
            decreases rows@.len() - i,
        {
            let row = rows[i];
            out.push((SourceHandle::new(row.0), row.1, row.2));
            i = i + 1;
        }
        out
    }

    /// Get all handles for a plugin, in registration order.
    pub fn handles_for_plugin(&self, plugin_name: &str) -> (r: Vec<SourceHandle>)
        requires
            self.wf(),
        ensures
            r@.map_values(|h: SourceHandle| h.id_spec()) == self.order().filter(by_plugin(self.entries(), plugin_name@)),
    {
        let ids = self.table.ids_for_plugin(plugin_name);
        let mut out: Vec<SourceHandle> = Vec::new();
        let mut i: usize = 0;
        while i < ids.len()
            invariant
                0 <= i <= ids@.len(),
                out@.len() == i,
                forall|j: int| 0 <= j < i ==> (#[trigger] out@[j]).id_spec() == ids@[j],
            decreases ids@.len() - i,
        {
            out.push(SourceHandle::new(ids[i]));
            i = i + 1;
        }
        proof {
            assert(out@.map_values(|h: SourceHandle| h.id_spec()) =~= ids@);
        }
        out
    }

    /// Remove all sources of a plugin; returns them in registration order.
    pub fn remove_plugin(&mut self, plugin_name: &str) -> (r: Vec<T>)
        requires
            old(self).wf(),
        ensures
            final(self).wf(),
            remove_plugin_step(
                old(self).entries(), old(self).order(), old(self).generation(),
                final(self).entries(), final(self).order(), final(self).generation(),
                plugin_name@, r@,
            ),
    {
        self.table.remove_plugin(plugin_name)
    }

    /// Check if empty.
    pub fn is_empty(&self) -> (r: bool)
        ensures
            r == (self.entries().len() == 0),
    {
        self.table.is_empty()
    }

    /// Get the number of registered sources.
    pub fn len(&self) -> (r: usize)
        ensures
            r == self.entries().len(),
    {
        self.table.len()
    }
}

impl<T> Default for SourceRegistry<T> {
    fn default() -> (r: Self)
        ensures
            r.wf(),
            r.entries() == Map::<u64, (Seq<char>, T)>::empty(),
            r.order() == Seq::<u64>::empty(),
            r.generation() == 0,
    {
        Self::new()
    }
}

/// Registry for actions with generation-counted handles.
pub struct ActionRegistry<T> {
    table: HandleTable<T>,
}

impl<T> ActionRegistry<T> {
    /// The registry's model: entries, registration order and generation.
    pub open spec fn model(&self) -> RegistryModel<T> {
        RegistryModel { entries: self.entries(), order: self.order(), generation: self.generation() }
    }

    /// The registered actions: handle id to (plugin name, action).
    pub closed spec fn entries(&self) -> Map<u64, (Seq<char>, T)> {
        self.table.entries()
    }

    /// Handle ids in registration order.
    pub closed spec fn order(&self) -> Seq<u64> {
        self.table.order()
    }

    /// The last id handed out.
    pub closed spec fn generation(&self) -> nat {
        self.table.generation()
    }

    /// The registry's invariant.
    pub closed spec fn wf(&self) -> bool {
        self.table.wf()
    }

    /// The invariant, read on the model.
    pub proof fn lemma_wf(&self)
        requires
            self.wf(),
        ensures
            model_wf(self.entries(), self.order(), self.generation()),
    {
        self.table.lemma_wf();
    }

    /// Create an empty registry.
    pub fn new() -> (r: Self)
        ensures
            r.wf(),
            r.entries() == Map::<u64, (Seq<char>, T)>::empty(),
            r.order() == Seq::<u64>::empty(),
            r.generation() == 0,
    {
        ActionRegistry { table: HandleTable::new() }
    }

    /// Insert a action and return its handle.
    pub fn insert(&mut self, plugin_name: &str, item: T) -> (h: ActionHandle)
        requires
            old(self).wf(),
            old(self).generation() < u64::MAX,
        ensures
            final(self).wf(),
            insert_step(
                old(self).entries(), old(self).order(), old(self).generation(),
                final(self).entries(), final(self).order(), final(self).generation(),
                h.id_spec(), plugin_name@, item,
            ),
    {
        let id = self.table.insert(plugin_name, item);
        ActionHandle::new(id)
    }

    /// Get a action by handle.
    pub fn get(&self, handle: ActionHandle) -> (r: Option<&T>)
        ensures
            match r {
                Some(t) => self.entries().contains_key(handle.id_spec()) && *t == self.entries()[handle.id_spec()].1,
                None => !self.entries().contains_key(handle.id_spec()),
            },
    {
        self.table.get(handle.id())
    }

    /// Get a action and its plugin name by handle.
    pub fn get_with_plugin(&self, handle: ActionHandle) -> (r: Option<(&str, &T)>)
        ensures
            match r {
                Some(pair) => self.entries().contains_key(handle.id_spec()) && pair.0@ == self.entries()[handle.id_spec()].0
                    && *pair.1 == self.entries()[handle.id_spec()].1,
                None => !self.entries().contains_key(handle.id_spec()),
            },
    {
        self.table.get_with_plugin(handle.id())
    }

    /// Remove a action by handle.
    pub fn remove(&mut self, handle: ActionHandle) -> (r: Option<T>)
        requires
            old(self).wf(),
        ensures
            final(self).wf(),
            remove_step(
                old(self).entries(), old(self).order(), old(self).generation(),
                final(self).entries(), final(self).order(), final(self).generation(),
                handle.id_spec(),
            ),
            match r {
                Some(t) => old(self).entries().contains_key(handle.id_spec()) && t == old(self).entries()[handle.id_spec()].1,
                None => !old(self).entries().contains_key(handle.id_spec()),
            },
    {
        self.table.remove(handle.id())
    }

    /// All actions in registration order, with their handles and plugin names.
    pub fn iter(&self) -> (r: Vec<(ActionHandle, &str, &T)>)
        requires
            self.wf(),
        ensures
            r@.len() == self.order().len(),
            forall|i: int| 0 <= i < r@.len() ==> {
                let id = #[trigger] self.order()[i];
                &&& r@[i].0.id_spec() == id
                &&& r@[i].1@ == self.entries()[id].0
                &&& *r@[i].2 == self.entries()[id].1
            },
    {
        let rows = self.table.ordered();
        let mut out: Vec<(ActionHandle, &str, &T)> = Vec::new();
        let mut i: usize = 0;
        while i < rows.len()
            invariant
                0 <= i <= rows@.len(),
                rows@.len() == self.order().len(),
                forall|j: int| 0 <= j < rows@.len() ==> {
                    let id = #[trigger] self.order()[j];
                    &&& rows@[j].0 == id
                    &&& rows@[j].1@ == self.entries()[id].0
                    &&& *rows@[j].2 == self.entries()[id].1
                },
                out@.len() == i,
                forall|j: int| 0 <= j < i ==> {
                    let id = #[trigger] self.order()[j];
                    &&& out@[j].0.id_spec() == id
                    &&& out@[j].1@ == self.entries()[id].0
                    &&& *out@[j].2 == self.entries()[id].1
                },
            decreases rows@.len() - i,
        {
            let row = rows[i];
            out.push((ActionHandle::new(row.0), row.1, row.2));
            i = i + 1;
        }
        out
    }

    /// Get all handles for a plugin, in registration order.
    pub fn handles_for_plugin(&self, plugin_name: &str) -> (r: Vec<ActionHandle>)
        requires
            self.wf(),
        ensures
            r@.map_values(|h: ActionHandle| h.id_spec()) == self.order().filter(by_plugin(self.entries(), plugin_name@)),
    {
        let ids = self.table.ids_for_plugin(plugin_name);
        let mut out: Vec<ActionHandle> = Vec::new();
        let mut i: usize = 0;
        while i < ids.len()
            invariant
                0 <= i <= ids@.len(),
                out@.len() == i,
                forall|j: int| 0 <= j < i ==> (#[trigger] out@[j]).id_spec() == ids@[j],
            decreases ids@.len() - i,
        {
            out.push(ActionHandle::new(ids[i]));
            i = i + 1;
        }
        proof {
            assert(out@.map_values(|h: ActionHandle| h.id_spec()) =~= ids@);
        }
        out
    }

    /// Remove all actions of a plugin; returns them in registration order.
    pub fn remove_plugin(&mut self, plugin_name: &str) -> (r: Vec<T>)
        requires
            old(self).wf(),
        ensures
            final(self).wf(),
            remove_plugin_step(
                old(self).entries(), old(self).order(), old(self).generation(),
                final(self).entries(), final(self).order(), final(self).generation(),
                plugin_name@, r@,
            ),
    {
        self.table.remove_plugin(plugin_name)
    }

    /// Check if empty.
    pub fn is_empty(&self) -> (r: bool)
        ensures
            r == (self.entries().len() == 0),
    {
        self.table.is_empty()
    }

    /// Get the number of registered actions.
    pub fn len(&self) -> (r: usize)
        ensures
            r == self.entries().len(),
    {
        self.table.len()
    }
}

impl<T> Default for ActionRegistry<T> {
    fn default() -> (r: Self)
        ensures
            r.wf(),
            r.entries() == Map::<u64, (Seq<char>, T)>::empty(),
            r.order() == Seq::<u64>::empty(),
            r.generation() == 0,
    {
        Self::new()
    }
}

// =============================================================================
// Laws of the registries
// =============================================================================

/// A read after an insert finds what was inserted: the new handle maps to the
/// inserted value under the inserting plugin's name.
pub proof fn law_get_after_insert<T>(
    e0: Map<u64, (Seq<char>, T)>, o0: Seq<u64>, g0: nat,
    e1: Map<u64, (Seq<char>, T)>, o1: Seq<u64>, g1: nat,
    id: u64, name: Seq<char>, item: T,
)
    requires
        insert_step(e0, o0, g0, e1, o1, g1, id, name, item),
    ensures
        e1.contains_key(id),
        e1[id] == (name, item),
        forall|k: u64| k != id ==> (#[trigger] e1.contains_key(k) == e0.contains_key(k) && (e0.contains_key(k) ==> e1[k] == e0[k])),
{
}

/// Handles are unique: a new handle differs from every handle issued before
/// it, whether or not that handle is still registered, and the model stays
/// well formed.
pub proof fn law_insert_fresh<T>(
    e0: Map<u64, (Seq<char>, T)>, o0: Seq<u64>, g0: nat,
    e1: Map<u64, (Seq<char>, T)>, o1: Seq<u64>, g1: nat,
    id: u64, name: Seq<char>, item: T, earlier: u64,
)
    requires
        model_wf(e0, o0, g0),
        insert_step(e0, o0, g0, e1, o1, g1, id, name, item),
        1 <= earlier <= g0,
    ensures
        id != earlier,
        model_wf(e1, o1, g1),
{
    assert forall|k: u64| #[trigger] e1.contains_key(k) implies o1.contains(k) by {
        if k == id {
            assert(o1[o1.len() - 1] == id);
        } else {
            let j = choose|j: int| 0 <= j < o0.len() && o0[j] == k;
            assert(o1[j] == k);
        }
    }
    assert forall|i: int| 0 <= i < o1.len() implies e1.contains_key(#[trigger] o1[i]) by {
        if i < o0.len() {
            assert(o1[i] == o0[i]);
        }
    }
    assert(!o0.contains(id));
}

/// A removed handle is stale: looking it up finds nothing, and no later
/// insert hands it out again.
pub proof fn law_stale_handle<T>(
    e0: Map<u64, (Seq<char>, T)>, o0: Seq<u64>, g0: nat,
    e1: Map<u64, (Seq<char>, T)>, o1: Seq<u64>, g1: nat,
    e2: Map<u64, (Seq<char>, T)>, o2: Seq<u64>, g2: nat,
    id: u64, id2: u64, name: Seq<char>, item: T,
)
    requires
        model_wf(e0, o0, g0),
        1 <= id <= g0,
        remove_step(e0, o0, g0, e1, o1, g1, id),
        insert_step(e1, o1, g1, e2, o2, g2, id2, name, item),
    ensures
        !e1.contains_key(id),
        id2 != id,
        !e2.contains_key(id),
{
}

/// Removing a plugin removes exactly its entries: none of them remain, all
/// others remain unchanged, the values handed back are those entries, and the
/// count of what was handed back and what remains is the count before.
pub proof fn law_remove_plugin<T>(
    e0: Map<u64, (Seq<char>, T)>, o0: Seq<u64>, g0: nat,
    e1: Map<u64, (Seq<char>, T)>, o1: Seq<u64>, g1: nat,
    name: Seq<char>, removed: Seq<T>,
)
    requires
        model_wf(e0, o0, g0),
        remove_plugin_step(e0, o0, g0, e1, o1, g1, name, removed),
    ensures
        forall|k: u64| #[trigger] e1.contains_key(k) ==> e1[k].0 != name,
        forall|k: u64| #[trigger] e0.contains_key(k) && e0[k].0 != name ==> e1.contains_key(k) && e1[k] == e0[k],
        removed.len() + e1.len() == e0.len(),
        model_wf(e1, o1, g1),
{
    let pred = by_plugin(e0, name);
    let npred = not_by_plugin(e0, name);
    lemma_filter_partition_len(o0, pred, npred);
    lemma_filter_members(o0, npred);
    lemma_filter_no_duplicates(o0, npred);
    assert(e1.dom() =~= o1.to_set()) by {
        assert forall|k: u64| e1.dom().contains(k) <==> o1.to_set().contains(k) by {
            if e1.contains_key(k) {
                let j = choose|j: int| 0 <= j < o0.len() && o0[j] == k;
                assert(npred(o0[j]));
            }
        }
    }
    o1.unique_seq_to_set();
    assert forall|k: u64| #[trigger] e1.contains_key(k) implies o1.contains(k) by {
        assert(o1.to_set().contains(k));
    }
    assert forall|i: int| 0 <= i < o1.len() implies e1.contains_key(#[trigger] o1[i]) by {
        assert(o1.to_set().contains(o1[i]));
    }
}


// =============================================================================
// Histories of a registry
// =============================================================================

/// The model of a registry: its entries, their ids in registration order, and
/// the last id handed out.
pub struct RegistryModel<T> {
    pub entries: Map<u64, (Seq<char>, T)>,
    pub order: Seq<u64>,
    pub generation: nat,
}

/// A call that changes a registry.
pub enum RegistryOp<T> {
    /// `insert(plugin, item)`.
    Insert { plugin: Seq<char>, item: T },
    /// `remove(handle)` for the handle with this id.
    Remove { id: u64 },
    /// `remove_plugin(plugin)`.
    RemovePlugin { plugin: Seq<char> },
}

/// The model of a new registry.
pub open spec fn empty_model<T>() -> RegistryModel<T> {
    RegistryModel { entries: Map::empty(), order: Seq::empty(), generation: 0 }
}

/// The model after one call.
pub open spec fn apply_op<T>(m: RegistryModel<T>, op: RegistryOp<T>) -> RegistryModel<T> {
    match op {
        RegistryOp::Insert { plugin, item } => {
            let id = (m.generation + 1) as u64;
            RegistryModel {
                entries: m.entries.insert(id, (plugin, item)),
                order: m.order.push(id),
                generation: m.generation + 1,
            }
        },
        RegistryOp::Remove { id } => RegistryModel {
            entries: m.entries.remove(id),
            order: m.order.filter(other_than(id)),
            generation: m.generation,
        },
        RegistryOp::RemovePlugin { plugin } => RegistryModel {
            entries: without_plugin(m.entries, plugin),
            order: m.order.filter(not_by_plugin(m.entries, plugin)),
            generation: m.generation,
        },
    }
}

/// The model of a new registry after a history of calls.
pub open spec fn replay<T>(ops: Seq<RegistryOp<T>>) -> RegistryModel<T>
    decreases ops.len(),
{
    if ops.len() == 0 {
        empty_model()
    } else {
        apply_op(replay(ops.drop_last()), ops.last())
    }
}

/// The ids that the inserts of a history handed out, in order.
pub open spec fn issued<T>(ops: Seq<RegistryOp<T>>) -> Seq<u64>
    decreases ops.len(),
{
    if ops.len() == 0 {
        Seq::empty()
    } else {
        match ops.last() {
            RegistryOp::Insert { .. } => issued(ops.drop_last()).push(
                (replay(ops.drop_last()).generation + 1) as u64,
            ),
            _ => issued(ops.drop_last()),
        }
    }
}

/// The number of inserts in a history.
pub open spec fn insert_count<T>(ops: Seq<RegistryOp<T>>) -> nat
    decreases ops.len(),
{
    if ops.len() == 0 {
        0
    } else {
        insert_count(ops.drop_last()) + match ops.last() {
            RegistryOp::Insert { .. } => 1nat,
            _ => 0nat,
        }
    }
}

/// Whether a call took a registry from `m0` to `m1`, as the registries'
/// `insert`, `remove` and `remove_plugin` state it.
pub open spec fn op_step<T>(m0: RegistryModel<T>, op: RegistryOp<T>, m1: RegistryModel<T>) -> bool {
    match op {
        RegistryOp::Insert { plugin, item } => insert_step(
            m0.entries, m0.order, m0.generation, m1.entries, m1.order, m1.generation,
            (m0.generation + 1) as u64, plugin, item,
        ),
        RegistryOp::Remove { id } => remove_step(
            m0.entries, m0.order, m0.generation, m1.entries, m1.order, m1.generation, id,
        ),
        RegistryOp::RemovePlugin { plugin } => remove_plugin_step(
            m0.entries, m0.order, m0.generation, m1.entries, m1.order, m1.generation,
            plugin, m0.order.filter(by_plugin(m0.entries, plugin)).map_values(|id: u64| m0.entries[id].1),
        ),
    }
}

/// Whether `ms` are the models of a registry along a history: it starts new,
/// and each call takes it from one model to the next.
pub open spec fn follows_history<T>(ops: Seq<RegistryOp<T>>, ms: Seq<RegistryModel<T>>) -> bool {
    &&& ms.len() == ops.len() + 1
    &&& ms[0] == empty_model::<T>()
    &&& forall|i: int| 0 <= i < ops.len() ==> op_step(#[trigger] ms[i], ops[i], ms[i + 1])
}

/// A model is well formed when it meets the registry's invariant.
pub open spec fn model_ok<T>(m: RegistryModel<T>) -> bool {
    model_wf(m.entries, m.order, m.generation)
}

/// The invariant holds of an order and entries that name the same ids.
proof fn lemma_model_wf_from_order<T>(e: Map<u64, (Seq<char>, T)>, o: Seq<u64>, g: nat)
    requires
        o.no_duplicates(),
        forall|k: u64| #[trigger] e.contains_key(k) <==> o.contains(k),
        forall|k: u64| #[trigger] e.contains_key(k) ==> 1 <= k <= g,
    ensures
        model_wf(e, o, g),
{
    assert(e.dom() =~= o.to_set());
    o.unique_seq_to_set();
    assert forall|i: int| 0 <= i < o.len() implies e.contains_key(#[trigger] o[i]) by {
        assert(o.contains(o[i]));
    }
}

/// A filter keeps an increasing sequence increasing.
proof fn lemma_filter_increasing(s: Seq<u64>, pred: spec_fn(u64) -> bool)
    requires
        forall|i: int, j: int| 0 <= i < j < s.len() ==> s[i] < s[j],
    ensures
        forall|i: int, j: int| 0 <= i < j < s.filter(pred).len() ==> s.filter(pred)[i] < s.filter(pred)[j],
    decreases s.len(),
{
    if s.len() == 0 {
        reveal(Seq::filter);
    } else {
        let t = s.drop_last();
        lemma_filter_increasing(t, pred);
        assert(s =~= t.push(s.last()));
        lemma_filter_push(t, s.last(), pred);
        lemma_filter_members(t, pred);
        let f = s.filter(pred);
        let ft = t.filter(pred);
        if pred(s.last()) {
            assert forall|i: int, j: int| 0 <= i < j < f.len() implies f[i] < f[j] by {
                if j < ft.len() {
                    assert(f[i] == ft[i] && f[j] == ft[j]);
                } else {
                    assert(f[j] == s.last());
                    assert(f[i] == ft[i]);
                    assert(t.contains(ft[i]));
                    let k = choose|k: int| 0 <= k < t.len() && t[k] == ft[i];
                    assert(s[k] == t[k]);
                    assert(s[s.len() - 1] == s.last());
                }
            }
        }
    }
}

/// One call on a well-formed model whose order is increasing keeps it so.
proof fn lemma_op_keeps_invariant<T>(m: RegistryModel<T>, op: RegistryOp<T>)
    requires
        model_ok(m),
        forall|i: int, j: int| 0 <= i < j < m.order.len() ==> m.order[i] < m.order[j],
        op is Insert ==> m.generation < u64::MAX,
    ensures
        model_ok(apply_op(m, op)),
        forall|i: int, j: int| 0 <= i < j < apply_op(m, op).order.len() ==> apply_op(m, op).order[i]
            < apply_op(m, op).order[j],
        apply_op(m, op).generation == m.generation + (if op is Insert { 1nat } else { 0nat }),
{
    let m1 = apply_op(m, op);
    match op {
        RegistryOp::Insert { plugin, item } => {
            let id = (m.generation + 1) as u64;
            if m.generation >= 1 {
                law_insert_fresh(m.entries, m.order, m.generation, m1.entries, m1.order, m1.generation, id, plugin, item, 1);
            } else {
                assert(m.entries.dom() =~= Set::<u64>::empty());
                assert(m.order.len() == 0);
                assert(m1.order =~= seq![id]);
                assert forall|k: u64| #[trigger] m1.entries.contains_key(k) <==> m1.order.contains(k) by {
                    if m1.order.contains(k) {
                        let j = choose|j: int| 0 <= j < m1.order.len() && m1.order[j] == k;
                        assert(j == 0);
                    }
                    if k == id {
                        assert(m1.order[0] == id);
                    }
                }
                lemma_model_wf_from_order(m1.entries, m1.order, m1.generation);
            }
            assert forall|i: int, j: int| 0 <= i < j < m1.order.len() implies m1.order[i] < m1.order[j] by {
                if j < m.order.len() {
                    assert(m1.order[i] == m.order[i] && m1.order[j] == m.order[j]);
                } else {
                    assert(m1.order[i] == m.order[i]);
                    assert(m.entries.contains_key(m.order[i]));
                }
            }
        },
        RegistryOp::Remove { id } => {
            lemma_filter_members(m.order, other_than(id));
            lemma_filter_no_duplicates(m.order, other_than(id));
            lemma_filter_increasing(m.order, other_than(id));
            assert forall|k: u64| #[trigger] m1.entries.contains_key(k) <==> m1.order.contains(k) by {
                if m1.entries.contains_key(k) {
                    assert(m.order.contains(k));
                    let j = choose|j: int| 0 <= j < m.order.len() && m.order[j] == k;
                    assert(other_than(id)(m.order[j]));
                }
                if m1.order.contains(k) {
                    let j = choose|j: int| 0 <= j < m1.order.len() && m1.order[j] == k;
                    assert(other_than(id)(m1.order[j]) && m.order.contains(m1.order[j]));
                }
            }
            lemma_model_wf_from_order(m1.entries, m1.order, m1.generation);
        },
        RegistryOp::RemovePlugin { plugin } => {
            let removed = m.order.filter(by_plugin(m.entries, plugin)).map_values(|id: u64| m.entries[id].1);
            law_remove_plugin(m.entries, m.order, m.generation, m1.entries, m1.order, m1.generation, plugin, removed);
            lemma_filter_increasing(m.order, not_by_plugin(m.entries, plugin));
        },
    }
}

/// Handles are never reused over a registry's history, and iteration keeps
/// registration order: the inserts of a history hand out the ids 1, 2, 3, …
/// in turn, so no id is handed out twice, even after removals; every live
/// entry has an id that was handed out; the ids of the live entries, in the
/// order that iteration yields them, are increasing, which is the order in
/// which they were inserted; and the registry's invariant holds throughout.
pub proof fn law_handles_never_reused<T>(ops: Seq<RegistryOp<T>>)
    requires
        insert_count(ops) <= u64::MAX,
    ensures
        model_ok(replay(ops)),
        replay(ops).generation == insert_count(ops),
        issued(ops).len() == insert_count(ops),
        forall|i: int| 0 <= i < issued(ops).len() ==> #[trigger] issued(ops)[i] == i + 1,
        issued(ops).no_duplicates(),
        forall|k: u64| #[trigger] replay(ops).entries.contains_key(k) ==> issued(ops).contains(k),
        forall|i: int, j: int| 0 <= i < j < replay(ops).order.len() ==> replay(ops).order[i] < replay(ops).order[j],
    decreases ops.len(),
{
    if ops.len() == 0 {
        assert(empty_model::<T>().entries.dom() =~= Set::<u64>::empty());
    } else {
        let prev = ops.drop_last();
        law_handles_never_reused(prev);
        lemma_op_keeps_invariant(replay(prev), ops.last());
        let m = replay(ops);
        assert forall|k: u64| #[trigger] m.entries.contains_key(k) implies issued(ops).contains(k) by {
            assert(1 <= k <= m.generation);
            assert(issued(ops)[k - 1] == k);
        }
    }
}

/// A registry is determined by its history: along any history, each model
/// is the replay of the calls made so far. So two registries built by the
/// same history, such as a source registry and a trigger registry, hold the
/// same entries in the same order at every point, and hand back the same
/// items from `remove_plugin`.
pub proof fn law_history_determines_model<T>(ops: Seq<RegistryOp<T>>, ms: Seq<RegistryModel<T>>)
    requires
        follows_history(ops, ms),
    ensures
        forall|i: int| 0 <= i < ms.len() ==> #[trigger] ms[i] == replay(ops.take(i)),
    decreases ops.len(),
{
    if ops.len() > 0 {
        let n = ops.len() - 1;
        let prev = ops.drop_last();
        let pms = ms.drop_last();
        assert forall|i: int| 0 <= i < prev.len() implies op_step(#[trigger] pms[i], prev[i], pms[i + 1]) by {
            assert(op_step(ms[i], ops[i], ms[i + 1]));
        }
        law_history_determines_model(prev, pms);
        assert forall|i: int| 0 <= i < ms.len() implies #[trigger] ms[i] == replay(ops.take(i)) by {
            if i < ms.len() - 1 {
                assert(pms[i] == ms[i]);
                assert(prev.take(i) =~= ops.take(i));
            } else {
                assert(pms[n] == replay(prev.take(n)));
                assert(prev.take(n) =~= prev);
                assert(ops.take(i) =~= ops);
                assert(op_step(ms[n], ops[n], ms[n + 1]));
                let a = ms[n + 1];
                let b = apply_op(ms[n], ops[n]);
                assert(a.entries =~= b.entries);
                assert(a.order =~= b.order);
            }
        }
    } else {
        assert(ops.take(0) =~= ops);
    }
}

/// Two registries built by the same history agree at every point.
pub proof fn law_same_history_agree<T>(ops: Seq<RegistryOp<T>>, ms: Seq<RegistryModel<T>>, ns: Seq<RegistryModel<T>>)
    requires
        follows_history(ops, ms),
        follows_history(ops, ns),
    ensures
        ms == ns,
{
    law_history_determines_model(ops, ms);
    law_history_determines_model(ops, ns);
    assert forall|i: int| 0 <= i < ms.len() implies #[trigger] ms[i] == ns[i] by {
        assert(ms[i] == replay(ops.take(i)));
        assert(ns[i] == replay(ops.take(i)));
    }
    assert(ms =~= ns);
}

/// The handles of a plugin, as `handles_for_plugin` lists them, have no
/// duplicates and are exactly the live handles of that plugin.
pub proof fn law_handles_for_plugin<T>(e: Map<u64, (Seq<char>, T)>, o: Seq<u64>, g: nat, name: Seq<char>)
    requires
        model_wf(e, o, g),
    ensures
        o.filter(by_plugin(e, name)).no_duplicates(),
        forall|k: u64| #[trigger] o.filter(by_plugin(e, name)).contains(k) <==> (e.contains_key(k) && e[k].0 == name),
{
    let pred = by_plugin(e, name);
    lemma_filter_no_duplicates(o, pred);
    lemma_filter_members(o, pred);
    assert forall|k: u64| #[trigger] o.filter(pred).contains(k) <==> (e.contains_key(k) && e[k].0 == name) by {
        if o.filter(pred).contains(k) {
            let j = choose|j: int| 0 <= j < o.filter(pred).len() && o.filter(pred)[j] == k;
            assert(pred(o.filter(pred)[j]) && o.contains(o.filter(pred)[j]));
        }
        if e.contains_key(k) && e[k].0 == name {
            let j = choose|j: int| 0 <= j < o.len() && o[j] == k;
            assert(pred(o[j]));
        }
    }
}

/// After `remove_plugin`, the plugin has no handles left and the count of
/// entries dropped by the number of items handed back; a second
/// `remove_plugin` of the same plugin hands back nothing and changes nothing.
pub proof fn law_remove_plugin_twice<T>(
    e0: Map<u64, (Seq<char>, T)>, o0: Seq<u64>, g0: nat,
    e1: Map<u64, (Seq<char>, T)>, o1: Seq<u64>, g1: nat,
    e2: Map<u64, (Seq<char>, T)>, o2: Seq<u64>, g2: nat,
    name: Seq<char>, first: Seq<T>, second: Seq<T>,
)
    requires
        model_wf(e0, o0, g0),
        remove_plugin_step(e0, o0, g0, e1, o1, g1, name, first),
        remove_plugin_step(e1, o1, g1, e2, o2, g2, name, second),
    ensures
        o1.filter(by_plugin(e1, name)).len() == 0,
        e1.len() == e0.len() - first.len(),
        second.len() == 0,
        e2 == e1,
        o2 == o1,
        g2 == g1,
{
    law_remove_plugin(e0, o0, g0, e1, o1, g1, name, first);
    let npred0 = not_by_plugin(e0, name);
    lemma_filter_members(o0, npred0);
    assert forall|i: int| 0 <= i < o1.len() implies !by_plugin(e1, name)(#[trigger] o1[i]) by {
        assert(npred0(o1[i]) && o0.contains(o1[i]));
        assert(e1.contains_key(o1[i]));
    }
    assert forall|i: int| 0 <= i < o1.len() implies not_by_plugin(e1, name)(#[trigger] o1[i]) by {
        assert(!by_plugin(e1, name)(o1[i]));
    }
    lemma_filter_none(o1, by_plugin(e1, name));
    lemma_filter_all(o1, not_by_plugin(e1, name));
    assert(e2 =~= e1);
}

/// The items that `remove_plugin` hands back from a model, in registration
/// order.
pub open spec fn plugin_items<T>(m: RegistryModel<T>, name: Seq<char>) -> Seq<T> {
    m.order.filter(by_plugin(m.entries, name)).map_values(|id: u64| m.entries[id].1)
}

/// Iteration over a trigger registry keeps registration order, whatever
/// calls built it: `states` are the registry along a history of calls. In
/// the last state each live entry appears in the iteration order exactly
/// once, removed entries never appear, and the handle ids increase along the
/// order, so the survivors come in the order they were inserted; every
/// handle there was handed out by an insert of the history.
pub proof fn law_iter_registration_order<T>(ops: Seq<RegistryOp<T>>, states: Seq<TriggerRegistry<T>>)
    requires
        follows_history(ops, states.map_values(|r: TriggerRegistry<T>| r.model())),
        insert_count(ops) <= u64::MAX,
    ensures
        ({
            let r = states.last();
            &&& r.order().no_duplicates()
            &&& forall|k: u64| #[trigger] r.entries().contains_key(k) <==> r.order().contains(k)
            &&& forall|i: int, j: int| 0 <= i < j < r.order().len() ==> r.order()[i] < r.order()[j]
            &&& forall|i: int| 0 <= i < r.order().len() ==> issued(ops).contains(#[trigger] r.order()[i])
        }),
{
    let ms = states.map_values(|r: TriggerRegistry<T>| r.model());
    law_history_determines_model(ops, ms);
    law_handles_never_reused(ops);
    let n = ops.len() as int;
    assert(ms[n] == replay(ops.take(n)));
    assert(ops.take(n) =~= ops);
    let m = replay(ops);
    assert(states.last().model() == m);
    assert forall|i: int| 0 <= i < m.order.len() implies issued(ops).contains(#[trigger] m.order[i]) by {
        assert(m.entries.contains_key(m.order[i]));
    }
}

/// A source registry and a trigger registry built by the same history of
/// calls agree at every point: the same entries under the same handle ids,
/// in the same order, with the same generation; so they iterate alike, have
/// the same length, and `remove_plugin` hands back the same items from both.
pub proof fn law_source_trigger_agree<T>(
    ops: Seq<RegistryOp<T>>,
    sources: Seq<SourceRegistry<T>>,
    triggers: Seq<TriggerRegistry<T>>,
)
    requires
        follows_history(ops, sources.map_values(|r: SourceRegistry<T>| r.model())),
        follows_history(ops, triggers.map_values(|r: TriggerRegistry<T>| r.model())),
    ensures
        forall|i: int| 0 <= i < sources.len() ==> {
            &&& (#[trigger] sources[i]).entries() == triggers[i].entries()
            &&& sources[i].order() == triggers[i].order()
            &&& sources[i].generation() == triggers[i].generation()
            &&& forall|name: Seq<char>|
                #[trigger] plugin_items(sources[i].model(), name) == plugin_items(triggers[i].model(), name)
        },
{
    let ms = sources.map_values(|r: SourceRegistry<T>| r.model());
    let ns = triggers.map_values(|r: TriggerRegistry<T>| r.model());
    law_same_history_agree(ops, ms, ns);
    assert forall|i: int| 0 <= i < sources.len() implies {
        &&& (#[trigger] sources[i]).entries() == triggers[i].entries()
        &&& sources[i].order() == triggers[i].order()
        &&& sources[i].generation() == triggers[i].generation()
    } by {
        assert(ms[i] == ns[i]);
    }
}

} // verus!
