//! Generational slot store issuing stable, collision-free identifiers.
//!
//! Resources live in slots; each slot carries a generation counter that is
//! bumped whenever the slot is freed. An identifier records both the slot
//! index and the generation the slot had when the resource was stored, so a
//! stale identifier (its referent was removed, and the slot possibly reused
//! since) no longer matches and resolves to nothing.

use vstd::prelude::*;
use vstd::pervasive::VecAdditionalExecFns;

verus! {

/// Stable identifier issued by a [`Registry`]: a slot index together with the
/// generation the slot had when the identified resource was stored.
///
/// An identifier is unique for the lifetime of its referent and is never
/// issued again by the same registry, even after its slot is reused.
#[derive(Clone, Copy, Debug, PartialEq, Eq, PartialOrd, Ord, Hash, Structural)]
pub struct StableID {
    pub slot: usize,
    pub generation: u64,
}

/// One slot of a registry: its current generation and its occupant, if any.
struct Slot<T> {
    generation: u64,
    value: Option<T>,
}

/// Generational slot store.
///
/// Viewed as a map from [`StableID`] to the stored resources. `insert`
/// places a resource in a vacant slot and returns a fresh identifier;
/// `get` resolves an identifier, returning nothing for a stale one;
/// `remove` frees the slot and bumps its generation so the identifier can
/// never resolve again. A slot whose generation counter is exhausted is
/// retired rather than reused.
pub struct Registry<T> {
    slots: Vec<Slot<T>>,
    /// Indices of vacant slots available for reuse.
    free: Vec<usize>,
    /// Every identifier this registry has ever issued; freshness guarantees
    /// are stated against this set.
    issued: Ghost<Set<StableID>>,
}

impl<T> Registry<T> {
    /// Whether `id` currently resolves: its slot exists, is occupied, and
    /// still carries the generation recorded in `id`.
    spec fn live(self, id: StableID) -> bool {
        &&& id.slot < self.slots@.len()
        &&& self.slots@[id.slot as int].generation == id.generation
        &&& self.slots@[id.slot as int].value.is_some()
    }

    /// Every identifier this registry has ever issued.
    pub closed spec fn issued_ids(self) -> Set<StableID> {
        self.issued@
    }

    /// Internal consistency: free-list entries denote vacant slots and hold
    /// no duplicates; issued identifiers never run ahead of their slot's
    /// generation, and are strictly behind it when the slot is vacant and
    /// reusable; every occupant's identifier has been issued.
    pub closed spec fn inv(self) -> bool {
        &&& forall|k: int|
            0 <= k < self.free@.len() ==> {
                &&& (#[trigger] self.free@[k]) < self.slots@.len()
                &&& self.slots@[self.free@[k] as int].value.is_none()
            }
        &&& forall|k1: int, k2: int|
            0 <= k1 < k2 < self.free@.len() ==> self.free@[k1] != self.free@[k2]
        &&& forall|id: StableID|
            #[trigger] self.issued@.contains(id) ==> {
                &&& id.slot < self.slots@.len()
                &&& id.generation <= self.slots@[id.slot as int].generation
            }
        &&& forall|id: StableID|
            #[trigger] self.issued@.contains(id) && self.free@.contains(id.slot as usize)
                ==> id.generation < self.slots@[id.slot as int].generation
        &&& forall|i: int|
            0 <= i < self.slots@.len() && (#[trigger] self.slots@[i]).value.is_some()
                ==> self.issued@.contains(
                    StableID { slot: i as usize, generation: self.slots@[i].generation },
                )
    }

    /// An empty registry.
    pub fn new() -> (r: Self)
        ensures
            r.inv(),
            r@ == Map::<StableID, T>::empty(),
            r.issued_ids() == Set::<StableID>::empty(),
    {
        let r = Registry { slots: Vec::new(), free: Vec::new(), issued: Ghost(Set::empty()) };
        proof {
            assert(r@ =~= Map::<StableID, T>::empty());
        }
        r
    }

    /// Stores `value` in a vacant slot and returns a fresh identifier for it:
    /// one the registry has never issued before, under which exactly `value`
    /// is now retrievable while everything else is untouched.
    pub fn insert(&mut self, value: T) -> (id: StableID)
        requires
            old(self).inv(),
        ensures
            final(self).inv(),
            !old(self).issued_ids().contains(id),
            final(self).issued_ids() == old(self).issued_ids().insert(id),
            final(self)@ == old(self)@.insert(id, value),
    {
        match self.free.pop() {
            Some(i) => {
                proof {
                    assert(old(self).free@.contains(i)) by {
                        assert(old(self).free@[old(self).free@.len() - 1] == i);
                    }
                }
                let g = self.slots[i].generation;
                let id = StableID { slot: i, generation: g };
                proof {
                    assert(!old(self).issued@.contains(id)) by {
                        if old(self).issued@.contains(id) {
                            assert(id.generation < old(self).slots@[id.slot as int].generation);
                        }
                    }
                }
                self.slots.set(i, Slot { generation: g, value: Some(value) });
                self.issued = Ghost(self.issued@.insert(id));
                proof {
                    self.lemma_after_reuse(*old(self), id, value);
                }
                id
            },
            None => {
                let i = self.slots.len();
                let id = StableID { slot: i, generation: 0 };
                proof {
                    assert(!old(self).issued@.contains(id)) by {
                        if old(self).issued@.contains(id) {
                            assert(id.slot < old(self).slots@.len());
                        }
                    }
                }
                self.slots.push(Slot { generation: 0, value: Some(value) });
                self.issued = Ghost(self.issued@.insert(id));
                proof {
                    self.lemma_after_push(*old(self), id, value);
                }
                id
            },
        }
    }

    /// Invariant and view bookkeeping for an insert that reused a freed slot.
    proof fn lemma_after_reuse(self, pre: Self, id: StableID, value: T)
        requires
            pre.inv(),
            pre.free@.len() > 0,
            id.slot == pre.free@[pre.free@.len() - 1],
            id.generation == pre.slots@[id.slot as int].generation,
            !pre.issued@.contains(id),
            self.free@ == pre.free@.drop_last(),
            self.slots@ == pre.slots@.update(
                id.slot as int,
                Slot { generation: id.generation, value: Some(value) },
            ),
            self.issued@ == pre.issued@.insert(id),
        ensures
            self.inv(),
            self@ == pre@.insert(id, value),
    {
        assert forall|k: int| 0 <= k < self.free@.len() implies {
            &&& (#[trigger] self.free@[k]) < self.slots@.len()
            &&& self.slots@[self.free@[k] as int].value.is_none()
        } by {
            assert(self.free@[k] == pre.free@[k]);
            assert(pre.free@[k] != id.slot);
        }
        assert forall|x: StableID|
            #[trigger] self.issued@.contains(x) && self.free@.contains(x.slot as usize)
        implies x.generation < self.slots@[x.slot as int].generation by {
            let k = choose|k: int| 0 <= k < self.free@.len() && self.free@[k] == x.slot;
            assert(pre.free@[k] == x.slot);
            assert(pre.free@.contains(x.slot as usize));
            assert(x.slot != id.slot);
            assert(pre.issued@.contains(x));
        }
        assert forall|i: int|
            0 <= i < self.slots@.len() && (#[trigger] self.slots@[i]).value.is_some()
        implies self.issued@.contains(
            StableID { slot: i as usize, generation: self.slots@[i].generation },
        ) by {
            if i != id.slot as int {
                assert(pre.slots@[i].value.is_some());
            }
        }
        assert(self@ =~= pre@.insert(id, value)) by {
            assert forall|x: StableID| true implies
                (self.live(x) <==> (pre.live(x) || x == id)) by {
                if x.slot == id.slot && x != id {
                    assert(pre.slots@[x.slot as int].value.is_none());
                    assert(x.generation != id.generation);
                }
            }
        }
    }

    /// Invariant and view bookkeeping for an insert that appended a new slot.
    proof fn lemma_after_push(self, pre: Self, id: StableID, value: T)
        requires
            pre.inv(),
            id.slot == pre.slots@.len(),
            id.generation == 0,
            !pre.issued@.contains(id),
            self.free@ == pre.free@,
            self.slots@ == pre.slots@.push(Slot { generation: 0, value: Some(value) }),
            self.issued@ == pre.issued@.insert(id),
        ensures
            self.inv(),
            self@ == pre@.insert(id, value),
    {
        assert forall|k: int| 0 <= k < self.free@.len() implies {
            &&& (#[trigger] self.free@[k]) < self.slots@.len()
            &&& self.slots@[self.free@[k] as int].value.is_none()
        } by {
            assert(pre.free@[k] < pre.slots@.len());
        }
        assert forall|x: StableID|
            #[trigger] self.issued@.contains(x) && self.free@.contains(x.slot as usize)
        implies x.generation < self.slots@[x.slot as int].generation by {
            if x != id {
                assert(pre.issued@.contains(x));
                assert(x.slot < pre.slots@.len());
            } else {
                let k = choose|k: int| 0 <= k < pre.free@.len() && pre.free@[k] == x.slot;
                assert(pre.free@[k] < pre.slots@.len());
            }
        }
        assert forall|i: int|
            0 <= i < self.slots@.len() && (#[trigger] self.slots@[i]).value.is_some()
        implies self.issued@.contains(
            StableID { slot: i as usize, generation: self.slots@[i].generation },
        ) by {
            if i < pre.slots@.len() {
                assert(pre.slots@[i].value.is_some());
            }
        }
        assert(self@ =~= pre@.insert(id, value)) by {
            assert forall|x: StableID| true implies
                (self.live(x) <==> (pre.live(x) || x == id)) by {
                if x.slot == id.slot && x != id {
                    assert(x.generation != id.generation);
                }
            }
        }
    }

    /// Resolves `id`: the stored resource if `id` is live, nothing if `id`
    /// is unknown or stale.
    pub fn get(&self, id: StableID) -> (r: Option<&T>)
        ensures
            match r {
                Some(value) => self@.contains_key(id) && *value == self@[id],
                None => !self@.contains_key(id),
            },
    {
        if id.slot < self.slots.len() {
            let slot = &self.slots[id.slot];
            if slot.generation == id.generation {
                match &slot.value {
                    Some(value) => Some(value),
                    None => None,
                }
            } else {
                None
            }
        } else {
            None
        }
    }

    /// Whether `id` currently resolves to a resource.
    pub fn contains(&self, id: StableID) -> (b: bool)
        ensures
            b == self@.contains_key(id),
    {
        if id.slot < self.slots.len() {
            let slot = &self.slots[id.slot];
            slot.generation == id.generation && slot.value.is_some()
        } else {
            false
        }
    }

    /// Removes and returns the resource `id` resolves to, freeing its slot
    /// and bumping the slot's generation so `id` can never resolve again.
    /// An unknown or stale `id` removes nothing.
    pub fn remove(&mut self, id: StableID) -> (r: Option<T>)
        requires
            old(self).inv(),
        ensures
            final(self).inv(),
            final(self).issued_ids() == old(self).issued_ids(),
            match r {
                Some(value) => {
                    &&& old(self)@.contains_key(id)
                    &&& value == old(self)@[id]
                    &&& final(self)@ == old(self)@.remove(id)
                },
                None => {
                    &&& !old(self)@.contains_key(id)
                    &&& *final(self) == *old(self)
                },
            },
    {
        if id.slot >= self.slots.len() {
            return None;
        }
        let g = self.slots[id.slot].generation;
        if g != id.generation {
            return None;
        }
        if !self.slots[id.slot].value.is_some() {
            return None;
        }
        let exhausted = g == u64::MAX;
        let new_generation = if exhausted { g } else { g + 1 };
        let mut taken = Slot { generation: new_generation, value: None };
        self.slots.set_and_swap(id.slot, &mut taken);
        if !exhausted {
            self.free.push(id.slot);
        }
        proof {
            self.lemma_after_remove(*old(self), id, exhausted);
        }
        match taken.value {
            Some(value) => Some(value),
            None => {
                proof {
                    assert(false);
                }
                None
            },
        }
    }

    /// Invariant and view bookkeeping for a successful removal.
    proof fn lemma_after_remove(self, pre: Self, id: StableID, exhausted: bool)
        requires
            pre.inv(),
            pre.live(id),
            exhausted == (id.generation == u64::MAX),
            self.slots@ == pre.slots@.update(
                id.slot as int,
                Slot {
                    generation: if exhausted { id.generation } else { (id.generation + 1) as u64 },
                    value: None,
                },
            ),
            self.free@ == if exhausted { pre.free@ } else { pre.free@.push(id.slot) },
            self.issued@ == pre.issued@,
        ensures
            self.inv(),
            self@ == pre@.remove(id),
    {
        assert(!pre.free@.contains(id.slot)) by {
            if pre.free@.contains(id.slot) {
                let k = choose|k: int| 0 <= k < pre.free@.len() && pre.free@[k] == id.slot;
                assert(pre.slots@[id.slot as int].value.is_none());
            }
        }
        assert forall|k: int| 0 <= k < self.free@.len() implies {
            &&& (#[trigger] self.free@[k]) < self.slots@.len()
            &&& self.slots@[self.free@[k] as int].value.is_none()
        } by {
            if k < pre.free@.len() {
                assert(pre.free@[k] < pre.slots@.len());
                assert(pre.free@[k] != id.slot);
            }
        }
        assert forall|k1: int, k2: int| 0 <= k1 < k2 < self.free@.len() implies
            self.free@[k1] != self.free@[k2] by {
            if k2 == self.free@.len() - 1 && !exhausted {
                assert(self.free@[k2] == id.slot);
                if k1 < pre.free@.len() {
                    assert(pre.free@[k1] != id.slot);
                }
            }
        }
        assert forall|x: StableID| #[trigger] self.issued@.contains(x) implies {
            &&& x.slot < self.slots@.len()
            &&& x.generation <= self.slots@[x.slot as int].generation
        } by {
            assert(pre.issued@.contains(x));
        }
        assert forall|x: StableID|
            #[trigger] self.issued@.contains(x) && self.free@.contains(x.slot as usize)
        implies x.generation < self.slots@[x.slot as int].generation by {
            assert(pre.issued@.contains(x));
            if x.slot == id.slot {
                assert(x.generation <= pre.slots@[x.slot as int].generation);
                assert(!exhausted);
            } else {
                let k = choose|k: int| 0 <= k < self.free@.len() && self.free@[k] == x.slot;
                assert(k < pre.free@.len());
                assert(pre.free@.contains(x.slot as usize));
            }
        }
        assert forall|i: int|
            0 <= i < self.slots@.len() && (#[trigger] self.slots@[i]).value.is_some()
        implies self.issued@.contains(
            StableID { slot: i as usize, generation: self.slots@[i].generation },
        ) by {
            assert(i != id.slot as int);
            assert(pre.slots@[i].value.is_some());
        }
        assert(self@ =~= pre@.remove(id)) by {
            assert forall|x: StableID| true implies
                (self.live(x) <==> (pre.live(x) && x != id)) by {
                if x.slot == id.slot && x != id {
                    assert(x.generation != id.generation);
                }
            }
        }
    }

    /// Replaces the resource `id` resolves to with `value`, returning the
    /// previous occupant; the identifier stays valid. An unknown or stale
    /// `id` replaces nothing.
    pub fn replace(&mut self, id: StableID, value: T) -> (r: Option<T>)
        requires
            old(self).inv(),
        ensures
            final(self).inv(),
            final(self).issued_ids() == old(self).issued_ids(),
            match r {
                Some(previous) => {
                    &&& old(self)@.contains_key(id)
                    &&& previous == old(self)@[id]
                    &&& final(self)@ == old(self)@.insert(id, value)
                },
                None => {
                    &&& !old(self)@.contains_key(id)
                    &&& *final(self) == *old(self)
                },
            },
    {
        if id.slot >= self.slots.len() {
            return None;
        }
        let g = self.slots[id.slot].generation;
        if g != id.generation {
            return None;
        }
        if !self.slots[id.slot].value.is_some() {
            return None;
        }
        let mut swapped = Slot { generation: g, value: Some(value) };
        self.slots.set_and_swap(id.slot, &mut swapped);
        proof {
            self.lemma_after_replace(*old(self), id, value);
        }
        match swapped.value {
            Some(previous) => Some(previous),
            None => {
                proof {
                    assert(false);
                }
                None
            },
        }
    }

    /// Invariant and view bookkeeping for a successful replacement.
    proof fn lemma_after_replace(self, pre: Self, id: StableID, value: T)
        requires
            pre.inv(),
            pre.live(id),
            self.slots@ == pre.slots@.update(
                id.slot as int,
                Slot { generation: id.generation, value: Some(value) },
            ),
            self.free@ == pre.free@,
            self.issued@ == pre.issued@,
        ensures
            self.inv(),
            self@ == pre@.insert(id, value),
    {
        assert forall|k: int| 0 <= k < self.free@.len() implies {
            &&& (#[trigger] self.free@[k]) < self.slots@.len()
            &&& self.slots@[self.free@[k] as int].value.is_none()
        } by {
            assert(pre.free@[k] < pre.slots@.len());
            if pre.free@[k] == id.slot {
                assert(pre.slots@[id.slot as int].value.is_none());
            }
        }
        assert forall|i: int|
            0 <= i < self.slots@.len() && (#[trigger] self.slots@[i]).value.is_some()
        implies self.issued@.contains(
            StableID { slot: i as usize, generation: self.slots@[i].generation },
        ) by {
            if i != id.slot as int {
                assert(pre.slots@[i].value.is_some());
            } else {
                assert(pre.slots@[i].value.is_some());
            }
        }
        assert(self@ =~= pre@.insert(id, value)) by {
            assert forall|x: StableID| true implies (self.live(x) <==> pre.live(x)) by {}
        }
    }
}

impl<T> View for Registry<T> {
    type V = Map<StableID, T>;

    /// The registry as a map from live identifiers to their resources.
    closed spec fn view(&self) -> Map<StableID, T> {
        Map::new(
            |id: StableID| self.live(id),
            |id: StableID| self.slots@[id.slot as int].value.unwrap(),
        )
    }
}

/// Every identifier that currently resolves was issued by the registry.
pub proof fn lemma_live_ids_issued<T>(r: Registry<T>)
    requires
        r.inv(),
    ensures
        forall|id: StableID| #[trigger] r@.contains_key(id) ==> r.issued_ids().contains(id),
{
    assert forall|id: StableID| #[trigger] r@.contains_key(id) implies
        r.issued_ids().contains(id) by {
        assert(r.issued_ids().contains(
            StableID { slot: id.slot, generation: id.generation },
        ));
        assert(StableID { slot: id.slot, generation: id.generation } == id);
    }
}

/// Law: a resource just inserted is immediately retrievable. Whenever an
/// insert turned registry `pre` into `post`, issuing `id` for `value`, a
/// lookup of `id` in `post` finds exactly `value`.
pub proof fn lemma_insert_then_lookup<T>(pre: Registry<T>, post: Registry<T>, id: StableID, value: T)
    requires
        post@ == pre@.insert(id, value),
    ensures
        post@.contains_key(id),
        post@[id] == value,
{
}

/// Law: a removed identifier never resolves again, even when its slot is
/// reused. Whenever a removal of `id` turned `r0` into `r1` and a later
/// insert (issuing the fresh identifier `reused`) turned `r1` into `r2`,
/// lookups of `id` in `r1` and `r2` find nothing, and the fresh identifier
/// differs from the removed one.
pub proof fn lemma_stale_id_never_resolves<T>(
    r0: Registry<T>,
    r1: Registry<T>,
    r2: Registry<T>,
    id: StableID,
    reused: StableID,
    value: T,
)
    requires
        r0.inv(),
        r0@.contains_key(id),
        r1@ == r0@.remove(id),
        r1.issued_ids() == r0.issued_ids(),
        !r1.issued_ids().contains(reused),
        r2@ == r1@.insert(reused, value),
    ensures
        !r1@.contains_key(id),
        !r2@.contains_key(id),
        reused != id,
{
    lemma_live_ids_issued(r0);
    assert(r0.issued_ids().contains(id));
}

} // verus!
