use vstd::prelude::*;

use fxhash::FxHashMap;

use crate::error::{CantGetResource, InvalidBorrow, NoSuchResource};
use crate::index::{index_contains, index_get, index_insert, index_new, index_remove};
use crate::lock::{
    acquire_shared_step, can_acquire_exclusive, can_acquire_shared, release_shared_step,
    shared_has_room, LockState, ResourcesRwLock,
};
use crate::refs::{Ref, RefMut};

verus! {

/// Types that can be stored in a [`Resources`] container: they must be safe to
/// share and move across threads and carry no borrowed data.
pub trait Resource: Send + Sync + 'static {

}

impl<T: Send + Sync + 'static> Resource for T {

}

/// The stored form of a value: the value together with the tag naming the type
/// identity it was stored under. The container guarantees by construction that
/// a slot's tag equals the identity the slot is keyed by.
pub struct Erased<V> {
    /// The type identity the value was stored under.
    pub tag: u64,
    /// The stored value.
    pub value: V,
}

/// One lock-protected storage location: the slot for one type identity.
/// While the slot is exclusively held, its value lives in the exclusive guard
/// and the payload here is empty.
pub(crate) struct Slot<V> {
    pub(crate) key: u64,
    pub(crate) lock: ResourcesRwLock,
    pub(crate) payload: Option<Erased<V>>,
}

impl<V> Slot<V> {
    /// The lock state is well formed, the payload is absent exactly while a
    /// writer holds the slot, and the payload's tag matches the slot's key.
    pub(crate) open spec fn wf(self) -> bool {
        &&& self.lock.wf()
        &&& (self.payload is None <==> self.lock.state_spec() is Exclusive)
        &&& (self.payload matches Some(e) ==> e.tag == self.key)
    }

    /// The value the slot holds, meaningful while no writer holds it.
    pub(crate) open spec fn stored_value(self) -> V
        recommends
            self.payload is Some,
    {
        self.payload.unwrap().value
    }
}

/// Recovers a stored value from its erased form. Slot construction guarantees
/// that the tag under which a value was erased equals the identity its slot is
/// keyed by, so the recovery step demands that the two match and can then
/// never fail.
pub fn downcast_resource<V: Resource>(expected: u64, erased: Erased<V>) -> (r: V)
    requires
        erased.tag == expected,
    ensures
        r == erased.value,
{
    erased.value
}

/// A container that stores at most one value per type identity and hands out
/// non-blocking shared and exclusive guards over them. Acquiring a guard in a
/// way that would break borrow rules returns an error instead of waiting.
///
/// The mapping from a type identity to the position of its slot is kept in an
/// [`FxHashMap`]; the slots themselves live in a dense vector.
pub struct Resources<V> {
    index: FxHashMap<u64, usize>,
    slots: Vec<Slot<V>>,
}

impl<V: Resource> Resources<V> {
    /// A slot exists for the given type identity.
    pub closed spec fn contains_spec(self, key: u64) -> bool {
        self.index@.contains_key(key)
    }

    /// The position of the slot for `key`.
    closed spec fn idx_of(self, key: u64) -> int {
        self.index@[key] as int
    }

    /// The state of the lock protecting the slot for `key`.
    pub closed spec fn lock_of(self, key: u64) -> LockState
        recommends
            self.contains_spec(key),
    {
        self.slots@[self.idx_of(key)].lock.state_spec()
    }

    /// The value stored in the slot for `key`, meaningful while the slot is
    /// not exclusively held (an exclusive guard owns the value meanwhile).
    pub closed spec fn value_of(self, key: u64) -> V
        recommends
            self.contains_spec(key),
            !(self.lock_of(key) is Exclusive),
    {
        self.slots@[self.idx_of(key)].stored_value()
    }

    /// The index names exactly the stored slots, each slot is named once, and
    /// every slot is well formed.
    pub closed spec fn wf(self) -> bool {
        &&& forall|k: u64| #[trigger]
            self.index@.contains_key(k) ==> self.index@[k] < self.slots@.len()
                && self.slots@[self.index@[k] as int].key == k
        &&& forall|i: int|
            0 <= i < self.slots@.len() ==> self.index@.contains_key(
                (#[trigger] self.slots@[i]).key,
            ) && self.index@[self.slots@[i].key] == i
        &&& forall|i: int| 0 <= i < self.slots@.len() ==> (#[trigger] self.slots@[i]).wf()
    }

    /// Nothing observable about the container changed: the same slots exist,
    /// with the same lock states and, where readable, the same values.
    pub open spec fn same_model(self, post: Self) -> bool {
        forall|k: u64|
            {
                &&& (#[trigger] post.contains_spec(k)) == self.contains_spec(k)
                &&& (self.contains_spec(k) ==> post.lock_of(k) == self.lock_of(k))
                &&& (self.contains_spec(k) && !(self.lock_of(k) is Exclusive)
                    ==> post.value_of(k) == self.value_of(k))
            }
    }

    /// Every slot other than the one for `key` is unchanged: same existence,
    /// same lock state and, where readable, the same value.
    pub open spec fn others_unchanged(self, post: Self, key: u64) -> bool {
        forall|k: u64|
            k != key ==> {
                &&& (#[trigger] post.contains_spec(k)) == self.contains_spec(k)
                &&& (self.contains_spec(k) ==> post.lock_of(k) == self.lock_of(k))
                &&& (self.contains_spec(k) && !(self.lock_of(k) is Exclusive)
                    ==> post.value_of(k) == self.value_of(k))
            }
    }

    /// Creates an empty container. Functionally identical to `default`.
    pub fn new() -> (r: Self)
        ensures
            r.wf(),
            forall|k: u64| !r.contains_spec(k),
    {
        Resources { index: index_new(), slots: Vec::new() }
    }

    /// Returns `true` exactly when a slot exists for the given type identity;
    /// the slot's lock state plays no part.
    pub fn contains(&self, key: u64) -> (r: bool)
        ensures
            r == self.contains_spec(key),
    {
        index_contains(&self.index, key)
    }

    /// The current state of the lock protecting the slot for `key`, if a slot
    /// exists.
    pub fn lock_state(&self, key: u64) -> (r: Option<LockState>)
        requires
            self.wf(),
        ensures
            r is Some <==> self.contains_spec(key),
            r matches Some(s) ==> s == self.lock_of(key),
    {
        let found = index_get(&self.index, key);
        match found {
            None => None,
            Some(i) => Some(self.slots[i].lock.state()),
        }
    }

    /// Removes the slot for `key` and hands it out, keeping the index
    /// consistent.
    fn take_slot(&mut self, key: u64) -> (r: Option<Slot<V>>)
        requires
            old(self).wf(),
        ensures
            final(self).wf(),
            !final(self).contains_spec(key),
            old(self).others_unchanged(*final(self), key),
            r is Some <==> old(self).contains_spec(key),
            r matches Some(s) ==> s.wf() && s.key == key && s.lock.state_spec() == old(
                self,
            ).lock_of(key) && (s.payload is Some ==> s.stored_value() == old(self).value_of(key)),
    {
        let taken = index_remove(&mut self.index, key);
        match taken {
            None => None,
            Some(i) => {
                let ghost pre_slots = self.slots@;
                let slot = self.slots.swap_remove(i);
                let fixup_needed = i < self.slots.len();
                if fixup_needed {
                    let moved_key = self.slots[i].key;
                    proof {
                        // The moved slot was the last one; its key is not `key`,
                        // because the index named `key` at position `i` only.
                        assert(pre_slots[pre_slots.len() - 1].key != key);
                    }
                    let _prev = index_insert(&mut self.index, moved_key, i);
                }
                proof {
                    lemma_take_slot_wf::<V>(*old(self), *self, key, i as int, pre_slots);
                }
                Some(slot)
            },
        }
    }

    /// Adds a slot for a type identity that has none, keeping the index
    /// consistent.
    fn put_slot(&mut self, key: u64, slot: Slot<V>)
        requires
            old(self).wf(),
            !old(self).contains_spec(key),
            slot.wf(),
            slot.key == key,
        ensures
            final(self).wf(),
            final(self).contains_spec(key),
            final(self).lock_of(key) == slot.lock.state_spec(),
            slot.payload is Some ==> final(self).value_of(key) == slot.stored_value(),
            old(self).others_unchanged(*final(self), key),
    {
        let i = self.slots.len();
        let _prev = index_insert(&mut self.index, key, i);
        self.slots.push(slot);
        proof {
            assert forall|k: u64| #[trigger] self.index@.contains_key(k) implies self.index@[k]
                < self.slots@.len() && self.slots@[self.index@[k] as int].key == k by {
                if k != key {
                    assert(old(self).index@.contains_key(k));
                }
            }
            assert forall|i2: int| 0 <= i2 < self.slots@.len() implies self.index@.contains_key(
                (#[trigger] self.slots@[i2]).key,
            ) && self.index@[self.slots@[i2].key] == i2 by {
                if i2 < old(self).slots@.len() {
                    assert(old(self).index@.contains_key(self.slots@[i2].key));
                    assert(self.slots@[i2].key != key);
                }
            }
            assert forall|k: u64| k != key implies (#[trigger] self.contains_spec(k)) == old(
                self,
            ).contains_spec(k) && (old(self).contains_spec(k) ==> self.lock_of(k) == old(
                self,
            ).lock_of(k)) && (old(self).contains_spec(k) && !(old(self).lock_of(k) is Exclusive)
                ==> self.value_of(k) == old(self).value_of(k)) by {
                if old(self).contains_spec(k) {
                    assert(old(self).index@[k] < old(self).slots@.len());
                }
            }
        }
    }
}

impl<V: Resource> Resources<V> {
    /// Inserts the given value under `key`, in a fresh slot with no holders.
    /// If a value was already stored under `key`, it is replaced and the prior
    /// value is returned. Structural mutation assumes exclusive access to the
    /// container, so no guard for `key` may be alive.
    pub fn insert(&mut self, key: u64, value: V) -> (r: Option<V>)
        requires
            old(self).wf(),
            old(self).contains_spec(key) ==> old(self).lock_of(key) is Free,
        ensures
            final(self).wf(),
            final(self).contains_spec(key),
            final(self).lock_of(key) is Free,
            final(self).value_of(key) == value,
            old(self).others_unchanged(*final(self), key),
            r is Some <==> old(self).contains_spec(key),
            r matches Some(v) ==> v == old(self).value_of(key),
    {
        let prior = self.take_slot(key);
        let ghost mid = *self;
        let fresh = Slot {
            key,
            lock: ResourcesRwLock::new(),
            payload: Some(Erased { tag: key, value }),
        };
        self.put_slot(key, fresh);
        proof {
            assert forall|k: u64|
                k != key implies ((#[trigger] self.contains_spec(k)) == old(self).contains_spec(k))
                && (old(self).contains_spec(k) ==> self.lock_of(k) == old(self).lock_of(k)) && (old(
                self,
            ).contains_spec(k) && !(old(self).lock_of(k) is Exclusive) ==> self.value_of(k) == old(
                self,
            ).value_of(k)) by {
                assert(mid.contains_spec(k) == old(self).contains_spec(k));
                assert(self.contains_spec(k) == mid.contains_spec(k));
                if old(self).contains_spec(k) {
                    assert(mid.lock_of(k) == old(self).lock_of(k));
                    assert(self.lock_of(k) == mid.lock_of(k));
                }
            }
            assert(old(self).others_unchanged(*self, key));
        }
        match prior {
            None => None,
            Some(s) => match s.payload {
                Some(erased) => Some(downcast_resource(key, erased)),
                None => {
                    proof {
                        assert(false);
                    }
                    None
                },
            },
        }
    }

    /// Removes the slot for `key`, returning its value if one was stored.
    /// Removing an absent key changes nothing. Structural mutation assumes
    /// exclusive access to the container, so no guard for `key` may be alive.
    pub fn remove(&mut self, key: u64) -> (r: Option<V>)
        requires
            old(self).wf(),
            old(self).contains_spec(key) ==> old(self).lock_of(key) is Free,
        ensures
            final(self).wf(),
            !final(self).contains_spec(key),
            old(self).others_unchanged(*final(self), key),
            r is Some <==> old(self).contains_spec(key),
            r matches Some(v) ==> v == old(self).value_of(key),
    {
        let prior = self.take_slot(key);
        match prior {
            None => None,
            Some(s) => match s.payload {
                Some(erased) => Some(downcast_resource(key, erased)),
                None => {
                    proof {
                        assert(false);
                    }
                    None
                },
            },
        }
    }

    /// Returns a shared guard over the value stored under `key`.
    ///
    /// Fails with `NoSuchResource` exactly when no slot exists for `key`, and
    /// with `InvalidBorrow::Immutable` exactly when the slot is exclusively
    /// held; otherwise one more reader is registered and the guard observes
    /// the stored value. Never blocks.
    pub fn get(&mut self, key: u64) -> (r: Result<Ref<V>, CantGetResource>)
        requires
            old(self).wf(),
            old(self).contains_spec(key) ==> shared_has_room(old(self).lock_of(key)),
        ensures
            final(self).wf(),
            !old(self).contains_spec(key) ==> (r matches Err(e)
                && e == CantGetResource::NoSuchResource(NoSuchResource)
                && old(self).same_model(*final(self))),
            old(self).contains_spec(key) && old(self).lock_of(key) is Exclusive ==> (r matches Err(e)
                && e == CantGetResource::InvalidBorrow(InvalidBorrow::Immutable)
                && old(self).same_model(*final(self))),
            old(self).contains_spec(key) && !(old(self).lock_of(key) is Exclusive) ==> (r matches Ok(g)
                && g.key_spec() == key
                && g.value_spec() == old(self).value_of(key)
                && final(self).contains_spec(key)
                && final(self).lock_of(key) == acquire_shared_step(old(self).lock_of(key))
                && final(self).value_of(key) == old(self).value_of(key)
                && old(self).others_unchanged(*final(self), key)),
    {
        let found = index_get(&self.index, key);
        match found {
            None => Err(CantGetResource::NoSuchResource(NoSuchResource)),
            Some(i) => {
                let ghost pre = *self;
                let slot = slot_at(&mut self.slots, i);
                let res = Ref::from_lock(slot);
                proof {
                    lemma_slot_update::<V>(pre, *self, key);
                }
                match res {
                    Ok(guard) => Ok(guard),
                    Err(e) => Err(CantGetResource::InvalidBorrow(e)),
                }
            },
        }
    }

    /// Returns an exclusive guard over the value stored under `key`; the value
    /// moves into the guard and returns to the slot on `release_mut`.
    ///
    /// Fails with `NoSuchResource` exactly when no slot exists for `key`, and
    /// with `InvalidBorrow::Mutable` exactly when the slot is shared or
    /// exclusively held; otherwise the slot becomes exclusively held. Never
    /// blocks.
    pub fn get_mut(&mut self, key: u64) -> (r: Result<RefMut<V>, CantGetResource>)
        requires
            old(self).wf(),
        ensures
            final(self).wf(),
            !old(self).contains_spec(key) ==> (r matches Err(e)
                && e == CantGetResource::NoSuchResource(NoSuchResource)
                && old(self).same_model(*final(self))),
            old(self).contains_spec(key) && !(old(self).lock_of(key) is Free) ==> (r matches Err(e)
                && e == CantGetResource::InvalidBorrow(InvalidBorrow::Mutable)
                && old(self).same_model(*final(self))),
            old(self).contains_spec(key) && old(self).lock_of(key) is Free ==> (r matches Ok(g)
                && g.key_spec() == key
                && g.value_spec() == old(self).value_of(key)
                && final(self).contains_spec(key)
                && final(self).lock_of(key) is Exclusive
                && old(self).others_unchanged(*final(self), key)),
    {
        let found = index_get(&self.index, key);
        match found {
            None => Err(CantGetResource::NoSuchResource(NoSuchResource)),
            Some(i) => {
                let ghost pre = *self;
                let slot = slot_at(&mut self.slots, i);
                let res = RefMut::from_lock(slot);
                proof {
                    lemma_slot_update::<V>(pre, *self, key);
                }
                match res {
                    Ok(guard) => Ok(guard),
                    Err(e) => Err(CantGetResource::InvalidBorrow(e)),
                }
            },
        }
    }

    /// Read-only access to the value a shared guard is narrowed to. The value
    /// cannot change while any shared guard is alive, because every mutation
    /// path demands a slot with no readers.
    pub fn read(&self, guard: &Ref<V>) -> (r: &V)
        requires
            self.wf(),
            self.contains_spec(guard.key_spec()),
            !(self.lock_of(guard.key_spec()) is Exclusive),
        ensures
            *r == self.value_of(guard.key_spec()),
    {
        let key = guard.key();
        let found = index_get(&self.index, key);
        let i = match found {
            Some(i) => i,
            None => {
                proof {
                    assert(false);
                }
                0
            },
        };
        let erased = self.slots[i].payload.as_ref().unwrap();
        &erased.value
    }

    /// Releases a shared guard: one reader fewer on the slot's lock, which
    /// becomes free when this was the last reader. The stored value is
    /// untouched.
    pub fn release(&mut self, guard: Ref<V>)
        requires
            old(self).wf(),
            old(self).contains_spec(guard.key_spec()),
            old(self).lock_of(guard.key_spec()) is Shared,
        ensures
            final(self).wf(),
            final(self).contains_spec(guard.key_spec()),
            final(self).lock_of(guard.key_spec()) == release_shared_step(
                old(self).lock_of(guard.key_spec()),
            ),
            final(self).value_of(guard.key_spec()) == old(self).value_of(guard.key_spec()),
            old(self).others_unchanged(*final(self), guard.key_spec()),
    {
        let key = guard.key();
        let found = index_get(&self.index, key);
        let i = match found {
            Some(i) => i,
            None => {
                proof {
                    assert(false);
                }
                0
            },
        };
        let ghost pre = *self;
        let slot = slot_at(&mut self.slots, i);
        slot.lock.unlock_shared();
        proof {
            lemma_slot_update::<V>(pre, *self, key);
        }
    }

    /// Releases an exclusive guard: the value the guard holds returns to the
    /// slot (with any mutations made through the guard), and the slot's lock
    /// becomes free.
    pub fn release_mut(&mut self, guard: RefMut<V>)
        requires
            old(self).wf(),
            old(self).contains_spec(guard.key_spec()),
            old(self).lock_of(guard.key_spec()) is Exclusive,
        ensures
            final(self).wf(),
            final(self).contains_spec(guard.key_spec()),
            final(self).lock_of(guard.key_spec()) is Free,
            final(self).value_of(guard.key_spec()) == guard.value_spec(),
            old(self).others_unchanged(*final(self), guard.key_spec()),
    {
        let (key, value) = guard.into_parts();
        let found = index_get(&self.index, key);
        let i = match found {
            Some(i) => i,
            None => {
                proof {
                    assert(false);
                }
                0
            },
        };
        let ghost pre = *self;
        let slot = slot_at(&mut self.slots, i);
        slot.payload = Some(Erased { tag: key, value });
        slot.lock.unlock_exclusive();
        proof {
            lemma_slot_update::<V>(pre, *self, key);
        }
    }
}

impl<V: Resource> Resources<V> {
    /// The entry for `key`: occupied exactly when a slot exists for it. The
    /// container itself is untouched. Entry operations assume that the caller
    /// keeps exclusive structural access to the container for the entry's
    /// lifetime; each of them takes the container again and records that
    /// assumption in its precondition.
    pub fn entry(&mut self, key: u64) -> (r: Entry)
        requires
            old(self).wf(),
        ensures
            *final(self) == *old(self),
            r matches Entry::Occupied(o) ==> o.key_spec() == key && old(self).contains_spec(key),
            r matches Entry::Vacant(v) ==> v.key_spec() == key && !old(self).contains_spec(key),
    {
        if self.contains(key) {
            Entry::Occupied(OccupiedEntry { key })
        } else {
            Entry::Vacant(VacantEntry { key })
        }
    }
}

/// A view into the slot for one type identity in a [`Resources`] container,
/// which is either occupied or vacant. It is returned by the `entry` method on
/// [`Resources`].
pub enum Entry {
    /// The slot exists.
    Occupied(OccupiedEntry),
    /// No slot exists.
    Vacant(VacantEntry),
}

/// A view into an occupied slot in a [`Resources`] container. It is part of
/// the [`Entry`] enum.
pub struct OccupiedEntry {
    key: u64,
}

/// A view into a vacant slot in a [`Resources`] container. It is part of the
/// [`Entry`] enum.
pub struct VacantEntry {
    key: u64,
}

impl Entry {
    /// The type identity the entry is about.
    pub open spec fn key_spec(self) -> u64 {
        match self {
            Entry::Occupied(o) => o.key_spec(),
            Entry::Vacant(v) => v.key_spec(),
        }
    }

    /// The entry still matches the container, as exclusive structural access
    /// guarantees: an occupied entry's slot exists and has no holders, a
    /// vacant entry's slot does not exist.
    pub open spec fn consistent_with<V: Resource>(self, res: Resources<V>) -> bool {
        match self {
            Entry::Occupied(o) => res.contains_spec(o.key_spec()) && res.lock_of(
                o.key_spec(),
            ) is Free,
            Entry::Vacant(v) => !res.contains_spec(v.key_spec()),
        }
    }

    /// Ensures a value is stored under the entry's identity by inserting the
    /// given default when vacant, and returns an exclusive guard over the
    /// stored value.
    pub fn or_insert<V: Resource>(self, res: &mut Resources<V>, default: V) -> (r: RefMut<V>)
        requires
            old(res).wf(),
            self.consistent_with(*old(res)),
        ensures
            final(res).wf(),
            r.key_spec() == self.key_spec(),
            final(res).contains_spec(self.key_spec()),
            final(res).lock_of(self.key_spec()) is Exclusive,
            self is Occupied ==> r.value_spec() == old(res).value_of(self.key_spec()),
            self is Vacant ==> r.value_spec() == default,
            old(res).others_unchanged(*final(res), self.key_spec()),
    {
        match self {
            Entry::Occupied(occupied) => occupied.into_mut(res),
            Entry::Vacant(vacant) => vacant.insert(res, default),
        }
    }

    /// Ensures a value is stored under the entry's identity by inserting the
    /// result of the given function when vacant, and returns an exclusive
    /// guard over the stored value.
    pub fn or_insert_with<V: Resource, F: FnOnce() -> V>(self, res: &mut Resources<V>, default: F) -> (r:
        RefMut<V>)
        requires
            old(res).wf(),
            self.consistent_with(*old(res)),
            self is Vacant ==> call_requires(default, ()),
        ensures
            final(res).wf(),
            r.key_spec() == self.key_spec(),
            final(res).contains_spec(self.key_spec()),
            final(res).lock_of(self.key_spec()) is Exclusive,
            self is Occupied ==> r.value_spec() == old(res).value_of(self.key_spec()),
            self is Vacant ==> call_ensures(default, (), r.value_spec()),
            old(res).others_unchanged(*final(res), self.key_spec()),
    {
        match self {
            Entry::Occupied(occupied) => occupied.into_mut(res),
            Entry::Vacant(vacant) => {
                let value = default();
                vacant.insert(res, value)
            },
        }
    }

    /// Ensures a value is stored under the entry's identity by inserting the
    /// type's default value when vacant, and returns an exclusive guard over
    /// the stored value.
    pub fn or_default<V: Resource + Default>(self, res: &mut Resources<V>) -> (r: RefMut<V>)
        requires
            old(res).wf(),
            self.consistent_with(*old(res)),
        ensures
            final(res).wf(),
            r.key_spec() == self.key_spec(),
            final(res).contains_spec(self.key_spec()),
            final(res).lock_of(self.key_spec()) is Exclusive,
            self is Occupied ==> r.value_spec() == old(res).value_of(self.key_spec()),
            self is Vacant ==> call_ensures(V::default, (), r.value_spec()),
            old(res).others_unchanged(*final(res), self.key_spec()),
    {
        match self {
            Entry::Occupied(occupied) => occupied.into_mut(res),
            Entry::Vacant(vacant) => {
                let value = V::default();
                vacant.insert(res, value)
            },
        }
    }

    /// Provides in-place access to the stored value before any potential
    /// insert: when occupied, acquires an exclusive guard, replaces the value
    /// by `f` of it, and releases the guard again; when vacant, does nothing.
    pub fn and_modify<V: Resource, F: FnOnce(V) -> V>(self, res: &mut Resources<V>, f: F) -> (r: Self)
        requires
            old(res).wf(),
            self.consistent_with(*old(res)),
            self matches Entry::Occupied(o) ==> call_requires(
                f,
                (old(res).value_of(o.key_spec()),),
            ),
        ensures
            r == self,
            final(res).wf(),
            self is Vacant ==> old(res).same_model(*final(res)),
            self matches Entry::Occupied(o) ==> final(res).contains_spec(o.key_spec()) && final(res).lock_of(o.key_spec()) is Free
                && call_ensures(f, (old(res).value_of(o.key_spec()),), final(res).value_of(o.key_spec())),
            old(res).others_unchanged(*final(res), self.key_spec()),
    {
        match &self {
            Entry::Occupied(occupied) => {
                let got = res.get_mut(occupied.key());
                let guard = got.unwrap();
                let (key, value) = guard.into_parts();
                let new_value = f(value);
                let put_back = RefMut::from_parts(key, new_value);
                res.release_mut(put_back);
                self
            },
            Entry::Vacant(_) => self,
        }
    }
}

impl OccupiedEntry {
    /// The type identity the entry is about.
    pub closed spec fn key_spec(self) -> u64 {
        self.key
    }

    /// The type identity the entry is about.
    pub fn key(&self) -> (r: u64)
        ensures
            r == self.key_spec(),
    {
        self.key
    }

    /// A shared guard over the value in the entry. Under the entry's
    /// structural-access assumption the slot has no writer, so the acquisition
    /// always succeeds.
    pub fn get<V: Resource>(&self, res: &mut Resources<V>) -> (r: Ref<V>)
        requires
            old(res).wf(),
            old(res).contains_spec(self.key_spec()),
            !(old(res).lock_of(self.key_spec()) is Exclusive),
            shared_has_room(old(res).lock_of(self.key_spec())),
        ensures
            final(res).wf(),
            r.key_spec() == self.key_spec(),
            r.value_spec() == old(res).value_of(self.key_spec()),
            final(res).contains_spec(self.key_spec()),
            final(res).lock_of(self.key_spec()) == acquire_shared_step(
                old(res).lock_of(self.key_spec()),
            ),
            final(res).value_of(self.key_spec()) == old(res).value_of(self.key_spec()),
            old(res).others_unchanged(*final(res), self.key_spec()),
    {
        let got = res.get(self.key);
        got.unwrap()
    }

    /// An exclusive guard over the value in the entry. Under the entry's
    /// structural-access assumption the slot has no holders, so the
    /// acquisition always succeeds.
    pub fn get_mut<V: Resource>(&mut self, res: &mut Resources<V>) -> (r: RefMut<V>)
        requires
            old(res).wf(),
            old(res).contains_spec(old(self).key_spec()),
            old(res).lock_of(old(self).key_spec()) is Free,
        ensures
            *final(self) == *old(self),
            final(res).wf(),
            r.key_spec() == old(self).key_spec(),
            r.value_spec() == old(res).value_of(old(self).key_spec()),
            final(res).contains_spec(old(self).key_spec()),
            final(res).lock_of(old(self).key_spec()) is Exclusive,
            old(res).others_unchanged(*final(res), old(self).key_spec()),
    {
        let got = res.get_mut(self.key);
        got.unwrap()
    }

    /// Converts the entry into an exclusive guard over the value, whose
    /// lifetime is tied to the container rather than to the entry.
    pub fn into_mut<V: Resource>(self, res: &mut Resources<V>) -> (r: RefMut<V>)
        requires
            old(res).wf(),
            old(res).contains_spec(self.key_spec()),
            old(res).lock_of(self.key_spec()) is Free,
        ensures
            final(res).wf(),
            r.key_spec() == self.key_spec(),
            r.value_spec() == old(res).value_of(self.key_spec()),
            final(res).contains_spec(self.key_spec()),
            final(res).lock_of(self.key_spec()) is Exclusive,
            old(res).others_unchanged(*final(res), self.key_spec()),
    {
        let got = res.get_mut(self.key);
        got.unwrap()
    }

    /// Sets the value of the entry, in a fresh slot with no holders, and
    /// returns the entry's old value.
    pub fn insert<V: Resource>(&mut self, res: &mut Resources<V>, value: V) -> (r: V)
        requires
            old(res).wf(),
            old(res).contains_spec(old(self).key_spec()),
            old(res).lock_of(old(self).key_spec()) is Free,
        ensures
            *final(self) == *old(self),
            final(res).wf(),
            r == old(res).value_of(old(self).key_spec()),
            final(res).contains_spec(old(self).key_spec()),
            final(res).lock_of(old(self).key_spec()) is Free,
            final(res).value_of(old(self).key_spec()) == value,
            old(res).others_unchanged(*final(res), old(self).key_spec()),
    {
        let prior = res.insert(self.key, value);
        prior.unwrap()
    }

    /// Takes the value out of the entry, deleting the slot, and returns it.
    pub fn remove<V: Resource>(self, res: &mut Resources<V>) -> (r: V)
        requires
            old(res).wf(),
            old(res).contains_spec(self.key_spec()),
            old(res).lock_of(self.key_spec()) is Free,
        ensures
            final(res).wf(),
            r == old(res).value_of(self.key_spec()),
            !final(res).contains_spec(self.key_spec()),
            old(res).others_unchanged(*final(res), self.key_spec()),
    {
        let prior = res.remove(self.key);
        prior.unwrap()
    }
}

impl VacantEntry {
    /// The type identity the entry is about.
    pub closed spec fn key_spec(self) -> u64 {
        self.key
    }

    /// The type identity the entry is about.
    pub fn key(&self) -> (r: u64)
        ensures
            r == self.key_spec(),
    {
        self.key
    }

    /// Creates the slot, stores the given value in it, and returns an
    /// exclusive guard over it.
    pub fn insert<V: Resource>(self, res: &mut Resources<V>, value: V) -> (r: RefMut<V>)
        requires
            old(res).wf(),
            !old(res).contains_spec(self.key_spec()),
        ensures
            final(res).wf(),
            r.key_spec() == self.key_spec(),
            r.value_spec() == value,
            final(res).contains_spec(self.key_spec()),
            final(res).lock_of(self.key_spec()) is Exclusive,
            old(res).others_unchanged(*final(res), self.key_spec()),
    {
        let _prior = res.insert(self.key, value);
        let ghost mid = *res;
        let got = res.get_mut(self.key);
        proof {
            assert forall|k: u64|
                k != self.key_spec() implies ((#[trigger] res.contains_spec(k)) == old(
                res,
            ).contains_spec(k)) && (old(res).contains_spec(k) ==> res.lock_of(k) == old(
                res,
            ).lock_of(k)) && (old(res).contains_spec(k) && !(old(res).lock_of(k) is Exclusive)
                ==> res.value_of(k) == old(res).value_of(k)) by {
                assert(mid.contains_spec(k) == old(res).contains_spec(k));
                if old(res).contains_spec(k) {
                    assert(mid.lock_of(k) == old(res).lock_of(k));
                }
            }
            assert(old(res).others_unchanged(*res, self.key_spec()));
        }
        got.unwrap()
    }
}

impl<V: Resource> Default for Resources<V> {
    /// Creates an empty container.
    fn default() -> (r: Self)
        ensures
            r.wf(),
            forall|k: u64| !r.contains_spec(k),
    {
        Resources::new()
    }
}

/// Law: `insert` followed immediately by `get` returns a guard exposing the
/// inserted value unchanged, and after an `insert` that replaced a prior
/// value, `get` and `get_mut` observe only the new value. `insert` leaves the
/// slot for the key present, free of holders and holding the value; in that
/// state both a shared and an exclusive acquisition are owed to succeed, and
/// the value their guards expose is the stored one — the inserted value.
pub proof fn lemma_insert_then_get_exposes<V: Resource>(res: Resources<V>, key: u64, value: V)
    requires
        res.wf(),
        res.contains_spec(key),
        res.lock_of(key) is Free,
        res.value_of(key) == value,
    ensures
        can_acquire_shared(res.lock_of(key)),
        shared_has_room(res.lock_of(key)),
        can_acquire_exclusive(res.lock_of(key)),
        res.value_of(key) == value,
{
}

/// A mutable reference to the slot at position `i`; afterwards the vector is
/// the old one with position `i` replaced by whatever the reference was left
/// pointing at.
fn slot_at<V>(slots: &mut Vec<Slot<V>>, i: usize) -> (r: &mut Slot<V>)
    requires
        i < old(slots).len(),
    ensures
        *r == old(slots)@[i as int],
        final(slots)@ == old(slots)@.update(i as int, *final(r)),
{
    &mut slots[i]
}

/// After replacing the slot for `key` by one with the same key that is still
/// well formed, and touching nothing else, the container is well formed again
/// and every other slot is observably unchanged.
proof fn lemma_slot_update<V: Resource>(pre: Resources<V>, post: Resources<V>, key: u64)
    requires
        pre.wf(),
        pre.contains_spec(key),
        post.index@ == pre.index@,
        post.slots@ == pre.slots@.update(pre.idx_of(key), post.slots@[pre.idx_of(key)]),
        post.slots@[pre.idx_of(key)].wf(),
        post.slots@[pre.idx_of(key)].key == key,
    ensures
        post.wf(),
        post.contains_spec(key),
        post.lock_of(key) == post.slots@[pre.idx_of(key)].lock.state_spec(),
        !(post.lock_of(key) is Exclusive) ==> post.value_of(key) == post.slots@[pre.idx_of(
            key,
        )].stored_value(),
        pre.others_unchanged(post, key),
{
    let i = pre.idx_of(key);
    assert(0 <= i < pre.slots@.len());
    assert(post.slots@.len() == pre.slots@.len());
    assert forall|k: u64| #[trigger] post.index@.contains_key(k) implies post.index@[k]
        < post.slots@.len() && post.slots@[post.index@[k] as int].key == k by {
        assert(pre.index@.contains_key(k));
        if pre.index@[k] != i {
            assert(post.slots@[pre.index@[k] as int] == pre.slots@[pre.index@[k] as int]);
        } else {
            assert(pre.slots@[i].key == k);
            assert(k == key);
        }
    }
    assert forall|j: int| 0 <= j < post.slots@.len() implies post.index@.contains_key(
        (#[trigger] post.slots@[j]).key,
    ) && post.index@[post.slots@[j].key] == j by {
        if j != i {
            assert(post.slots@[j] == pre.slots@[j]);
        }
    }
    assert forall|j: int| 0 <= j < post.slots@.len() implies (#[trigger] post.slots@[j]).wf() by {
        if j != i {
            assert(post.slots@[j] == pre.slots@[j]);
        }
    }
    assert forall|k: u64| k != key implies (#[trigger] post.contains_spec(k)) == pre.contains_spec(
        k,
    ) && (pre.contains_spec(k) ==> post.lock_of(k) == pre.lock_of(k)) && (pre.contains_spec(k) && !(
    pre.lock_of(k) is Exclusive) ==> post.value_of(k) == pre.value_of(k)) by {
        if pre.contains_spec(k) {
            assert(pre.idx_of(k) != i);
            assert(post.slots@[pre.idx_of(k)] == pre.slots@[pre.idx_of(k)]);
        }
    }
}

/// After removing position `i` by a swap with the last slot and renaming the
/// moved slot's index entry, the container is well formed again and every
/// other slot is observably unchanged.
proof fn lemma_take_slot_wf<V: Resource>(
    pre: Resources<V>,
    post: Resources<V>,
    key: u64,
    i: int,
    pre_slots: Seq<Slot<V>>,
)
    requires
        pre.wf(),
        pre.index@.contains_key(key),
        pre.index@[key] == i,
        pre_slots == pre.slots@,
        0 <= i < pre_slots.len(),
        post.slots@ == pre_slots.update(i, pre_slots.last()).drop_last(),
        i < pre_slots.len() - 1 ==> post.index@ == pre.index@.remove(key).insert(
            pre_slots.last().key,
            i as usize,
        ),
        i == pre_slots.len() - 1 ==> post.index@ == pre.index@.remove(key),
    ensures
        post.wf(),
        !post.contains_spec(key),
        pre.others_unchanged(post, key),
{
    assert(pre_slots[i].key == key);
    let last = pre_slots.last();
    assert(pre.index@.contains_key(last.key) && pre.index@[last.key] == pre_slots.len() - 1);
    assert forall|k: u64| #[trigger] post.index@.contains_key(k) implies post.index@[k]
        < post.slots@.len() && post.slots@[post.index@[k] as int].key == k by {
        assert(k != key);
        assert(pre.index@.contains_key(k));
        if i < pre_slots.len() - 1 && k == last.key {
            assert(post.index@[k] == i as usize);
            assert(post.slots@[i] == last);
        } else {
            assert(post.index@[k] == pre.index@[k]);
            assert(pre.index@[k] != pre_slots.len() - 1);
            assert(pre.index@[k] != i);
            assert(post.slots@[pre.index@[k] as int] == pre_slots[pre.index@[k] as int]);
        }
    }
    assert forall|j: int| 0 <= j < post.slots@.len() implies post.index@.contains_key(
        (#[trigger] post.slots@[j]).key,
    ) && post.index@[post.slots@[j].key] == j by {
        if j == i {
            assert(post.slots@[j] == last);
            assert(last.key != key);
        } else {
            assert(post.slots@[j] == pre_slots[j]);
            assert(pre.index@.contains_key(pre_slots[j].key) && pre.index@[pre_slots[j].key] == j);
            assert(pre_slots[j].key != key);
            assert(pre_slots[j].key != last.key);
        }
    }
    assert forall|j: int| 0 <= j < post.slots@.len() implies (#[trigger] post.slots@[j]).wf() by {
        if j == i {
            assert(post.slots@[j] == last);
        } else {
            assert(post.slots@[j] == pre_slots[j]);
        }
    }
    assert forall|k: u64| k != key implies (#[trigger] post.contains_spec(k)) == pre.contains_spec(
        k,
    ) && (pre.contains_spec(k) ==> post.lock_of(k) == pre.lock_of(k)) && (pre.contains_spec(k) && !(
    pre.lock_of(k) is Exclusive) ==> post.value_of(k) == pre.value_of(k)) by {
        if pre.contains_spec(k) {
            assert(post.index@.contains_key(k));
            if i < pre_slots.len() - 1 && k == last.key {
                assert(post.slots@[post.idx_of(k)] == last);
                assert(pre.slots@[pre.idx_of(k)] == last);
            } else {
                assert(post.idx_of(k) == pre.idx_of(k));
                assert(pre.idx_of(k) != i && pre.idx_of(k) != pre_slots.len() - 1);
                assert(post.slots@[post.idx_of(k)] == pre_slots[pre.idx_of(k)]);
            }
        }
    }
}

} // verus!
