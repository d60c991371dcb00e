use vstd::prelude::*;

use crate::error::InvalidBorrow;
use crate::lock::{
    acquire_exclusive_step, acquire_shared_step, can_acquire_exclusive, can_acquire_shared,
    shared_has_room,
};
use crate::map::Slot;

verus! {

/// A shared guard: one live shared acquisition of a slot's lock, narrowed to
/// the slot's type identity. The guard records (as a ghost snapshot) the value
/// it observed at acquisition; the value itself stays in the container and is
/// read through [`crate::Resources::read`]. The guard is released by handing
/// it back to [`crate::Resources::release`].
pub struct Ref<V> {
    key: u64,
    observed: Ghost<V>,
}

impl<V> Ref<V> {
    /// The type identity this guard is narrowed to.
    pub closed spec fn key_spec(self) -> u64 {
        self.key
    }

    /// The value the guard observed when it was created.
    pub closed spec fn value_spec(self) -> V {
        self.observed@
    }

    /// The type identity this guard is narrowed to.
    pub fn key(&self) -> (r: u64)
        ensures
            r == self.key_spec(),
    {
        self.key
    }

    /// Wraps a successful non-blocking shared acquisition on the slot's lock:
    /// registers one more reader if no writer holds the slot, and fails with
    /// `InvalidBorrow::Immutable`, changing nothing, exactly when the slot is
    /// exclusively held.
    pub(crate) fn from_lock(slot: &mut Slot<V>) -> (r: Result<Ref<V>, InvalidBorrow>)
        requires
            old(slot).wf(),
            shared_has_room(old(slot).lock.state_spec()),
        ensures
            final(slot).wf(),
            final(slot).key == old(slot).key,
            final(slot).payload == old(slot).payload,
            r is Ok <==> can_acquire_shared(old(slot).lock.state_spec()),
            r matches Ok(g) ==> final(slot).lock.state_spec() == acquire_shared_step(
                old(slot).lock.state_spec(),
            ) && g.key_spec() == old(slot).key && g.value_spec() == old(slot).stored_value(),
            r matches Err(e) ==> e == InvalidBorrow::Immutable && final(slot).lock.state_spec()
                == old(slot).lock.state_spec(),
    {
        if slot.lock.try_lock_shared() {
            let ghost observed = slot.payload.unwrap().value;
            Ok(Ref { key: slot.key, observed: Ghost(observed) })
        } else {
            Err(InvalidBorrow::Immutable)
        }
    }
}

/// An exclusive guard: one live exclusive acquisition of a slot's lock,
/// narrowed to the slot's type identity. The guard owns the slot's value for
/// as long as it is alive; reads and writes go through the guard, and the
/// value returns to the slot when the guard is handed back to
/// [`crate::Resources::release_mut`].
pub struct RefMut<V> {
    key: u64,
    value: V,
}

impl<V> RefMut<V> {
    /// The type identity this guard is narrowed to.
    pub closed spec fn key_spec(self) -> u64 {
        self.key
    }

    /// The value the guard currently holds.
    pub closed spec fn value_spec(self) -> V {
        self.value
    }

    /// The type identity this guard is narrowed to.
    pub fn key(&self) -> (r: u64)
        ensures
            r == self.key_spec(),
    {
        self.key
    }

    /// Read-only access to the guarded value.
    pub fn value(&self) -> (r: &V)
        ensures
            *r == self.value_spec(),
    {
        &self.value
    }

    /// Read-write access to the guarded value.
    pub fn value_mut(&mut self) -> (r: &mut V)
        ensures
            *r == old(self).value_spec(),
            final(self).key_spec() == old(self).key_spec(),
            final(self).value_spec() == *final(r),
    {
        &mut self.value
    }

    /// Takes the guard apart into the identity it is narrowed to and the value
    /// it holds.
    pub(crate) fn into_parts(self) -> (r: (u64, V))
        ensures
            r.0 == self.key_spec(),
            r.1 == self.value_spec(),
    {
        (self.key, self.value)
    }

    /// Builds the guard for a freshly created slot whose lock is already
    /// exclusively held and whose value is handed over directly.
    pub(crate) fn from_parts(key: u64, value: V) -> (r: RefMut<V>)
        ensures
            r.key_spec() == key,
            r.value_spec() == value,
    {
        RefMut { key, value }
    }

    /// Wraps a successful non-blocking exclusive acquisition on the slot's
    /// lock: takes the slot's value into the guard if the slot has no holder
    /// at all, and fails with `InvalidBorrow::Mutable`, changing nothing,
    /// exactly when the slot is shared or exclusively held.
    pub(crate) fn from_lock(slot: &mut Slot<V>) -> (r: Result<RefMut<V>, InvalidBorrow>)
        requires
            old(slot).wf(),
        ensures
            final(slot).wf(),
            final(slot).key == old(slot).key,
            r is Ok <==> can_acquire_exclusive(old(slot).lock.state_spec()),
            r matches Ok(g) ==> final(slot).lock.state_spec() == acquire_exclusive_step(
                old(slot).lock.state_spec(),
            ) && final(slot).payload is None && g.key_spec() == old(slot).key && g.value_spec()
                == old(slot).stored_value(),
            r matches Err(e) ==> e == InvalidBorrow::Mutable && final(slot).lock.state_spec()
                == old(slot).lock.state_spec() && final(slot).payload == old(slot).payload,
    {
        if slot.lock.try_lock_exclusive() {
            let taken = slot.payload.take();
            match taken {
                Some(erased) => Ok(RefMut { key: slot.key, value: erased.value }),
                None => {
                    proof {
                        assert(false);
                    }
                    Err(InvalidBorrow::Mutable)
                },
            }
        } else {
            Err(InvalidBorrow::Mutable)
        }
    }
}

} // verus!
