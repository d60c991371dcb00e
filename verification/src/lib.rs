//! A container that stores at most one value for each distinct type identity,
//! and lets callers read or mutate those values through non-blocking
//! reader/writer locks: contended access fails fast with a typed error
//! instead of waiting.
//!
//! A stored value is addressed by a stable `u64` type identity and kept in a
//! lock-protected slot together with a type tag. The container guarantees that
//! a slot's tag and the identity it is keyed by never diverge, that a shared
//! acquisition fails exactly when the slot is exclusively held, and that an
//! exclusive acquisition fails exactly when the slot is held at all.

mod error;
mod index;
mod lock;
mod map;
mod refs;

pub use error::{CantGetResource, InvalidBorrow, NoSuchResource};
pub use lock::{
    acquire_exclusive_step, acquire_shared_step, balanced_pair_step, can_acquire_exclusive,
    can_acquire_shared, lemma_any_shared_count_permitted, lemma_balanced_pairs_leave_free,
    lemma_holders_exclude_acquisition, release_exclusive_step, release_shared_step,
    run_balanced_pairs, shared_has_room, shared_holders, state_wf, LockState, ResourcesRwLock,
};
pub use map::{
    downcast_resource, lemma_insert_then_get_exposes, Entry, Erased, OccupiedEntry, Resource,
    Resources, VacantEntry,
};
pub use refs::{Ref, RefMut};
