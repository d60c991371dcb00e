use vstd::prelude::*;

verus! {

/// The ternary state of one slot's reader/writer lock: no holders, exactly
/// one writer, or one or more concurrent readers.
#[derive(Clone, Copy, Debug, PartialEq, Eq, Structural)]
pub enum LockState {
    /// No holders.
    Free,
    /// Exactly one writer, no readers.
    Exclusive,
    /// The given number of concurrent readers (at least one), no writer.
    Shared(u64),
}

/// A lock state is well formed when a shared state records at least one reader.
pub open spec fn state_wf(s: LockState) -> bool {
    s matches LockState::Shared(n) ==> n >= 1
}

/// A shared acquisition succeeds exactly when no writer holds the lock.
pub open spec fn can_acquire_shared(s: LockState) -> bool {
    !(s is Exclusive)
}

/// An exclusive acquisition succeeds exactly when the lock has no holder at all.
pub open spec fn can_acquire_exclusive(s: LockState) -> bool {
    s is Free
}

/// The reader count has not reached the machine limit, so one more reader can
/// be registered.
pub open spec fn shared_has_room(s: LockState) -> bool {
    s matches LockState::Shared(n) ==> n < u64::MAX
}

/// The state after a successful shared acquisition: one more reader.
pub open spec fn acquire_shared_step(s: LockState) -> LockState
    recommends
        can_acquire_shared(s),
        shared_has_room(s),
{
    match s {
        LockState::Free => LockState::Shared(1),
        LockState::Shared(n) => LockState::Shared((n + 1) as u64),
        LockState::Exclusive => s,
    }
}

/// The state after a shared release: one reader fewer, free when it was the
/// last one.
pub open spec fn release_shared_step(s: LockState) -> LockState
    recommends
        s is Shared,
{
    match s {
        LockState::Shared(n) => if n <= 1 {
            LockState::Free
        } else {
            LockState::Shared((n - 1) as u64)
        },
        _ => s,
    }
}

/// The state after a successful exclusive acquisition.
pub open spec fn acquire_exclusive_step(s: LockState) -> LockState
    recommends
        can_acquire_exclusive(s),
{
    LockState::Exclusive
}

/// The state after an exclusive release.
pub open spec fn release_exclusive_step(s: LockState) -> LockState
    recommends
        s is Exclusive,
{
    LockState::Free
}

/// A minimal reader/writer lock that exposes only non-blocking operations and
/// never suspends a caller. An acquisition that would have to wait fails
/// instead, with no state change; releases demand, as preconditions, a state
/// that a matching acquisition can have produced.
pub struct ResourcesRwLock {
    state: LockState,
}

impl ResourcesRwLock {
    /// The abstract state of the lock.
    pub closed spec fn state_spec(self) -> LockState {
        self.state
    }

    /// The lock's state is well formed.
    pub open spec fn wf(self) -> bool {
        state_wf(self.state_spec())
    }

    /// A fresh lock with no holders.
    pub fn new() -> (r: Self)
        ensures
            r.wf(),
            r.state_spec() == LockState::Free,
    {
        ResourcesRwLock { state: LockState::Free }
    }

    /// The current state of the lock.
    pub fn state(&self) -> (r: LockState)
        ensures
            r == self.state_spec(),
    {
        self.state
    }

    /// Registers one more reader if no writer holds the lock; fails with no
    /// state change if the lock is exclusively held.
    pub fn try_lock_shared(&mut self) -> (r: bool)
        requires
            old(self).wf(),
            shared_has_room(old(self).state_spec()),
        ensures
            final(self).wf(),
            r == can_acquire_shared(old(self).state_spec()),
            final(self).state_spec() == if r {
                acquire_shared_step(old(self).state_spec())
            } else {
                old(self).state_spec()
            },
    {
        match self.state {
            LockState::Free => {
                self.state = LockState::Shared(1);
                true
            },
            LockState::Exclusive => false,
            LockState::Shared(n) => {
                self.state = LockState::Shared(n + 1);
                true
            },
        }
    }

    /// Registers one more reader. Acquiring a lock that cannot be acquired is
    /// a programming error, so a caller must already hold the right to it.
    pub fn lock_shared(&mut self)
        requires
            old(self).wf(),
            can_acquire_shared(old(self).state_spec()),
            shared_has_room(old(self).state_spec()),
        ensures
            final(self).wf(),
            final(self).state_spec() == acquire_shared_step(old(self).state_spec()),
    {
        let _locked = self.try_lock_shared();
    }

    /// Removes one reader, freeing the lock when it was the last one. Valid
    /// only in a shared state: any other state cannot have produced the
    /// matching shared acquisition.
    pub fn unlock_shared(&mut self)
        requires
            old(self).wf(),
            old(self).state_spec() is Shared,
        ensures
            final(self).wf(),
            final(self).state_spec() == release_shared_step(old(self).state_spec()),
    {
        match self.state {
            LockState::Shared(n) => {
                if n <= 1 {
                    self.state = LockState::Free;
                } else {
                    self.state = LockState::Shared(n - 1);
                }
            },
            _ => {
                proof {
                    assert(false);
                }
            },
        }
    }

    /// Takes the lock for one writer if it has no holder at all; fails with no
    /// state change otherwise.
    pub fn try_lock_exclusive(&mut self) -> (r: bool)
        requires
            old(self).wf(),
        ensures
            final(self).wf(),
            r == can_acquire_exclusive(old(self).state_spec()),
            final(self).state_spec() == if r {
                acquire_exclusive_step(old(self).state_spec())
            } else {
                old(self).state_spec()
            },
    {
        match self.state {
            LockState::Free => {
                self.state = LockState::Exclusive;
                true
            },
            LockState::Exclusive => false,
            LockState::Shared(_) => false,
        }
    }

    /// Takes the lock for one writer. Acquiring a lock that cannot be acquired
    /// is a programming error, so a caller must already hold the right to it.
    pub fn lock_exclusive(&mut self)
        requires
            old(self).wf(),
            can_acquire_exclusive(old(self).state_spec()),
        ensures
            final(self).wf(),
            final(self).state_spec() == acquire_exclusive_step(old(self).state_spec()),
    {
        let _locked = self.try_lock_exclusive();
    }

    /// Frees the lock after a writer. Valid only in the exclusive state: any
    /// other state cannot have produced the matching exclusive acquisition.
    pub fn unlock_exclusive(&mut self)
        requires
            old(self).wf(),
            old(self).state_spec() is Exclusive,
        ensures
            final(self).wf(),
            final(self).state_spec() == release_exclusive_step(old(self).state_spec()),
    {
        self.state = LockState::Free;
    }
}

/// One balanced pair on a lock: an acquisition of the given kind (`true` for
/// exclusive, `false` for shared) followed immediately by its matching
/// release.
pub open spec fn balanced_pair_step(s: LockState, exclusive: bool) -> LockState {
    if exclusive {
        release_exclusive_step(acquire_exclusive_step(s))
    } else {
        release_shared_step(acquire_shared_step(s))
    }
}

/// The lock state after a sequence of non-overlapping acquire/release pairs,
/// one pair per element of `kinds`.
pub open spec fn run_balanced_pairs(s: LockState, kinds: Seq<bool>) -> LockState
    decreases kinds.len(),
{
    if kinds.len() == 0 {
        s
    } else {
        run_balanced_pairs(balanced_pair_step(s, kinds[0]), kinds.drop_first())
    }
}

/// Law: for every sequence of non-overlapping acquire/release pairs on one
/// slot's lock, the state after the sequence equals `Free`.
pub proof fn lemma_balanced_pairs_leave_free(kinds: Seq<bool>)
    ensures
        run_balanced_pairs(LockState::Free, kinds) == LockState::Free,
    decreases kinds.len(),
{
    if kinds.len() > 0 {
        assert(balanced_pair_step(LockState::Free, kinds[0]) == LockState::Free);
        lemma_balanced_pairs_leave_free(kinds.drop_first());
    }
}

/// Law: a shared acquisition never succeeds while a writer holds the lock, and
/// an exclusive acquisition never succeeds while any holder, reader or writer,
/// is alive.
pub proof fn lemma_holders_exclude_acquisition(s: LockState)
    ensures
        s is Exclusive ==> !can_acquire_shared(s),
        !(s is Free) ==> !can_acquire_exclusive(s),
{
}

/// The lock state in which exactly `n` shared holders are alive.
pub open spec fn shared_holders(n: nat) -> LockState {
    if n == 0 {
        LockState::Free
    } else {
        LockState::Shared(n as u64)
    }
}

/// Law: any count of concurrently alive shared holders is permitted. From the
/// state with `n` alive readers, one more shared acquisition succeeds and
/// yields the state with `n + 1` readers, for every count the counter can
/// represent.
pub proof fn lemma_any_shared_count_permitted(n: nat)
    requires
        n < u64::MAX,
    ensures
        state_wf(shared_holders(n)),
        can_acquire_shared(shared_holders(n)),
        shared_has_room(shared_holders(n)),
        acquire_shared_step(shared_holders(n)) == shared_holders(n + 1),
{
}

} // verus!
