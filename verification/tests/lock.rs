use resources::{LockState, ResourcesRwLock};

#[test]
fn fresh_lock_is_free() {
    let lock = ResourcesRwLock::new();
    assert_eq!(lock.state(), LockState::Free);
}

#[test]
fn balanced_pairs_leave_the_lock_free() {
    let mut lock = ResourcesRwLock::new();
    assert!(lock.try_lock_shared());
    lock.unlock_shared();
    assert_eq!(lock.state(), LockState::Free);
    assert!(lock.try_lock_exclusive());
    lock.unlock_exclusive();
    assert_eq!(lock.state(), LockState::Free);
    assert!(lock.try_lock_shared());
    lock.unlock_shared();
    assert!(lock.try_lock_exclusive());
    lock.unlock_exclusive();
    assert_eq!(lock.state(), LockState::Free);
}

#[test]
fn shared_acquisition_fails_only_under_a_writer() {
    let mut lock = ResourcesRwLock::new();
    assert!(lock.try_lock_exclusive());
    assert_eq!(lock.state(), LockState::Exclusive);
    assert!(!lock.try_lock_shared());
    assert_eq!(lock.state(), LockState::Exclusive);
    lock.unlock_exclusive();
    assert!(lock.try_lock_shared());
    assert_eq!(lock.state(), LockState::Shared(1));
    assert!(lock.try_lock_shared());
    assert_eq!(lock.state(), LockState::Shared(2));
}

#[test]
fn exclusive_acquisition_fails_under_any_holder() {
    let mut lock = ResourcesRwLock::new();
    assert!(lock.try_lock_shared());
    assert!(!lock.try_lock_exclusive());
    assert_eq!(lock.state(), LockState::Shared(1));
    lock.unlock_shared();
    assert!(lock.try_lock_exclusive());
    assert!(!lock.try_lock_exclusive());
    assert_eq!(lock.state(), LockState::Exclusive);
}

#[test]
fn any_count_of_readers_is_permitted() {
    let mut lock = ResourcesRwLock::new();
    for i in 1..=100u64 {
        assert!(lock.try_lock_shared());
        assert_eq!(lock.state(), LockState::Shared(i));
    }
    for _ in 0..99 {
        lock.unlock_shared();
    }
    assert_eq!(lock.state(), LockState::Shared(1));
    lock.unlock_shared();
    assert_eq!(lock.state(), LockState::Free);
}

#[test]
fn blocking_variants_behave_like_successful_tries() {
    let mut lock = ResourcesRwLock::new();
    lock.lock_shared();
    assert_eq!(lock.state(), LockState::Shared(1));
    lock.lock_shared();
    assert_eq!(lock.state(), LockState::Shared(2));
    lock.unlock_shared();
    lock.unlock_shared();
    lock.lock_exclusive();
    assert_eq!(lock.state(), LockState::Exclusive);
    lock.unlock_exclusive();
    assert_eq!(lock.state(), LockState::Free);
}
