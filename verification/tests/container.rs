use resources::{
    downcast_resource, CantGetResource, Erased, InvalidBorrow, LockState, NoSuchResource,
    Resources,
};


/// The error of a failed acquisition; panics if the acquisition succeeded.
fn borrow_error<T>(result: Result<T, CantGetResource>) -> CantGetResource {
    match result {
        Ok(_) => panic!("expected the acquisition to fail"),
        Err(error) => error,
    }
}

const COUNTER: u64 = 1;
const FLAG: u64 = 2;
const OTHER: u64 = 3;

#[test]
fn new_container_is_empty() {
    let res: Resources<u64> = Resources::new();
    assert!(!res.contains(COUNTER));
    assert!(!res.contains(FLAG));
}

#[test]
fn default_container_is_empty() {
    let res: Resources<u64> = Resources::default();
    assert!(!res.contains(COUNTER));
}

#[test]
fn insert_then_get_exposes_the_inserted_value() {
    let mut res: Resources<u64> = Resources::new();
    assert_eq!(res.insert(COUNTER, 42), None);
    assert!(res.contains(COUNTER));
    let guard = res.get(COUNTER).unwrap();
    assert_eq!(*res.read(&guard), 42);
    res.release(guard);
}

#[test]
fn insert_of_a_present_key_returns_the_prior_value() {
    let mut res: Resources<u64> = Resources::new();
    assert_eq!(res.insert(COUNTER, 5), None);
    assert_eq!(res.insert(COUNTER, 7), Some(5));
    let guard = res.get(COUNTER).unwrap();
    assert_eq!(*res.read(&guard), 7);
    res.release(guard);
    let guard = res.get_mut(COUNTER).unwrap();
    assert_eq!(*guard.value(), 7);
    res.release_mut(guard);
}

#[test]
fn remove_of_an_absent_key_changes_nothing() {
    let mut res: Resources<u64> = Resources::new();
    assert_eq!(res.remove(COUNTER), None);
    res.insert(OTHER, 11);
    assert_eq!(res.remove(COUNTER), None);
    assert!(res.contains(OTHER));
    let guard = res.get(OTHER).unwrap();
    assert_eq!(*res.read(&guard), 11);
    res.release(guard);
}

#[test]
fn remove_of_a_present_key_deletes_the_slot() {
    let mut res: Resources<u64> = Resources::new();
    res.insert(COUNTER, 3);
    assert_eq!(res.remove(COUNTER), Some(3));
    assert!(!res.contains(COUNTER));
    assert_eq!(
        borrow_error(res.get(COUNTER)),
        CantGetResource::NoSuchResource(NoSuchResource)
    );
}

#[test]
fn counter_scenario_mutation_is_seen_after_release() {
    let mut res: Resources<u64> = Resources::new();
    res.insert(COUNTER, 0);
    let mut writer = res.get_mut(COUNTER).unwrap();
    *writer.value_mut() = 5;
    // While the writer is alive, shared acquisitions must fail immutably.
    assert_eq!(
        borrow_error(res.get(COUNTER)),
        CantGetResource::InvalidBorrow(InvalidBorrow::Immutable)
    );
    assert_eq!(
        borrow_error(res.get(COUNTER)),
        CantGetResource::InvalidBorrow(InvalidBorrow::Immutable)
    );
    res.release_mut(writer);
    let reader = res.get(COUNTER).unwrap();
    assert_eq!(*res.read(&reader), 5);
    res.release(reader);
}

#[test]
fn two_simultaneous_readers_both_succeed() {
    let mut res: Resources<u64> = Resources::new();
    res.insert(COUNTER, 9);
    let first = res.get(COUNTER).unwrap();
    let second = res.get(COUNTER).unwrap();
    assert_eq!(*res.read(&first), 9);
    assert_eq!(*res.read(&second), 9);
    res.release(first);
    res.release(second);
}

#[test]
fn get_mut_fails_mutably_while_any_guard_is_alive() {
    let mut res: Resources<u64> = Resources::new();
    res.insert(COUNTER, 1);
    let writer = res.get_mut(COUNTER).unwrap();
    assert_eq!(
        borrow_error(res.get_mut(COUNTER)),
        CantGetResource::InvalidBorrow(InvalidBorrow::Mutable)
    );
    res.release_mut(writer);
    let reader = res.get(COUNTER).unwrap();
    assert_eq!(
        borrow_error(res.get_mut(COUNTER)),
        CantGetResource::InvalidBorrow(InvalidBorrow::Mutable)
    );
    res.release(reader);
    let writer = res.get_mut(COUNTER).unwrap();
    res.release_mut(writer);
}

#[test]
fn get_on_an_absent_key_reports_no_such_resource() {
    let mut res: Resources<u64> = Resources::new();
    assert_eq!(
        borrow_error(res.get(COUNTER)),
        CantGetResource::NoSuchResource(NoSuchResource)
    );
    assert_eq!(
        borrow_error(res.get_mut(COUNTER)),
        CantGetResource::NoSuchResource(NoSuchResource)
    );
}

#[test]
fn guards_report_the_key_they_are_narrowed_to() {
    let mut res: Resources<u64> = Resources::new();
    res.insert(COUNTER, 4);
    let reader = res.get(COUNTER).unwrap();
    assert_eq!(reader.key(), COUNTER);
    res.release(reader);
    let writer = res.get_mut(COUNTER).unwrap();
    assert_eq!(writer.key(), COUNTER);
    res.release_mut(writer);
}

#[test]
fn independent_keys_do_not_interfere() {
    let mut res: Resources<u64> = Resources::new();
    res.insert(COUNTER, 10);
    res.insert(FLAG, 20);
    res.insert(OTHER, 30);
    let writer = res.get_mut(FLAG).unwrap();
    let reader = res.get(COUNTER).unwrap();
    assert_eq!(*res.read(&reader), 10);
    let other = res.get(OTHER).unwrap();
    assert_eq!(*res.read(&other), 30);
    res.release(reader);
    res.release(other);
    res.release_mut(writer);
    assert_eq!(res.remove(FLAG), Some(20));
    assert!(res.contains(COUNTER));
    assert!(res.contains(OTHER));
}

#[test]
fn downcast_recovers_the_erased_value() {
    let erased = Erased { tag: COUNTER, value: 77u64 };
    assert_eq!(downcast_resource(COUNTER, erased), 77);
}

#[test]
fn lock_state_follows_the_guards() {
    let mut res: Resources<u64> = Resources::new();
    assert_eq!(res.lock_state(COUNTER), None);
    res.insert(COUNTER, 0);
    assert_eq!(res.lock_state(COUNTER), Some(LockState::Free));
    let r1 = res.get(COUNTER).unwrap();
    assert_eq!(res.lock_state(COUNTER), Some(LockState::Shared(1)));
    let r2 = res.get(COUNTER).unwrap();
    let r3 = res.get(COUNTER).unwrap();
    assert_eq!(res.lock_state(COUNTER), Some(LockState::Shared(3)));
    assert_eq!(
        borrow_error(res.get_mut(COUNTER)),
        CantGetResource::InvalidBorrow(InvalidBorrow::Mutable)
    );
    res.release(r1);
    res.release(r2);
    assert_eq!(res.lock_state(COUNTER), Some(LockState::Shared(1)));
    res.release(r3);
    assert_eq!(res.lock_state(COUNTER), Some(LockState::Free));
    let writer = res.get_mut(COUNTER).unwrap();
    assert_eq!(res.lock_state(COUNTER), Some(LockState::Exclusive));
    res.release_mut(writer);
    assert_eq!(res.lock_state(COUNTER), Some(LockState::Free));
}
