use resources::{Entry, Resources};

const FLAG: u64 = 2;
const COUNTER: u64 = 5;

#[test]
fn or_insert_on_a_vacant_entry_creates_the_slot() {
    let mut res: Resources<bool> = Resources::new();
    let entry = res.entry(FLAG);
    let guard = entry.or_insert(&mut res, false);
    assert_eq!(*guard.value(), false);
    res.release_mut(guard);
    assert!(res.contains(FLAG));
    let reader = res.get(FLAG).unwrap();
    assert_eq!(*res.read(&reader), false);
    res.release(reader);
}

#[test]
fn and_modify_wins_over_the_default_when_occupied() {
    let mut res: Resources<bool> = Resources::new();
    let guard = res.entry(FLAG).or_insert(&mut res, false);
    res.release_mut(guard);
    let entry = res.entry(FLAG);
    let entry = entry.and_modify(&mut res, |_flag| true);
    let guard = entry.or_insert(&mut res, false);
    assert_eq!(*guard.value(), true);
    res.release_mut(guard);
    let reader = res.get(FLAG).unwrap();
    assert_eq!(*res.read(&reader), true);
    res.release(reader);
}

#[test]
fn and_modify_on_a_vacant_entry_does_nothing() {
    let mut res: Resources<u64> = Resources::new();
    let entry = res.entry(COUNTER);
    let entry = entry.and_modify(&mut res, |v| v + 1);
    assert!(!res.contains(COUNTER));
    let guard = entry.or_insert(&mut res, 10);
    assert_eq!(*guard.value(), 10);
    res.release_mut(guard);
}

#[test]
fn or_insert_with_runs_the_factory_only_when_vacant() {
    let mut res: Resources<u64> = Resources::new();
    let guard = res.entry(COUNTER).or_insert_with(&mut res, || 21);
    assert_eq!(*guard.value(), 21);
    res.release_mut(guard);
    let guard = res.entry(COUNTER).or_insert_with(&mut res, || 99);
    assert_eq!(*guard.value(), 21);
    res.release_mut(guard);
}

#[test]
fn or_default_inserts_the_default_value() {
    let mut res: Resources<u64> = Resources::new();
    let guard = res.entry(COUNTER).or_default(&mut res);
    assert_eq!(*guard.value(), 0);
    res.release_mut(guard);
}

#[test]
fn occupied_entry_reads_and_writes_the_slot() {
    let mut res: Resources<u64> = Resources::new();
    res.insert(COUNTER, 8);
    match res.entry(COUNTER) {
        Entry::Occupied(occupied) => {
            let reader = occupied.get(&mut res);
            assert_eq!(*res.read(&reader), 8);
            res.release(reader);
            let mut occupied = occupied;
            let mut writer = occupied.get_mut(&mut res);
            *writer.value_mut() = 16;
            res.release_mut(writer);
            let prior = occupied.insert(&mut res, 32);
            assert_eq!(prior, 16);
            assert_eq!(occupied.key(), COUNTER);
            let taken = occupied.remove(&mut res);
            assert_eq!(taken, 32);
            assert!(!res.contains(COUNTER));
        },
        Entry::Vacant(_) => panic!("the slot exists"),
    }
}

#[test]
fn into_mut_turns_the_entry_into_a_guard() {
    let mut res: Resources<u64> = Resources::new();
    res.insert(COUNTER, 13);
    match res.entry(COUNTER) {
        Entry::Occupied(occupied) => {
            let mut guard = occupied.into_mut(&mut res);
            assert_eq!(*guard.value(), 13);
            *guard.value_mut() = 14;
            res.release_mut(guard);
        },
        Entry::Vacant(_) => panic!("the slot exists"),
    }
    let reader = res.get(COUNTER).unwrap();
    assert_eq!(*res.read(&reader), 14);
    res.release(reader);
}

#[test]
fn vacant_entry_insert_returns_a_guard_on_the_new_slot() {
    let mut res: Resources<u64> = Resources::new();
    match res.entry(COUNTER) {
        Entry::Occupied(_) => panic!("the container is empty"),
        Entry::Vacant(vacant) => {
            assert_eq!(vacant.key(), COUNTER);
            let mut guard = vacant.insert(&mut res, 1);
            assert_eq!(*guard.value(), 1);
            *guard.value_mut() = 2;
            res.release_mut(guard);
        },
    }
    let reader = res.get(COUNTER).unwrap();
    assert_eq!(*res.read(&reader), 2);
    res.release(reader);
}
