use unified_ledger::key::FinternetUID;
use unified_ledger::storage::FStorage;
use unified_ledger::storage::InMemoryStorage;

fn uid(tag: u8) -> FinternetUID {
    let mut a = [0u8; 32];
    a[0] = tag;
    FinternetUID::new(a)
}

#[test]
fn set_then_get_returns_the_value() {
    let mut st: InMemoryStorage<u64> = InMemoryStorage::new();
    st.set(uid(1), 7).unwrap();
    assert_eq!(st.get(uid(1)).unwrap(), Some(7));
}

#[test]
fn get_of_absent_key_is_none() {
    let st: InMemoryStorage<u64> = InMemoryStorage::new();
    assert_eq!(st.get(uid(1)).unwrap(), None);
}

#[test]
fn set_overwrites_an_existing_value() {
    let mut st: InMemoryStorage<u64> = InMemoryStorage::new();
    st.set(uid(1), 7).unwrap();
    st.set(uid(1), 8).unwrap();
    assert_eq!(st.get(uid(1)).unwrap(), Some(8));
}

#[test]
fn key_exists_tracks_set_and_remove() {
    let mut st: InMemoryStorage<u64> = InMemoryStorage::new();
    assert!(!st.key_exists(uid(1)).unwrap());

    st.set(uid(1), 7).unwrap();
    assert!(st.key_exists(uid(1)).unwrap());

    st.set(uid(2), 9).unwrap();
    st.remove(uid(2)).unwrap();
    assert!(st.key_exists(uid(1)).unwrap());

    st.remove(uid(1)).unwrap();
    assert!(!st.key_exists(uid(1)).unwrap());
}

#[test]
fn remove_then_get_returns_none() {
    let mut st: InMemoryStorage<u64> = InMemoryStorage::new();
    st.set(uid(1), 7).unwrap();
    st.remove(uid(1)).unwrap();
    assert_eq!(st.get(uid(1)).unwrap(), None);
}

#[test]
fn remove_of_absent_key_succeeds() {
    let mut st: InMemoryStorage<u64> = InMemoryStorage::new();
    assert!(st.remove(uid(1)).is_ok());
    assert_eq!(st.get(uid(1)).unwrap(), None);
}

#[test]
fn distinct_keys_hold_distinct_values() {
    let mut st: InMemoryStorage<u64> = InMemoryStorage::new();
    st.set(uid(1), 10).unwrap();
    st.set(uid(2), 20).unwrap();
    assert_eq!(st.get(uid(1)).unwrap(), Some(10));
    assert_eq!(st.get(uid(2)).unwrap(), Some(20));
    st.remove(uid(1)).unwrap();
    assert_eq!(st.get(uid(1)).unwrap(), None);
    assert_eq!(st.get(uid(2)).unwrap(), Some(20));
}
