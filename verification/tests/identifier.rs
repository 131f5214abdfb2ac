use std::collections::hash_map::DefaultHasher;
use std::hash::Hash;
use std::hash::Hasher;

use unified_ledger::key::FinternetUID;

fn hash_of(uid: &FinternetUID) -> u64 {
    let mut h = DefaultHasher::new();
    uid.hash(&mut h);
    h.finish()
}

#[test]
fn round_trip_preserves_bytes() {
    let mut a = [0u8; 32];
    for (i, b) in a.iter_mut().enumerate() {
        *b = i as u8;
    }
    let uid = FinternetUID::new(a);
    assert_eq!(uid.as_bytes(), a);
}

#[test]
fn round_trip_of_all_ones() {
    let a = [0xffu8; 32];
    assert_eq!(FinternetUID::new(a).as_bytes(), a);
}

#[test]
fn equal_bytes_give_equal_identifiers() {
    let a = [7u8; 32];
    let x = FinternetUID::new(a);
    let y = FinternetUID::new(a);
    assert_eq!(x, y);
    assert_eq!(hash_of(&x), hash_of(&y));
    assert!(x.eq_bytes(&y));
}

#[test]
fn differing_bytes_give_unequal_identifiers() {
    let a = [7u8; 32];
    let mut b = a;
    b[31] = 8;
    let x = FinternetUID::new(a);
    let y = FinternetUID::new(b);
    assert_ne!(x, y);
    assert!(!x.eq_bytes(&y));
}

#[test]
fn zero_byte_identifiers_equal_until_a_byte_changes() {
    let zero = [0u8; 32];
    let first = FinternetUID::new(zero);
    let second = FinternetUID::new(zero);
    assert_eq!(first, second);

    let mut changed = zero;
    changed[0] = 1;
    let third = FinternetUID::new(changed);
    assert_ne!(first, third);
}

#[test]
fn clone_preserves_identity() {
    let a = [42u8; 32];
    let x = FinternetUID::new(a);
    let y = x.clone();
    assert_eq!(x, y);
    assert_eq!(y.as_bytes(), a);
}
