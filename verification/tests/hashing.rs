use weighted_adjacency::hashbrown_utils::{equivalent_key, make_hash, vertex_hash, HASH_MULTIPLIER};

#[test]
fn hash_of_zero_is_zero() {
    assert_eq!(vertex_hash(0), 0);
}

#[test]
fn hash_of_one_folds_the_multiplier() {
    assert_eq!(HASH_MULTIPLIER, 0x9E37_79B9_7F4A_7C15);
    assert_eq!(vertex_hash(1), 0x9E37_79B9_E17D_05AC);
}

#[test]
fn hash_wraps_around_on_large_identifiers() {
    assert_eq!(vertex_hash(2), 0x3C6E_F372_C2FA_0B58);
    assert_eq!(vertex_hash(42), 0xF519_F86E_1721_A31C);
    assert_eq!(vertex_hash(u64::MAX), 0x61C8_8646_E17D_05AD);
}

#[test]
fn hash_of_an_entry_is_the_hash_of_its_key() {
    assert_eq!(make_hash(&(42u64, 7u64)), vertex_hash(42));
    assert_eq!(make_hash(&(42u64, "anything")), vertex_hash(42));
    assert_ne!(make_hash(&(7u64, 42u64)), vertex_hash(42));
}

#[test]
fn entries_are_compared_by_key_alone() {
    assert!(equivalent_key(3, &(3u64, 9u64)));
    assert!(!equivalent_key(9, &(3u64, 9u64)));
    assert!(!equivalent_key(4, &(3u64, 4u64)));
}
