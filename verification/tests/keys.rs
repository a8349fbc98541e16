use dex_tools::common::key::AccountKey;

#[test]
fn key_round_trips_its_bytes() {
    let mut bytes = [0u8; 32];
    for i in 0..32 {
        bytes[i] = i as u8;
    }
    let key = AccountKey::new_from_array(bytes);
    assert_eq!(key.to_bytes(), bytes);
    assert_eq!(key.to_vec(), bytes.to_vec());
}

#[test]
fn same_compares_all_bytes() {
    let a = AccountKey::new_from_array([1u8; 32]);
    let mut other = [1u8; 32];
    other[31] = 2;
    let b = AccountKey::new_from_array(other);
    assert!(a.same(&a));
    assert!(!a.same(&b));
    assert!(!b.same(&a));
    assert_eq!(a.same(&b), a == b);
}
