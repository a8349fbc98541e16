use dex_tools::common::account_map::AccountMap;
use dex_tools::common::key::AccountKey;
use dex_tools::common::rpc::chunk_keys;
use dex_tools::common::rpc::collect_accounts;
use dex_tools::common::rpc::merge_accounts;
use dex_tools::common::rpc::response_time;
use dex_tools::common::rpc::RpcResponse;
use solana_sdk::account::Account;

fn key(n: u8) -> AccountKey {
    AccountKey::new_from_array([n; 32])
}

fn account(data: Vec<u8>) -> Option<Account> {
    Some(Account { data, ..Account::default() })
}

#[test]
fn response_time_is_halfway() {
    assert_eq!(response_time(100, 200), 150);
    assert_eq!(response_time(100, 101), 100);
    assert_eq!(response_time(7, 7), 7);
    assert_eq!(response_time(0, u64::MAX as u128), u64::MAX / 2);
}

#[test]
fn response_time_drops_the_high_bits() {
    let start: u128 = 1u128 << 64;
    assert_eq!(response_time(start, start + 10), 5);
}

#[test]
fn chunks_hold_at_most_the_limit() {
    let keys: Vec<AccountKey> = (0u8..7).map(key).collect();
    let chunks = chunk_keys(&keys, 3);
    assert_eq!(chunks.len(), 3);
    assert_eq!(chunks[0], vec![key(0), key(1), key(2)]);
    assert_eq!(chunks[1], vec![key(3), key(4), key(5)]);
    assert_eq!(chunks[2], vec![key(6)]);
}

#[test]
fn chunks_of_a_full_multiple_are_all_full() {
    let keys: Vec<AccountKey> = (0u8..6).map(key).collect();
    let chunks = chunk_keys(&keys, 3);
    assert_eq!(chunks.len(), 2);
    assert_eq!(chunks[1], vec![key(3), key(4), key(5)]);
    let single = chunk_keys(&keys, 100);
    assert_eq!(single.len(), 1);
    assert_eq!(single[0], keys);
    let each = chunk_keys(&keys, 1);
    assert_eq!(each.len(), 6);
}

#[test]
fn chunks_of_no_keys_are_none() {
    let keys: Vec<AccountKey> = Vec::new();
    assert!(chunk_keys(&keys, 5).is_empty());
}

#[test]
fn chunks_agree_with_slices() {
    let keys: Vec<AccountKey> = (0u8..101).map(key).collect();
    for limit in [1usize, 2, 10, 50, 100, 101, 102] {
        let expected: Vec<Vec<AccountKey>> = keys.chunks(limit).map(|c| c.to_vec()).collect();
        assert_eq!(chunk_keys(&keys, limit), expected);
    }
}

#[test]
fn map_insert_replaces_and_remove_takes() {
    let mut map = AccountMap::new();
    assert!(!map.contains_key(&key(1)));
    map.insert(key(1), vec![1], 10);
    map.insert(key(2), vec![2], 20);
    map.insert(key(1), vec![3], 30);
    assert!(map.contains_key(&key(1)));
    assert_eq!(map.remove(&key(1)), Some((vec![3u8], 30)));
    assert_eq!(map.remove(&key(1)), None);
    assert!(!map.contains_key(&key(1)));
    assert_eq!(map.remove(&key(2)), Some((vec![2u8], 20)));
    assert_eq!(map.remove(&key(3)), None);
}

#[test]
fn merge_enters_found_accounts_by_position() {
    let mut map = AccountMap::new();
    let chunk = vec![key(1), key(2), key(3)];
    let response =
        RpcResponse { result: vec![account(vec![10]), None, account(vec![30])], response_time: 99 };
    merge_accounts(&mut map, &chunk, &response);
    assert_eq!(map.remove(&key(1)), Some((vec![10u8], 99)));
    assert_eq!(map.remove(&key(2)), None);
    assert_eq!(map.remove(&key(3)), Some((vec![30u8], 99)));
}

#[test]
fn collect_merges_every_chunk_with_its_time() {
    let keys: Vec<AccountKey> = (1u8..=5).map(key).collect();
    let chunks = chunk_keys(&keys, 2);
    let responses = vec![
        RpcResponse { result: vec![account(vec![1]), account(vec![2])], response_time: 100 },
        RpcResponse { result: vec![None, account(vec![4])], response_time: 200 },
        RpcResponse { result: vec![account(vec![5])], response_time: 300 },
    ];
    let mut map = collect_accounts(&chunks, &responses);
    assert_eq!(map.remove(&key(1)), Some((vec![1u8], 100)));
    assert_eq!(map.remove(&key(2)), Some((vec![2u8], 100)));
    assert_eq!(map.remove(&key(3)), None);
    assert_eq!(map.remove(&key(4)), Some((vec![4u8], 200)));
    assert_eq!(map.remove(&key(5)), Some((vec![5u8], 300)));
}

#[test]
fn collect_keeps_the_last_account_of_a_repeated_key() {
    let keys = vec![key(1), key(1)];
    let chunks = chunk_keys(&keys, 1);
    let responses = vec![
        RpcResponse { result: vec![account(vec![1])], response_time: 100 },
        RpcResponse { result: vec![account(vec![2])], response_time: 200 },
    ];
    let mut map = collect_accounts(&chunks, &responses);
    assert_eq!(map.remove(&key(1)), Some((vec![2u8], 200)));
    assert_eq!(map.remove(&key(1)), None);
}
