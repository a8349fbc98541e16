use dex_tools::common::account::AccountData;
use dex_tools::common::deserialize::AccountKind;
use dex_tools::common::deserialize::Deserializable;
use dex_tools::common::key::AccountKey;
use dex_tools::common::rpc::RpcResponse;
use dex_tools::common::state::decode;
use dex_tools::common::state::AccountState;
use dex_tools::common::state::ManagedAccount;
use solana_sdk::account::Account;

fn mint_bytes_of(supply: u64, decimals: u8) -> Vec<u8> {
    let mut bytes = vec![0u8; 82];
    bytes[36..44].copy_from_slice(&supply.to_le_bytes());
    bytes[44] = decimals;
    bytes[45] = 1;
    bytes
}

fn whirlpool_bytes_of(tick_spacing: u16, mint_a: [u8; 32], mint_b: [u8; 32]) -> Vec<u8> {
    let mut bytes = vec![0u8; 653];
    bytes[41..43].copy_from_slice(&tick_spacing.to_le_bytes());
    bytes[101..133].copy_from_slice(&mint_a);
    bytes[181..213].copy_from_slice(&mint_b);
    bytes
}

fn tick_array_bytes_of(start_tick_index: i32) -> Vec<u8> {
    let mut bytes = vec![0u8; 9988];
    bytes[0..8].copy_from_slice(orca_whirlpools_client::FIXED_TICK_ARRAY_DISCRIMINATOR);
    bytes[8..12].copy_from_slice(&start_tick_index.to_le_bytes());
    bytes
}

#[test]
fn construction_stores_bytes_at_version_one() {
    let key = AccountKey::new_from_array([5u8; 32]);
    let bytes = mint_bytes_of(1_000, 6);
    let account =
        ManagedAccount::new_initialized_from_bytes(key, AccountKind::Mint, bytes.clone(), 77).unwrap();
    assert!(account.is_initialized());
    assert_eq!(account.version(), 1);
    assert_eq!(account.last_update_time(), 77);
    assert_eq!(*account.pubkey(), key);
    assert_eq!(account.kind(), AccountKind::Mint);
    assert_eq!(*account.bytes(), bytes);
    let decoded = account.get();
    let mint = decoded.as_mint().unwrap();
    assert_eq!(mint.supply, 1_000);
    assert_eq!(mint.decimals, 6);
    assert!(decoded.as_whirlpool().is_none());
}

#[test]
fn construction_fails_on_bytes_that_do_not_decode() {
    let key = AccountKey::new_from_array([5u8; 32]);
    let short = vec![0u8; 81];
    let failure = match ManagedAccount::new_initialized_from_bytes(key, AccountKind::Mint, short, 1) {
        Ok(_) => panic!("81 bytes are no mint"),
        Err(failure) => failure,
    };
    assert_eq!(failure.kind, AccountKind::Mint);
    assert!(!failure.reason.is_empty());
    let uninitialised = vec![0u8; 82];
    assert!(
        ManagedAccount::new_initialized_from_bytes(key, AccountKind::Mint, uninitialised, 1).is_err()
    );
    let no_whirlpool = vec![0u8; 652];
    assert!(ManagedAccount::new_initialized_from_bytes(key, AccountKind::Whirlpool, no_whirlpool, 1)
        .is_err());
    let no_tick_array = vec![0u8; 9988];
    assert!(ManagedAccount::new_initialized_from_bytes(key, AccountKind::TickArray, no_tick_array, 1)
        .is_err());
    let no_oracle = vec![0u8; 253];
    assert!(
        ManagedAccount::new_initialized_from_bytes(key, AccountKind::Oracle, no_oracle, 1).is_err()
    );
}

#[test]
fn update_replaces_bytes_and_counts() {
    let key = AccountKey::new_from_array([5u8; 32]);
    let mut account =
        ManagedAccount::new_initialized_from_bytes(key, AccountKind::Mint, mint_bytes_of(1, 0), 10)
            .unwrap();
    let next = mint_bytes_of(2, 0);
    assert!(account.update(next.clone(), 20).is_ok());
    assert_eq!(account.version(), 2);
    assert_eq!(account.last_update_time(), 20);
    assert_eq!(*account.bytes(), next);
    assert_eq!(account.get().as_mint().unwrap().supply, 2);
    assert_eq!(*account.pubkey(), key);
}

#[test]
fn failed_update_changes_nothing() {
    let key = AccountKey::new_from_array([5u8; 32]);
    let first = mint_bytes_of(1, 9);
    let mut account =
        ManagedAccount::new_initialized_from_bytes(key, AccountKind::Mint, first.clone(), 10).unwrap();
    let failure = account.update(vec![1u8; 40], 20).unwrap_err();
    assert_eq!(failure.kind, AccountKind::Mint);
    assert_eq!(account.version(), 1);
    assert_eq!(account.last_update_time(), 10);
    assert_eq!(*account.bytes(), first);
    assert_eq!(account.get().as_mint().unwrap().supply, 1);
    assert_eq!(account.get().as_mint().unwrap().decimals, 9);
}

#[test]
fn version_counts_successful_updates_only() {
    let key = AccountKey::new_from_array([5u8; 32]);
    let mut account =
        ManagedAccount::new_initialized_from_bytes(key, AccountKind::Mint, mint_bytes_of(0, 0), 0)
            .unwrap();
    let mut successes: u64 = 0;
    let mut last_good = mint_bytes_of(0, 0);
    for round in 1u64..=20 {
        let bytes = if round % 3 == 0 {
            vec![0u8; round as usize]
        } else {
            mint_bytes_of(round, 0)
        };
        let outcome = account.update(bytes.clone(), round);
        if round % 3 == 0 {
            assert!(outcome.is_err());
        } else {
            assert!(outcome.is_ok());
            successes += 1;
            last_good = bytes;
        }
        assert_eq!(account.version(), 1 + successes);
        assert_eq!(*account.bytes(), last_good);
    }
    assert_eq!(account.version(), 15);
    assert_eq!(account.last_update_time(), 20);
    assert_eq!(account.get().as_mint().unwrap().supply, 20);
}

#[test]
fn a_snapshot_outlives_the_next_update() {
    let key = AccountKey::new_from_array([5u8; 32]);
    let first = mint_bytes_of(1, 0);
    let mut account =
        ManagedAccount::new_initialized_from_bytes(key, AccountKind::Mint, first.clone(), 10).unwrap();
    let bytes_before = account.bytes();
    let decoded_before = account.get();
    account.update(mint_bytes_of(2, 0), 20).unwrap();
    assert_eq!(*bytes_before, first);
    assert_eq!(decoded_before.as_mint().unwrap().supply, 1);
    assert_eq!(account.get().as_mint().unwrap().supply, 2);
}

#[test]
fn every_stored_buffer_decodes() {
    let key = AccountKey::new_from_array([5u8; 32]);
    let mut account =
        ManagedAccount::new_initialized_from_bytes(key, AccountKind::Mint, mint_bytes_of(0, 0), 0)
            .unwrap();
    for round in 0u64..50 {
        let bytes = if round % 2 == 0 {
            mint_bytes_of(round, 0)
        } else {
            vec![7u8; 82]
        };
        let _ = account.update(bytes, round);
        let stored = account.bytes();
        let decoded = decode(AccountKind::Mint, &stored).unwrap();
        assert_eq!(
            decoded.as_mint().unwrap().supply,
            account.get().as_mint().unwrap().supply
        );
    }
}

#[test]
fn construction_from_a_response_copies_data_and_time() {
    let key = AccountKey::new_from_array([8u8; 32]);
    let bytes = whirlpool_bytes_of(64, [1u8; 32], [2u8; 32]);
    let response = RpcResponse {
        result: Account { data: bytes.clone(), ..Account::default() },
        response_time: 1234,
    };
    let account =
        ManagedAccount::new_initialized_from_rpc(key, AccountKind::Whirlpool, &response).unwrap();
    assert_eq!(*account.bytes(), bytes);
    assert_eq!(account.last_update_time(), 1234);
    assert_eq!(account.version(), 1);
    let decoded = account.get();
    let whirlpool = decoded.as_whirlpool().unwrap();
    assert_eq!(whirlpool.tick_spacing, 64);
    assert_eq!(whirlpool.token_mint_a.to_bytes(), [1u8; 32]);
    assert_eq!(whirlpool.token_mint_b.to_bytes(), [2u8; 32]);
}

#[test]
fn decode_gives_the_variant_of_the_kind() {
    let mint = decode(AccountKind::Mint, &mint_bytes_of(3, 2)).unwrap();
    assert_eq!(mint.kind(), AccountKind::Mint);
    assert!(mint.as_mint().is_some());
    assert!(mint.as_oracle().is_none());
    let tick_array = decode(AccountKind::TickArray, &tick_array_bytes_of(-5632)).unwrap();
    assert_eq!(tick_array.kind(), AccountKind::TickArray);
    match tick_array.as_tick_array().unwrap() {
        orca_whirlpools_client::TickArray::FixedTickArray(fixed) => {
            assert_eq!(fixed.start_tick_index, -5632)
        }
        orca_whirlpools_client::TickArray::DynamicTickArray(_) => panic!("a fixed tick array"),
    }
    let oracle = decode(AccountKind::Oracle, &vec![0u8; 254]).unwrap();
    assert_eq!(oracle.kind(), AccountKind::Oracle);
    assert!(oracle.as_oracle().is_some());
    assert!(oracle.as_tick_array().is_none());
    let failure = decode(AccountKind::Oracle, &vec![0u8; 10]).unwrap_err();
    assert_eq!(failure.kind, AccountKind::Oracle);
}

#[test]
fn decoders_hand_on_the_kind_and_a_reason() {
    let failure = match <spl_token::state::Mint as Deserializable>::from_bytes(&[0u8; 3]) {
        Ok(_) => panic!("three bytes are no mint"),
        Err(failure) => failure,
    };
    assert_eq!(failure.kind, AccountKind::Mint);
    assert!(!failure.reason.is_empty());
    let failure = match <orca_whirlpools_client::Whirlpool as Deserializable>::from_bytes(&[0u8; 3]) {
        Ok(_) => panic!("three bytes are no whirlpool"),
        Err(failure) => failure,
    };
    assert_eq!(failure.kind, AccountKind::Whirlpool);
    let failure = match <orca_whirlpools_client::TickArray as Deserializable>::from_bytes(&[0u8; 30]) {
        Ok(_) => panic!("thirty zero bytes are no tick array"),
        Err(failure) => failure,
    };
    assert_eq!(failure.kind, AccountKind::TickArray);
}

#[test]
fn account_data_hands_over_the_data() {
    let account = Account { data: vec![1, 2, 3], lamports: 9, ..Account::default() };
    assert_eq!(AccountData::bytes(&account), &[1u8, 2, 3][..]);
    assert_eq!(account.into_bytes(), vec![1u8, 2, 3]);
}
