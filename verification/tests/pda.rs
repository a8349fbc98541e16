use dex_tools::common::key::AccountKey;
use dex_tools::orca::pda::decimal_bytes;
use dex_tools::orca::pda::get_oracle_address;
use dex_tools::orca::pda::get_tick_array_address;
use dex_tools::orca::pda::get_tick_array_addresses;
use dex_tools::orca::pda::parse_whirlpool_master_pubkey;
use dex_tools::orca::pda::ABS_MAX_TICK_IDX;
use std::str::FromStr;

fn key_of(text: &str) -> AccountKey {
    AccountKey::new_from_array(solana_sdk::pubkey::Pubkey::from_str(text).unwrap().to_bytes())
}

fn sdk_key(key: &AccountKey) -> solana_sdk::pubkey::Pubkey {
    solana_sdk::pubkey::Pubkey::new_from_array(key.to_bytes())
}

fn floor_div(a: i32, b: i32) -> i32 {
    let q = a / b;
    if a % b != 0 && ((a < 0) != (b < 0)) {
        q - 1
    } else {
        q
    }
}

#[test]
fn decimal_bytes_matches_integer_printing() {
    let values: Vec<i32> = vec![0, 7, 9, 10, 11, 99, 100, -1, -10, -444928, 439296, i32::MAX, i32::MIN];
    for value in values {
        assert_eq!(decimal_bytes(value), value.to_string().into_bytes());
    }
}

#[test]
fn decimal_bytes_of_zero_is_one_digit() {
    assert_eq!(decimal_bytes(0), vec![48u8]);
    assert_eq!(decimal_bytes(-5632), vec![45u8, 53, 54, 51, 50]);
}

#[test]
fn master_pubkey_is_the_whirlpool_program() {
    let key = parse_whirlpool_master_pubkey();
    let expected = solana_sdk::pubkey::Pubkey::from_str("whirLbMiicVdio4qvUfM5KAg6Ct8VwpYzGff3uctyCc")
        .unwrap();
    assert_eq!(key.to_bytes(), expected.to_bytes());
    assert_eq!(key.to_bytes(), orca_whirlpools_client::ID.to_bytes());
}

#[test]
fn tick_array_address_of_a_known_whirlpool() {
    let whirlpool = key_of("2kJmUjxWBwL2NGPBV2PiA5hWtmLCqcKY6reQgkrPtaeS");
    let expected = key_of("8PhPzk7n4wU98Z6XCbVtPai2LtXSxYnfjkmgWuoAU8Zy");
    let address = get_tick_array_address(&whirlpool, 0).unwrap();
    assert_eq!(address, expected);
    assert_ne!(address, whirlpool);
}

#[test]
fn tick_array_address_agrees_with_the_whirlpool_client() {
    let whirlpool = AccountKey::new_from_array([9u8; 32]);
    for start in [-444928i32, -5632, 0, 5632, 439296] {
        let (expected, _) =
            orca_whirlpools_client::get_tick_array_address(&sdk_key(&whirlpool), start).unwrap();
        let address = get_tick_array_address(&whirlpool, start).unwrap();
        assert_eq!(address.to_bytes(), expected.to_bytes());
    }
}

#[test]
fn tick_array_address_depends_on_the_start_tick_index() {
    let whirlpool = AccountKey::new_from_array([9u8; 32]);
    let at_zero = get_tick_array_address(&whirlpool, 0).unwrap();
    let below = get_tick_array_address(&whirlpool, -5632).unwrap();
    assert_ne!(at_zero, below);
}

#[test]
fn oracle_address_agrees_with_the_whirlpool_client() {
    let whirlpool = key_of("2kJmUjxWBwL2NGPBV2PiA5hWtmLCqcKY6reQgkrPtaeS");
    let (expected, expected_bump) =
        orca_whirlpools_client::get_oracle_address(&sdk_key(&whirlpool)).unwrap();
    let (address, bump) = get_oracle_address(&whirlpool).unwrap();
    assert_eq!(address.to_bytes(), expected.to_bytes());
    assert_eq!(bump, expected_bump);
}

#[test]
fn tick_array_addresses_start_below_the_lowest_tick() {
    let whirlpool = AccountKey::new_from_array([7u8; 32]);
    let spacing: u16 = 64;
    let width: i32 = 88 * 64;
    assert_eq!(width, 5632);
    assert_eq!(-ABS_MAX_TICK_IDX / width, -78);
    assert_eq!(floor_div(-ABS_MAX_TICK_IDX, width), -79);
    let keys = get_tick_array_addresses(&whirlpool, &spacing).unwrap();
    let first = get_tick_array_address(&whirlpool, -79 * 5632).unwrap();
    let truncated = get_tick_array_address(&whirlpool, -78 * 5632).unwrap();
    assert_eq!(-79 * 5632, -444928);
    assert_eq!(keys[0], first);
    assert_eq!(keys[1], truncated);
    assert_ne!(keys[0], truncated);
}

#[test]
fn tick_array_addresses_end_at_the_highest_tick() {
    let whirlpool = AccountKey::new_from_array([7u8; 32]);
    let spacing: u16 = 64;
    let keys = get_tick_array_addresses(&whirlpool, &spacing).unwrap();
    assert_eq!(floor_div(ABS_MAX_TICK_IDX, 5632), 78);
    assert_eq!(keys.len(), 158);
    let last = get_tick_array_address(&whirlpool, 78 * 5632).unwrap();
    assert_eq!(78 * 5632, 439296);
    assert_eq!(keys[157], last);
}

#[test]
fn tick_array_addresses_step_by_one_array_width() {
    let whirlpool = AccountKey::new_from_array([3u8; 32]);
    for spacing in [8u16, 64, 128, 32768, u16::MAX] {
        let width: i32 = 88 * spacing as i32;
        let first = floor_div(-ABS_MAX_TICK_IDX, width) * width;
        let last = floor_div(ABS_MAX_TICK_IDX, width) * width;
        let keys = get_tick_array_addresses(&whirlpool, &spacing).unwrap();
        assert_eq!(keys.len() as i32, (last - first) / width + 1);
        let mut start = first;
        for key in &keys {
            assert_eq!(*key, get_tick_array_address(&whirlpool, start).unwrap());
            start += width;
        }
        assert_eq!(start, last + width);
    }
}

#[test]
fn tick_array_addresses_of_the_widest_spacing_are_two() {
    let whirlpool = AccountKey::new_from_array([3u8; 32]);
    let spacing: u16 = u16::MAX;
    let keys = get_tick_array_addresses(&whirlpool, &spacing).unwrap();
    assert_eq!(keys.len(), 2);
    assert_eq!(keys[0], get_tick_array_address(&whirlpool, -5767080).unwrap());
    assert_eq!(keys[1], get_tick_array_address(&whirlpool, 0).unwrap());
}

#[test]
fn derivation_is_deterministic() {
    let whirlpool = AccountKey::new_from_array([42u8; 32]);
    let spacing: u16 = 128;
    let once = get_tick_array_addresses(&whirlpool, &spacing).unwrap();
    let again = get_tick_array_addresses(&whirlpool, &spacing).unwrap();
    assert_eq!(once, again);
    assert_eq!(get_oracle_address(&whirlpool).unwrap(), get_oracle_address(&whirlpool).unwrap());
}
