//! Addresses of the accounts that belong to a whirlpool.
//!
//! Every dependent account of a whirlpool lives at a program-derived address:
//! a hash of a role label, the whirlpool's key and role-specific parameters,
//! searched under the whirlpool program's key.
use crate::common::key::key_views;
use crate::common::key::AccountKey;
use vstd::arithmetic::div_mod::lemma_fundamental_div_mod_converse;
use vstd::prelude::*;

verus! {

/// Largest tick index, in magnitude, that a whirlpool supports.
pub const ABS_MAX_TICK_IDX: i32 = 443636;

/// An address that could not be derived.
#[derive(Clone, Copy, Debug, PartialEq, Eq, Structural)]
pub enum DerivationFailure {
    /// No oracle address exists for the whirlpool.
    Oracle,
    /// No address exists for the tick array that starts at this tick index.
    TickArray { start_tick_index: i32 },
}

/// The program-derived address and bump seed that Solana assigns to `seeds`
/// under `program_id`, or `None` when it assigns none.
pub uninterp spec fn program_address(seeds: Seq<Seq<u8>>, program_id: Seq<u8>) -> Option<(Seq<u8>, u8)>;

/// The bytes of the whirlpool program's key.
pub open spec fn whirlpool_master_bytes() -> Seq<u8> {
    seq![
        14u8, 3u8, 104u8, 95u8, 142u8, 144u8, 144u8, 83u8,
        228u8, 88u8, 18u8, 28u8, 102u8, 245u8, 167u8, 106u8,
        237u8, 199u8, 112u8, 106u8, 161u8, 28u8, 130u8, 248u8,
        170u8, 149u8, 42u8, 143u8, 43u8, 120u8, 121u8, 169u8,
    ]
}


/// The bytes of the role label `tick_array`.
pub open spec fn tick_array_label() -> Seq<u8> {
    seq![116u8, 105u8, 99u8, 107u8, 95u8, 97u8, 114u8, 114u8, 97u8, 121u8]
}

/// The bytes of the role label `oracle`.
pub open spec fn oracle_label() -> Seq<u8> {
    seq![111u8, 114u8, 97u8, 99u8, 108u8, 101u8]
}

/// The decimal digits of `n` in ASCII, most significant first, without
/// leading zeros.
pub open spec fn decimal_digits(n: nat) -> Seq<u8>
    decreases n,
{
    if n < 10 {
        seq![(48 + n) as u8]
    } else {
        decimal_digits(n / 10).push((48 + n % 10) as u8)
    }
}

/// The decimal text of `value` in ASCII: a minus sign for a negative value,
/// then the digits of its magnitude.
pub open spec fn decimal_text(value: int) -> Seq<u8> {
    if value < 0 {
        seq![45u8] + decimal_digits((-value) as nat)
    } else {
        decimal_digits(value as nat)
    }
}

/// Number of tick indices that one tick array covers at the given spacing.
pub open spec fn tick_array_width(tick_spacing: u16) -> int {
    88 * (tick_spacing as int)
}

/// The quotient of `a` by a positive `b`, rounded toward negative infinity.
pub open spec fn floor_div(a: int, b: int) -> int
    recommends
        b > 0,
{
    a / b
}

/// The start tick index of the tick array that holds the tick index `tick`.
pub open spec fn start_tick_index_of(tick: int, tick_spacing: u16) -> int {
    floor_div(tick, tick_array_width(tick_spacing)) * tick_array_width(tick_spacing)
}

/// The lowest start tick index: that of the array that holds the lowest
/// supported tick index.
pub open spec fn first_start_tick_index(tick_spacing: u16) -> int {
    start_tick_index_of(-(ABS_MAX_TICK_IDX as int), tick_spacing)
}

/// The highest start tick index: that of the array that holds the highest
/// supported tick index.
pub open spec fn last_start_tick_index(tick_spacing: u16) -> int {
    start_tick_index_of(ABS_MAX_TICK_IDX as int, tick_spacing)
}

/// Number of tick arrays that cover the supported tick range.
pub open spec fn tick_array_count(tick_spacing: u16) -> nat
    recommends
        tick_spacing > 0,
{
    (floor_div(ABS_MAX_TICK_IDX as int, tick_array_width(tick_spacing)) - floor_div(
        -(ABS_MAX_TICK_IDX as int),
        tick_array_width(tick_spacing),
    ) + 1) as nat
}

/// The start tick index of the `i`-th tick array, counted from the lowest.
pub open spec fn nth_start_tick_index(tick_spacing: u16, i: int) -> int {
    first_start_tick_index(tick_spacing) + i * tick_array_width(tick_spacing)
}

/// The seeds from which a tick array's address is derived.
pub open spec fn tick_array_seeds(pool: Seq<u8>, start_tick_index: int) -> Seq<Seq<u8>> {
    seq![tick_array_label(), pool, decimal_text(start_tick_index)]
}

/// The seeds from which a whirlpool's oracle address is derived.
pub open spec fn oracle_seeds(pool: Seq<u8>) -> Seq<Seq<u8>> {
    seq![oracle_label(), pool]
}

/// The address of the tick array of `pool` that starts at `start_tick_index`.
pub open spec fn tick_array_address(pool: Seq<u8>, start_tick_index: int) -> Option<Seq<u8>> {
    match program_address(tick_array_seeds(pool, start_tick_index), whirlpool_master_bytes()) {
        Some((key, _)) => Some(key),
        None => None,
    }
}

/// The oracle address of `pool`, with its bump seed.
pub open spec fn oracle_address(pool: Seq<u8>) -> Option<(Seq<u8>, u8)> {
    program_address(oracle_seeds(pool), whirlpool_master_bytes())
}

/// The addresses of the first `n` tick arrays of `pool`, lowest first, or the
/// failure of the first one that has no address.
pub open spec fn tick_array_addresses_upto(pool: Seq<u8>, tick_spacing: u16, n: nat) -> Result<
    Seq<Seq<u8>>,
    DerivationFailure,
>
    decreases n,
{
    if n == 0 {
        Ok(Seq::empty())
    } else {
        match tick_array_addresses_upto(pool, tick_spacing, (n - 1) as nat) {
            Err(e) => Err(e),
            Ok(keys) => match tick_array_address(
                pool,
                nth_start_tick_index(tick_spacing, n - 1),
            ) {
                Some(key) => Ok(keys.push(key)),
                None => Err(
                    DerivationFailure::TickArray {
                        start_tick_index: nth_start_tick_index(tick_spacing, n - 1) as i32,
                    },
                ),
            },
        }
    }
}

/// The addresses of all tick arrays of `pool` over the supported tick range,
/// lowest first, or the failure of the first one that has no address.
pub open spec fn tick_array_addresses(pool: Seq<u8>, tick_spacing: u16) -> Result<
    Seq<Seq<u8>>,
    DerivationFailure,
> {
    tick_array_addresses_upto(pool, tick_spacing, tick_array_count(tick_spacing))
}


/// `Pubkey::try_find_program_address` of the Solana SDK: searches the bump
/// seeds from 255 downwards for the first one that gives `seeds` an address
/// under `program_id` off the curve. The result is a function of the seeds
/// and the program's key alone; it is `None` when no bump seed fits or the
/// seeds are too many or too long.
#[verifier::external_body]
fn find_program_address(seeds: &Vec<Vec<u8>>, program_id: &AccountKey) -> (found: Option<(AccountKey, u8)>)
    ensures
        match found {
            Some((key, bump)) => program_address(seeds.deep_view(), program_id@) == Some(
                (key@, bump),
            ),
            None => program_address(seeds.deep_view(), program_id@) is None,
        },
{
    let parts: Vec<&[u8]> = seeds.iter().map(|seed| seed.as_slice()).collect();
    let program = solana_sdk::pubkey::Pubkey::new_from_array(program_id.bytes);
    solana_sdk::pubkey::Pubkey::try_find_program_address(&parts, &program).map(
        |(key, bump)| (AccountKey { bytes: key.to_bytes() }, bump),
    )
}

/// `Pubkey::from_str` of the Solana SDK: the key that a base58 text spells,
/// if it spells one. Nothing is claimed of the result.
#[verifier::external_body]
fn pubkey_from_str(text: &str) -> (parsed: Option<AccountKey>) {
    match <solana_sdk::pubkey::Pubkey as std::str::FromStr>::from_str(text) {
        Ok(key) => Some(AccountKey { bytes: key.to_bytes() }),
        Err(_) => None,
    }
}

/// `Integer::div_floor` of `num_integer` on `i32`: the quotient rounded toward
/// negative infinity. With a positive divisor it neither overflows nor
/// divides by zero.
#[verifier::external_body]
fn div_floor(dividend: i32, divisor: i32) -> (quotient: i32)
    requires
        divisor > 0,
    ensures
        quotient * divisor <= dividend < (quotient + 1) * divisor,
{
    num_integer::Integer::div_floor(&dividend, &divisor)
}

/// `TICK_ARRAY_SIZE` of `orca_whirlpools_core`: the number of ticks in one
/// tick array, which is 88.
#[verifier::external_body]
fn tick_array_size() -> (size: usize)
    ensures
        size == 88,
{
    orca_whirlpools_core::TICK_ARRAY_SIZE
}

/// The key of the whirlpool program, which owns every whirlpool and the
/// accounts that belong to one.
pub fn parse_whirlpool_master_pubkey() -> (key: AccountKey)
    ensures
        key@ == whirlpool_master_bytes(),
{
    let known = AccountKey::new_from_array(
        [
            14u8, 3u8, 104u8, 95u8, 142u8, 144u8, 144u8, 83u8,
            228u8, 88u8, 18u8, 28u8, 102u8, 245u8, 167u8, 106u8,
            237u8, 199u8, 112u8, 106u8, 161u8, 28u8, 130u8, 248u8,
            170u8, 149u8, 42u8, 143u8, 43u8, 120u8, 121u8, 169u8,
        ],
    );
    assert(known@ =~= whirlpool_master_bytes());
    match pubkey_from_str("whirLbMiicVdio4qvUfM5KAg6Ct8VwpYzGff3uctyCc") {
        Some(parsed) => if parsed.same(&known) {
            parsed
        } else {
            known
        },
        None => known,
    }
}


/// The decimal text of `value` in ASCII, as `i32` is printed.
pub fn decimal_bytes(value: i32) -> (text: Vec<u8>)
    ensures
        text@ == decimal_text(value as int),
{
    let negative: bool = value < 0;
    let magnitude: u32 = if negative {
        (0 - (value as i64)) as u32
    } else {
        value as u32
    };
    let ghost digits = decimal_digits(magnitude as nat);
    let mut rest: u32 = magnitude;
    let mut low_first: Vec<u8> = Vec::new();
    while rest >= 10
        invariant
            decimal_digits(rest as nat).len() + low_first@.len() == digits.len(),
            forall|j: int|
                0 <= j < decimal_digits(rest as nat).len() ==> digits[j] == decimal_digits(
                    rest as nat,
                )[j],
            forall|j: int|
                0 <= j < low_first@.len() ==> low_first@[j] == digits[digits.len() - 1 - j],
        decreases rest,
    {
        low_first.push((48u32 + rest % 10) as u8);
        rest = rest / 10;
    }
    low_first.push((48u32 + rest) as u8);
    let mut text: Vec<u8> = Vec::new();
    if negative {
        text.push(45u8);
    }
    let ghost sign = text@;
    let mut k: usize = low_first.len();
    while k > 0
        invariant
            k <= low_first@.len(),
            low_first@.len() == digits.len(),
            forall|j: int|
                0 <= j < low_first@.len() ==> low_first@[j] == digits[digits.len() - 1 - j],
            text@ == sign + digits.subrange(0, digits.len() - k),
        decreases k,
    {
        k -= 1;
        text.push(low_first[k]);
        assert(text@ =~= sign + digits.subrange(0, digits.len() - k));
    }
    assert(digits.subrange(0, digits.len() as int) =~= digits);
    text
}

/// The role label `tick_array` as bytes.
fn tick_array_label_bytes() -> (label: Vec<u8>)
    ensures
        label@ == tick_array_label(),
{
    let label: Vec<u8> = vec![116u8, 105u8, 99u8, 107u8, 95u8, 97u8, 114u8, 114u8, 97u8, 121u8];
    assert(label@ =~= tick_array_label());
    label
}

/// The role label `oracle` as bytes.
fn oracle_label_bytes() -> (label: Vec<u8>)
    ensures
        label@ == oracle_label(),
{
    let label: Vec<u8> = vec![111u8, 114u8, 97u8, 99u8, 108u8, 101u8];
    assert(label@ =~= oracle_label());
    label
}

/// Derives the address of the tick array of a whirlpool that starts at
/// `start_tick_index`. A start tick index that no tick array can have still
/// gets an address.
pub fn get_tick_array_address(pool_pubkey: &AccountKey, start_tick_index: i32) -> (address: Result<
    AccountKey,
    DerivationFailure,
>)
    ensures
        match address {
            Ok(key) => tick_array_address(pool_pubkey@, start_tick_index as int) == Some(key@),
            Err(e) => tick_array_address(pool_pubkey@, start_tick_index as int) is None && e
                == (DerivationFailure::TickArray { start_tick_index }),
        },
{
    let mut seeds: Vec<Vec<u8>> = Vec::new();
    seeds.push(tick_array_label_bytes());
    seeds.push(pool_pubkey.to_vec());
    seeds.push(decimal_bytes(start_tick_index));
    assert(seeds.deep_view() =~~= tick_array_seeds(pool_pubkey@, start_tick_index as int));
    let whirlpool_master_pubkey = parse_whirlpool_master_pubkey();
    match find_program_address(&seeds, &whirlpool_master_pubkey) {
        Some((key, _)) => Ok(key),
        None => Err(DerivationFailure::TickArray { start_tick_index }),
    }
}

/// Derives the oracle address of a whirlpool, with its bump seed. Only
/// whirlpools with an adaptive fee have an account there.
pub fn get_oracle_address(pool_pubkey: &AccountKey) -> (address: Result<(AccountKey, u8), DerivationFailure>)
    ensures
        match address {
            Ok((key, bump)) => oracle_address(pool_pubkey@) == Some((key@, bump)),
            Err(e) => oracle_address(pool_pubkey@) is None && e == DerivationFailure::Oracle,
        },
{
    let mut seeds: Vec<Vec<u8>> = Vec::new();
    seeds.push(oracle_label_bytes());
    seeds.push(pool_pubkey.to_vec());
    assert(seeds.deep_view() =~~= oracle_seeds(pool_pubkey@));
    let whirlpool_master_pubkey = parse_whirlpool_master_pubkey();
    match find_program_address(&seeds, &whirlpool_master_pubkey) {
        Some(found) => Ok(found),
        None => Err(DerivationFailure::Oracle),
    }
}


/// Whether `addresses` is what deriving the tick arrays of `pool` gives: the
/// keys whose views are the derived addresses, or the failure.
pub open spec fn is_tick_array_derivation(
    pool: Seq<u8>,
    tick_spacing: u16,
    addresses: Result<Vec<AccountKey>, DerivationFailure>,
) -> bool {
    match addresses {
        Ok(keys) => tick_array_addresses(pool, tick_spacing) == Ok::<
            Seq<Seq<u8>>,
            DerivationFailure,
        >(key_views(keys@)),
        Err(e) => tick_array_addresses(pool, tick_spacing) == Err::<
            Seq<Seq<u8>>,
            DerivationFailure,
        >(e),
    }
}

/// The floored quotient is the only one whose multiple lies within one
/// divisor below the dividend.
pub proof fn lemma_floor_div_unique(a: int, b: int, q: int)
    requires
        b > 0,
        q * b <= a < (q + 1) * b,
    ensures
        q == floor_div(a, b),
{
    assert((q + 1) * b == q * b + b) by (nonlinear_arith);
    lemma_fundamental_div_mod_converse(a, b, q, a - q * b);
}

/// Once the address of one tick array is missing, the enumeration fails with
/// that failure however far it goes.
pub proof fn lemma_failure_persists(pool: Seq<u8>, tick_spacing: u16, i: nat, n: nat)
    requires
        i <= n,
        tick_array_addresses_upto(pool, tick_spacing, i) is Err,
    ensures
        tick_array_addresses_upto(pool, tick_spacing, n) == tick_array_addresses_upto(
            pool,
            tick_spacing,
            i,
        ),
    decreases n,
{
    if i < n {
        lemma_failure_persists(pool, tick_spacing, i, (n - 1) as nat);
    }
}

/// Derives the addresses of all tick arrays of a whirlpool, lowest start tick
/// index first.
///
/// The supported tick indices are those from `-ABS_MAX_TICK_IDX` to
/// `ABS_MAX_TICK_IDX`. A tick array covers `88 * tick_spacing` of them and
/// starts at a multiple of that width, so the first array is the one that
/// holds the lowest supported index: its start is rounded down, away from
/// zero. Most of these addresses hold no account.
pub fn get_tick_array_addresses(whirlpool_pubkey: &AccountKey, tick_spacing: &u16) -> (addresses: Result<
    Vec<AccountKey>,
    DerivationFailure,
>)
    requires
        *tick_spacing > 0,
    ensures
        is_tick_array_derivation(whirlpool_pubkey@, *tick_spacing, addresses),
{
    let abs_max_tick_idx: i32 = ABS_MAX_TICK_IDX;
    let ticks_per_array: i32 = tick_array_size() as i32;
    let spacing: i32 = *tick_spacing as i32;
    assert(ticks_per_array * spacing == 88 * spacing) by (nonlinear_arith)
        requires
            ticks_per_array == 88,
    ;
    let array_width: i32 = ticks_per_array * spacing;
    let ghost width = tick_array_width(*tick_spacing);
    let ghost pool = whirlpool_pubkey@;
    let lowest: i32 = div_floor(-abs_max_tick_idx, array_width);
    let highest: i32 = div_floor(abs_max_tick_idx, array_width);
    proof {
        lemma_floor_div_unique(-(ABS_MAX_TICK_IDX as int), width, lowest as int);
        lemma_floor_div_unique(ABS_MAX_TICK_IDX as int, width, highest as int);
        assert((lowest + 1) * width == lowest * width + width) by (nonlinear_arith);
        assert((highest + 1) * width == highest * width + width) by (nonlinear_arith);
        assert(lowest <= highest) by (nonlinear_arith)
            requires
                width > 0,
                lowest * width <= -443636,
                443636 < (highest + 1) * width,
        ;
    }
    let mut curr_start_tick_idx: i32 = lowest * array_width;
    let largest_start_tick_idx: i32 = highest * array_width;
    let mut tick_array_pubkeys: Vec<AccountKey> = Vec::new();
    let ghost count = tick_array_count(*tick_spacing);
    let ghost mut done: nat = 0;
    assert(key_views(tick_array_pubkeys@) =~= Seq::<Seq<u8>>::empty());
    while curr_start_tick_idx <= largest_start_tick_idx
        invariant
            width == tick_array_width(*tick_spacing),
            width == array_width as int,
            0 < width <= 88 * 65535,
            pool == whirlpool_pubkey@,
            count == tick_array_count(*tick_spacing),
            count == highest - lowest + 1,
            done <= count,
            largest_start_tick_idx == highest * width,
            -443636 - width < lowest * width <= -443636,
            largest_start_tick_idx <= 443636,
            curr_start_tick_idx == nth_start_tick_index(*tick_spacing, done as int),
            curr_start_tick_idx == lowest * width + done * width,
            tick_array_addresses_upto(pool, *tick_spacing, done) == Ok::<
                Seq<Seq<u8>>,
                DerivationFailure,
            >(key_views(tick_array_pubkeys@)),
        decreases count - done,
    {
        proof {
            assert(done < count) by (nonlinear_arith)
                requires
                    width > 0,
                    lowest * width + done * width <= highest * width,
                    count == highest - lowest + 1,
            ;
        }
        match get_tick_array_address(whirlpool_pubkey, curr_start_tick_idx) {
            Ok(tick_array_address) => {
                proof {
                    assert(key_views(tick_array_pubkeys@.push(tick_array_address)) =~= key_views(
                        tick_array_pubkeys@,
                    ).push(tick_array_address@));
                }
                tick_array_pubkeys.push(tick_array_address);
            },
            Err(e) => {
                proof {
                    assert(tick_array_addresses_upto(pool, *tick_spacing, done + 1) == Err::<
                        Seq<Seq<u8>>,
                        DerivationFailure,
                    >(e));
                    lemma_failure_persists(pool, *tick_spacing, done + 1, count);
                }
                return Err(e);
            },
        }
        proof {
            assert((done + 1) * width == done * width + width) by (nonlinear_arith);
            done = done + 1;
        }
        curr_start_tick_idx += array_width;
    }
    proof {
        assert(done >= count) by (nonlinear_arith)
            requires
                width > 0,
                lowest * width + done * width > highest * width,
                count == highest - lowest + 1,
                done <= count,
        ;
    }
    Ok(tick_array_pubkeys)
}


/// A start tick index is the multiple of the array width at or below the tick
/// index it is taken of, for negative tick indices too.
pub proof fn lemma_start_tick_index_of_bounds(tick: int, tick_spacing: u16)
    requires
        tick_spacing > 0,
    ensures
        start_tick_index_of(tick, tick_spacing) <= tick < start_tick_index_of(tick, tick_spacing)
            + tick_array_width(tick_spacing),
        start_tick_index_of(tick, tick_spacing) % tick_array_width(tick_spacing) == 0,
{
    let width = tick_array_width(tick_spacing);
    vstd::arithmetic::div_mod::lemma_fundamental_div_mod(tick, width);
    vstd::arithmetic::div_mod::lemma_mod_bound(tick, width);
    vstd::arithmetic::mul::lemma_mul_is_commutative(width, tick / width);
    vstd::arithmetic::div_mod::lemma_mod_multiples_basic(tick / width, width);
}

/// The enumeration starts at the array that holds the lowest supported tick
/// index and ends at the one that holds the highest, in steps of one array
/// width. The first start lies at or below `-ABS_MAX_TICK_IDX`: dividing with
/// truncation would place it one array too high whenever the width does not
/// divide the bound.
pub proof fn lemma_start_tick_range(tick_spacing: u16)
    requires
        tick_spacing > 0,
    ensures
        tick_array_count(tick_spacing) >= 1,
        nth_start_tick_index(tick_spacing, 0) == first_start_tick_index(tick_spacing),
        nth_start_tick_index(tick_spacing, tick_array_count(tick_spacing) - 1)
            == last_start_tick_index(tick_spacing),
        first_start_tick_index(tick_spacing) <= -(ABS_MAX_TICK_IDX as int)
            < first_start_tick_index(tick_spacing) + tick_array_width(tick_spacing),
        last_start_tick_index(tick_spacing) <= (ABS_MAX_TICK_IDX as int)
            < last_start_tick_index(tick_spacing) + tick_array_width(tick_spacing),
{
    let width = tick_array_width(tick_spacing);
    let lowest = floor_div(-(ABS_MAX_TICK_IDX as int), width);
    let highest = floor_div(ABS_MAX_TICK_IDX as int, width);
    lemma_start_tick_index_of_bounds(-(ABS_MAX_TICK_IDX as int), tick_spacing);
    lemma_start_tick_index_of_bounds(ABS_MAX_TICK_IDX as int, tick_spacing);
    assert(lowest <= highest) by (nonlinear_arith)
        requires
            width > 0,
            lowest * width <= -443636,
            443636 < highest * width + width,
    ;
    assert(lowest * width + (highest - lowest) * width == highest * width) by (nonlinear_arith);
}

/// A successful enumeration holds one address for each tick array of the
/// supported range, in ascending order of start tick index.
pub proof fn lemma_tick_array_addresses_elements(pool: Seq<u8>, tick_spacing: u16, n: nat)
    requires
        tick_array_addresses_upto(pool, tick_spacing, n) is Ok,
    ensures
        tick_array_addresses_upto(pool, tick_spacing, n)->Ok_0.len() == n,
        forall|i: int|
            0 <= i < n ==> tick_array_address(pool, nth_start_tick_index(tick_spacing, i)) == Some(
                #[trigger] tick_array_addresses_upto(pool, tick_spacing, n)->Ok_0[i],
            ),
    decreases n,
{
    if n > 0 {
        lemma_tick_array_addresses_elements(pool, tick_spacing, (n - 1) as nat);
    }
}

/// Derivation is deterministic: two results of deriving the tick arrays of
/// the same whirlpool at the same spacing are the same keys in the same
/// order, or the same failure.
pub proof fn lemma_derivation_deterministic(
    pool: Seq<u8>,
    tick_spacing: u16,
    once: Result<Vec<AccountKey>, DerivationFailure>,
    again: Result<Vec<AccountKey>, DerivationFailure>,
)
    requires
        is_tick_array_derivation(pool, tick_spacing, once),
        is_tick_array_derivation(pool, tick_spacing, again),
    ensures
        once is Ok <==> again is Ok,
        once is Ok ==> once->Ok_0@ == again->Ok_0@,
        once is Err ==> once->Err_0 == again->Err_0,
{
    if once is Ok {
        let a = once->Ok_0@;
        let b = again->Ok_0@;
        assert(key_views(a) == key_views(b));
        assert(a.len() == key_views(a).len());
        assert(b.len() == key_views(b).len());
        assert forall|i: int| 0 <= i < a.len() implies a[i] == b[i] by {
            assert(key_views(a)[i] == a[i]@);
            assert(key_views(b)[i] == b[i]@);
            crate::common::key::lemma_key_view_injective(a[i], b[i]);
        }
        assert(a =~= b);
    }
}


/// No spacing gives more than some ten thousand tick arrays.
pub proof fn lemma_tick_array_count_bound(tick_spacing: u16)
    requires
        tick_spacing > 0,
    ensures
        tick_array_count(tick_spacing) <= 10084,
{
    let width = tick_array_width(tick_spacing);
    let lowest = floor_div(-(ABS_MAX_TICK_IDX as int), width);
    let highest = floor_div(ABS_MAX_TICK_IDX as int, width);
    lemma_start_tick_index_of_bounds(-(ABS_MAX_TICK_IDX as int), tick_spacing);
    lemma_start_tick_index_of_bounds(ABS_MAX_TICK_IDX as int, tick_spacing);
    assert(highest - lowest <= 10083) by (nonlinear_arith)
        requires
            width >= 88,
            -443636 < lowest * width + width,
            highest * width <= 443636,
    ;
}

} // verus!
