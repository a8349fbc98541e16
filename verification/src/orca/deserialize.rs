//! Decoding of the accounts of the whirlpool program: `Whirlpool`,
//! `TickArray` and `Oracle`, each by the whirlpool client's own decoder.
use crate::common::deserialize::AccountKind;
use crate::common::deserialize::DecodeFailure;
use crate::common::deserialize::Deserializable;
use orca_whirlpools_client::Oracle;
use orca_whirlpools_client::TickArray;
use orca_whirlpools_client::Whirlpool;
use vstd::prelude::*;

verus! {

/// The reward record inside a whirlpool account.
#[verifier::external_type_specification]
#[verifier::external_body]
pub struct ExWhirlpoolRewardInfo(orca_whirlpools_client::WhirlpoolRewardInfo);

/// The decoded whirlpool account of the whirlpool client, with its fields.
#[verifier::external_type_specification]
pub struct ExWhirlpool(orca_whirlpools_client::Whirlpool);

/// The decoded tick array account of the whirlpool client.
#[verifier::external_type_specification]
#[verifier::external_body]
pub struct ExTickArray(orca_whirlpools_client::TickArray);

/// The decoded oracle account of the whirlpool client.
#[verifier::external_type_specification]
#[verifier::external_body]
pub struct ExOracle(orca_whirlpools_client::Oracle);

/// What `Whirlpool::from_bytes` of the whirlpool client gives on `bytes`: the
/// account, or the text of its error.
pub uninterp spec fn whirlpool_decoding(bytes: Seq<u8>) -> Result<Whirlpool, Seq<char>>;

/// What `TickArray::from_bytes` of the whirlpool client gives on `bytes`: the
/// account, or the text of its error.
pub uninterp spec fn tick_array_decoding(bytes: Seq<u8>) -> Result<TickArray, Seq<char>>;

/// What `Oracle::from_bytes` of the whirlpool client gives on `bytes`: the
/// account, or the text of its error.
pub uninterp spec fn oracle_decoding(bytes: Seq<u8>) -> Result<Oracle, Seq<char>>;

/// `Whirlpool::from_bytes` of the whirlpool client: reads the account's
/// fields from the front of `bytes` in Borsh layout. The outcome is a function
/// of the bytes alone; an error is handed on as its text.
#[verifier::external_body]
fn whirlpool_from_bytes(bytes: &[u8]) -> (decoded: Result<Whirlpool, String>)
    ensures
        match decoded {
            Ok(value) => whirlpool_decoding(bytes@) == Ok::<Whirlpool, Seq<char>>(value),
            Err(reason) => whirlpool_decoding(bytes@) == Err::<Whirlpool, Seq<char>>(reason@),
        },
{
    Whirlpool::from_bytes(bytes).map_err(|e| e.to_string())
}

/// `TickArray::from_bytes` of the whirlpool client: tells a fixed from a
/// dynamic tick array by the first eight bytes and reads it in Borsh layout.
/// The outcome is a function of the bytes alone; an error is handed on as its
/// text.
#[verifier::external_body]
fn tick_array_from_bytes(bytes: &[u8]) -> (decoded: Result<TickArray, String>)
    ensures
        match decoded {
            Ok(value) => tick_array_decoding(bytes@) == Ok::<TickArray, Seq<char>>(value),
            Err(reason) => tick_array_decoding(bytes@) == Err::<TickArray, Seq<char>>(reason@),
        },
{
    TickArray::from_bytes(bytes).map_err(|e| e.to_string())
}

/// `Oracle::from_bytes` of the whirlpool client: reads the account's fields
/// from the front of `bytes` in Borsh layout. The outcome is a function of the
/// bytes alone; an error is handed on as its text.
#[verifier::external_body]
fn oracle_from_bytes(bytes: &[u8]) -> (decoded: Result<Oracle, String>)
    ensures
        match decoded {
            Ok(value) => oracle_decoding(bytes@) == Ok::<Oracle, Seq<char>>(value),
            Err(reason) => oracle_decoding(bytes@) == Err::<Oracle, Seq<char>>(reason@),
        },
{
    Oracle::from_bytes(bytes).map_err(|e| e.to_string())
}

impl Deserializable for Whirlpool {
    open spec fn kind() -> AccountKind {
        AccountKind::Whirlpool
    }

    open spec fn decoding(bytes: Seq<u8>) -> Result<Self, Seq<char>> {
        whirlpool_decoding(bytes)
    }

    fn from_bytes(bytes: &[u8]) -> (decoded: Result<Self, DecodeFailure>) {
        match whirlpool_from_bytes(bytes) {
            Ok(value) => Ok(value),
            Err(reason) => Err(DecodeFailure { kind: AccountKind::Whirlpool, reason }),
        }
    }
}

impl Deserializable for TickArray {
    open spec fn kind() -> AccountKind {
        AccountKind::TickArray
    }

    open spec fn decoding(bytes: Seq<u8>) -> Result<Self, Seq<char>> {
        tick_array_decoding(bytes)
    }

    fn from_bytes(bytes: &[u8]) -> (decoded: Result<Self, DecodeFailure>) {
        match tick_array_from_bytes(bytes) {
            Ok(value) => Ok(value),
            Err(reason) => Err(DecodeFailure { kind: AccountKind::TickArray, reason }),
        }
    }
}

impl Deserializable for Oracle {
    open spec fn kind() -> AccountKind {
        AccountKind::Oracle
    }

    open spec fn decoding(bytes: Seq<u8>) -> Result<Self, Seq<char>> {
        oracle_decoding(bytes)
    }

    fn from_bytes(bytes: &[u8]) -> (decoded: Result<Self, DecodeFailure>) {
        match oracle_from_bytes(bytes) {
            Ok(value) => Ok(value),
            Err(reason) => Err(DecodeFailure { kind: AccountKind::Oracle, reason }),
        }
    }
}

} // verus!
