//! Decoding of token mint accounts, by the token program's own unpacking.
use crate::common::deserialize::AccountKind;
use crate::common::deserialize::DecodeFailure;
use crate::common::deserialize::Deserializable;
use spl_token::solana_program::program_pack::Pack;
use spl_token::state::Mint;
use vstd::prelude::*;

verus! {

/// The decoded mint account of the token program.
#[verifier::external_type_specification]
#[verifier::external_body]
pub struct ExMint(spl_token::state::Mint);

/// Length in bytes of a packed mint account.
pub const MINT_LEN: usize = 82;

/// What `Mint::unpack` of the token program gives on `bytes`: the mint, or the
/// text of its error.
pub uninterp spec fn mint_decoding(bytes: Seq<u8>) -> Result<Mint, Seq<char>>;

/// `Pack::unpack` of the token program on `Mint`: refuses input that is not
/// exactly 82 bytes long, reads the fixed layout, and refuses a mint that is
/// not initialised. The outcome is a function of the bytes alone; an error is
/// handed on as its text.
#[verifier::external_body]
fn mint_unpack(bytes: &[u8]) -> (decoded: Result<Mint, String>)
    ensures
        match decoded {
            Ok(value) => mint_decoding(bytes@) == Ok::<Mint, Seq<char>>(value),
            Err(reason) => mint_decoding(bytes@) == Err::<Mint, Seq<char>>(reason@),
        },
        decoded is Ok ==> bytes@.len() == MINT_LEN,
{
    Mint::unpack(bytes).map_err(|e| e.to_string())
}

impl Deserializable for Mint {
    open spec fn kind() -> AccountKind {
        AccountKind::Mint
    }

    open spec fn decoding(bytes: Seq<u8>) -> Result<Self, Seq<char>> {
        mint_decoding(bytes)
    }

    fn from_bytes(bytes: &[u8]) -> (decoded: Result<Self, DecodeFailure>)
        ensures
            decoded is Ok ==> bytes@.len() == MINT_LEN,
    {
        match mint_unpack(bytes) {
            Ok(value) => Ok(value),
            Err(reason) => Err(DecodeFailure { kind: AccountKind::Mint, reason }),
        }
    }
}

} // verus!
