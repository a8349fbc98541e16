//! Decoding typed account values from raw bytes.
use vstd::prelude::*;

verus! {

/// The kinds of account that can be decoded and cached.
#[derive(Clone, Copy, Debug, PartialEq, Eq, Hash, Structural)]
pub enum AccountKind {
    /// The primary account of an Orca whirlpool.
    Whirlpool,
    /// One range of ticks of a whirlpool.
    TickArray,
    /// The adaptive-fee oracle of a whirlpool.
    Oracle,
    /// An SPL token mint.
    Mint,
}

/// Bytes that do not hold an account of the expected kind.
#[derive(Clone, Debug)]
pub struct DecodeFailure {
    /// The kind that the bytes were expected to hold.
    pub kind: AccountKind,
    /// The decoder's own account of what is wrong with the bytes.
    pub reason: String,
}

/// A typed account value that can be decoded from the raw bytes of an
/// account.
///
/// Exchanges decode their accounts in different ways; this trait gives them
/// one interface. Decoding is a function of the bytes alone: `decoding` names
/// its outcome, the value or the decoder's reason for refusing the bytes.
pub trait Deserializable: Sized {
    /// The kind of account that the type holds.
    spec fn kind() -> AccountKind;

    /// What decoding `bytes` gives.
    spec fn decoding(bytes: Seq<u8>) -> Result<Self, Seq<char>>;

    /// Decodes a value from `bytes`.
    fn from_bytes(bytes: &[u8]) -> (decoded: Result<Self, DecodeFailure>)
        ensures
            match decoded {
                Ok(value) => Self::decoding(bytes@) == Ok::<Self, Seq<char>>(value),
                Err(failure) => Self::decoding(bytes@) == Err::<Self, Seq<char>>(failure.reason@)
                    && failure.kind == Self::kind(),
            },
    ;
}

} // verus!
