//! Sources of the raw bytes of an account.
//!
//! Whatever a provider returns for an account only has to hand over the
//! account's data, so the library is not tied to one account type.
use vstd::prelude::*;

verus! {

/// The account type of the Solana SDK, with its fields.
#[verifier::external_type_specification]
pub struct ExAccount(solana_sdk::account::Account);

/// Any type that can provide the raw byte data of an account.
pub trait AccountData {
    /// The account's data.
    spec fn data(&self) -> Seq<u8>;

    /// Read-only access to the account's data.
    fn bytes(&self) -> (bytes: &[u8])
        ensures
            bytes@ == self.data(),
    ;

    /// Consumes the account and returns its data without copying it.
    fn into_bytes(self) -> (bytes: Vec<u8>) where Self: Sized
        ensures
            bytes@ == self.data(),
    ;
}

impl AccountData for solana_sdk::account::Account {
    open spec fn data(&self) -> Seq<u8> {
        self.data@
    }

    fn bytes(&self) -> (bytes: &[u8]) {
        self.data.as_slice()
    }

    fn into_bytes(self) -> (bytes: Vec<u8>) {
        self.data
    }
}

} // verus!
