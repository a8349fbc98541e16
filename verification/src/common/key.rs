//! The fixed-size key that addresses an account.
use vstd::prelude::*;

verus! {

/// The key type of the Solana SDK, as the accounts of outside crates hold it.
#[verifier::external_type_specification]
#[verifier::external_body]
pub struct ExSdkPubkey(solana_sdk::pubkey::Pubkey);

/// The 32 bytes that a key of the Solana SDK holds.
pub uninterp spec fn sdk_pubkey_bytes(key: solana_sdk::pubkey::Pubkey) -> Seq<u8>;

/// The address of an on-chain account: 32 raw bytes.
#[derive(Clone, Copy, Debug, PartialEq, Eq, Hash)]
pub struct AccountKey {
    pub bytes: [u8; 32],
}

impl View for AccountKey {
    type V = Seq<u8>;

    open spec fn view(&self) -> Seq<u8> {
        self.bytes@
    }
}

impl AccountKey {
    /// The key made of the given bytes.
    pub fn new_from_array(bytes: [u8; 32]) -> (key: AccountKey)
        ensures
            key.bytes == bytes,
            key@ == bytes@,
    {
        AccountKey { bytes }
    }

    /// The bytes of the key.
    pub fn to_bytes(&self) -> (bytes: [u8; 32])
        ensures
            bytes == self.bytes,
            bytes@ == self@,
    {
        self.bytes
    }

    /// The bytes of the key as a freshly allocated vector.
    pub fn to_vec(&self) -> (out: Vec<u8>)
        ensures
            out@ == self@,
    {
        let mut out: Vec<u8> = Vec::new();
        let mut i: usize = 0;
        while i < 32
            invariant
                i <= 32,
                out@ == self@.subrange(0, i as int),
            decreases 32 - i,
        {
            out.push(self.bytes[i]);
            i += 1;
        }
        assert(self@.subrange(0, 32) == self@);
        out
    }

    /// Whether two keys hold the same bytes.
    pub fn same(&self, other: &AccountKey) -> (equal: bool)
        ensures
            equal == (self@ == other@),
            equal == (*self == *other),
    {
        let mut i: usize = 0;
        while i < 32
            invariant
                i <= 32,
                forall|j: int| 0 <= j < i ==> self.bytes[j] == other.bytes[j],
            decreases 32 - i,
        {
            if self.bytes[i] != other.bytes[i] {
                assert(self@[i as int] != other@[i as int]);
                return false;
            }
            i += 1;
        }
        assert(self@ =~= other@);
        assert(self.bytes =~= other.bytes);
        true
    }
}

/// `Pubkey::to_bytes` of the Solana SDK: the bytes of the key, copied into a
/// key of this library.
#[verifier::external_body]
pub(crate) fn pubkey_from_sdk(key: &solana_sdk::pubkey::Pubkey) -> (copied: AccountKey)
    ensures
        copied@ == sdk_pubkey_bytes(*key),
{
    AccountKey { bytes: key.to_bytes() }
}

/// Keys are equal exactly when their views are.
pub proof fn lemma_key_view_injective(a: AccountKey, b: AccountKey)
    ensures
        (a@ == b@) <==> (a == b),
{
    if a@ == b@ {
        assert(a.bytes =~= b.bytes);
    }
}

/// The views of a list of keys.
pub open spec fn key_views(keys: Seq<AccountKey>) -> Seq<Seq<u8>> {
    keys.map_values(|k: AccountKey| k@)
}

} // verus!
