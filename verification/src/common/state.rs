//! A single cached account: its raw bytes, the value decoded from them, and
//! how fresh they are.
use crate::common::account::AccountData;
use crate::common::deserialize::AccountKind;
use crate::common::deserialize::DecodeFailure;
use crate::common::deserialize::Deserializable;
use crate::common::key::AccountKey;
use crate::common::rpc::RpcResponse;
use orca_whirlpools_client::Oracle;
use orca_whirlpools_client::TickArray;
use orca_whirlpools_client::Whirlpool;
use spl_token::state::Mint;
use std::sync::Arc;
use vstd::prelude::*;

verus! {

/// The value decoded from an account's bytes, one variant for each kind of
/// account.
#[derive(Debug)]
pub enum Decoded {
    Whirlpool(Whirlpool),
    TickArray(TickArray),
    Oracle(Oracle),
    Mint(Mint),
}

impl Decoded {
    /// The kind of account that the value is of.
    pub open spec fn spec_kind(&self) -> AccountKind {
        match self {
            Decoded::Whirlpool(_) => AccountKind::Whirlpool,
            Decoded::TickArray(_) => AccountKind::TickArray,
            Decoded::Oracle(_) => AccountKind::Oracle,
            Decoded::Mint(_) => AccountKind::Mint,
        }
    }

    /// The kind of account that the value is of.
    #[verifier::when_used_as_spec(spec_kind)]
    pub fn kind(&self) -> (kind: AccountKind)
        ensures
            kind == self.spec_kind(),
    {
        match self {
            Decoded::Whirlpool(_) => AccountKind::Whirlpool,
            Decoded::TickArray(_) => AccountKind::TickArray,
            Decoded::Oracle(_) => AccountKind::Oracle,
            Decoded::Mint(_) => AccountKind::Mint,
        }
    }

    /// The whirlpool, if the value is one.
    pub fn as_whirlpool(&self) -> (value: Option<&Whirlpool>)
        ensures
            match value {
                Some(whirlpool) => *self == Decoded::Whirlpool(*whirlpool),
                None => self.spec_kind() != AccountKind::Whirlpool,
            },
    {
        match self {
            Decoded::Whirlpool(whirlpool) => Some(whirlpool),
            _ => None,
        }
    }

    /// The tick array, if the value is one.
    pub fn as_tick_array(&self) -> (value: Option<&TickArray>)
        ensures
            match value {
                Some(tick_array) => *self == Decoded::TickArray(*tick_array),
                None => self.spec_kind() != AccountKind::TickArray,
            },
    {
        match self {
            Decoded::TickArray(tick_array) => Some(tick_array),
            _ => None,
        }
    }

    /// The oracle, if the value is one.
    pub fn as_oracle(&self) -> (value: Option<&Oracle>)
        ensures
            match value {
                Some(oracle) => *self == Decoded::Oracle(*oracle),
                None => self.spec_kind() != AccountKind::Oracle,
            },
    {
        match self {
            Decoded::Oracle(oracle) => Some(oracle),
            _ => None,
        }
    }

    /// The mint, if the value is one.
    pub fn as_mint(&self) -> (value: Option<&Mint>)
        ensures
            match value {
                Some(mint) => *self == Decoded::Mint(*mint),
                None => self.spec_kind() != AccountKind::Mint,
            },
    {
        match self {
            Decoded::Mint(mint) => Some(mint),
            _ => None,
        }
    }
}

/// What decoding `bytes` as an account of `kind` gives: the value, or the
/// decoder's reason for refusing the bytes.
pub open spec fn decoding(kind: AccountKind, bytes: Seq<u8>) -> Result<Decoded, Seq<char>> {
    match kind {
        AccountKind::Whirlpool => match <Whirlpool as Deserializable>::decoding(bytes) {
            Ok(value) => Ok(Decoded::Whirlpool(value)),
            Err(reason) => Err(reason),
        },
        AccountKind::TickArray => match <TickArray as Deserializable>::decoding(bytes) {
            Ok(value) => Ok(Decoded::TickArray(value)),
            Err(reason) => Err(reason),
        },
        AccountKind::Oracle => match <Oracle as Deserializable>::decoding(bytes) {
            Ok(value) => Ok(Decoded::Oracle(value)),
            Err(reason) => Err(reason),
        },
        AccountKind::Mint => match <Mint as Deserializable>::decoding(bytes) {
            Ok(value) => Ok(Decoded::Mint(value)),
            Err(reason) => Err(reason),
        },
    }
}

/// Whether `outcome` is what decoding `bytes` as an account of `kind` gives.
pub open spec fn is_decoding(
    kind: AccountKind,
    bytes: Seq<u8>,
    outcome: Result<Decoded, DecodeFailure>,
) -> bool {
    match outcome {
        Ok(value) => decoding(kind, bytes) == Ok::<Decoded, Seq<char>>(value),
        Err(failure) => decoding(kind, bytes) == Err::<Decoded, Seq<char>>(failure.reason@)
            && failure.kind == kind,
    }
}

/// Decodes `bytes` as an account of `kind`.
pub fn decode(kind: AccountKind, bytes: &[u8]) -> (outcome: Result<Decoded, DecodeFailure>)
    ensures
        is_decoding(kind, bytes@, outcome),
        outcome matches Ok(value) ==> value.spec_kind() == kind,
{
    match kind {
        AccountKind::Whirlpool => match <Whirlpool as Deserializable>::from_bytes(bytes) {
            Ok(value) => Ok(Decoded::Whirlpool(value)),
            Err(failure) => Err(failure),
        },
        AccountKind::TickArray => match <TickArray as Deserializable>::from_bytes(bytes) {
            Ok(value) => Ok(Decoded::TickArray(value)),
            Err(failure) => Err(failure),
        },
        AccountKind::Oracle => match <Oracle as Deserializable>::from_bytes(bytes) {
            Ok(value) => Ok(Decoded::Oracle(value)),
            Err(failure) => Err(failure),
        },
        AccountKind::Mint => match <Mint as Deserializable>::from_bytes(bytes) {
            Ok(value) => Ok(Decoded::Mint(value)),
            Err(failure) => Err(failure),
        },
    }
}


/// The slot that holds an account's raw bytes: an `ArcSwap` of the byte
/// vector. A reader takes a counted reference to the current vector and keeps
/// it whatever is stored afterwards.
#[verifier::external_body]
pub struct BytesSlot {
    inner: arc_swap::ArcSwap<Vec<u8>>,
}

/// The slot that holds an account's decoded value: an `ArcSwap` of the value.
/// A reader takes a counted reference to the current value and keeps it
/// whatever is stored afterwards.
#[verifier::external_body]
pub struct DecodedSlot {
    inner: arc_swap::ArcSwap<Decoded>,
}

/// The bytes that a slot currently holds.
pub uninterp spec fn slot_bytes(slot: BytesSlot) -> Seq<u8>;

/// The decoded value that a slot currently holds.
pub uninterp spec fn slot_decoded(slot: DecodedSlot) -> Decoded;

/// `ArcSwap::from_pointee`: a new slot that holds the given bytes.
#[verifier::external_body]
fn bytes_slot_new(bytes: Vec<u8>) -> (slot: BytesSlot)
    ensures
        slot_bytes(slot) == bytes@,
{
    BytesSlot { inner: arc_swap::ArcSwap::from_pointee(bytes) }
}

/// `ArcSwap::store`: replaces what the slot holds; later loads give the new
/// bytes.
#[verifier::external_body]
fn bytes_slot_store(slot: &mut BytesSlot, bytes: Vec<u8>)
    ensures
        slot_bytes(*final(slot)) == bytes@,
{
    slot.inner.store(Arc::new(bytes));
}

/// `ArcSwap::load_full`: a counted reference to what the slot holds.
#[verifier::external_body]
fn bytes_slot_load(slot: &BytesSlot) -> (bytes: Arc<Vec<u8>>)
    ensures
        bytes@ == slot_bytes(*slot),
{
    slot.inner.load_full()
}

/// `ArcSwap::from_pointee`: a new slot that holds the given value.
#[verifier::external_body]
fn decoded_slot_new(value: Decoded) -> (slot: DecodedSlot)
    ensures
        slot_decoded(slot) == value,
{
    DecodedSlot { inner: arc_swap::ArcSwap::from_pointee(value) }
}

/// `ArcSwap::store`: replaces what the slot holds; later loads give the new
/// value.
#[verifier::external_body]
fn decoded_slot_store(slot: &mut DecodedSlot, value: Decoded)
    ensures
        slot_decoded(*final(slot)) == value,
{
    slot.inner.store(Arc::new(value));
}

/// `ArcSwap::load_full`: a counted reference to what the slot holds.
#[verifier::external_body]
fn decoded_slot_load(slot: &DecodedSlot) -> (value: Arc<Decoded>)
    ensures
        *value == slot_decoded(*slot),
{
    slot.inner.load_full()
}

/// What a cached account holds at one moment.
pub ghost struct AccountSnapshot {
    /// The key of the account; it never changes.
    pub pubkey: AccountKey,
    /// The kind of account that the bytes are decoded as; it never changes.
    pub kind: AccountKind,
    /// The raw bytes last stored.
    pub bytes: Seq<u8>,
    /// 1 for a new account, one more after each successful update.
    pub version: u64,
    /// The time that came with the bytes last stored.
    pub last_update_time: u64,
}

impl AccountSnapshot {
    /// The value decoded from the bytes held.
    pub open spec fn decoded(self) -> Decoded {
        decoding(self.kind, self.bytes)->Ok_0
    }

    /// Whether `bytes` can be stored: whether they decode as the account's
    /// kind.
    pub open spec fn accepts(self, bytes: Seq<u8>) -> bool {
        decoding(self.kind, bytes) is Ok
    }

    /// The account after an attempt to store `bytes` received at `time`:
    /// unchanged if they do not decode, else holding them at the next
    /// version. The version wraps around after `u64::MAX`.
    pub open spec fn after_update(self, bytes: Seq<u8>, time: u64) -> AccountSnapshot {
        if self.accepts(bytes) {
            AccountSnapshot {
                bytes,
                version: if self.version == u64::MAX {
                    0
                } else {
                    (self.version + 1) as u64
                },
                last_update_time: time,
                ..self
            }
        } else {
            self
        }
    }
}

/// The behaviour of one cached account, whatever kind of account it is.
pub trait AccountState: Sized {
    /// What the account holds.
    spec fn snapshot(&self) -> AccountSnapshot;

    /// Whether the account is well formed: its decoded value is the decoding
    /// of its bytes.
    spec fn wf(&self) -> bool;

    /// Replaces the account's bytes and decoded value by those of `new_bytes`,
    /// received at `update_time`. Bytes that do not decode leave the account
    /// as it was.
    fn update(&mut self, new_bytes: Vec<u8>, update_time: u64) -> (outcome: Result<
        (),
        DecodeFailure,
    >)
        requires
            old(self).wf(),
        ensures
            final(self).wf(),
            final(self).snapshot() == old(self).snapshot().after_update(new_bytes@, update_time),
            match outcome {
                Ok(_) => old(self).snapshot().accepts(new_bytes@),
                Err(failure) => *final(self) == *old(self) && failure.kind == old(
                    self,
                ).snapshot().kind && decoding(failure.kind, new_bytes@) == Err::<
                    Decoded,
                    Seq<char>,
                >(failure.reason@),
            },
    ;

    /// The account's key.
    fn pubkey(&self) -> (key: &AccountKey)
        ensures
            *key == self.snapshot().pubkey,
    ;

    /// The raw bytes that the account holds now. The reference stays valid,
    /// and the bytes the same, when the account is updated later.
    fn bytes(&self) -> (bytes: Arc<Vec<u8>>)
        ensures
            bytes@ == self.snapshot().bytes,
    ;

    /// The kind of account, by which a caller knows which variant the decoded
    /// value has.
    fn kind(&self) -> (kind: AccountKind)
        ensures
            kind == self.snapshot().kind,
    ;
}

/// The cached state of one on-chain account.
///
/// The bytes and the decoded value each sit in a slot of their own that is
/// replaced as a whole, so a reference taken from either is never half
/// written.
pub struct ManagedAccount {
    /// The key of the account.
    pubkey: AccountKey,
    /// The kind of account that the bytes are decoded as.
    kind: AccountKind,
    /// The raw byte data.
    bytes: BytesSlot,
    /// The value decoded from the bytes.
    deserialized: DecodedSlot,
    /// Counts the successful stores: 1 after construction.
    update_slot: u64,
    /// Unix time in nanoseconds that came with the bytes last stored.
    last_update_time: u64,
}

impl View for ManagedAccount {
    type V = AccountSnapshot;

    closed spec fn view(&self) -> AccountSnapshot {
        AccountSnapshot {
            pubkey: self.pubkey,
            kind: self.kind,
            bytes: slot_bytes(self.bytes),
            version: self.update_slot,
            last_update_time: self.last_update_time,
        }
    }
}

impl ManagedAccount {
    /// Whether the decoded value held is the decoding of the bytes held.
    pub closed spec fn well_formed(&self) -> bool {
        decoding(self.kind, slot_bytes(self.bytes)) == Ok::<Decoded, Seq<char>>(
            slot_decoded(self.deserialized),
        )
    }

    /// A well-formed account holds bytes that decode.
    pub proof fn lemma_well_formed_decodes(&self)
        requires
            self.well_formed(),
        ensures
            self@.accepts(self@.bytes),
            self@.decoded().spec_kind() == self@.kind,
    {
    }

    /// Constructs the account from the bytes of the on-chain account, received
    /// at `initial_time`. Fails if the bytes do not decode as `kind`.
    pub fn new_initialized_from_bytes(
        pubkey: AccountKey,
        kind: AccountKind,
        initial_bytes: Vec<u8>,
        initial_time: u64,
    ) -> (account: Result<Self, DecodeFailure>)
        ensures
            match account {
                Ok(created) => created.well_formed() && created@ == (AccountSnapshot {
                    pubkey,
                    kind,
                    bytes: initial_bytes@,
                    version: 1,
                    last_update_time: initial_time,
                }) && decoding(kind, initial_bytes@) is Ok,
                Err(failure) => failure.kind == kind && decoding(kind, initial_bytes@) == Err::<
                    Decoded,
                    Seq<char>,
                >(failure.reason@),
            },
    {
        let initial_deserialized = match decode(kind, initial_bytes.as_slice()) {
            Ok(value) => value,
            Err(failure) => {
                return Err(failure);
            },
        };
        Ok(
            ManagedAccount {
                pubkey,
                kind,
                bytes: bytes_slot_new(initial_bytes),
                deserialized: decoded_slot_new(initial_deserialized),
                update_slot: 1,
                last_update_time: initial_time,
            },
        )
    }

    /// Constructs the account from a provider's answer to a request for it.
    pub fn new_initialized_from_rpc<A: AccountData>(
        pubkey: AccountKey,
        kind: AccountKind,
        response: &RpcResponse<A>,
    ) -> (account: Result<Self, DecodeFailure>)
        ensures
            match account {
                Ok(created) => created.well_formed() && created@ == (AccountSnapshot {
                    pubkey,
                    kind,
                    bytes: response.result.data(),
                    version: 1,
                    last_update_time: response.response_time,
                }) && decoding(kind, response.result.data()) is Ok,
                Err(failure) => failure.kind == kind && decoding(kind, response.result.data())
                    == Err::<Decoded, Seq<char>>(failure.reason@),
            },
    {
        let time: u64 = response.response_time;
        let initial_bytes: Vec<u8> = slice_to_vec(response.result.bytes());
        Self::new_initialized_from_bytes(pubkey, kind, initial_bytes, time)
    }

    /// Whether the account has been populated with on-chain data: whether its
    /// version is above 0.
    pub fn is_initialized(&self) -> (initialized: bool)
        ensures
            initialized == (self@.version > 0),
    {
        self.update_slot > 0
    }

    /// The decoded value that the account holds now. The reference stays
    /// valid, and the value the same, when the account is updated later.
    pub fn get(&self) -> (value: Arc<Decoded>)
        requires
            self.well_formed(),
        ensures
            *value == self@.decoded(),
            value.spec_kind() == self@.kind,
    {
        decoded_slot_load(&self.deserialized)
    }

    /// The number of successful stores so far, construction included.
    pub fn version(&self) -> (version: u64)
        ensures
            version == self@.version,
    {
        self.update_slot
    }

    /// The time that came with the bytes held.
    pub fn last_update_time(&self) -> (time: u64)
        ensures
            time == self@.last_update_time,
    {
        self.last_update_time
    }
}

/// A copy of the bytes of a slice.
pub fn slice_to_vec(bytes: &[u8]) -> (copied: Vec<u8>)
    ensures
        copied@ == bytes@,
{
    let mut copied: Vec<u8> = Vec::new();
    let mut i: usize = 0;
    while i < bytes.len()
        invariant
            i <= bytes@.len(),
            copied@ == bytes@.subrange(0, i as int),
        decreases bytes@.len() - i,
    {
        copied.push(bytes[i]);
        i += 1;
    }
    assert(bytes@.subrange(0, bytes@.len() as int) == bytes@);
    copied
}

impl AccountState for ManagedAccount {
    open spec fn snapshot(&self) -> AccountSnapshot {
        self@
    }

    open spec fn wf(&self) -> bool {
        self.well_formed()
    }

    fn update(&mut self, new_bytes: Vec<u8>, update_time: u64) -> (outcome: Result<
        (),
        DecodeFailure,
    >) {
        let new_deserialized = match decode(self.kind, new_bytes.as_slice()) {
            Ok(value) => value,
            Err(failure) => {
                return Err(failure);
            },
        };
        bytes_slot_store(&mut self.bytes, new_bytes);
        decoded_slot_store(&mut self.deserialized, new_deserialized);
        self.update_slot = self.update_slot.wrapping_add(1);
        self.last_update_time = update_time;
        Ok(())
    }

    fn pubkey(&self) -> (key: &AccountKey) {
        &self.pubkey
    }

    fn bytes(&self) -> (bytes: Arc<Vec<u8>>) {
        bytes_slot_load(&self.bytes)
    }

    fn kind(&self) -> (kind: AccountKind) {
        self.kind
    }
}


/// The account after a sequence of update attempts, each a pair of bytes and
/// the time they came with, applied in order.
pub open spec fn after_updates(start: AccountSnapshot, updates: Seq<(Seq<u8>, u64)>) -> AccountSnapshot
    decreases updates.len(),
{
    if updates.len() == 0 {
        start
    } else {
        after_updates(start, updates.drop_last()).after_update(updates.last().0, updates.last().1)
    }
}

/// How many of the update attempts hold bytes that decode as `kind`.
pub open spec fn successful_updates(kind: AccountKind, updates: Seq<(Seq<u8>, u64)>) -> nat
    decreases updates.len(),
{
    if updates.len() == 0 {
        0
    } else if decoding(kind, updates.last().0) is Ok {
        successful_updates(kind, updates.drop_last()) + 1
    } else {
        successful_updates(kind, updates.drop_last())
    }
}

/// The last of the update attempts whose bytes decode as `kind`, if any does.
pub open spec fn last_successful_update(kind: AccountKind, updates: Seq<(Seq<u8>, u64)>) -> Option<
    (Seq<u8>, u64),
>
    decreases updates.len(),
{
    if updates.len() == 0 {
        None
    } else if decoding(kind, updates.last().0) is Ok {
        Some(updates.last())
    } else {
        last_successful_update(kind, updates.drop_last())
    }
}

/// After any sequence of update attempts the key and the kind are those of
/// the start, the version has grown by the number of attempts that decoded,
/// and the bytes and time are those of the last attempt that decoded, or
/// those of the start if none did. The version is counted up to `u64::MAX`.
pub proof fn lemma_updates_accumulate(start: AccountSnapshot, updates: Seq<(Seq<u8>, u64)>)
    requires
        start.version + successful_updates(start.kind, updates) <= u64::MAX,
    ensures
        after_updates(start, updates).pubkey == start.pubkey,
        after_updates(start, updates).kind == start.kind,
        after_updates(start, updates).version == start.version + successful_updates(
            start.kind,
            updates,
        ),
        match last_successful_update(start.kind, updates) {
            Some((bytes, time)) => after_updates(start, updates).bytes == bytes && after_updates(
                start,
                updates,
            ).last_update_time == time,
            None => after_updates(start, updates).bytes == start.bytes && after_updates(
                start,
                updates,
            ).last_update_time == start.last_update_time,
        },
    decreases updates.len(),
{
    if updates.len() > 0 {
        lemma_updates_accumulate(start, updates.drop_last());
    }
}

/// Bytes that do not decode change nothing, and bytes that decode are what
/// the account holds afterwards.
pub proof fn lemma_update_keeps_or_replaces(start: AccountSnapshot, bytes: Seq<u8>, time: u64)
    ensures
        !start.accepts(bytes) ==> start.after_update(bytes, time) == start,
        start.accepts(bytes) ==> start.after_update(bytes, time).bytes == bytes
            && start.after_update(bytes, time).decoded() == decoding(start.kind, bytes)->Ok_0,
        start.after_update(bytes, time).pubkey == start.pubkey,
        start.after_update(bytes, time).kind == start.kind,
{
}

} // verus!
